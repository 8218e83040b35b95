use mail_mover::message::Message;
use mail_mover::rules::{check_message_matches, check_message_spam, CompiledRule, Rule, SpamFilterSettings};

fn message_from(from: &str) -> Message {
    Message { from: from.to_string(), ..Default::default() }
}

#[test]
fn test_mail_mover_matches_domain() {
    let settings = Rule {
        from: Some(vec![r"nuovapromo\.it$".to_string()]),
        ..Default::default()
    };

    let spam_message = Message {
        from: "support@nw.nuovapromo.it".to_string(),
        ..Default::default()
    };

    assert!(check_message_matches(&spam_message, &settings));
}

#[test]
fn test_spam_filter_ignores_good_email() {
    let settings = Rule {
        from: Some(vec![r"maildelgiorno\.it$".to_string()]),
        ..Default::default()
    };

    let good_message = Message {
        from: "friend@gmail.com".to_string(),
        ..Default::default()
    };

    assert!(!check_message_matches(&good_message, &settings));
}

#[test]
fn domain_pattern_rejects_other_sender() {
    let rule = Rule { from: Some(vec![r"nuovapromo\.it$".to_string()]), ..Default::default() };
    assert!(!check_message_matches(&message_from("friend@gmail.com"), &rule));
}

#[test]
fn rule_without_lists_never_matches() {
    let rule = Rule { target_folder: "Archive".to_string(), ..Default::default() };
    let m = Message {
        from: "a@b.c".to_string(),
        subject: "anything".to_string(),
        content: Some("text".to_string()),
        ..Default::default()
    };
    assert!(!check_message_matches(&m, &rule));
}

#[test]
fn empty_lists_never_match() {
    let rule = Rule { from: Some(vec![]), title: Some(vec![]), body: Some(vec![]), ..Default::default() };
    assert!(!check_message_matches(&message_from("a@b.c"), &rule));
}

#[test]
fn search_is_unanchored() {
    let rule = Rule { title: Some(vec!["sale".to_string()]), ..Default::default() };
    let m = Message { subject: "Big sale today".to_string(), ..Default::default() };
    assert!(check_message_matches(&m, &rule));
}

#[test]
fn any_pattern_of_a_list_is_enough() {
    let rule = Rule {
        from: Some(vec!["nomatch".to_string(), "example\\.org$".to_string()]),
        ..Default::default()
    };
    assert!(check_message_matches(&message_from("x@example.org"), &rule));
}

#[test]
fn categories_are_or_ed() {
    let rule = Rule {
        from: Some(vec!["nomatch".to_string()]),
        title: Some(vec!["^Invoice".to_string()]),
        ..Default::default()
    };
    let m = Message { from: "a@b.c".to_string(), subject: "Invoice 42".to_string(), ..Default::default() };
    assert!(check_message_matches(&m, &rule));
}

#[test]
fn body_pattern_without_content_does_not_match() {
    let rule = Rule { body: Some(vec![".*".to_string()]), ..Default::default() };
    let m = Message { content: None, ..Default::default() };
    assert!(!check_message_matches(&m, &rule));
}

#[test]
fn body_pattern_with_content_matches() {
    let rule = Rule { body: Some(vec!["unsubscribe".to_string()]), ..Default::default() };
    let m = Message { content: Some("click to unsubscribe".to_string()), ..Default::default() };
    assert!(check_message_matches(&m, &rule));
}

#[test]
fn invalid_pattern_is_refused() {
    let rule = Rule { from: Some(vec!["ok".to_string(), "(unclosed".to_string()]), ..Default::default() };
    match CompiledRule::compile(&rule) {
        Ok(_) => panic!("an unclosed group must not compile"),
        Err(e) => assert_eq!(e.pattern, "(unclosed"),
    }
}

#[test]
fn rule_with_invalid_pattern_matches_nothing() {
    let rule = Rule { from: Some(vec!["(".to_string(), ".*".to_string()]), ..Default::default() };
    assert!(!check_message_matches(&message_from("a@b.c"), &rule));
}

#[test]
fn spam_filter_matches_on_title() {
    let settings = SpamFilterSettings {
        from_regular_expressions: vec![],
        title_regular_expressions: vec!["(?i)winner".to_string()],
        body_regular_expressions: vec!["lottery".to_string()],
    };
    let m = Message { subject: "You are a WINNER".to_string(), ..Default::default() };
    assert!(check_message_spam(&m, &settings));
    let n = Message { subject: "Minutes".to_string(), content: None, ..Default::default() };
    assert!(!check_message_spam(&n, &settings));
}
