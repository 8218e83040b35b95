use mail_mover::coordinator::{ActionOutcome, PlannedAction, RuleRun, RunError, RunPhase};
use mail_mover::executor::{Action, ActionError, LookupError, MessageLookup};
use mail_mover::modes::{validate_modes, ModeCheck, OperationMode, RunGuard};
use mail_mover::rules::{Rule, RuleWrapper, RulesConfig, SpamFilterSettings};
use mail_mover::session::{calculate_message_range, decimal_text, message_id_search, Command, Reply};

fn raw_message(from: &str, message_id: Option<&str>, date: &str) -> Vec<u8> {
    let mut text = format!("From: {}\r\nSubject: Offer\r\nDate: {}\r\n", from, date);
    if let Some(id) = message_id {
        text.push_str(&format!("Message-ID: {}\r\n", id));
    }
    text.push_str("\r\nBuy now\r\n");
    text.into_bytes()
}

fn rules_config(rules: Vec<Rule>) -> RulesConfig {
    RulesConfig { messages_to_check: 10, rules: rules.into_iter().map(|rule| RuleWrapper { rule }).collect() }
}

fn spam_rule(target: &str) -> Rule {
    Rule {
        target_folder: target.to_string(),
        from: Some(vec![r"spam\.example\.com$".to_string()]),
        ..Default::default()
    }
}

/// Drives a run through connect, login, select and fetch of `records`,
/// returning the command that follows the fetch.
fn run_until_fetched(run: &mut RuleRun, records: Vec<Vec<u8>>) -> Option<Command> {
    assert!(matches!(run.start(), Command::Connect));
    assert!(matches!(run.on_reply(Reply::Connected), Some(Command::Login)));
    match run.on_reply(Reply::LoggedIn) {
        Some(Command::Select { mailbox }) => assert_eq!(mailbox, "INBOX"),
        other => panic!("expected a select, got {:?}", other),
    }
    let count = records.len() as u32;
    match run.on_reply(Reply::Selected { exists: count }) {
        Some(Command::Fetch { range }) => assert_eq!(range, format!("1:{}", count)),
        other => panic!("expected a fetch, got {:?}", other),
    }
    run.on_reply(Reply::Fetched { records })
}

/// Answers the commands of one move: select, search, uid search, move.
/// Returns the folder of the move command and the command after it.
fn complete_move(run: &mut RuleRun, first: Option<Command>, uid: u32) -> (String, Option<Command>) {
    assert!(matches!(first, Some(Command::Select { .. })));
    assert!(matches!(run.on_reply(Reply::Selected { exists: 1 }), Some(Command::Search { .. })));
    assert!(matches!(run.on_reply(Reply::Found { ids: vec![1] }), Some(Command::UidSearch { .. })));
    let folder = match run.on_reply(Reply::Found { ids: vec![uid] }) {
        Some(Command::UidMove { uid: u, mailbox }) => {
            assert_eq!(u, uid);
            mailbox
        },
        other => panic!("expected a move, got {:?}", other),
    };
    (folder, run.on_reply(Reply::Done))
}

#[test]
fn range_of_most_recent_messages() {
    assert_eq!(calculate_message_range(5, 10), Some("1:5".to_string()));
    assert_eq!(calculate_message_range(20, 10), Some("11:20".to_string()));
    assert_eq!(calculate_message_range(10, 10), Some("1:10".to_string()));
    assert_eq!(calculate_message_range(0, 10), None);
    assert_eq!(calculate_message_range(5, 0), None);
    assert_eq!(calculate_message_range(4294967295, 1), Some("4294967295:4294967295".to_string()));
}

#[test]
fn decimal_text_has_no_leading_zeros() {
    assert_eq!(decimal_text(0), "0");
    assert_eq!(decimal_text(7), "7");
    assert_eq!(decimal_text(10), "10");
    assert_eq!(decimal_text(4294967295), "4294967295");
}

#[test]
fn criterion_names_the_message_id() {
    assert_eq!(message_id_search(&"<1@x>".to_string()), "HEADER Message-ID <1@x>");
}

#[test]
fn matching_message_is_moved_once() {
    let mut run = RuleRun::for_rules(&rules_config(vec![spam_rule("Spam")]), "INBOX".to_string()).unwrap();
    let next = run_until_fetched(
        &mut run,
        vec![raw_message("x@spam.example.com", Some("<1@x>"), "Wed, 18 Feb 2015 23:16:09 GMT")],
    );
    assert_eq!(run.plan().len(), 1);
    match &run.plan()[0] {
        PlannedAction::Move { message_id, target_folder } => {
            assert_eq!(message_id, "<1@x>");
            assert_eq!(target_folder, "Spam");
        },
        other => panic!("expected a move, got {:?}", other),
    }
    let (folder, after) = complete_move(&mut run, next, 7);
    assert_eq!(folder, "Spam");
    assert!(matches!(after, Some(Command::Logout)));
    assert!(run.on_reply(Reply::Done).is_none());
    assert_eq!(run.phase(), RunPhase::Finished);
    assert_eq!(run.error(), None);
    assert_eq!(run.outcomes(), &vec![ActionOutcome::Completed]);
}

#[test]
fn message_without_id_is_skipped() {
    let mut run = RuleRun::for_rules(&rules_config(vec![spam_rule("Spam")]), "INBOX".to_string()).unwrap();
    let next = run_until_fetched(
        &mut run,
        vec![raw_message("x@spam.example.com", None, "Wed, 18 Feb 2015 23:16:09 GMT")],
    );
    assert!(matches!(next, Some(Command::Logout)));
    assert!(matches!(&run.plan()[0], PlannedAction::SkipMissingId { subject } if subject == "Offer"));
    assert_eq!(run.outcomes(), &vec![ActionOutcome::SkippedMissingId]);
    assert!(run.on_reply(Reply::Done).is_none());
    assert_eq!(run.error(), None);
}

#[test]
fn two_matching_rules_give_two_moves_in_rule_order() {
    let config = rules_config(vec![spam_rule("First"), spam_rule("Second")]);
    let mut run = RuleRun::for_rules(&config, "INBOX".to_string()).unwrap();
    let next = run_until_fetched(
        &mut run,
        vec![raw_message("x@spam.example.com", Some("<1@x>"), "Wed, 18 Feb 2015 23:16:09 GMT")],
    );
    let (folder, next) = complete_move(&mut run, next, 7);
    assert_eq!(folder, "First");
    assert!(matches!(next, Some(Command::Select { .. })));
    assert!(matches!(run.on_reply(Reply::Selected { exists: 0 }), Some(Command::Search { .. })));
    assert!(matches!(run.on_reply(Reply::Found { ids: vec![] }), Some(Command::Logout)));
    assert_eq!(
        run.outcomes(),
        &vec![ActionOutcome::Completed, ActionOutcome::Failed(ActionError::NotFound)]
    );
    match &run.plan()[1] {
        PlannedAction::Move { target_folder, .. } => assert_eq!(target_folder, "Second"),
        other => panic!("expected a move, got {:?}", other),
    }
}

#[test]
fn failed_move_does_not_stop_the_run() {
    let mut run = RuleRun::for_rules(&rules_config(vec![spam_rule("Spam")]), "INBOX".to_string()).unwrap();
    let next = run_until_fetched(
        &mut run,
        vec![
            raw_message("a@spam.example.com", Some("<1@x>"), "Wed, 18 Feb 2015 23:16:09 GMT"),
            raw_message("b@spam.example.com", Some("<2@x>"), "Tue, 1 Jul 2003 10:52:37 +0200"),
        ],
    );
    assert!(matches!(next, Some(Command::Select { .. })));
    assert!(matches!(run.on_reply(Reply::Failed), Some(Command::Select { .. })));
    assert_eq!(run.outcomes(), &vec![ActionOutcome::Failed(ActionError::Protocol)]);
}

#[test]
fn batch_is_planned_newest_first() {
    let mut run = RuleRun::for_rules(&rules_config(vec![spam_rule("Spam")]), "INBOX".to_string()).unwrap();
    run_until_fetched(
        &mut run,
        vec![
            raw_message("a@spam.example.com", Some("<old@x>"), "Tue, 1 Jul 2003 10:52:37 +0200"),
            raw_message("b@spam.example.com", Some("<new@x>"), "Wed, 18 Feb 2015 23:16:09 GMT"),
        ],
    );
    assert_eq!(run.messages()[0].message_id, Some("<new@x>".to_string()));
    assert!(matches!(&run.plan()[0], PlannedAction::Move { message_id, .. } if message_id == "<new@x>"));
}

#[test]
fn unparseable_records_are_dropped() {
    let mut run = RuleRun::for_rules(&rules_config(vec![spam_rule("Spam")]), "INBOX".to_string()).unwrap();
    let next = run_until_fetched(&mut run, vec![b"no headers here".to_vec()]);
    assert!(matches!(next, Some(Command::Logout)));
    assert!(run.messages().is_empty());
}

#[test]
fn empty_mailbox_fetches_nothing() {
    let mut run = RuleRun::for_rules(&rules_config(vec![spam_rule("Spam")]), "INBOX".to_string()).unwrap();
    run.start();
    run.on_reply(Reply::Connected);
    run.on_reply(Reply::LoggedIn);
    assert!(matches!(run.on_reply(Reply::Selected { exists: 0 }), Some(Command::Logout)));
    assert!(run.on_reply(Reply::Done).is_none());
    assert_eq!(run.error(), None);
}

#[test]
fn connection_failure_is_fatal() {
    let mut run = RuleRun::for_rules(&rules_config(vec![]), "INBOX".to_string()).unwrap();
    run.start();
    assert!(run.on_reply(Reply::Failed).is_none());
    assert_eq!(run.error(), Some(RunError::Connection));
    assert!(run.on_reply(Reply::Connected).is_none());
}

#[test]
fn authentication_failure_is_fatal() {
    let mut run = RuleRun::for_rules(&rules_config(vec![]), "INBOX".to_string()).unwrap();
    run.start();
    run.on_reply(Reply::Connected);
    assert!(run.on_reply(Reply::Failed).is_none());
    assert_eq!(run.error(), Some(RunError::Authentication));
}

#[test]
fn fetch_failure_stops_the_run() {
    let mut run = RuleRun::for_rules(&rules_config(vec![]), "INBOX".to_string()).unwrap();
    run.start();
    run.on_reply(Reply::Connected);
    run.on_reply(Reply::LoggedIn);
    run.on_reply(Reply::Selected { exists: 3 });
    assert!(run.on_reply(Reply::Failed).is_none());
    assert_eq!(run.error(), Some(RunError::Protocol));
}

#[test]
fn invalid_rule_pattern_refuses_the_run() {
    let rule = Rule { from: Some(vec!["[".to_string()]), ..Default::default() };
    assert!(RuleRun::for_rules(&rules_config(vec![rule]), "INBOX".to_string()).is_err());
}

#[test]
fn spam_filter_run_moves_to_spam() {
    let settings = SpamFilterSettings {
        from_regular_expressions: vec![r"spam\.example\.com$".to_string()],
        title_regular_expressions: vec![],
        body_regular_expressions: vec![],
    };
    let mut run = RuleRun::for_spam_filter(&settings, "INBOX".to_string(), "Spam".to_string(), 10).unwrap();
    let next = run_until_fetched(
        &mut run,
        vec![raw_message("x@spam.example.com", Some("<1@x>"), "Wed, 18 Feb 2015 23:16:09 GMT")],
    );
    let (folder, _) = complete_move(&mut run, next, 3);
    assert_eq!(folder, "Spam");
}

#[test]
fn move_action_steps() {
    let (mut action, first) = Action::start_move("<1@x>".to_string(), "INBOX".to_string(), "Spam".to_string());
    assert!(matches!(first, Command::Select { mailbox } if mailbox == "INBOX"));
    match action.on_reply(&Reply::Selected { exists: 4 }) {
        Some(Command::Search { criterion }) => assert_eq!(criterion, "HEADER Message-ID <1@x>"),
        other => panic!("expected a search, got {:?}", other),
    }
    assert!(matches!(action.on_reply(&Reply::Found { ids: vec![2] }), Some(Command::UidSearch { .. })));
    assert!(matches!(action.on_reply(&Reply::Found { ids: vec![40, 41] }), Some(Command::UidMove { uid: 40, .. })));
    assert!(action.on_reply(&Reply::Done).is_none());
    assert_eq!(action.result(), Some(Ok(())));
}

#[test]
fn move_of_absent_message_is_not_found() {
    let (mut action, _) = Action::start_move("<9@x>".to_string(), "INBOX".to_string(), "Spam".to_string());
    action.on_reply(&Reply::Selected { exists: 4 });
    assert!(action.on_reply(&Reply::Found { ids: vec![] }).is_none());
    assert_eq!(action.result(), Some(Err(ActionError::NotFound)));
}

#[test]
fn delete_action_steps() {
    let (mut action, _) = Action::start_delete("<1@x>".to_string(), "INBOX".to_string());
    assert!(matches!(action.on_reply(&Reply::Selected { exists: 4 }), Some(Command::UidSearch { .. })));
    assert!(matches!(action.on_reply(&Reply::Found { ids: vec![8] }), Some(Command::UidStoreDeleted { uid: 8 })));
    assert!(matches!(action.on_reply(&Reply::Done), Some(Command::Expunge)));
    assert!(action.on_reply(&Reply::Done).is_none());
    assert_eq!(action.result(), Some(Ok(())));
}

#[test]
fn out_of_turn_reply_is_a_protocol_error() {
    let (mut action, _) = Action::start_delete("<1@x>".to_string(), "INBOX".to_string());
    assert!(action.on_reply(&Reply::Done).is_none());
    assert_eq!(action.result(), Some(Err(ActionError::Protocol)));
}

#[test]
fn lookup_fetches_first_hit() {
    let (mut lookup, _) = MessageLookup::start("<1@x>".to_string(), "INBOX".to_string());
    lookup.on_reply(Reply::Selected { exists: 3 });
    match lookup.on_reply(Reply::Found { ids: vec![12] }) {
        Some(Command::FetchMessage { sequence }) => assert_eq!(sequence, "12"),
        other => panic!("expected a fetch, got {:?}", other),
    }
    let raw = raw_message("a@b.c", Some("<1@x>"), "Wed, 18 Feb 2015 23:16:09 GMT");
    assert!(lookup.on_reply(Reply::Fetched { records: vec![raw] }).is_none());
    let found = lookup.result().unwrap().unwrap().unwrap();
    assert_eq!(found.from, "a@b.c");
}

#[test]
fn lookup_of_unreadable_record_is_none() {
    let (mut lookup, _) = MessageLookup::start("<1@x>".to_string(), "INBOX".to_string());
    lookup.on_reply(Reply::Selected { exists: 3 });
    lookup.on_reply(Reply::Found { ids: vec![2] });
    assert!(lookup.on_reply(Reply::Fetched { records: vec![b"no headers".to_vec()] }).is_none());
    assert!(matches!(lookup.result(), Some(Ok(None))));
}

#[test]
fn lookup_without_hit_is_none() {
    let (mut lookup, _) = MessageLookup::start("<1@x>".to_string(), "INBOX".to_string());
    lookup.on_reply(Reply::Selected { exists: 3 });
    assert!(lookup.on_reply(Reply::Found { ids: vec![] }).is_none());
    assert!(matches!(lookup.result(), Some(Ok(None))));
}

#[test]
fn lookup_failure_is_protocol_error() {
    let (mut lookup, _) = MessageLookup::start("<1@x>".to_string(), "INBOX".to_string());
    assert!(lookup.on_reply(Reply::Failed).is_none());
    assert!(matches!(lookup.result(), Some(Err(LookupError::Protocol))));
}

#[test]
fn no_flag_means_once() {
    assert_eq!(OperationMode::from_flags(false, false, false, false, false), vec![]);
    assert_eq!(OperationMode::or_default(vec![]), vec![OperationMode::Once]);
    assert_eq!(OperationMode::or_default(vec![OperationMode::Web]), vec![OperationMode::Web]);
    assert_eq!(
        OperationMode::from_flags(true, false, true, false, true),
        vec![OperationMode::Once, OperationMode::Web, OperationMode::Spam]
    );
}

#[test]
fn mixing_server_and_processing_is_flagged() {
    assert_eq!(validate_modes(&vec![OperationMode::Web, OperationMode::Once]), ModeCheck::MixesServerAndProcessing);
    assert_eq!(validate_modes(&vec![OperationMode::Web, OperationMode::Rest]), ModeCheck::Consistent);
    assert_eq!(validate_modes(&vec![]), ModeCheck::Consistent);
}

#[test]
fn guard_refuses_overlapping_runs() {
    let mut guard = RunGuard::new();
    assert!(guard.try_begin());
    assert!(!guard.try_begin());
    guard.end();
    assert!(guard.try_begin());
}
