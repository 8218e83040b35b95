use mail_mover::dates::sort_messages_by_date_desc;
use mail_mover::message::{
    extract_attachments, extract_text_content, message_from_part, process_message, ExtractError,
    HeaderField, Message, MimePart,
};
use mail_mover::text::find_parameter;

fn header(name: &str, value: &str) -> HeaderField {
    HeaderField { name: name.to_string(), value: value.to_string() }
}

fn dated(date: &str) -> Message {
    Message { date: date.to_string(), ..Default::default() }
}

#[test]
fn sort_puts_newest_first_and_unparseable_last() {
    let mut batch = vec![
        dated("garbage"),
        dated("Tue, 1 Jul 2003 10:52:37 +0200"),
        dated("zzz"),
        dated("Wed, 18 Feb 2015 23:16:09 GMT"),
    ];
    sort_messages_by_date_desc(&mut batch);
    let order: Vec<&str> = batch.iter().map(|m| m.date.as_str()).collect();
    assert_eq!(
        order,
        vec!["Wed, 18 Feb 2015 23:16:09 GMT", "Tue, 1 Jul 2003 10:52:37 +0200", "zzz", "garbage"]
    );
}

#[test]
fn sort_compares_instants_across_offsets() {
    let mut batch = vec![dated("Tue, 1 Jul 2003 10:00:00 +0000"), dated("Tue, 1 Jul 2003 11:30:00 +0200")];
    sort_messages_by_date_desc(&mut batch);
    assert_eq!(batch[0].date, "Tue, 1 Jul 2003 10:00:00 +0000");
}

#[test]
fn sort_keeps_order_of_equal_dates() {
    let mut first = dated("Wed, 18 Feb 2015 23:16:09 GMT");
    first.subject = "first".to_string();
    let mut second = dated("Wed, 18 Feb 2015 23:16:09 +0000");
    second.subject = "second".to_string();
    let mut batch = vec![dated("Tue, 1 Jul 2003 10:52:37 +0200"), first, second];
    sort_messages_by_date_desc(&mut batch);
    let order: Vec<&str> = batch.iter().map(|m| m.subject.as_str()).collect();
    assert_eq!(order, vec!["first", "second", ""]);
}

#[test]
fn sort_of_empty_batch() {
    let mut batch: Vec<Message> = vec![];
    sort_messages_by_date_desc(&mut batch);
    assert!(batch.is_empty());
}

#[test]
fn filename_parameter_is_unquoted() {
    assert_eq!(find_parameter("attachment; filename=\"report.pdf\"", "filename="), Some("report.pdf".to_string()));
    assert_eq!(find_parameter("attachment; filename=a.txt", "filename="), Some("a.txt".to_string()));
    assert_eq!(find_parameter("attachment", "filename="), None);
    assert_eq!(find_parameter("x; filename=a; filename=b", "filename="), Some("a; ".to_string()));
}

#[test]
fn text_body_is_first_text_part_in_preorder() {
    let html = MimePart {
        headers: vec![header("Content-Type", "text/html")],
        text_body: Some("<p>hi</p>".to_string()),
        ..Default::default()
    };
    let plain = MimePart {
        headers: vec![header("Content-Type", "text/plain")],
        text_body: Some("hi".to_string()),
        ..Default::default()
    };
    let inner = MimePart {
        headers: vec![header("Content-Type", "multipart/alternative")],
        subparts: vec![html],
        ..Default::default()
    };
    let root = MimePart {
        headers: vec![header("content-type", "multipart/mixed")],
        subparts: vec![inner, plain],
        ..Default::default()
    };
    assert_eq!(extract_text_content(&root), Ok(Some("<p>hi</p>".to_string())));
}

#[test]
fn part_without_content_type_is_text() {
    let root = MimePart { text_body: Some("plain body".to_string()), ..Default::default() };
    assert_eq!(extract_text_content(&root), Ok(Some("plain body".to_string())));
}

#[test]
fn undecodable_text_part_is_an_error() {
    let root = MimePart { text_body: None, ..Default::default() };
    assert_eq!(extract_text_content(&root), Err(ExtractError::UndecodableBody));
}

#[test]
fn attachments_are_collected_depth_first() {
    let deep = MimePart {
        headers: vec![header("Content-Disposition", "ATTACHMENT; filename=\"deep.bin\"")],
        raw_body: Some(vec![1, 2, 3]),
        ..Default::default()
    };
    let nested = MimePart {
        headers: vec![header("Content-Type", "multipart/mixed")],
        subparts: vec![deep],
        ..Default::default()
    };
    let top = MimePart {
        headers: vec![
            header("Content-Type", "image/png"),
            header("Content-Disposition", "attachment"),
        ],
        raw_body: Some(vec![9]),
        ..Default::default()
    };
    let root = MimePart {
        headers: vec![header("Content-Type", "multipart/mixed")],
        subparts: vec![nested, top],
        ..Default::default()
    };
    let found = extract_attachments(&root).unwrap();
    assert_eq!(found.len(), 2);
    assert_eq!(found[0].filename, "deep.bin");
    assert_eq!(found[0].content_type, "text/plain");
    assert_eq!(found[0].size, 3);
    assert_eq!(found[0].content, vec![1, 2, 3]);
    assert_eq!(found[1].filename, "unnamed_attachment");
    assert_eq!(found[1].content_type, "image/png");
    assert_eq!(found[1].size, 1);
}

#[test]
fn missing_subject_gives_missing_header() {
    let root = MimePart {
        headers: vec![header("From", "a@b.c"), header("Date", "today")],
        text_body: Some("x".to_string()),
        ..Default::default()
    };
    assert_eq!(message_from_part(&root).err(), Some(ExtractError::MissingHeader));
}

#[test]
fn first_header_wins_case_insensitively() {
    let root = MimePart {
        headers: vec![
            header("SUBJECT", "first"),
            header("Subject", "second"),
            header("from", "a@b.c"),
            header("Date", "today"),
        ],
        text_body: Some("x".to_string()),
        ..Default::default()
    };
    let m = message_from_part(&root).unwrap();
    assert_eq!(m.subject, "first");
    assert_eq!(m.from, "a@b.c");
    assert_eq!(m.message_id, None);
    assert_eq!(m.content, Some("x".to_string()));
}

#[test]
fn raw_multipart_message_is_extracted() {
    let raw = [
        "From: Alice <alice@example.com>\r\n",
        "To: bob@example.com\r\n",
        "Subject: Report\r\n",
        "Date: Wed, 18 Feb 2015 23:16:09 GMT\r\n",
        "Message-ID: <42@example.com>\r\n",
        "Content-Type: multipart/mixed; boundary=\"XYZ\"\r\n",
        "\r\n",
        "--XYZ\r\n",
        "Content-Type: text/plain\r\n",
        "\r\n",
        "Hello Bob\r\n",
        "--XYZ\r\n",
        "Content-Type: application/octet-stream\r\n",
        "Content-Disposition: attachment; filename=\"data.bin\"\r\n",
        "Content-Transfer-Encoding: base64\r\n",
        "\r\n",
        "AQID\r\n",
        "--XYZ--\r\n",
    ]
    .concat();
    let m = process_message(raw.as_bytes()).unwrap();
    assert_eq!(m.subject, "Report");
    assert_eq!(m.from, "Alice <alice@example.com>");
    assert_eq!(m.to, Some("bob@example.com".to_string()));
    assert_eq!(m.message_id, Some("<42@example.com>".to_string()));
    assert_eq!(m.content.as_deref().map(|c| c.trim_end()), Some("Hello Bob"));
    assert_eq!(m.attachments.len(), 1);
    assert_eq!(m.attachments[0].filename, "data.bin");
    assert_eq!(m.attachments[0].content_type, "application/octet-stream");
    assert_eq!(m.attachments[0].content, vec![1, 2, 3]);
    assert_eq!(m.attachments[0].size, 3);
}

#[test]
fn raw_message_without_date_is_dropped() {
    let raw = "From: a@b.c\r\nSubject: s\r\n\r\nbody\r\n";
    assert_eq!(process_message(raw.as_bytes()).err(), Some(ExtractError::MissingHeader));
}
