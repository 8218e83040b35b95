use vstd::prelude::*;

use crate::text::{
    eq_ignore_ascii_case, equal_ignoring_ascii_case, find_chars, find_from, find_parameter,
    has_prefix, chars_of, opt_view, parameter_after, starts_with,
};

verus! {

/// One message of a fetched batch.
#[derive(Debug, Clone, Default)]
pub struct Message {
    pub subject: String,
    pub from: String,
    pub date: String,
    pub to: Option<String>,
    pub cc: Option<String>,
    pub bcc: Option<String>,
    pub reply_to: Option<String>,
    pub message_id: Option<String>,
    pub content_type: Option<String>,
    pub content: Option<String>,
    pub attachments: Vec<Attachment>,
}

/// One attachment of a message, in depth-first discovery order.
#[derive(Debug, Clone, Default)]
pub struct Attachment {
    pub filename: String,
    pub content_type: String,
    pub size: usize,
    pub content: Vec<u8>,
}

/// Why a fetched record gives no message.
#[derive(Debug, Clone, Copy, PartialEq, Eq)]
pub enum ExtractError {
    /// The record is not a MIME message.
    Unparseable,
    /// The text part that was chosen, or an attachment, could not be decoded.
    UndecodableBody,
    /// Subject, From or Date is absent.
    MissingHeader,
}

/// One header line of a MIME part, its value decoded.
#[derive(Debug, Clone, Default)]
pub struct HeaderField {
    pub name: String,
    pub value: String,
}

/// One node of the MIME tree of a message: its headers, its body decoded as
/// text and as bytes (`None` where decoding failed), and its subparts.
#[derive(Debug, Default)]
pub struct MimePart {
    pub headers: Vec<HeaderField>,
    pub text_body: Option<String>,
    pub raw_body: Option<Vec<u8>>,
    pub subparts: Vec<MimePart>,
}

/// The value of the first header named `name`, compared without regard to
/// the case of ASCII letters.
pub open spec fn first_value(headers: Seq<HeaderField>, name: Seq<char>) -> Option<Seq<char>>
    decreases headers.len(),
{
    if headers.len() == 0 {
        None
    } else if eq_ignore_ascii_case(headers[0].name@, name) {
        Some(headers[0].value@)
    } else {
        first_value(headers.drop_first(), name)
    }
}

/// The value of the first header named `name` (ASCII case ignored).
pub fn header_value(headers: &Vec<HeaderField>, name: &str) -> (r: Option<String>)
    ensures
        opt_view(r) == first_value(headers@, name@),
{
    assert(headers@.subrange(0, headers@.len() as int) =~= headers@);
    for i in 0..headers.len()
        invariant
            first_value(headers@, name@) == first_value(
                headers@.subrange(i as int, headers@.len() as int),
                name@,
            ),
    {
        assert(headers@.subrange(i as int, headers@.len() as int).drop_first() =~= headers@.subrange(
            i + 1,
            headers@.len() as int,
        ));
        if equal_ignoring_ascii_case(headers[i].name.as_str(), name) {
            return Some(headers[i].value.clone());
        }
    }
    assert(headers@.subrange(headers@.len() as int, headers@.len() as int).len() == 0);
    None
}

/// The Content-Type header of a part, if any.
pub open spec fn part_type(p: MimePart) -> Option<Seq<char>> {
    first_value(p.headers@, "Content-Type"@)
}

/// A part is textual when its content type starts with `text/`; a part
/// without a content type counts as `text/plain`.
pub open spec fn is_text_part(p: MimePart) -> bool {
    match part_type(p) {
        Some(t) => starts_with(t, "text/"@),
        None => true,
    }
}

/// The text body: the first textual part in pre-order, depth first. `Err`
/// when that part's body could not be decoded; `Ok(None)` when no part is
/// textual.
pub open spec fn text_in(p: MimePart) -> Result<Option<Seq<char>>, ()>
    decreases p, 0int,
{
    if is_text_part(p) {
        match p.text_body {
            Some(t) => Ok(Some(t@)),
            None => Err(()),
        }
    } else {
        text_in_parts(p.subparts@, 0)
    }
}

/// The text body found in `parts[i..]`, searched in order.
pub open spec fn text_in_parts(parts: Seq<MimePart>, i: int) -> Result<Option<Seq<char>>, ()>
    decreases parts, parts.len() - i,
{
    if i < 0 || i >= parts.len() {
        Ok(None)
    } else {
        match text_in(parts[i]) {
            Ok(None) => text_in_parts(parts, i + 1),
            found => found,
        }
    }
}

pub open spec fn text_result_agrees(r: Result<Option<String>, ExtractError>, s: Result<Option<Seq<char>>, ()>) -> bool {
    match (r, s) {
        (Ok(Some(a)), Ok(Some(b))) => a@ == b,
        (Ok(None), Ok(None)) => true,
        (Err(e), Err(_)) => e == ExtractError::UndecodableBody,
        _ => false,
    }
}

fn is_text(p: &MimePart) -> (r: bool)
    ensures
        r == is_text_part(*p),
{
    match header_value(&p.headers, "Content-Type") {
        Some(t) => has_prefix(t.as_str(), "text/"),
        None => true,
    }
}

/// The text body of the tree rooted at `p`: the first textual part in
/// pre-order; the search stops there.
pub fn extract_text_content(p: &MimePart) -> (r: Result<Option<String>, ExtractError>)
    ensures
        text_result_agrees(r, text_in(*p)),
    decreases p,
{
    if is_text(p) {
        return match &p.text_body {
            Some(t) => Ok(Some(t.clone())),
            None => Err(ExtractError::UndecodableBody),
        };
    }
    for i in 0..p.subparts.len()
        invariant
            !is_text_part(*p),
            text_in(*p) == text_in_parts(p.subparts@, i as int),
    {
        let found = extract_text_content(&p.subparts[i]);
        match found {
            Ok(None) => {},
            _ => return found,
        }
    }
    Ok(None)
}

/// What `str::to_lowercase` returns for `s`.
pub uninterp spec fn lower_of(s: Seq<char>) -> Seq<char>;

/// Relies on `str::to_lowercase`: the result depends on the characters alone.
#[verifier::external_body]
fn lowercase(s: &str) -> (r: String)
    ensures
        r@ == lower_of(s@),
{
    s.to_lowercase()
}

/// The Content-Disposition header of a part, if any.
pub open spec fn part_disposition(p: MimePart) -> Option<Seq<char>> {
    first_value(p.headers@, "Content-Disposition"@)
}

/// A part is an attachment when its disposition, lowercased, contains
/// `attachment`.
pub open spec fn is_attachment_part(p: MimePart) -> bool {
    match part_disposition(p) {
        Some(d) => find_from(lower_of(d), "attachment"@, 0) is Some,
        None => false,
    }
}

/// The `filename=` parameter of the disposition, or a placeholder.
pub open spec fn attachment_filename(p: MimePart) -> Seq<char> {
    match part_disposition(p) {
        Some(d) => match parameter_after(d, "filename="@) {
            Some(f) => f,
            None => "unnamed_attachment"@,
        },
        None => "unnamed_attachment"@,
    }
}

/// The content type of a part, `text/plain` when it has none.
pub open spec fn attachment_type(p: MimePart) -> Seq<char> {
    match part_type(p) {
        Some(t) => t,
        None => "text/plain"@,
    }
}

/// An attachment as plain values: file name, content type and bytes.
pub type AttachmentView = (Seq<char>, Seq<char>, Seq<u8>);

pub open spec fn attachment_view(a: Attachment) -> AttachmentView {
    (a.filename@, a.content_type@, a.content@)
}

pub open spec fn attachment_views(s: Seq<Attachment>) -> Seq<AttachmentView> {
    s.map_values(|a: Attachment| attachment_view(a))
}

/// Each attachment's size is the length of its content.
pub open spec fn sizes_agree(s: Seq<Attachment>) -> bool {
    forall|i: int| 0 <= i < s.len() ==> (#[trigger] s[i]).size == s[i].content@.len()
}

pub open spec fn prepend(a: Seq<AttachmentView>, r: Result<Seq<AttachmentView>, ()>) -> Result<Seq<AttachmentView>, ()> {
    match r {
        Ok(b) => Ok(a + b),
        Err(e) => Err(e),
    }
}

/// The part's own attachment, if it is one; `Err` when its bytes could not
/// be decoded.
pub open spec fn own_attachment(p: MimePart) -> Result<Seq<AttachmentView>, ()> {
    if is_attachment_part(p) {
        match p.raw_body {
            Some(b) => Ok(seq![(attachment_filename(p), attachment_type(p), b@)]),
            None => Err(()),
        }
    } else {
        Ok(seq![])
    }
}

/// Every attachment of the tree rooted at `p`, in pre-order, depth first;
/// `Err` when one of them could not be decoded.
pub open spec fn attachments_in(p: MimePart) -> Result<Seq<AttachmentView>, ()>
    decreases p, 0int,
{
    match own_attachment(p) {
        Ok(own) => prepend(own, attachments_in_parts(p.subparts@, 0)),
        Err(e) => Err(e),
    }
}

/// The attachments of `parts[i..]`, in order.
pub open spec fn attachments_in_parts(parts: Seq<MimePart>, i: int) -> Result<Seq<AttachmentView>, ()>
    decreases parts, parts.len() - i,
{
    if i < 0 || i >= parts.len() {
        Ok(seq![])
    } else {
        match attachments_in(parts[i]) {
            Ok(a) => prepend(a, attachments_in_parts(parts, i + 1)),
            Err(e) => Err(e),
        }
    }
}

pub open spec fn attachments_agree(r: Result<Vec<Attachment>, ExtractError>, s: Result<Seq<AttachmentView>, ()>) -> bool {
    match (r, s) {
        (Ok(v), Ok(w)) => attachment_views(v@) == w && sizes_agree(v@),
        (Err(e), Err(_)) => e == ExtractError::UndecodableBody,
        _ => false,
    }
}

fn is_attachment(p: &MimePart) -> (r: bool)
    ensures
        r == is_attachment_part(*p),
{
    match header_value(&p.headers, "Content-Disposition") {
        Some(d) => {
            let lowered = lowercase(d.as_str());
            let haystack = chars_of(lowered.as_str());
            let needle = chars_of("attachment");
            find_chars(&haystack, &needle, 0).is_some()
        },
        None => false,
    }
}

fn own_attachment_of(p: &MimePart) -> (r: Result<Vec<Attachment>, ExtractError>)
    ensures
        attachments_agree(r, own_attachment(*p)),
{
    if !is_attachment(p) {
        let none: Vec<Attachment> = Vec::new();
        assert(attachment_views(none@) =~= seq![]);
        return Ok(none);
    }
    let content = match &p.raw_body {
        Some(b) => b.clone(),
        None => return Err(ExtractError::UndecodableBody),
    };
    assert(content@ =~= p.raw_body->Some_0@);
    let filename = match header_value(&p.headers, "Content-Disposition") {
        Some(d) => match find_parameter(d.as_str(), "filename=") {
            Some(f) => f,
            None => String::from_str("unnamed_attachment"),
        },
        None => String::from_str("unnamed_attachment"),
    };
    let content_type = match header_value(&p.headers, "Content-Type") {
        Some(t) => t,
        None => String::from_str("text/plain"),
    };
    let size = content.len();
    let mut out: Vec<Attachment> = Vec::new();
    out.push(Attachment { filename, content_type, size, content });
    assert(attachment_views(out@) =~= seq![(attachment_filename(*p), attachment_type(*p), p.raw_body->Some_0@)]);
    Ok(out)
}

/// Every part of the tree rooted at `p` whose disposition names an
/// attachment, in pre-order, depth first.
pub fn extract_attachments(p: &MimePart) -> (r: Result<Vec<Attachment>, ExtractError>)
    ensures
        attachments_agree(r, attachments_in(*p)),
    decreases p,
{
    let mut collected = match own_attachment_of(p) {
        Ok(v) => v,
        Err(e) => return Err(e),
    };
    let ghost own = attachment_views(collected@);
    assert(attachments_in_parts(p.subparts@, 0) == prepend(seq![], attachments_in_parts(p.subparts@, 0))) by {
        match attachments_in_parts(p.subparts@, 0) {
            Ok(b) => assert(seq![] + b =~= b),
            Err(_) => {},
        }
    }
    for i in 0..p.subparts.len()
        invariant
            own_attachment(*p) == Ok::<Seq<AttachmentView>, ()>(own),
            sizes_agree(collected@),
            own.len() <= collected@.len(),
            attachment_views(collected@).subrange(0, own.len() as int) == own,
            attachments_in_parts(p.subparts@, 0) == prepend(
                attachment_views(collected@).subrange(own.len() as int, collected@.len() as int),
                attachments_in_parts(p.subparts@, i as int),
            ),
    {
        let mut found = match extract_attachments(&p.subparts[i]) {
            Ok(v) => v,
            Err(e) => return Err(e),
        };
        let ghost before = collected@;
        let ghost added = found@;
        collected.append(&mut found);
        proof {
            assert(attachment_views(collected@) =~= attachment_views(before) + attachment_views(added));
            let done = attachment_views(before).subrange(own.len() as int, before.len() as int);
            assert(attachment_views(collected@).subrange(own.len() as int, collected@.len() as int)
                =~= done + attachment_views(added));
            assert(attachment_views(collected@).subrange(0, own.len() as int) =~= own);
            match attachments_in_parts(p.subparts@, i + 1) {
                Ok(b) => assert(done + (attachment_views(added) + b) =~= (done + attachment_views(added)) + b),
                Err(_) => {},
            }
            assert forall|j: int| 0 <= j < collected@.len() implies (#[trigger] collected@[j]).size
                == collected@[j].content@.len() by {
                if j >= before.len() {
                    assert(collected@[j] == added[j - before.len()]);
                }
            }
        }
    }
    proof {
        assert(attachment_views(collected@) =~= own + attachment_views(collected@).subrange(
            own.len() as int,
            collected@.len() as int,
        ));
    }
    Ok(collected)
}

/// The message that a MIME tree gives: the root's headers, its text body
/// and its attachments.
pub open spec fn message_of(root: MimePart, m: Message) -> bool {
    let h = root.headers@;
    &&& first_value(h, "Subject"@) == Some(m.subject@)
    &&& first_value(h, "From"@) == Some(m.from@)
    &&& first_value(h, "Date"@) == Some(m.date@)
    &&& first_value(h, "To"@) == opt_view(m.to)
    &&& first_value(h, "Cc"@) == opt_view(m.cc)
    &&& first_value(h, "Bcc"@) == opt_view(m.bcc)
    &&& first_value(h, "Reply-To"@) == opt_view(m.reply_to)
    &&& first_value(h, "Message-ID"@) == opt_view(m.message_id)
    &&& first_value(h, "Content-Type"@) == opt_view(m.content_type)
    &&& text_in(root) == Ok::<Option<Seq<char>>, ()>(opt_view(m.content))
    &&& attachments_in(root) == Ok::<Seq<AttachmentView>, ()>(attachment_views(m.attachments@))
    &&& sizes_agree(m.attachments@)
}

/// The body or an attachment of the tree could not be decoded.
pub open spec fn body_undecodable(root: MimePart) -> bool {
    text_in(root) is Err || attachments_in(root) is Err
}

/// Subject, From and Date are all present.
pub open spec fn has_required_headers(root: MimePart) -> bool {
    &&& first_value(root.headers@, "Subject"@) is Some
    &&& first_value(root.headers@, "From"@) is Some
    &&& first_value(root.headers@, "Date"@) is Some
}

/// Builds the message of a parsed MIME tree. Fails when the text body or an
/// attachment cannot be decoded, or else when Subject, From or Date is absent.
pub fn message_from_part(root: &MimePart) -> (r: Result<Message, ExtractError>)
    ensures
        r is Ok <==> !body_undecodable(*root) && has_required_headers(*root),
        r matches Ok(m) ==> message_of(*root, m),
        r matches Err(e) ==> e == if body_undecodable(*root) {
            ExtractError::UndecodableBody
        } else {
            ExtractError::MissingHeader
        },
{
    let content = match extract_text_content(root) {
        Ok(c) => c,
        Err(e) => return Err(e),
    };
    let attachments = match extract_attachments(root) {
        Ok(a) => a,
        Err(e) => return Err(e),
    };
    let subject = header_value(&root.headers, "Subject");
    let from = header_value(&root.headers, "From");
    let date = header_value(&root.headers, "Date");
    let to = header_value(&root.headers, "To");
    let cc = header_value(&root.headers, "Cc");
    let bcc = header_value(&root.headers, "Bcc");
    let reply_to = header_value(&root.headers, "Reply-To");
    let message_id = header_value(&root.headers, "Message-ID");
    let content_type = header_value(&root.headers, "Content-Type");
    match (subject, from, date) {
        (Some(subject), Some(from), Some(date)) => Ok(
            Message {
                subject,
                from,
                date,
                to,
                cc,
                bcc,
                reply_to,
                message_id,
                content_type,
                content,
                attachments,
            },
        ),
        _ => Err(ExtractError::MissingHeader),
    }
}

/// The MIME tree that `mailparse::parse_mail` reads from `raw`, copied into
/// a `MimePart`: for each part its headers (name and decoded value, in
/// order), its body as `get_body` and `get_body_raw` give it (`None` where
/// they fail) and its subparts; `None` when `parse_mail` fails.
pub uninterp spec fn mime_of(raw: Seq<u8>) -> Option<MimePart>;

#[verifier::external_type_specification]
#[verifier::external_body]
pub struct ExParsedMail<'a>(mailparse::ParsedMail<'a>);

/// Copies one parsed part and its subparts, field for field, through
/// `MailHeader::get_key`, `MailHeader::get_value`, `ParsedMail::get_body`
/// and `ParsedMail::get_body_raw`.
#[verifier::external_body]
fn copy_part(p: &mailparse::ParsedMail) -> MimePart {
    MimePart {
        headers: p.headers.iter().map(|h| HeaderField { name: h.get_key(), value: h.get_value() }).collect(),
        text_body: p.get_body().ok(),
        raw_body: p.get_body_raw().ok(),
        subparts: p.subparts.iter().map(copy_part).collect(),
    }
}

/// Relies on `mailparse::parse_mail`, whose result depends on `raw` alone,
/// and on `copy_part` for the copy.
#[verifier::external_body]
fn parse_mime_tree(raw: &[u8]) -> (r: Option<MimePart>)
    ensures
        r == mime_of(raw@),
{
    match mailparse::parse_mail(raw) {
        Ok(parsed) => Some(copy_part(&parsed)),
        Err(_) => None,
    }
}

/// The record `raw` gives a message: it parses, its body and attachments
/// decode, and Subject, From and Date are present.
pub open spec fn gives_message(raw: Seq<u8>) -> bool {
    mime_of(raw) matches Some(root) && !body_undecodable(root) && has_required_headers(root)
}

/// Why the record `raw` gives no message.
pub open spec fn extract_error_of(raw: Seq<u8>) -> ExtractError {
    match mime_of(raw) {
        None => ExtractError::Unparseable,
        Some(root) => if body_undecodable(root) {
            ExtractError::UndecodableBody
        } else {
            ExtractError::MissingHeader
        },
    }
}

/// Turns one fetched record (the full RFC 822 bytes) into a message: parses
/// it, then reads the message off its MIME tree as `message_from_part` does.
pub fn process_message(raw: &[u8]) -> (r: Result<Message, ExtractError>)
    ensures
        r is Ok <==> gives_message(raw@),
        r matches Ok(m) ==> message_of(mime_of(raw@)->Some_0, m),
        r matches Err(e) ==> e == extract_error_of(raw@),
{
    match parse_mime_tree(raw) {
        Some(root) => message_from_part(&root),
        None => Err(ExtractError::Unparseable),
    }
}

} // verus!
