use vstd::prelude::*;

verus! {

/// The decimal digit `d` (below ten).
pub open spec fn digit_char(d: nat) -> char {
    if d == 0 {
        '0'
    } else if d == 1 {
        '1'
    } else if d == 2 {
        '2'
    } else if d == 3 {
        '3'
    } else if d == 4 {
        '4'
    } else if d == 5 {
        '5'
    } else if d == 6 {
        '6'
    } else if d == 7 {
        '7'
    } else if d == 8 {
        '8'
    } else {
        '9'
    }
}

/// The decimal digits of `n`, without sign or leading zeros.
pub open spec fn decimal_chars(n: nat) -> Seq<char>
    decreases n,
{
    if n < 10 {
        seq![digit_char(n)]
    } else {
        decimal_chars(n / 10).push(digit_char(n % 10))
    }
}

/// The digit `d` as text.
fn digit_text(d: u32) -> (r: &'static str)
    requires
        d < 10,
    ensures
        r@ == seq![digit_char(d as nat)],
{
    proof {
        reveal_strlit("0");
        reveal_strlit("1");
        reveal_strlit("2");
        reveal_strlit("3");
        reveal_strlit("4");
        reveal_strlit("5");
        reveal_strlit("6");
        reveal_strlit("7");
        reveal_strlit("8");
        reveal_strlit("9");
    }
    match d {
        0 => "0",
        1 => "1",
        2 => "2",
        3 => "3",
        4 => "4",
        5 => "5",
        6 => "6",
        7 => "7",
        8 => "8",
        _ => "9",
    }
}

/// The decimal digits of `n`, without sign or leading zeros.
pub fn decimal_text(n: u32) -> (r: String)
    ensures
        r@ == decimal_chars(n as nat),
    decreases n,
{
    if n < 10 {
        let r = String::from_str(digit_text(n));
        assert(r@ =~= decimal_chars(n as nat));
        r
    } else {
        let mut r = decimal_text(n / 10);
        r.append(digit_text(n % 10));
        r
    }
}

/// The first sequence number of the `count` most recent of `total` messages.
pub open spec fn range_start(total: u32, count: u32) -> u32 {
    if total > count {
        (total - count + 1) as u32
    } else {
        1
    }
}

/// The sequence set `first:last` that selects the `count` most recent of
/// `total` messages, `max(1, total - count + 1)` through `total`; `None` when
/// that set is empty (no message, or none asked for).
pub fn calculate_message_range(total_messages: u32, count: u32) -> (r: Option<String>)
    ensures
        r is None <==> total_messages == 0 || count == 0,
        r matches Some(s) ==> s@ == decimal_chars(range_start(total_messages, count) as nat) + ":"@
            + decimal_chars(total_messages as nat),
{
    if total_messages == 0 || count == 0 {
        return None;
    }
    let start = if total_messages > count {
        total_messages - count + 1
    } else {
        1
    };
    let mut text = decimal_text(start);
    text.append(":");
    let last = decimal_text(total_messages);
    text.append(last.as_str());
    Some(text)
}

/// A command for the mail server. A session issues them one at a time and
/// waits for each reply before the next.
#[derive(Debug)]
pub enum Command {
    /// Open the encrypted connection.
    Connect,
    /// Authenticate with the account's credentials.
    Login,
    /// Select a mailbox; the reply carries its message count.
    Select { mailbox: String },
    /// Fetch the full messages of a sequence set, leaving them unseen.
    Fetch { range: String },
    /// Fetch one full message by sequence number, marking it seen.
    FetchMessage { sequence: String },
    /// Search by sequence number.
    Search { criterion: String },
    /// Search by unique id.
    UidSearch { criterion: String },
    /// Move the message with this unique id to a mailbox.
    UidMove { uid: u32, mailbox: String },
    /// Set the deleted flag on the message with this unique id.
    UidStoreDeleted { uid: u32 },
    /// Remove the messages flagged as deleted.
    Expunge,
    /// End the session.
    Logout,
}

/// The server's answer to the last command.
#[derive(Debug)]
pub enum Reply {
    Connected,
    LoggedIn,
    Selected { exists: u32 },
    /// The bodies of the fetched records, in the order the server sent them.
    Fetched { records: Vec<Vec<u8>> },
    /// The numbers that a search found (sequence numbers or unique ids).
    Found { ids: Vec<u32> },
    /// The command succeeded and carries no data.
    Done,
    /// The command failed (transport, authentication or protocol error).
    Failed,
}

/// A command as plain values.
pub enum CommandView {
    Connect,
    Login,
    Select(Seq<char>),
    Fetch(Seq<char>),
    FetchMessage(Seq<char>),
    Search(Seq<char>),
    UidSearch(Seq<char>),
    UidMove(u32, Seq<char>),
    UidStoreDeleted(u32),
    Expunge,
    Logout,
}

impl Command {
    pub open spec fn view(&self) -> CommandView {
        match self {
            Command::Connect => CommandView::Connect,
            Command::Login => CommandView::Login,
            Command::Select { mailbox } => CommandView::Select(mailbox@),
            Command::Fetch { range } => CommandView::Fetch(range@),
            Command::FetchMessage { sequence } => CommandView::FetchMessage(sequence@),
            Command::Search { criterion } => CommandView::Search(criterion@),
            Command::UidSearch { criterion } => CommandView::UidSearch(criterion@),
            Command::UidMove { uid, mailbox } => CommandView::UidMove(*uid, mailbox@),
            Command::UidStoreDeleted { uid } => CommandView::UidStoreDeleted(*uid),
            Command::Expunge => CommandView::Expunge,
            Command::Logout => CommandView::Logout,
        }
    }
}

pub open spec fn opt_command_view(c: Option<Command>) -> Option<CommandView> {
    match c {
        Some(c) => Some(c.view()),
        None => None,
    }
}

/// The search criterion that finds a message by its Message-ID header.
pub open spec fn message_id_criterion(message_id: Seq<char>) -> Seq<char> {
    "HEADER Message-ID "@ + message_id
}

/// The search criterion that finds a message by its Message-ID header.
pub fn message_id_search(message_id: &String) -> (r: String)
    ensures
        r@ == message_id_criterion(message_id@),
{
    let mut criterion = String::from_str("HEADER Message-ID ");
    criterion.append(message_id.as_str());
    criterion
}

} // verus!
