use vstd::prelude::*;

use crate::message::{gives_message, message_of, mime_of, process_message, Message};
use crate::session::{
    decimal_chars, decimal_text, message_id_criterion, message_id_search, opt_command_view,
    Command, CommandView, Reply,
};

verus! {

/// Why a move or a deletion did not happen.
#[derive(Debug, Clone, Copy, PartialEq, Eq)]
pub enum ActionError {
    /// No message with that Message-ID is in the folder.
    NotFound,
    /// The server rejected a command or answered out of turn.
    Protocol,
}

/// Where a move or a deletion stands.
#[derive(Debug, Clone, Copy, PartialEq, Eq)]
pub enum ActionStep {
    /// The folder is being selected.
    Selecting,
    /// A plain search checks that the message exists.
    Searching,
    /// A unique-id search finds the message's unique id.
    ResolvingUid,
    /// The move was issued.
    Moving,
    /// The deleted flag was set.
    Storing,
    /// The folder is being expunged.
    Expunging,
    /// The action is over.
    Finished,
}

/// One move or deletion of a message named by its Message-ID. It proceeds
/// by one command per reply and never undoes a step that succeeded.
pub struct Action {
    message_id: String,
    mailbox: String,
    target: Option<String>,
    step: ActionStep,
    result: Option<Result<(), ActionError>>,
}

/// What the action does on `reply` in `step`: its next step, the command
/// it issues, and its result once finished. `target` is the destination of
/// a move; `None` for a deletion.
pub open spec fn action_next(
    step: ActionStep,
    reply: Reply,
    message_id: Seq<char>,
    target: Option<Seq<char>>,
) -> (ActionStep, Option<CommandView>, Option<Result<(), ActionError>>) {
    let criterion = message_id_criterion(message_id);
    let fail = (ActionStep::Finished, None, Some(Err(ActionError::Protocol)));
    let missing = (ActionStep::Finished, None, Some(Err(ActionError::NotFound)));
    match (step, reply) {
        (ActionStep::Selecting, Reply::Selected { .. }) => if target is Some {
            (ActionStep::Searching, Some(CommandView::Search(criterion)), None)
        } else {
            (ActionStep::ResolvingUid, Some(CommandView::UidSearch(criterion)), None)
        },
        (ActionStep::Searching, Reply::Found { ids }) => if ids@.len() == 0 {
            missing
        } else {
            (ActionStep::ResolvingUid, Some(CommandView::UidSearch(criterion)), None)
        },
        (ActionStep::ResolvingUid, Reply::Found { ids }) => if ids@.len() == 0 {
            missing
        } else {
            match target {
                Some(t) => (ActionStep::Moving, Some(CommandView::UidMove(ids@[0], t)), None),
                None => (ActionStep::Storing, Some(CommandView::UidStoreDeleted(ids@[0])), None),
            }
        },
        (ActionStep::Moving, Reply::Done) => (ActionStep::Finished, None, Some(Ok(()))),
        (ActionStep::Storing, Reply::Done) => (ActionStep::Expunging, Some(CommandView::Expunge), None),
        (ActionStep::Expunging, Reply::Done) => (ActionStep::Finished, None, Some(Ok(()))),
        _ => fail,
    }
}

/// Once a move has left the folder, a second move of the same message from
/// there finds nothing: an empty search ends the action with `NotFound` and
/// issues no move.
pub proof fn lemma_empty_search_not_found(ids: Vec<u32>, message_id: Seq<char>, target: Seq<char>)
    requires
        ids@.len() == 0,
    ensures
        action_next(ActionStep::Searching, Reply::Found { ids }, message_id, Some(target)) == (
            ActionStep::Finished,
            None::<CommandView>,
            Some(Err::<(), ActionError>(ActionError::NotFound)),
        ),
{
}

impl Action {
    pub closed spec fn message_id_view(&self) -> Seq<char> {
        self.message_id@
    }

    pub closed spec fn mailbox_view(&self) -> Seq<char> {
        self.mailbox@
    }

    pub closed spec fn target_view(&self) -> Option<Seq<char>> {
        match self.target {
            Some(t) => Some(t@),
            None => None,
        }
    }

    pub closed spec fn step_view(&self) -> ActionStep {
        self.step
    }

    pub closed spec fn result_view(&self) -> Option<Result<(), ActionError>> {
        self.result
    }

    /// The action is over exactly when it has a result.
    pub open spec fn wf(&self) -> bool {
        (self.step_view() == ActionStep::Finished) <==> self.result_view() is Some
    }

    /// Moves the message `message_id` from `source_mailbox` to
    /// `target_mailbox`: selects the source, checks by a plain search that
    /// the message is there, finds its unique id, then moves it.
    pub fn start_move(message_id: String, source_mailbox: String, target_mailbox: String) -> (r: (
        Action,
        Command,
    ))
        ensures
            r.0.wf(),
            r.0.message_id_view() == message_id@,
            r.0.mailbox_view() == source_mailbox@,
            r.0.target_view() == Some(target_mailbox@),
            r.0.step_view() == ActionStep::Selecting,
            r.1.view() == CommandView::Select(source_mailbox@),
    {
        let command = Command::Select { mailbox: source_mailbox.clone() };
        (
            Action {
                message_id,
                mailbox: source_mailbox,
                target: Some(target_mailbox),
                step: ActionStep::Selecting,
                result: None,
            },
            command,
        )
    }

    /// Deletes the message `message_id` from `mailbox`: selects it, finds
    /// the message's unique id, sets its deleted flag, then expunges.
    pub fn start_delete(message_id: String, mailbox: String) -> (r: (Action, Command))
        ensures
            r.0.wf(),
            r.0.message_id_view() == message_id@,
            r.0.mailbox_view() == mailbox@,
            r.0.target_view() is None,
            r.0.step_view() == ActionStep::Selecting,
            r.1.view() == CommandView::Select(mailbox@),
    {
        let command = Command::Select { mailbox: mailbox.clone() };
        (
            Action { message_id, mailbox, target: None, step: ActionStep::Selecting, result: None },
            command,
        )
    }

    /// Whether the action is over.
    pub fn is_finished(&self) -> (r: bool)
        ensures
            r == (self.step_view() == ActionStep::Finished),
    {
        match self.step {
            ActionStep::Finished => true,
            _ => false,
        }
    }

    /// The result, once the action is over.
    pub fn result(&self) -> (r: Option<Result<(), ActionError>>)
        ensures
            r == self.result_view(),
    {
        self.result
    }

    /// Takes the reply to the last command and returns the next command,
    /// or `None` once the action is over. A finished action ignores replies.
    pub fn on_reply(&mut self, reply: &Reply) -> (r: Option<Command>)
        requires
            old(self).wf(),
        ensures
            final(self).wf(),
            final(self).message_id_view() == old(self).message_id_view(),
            final(self).mailbox_view() == old(self).mailbox_view(),
            final(self).target_view() == old(self).target_view(),
            old(self).step_view() == ActionStep::Finished ==> *final(self) == *old(self) && r is None,
            old(self).step_view() != ActionStep::Finished ==> ({
                let next = action_next(
                    old(self).step_view(),
                    *reply,
                    old(self).message_id_view(),
                    old(self).target_view(),
                );
                &&& final(self).step_view() == next.0
                &&& opt_command_view(r) == next.1
                &&& final(self).result_view() == next.2
            }),
    {
        if self.is_finished() {
            return None;
        }
        let step = self.step;
        match (step, reply) {
            (ActionStep::Selecting, Reply::Selected { .. }) => {
                let criterion = message_id_search(&self.message_id);
                if self.target.is_some() {
                    self.step = ActionStep::Searching;
                    Some(Command::Search { criterion })
                } else {
                    self.step = ActionStep::ResolvingUid;
                    Some(Command::UidSearch { criterion })
                }
            },
            (ActionStep::Searching, Reply::Found { ids }) => {
                if ids.len() == 0 {
                    self.step = ActionStep::Finished;
                    self.result = Some(Err(ActionError::NotFound));
                    None
                } else {
                    self.step = ActionStep::ResolvingUid;
                    Some(Command::UidSearch { criterion: message_id_search(&self.message_id) })
                }
            },
            (ActionStep::ResolvingUid, Reply::Found { ids }) => {
                if ids.len() == 0 {
                    self.step = ActionStep::Finished;
                    self.result = Some(Err(ActionError::NotFound));
                    None
                } else {
                    let uid = ids[0];
                    match &self.target {
                        Some(t) => {
                            let mailbox = t.clone();
                            self.step = ActionStep::Moving;
                            Some(Command::UidMove { uid, mailbox })
                        },
                        None => {
                            self.step = ActionStep::Storing;
                            Some(Command::UidStoreDeleted { uid })
                        },
                    }
                }
            },
            (ActionStep::Moving, Reply::Done) => {
                self.step = ActionStep::Finished;
                self.result = Some(Ok(()));
                None
            },
            (ActionStep::Storing, Reply::Done) => {
                self.step = ActionStep::Expunging;
                Some(Command::Expunge)
            },
            (ActionStep::Expunging, Reply::Done) => {
                self.step = ActionStep::Finished;
                self.result = Some(Ok(()));
                None
            },
            _ => {
                self.step = ActionStep::Finished;
                self.result = Some(Err(ActionError::Protocol));
                None
            },
        }
    }
}

/// Why a lookup gave no answer.
#[derive(Debug, Clone, Copy, PartialEq, Eq)]
pub enum LookupError {
    /// The server rejected a command or answered out of turn.
    Protocol,
}

/// Where a lookup stands.
#[derive(Debug, Clone, Copy, PartialEq, Eq)]
pub enum LookupStep {
    Selecting,
    Searching,
    Fetching,
    Finished,
}

/// Finds one message of a folder by its Message-ID: select the folder,
/// search, then fetch the first hit.
pub struct MessageLookup {
    message_id: String,
    step: LookupStep,
    result: Option<Result<Option<Message>, LookupError>>,
}

impl MessageLookup {
    pub closed spec fn step_view(&self) -> LookupStep {
        self.step
    }

    pub closed spec fn message_id_view(&self) -> Seq<char> {
        self.message_id@
    }

    pub closed spec fn result_view(&self) -> Option<Result<Option<Message>, LookupError>> {
        self.result
    }

    pub open spec fn wf(&self) -> bool {
        (self.step_view() == LookupStep::Finished) <==> self.result_view() is Some
    }

    /// Looks for `message_id` in `mailbox`; the first command selects it.
    pub fn start(message_id: String, mailbox: String) -> (r: (MessageLookup, Command))
        ensures
            r.0.wf(),
            r.0.step_view() == LookupStep::Selecting,
            r.0.message_id_view() == message_id@,
            r.1.view() == CommandView::Select(mailbox@),
    {
        (
            MessageLookup { message_id, step: LookupStep::Selecting, result: None },
            Command::Select { mailbox },
        )
    }

    /// The result, once the lookup is over: the message, `None` when no
    /// message has that Message-ID or its record gives no message (such a
    /// record is dropped), or why it failed.
    pub fn result(self) -> (r: Option<Result<Option<Message>, LookupError>>)
        ensures
            r == self.result_view(),
    {
        self.result
    }

    /// Takes the reply to the last command and returns the next command, or
    /// `None` once the lookup is over.
    pub fn on_reply(&mut self, reply: Reply) -> (r: Option<Command>)
        requires
            old(self).wf(),
        ensures
            final(self).wf(),
            final(self).message_id_view() == old(self).message_id_view(),
            r is Some <==> final(self).step_view() != LookupStep::Finished,
            old(self).step_view() == LookupStep::Finished ==> *final(self) == *old(self),
            old(self).step_view() == LookupStep::Selecting ==> if reply is Selected {
                final(self).step_view() == LookupStep::Searching && opt_command_view(r) == Some(
                    CommandView::Search(message_id_criterion(old(self).message_id_view())),
                )
            } else {
                final(self).result_view() == Some(Err::<Option<Message>, LookupError>(LookupError::Protocol))
            },
            old(self).step_view() == LookupStep::Searching ==> match reply {
                Reply::Found { ids } => if ids@.len() == 0 {
                    final(self).result_view() == Some(Ok::<Option<Message>, LookupError>(None))
                } else {
                    final(self).step_view() == LookupStep::Fetching && opt_command_view(r) == Some(
                        CommandView::FetchMessage(decimal_chars(ids@[0] as nat)),
                    )
                },
                _ => final(self).result_view() == Some(Err::<Option<Message>, LookupError>(LookupError::Protocol)),
            },
            old(self).step_view() == LookupStep::Fetching ==> match reply {
                Reply::Fetched { records } => if records@.len() > 0 && gives_message(records@[0]@) {
                    final(self).result_view() matches Some(Ok(Some(m))) && message_of(
                        mime_of(records@[0]@)->Some_0,
                        m,
                    )
                } else {
                    final(self).result_view() == Some(Ok::<Option<Message>, LookupError>(None))
                },
                _ => final(self).result_view() == Some(Err::<Option<Message>, LookupError>(LookupError::Protocol)),
            },
    {
        match self.step {
            LookupStep::Finished => None,
            LookupStep::Selecting => match reply {
                Reply::Selected { .. } => {
                    self.step = LookupStep::Searching;
                    Some(Command::Search { criterion: message_id_search(&self.message_id) })
                },
                _ => self.finish(Err(LookupError::Protocol)),
            },
            LookupStep::Searching => match reply {
                Reply::Found { ids } => {
                    if ids.len() == 0 {
                        self.finish(Ok(None))
                    } else {
                        self.step = LookupStep::Fetching;
                        Some(Command::FetchMessage { sequence: decimal_text(ids[0]) })
                    }
                },
                _ => self.finish(Err(LookupError::Protocol)),
            },
            LookupStep::Fetching => match reply {
                Reply::Fetched { records } => {
                    if records.len() == 0 {
                        self.finish(Ok(None))
                    } else {
                        match process_message(records[0].as_slice()) {
                            Ok(m) => self.finish(Ok(Some(m))),
                            Err(_) => self.finish(Ok(None)),
                        }
                    }
                },
                _ => self.finish(Err(LookupError::Protocol)),
            },
        }
    }

    fn finish(&mut self, result: Result<Option<Message>, LookupError>) -> (r: Option<Command>)
        ensures
            r is None,
            final(self).step_view() == LookupStep::Finished,
            final(self).result_view() == Some(result),
            final(self).message_id_view() == old(self).message_id_view(),
    {
        self.step = LookupStep::Finished;
        self.result = Some(result);
        None
    }
}

} // verus!
