use vstd::prelude::*;

verus! {

/// What the program is asked to do; several may be asked at once.
#[derive(Debug, Clone, Copy, PartialEq, Eq)]
pub enum OperationMode {
    /// Apply the move rules once.
    Once,
    /// Apply the move rules at a fixed interval.
    Periodic,
    /// Serve the mailbox as web pages.
    Web,
    /// Serve the mailbox as a JSON endpoint.
    Rest,
    /// Run the spam filter.
    Spam,
}

/// Whether the asked modes mix a server with a processing run.
#[derive(Debug, Clone, Copy, PartialEq, Eq)]
pub enum ModeCheck {
    Consistent,
    /// Web or REST together with once, periodic or spam: allowed, but
    /// worth a warning.
    MixesServerAndProcessing,
}

pub open spec fn flag_seq(flag: bool, mode: OperationMode) -> Seq<OperationMode> {
    if flag {
        seq![mode]
    } else {
        seq![]
    }
}

/// The modes named by the flags, in the order once, periodic, web, rest,
/// spam.
pub open spec fn modes_of_flags(once: bool, periodic: bool, web: bool, rest: bool, spam: bool) -> Seq<OperationMode> {
    flag_seq(once, OperationMode::Once) + flag_seq(periodic, OperationMode::Periodic) + flag_seq(
        web,
        OperationMode::Web,
    ) + flag_seq(rest, OperationMode::Rest) + flag_seq(spam, OperationMode::Spam)
}

impl OperationMode {
    /// The modes that the command-line flags ask for, in a fixed order;
    /// empty when no flag is set.
    pub fn from_flags(once: bool, periodic: bool, web: bool, rest: bool, spam: bool) -> (r: Vec<
        OperationMode,
    >)
        ensures
            r@ == modes_of_flags(once, periodic, web, rest, spam),
    {
        let mut modes: Vec<OperationMode> = Vec::new();
        if once {
            modes.push(OperationMode::Once);
        }
        if periodic {
            modes.push(OperationMode::Periodic);
        }
        if web {
            modes.push(OperationMode::Web);
        }
        if rest {
            modes.push(OperationMode::Rest);
        }
        if spam {
            modes.push(OperationMode::Spam);
        }
        assert(modes@ =~= modes_of_flags(once, periodic, web, rest, spam));
        modes
    }

    /// The modes to run: those asked for, or applying the rules once when
    /// none is.
    pub fn or_default(modes: Vec<OperationMode>) -> (r: Vec<OperationMode>)
        ensures
            modes@.len() == 0 ==> r@ == seq![OperationMode::Once],
            modes@.len() > 0 ==> r@ == modes@,
    {
        if modes.len() == 0 {
            let mut once: Vec<OperationMode> = Vec::new();
            once.push(OperationMode::Once);
            assert(once@ =~= seq![OperationMode::Once]);
            once
        } else {
            modes
        }
    }
}

pub open spec fn is_server_mode(m: OperationMode) -> bool {
    m == OperationMode::Web || m == OperationMode::Rest
}

/// Whether `modes` holds both a server mode and a processing mode.
pub open spec fn mixes_modes(modes: Seq<OperationMode>) -> bool {
    &&& exists|i: int| 0 <= i < modes.len() && is_server_mode(#[trigger] modes[i])
    &&& exists|i: int| 0 <= i < modes.len() && !is_server_mode(#[trigger] modes[i])
}

/// Checks whether the asked modes mix a server mode (web, rest) with a
/// processing mode (once, periodic, spam).
pub fn validate_modes(modes: &Vec<OperationMode>) -> (r: ModeCheck)
    ensures
        r == ModeCheck::MixesServerAndProcessing <==> mixes_modes(modes@),
{
    let mut server = false;
    let mut processing = false;
    for i in 0..modes.len()
        invariant
            server <==> exists|k: int| 0 <= k < i && is_server_mode(#[trigger] modes@[k]),
            processing <==> exists|k: int| 0 <= k < i && !is_server_mode(#[trigger] modes@[k]),
    {
        match modes[i] {
            OperationMode::Web | OperationMode::Rest => server = true,
            _ => processing = true,
        }
    }
    if server && processing {
        ModeCheck::MixesServerAndProcessing
    } else {
        ModeCheck::Consistent
    }
}

/// Keeps two scheduled runs from overlapping: a run starts only when none
/// is in progress.
#[derive(Debug, Default)]
pub struct RunGuard {
    busy: bool,
}

impl RunGuard {
    pub closed spec fn is_busy(&self) -> bool {
        self.busy
    }

    pub fn new() -> (r: RunGuard)
        ensures
            !r.is_busy(),
    {
        RunGuard { busy: false }
    }

    /// Claims the guard for a new run; `false`, and no change, when a run
    /// is already in progress.
    pub fn try_begin(&mut self) -> (r: bool)
        ensures
            r == !old(self).is_busy(),
            final(self).is_busy(),
    {
        if self.busy {
            false
        } else {
            self.busy = true;
            true
        }
    }

    /// Releases the guard when the run is over.
    pub fn end(&mut self)
        ensures
            !final(self).is_busy(),
    {
        self.busy = false;
    }
}

} // verus!
