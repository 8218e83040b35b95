use vstd::prelude::*;

use crate::dates::{sort_messages_by_date_desc, sorted_by_date_desc, stable_arrangement};
use crate::executor::{action_next, Action, ActionError, ActionStep};
use crate::message::{gives_message, message_of, mime_of, process_message, Message};
use crate::rules::{
    sets_compile, sets_match, CompiledRule, InvalidPattern, RulesConfig, SpamFilterSettings,
    rule_compiles,
};
use crate::session::{
    calculate_message_range, decimal_chars, opt_command_view, range_start, Command, CommandView,
    Reply,
};

verus! {

/// What a run does for one matching (message, rule) pair.
#[derive(Debug, Clone)]
pub enum PlannedAction {
    /// Move the message with this Message-ID to the rule's folder.
    Move { message_id: String, target_folder: String },
    /// The message has no Message-ID: nothing is done, and the skip is
    /// reported under the message's subject.
    SkipMissingId { subject: String },
}

/// A planned action as plain values.
pub enum PlanView {
    Move(Seq<char>, Seq<char>),
    Skip(Seq<char>),
}

impl PlannedAction {
    pub open spec fn view(&self) -> PlanView {
        match self {
            PlannedAction::Move { message_id, target_folder } => PlanView::Move(
                message_id@,
                target_folder@,
            ),
            PlannedAction::SkipMissingId { subject } => PlanView::Skip(subject@),
        }
    }
}

pub open spec fn plan_views(s: Seq<PlannedAction>) -> Seq<PlanView> {
    s.map_values(|p: PlannedAction| p.view())
}

/// The action for message `m` under a rule that matches it.
pub open spec fn plan_entry(m: Message, rule: CompiledRule) -> PlanView {
    match m.message_id {
        Some(id) => PlanView::Move(id@, rule.target()),
        None => PlanView::Skip(m.subject@),
    }
}

/// The actions for message `m` under `rules[0..j]`, in rule order.
pub open spec fn row_plan(m: Message, rules: Seq<CompiledRule>, j: int) -> Seq<PlanView>
    decreases j,
{
    if j <= 0 {
        seq![]
    } else if sets_match(rules[j - 1].patterns(), m) {
        row_plan(m, rules, j - 1).push(plan_entry(m, rules[j - 1]))
    } else {
        row_plan(m, rules, j - 1)
    }
}

/// The actions for `messages[0..i]`: for each message in batch order, one
/// action per matching rule, in rule order.
pub open spec fn plan_of(messages: Seq<Message>, rules: Seq<CompiledRule>, i: int) -> Seq<PlanView>
    decreases i,
{
    if i <= 0 {
        seq![]
    } else {
        plan_of(messages, rules, i - 1) + row_plan(messages[i - 1], rules, rules.len() as int)
    }
}

/// The actions of a whole batch.
pub open spec fn batch_plan(messages: Seq<Message>, rules: Seq<CompiledRule>) -> Seq<PlanView> {
    plan_of(messages, rules, messages.len() as int)
}

fn planned_entry(m: &Message, rule: &CompiledRule) -> (r: PlannedAction)
    ensures
        r.view() == plan_entry(*m, *rule),
{
    match &m.message_id {
        Some(id) => PlannedAction::Move {
            message_id: id.clone(),
            target_folder: rule.target_folder().clone(),
        },
        None => PlannedAction::SkipMissingId { subject: m.subject.clone() },
    }
}

/// The cross product of `messages` and `rules`, kept where the rule
/// matches: message-major, rule order within a message.
pub fn plan_actions(messages: &Vec<Message>, rules: &Vec<CompiledRule>) -> (r: Vec<PlannedAction>)
    ensures
        plan_views(r@) == batch_plan(messages@, rules@),
{
    let mut plan: Vec<PlannedAction> = Vec::new();
    for i in 0..messages.len()
        invariant
            plan_views(plan@) == plan_of(messages@, rules@, i as int),
    {
        let m = &messages[i];
        let ghost base = plan_of(messages@, rules@, i as int);
        assert(base + row_plan(*m, rules@, 0) =~= base);
        for j in 0..rules.len()
            invariant
                m == messages@[i as int],
                base == plan_of(messages@, rules@, i as int),
                plan_views(plan@) == base + row_plan(*m, rules@, j as int),
        {
            if rules[j].matches(m) {
                let ghost prev = plan@;
                plan.push(planned_entry(m, &rules[j]));
                assert(plan_views(plan@) =~= plan_views(prev).push(plan_entry(*m, rules@[j as int])));
                assert(base + row_plan(*m, rules@, j + 1) =~= (base + row_plan(*m, rules@, j as int)).push(
                    plan_entry(*m, rules@[j as int]),
                ));
            }
        }
    }
    plan
}

proof fn lemma_row_keeps_entry(m: Message, rules: Seq<CompiledRule>, j: int, k: int)
    requires
        0 <= j < k <= rules.len(),
        sets_match(rules[j].patterns(), m),
    ensures
        row_plan(m, rules, j).len() < row_plan(m, rules, k).len(),
        row_plan(m, rules, k)[row_plan(m, rules, j).len() as int] == plan_entry(m, rules[j]),
    decreases k,
{
    if k > j + 1 {
        lemma_row_keeps_entry(m, rules, j, k - 1);
    }
}

proof fn lemma_row_grows(m: Message, rules: Seq<CompiledRule>, j: int, k: int)
    requires
        0 <= j <= k,
    ensures
        row_plan(m, rules, j).len() <= row_plan(m, rules, k).len(),
    decreases k,
{
    if k > j {
        lemma_row_grows(m, rules, j, k - 1);
    }
}

proof fn lemma_plan_prefix(messages: Seq<Message>, rules: Seq<CompiledRule>, i: int, n: int)
    requires
        0 <= i <= n,
    ensures
        plan_of(messages, rules, i).len() <= plan_of(messages, rules, n).len(),
        forall|p: int|
            0 <= p < plan_of(messages, rules, i).len() ==> #[trigger] plan_of(messages, rules, n)[p]
                == plan_of(messages, rules, i)[p],
    decreases n,
{
    if n > i {
        lemma_plan_prefix(messages, rules, i, n - 1);
    }
}

/// Where the action of message `i` under rule `j` stands in the batch plan.
pub open spec fn plan_position(messages: Seq<Message>, rules: Seq<CompiledRule>, i: int, j: int) -> int {
    (plan_of(messages, rules, i).len() + row_plan(messages[i], rules, j).len()) as int
}

proof fn lemma_entry_at_position(messages: Seq<Message>, rules: Seq<CompiledRule>, i: int, j: int)
    requires
        0 <= i < messages.len(),
        0 <= j < rules.len(),
        sets_match(rules[j].patterns(), messages[i]),
    ensures
        0 <= plan_position(messages, rules, i, j) < batch_plan(messages, rules).len(),
        batch_plan(messages, rules)[plan_position(messages, rules, i, j)] == plan_entry(
            messages[i],
            rules[j],
        ),
{
    lemma_row_keeps_entry(messages[i], rules, j, rules.len() as int);
    lemma_plan_prefix(messages, rules, i + 1, messages.len() as int);
    let p = plan_position(messages, rules, i, j);
    assert(plan_of(messages, rules, i + 1)[p] == plan_entry(messages[i], rules[j]));
}

/// A message that two rules match gets two actions, in the order of the
/// rules: with a Message-ID, two separate moves of that message, one to
/// each rule's folder.
pub proof fn lemma_two_rules_give_two_moves(
    messages: Seq<Message>,
    rules: Seq<CompiledRule>,
    i: int,
    j1: int,
    j2: int,
)
    requires
        0 <= i < messages.len(),
        0 <= j1 < j2 < rules.len(),
        sets_match(rules[j1].patterns(), messages[i]),
        sets_match(rules[j2].patterns(), messages[i]),
    ensures
        plan_position(messages, rules, i, j1) < plan_position(messages, rules, i, j2),
        batch_plan(messages, rules)[plan_position(messages, rules, i, j1)] == plan_entry(
            messages[i],
            rules[j1],
        ),
        batch_plan(messages, rules)[plan_position(messages, rules, i, j2)] == plan_entry(
            messages[i],
            rules[j2],
        ),
        messages[i].message_id matches Some(id) ==> batch_plan(messages, rules)[plan_position(
            messages,
            rules,
            i,
            j1,
        )] == PlanView::Move(id@, rules[j1].target()) && batch_plan(messages, rules)[plan_position(
            messages,
            rules,
            i,
            j2,
        )] == PlanView::Move(id@, rules[j2].target()),
{
    lemma_entry_at_position(messages, rules, i, j1);
    lemma_entry_at_position(messages, rules, i, j2);
    lemma_row_keeps_entry(messages[i], rules, j1, j1 + 1);
    lemma_row_grows(messages[i], rules, j1 + 1, j2);
}

proof fn lemma_row_moves_have_ids(m: Message, rules: Seq<CompiledRule>, j: int)
    ensures
        forall|p: int|
            0 <= p < row_plan(m, rules, j).len() ==> match #[trigger] row_plan(m, rules, j)[p] {
                PlanView::Move(id, _) => m.message_id matches Some(mid) && mid@ == id,
                PlanView::Skip(subject) => m.message_id is None && subject == m.subject@,
            },
    decreases j,
{
    if j > 0 {
        lemma_row_moves_have_ids(m, rules, j - 1);
    }
}

/// A message without a Message-ID never gets a move: each rule that
/// matches it yields a skip under its subject, and every move of the batch
/// plan names the Message-ID of a message of the batch.
pub proof fn lemma_missing_id_never_moves(messages: Seq<Message>, rules: Seq<CompiledRule>)
    ensures
        forall|i: int, j: int|
            0 <= i < messages.len() && 0 <= j < rules.len() && messages[i].message_id is None
                && sets_match(rules[j].patterns(), messages[i]) ==> batch_plan(messages, rules)[
                #[trigger] plan_position(messages, rules, i, j)] == PlanView::Skip(
                messages[i].subject@,
            ),
        forall|p: int|
            0 <= p < batch_plan(messages, rules).len() ==> match #[trigger] batch_plan(
                messages,
                rules,
            )[p] {
                PlanView::Move(id, _) => exists|i: int|
                    0 <= i < messages.len() && #[trigger] carries_id(messages, i, id),
                PlanView::Skip(_) => true,
            },
{
    assert forall|i: int, j: int|
        0 <= i < messages.len() && 0 <= j < rules.len() && messages[i].message_id is None
            && sets_match(rules[j].patterns(), messages[i]) implies batch_plan(messages, rules)[
        #[trigger] plan_position(messages, rules, i, j)] == PlanView::Skip(messages[i].subject@) by {
        lemma_entry_at_position(messages, rules, i, j);
    }
    lemma_plan_moves_have_ids(messages, rules, messages.len() as int);
}

proof fn lemma_plan_moves_have_ids(messages: Seq<Message>, rules: Seq<CompiledRule>, n: int)
    requires
        n <= messages.len(),
    ensures
        forall|p: int|
            0 <= p < plan_of(messages, rules, n).len() ==> match #[trigger] plan_of(
                messages,
                rules,
                n,
            )[p] {
                PlanView::Move(id, _) => exists|i: int|
                    0 <= i < messages.len() && #[trigger] carries_id(messages, i, id),
                PlanView::Skip(_) => true,
            },
    decreases n,
{
    if n > 0 {
        lemma_plan_moves_have_ids(messages, rules, n - 1);
        let m = messages[n - 1];
        lemma_row_moves_have_ids(m, rules, rules.len() as int);
        let prev = plan_of(messages, rules, n - 1);
        let row = row_plan(m, rules, rules.len() as int);
        assert forall|p: int| 0 <= p < plan_of(messages, rules, n).len() implies match #[trigger] plan_of(
            messages,
            rules,
            n,
        )[p] {
            PlanView::Move(id, _) => exists|i: int|
                0 <= i < messages.len() && #[trigger] carries_id(messages, i, id),
            PlanView::Skip(_) => true,
        } by {
            if p >= prev.len() {
                assert(plan_of(messages, rules, n)[p] == row[p - prev.len()]);
                match row[p - prev.len()] {
                    PlanView::Move(id, _) => {
                        assert(carries_id(messages, n - 1, id));
                    },
                    PlanView::Skip(_) => {},
                }
            } else {
                assert(plan_of(messages, rules, n)[p] == prev[p]);
            }
        }
    }
}

/// Message `i` of the batch has the Message-ID `id`.
pub open spec fn carries_id(messages: Seq<Message>, i: int, id: Seq<char>) -> bool {
    messages[i].message_id matches Some(mid) && mid@ == id
}

/// The bytes of each record.
pub open spec fn record_views(records: Seq<Vec<u8>>) -> Seq<Seq<u8>> {
    records.map_values(|r: Vec<u8>| r@)
}

/// The positions, in increasing order, of the records among `records[0..n]`
/// that give a message.
pub open spec fn parsed_indices(records: Seq<Seq<u8>>, n: int) -> Seq<int>
    decreases n,
{
    if n <= 0 {
        seq![]
    } else if gives_message(records[n - 1]) {
        parsed_indices(records, n - 1).push(n - 1)
    } else {
        parsed_indices(records, n - 1)
    }
}

/// `batch` holds, in record order, the message of each record that gives one.
pub open spec fn parsed_from(records: Seq<Seq<u8>>, batch: Seq<Message>) -> bool {
    let idx = parsed_indices(records, records.len() as int);
    &&& batch.len() == idx.len()
    &&& forall|k: int|
        0 <= k < batch.len() ==> message_of(mime_of(records[idx[k]])->Some_0, #[trigger] batch[k])
}

/// The messages of the fetched records that parse, in record order; a
/// record that does not give a message is dropped.
pub fn parse_batch(records: &Vec<Vec<u8>>) -> (r: Vec<Message>)
    ensures
        parsed_from(record_views(records@), r@),
{
    let ghost recs = record_views(records@);
    let mut out: Vec<Message> = Vec::new();
    for i in 0..records.len()
        invariant
            recs == record_views(records@),
            out@.len() == parsed_indices(recs, i as int).len(),
            forall|k: int|
                0 <= k < out@.len() ==> message_of(
                    mime_of(recs[parsed_indices(recs, i as int)[k]])->Some_0,
                    #[trigger] out@[k],
                ),
    {
        assert(recs[i as int] == records@[i as int]@);
        match process_message(records[i].as_slice()) {
            Ok(m) => {
                let ghost prev = out@;
                out.push(m);
                assert forall|k: int| 0 <= k < out@.len() implies message_of(
                    mime_of(recs[parsed_indices(recs, i + 1)[k]])->Some_0,
                    #[trigger] out@[k],
                ) by {
                    if k < prev.len() {
                        assert(out@[k] == prev[k]);
                    }
                }
            },
            Err(_) => {},
        }
    }
    out
}

/// The run's batch: the messages of the fetched records, newest first, each
/// record that gives a message giving exactly one.
pub open spec fn fetched_batch(records: Seq<Seq<u8>>, messages: Seq<Message>) -> bool {
    exists|batch: Seq<Message>, origin: Seq<int>|
        parsed_from(records, batch) && #[trigger] stable_arrangement(batch, messages, origin)
}

/// A batch of one message with a Message-ID, under one rule that matches
/// it, plans exactly one move: of that message, to the rule's folder.
pub proof fn lemma_single_match_single_move(m: Message, rule: CompiledRule)
    requires
        sets_match(rule.patterns(), m),
        m.message_id is Some,
    ensures
        batch_plan(seq![m], seq![rule]) == seq![PlanView::Move(m.message_id->Some_0@, rule.target())],
{
    let ms = seq![m];
    let rs = seq![rule];
    assert(row_plan(m, rs, 0) == Seq::<PlanView>::empty());
    assert(plan_of(ms, rs, 0) == Seq::<PlanView>::empty());
    assert(ms[0] == m);
    assert(rs[0] == rule);
    assert(batch_plan(ms, rs) =~= seq![PlanView::Move(m.message_id->Some_0@, rule.target())]);
}

/// Why a run stopped before its end.
#[derive(Debug, Clone, Copy, PartialEq, Eq)]
pub enum RunError {
    /// The connection could not be opened.
    Connection,
    /// The server refused the credentials.
    Authentication,
    /// Selecting, fetching or logging out failed.
    Protocol,
}

/// What became of one planned action.
#[derive(Debug, Clone, Copy, PartialEq, Eq)]
pub enum ActionOutcome {
    /// The message was moved.
    Completed,
    /// The move failed; the run went on with the next action.
    Failed(ActionError),
    /// The message had no Message-ID; nothing was sent to the server.
    SkippedMissingId,
}

/// Where a run stands.
#[derive(Debug, Clone, Copy, PartialEq, Eq)]
pub enum RunPhase {
    Start,
    Connecting,
    Authenticating,
    Selecting,
    Fetching,
    Acting,
    LoggingOut,
    Finished,
}

/// One run over a mailbox: connect, authenticate, select, fetch the most
/// recent messages, move each message that a rule matches, log out. The
/// driver performs each command and hands back the server's reply.
pub struct RuleRun {
    rules: Vec<CompiledRule>,
    mailbox: String,
    count: u32,
    phase: RunPhase,
    messages: Vec<Message>,
    plan: Vec<PlannedAction>,
    outcomes: Vec<ActionOutcome>,
    action: Option<Action>,
    error: Option<RunError>,
}

/// The outcome that a finished action leaves.
pub open spec fn outcome_of(result: Result<(), ActionError>) -> ActionOutcome {
    match result {
        Ok(()) => ActionOutcome::Completed,
        Err(e) => ActionOutcome::Failed(e),
    }
}

impl RuleRun {
    pub closed spec fn phase_view(&self) -> RunPhase {
        self.phase
    }

    pub closed spec fn rules_view(&self) -> Seq<CompiledRule> {
        self.rules@
    }

    pub closed spec fn mailbox_view(&self) -> Seq<char> {
        self.mailbox@
    }

    pub closed spec fn count_view(&self) -> u32 {
        self.count
    }

    pub closed spec fn messages_view(&self) -> Seq<Message> {
        self.messages@
    }

    pub closed spec fn plan_view(&self) -> Seq<PlanView> {
        plan_views(self.plan@)
    }

    pub closed spec fn outcomes_view(&self) -> Seq<ActionOutcome> {
        self.outcomes@
    }

    pub closed spec fn error_view(&self) -> Option<RunError> {
        self.error
    }

    pub closed spec fn action_view(&self) -> Option<Action> {
        self.action
    }

    /// The action under way stands for the first plan entry without an
    /// outcome, and that entry is a move.
    pub open spec fn acting_on_move(&self) -> bool {
        let k = self.outcomes_view().len() as int;
        &&& k < self.plan_view().len()
        &&& self.action_view() matches Some(a) && a.wf() && a.step_view() != ActionStep::Finished
            && a.mailbox_view() == self.mailbox_view() && self.plan_view()[k] == PlanView::Move(
            a.message_id_view(),
            a.target_view()->Some_0,
        ) && a.target_view() is Some
    }

    /// The batch has been fetched: the run is acting, logging out or over.
    pub open spec fn fetched(&self) -> bool {
        ||| self.phase_view() == RunPhase::Acting
        ||| self.phase_view() == RunPhase::LoggingOut
        ||| self.phase_view() == RunPhase::Finished
    }

    /// The run's invariant. Outcomes follow the plan one for one; a skip
    /// gets the skip outcome and a move never does; while acting, the action
    /// under way is the move of the next entry; the plan is the batch plan of
    /// the fetched messages; a run that stopped early is over, and a run over
    /// without error has an outcome for every entry.
    pub open spec fn wf(&self) -> bool {
        &&& self.outcomes_view().len() <= self.plan_view().len()
        &&& forall|k: int|
            0 <= k < self.outcomes_view().len() ==> ((#[trigger] self.plan_view()[k]) is Skip
                <==> self.outcomes_view()[k] == ActionOutcome::SkippedMissingId)
        &&& self.phase_view() == RunPhase::Acting ==> self.acting_on_move()
        &&& self.phase_view() == RunPhase::LoggingOut ==> self.outcomes_view().len()
            == self.plan_view().len()
        &&& self.plan_view() == batch_plan(self.messages_view(), self.rules_view())
        &&& self.fetched() || (self.messages_view().len() == 0 && self.outcomes_view().len() == 0)
        &&& self.error_view() is Some ==> self.phase_view() == RunPhase::Finished
        &&& self.phase_view() == RunPhase::Finished && self.error_view() is None
            ==> self.outcomes_view().len() == self.plan_view().len()
    }

    /// A run of `rules` over the `count` most recent messages of `mailbox`.
    pub fn new(rules: Vec<CompiledRule>, mailbox: String, count: u32) -> (r: RuleRun)
        ensures
            r.wf(),
            r.phase_view() == RunPhase::Start,
            r.rules_view() == rules@,
            r.mailbox_view() == mailbox@,
            r.count_view() == count,
            r.plan_view().len() == 0,
            r.outcomes_view().len() == 0,
            r.error_view() is None,
    {
        let run = RuleRun {
            rules,
            mailbox,
            count,
            phase: RunPhase::Start,
            messages: Vec::new(),
            plan: Vec::new(),
            outcomes: Vec::new(),
            action: None,
            error: None,
        };
        assert(plan_views(run.plan@) =~= seq![]);
        run
    }

    /// A run of the configured rules over `mailbox`; fails when a pattern
    /// does not compile.
    pub fn for_rules(config: &RulesConfig, mailbox: String) -> (r: Result<RuleRun, InvalidPattern>)
        ensures
            r is Ok <==> forall|j: int|
                0 <= j < config.rules@.len() ==> rule_compiles(#[trigger] config.rules@[j].rule),
            r matches Ok(run) ==> {
                &&& run.wf()
                &&& run.phase_view() == RunPhase::Start
                &&& run.mailbox_view() == mailbox@
                &&& run.count_view() == config.messages_to_check
                &&& run.rules_view().len() == config.rules@.len()
                &&& forall|j: int|
                    0 <= j < config.rules@.len() ==> (#[trigger] run.rules_view()[j]).patterns()
                        == config.rules@[j].rule.patterns() && run.rules_view()[j].target()
                        == config.rules@[j].rule.target_folder@
            },
    {
        let mut compiled: Vec<CompiledRule> = Vec::new();
        for j in 0..config.rules.len()
            invariant
                compiled@.len() == j,
                forall|t: int| 0 <= t < j ==> rule_compiles(#[trigger] config.rules@[t].rule),
                forall|t: int|
                    0 <= t < j ==> (#[trigger] compiled@[t]).patterns() == config.rules@[t].rule.patterns()
                        && compiled@[t].target() == config.rules@[t].rule.target_folder@,
        {
            match CompiledRule::compile(&config.rules[j].rule) {
                Ok(c) => compiled.push(c),
                Err(e) => return Err(e),
            }
        }
        Ok(RuleRun::new(compiled, mailbox, config.messages_to_check))
    }

    /// A run of the spam filter over the `count` most recent messages of
    /// `mailbox`, moving matches to `target_folder`; fails when a pattern
    /// does not compile.
    pub fn for_spam_filter(
        settings: &SpamFilterSettings,
        mailbox: String,
        target_folder: String,
        count: u32,
    ) -> (r: Result<RuleRun, InvalidPattern>)
        ensures
            r is Ok <==> sets_compile(settings.patterns()),
            r matches Ok(run) ==> {
                &&& run.wf()
                &&& run.phase_view() == RunPhase::Start
                &&& run.mailbox_view() == mailbox@
                &&& run.count_view() == count
                &&& run.rules_view().len() == 1
                &&& run.rules_view()[0].patterns() == settings.patterns()
                &&& run.rules_view()[0].target() == target_folder@
            },
    {
        match CompiledRule::compile_spam_filter(settings, &target_folder) {
            Ok(c) => {
                let mut rules: Vec<CompiledRule> = Vec::new();
                rules.push(c);
                Ok(RuleRun::new(rules, mailbox, count))
            },
            Err(e) => Err(e),
        }
    }

    /// The first command: open the connection.
    pub fn start(&mut self) -> (r: Command)
        requires
            old(self).wf(),
            old(self).phase_view() == RunPhase::Start,
        ensures
            final(self).wf(),
            final(self).phase_view() == RunPhase::Connecting,
            r.view() == CommandView::Connect,
            final(self).rules_view() == old(self).rules_view(),
            final(self).mailbox_view() == old(self).mailbox_view(),
            final(self).count_view() == old(self).count_view(),
            final(self).plan_view() == old(self).plan_view(),
            final(self).outcomes_view() == old(self).outcomes_view(),
    {
        self.phase = RunPhase::Connecting;
        Command::Connect
    }

    /// Records skips for the plan entries without a Message-ID, from the
    /// first entry without an outcome on, then starts the next move, or logs
    /// out when the plan is done.
    fn advance(&mut self) -> (r: Command)
        requires
            old(self).outcomes_view().len() <= old(self).plan_view().len(),
            forall|k: int|
                0 <= k < old(self).outcomes_view().len() ==> ((#[trigger] old(self).plan_view()[k]) is Skip
                    <==> old(self).outcomes_view()[k] == ActionOutcome::SkippedMissingId),
            old(self).plan_view() == batch_plan(old(self).messages_view(), old(self).rules_view()),
            old(self).error_view() is None,
        ensures
            final(self).wf(),
            final(self).rules_view() == old(self).rules_view(),
            final(self).mailbox_view() == old(self).mailbox_view(),
            final(self).count_view() == old(self).count_view(),
            final(self).messages_view() == old(self).messages_view(),
            final(self).plan_view() == old(self).plan_view(),
            final(self).error_view() is None,
            old(self).outcomes_view().len() <= final(self).outcomes_view().len(),
            forall|k: int|
                0 <= k < old(self).outcomes_view().len() ==> #[trigger] final(self).outcomes_view()[k]
                    == old(self).outcomes_view()[k],
            forall|k: int|
                old(self).outcomes_view().len() <= k < final(self).outcomes_view().len()
                    ==> #[trigger] final(self).plan_view()[k] is Skip,
            final(self).phase_view() == RunPhase::Acting ==> r.view() == CommandView::Select(
                final(self).mailbox_view(),
            ),
            final(self).phase_view() == RunPhase::LoggingOut ==> r.view() == CommandView::Logout,
            final(self).phase_view() == RunPhase::Acting || final(self).phase_view()
                == RunPhase::LoggingOut,
    {
        let ghost start = self.outcomes@;
        while self.outcomes.len() < self.plan.len()
            invariant
                self.rules@ == old(self).rules@,
                self.mailbox@ == old(self).mailbox@,
                self.count == old(self).count,
                self.messages@ == old(self).messages@,
                self.plan@ == old(self).plan@,
                self.error == old(self).error,
                self.error is None,
                start == old(self).outcomes@,
                plan_views(self.plan@) == batch_plan(self.messages@, self.rules@),
                self.outcomes@.len() <= self.plan@.len(),
                start.len() <= self.outcomes@.len(),
                forall|k: int| 0 <= k < start.len() ==> #[trigger] self.outcomes@[k] == start[k],
                forall|k: int|
                    start.len() <= k < self.outcomes@.len() ==> #[trigger] plan_views(self.plan@)[k] is Skip,
                forall|k: int|
                    0 <= k < self.outcomes@.len() ==> ((#[trigger] plan_views(self.plan@)[k]) is Skip
                        <==> self.outcomes@[k] == ActionOutcome::SkippedMissingId),
            decreases self.plan@.len() - self.outcomes@.len(),
        {
            let k = self.outcomes.len();
            match &self.plan[k] {
                PlannedAction::Move { message_id, target_folder } => {
                    let (action, command) = Action::start_move(
                        message_id.clone(),
                        self.mailbox.clone(),
                        target_folder.clone(),
                    );
                    assert(plan_views(self.plan@)[k as int] == self.plan@[k as int].view());
                    self.action = Some(action);
                    self.phase = RunPhase::Acting;
                    return command;
                },
                PlannedAction::SkipMissingId { .. } => {
                    assert(plan_views(self.plan@)[k as int] == self.plan@[k as int].view());
                    self.outcomes.push(ActionOutcome::SkippedMissingId);
                },
            }
        }
        self.action = None;
        self.phase = RunPhase::LoggingOut;
        Command::Logout
    }

    /// Takes the reply to the last command and returns the next one, or
    /// `None` once the run has finished. Replies after the end are ignored.
    pub fn on_reply(&mut self, reply: Reply) -> (r: Option<Command>)
        requires
            old(self).wf(),
        ensures
            final(self).wf(),
            final(self).rules_view() == old(self).rules_view(),
            final(self).mailbox_view() == old(self).mailbox_view(),
            final(self).count_view() == old(self).count_view(),
            r is None <==> final(self).phase_view() == RunPhase::Finished || final(self).phase_view()
                == RunPhase::Start,
            old(self).phase_view() == RunPhase::Start || old(self).phase_view()
                == RunPhase::Finished ==> *final(self) == *old(self),
            old(self).phase_view() == RunPhase::Connecting ==> if reply is Connected {
                final(self).phase_view() == RunPhase::Authenticating && opt_command_view(r)
                    == Some(CommandView::Login)
            } else {
                final(self).error_view() == Some(RunError::Connection)
            },
            old(self).phase_view() == RunPhase::Authenticating ==> if reply is LoggedIn {
                final(self).phase_view() == RunPhase::Selecting && opt_command_view(r) == Some(
                    CommandView::Select(old(self).mailbox_view()),
                )
            } else {
                final(self).error_view() == Some(RunError::Authentication)
            },
            old(self).phase_view() == RunPhase::Selecting ==> match reply {
                Reply::Selected { exists } => if exists == 0 || old(self).count_view() == 0 {
                    final(self).phase_view() == RunPhase::LoggingOut && opt_command_view(r)
                        == Some(CommandView::Logout) && final(self).plan_view().len() == 0
                        && final(self).messages_view() == old(self).messages_view()
                        && final(self).messages_view().len() == 0
                } else {
                    final(self).phase_view() == RunPhase::Fetching && opt_command_view(r) == Some(
                        CommandView::Fetch(
                            decimal_chars(range_start(exists, old(self).count_view()) as nat) + ":"@
                                + decimal_chars(exists as nat),
                        ),
                    )
                },
                _ => final(self).error_view() == Some(RunError::Protocol),
            },
            old(self).phase_view() == RunPhase::Fetching ==> match reply {
                Reply::Fetched { records } => {
                    &&& fetched_batch(record_views(records@), final(self).messages_view())
                    &&& sorted_by_date_desc(final(self).messages_view())
                    &&& final(self).error_view() is None
                    &&& final(self).phase_view() == RunPhase::Acting ==> opt_command_view(r)
                        == Some(CommandView::Select(old(self).mailbox_view()))
                    &&& final(self).phase_view() == RunPhase::LoggingOut ==> opt_command_view(r)
                        == Some(CommandView::Logout)
                    &&& (final(self).phase_view() == RunPhase::Acting || final(self).phase_view()
                        == RunPhase::LoggingOut)
                    &&& forall|k: int|
                        0 <= k < final(self).outcomes_view().len() ==> #[trigger] final(self).outcomes_view()[k] == ActionOutcome::SkippedMissingId
                },
                _ => final(self).error_view() == Some(RunError::Protocol),
            },
            old(self).phase_view() == RunPhase::Acting ==> {
                let a = old(self).action_view()->Some_0;
                let k = old(self).outcomes_view().len() as int;
                let next = action_next(a.step_view(), reply, a.message_id_view(), a.target_view());
                &&& final(self).error_view() is None
                &&& final(self).plan_view() == old(self).plan_view()
                &&& final(self).messages_view() == old(self).messages_view()
                &&& if next.1 is Some {
                    &&& final(self).phase_view() == RunPhase::Acting
                    &&& opt_command_view(r) == next.1
                    &&& final(self).outcomes_view() == old(self).outcomes_view()
                } else {
                    &&& final(self).outcomes_view().len() > k
                    &&& final(self).outcomes_view()[k] == outcome_of(next.2->Some_0)
                    &&& forall|t: int|
                        k < t < final(self).outcomes_view().len() ==> #[trigger] final(self).outcomes_view()[t] == ActionOutcome::SkippedMissingId
                    &&& final(self).phase_view() == RunPhase::Acting ==> opt_command_view(r)
                        == Some(CommandView::Select(old(self).mailbox_view()))
                    &&& final(self).phase_view() == RunPhase::LoggingOut ==> opt_command_view(r)
                        == Some(CommandView::Logout)
                    &&& (final(self).phase_view() == RunPhase::Acting || final(self).phase_view()
                        == RunPhase::LoggingOut)
                }
                &&& forall|t: int|
                    0 <= t < k ==> #[trigger] final(self).outcomes_view()[t]
                        == old(self).outcomes_view()[t]
            },
            old(self).phase_view() == RunPhase::LoggingOut ==> final(self).phase_view()
                == RunPhase::Finished && (final(self).error_view() is None <==> reply is Done),
    {
        match self.phase {
            RunPhase::Start | RunPhase::Finished => None,
            RunPhase::Connecting => match reply {
                Reply::Connected => {
                    self.phase = RunPhase::Authenticating;
                    Some(Command::Login)
                },
                _ => self.fail(RunError::Connection),
            },
            RunPhase::Authenticating => match reply {
                Reply::LoggedIn => {
                    self.phase = RunPhase::Selecting;
                    Some(Command::Select { mailbox: self.mailbox.clone() })
                },
                _ => self.fail(RunError::Authentication),
            },
            RunPhase::Selecting => match reply {
                Reply::Selected { exists } => match calculate_message_range(exists, self.count) {
                    Some(range) => {
                        self.phase = RunPhase::Fetching;
                        Some(Command::Fetch { range })
                    },
                    None => {
                        self.phase = RunPhase::LoggingOut;
                        Some(Command::Logout)
                    },
                },
                _ => self.fail(RunError::Protocol),
            },
            RunPhase::Fetching => match reply {
                Reply::Fetched { records } => {
                    let mut messages = parse_batch(&records);
                    let ghost parsed = messages@;
                    sort_messages_by_date_desc(&mut messages);
                    proof {
                        let origin = choose|o: Seq<int>| stable_arrangement(parsed, messages@, o);
                        assert(parsed_from(record_views(records@), parsed) && stable_arrangement(
                            parsed,
                            messages@,
                            origin,
                        ));
                    }
                    let plan = plan_actions(&messages, &self.rules);
                    self.messages = messages;
                    self.plan = plan;
                    self.outcomes = Vec::new();
                    let ghost sorted = self.messages@;
                    let command = self.advance();
                    proof {
                        assert(self.messages@ == sorted);
                        assert forall|k: int| 0 <= k < self.outcomes@.len() implies #[trigger] self.outcomes@[k]
                            == ActionOutcome::SkippedMissingId by {
                            assert(plan_views(self.plan@)[k] is Skip);
                        }
                    }
                    Some(command)
                },
                _ => self.fail(RunError::Protocol),
            },
            RunPhase::Acting => {
                let mut action = match self.action.take() {
                    Some(a) => a,
                    None => return None,
                };
                let next = action.on_reply(&reply);
                match next {
                    Some(command) => {
                        self.action = Some(action);
                        Some(command)
                    },
                    None => {
                        let outcome = match action.result() {
                            Some(Ok(())) => ActionOutcome::Completed,
                            Some(Err(e)) => ActionOutcome::Failed(e),
                            None => ActionOutcome::Failed(ActionError::Protocol),
                        };
                        let ghost k = self.outcomes@.len() as int;
                        self.outcomes.push(outcome);
                        let ghost pushed = self.outcomes@;
                        let command = self.advance();
                        proof {
                            assert(self.outcomes@[k] == pushed[k]);
                            assert forall|t: int| k < t < self.outcomes@.len() implies #[trigger] self.outcomes@[t]
                                == ActionOutcome::SkippedMissingId by {
                                assert(plan_views(self.plan@)[t] is Skip);
                            }
                            assert forall|t: int| 0 <= t < k implies #[trigger] self.outcomes@[t]
                                == old(self).outcomes@[t] by {
                                assert(self.outcomes@[t] == pushed[t]);
                            }
                        }
                        Some(command)
                    },
                }
            },
            RunPhase::LoggingOut => {
                self.phase = RunPhase::Finished;
                match reply {
                    Reply::Done => None,
                    _ => {
                        self.error = Some(RunError::Protocol);
                        None
                    },
                }
            },
        }
    }

    fn fail(&mut self, error: RunError) -> (r: Option<Command>)
        requires
            old(self).wf(),
            old(self).phase_view() != RunPhase::Acting,
        ensures
            final(self).wf(),
            r is None,
            final(self).phase_view() == RunPhase::Finished,
            final(self).error_view() == Some(error),
            final(self).rules_view() == old(self).rules_view(),
            final(self).mailbox_view() == old(self).mailbox_view(),
            final(self).count_view() == old(self).count_view(),
            final(self).plan_view() == old(self).plan_view(),
            final(self).outcomes_view() == old(self).outcomes_view(),
            final(self).messages_view() == old(self).messages_view(),
    {
        self.phase = RunPhase::Finished;
        self.error = Some(error);
        None
    }

    /// Where the run stands.
    pub fn phase(&self) -> (r: RunPhase)
        ensures
            r == self.phase_view(),
    {
        self.phase
    }

    /// Why the run stopped early, if it did.
    pub fn error(&self) -> (r: Option<RunError>)
        ensures
            r == self.error_view(),
    {
        self.error
    }

    /// The fetched messages, newest first.
    pub fn messages(&self) -> (r: &Vec<Message>)
        ensures
            r@ == self.messages_view(),
    {
        &self.messages
    }

    /// The planned actions, in the order they are carried out.
    pub fn plan(&self) -> (r: &Vec<PlannedAction>)
        ensures
            plan_views(r@) == self.plan_view(),
    {
        &self.plan
    }

    /// The outcomes of the planned actions carried out so far, in order.
    pub fn outcomes(&self) -> (r: &Vec<ActionOutcome>)
        ensures
            r@ == self.outcomes_view(),
    {
        &self.outcomes
    }
}

} // verus!
