//! The change engine: walks an ordered batch of pending changes and turns
//! the outcome of each directory invocation into a per-change result.
//!
//! Each change is applied in two steps: first enable or disable, then start
//! or stop. The engine itself performs no invocation; it hands out the next
//! command to run and is fed the outcome, so the whole decision logic is
//! verified while the caller does the waiting. A failed or timed-out first
//! step ends that change at once — the second step is never asked for — and
//! one change's failure never stops the changes after it.
use vstd::prelude::*;

use crate::services::{ChangeAction, ChangeResult, PendingChange, ServiceScope};
use vstd::string::StringExecFns;

verus! {

/// How one directory invocation ended: the command ran and reported
/// success, it ran and reported failure with its diagnostic text, or it
/// never came back and was abandoned with the given error text.
#[derive(Debug, Clone)]
pub enum StepOutcome {
    Succeeded,
    Failed(String),
    TimedOut(String),
}

/// The verb of the first step of a change: the persisted, durable action.
pub open spec fn enable_verb_text(a: ChangeAction) -> Seq<char> {
    match a {
        ChangeAction::Enable => "enable"@,
        ChangeAction::Disable => "disable"@,
    }
}

/// The verb of the second step of a change: the runtime action.
pub open spec fn start_verb_text(a: ChangeAction) -> Seq<char> {
    match a {
        ChangeAction::Enable => "start"@,
        ChangeAction::Disable => "stop"@,
    }
}

/// The first-step verb, as executable code.
pub fn enable_verb(a: ChangeAction) -> (r: &'static str)
    ensures
        r@ == enable_verb_text(a),
{
    match a {
        ChangeAction::Enable => "enable",
        ChangeAction::Disable => "disable",
    }
}

/// The second-step verb, as executable code.
pub fn start_verb(a: ChangeAction) -> (r: &'static str)
    ensures
        r@ == start_verb_text(a),
{
    match a {
        ChangeAction::Enable => "start",
        ChangeAction::Disable => "stop",
    }
}

/// Message recorded when both steps succeed.
pub open spec fn msg_applied(a: ChangeAction) -> Seq<char> {
    enable_verb_text(a) + "d and "@ + start_verb_text(a) + "ed"@
}

/// Message recorded when the first step succeeds but the second fails.
pub open spec fn msg_step2_failed(a: ChangeAction, diag: Seq<char>) -> Seq<char> {
    enable_verb_text(a) + "d but "@ + start_verb_text(a) + " failed: "@ + diag
}

/// Message recorded when the first step succeeds but the second times out.
pub open spec fn msg_step2_timed_out(a: ChangeAction, diag: Seq<char>) -> Seq<char> {
    enable_verb_text(a) + "d but "@ + start_verb_text(a) + " timed out: "@ + diag
}

/// Message recorded when the first step fails; the second step is skipped.
pub open spec fn msg_step1_failed(a: ChangeAction, diag: Seq<char>) -> Seq<char> {
    enable_verb_text(a) + " failed: "@ + diag
}

/// Message recorded when the first step times out; the second is skipped.
pub open spec fn msg_step1_timed_out(a: ChangeAction, diag: Seq<char>) -> Seq<char> {
    enable_verb_text(a) + " timed out: "@ + diag
}

/// The success flag and message of one change, given the outcome of its
/// first step and, where the first step succeeded, of its second step.
/// The `None` second-step case after a successful first step never arises:
/// a change whose first step succeeded always goes on to its second step.
pub open spec fn spec_change_outcome(
    a: ChangeAction,
    first: StepOutcome,
    second: Option<StepOutcome>,
) -> (bool, Seq<char>) {
    match first {
        StepOutcome::Succeeded => match second {
            Some(StepOutcome::Succeeded) => (true, msg_applied(a)),
            Some(StepOutcome::Failed(d)) => (false, msg_step2_failed(a, d@)),
            Some(StepOutcome::TimedOut(d)) => (false, msg_step2_timed_out(a, d@)),
            None => (false, Seq::empty()),
        },
        StepOutcome::Failed(d) => (false, msg_step1_failed(a, d@)),
        StepOutcome::TimedOut(d) => (false, msg_step1_timed_out(a, d@)),
    }
}

/// `after` is `before` with one result appended, for the named service and
/// with the given success flag and message.
pub open spec fn appended_result(
    before: Seq<ChangeResult>,
    after: Seq<ChangeResult>,
    service: Seq<char>,
    outcome: (bool, Seq<char>),
) -> bool {
    &&& after == before.push(after.last())
    &&& after.last().service@ == service
    &&& after.last().success == outcome.0
    &&& after.last().message@ == outcome.1
}

/// One directory invocation the engine asks for next.
#[derive(Debug, Clone)]
pub struct StepCommand {
    pub scope: ServiceScope,
    pub verb: &'static str,
    pub service: String,
}

/// The change engine's state: the frozen batch, the position within it,
/// whether the current change is on its second step, and the results so
/// far — exactly one per finished change, in batch order.
#[derive(Debug)]
pub struct ApplyEngine {
    pub changes: Vec<PendingChange>,
    pub pos: usize,
    pub in_second: bool,
    pub results: Vec<ChangeResult>,
}

impl ApplyEngine {
    /// The engine's well-formedness: the position is within the batch, one
    /// result stands per finished change, each for its change's service.
    pub open spec fn wf(self) -> bool {
        &&& self.pos <= self.changes@.len()
        &&& self.results@.len() == self.pos
        &&& self.in_second ==> self.pos < self.changes@.len()
        &&& forall|i: int|
            0 <= i < self.pos ==> self.results@[i].service@ == self.changes@[i].service@
    }

    /// Every change of the batch has been attempted.
    pub open spec fn done(self) -> bool {
        self.pos == self.changes@.len()
    }

    /// A fresh engine over a batch: nothing attempted yet.
    pub fn new(changes: Vec<PendingChange>) -> (e: Self)
        ensures
            e.wf(),
            e.changes@ == changes@,
            e.pos == 0,
            !e.in_second,
            e.results@ == Seq::<ChangeResult>::empty(),
    {
        ApplyEngine { changes, pos: 0, in_second: false, results: Vec::new() }
    }

    /// The next command to run against the directory, or `None` when the
    /// batch is finished. Asking does not change the engine.
    pub fn next_command(&self) -> (r: Option<StepCommand>)
        requires
            self.wf(),
        ensures
            r is Some <==> !self.done(),
            r matches Some(cmd) ==> {
                &&& cmd.scope == self.changes@[self.pos as int].scope
                &&& cmd.service@ == self.changes@[self.pos as int].service@
                &&& cmd.verb@ == if self.in_second {
                    start_verb_text(self.changes@[self.pos as int].action)
                } else {
                    enable_verb_text(self.changes@[self.pos as int].action)
                }
            },
    {
        if self.pos == self.changes.len() {
            None
        } else {
            let c = &self.changes[self.pos];
            let verb = if self.in_second {
                start_verb(c.action)
            } else {
                enable_verb(c.action)
            };
            Some(StepCommand { scope: c.scope, verb, service: c.service.clone() })
        }
    }

    /// Record the outcome of the command that `next_command` last asked
    /// for. A successful first step moves the change to its second step; a
    /// failed or timed-out first step records the failure and skips the
    /// second step entirely; a second-step outcome finishes the change.
    pub fn feed(&mut self, outcome: StepOutcome)
        requires
            old(self).wf(),
            !old(self).done(),
        ensures
            final(self).wf(),
            final(self).changes@ == old(self).changes@,
            (!old(self).in_second && outcome is Succeeded) ==> {
                &&& final(self).pos == old(self).pos
                &&& final(self).in_second
                &&& final(self).results@ == old(self).results@
            },
            (!old(self).in_second && !(outcome is Succeeded)) ==> {
                &&& final(self).pos == old(self).pos + 1
                &&& !final(self).in_second
                &&& appended_result(
                    old(self).results@,
                    final(self).results@,
                    old(self).changes@[old(self).pos as int].service@,
                    spec_change_outcome(
                        old(self).changes@[old(self).pos as int].action,
                        outcome,
                        None,
                    ),
                )
            },
            old(self).in_second ==> {
                &&& final(self).pos == old(self).pos + 1
                &&& !final(self).in_second
                &&& appended_result(
                    old(self).results@,
                    final(self).results@,
                    old(self).changes@[old(self).pos as int].service@,
                    spec_change_outcome(
                        old(self).changes@[old(self).pos as int].action,
                        StepOutcome::Succeeded,
                        Some(outcome),
                    ),
                )
            },
    {
        let pos = self.pos;
        let n = self.changes.len();
        assert(pos < n);
        let service = self.changes[pos].service.clone();
        let action = self.changes[pos].action;
        if self.in_second {
            let (success, message) = step2_result(action, outcome);
            self.results.push(ChangeResult { service, success, message });
            self.in_second = false;
            self.pos = pos + 1;
        } else {
            match outcome {
                StepOutcome::Succeeded => {
                    self.in_second = true;
                },
                StepOutcome::Failed(d) => {
                    let message = enable_verb(action).to_owned().concat(" failed: ").concat(
                        d.as_str(),
                    );
                    self.results.push(ChangeResult { service, success: false, message });
                    self.pos = pos + 1;
                },
                StepOutcome::TimedOut(d) => {
                    let message = enable_verb(action).to_owned().concat(" timed out: ").concat(
                        d.as_str(),
                    );
                    self.results.push(ChangeResult { service, success: false, message });
                    self.pos = pos + 1;
                },
            }
        }
    }

    /// Whether every change of the batch has been attempted.
    pub fn is_done(&self) -> (b: bool)
        ensures
            b == self.done(),
    {
        self.pos == self.changes.len()
    }

    /// Hand out the collected results.
    pub fn into_results(self) -> (r: Vec<ChangeResult>)
        ensures
            r@ == self.results@,
    {
        self.results
    }
}

/// A finished batch reports every change: one result per change, in batch
/// order, each for its change's service — one change's failure never drops
/// or reorders the results of the others.
pub proof fn lemma_complete_batch(e: ApplyEngine)
    requires
        e.wf(),
        e.done(),
    ensures
        e.results@.len() == e.changes@.len(),
        forall|i: int|
            0 <= i < e.changes@.len() ==> e.results@[i].service@ == e.changes@[i].service@,
{
}

/// The success flag and message of a change whose first step succeeded,
/// from its second step's outcome.
fn step2_result(a: ChangeAction, outcome: StepOutcome) -> (r: (bool, String))
    ensures
        r.0 == spec_change_outcome(a, StepOutcome::Succeeded, Some(outcome)).0,
        r.1@ == spec_change_outcome(a, StepOutcome::Succeeded, Some(outcome)).1,
{
    match outcome {
        StepOutcome::Succeeded => {
            let message = enable_verb(a).to_owned().concat("d and ").concat(start_verb(a)).concat(
                "ed",
            );
            (true, message)
        },
        StepOutcome::Failed(d) => {
            let message = enable_verb(a).to_owned().concat("d but ").concat(start_verb(a)).concat(
                " failed: ",
            ).concat(d.as_str());
            (false, message)
        },
        StepOutcome::TimedOut(d) => {
            let message = enable_verb(a).to_owned().concat("d but ").concat(start_verb(a)).concat(
                " timed out: ",
            ).concat(d.as_str());
            (false, message)
        },
    }
}

} // verus!
