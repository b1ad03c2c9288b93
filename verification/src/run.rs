//! The course of one run after selection: confirmation, then one deletion
//! after another. The run decides; its caller asks the user, deletes, and
//! reports back what happened.

use crate::classify::ClassificationError;
use crate::pipeline::{identifiers, selection_view, Selection};
use vstd::prelude::*;

verus! {

/// How a run ended.
#[derive(Clone, Copy, Debug, PartialEq, Eq, Structural)]
pub enum Outcome {
    /// Every selected record was deleted.
    Completed,
    /// The user declined; nothing was deleted.
    Aborted,
    /// Selection failed; nothing was deleted.
    SelectionFailed(ClassificationError),
    /// A deletion failed; those before it stay deleted, those after it were
    /// not attempted.
    DeleteFailed,
    /// The caller reported something the run was not waiting for; nothing
    /// more was deleted.
    OutOfTurn,
}

/// What the caller reports back to the run.
#[derive(Clone, Copy, Debug, PartialEq, Eq, Structural)]
pub enum Event {
    /// The user agreed to the deletions.
    Confirmed,
    /// The user declined the deletions.
    Declined,
    /// The deletion last asked for succeeded.
    Deleted,
    /// The deletion last asked for failed.
    DeleteFailed,
}

/// What the run asks its caller to do next.
#[derive(Clone, Debug, PartialEq, Eq)]
pub enum Action {
    /// Ask the user whether to delete `pending` records.
    Confirm { pending: usize },
    /// Delete the record `uri`.
    Delete { uri: String },
    /// Stop: the run has ended.
    Finish(Outcome),
}

/// Where a run stands.
#[derive(Clone, Copy, Debug, PartialEq, Eq, Structural)]
pub enum Phase {
    /// Waiting for the user's answer.
    Confirming,
    /// Waiting for the deletion of the selected record number `index`.
    Deleting { index: usize },
    /// Ended.
    Done(Outcome),
}

/// An action with its identifier as a sequence of characters.
pub enum ActionView {
    Confirm { pending: nat },
    Delete { uri: Seq<char> },
    Finish(Outcome),
}

impl View for Action {
    type V = ActionView;

    open spec fn view(&self) -> ActionView {
        match self {
            Action::Confirm { pending } => ActionView::Confirm { pending: *pending as nat },
            Action::Delete { uri } => ActionView::Delete { uri: uri@ },
            Action::Finish(outcome) => ActionView::Finish(*outcome),
        }
    }
}

/// A run: the selected identifiers and where the run stands.
pub struct RunView {
    pub targets: Seq<Seq<char>>,
    pub phase: Phase,
}

impl RunView {
    /// The selected records can be counted by the machine, and a run that
    /// waits for a deletion waits for one of them.
    pub open spec fn wf(self) -> bool {
        &&& self.targets.len() <= usize::MAX
        &&& self.phase matches Phase::Deleting { index } ==> index < self.targets.len()
    }

    /// The run ended with `outcome`, and the action that says so.
    pub open spec fn stopped(self, outcome: Outcome) -> (RunView, ActionView) {
        (RunView { targets: self.targets, phase: Phase::Done(outcome) }, ActionView::Finish(outcome))
    }

    /// The run with the records before number `index` dealt with: it asks
    /// for the deletion of record `index`, or is complete if there is none.
    pub open spec fn deleting_from(self, index: nat) -> (RunView, ActionView) {
        if index < self.targets.len() {
            (
                RunView { targets: self.targets, phase: Phase::Deleting { index: index as usize } },
                ActionView::Delete { uri: self.targets[index as int] },
            )
        } else {
            self.stopped(Outcome::Completed)
        }
    }

    /// The run that follows a selection, and its first action.
    ///
    /// A failed selection ends the run at once. Otherwise the run asks for
    /// confirmation, or goes straight to the first deletion where
    /// `auto_confirm` is set.
    pub open spec fn begun(selection: Selection, auto_confirm: bool) -> (RunView, ActionView) {
        match selection {
            Err(error) => (RunView {
                targets: Seq::empty(),
                phase: Phase::Done(Outcome::SelectionFailed(error)),
            }).stopped(Outcome::SelectionFailed(error)),
            Ok(targets) => {
                let run = RunView { targets, phase: Phase::Confirming };
                if auto_confirm {
                    run.deleting_from(0)
                } else {
                    (run, ActionView::Confirm { pending: targets.len() })
                }
            },
        }
    }

    /// The run after `event`, and the action it asks for next.
    ///
    /// Agreement starts the deletions and refusal aborts the run. A
    /// deletion that succeeded is followed by the next one, in selection
    /// order; one that failed ends the run. A run that has ended stays as it
    /// is. Any other event ends the run out of turn.
    pub open spec fn step(self, event: Event) -> (RunView, ActionView) {
        match self.phase {
            Phase::Confirming => match event {
                Event::Confirmed => self.deleting_from(0),
                Event::Declined => self.stopped(Outcome::Aborted),
                _ => self.stopped(Outcome::OutOfTurn),
            },
            Phase::Deleting { index } => match event {
                Event::Deleted => self.deleting_from((index + 1) as nat),
                Event::DeleteFailed => self.stopped(Outcome::DeleteFailed),
                _ => self.stopped(Outcome::OutOfTurn),
            },
            Phase::Done(outcome) => (self, ActionView::Finish(outcome)),
        }
    }

    /// The run after all of `events`.
    pub open spec fn after(self, events: Seq<Event>) -> RunView
        decreases events.len(),
    {
        if events.len() == 0 {
            self
        } else {
            self.step(events.first()).0.after(events.drop_first())
        }
    }

    /// The identifiers whose deletion the run asks for in answer to
    /// `events`, in the order in which it asks.
    pub open spec fn issued(self, events: Seq<Event>) -> Seq<Seq<char>>
        decreases events.len(),
    {
        if events.len() == 0 {
            Seq::empty()
        } else {
            let (next, action) = self.step(events.first());
            let later = next.issued(events.drop_first());
            match action {
                ActionView::Delete { uri } => seq![uri] + later,
                _ => later,
            }
        }
    }

    /// How many of the selected records the run has asked to delete so far.
    pub open spec fn asked(self) -> nat {
        match self.phase {
            Phase::Confirming => 0,
            Phase::Deleting { index } => (index + 1) as nat,
            Phase::Done(_) => self.targets.len(),
        }
    }
}

/// The identifier that `action` asks to delete, if it asks for a deletion.
pub open spec fn deletion_of(action: ActionView) -> Seq<Seq<char>> {
    match action {
        ActionView::Delete { uri } => seq![uri],
        _ => Seq::empty(),
    }
}

/// One run, from the selection to its end.
pub struct Run {
    targets: Vec<String>,
    phase: Phase,
}

impl View for Run {
    type V = RunView;

    closed spec fn view(&self) -> RunView {
        RunView { targets: identifiers(self.targets@), phase: self.phase }
    }
}

impl Run {
    #[verifier::type_invariant]
    spec fn consistent(&self) -> bool {
        self@.wf()
    }

    /// Starts the run that follows `selection`, and says what to do first.
    pub fn begin(selection: Result<Vec<String>, ClassificationError>, auto_confirm: bool) -> (started:
        (Run, Action))
        ensures
            (started.0@, started.1@) == RunView::begun(selection_view(selection), auto_confirm),
            started.0@.wf(),
    {
        match selection {
            Err(error) => {
                let outcome = Outcome::SelectionFailed(error);
                let run = Run { targets: Vec::new(), phase: Phase::Done(outcome) };
                assert(identifiers(run.targets@) == Seq::<Seq<char>>::empty());
                (run, Action::Finish(outcome))
            },
            Ok(targets) => {
                let pending = targets.len();
                let mut run = Run { targets, phase: Phase::Confirming };
                if auto_confirm {
                    let action = run.delete_from(0);
                    (run, action)
                } else {
                    (run, Action::Confirm { pending })
                }
            },
        }
    }

    /// Takes in what the caller reports and says what to do next.
    pub fn advance(&mut self, event: Event) -> (action: Action)
        ensures
            (final(self)@, action@) == old(self)@.step(event),
            final(self)@.wf(),
    {
        proof {
            use_type_invariant(&*self);
        }
        match self.phase {
            Phase::Confirming => match event {
                Event::Confirmed => self.delete_from(0),
                Event::Declined => self.stop(Outcome::Aborted),
                _ => self.stop(Outcome::OutOfTurn),
            },
            Phase::Deleting { index } => match event {
                Event::Deleted => {
                    // `index` lies below the number of records, so the next one can be
                    // counted.
                    let count = self.targets.len();
                    assert(index < count);
                    self.delete_from(index + 1)
                },
                Event::DeleteFailed => self.stop(Outcome::DeleteFailed),
                _ => self.stop(Outcome::OutOfTurn),
            },
            Phase::Done(outcome) => Action::Finish(outcome),
        }
    }

    /// Where the run stands.
    pub fn phase(&self) -> (phase: Phase)
        ensures
            phase == self@.phase,
    {
        self.phase
    }

    /// How many records were selected for this run.
    pub fn selected(&self) -> (count: usize)
        ensures
            count == self@.targets.len(),
    {
        self.targets.len()
    }

    /// How the run ended, once it has.
    pub fn outcome(&self) -> (outcome: Option<Outcome>)
        ensures
            outcome == (match self@.phase {
                Phase::Done(outcome) => Some(outcome),
                _ => None,
            }),
    {
        match self.phase {
            Phase::Done(outcome) => Some(outcome),
            _ => None,
        }
    }

    fn stop(&mut self, outcome: Outcome) -> (action: Action)
        ensures
            (final(self)@, action@) == old(self)@.stopped(outcome),
    {
        proof {
            use_type_invariant(&*self);
        }
        self.phase = Phase::Done(outcome);
        Action::Finish(outcome)
    }

    fn delete_from(&mut self, index: usize) -> (action: Action)
        ensures
            (final(self)@, action@) == old(self)@.deleting_from(index as nat),
            final(self)@.wf(),
    {
        proof {
            use_type_invariant(&*self);
        }
        if index < self.targets.len() {
            self.phase = Phase::Deleting { index };
            Action::Delete { uri: self.targets[index].clone() }
        } else {
            self.stop(Outcome::Completed)
        }
    }
}

/// The events of a run in which the user agrees and `deletions` deletions
/// succeed one after another.
pub open spec fn unbroken(deletions: nat) -> Seq<Event> {
    seq![Event::Confirmed] + Seq::new(deletions, |i: int| Event::Deleted)
}

/// A run asks for the selected records in selection order, none twice and
/// none skipped: whatever is reported to it, what it asks to delete from
/// then on is the stretch of the selection that starts where it stands.
pub proof fn lemma_deletions_follow_selection(run: RunView, events: Seq<Event>)
    requires
        run.wf(),
    ensures
        run.after(events).wf(),
        run.after(events).targets == run.targets,
        run.asked() + run.issued(events).len() <= run.targets.len(),
        run.issued(events) == run.targets.subrange(
            run.asked() as int,
            (run.asked() + run.issued(events).len()) as int,
        ),
    decreases events.len(),
{
    if events.len() > 0 {
        lemma_deletions_follow_selection(run.step(events.first()).0, events.drop_first());
    }
}

/// From the selection on, the records that a run asks to delete are a
/// beginning of the selection, and none at all where selection failed.
pub proof fn lemma_run_deletes_a_beginning_of_the_selection(
    selection: Selection,
    auto_confirm: bool,
    events: Seq<Event>,
)
    requires
        selection matches Ok(targets) ==> targets.len() <= usize::MAX,
    ensures
        ({
            let (run, first) = RunView::begun(selection, auto_confirm);
            let all = deletion_of(first) + run.issued(events);
            match selection {
                Ok(targets) => all.is_prefix_of(targets),
                Err(_) => all.len() == 0,
            }
        }),
{
    lemma_deletions_follow_selection(RunView::begun(selection, auto_confirm).0, events);
}

/// A run asks for confirmation at most once, as its first action: no event
/// makes it ask again.
pub proof fn lemma_confirmation_is_not_repeated(run: RunView, event: Event)
    ensures
        !(run.step(event).1 is Confirm),
{
}

/// Without automatic confirmation nothing is deleted before the user has
/// answered, and nothing ever if the user declines: the run then ends as
/// aborted whatever is reported afterwards.
pub proof fn lemma_declined_run_deletes_nothing(targets: Seq<Seq<char>>, later: Seq<Event>)
    ensures
        ({
            let (run, first) = RunView::begun(Ok(targets), false);
            let events = seq![Event::Declined] + later;
            &&& first == ActionView::Confirm { pending: targets.len() }
            &&& run.step(Event::Declined).1 == ActionView::Finish(Outcome::Aborted)
            &&& run.issued(events).len() == 0
            &&& run.after(events).phase == Phase::Done(Outcome::Aborted)
        }),
{
    let run = RunView::begun(Ok(targets), false).0;
    let events = seq![Event::Declined] + later;
    assert(events.first() == Event::Declined);
    assert(events.drop_first() == later);
    lemma_ended_run_deletes_nothing(run.step(Event::Declined).0, later);
}

/// A run that has ended asks for no deletion and stays as it ended.
pub proof fn lemma_ended_run_deletes_nothing(run: RunView, events: Seq<Event>)
    requires
        run.phase is Done,
    ensures
        run.issued(events).len() == 0,
        run.after(events) == run,
    decreases events.len(),
{
    if events.len() > 0 {
        lemma_ended_run_deletes_nothing(run, events.drop_first());
    }
}

/// A failed deletion ends the run: the records after it are not asked for.
pub proof fn lemma_failed_deletion_ends_run(run: RunView, later: Seq<Event>)
    requires
        run.phase is Deleting,
    ensures
        run.issued(seq![Event::DeleteFailed] + later).len() == 0,
        run.after(seq![Event::DeleteFailed] + later).phase == Phase::Done(Outcome::DeleteFailed),
{
    let events = seq![Event::DeleteFailed] + later;
    assert(events.first() == Event::DeleteFailed);
    assert(events.drop_first() == later);
    lemma_ended_run_deletes_nothing(run.step(Event::DeleteFailed).0, later);
}

/// While deletions succeed the run goes through every record that is left.
proof fn lemma_remaining_are_deleted(run: RunView)
    requires
        run.wf(),
        run.phase is Deleting,
    ensures
        ({
            let events = Seq::new((run.targets.len() - run.asked() + 1) as nat, |i: int| Event::Deleted);
            &&& run.issued(events) == run.targets.subrange(
                run.asked() as int,
                run.targets.len() as int,
            )
            &&& run.after(events).phase == Phase::Done(Outcome::Completed)
        }),
    decreases run.targets.len() - run.asked(),
{
    let left = (run.targets.len() - run.asked() + 1) as nat;
    let events = Seq::new(left, |i: int| Event::Deleted);
    let next = run.step(Event::Deleted).0;
    assert(events.first() == Event::Deleted);
    if next.phase is Deleting {
        assert(events.drop_first() == Seq::new((left - 1) as nat, |i: int| Event::Deleted));
        lemma_remaining_are_deleted(next);
    } else {
        assert(events.drop_first() == Seq::<Event>::empty());
        assert(next.issued(events.drop_first()).len() == 0);
        assert(next.after(events.drop_first()) == next);
    }
    assert(run.issued(events) == run.targets.subrange(run.asked() as int, run.targets.len() as int));
}

/// Where the user agrees and every deletion succeeds, the run asks for each
/// selected record once, in selection order, and ends as completed.
pub proof fn lemma_unbroken_run_deletes_the_selection(targets: Seq<Seq<char>>)
    requires
        targets.len() <= usize::MAX,
    ensures
        ({
            let (run, first) = RunView::begun(Ok(targets), false);
            &&& run.issued(unbroken(targets.len())) == targets
            &&& run.after(unbroken(targets.len())).phase == Phase::Done(Outcome::Completed)
        }),
{
    let run = RunView::begun(Ok(targets), false).0;
    let events = unbroken(targets.len());
    let succeed = Seq::new(targets.len(), |i: int| Event::Deleted);
    assert(events.first() == Event::Confirmed);
    assert(events.drop_first() == succeed);
    let next = run.step(Event::Confirmed).0;
    if targets.len() > 0 {
        lemma_remaining_are_deleted(next);
    } else {
        assert(next.issued(succeed).len() == 0);
        assert(next.after(succeed) == next);
    }
    assert(run.issued(events) == targets);
}

} // verus!
