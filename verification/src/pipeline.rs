//! The pipeline over a whole feed: every entry is classified in feed order
//! and the identifiers to delete are collected, each once.

use crate::classify::{
    classification, classify, outcome_view, ClassificationError, DecisionView, RetentionDecision,
};
use crate::entry::{EntryView, FeedEntry};
use crate::time::Timestamp;
use vstd::prelude::*;

verus! {

/// What classifying one entry gives, by its view.
pub type EntryOutcome = Result<DecisionView, ClassificationError>;

/// What a selection gives, by its view: the identifiers to delete, or the
/// error that stopped it.
pub type Selection = Result<Seq<Seq<char>>, ClassificationError>;

/// The identifiers held by `targets`, each as a sequence of characters.
pub open spec fn identifiers(targets: Seq<String>) -> Seq<Seq<char>> {
    targets.map_values(|target: String| target@)
}

/// The entries of `feed`, each by its view.
pub open spec fn feed_view(feed: Seq<FeedEntry>) -> Seq<EntryView> {
    feed.map_values(|entry: FeedEntry| entry@)
}

/// The outcomes of classified entries, each by its view.
pub open spec fn outcome_views(outcomes: Seq<Result<RetentionDecision, ClassificationError>>) -> Seq<
    EntryOutcome,
> {
    outcomes.map_values(|outcome: Result<RetentionDecision, ClassificationError>| outcome_view(outcome))
}

/// A selection by its view.
pub open spec fn selection_view(selected: Result<Vec<String>, ClassificationError>) -> Selection {
    match selected {
        Ok(targets) => Ok(identifiers(targets@)),
        Err(error) => Err(error),
    }
}

/// The selection `so_far` after one more entry was classified as `outcome`.
///
/// A selection that failed stays failed, and an entry that fails makes the
/// selection fail. A kept entry adds nothing. An entry to delete adds its
/// identifier at the end, unless the selection holds it already.
pub open spec fn absorbed(so_far: Selection, outcome: EntryOutcome) -> Selection {
    match so_far {
        Err(error) => Err(error),
        Ok(targets) => match outcome {
            Err(error) => Err(error),
            Ok(DecisionView::Keep) => Ok(targets),
            Ok(DecisionView::Delete(uri)) => Ok(
                if targets.contains(uri) {
                    targets
                } else {
                    targets.push(uri)
                },
            ),
        },
    }
}

/// The selection made of the outcomes of a feed's entries, taken in feed
/// order.
pub open spec fn collected(outcomes: Seq<EntryOutcome>) -> Selection
    decreases outcomes.len(),
{
    if outcomes.len() == 0 {
        Ok(Seq::empty())
    } else {
        absorbed(collected(outcomes.drop_last()), outcomes.last())
    }
}

/// The outcome of each entry of `feed`, in feed order.
pub open spec fn outcomes_of(feed: Seq<EntryView>, user: Seq<char>, cutoff: Timestamp) -> Seq<
    EntryOutcome,
> {
    Seq::new(feed.len(), |i: int| classification(feed[i], user, cutoff))
}

/// The selection for `feed`, the acting user `user` and the cutoff `cutoff`.
pub open spec fn selection(feed: Seq<EntryView>, user: Seq<char>, cutoff: Timestamp) -> Selection {
    collected(outcomes_of(feed, user, cutoff))
}

/// Whether `outcomes[at]` is the first failure among `outcomes`.
pub open spec fn first_failure_at(outcomes: Seq<EntryOutcome>, at: int) -> bool {
    &&& 0 <= at < outcomes.len()
    &&& outcomes[at] is Err
    &&& forall|before: int| 0 <= before < at ==> (#[trigger] outcomes[before]) is Ok
}

/// Whether `targets` holds the identifier `uri`.
pub fn holds_target(targets: &Vec<String>, uri: &String) -> (held: bool)
    ensures
        held == identifiers(targets@).contains(uri@),
{
    let mut i: usize = 0;
    while i < targets.len()
        invariant
            i <= targets.len(),
            forall|k: int| 0 <= k < i ==> (#[trigger] identifiers(targets@)[k]) != uri@,
        decreases targets.len() - i,
    {
        if targets[i] == *uri {
            assert(identifiers(targets@)[i as int] == uri@);
            return true;
        }
        i += 1;
    }
    false
}

/// Takes one classified entry into the selection: fails where the entry
/// failed, and otherwise adds the identifier of an entry to delete unless
/// `targets` holds it already.
pub fn absorb(targets: &mut Vec<String>, outcome: &Result<RetentionDecision, ClassificationError>) -> (done:
    Result<(), ClassificationError>)
    ensures
        match absorbed(Ok(identifiers(old(targets)@)), outcome_view(*outcome)) {
            Ok(grown) => done is Ok && identifiers(final(targets)@) == grown,
            Err(error) => done == Err::<(), ClassificationError>(error) && final(targets)@ == old(
                targets,
            )@,
        },
{
    match outcome {
        Err(error) => Err(*error),
        Ok(RetentionDecision::Keep) => Ok(()),
        Ok(RetentionDecision::Delete(uri)) => {
            if !holds_target(targets, uri) {
                proof {
                    assert(identifiers(targets@.push(*uri)) == identifiers(targets@).push(uri@));
                }
                targets.push(uri.clone());
            }
            Ok(())
        },
    }
}

/// Makes the selection of entries that are classified already: the
/// identifiers of those to delete, in order and each once, or the first
/// failure among them.
pub fn collect_targets(outcomes: &Vec<Result<RetentionDecision, ClassificationError>>) -> (selected:
    Result<Vec<String>, ClassificationError>)
    ensures
        selection_view(selected) == collected(outcome_views(outcomes@)),
        selected matches Ok(targets) ==> identifiers(targets@).no_duplicates() && targets.len()
            <= outcomes.len(),
{
    let ghost views = outcome_views(outcomes@);
    let mut targets: Vec<String> = Vec::new();
    let mut i: usize = 0;
    assert(views.take(0) == Seq::<EntryOutcome>::empty());
    assert(identifiers(targets@) == Seq::<Seq<char>>::empty());
    while i < outcomes.len()
        invariant
            i <= outcomes.len(),
            views == outcome_views(outcomes@),
            collected(views.take(i as int)) == Ok::<Seq<Seq<char>>, ClassificationError>(
                identifiers(targets@),
            ),
        decreases outcomes.len() - i,
    {
        proof {
            let next = views.take(i + 1);
            assert(next.drop_last() == views.take(i as int));
            assert(next.last() == outcome_view(outcomes@[i as int]));
        }
        match absorb(&mut targets, &outcomes[i]) {
            Ok(_) => {},
            Err(error) => {
                proof {
                    lemma_failure_stays(views, i + 1);
                }
                return Err(error);
            },
        }
        i += 1;
    }
    proof {
        assert(views.take(i as int) == views);
        lemma_selection_has_no_duplicates(views);
        lemma_selection_is_no_longer_than_feed(views);
    }
    Ok(targets)
}

/// Selects what to delete from `feed`: the identifiers of the entries that
/// classify as deletions, in feed order and each once, or the error of the
/// first entry that fails to classify. Entries after a failure are not
/// looked at.
pub fn select_for_deletion(feed: &Vec<FeedEntry>, acting_user_id: &String, cutoff: Timestamp) -> (selected:
    Result<Vec<String>, ClassificationError>)
    ensures
        selection_view(selected) == selection(feed_view(feed@), acting_user_id@, cutoff),
        selected matches Ok(targets) ==> identifiers(targets@).no_duplicates() && targets.len()
            <= feed.len(),
{
    let ghost all = outcomes_of(feed_view(feed@), acting_user_id@, cutoff);
    let mut outcomes: Vec<Result<RetentionDecision, ClassificationError>> = Vec::new();
    let mut failed = false;
    let mut i: usize = 0;
    assert(outcome_views(outcomes@) == all.take(0));
    while i < feed.len() && !failed
        invariant
            i <= feed.len(),
            all == outcomes_of(feed_view(feed@), acting_user_id@, cutoff),
            outcome_views(outcomes@) == all.take(i as int),
            failed ==> i > 0 && all[i - 1] is Err,
        decreases feed.len() - i,
    {
        let outcome = classify(&feed[i], acting_user_id, cutoff);
        failed = outcome.is_err();
        proof {
            assert(all[i as int] == outcome_view(outcome));
            assert(all.take(i + 1) == all.take(i as int).push(all[i as int]));
            assert(outcome_views(outcomes@.push(outcome)) == outcome_views(outcomes@).push(
                outcome_view(outcome),
            ));
        }
        outcomes.push(outcome);
        i += 1;
    }
    proof {
        if failed {
            lemma_selection_fails_as_first_failure(all.take(i as int));
            lemma_failure_stays(all, i as int);
        } else {
            assert(all.take(i as int) == all);
        }
    }
    collect_targets(&outcomes)
}

/// Once the outcomes up to some entry have failed, the whole selection
/// fails with the same error.
pub proof fn lemma_failure_stays(outcomes: Seq<EntryOutcome>, upto: int)
    requires
        0 <= upto <= outcomes.len(),
        collected(outcomes.take(upto)) is Err,
    ensures
        collected(outcomes) == collected(outcomes.take(upto)),
    decreases outcomes.len() - upto,
{
    if upto == outcomes.len() {
        assert(outcomes.take(upto) == outcomes);
    } else {
        assert(outcomes.drop_last().take(upto) == outcomes.take(upto));
        lemma_failure_stays(outcomes.drop_last(), upto);
    }
}

/// No identifier is selected twice, even where several entries of the feed
/// lead to the same one.
pub proof fn lemma_selection_has_no_duplicates(outcomes: Seq<EntryOutcome>)
    ensures
        collected(outcomes) matches Ok(targets) ==> targets.no_duplicates(),
    decreases outcomes.len(),
{
    if outcomes.len() > 0 {
        lemma_selection_has_no_duplicates(outcomes.drop_last());
    }
}

/// An identifier is selected exactly if some entry of the feed classifies as
/// its deletion.
pub proof fn lemma_selected_iff_some_entry_deletes(outcomes: Seq<EntryOutcome>, uri: Seq<char>)
    requires
        collected(outcomes) is Ok,
    ensures
        collected(outcomes).unwrap().contains(uri) <==> exists|at: int|
            0 <= at < outcomes.len() && #[trigger] outcomes[at] == Ok::<
                DecisionView,
                ClassificationError,
            >(DecisionView::Delete(uri)),
    decreases outcomes.len(),
{
    let wanted = Ok::<DecisionView, ClassificationError>(DecisionView::Delete(uri));
    if outcomes.len() > 0 {
        let earlier = outcomes.drop_last();
        lemma_selected_iff_some_entry_deletes(earlier, uri);
        let before = collected(earlier).unwrap();
        let after = collected(outcomes).unwrap();
        if after.contains(uri) {
            if before.contains(uri) {
                let at = choose|at: int| 0 <= at < earlier.len() && #[trigger] earlier[at] == wanted;
                assert(outcomes[at] == wanted);
            } else {
                assert(after == before.push(outcomes.last().unwrap()->Delete_0));
                let k = choose|k: int| 0 <= k < after.len() && after[k] == uri;
                assert(k == before.len());
                assert(outcomes[outcomes.len() - 1] == wanted);
            }
        }
        if exists|at: int| 0 <= at < outcomes.len() && #[trigger] outcomes[at] == wanted {
            let at = choose|at: int| 0 <= at < outcomes.len() && #[trigger] outcomes[at] == wanted;
            if at < earlier.len() {
                assert(earlier[at] == wanted);
                assert(before.contains(uri));
                let k = choose|k: int| 0 <= k < before.len() && before[k] == uri;
                assert(after[k] == uri);
            } else {
                if !before.contains(uri) {
                    assert(after == before.push(uri));
                    assert(after[before.len() as int] == uri);
                }
            }
        }
    }
}

/// Feed order is kept: what is selected from the first `upto` entries is
/// the beginning of what is selected from the whole feed, so identifiers
/// stand in the order in which the feed first leads to them.
pub proof fn lemma_selection_grows_in_feed_order(outcomes: Seq<EntryOutcome>, upto: int)
    requires
        0 <= upto <= outcomes.len(),
        collected(outcomes) is Ok,
    ensures
        collected(outcomes.take(upto)) is Ok,
        collected(outcomes.take(upto)).unwrap().is_prefix_of(collected(outcomes).unwrap()),
    decreases outcomes.len() - upto,
{
    if upto == outcomes.len() {
        assert(outcomes.take(upto) == outcomes);
    } else {
        assert(outcomes.drop_last().take(upto) == outcomes.take(upto));
        lemma_selection_grows_in_feed_order(outcomes.drop_last(), upto);
    }
}

/// A selection fails with an error exactly if that is the error of the
/// first entry that fails to classify, so it succeeds exactly if every
/// entry classifies.
pub proof fn lemma_selection_fails_as_first_failure(outcomes: Seq<EntryOutcome>)
    ensures
        forall|error: ClassificationError|
            collected(outcomes) == Err::<Seq<Seq<char>>, ClassificationError>(error) <==> exists|
                at: int,
            |
                first_failure_at(outcomes, at) && #[trigger] outcomes[at] == Err::<
                    DecisionView,
                    ClassificationError,
                >(error),
        collected(outcomes) is Ok <==> forall|at: int|
            0 <= at < outcomes.len() ==> (#[trigger] outcomes[at]) is Ok,
    decreases outcomes.len(),
{
    if outcomes.len() > 0 {
        let earlier = outcomes.drop_last();
        lemma_selection_fails_as_first_failure(earlier);
        assert forall|error: ClassificationError|
            collected(outcomes) == Err::<Seq<Seq<char>>, ClassificationError>(error) <==> exists|
                at: int,
            |
                first_failure_at(outcomes, at) && #[trigger] outcomes[at] == Err::<
                    DecisionView,
                    ClassificationError,
                >(error) by {
            let failed = Err::<DecisionView, ClassificationError>(error);
            if collected(outcomes) == Err::<Seq<Seq<char>>, ClassificationError>(error) {
                if collected(earlier) is Err {
                    let at = choose|at: int|
                        first_failure_at(earlier, at) && #[trigger] earlier[at] == failed;
                    assert forall|before: int| 0 <= before < at implies (
                    #[trigger] outcomes[before]) is Ok by {
                        assert(earlier[before] is Ok);
                    }
                    assert(first_failure_at(outcomes, at) && outcomes[at] == failed);
                } else {
                    let at = outcomes.len() - 1;
                    assert forall|before: int| 0 <= before < at implies (
                    #[trigger] outcomes[before]) is Ok by {
                        assert(earlier[before] is Ok);
                    }
                    assert(first_failure_at(outcomes, at) && outcomes[at] == failed);
                }
            }
            if exists|at: int| first_failure_at(outcomes, at) && #[trigger] outcomes[at] == failed {
                let at = choose|at: int|
                    first_failure_at(outcomes, at) && #[trigger] outcomes[at] == failed;
                if at < earlier.len() {
                    assert forall|before: int| 0 <= before < at implies (
                    #[trigger] earlier[before]) is Ok by {
                        assert(outcomes[before] is Ok);
                    }
                    assert(first_failure_at(earlier, at) && earlier[at] == failed);
                } else {
                    assert forall|before: int| 0 <= before < earlier.len() implies (
                    #[trigger] earlier[before]) is Ok by {
                        assert(outcomes[before] is Ok);
                    }
                }
            }
        }
        if collected(outcomes) is Ok {
            assert forall|at: int| 0 <= at < outcomes.len() implies (#[trigger] outcomes[at]) is Ok by {
                if at < earlier.len() {
                    assert(earlier[at] is Ok);
                }
            }
        }
        if forall|at: int| 0 <= at < outcomes.len() ==> (#[trigger] outcomes[at]) is Ok {
            assert forall|at: int| 0 <= at < earlier.len() implies (#[trigger] earlier[at]) is Ok by {
                assert(outcomes[at] is Ok);
            }
            assert(outcomes[outcomes.len() - 1] is Ok);
        }
    }
}

/// A feed with an entry that fails to classify selects nothing, whatever
/// the entries before it would have selected.
pub proof fn lemma_any_failure_fails_selection(outcomes: Seq<EntryOutcome>, at: int)
    requires
        0 <= at < outcomes.len(),
        outcomes[at] is Err,
    ensures
        collected(outcomes) is Err,
{
    lemma_selection_fails_as_first_failure(outcomes);
}

/// Selecting never yields more identifiers than the feed has entries.
pub proof fn lemma_selection_is_no_longer_than_feed(outcomes: Seq<EntryOutcome>)
    ensures
        collected(outcomes) matches Ok(targets) ==> targets.len() <= outcomes.len(),
    decreases outcomes.len(),
{
    if outcomes.len() > 0 {
        lemma_selection_is_no_longer_than_feed(outcomes.drop_last());
    }
}

} // verus!
