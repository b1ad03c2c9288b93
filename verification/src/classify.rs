//! The decision on one feed entry: keep it, or delete a record, and which.

use crate::entry::{decode_post, decoded_post, EntryView, FeedEntry, PostRecord};
use crate::time::Timestamp;
use vstd::prelude::*;

verus! {

/// What is to be done about one feed entry.
#[derive(Clone, Debug, PartialEq, Eq)]
pub enum RetentionDecision {
    /// The post is newer than the cutoff and stays.
    Keep,
    /// The record with this identifier is to be deleted: the post itself
    /// where the acting user wrote it, the user's repost where someone else
    /// did.
    Delete(String),
}

/// Why an entry could not be classified.
#[derive(Clone, Copy, Debug, PartialEq, Eq, Structural)]
pub enum ClassificationError {
    /// The entry's payload is not a post record.
    MalformedRecord,
    /// The post is someone else's and old enough to delete, but the entry
    /// names no repost of it by the acting user.
    UnresolvableRepost,
}

/// A decision with its identifier as a sequence of characters.
pub enum DecisionView {
    Keep,
    Delete(Seq<char>),
}

impl View for RetentionDecision {
    type V = DecisionView;

    open spec fn view(&self) -> DecisionView {
        match self {
            RetentionDecision::Keep => DecisionView::Keep,
            RetentionDecision::Delete(uri) => DecisionView::Delete(uri@),
        }
    }
}

/// The outcome of a classification with the decision taken by its view.
pub open spec fn outcome_view(outcome: Result<RetentionDecision, ClassificationError>) -> Result<
    DecisionView,
    ClassificationError,
> {
    match outcome {
        Ok(decision) => Ok(decision@),
        Err(error) => Err(error),
    }
}

/// The decision on `entry` once its payload has been decoded to `decoded`,
/// for the acting user `user` and the cutoff `cutoff`.
///
/// A payload that is no post is an error. A post created after the cutoff
/// is kept; one created at the cutoff or before it is deleted. What is
/// deleted is the post itself if the user is its author, else the user's
/// repost of it, and it is an error if the entry names none.
pub open spec fn classified(
    entry: EntryView,
    decoded: Option<PostRecord>,
    user: Seq<char>,
    cutoff: Timestamp,
) -> Result<DecisionView, ClassificationError> {
    match decoded {
        None => Err(ClassificationError::MalformedRecord),
        Some(record) => if record.created_at.after(cutoff) {
            Ok(DecisionView::Keep)
        } else if entry.author_id == user {
            Ok(DecisionView::Delete(entry.uri))
        } else {
            match entry.repost_uri {
                Some(uri) => Ok(DecisionView::Delete(uri)),
                None => Err(ClassificationError::UnresolvableRepost),
            }
        },
    }
}

/// The decision on `entry`, whose payload is still to be decoded.
pub open spec fn classification(entry: EntryView, user: Seq<char>, cutoff: Timestamp) -> Result<
    DecisionView,
    ClassificationError,
> {
    classified(entry, decoded_post(entry.record), user, cutoff)
}

/// Decides on `entry` given what its payload decoded to.
pub fn classify_decoded(
    entry: &FeedEntry,
    decoded: Option<PostRecord>,
    acting_user_id: &String,
    cutoff: Timestamp,
) -> (outcome: Result<RetentionDecision, ClassificationError>)
    ensures
        outcome_view(outcome) == classified(entry@, decoded, acting_user_id@, cutoff),
{
    match decoded {
        None => Err(ClassificationError::MalformedRecord),
        Some(record) => {
            if record.created_at.is_after(&cutoff) {
                Ok(RetentionDecision::Keep)
            } else if entry.post.author.id == *acting_user_id {
                Ok(RetentionDecision::Delete(entry.post.uri.clone()))
            } else {
                match &entry.post.viewer.repost_uri {
                    Some(uri) => Ok(RetentionDecision::Delete(uri.clone())),
                    None => Err(ClassificationError::UnresolvableRepost),
                }
            }
        },
    }
}

/// Decodes the payload of `entry` and decides on it.
pub fn classify(entry: &FeedEntry, acting_user_id: &String, cutoff: Timestamp) -> (outcome: Result<
    RetentionDecision,
    ClassificationError,
>)
    ensures
        outcome_view(outcome) == classification(entry@, acting_user_id@, cutoff),
{
    let decoded = decode_post(&entry.post.record);
    classify_decoded(entry, decoded, acting_user_id, cutoff)
}

/// An entry whose post was created strictly after the cutoff is kept,
/// whoever wrote it and whatever else the entry holds.
pub proof fn lemma_recent_is_kept(
    entry: EntryView,
    record: PostRecord,
    user: Seq<char>,
    cutoff: Timestamp,
)
    requires
        record.created_at.after(cutoff),
    ensures
        classified(entry, Some(record), user, cutoff) == Ok::<DecisionView, ClassificationError>(
            DecisionView::Keep,
        ),
{
}

/// An entry whose post the acting user wrote at the cutoff or before it
/// deletes the post itself.
pub proof fn lemma_own_old_post_is_deleted(
    entry: EntryView,
    record: PostRecord,
    user: Seq<char>,
    cutoff: Timestamp,
)
    requires
        !record.created_at.after(cutoff),
        entry.author_id == user,
    ensures
        classified(entry, Some(record), user, cutoff) == Ok::<DecisionView, ClassificationError>(
            DecisionView::Delete(entry.uri),
        ),
{
}

/// An entry whose post someone else wrote at the cutoff or before it, and
/// which names the acting user's repost, deletes that repost.
pub proof fn lemma_old_repost_is_deleted(
    entry: EntryView,
    record: PostRecord,
    user: Seq<char>,
    cutoff: Timestamp,
    repost_uri: Seq<char>,
)
    requires
        !record.created_at.after(cutoff),
        entry.author_id != user,
        entry.repost_uri == Some(repost_uri),
    ensures
        classified(entry, Some(record), user, cutoff) == Ok::<DecisionView, ClassificationError>(
            DecisionView::Delete(repost_uri),
        ),
{
}

/// An entry whose post someone else wrote at the cutoff or before it, and
/// which names no repost, cannot be resolved.
pub proof fn lemma_foreign_post_without_repost_fails(
    entry: EntryView,
    record: PostRecord,
    user: Seq<char>,
    cutoff: Timestamp,
)
    requires
        !record.created_at.after(cutoff),
        entry.author_id != user,
        entry.repost_uri is None,
    ensures
        classified(entry, Some(record), user, cutoff) == Err::<DecisionView, ClassificationError>(
            ClassificationError::UnresolvableRepost,
        ),
{
}

/// An entry whose payload is no post is malformed, whatever else it holds.
pub proof fn lemma_undecodable_is_malformed(entry: EntryView, user: Seq<char>, cutoff: Timestamp)
    ensures
        classified(entry, None, user, cutoff) == Err::<DecisionView, ClassificationError>(
            ClassificationError::MalformedRecord,
        ),
{
}

} // verus!
