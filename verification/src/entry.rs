//! Feed entries as the retention rules read them, and the decoding of a
//! post's record.

use crate::time::Timestamp;
use atrium_api::types::Unknown;
use vstd::prelude::*;

verus! {

/// The record payload of a post, as the feed hands it over: structured data
/// that has not been interpreted yet.
#[verifier::external_type_specification]
#[verifier::external_body]
pub struct ExUnknown(atrium_api::types::Unknown);

/// Who authored a post.
#[derive(Clone, Debug)]
pub struct Author {
    /// The author's identity.
    pub id: String,
}

/// What the feed says of the acting user's own relation to a post.
#[derive(Clone, Debug)]
pub struct ViewerState {
    /// The acting user's repost of the post, where the entry is such a
    /// repost.
    pub repost_uri: Option<String>,
}

/// A post as it appears in a feed.
#[derive(Debug)]
pub struct PostView {
    /// The identifier of the post's own record.
    pub uri: String,
    pub author: Author,
    /// The post's record, not yet decoded.
    pub record: Unknown,
    pub viewer: ViewerState,
}

/// One item of a user's feed.
#[derive(Debug)]
pub struct FeedEntry {
    pub post: PostView,
}

/// A decoded post record.
#[derive(Clone, Copy, Debug, PartialEq, Eq, Structural)]
pub struct PostRecord {
    /// When the post was written.
    pub created_at: Timestamp,
}

/// A feed entry as the rules see it.
pub struct EntryView {
    pub uri: Seq<char>,
    pub author_id: Seq<char>,
    pub record: Unknown,
    pub repost_uri: Option<Seq<char>>,
}

impl View for FeedEntry {
    type V = EntryView;

    open spec fn view(&self) -> EntryView {
        EntryView {
            uri: self.post.uri@,
            author_id: self.post.author.id@,
            record: self.post.record,
            repost_uri: match self.post.viewer.repost_uri {
                Some(uri) => Some(uri@),
                None => None,
            },
        }
    }
}

impl FeedEntry {
    /// The entry for the post `uri` by `author_id` with payload `record`,
    /// which the acting user reposted as `repost_uri` if that is given.
    pub fn new(uri: String, author_id: String, record: Unknown, repost_uri: Option<String>) -> (entry:
        FeedEntry)
        ensures
            entry.post.uri == uri,
            entry.post.author.id == author_id,
            entry.post.record == record,
            entry.post.viewer.repost_uri == repost_uri,
    {
        FeedEntry {
            post: PostView {
                uri,
                author: Author { id: author_id },
                record,
                viewer: ViewerState { repost_uri },
            },
        }
    }
}

/// What decoding the payload `record` as a post gives: the post record, or
/// `None` where the payload is not a post.
pub uninterp spec fn decoded_post(record: Unknown) -> Option<PostRecord>;

/// Decodes a payload as atrium's `app.bsky.feed.post` record (`RecordData`):
/// serialises it with `serde_json::to_vec` and reads the bytes back with
/// `serde_json::from_slice`. These are the two steps that atrium's
/// `TryFromUnknown::try_from_unknown` takes, with a failure of either kept
/// as `None` where atrium unwraps it. Of the record decoded, `created_at`
/// is handed on as what `timestamp` and `timestamp_subsec_nanos` give for its
/// `chrono::DateTime`.
///
/// Nothing of this is proved. The contract claims only that the answer
/// depends on the payload alone, and gives it the name `decoded_post`.
#[verifier::external_body]
pub(crate) fn decode_post(record: &Unknown) -> (decoded: Option<PostRecord>)
    ensures
        decoded == decoded_post(*record),
{
    let json = serde_json::to_vec(record).ok()?;
    let data: atrium_api::app::bsky::feed::post::RecordData = serde_json::from_slice(&json).ok()?;
    let at: &chrono::DateTime<chrono::FixedOffset> = data.created_at.as_ref();
    Some(PostRecord {
        created_at: Timestamp { secs: at.timestamp(), nanos: at.timestamp_subsec_nanos() },
    })
}

} // verus!
