//! Keeping the cached index fresh: a cache hit costs no network call, a
//! conditional fetch may answer "not modified", and a failed fetch falls back
//! to a usable cache.
//!
//! The caller performs the reads, the fetch and the writes; the decisions are
//! made here, from what the store holds and what the fetch returned.
use vstd::prelude::*;

use crate::index::{decoded_index, opt_view, Index, IndexModel};

verus! {

/// What a conditional fetch of the index returned.
pub enum FetchOutcome {
    /// The server says the index is unchanged since the token that was sent.
    NotModified,
    /// A new payload, with the freshness token that came with it, if any.
    Fetched { body: String, token: Option<String> },
    /// A transport error, or a status other than success or "not modified".
    Failed,
}

/// What a `FetchOutcome` holds, as character sequences.
pub enum FetchModel {
    NotModified,
    Fetched(Seq<char>, Option<Seq<char>>),
    Failed,
}

/// The characters of an optional string slice.
pub open spec fn opt_str(o: Option<&str>) -> Option<Seq<char>> {
    match o {
        Some(s) => Some(s@),
        None => None,
    }
}

impl View for FetchOutcome {
    type V = FetchModel;

    open spec fn view(&self) -> FetchModel {
        match self {
            FetchOutcome::NotModified => FetchModel::NotModified,
            FetchOutcome::Fetched { body, token } => FetchModel::Fetched(body@, opt_view(*token)),
            FetchOutcome::Failed => FetchModel::Failed,
        }
    }
}

/// What the store is to hold after a fetch: the index text as fetched and its
/// freshness token, replaced together (no token removes the stored one).
pub struct IndexWrite {
    pub text: String,
    pub token: Option<String>,
}

/// The result of a synchronization.
pub struct Synced {
    pub index: Index,
    /// What to write back to the store, if anything.
    pub write: Option<IndexWrite>,
    /// The fetch failed and the cached index is served instead.
    pub stale: bool,
}

/// What a `Synced` holds.
pub struct SyncModel {
    pub index: IndexModel,
    pub write: Option<(Seq<char>, Option<Seq<char>>)>,
    pub stale: bool,
}

impl View for Synced {
    type V = SyncModel;

    open spec fn view(&self) -> SyncModel {
        SyncModel {
            index: self.index@,
            write: match self.write {
                Some(w) => Some((w.text@, opt_view(w.token))),
                None => None,
            },
            stale: self.stale,
        }
    }
}

/// Why synchronization failed.
#[derive(Debug, Clone, Copy, PartialEq, Eq, Structural)]
pub enum SyncError {
    /// The fetch gave nothing usable and there is no usable cache.
    SyncUnavailable,
}

/// The index that the cached text decodes to, if there is a text and it decodes.
pub open spec fn usable_cache(cached: Option<Seq<char>>) -> Option<IndexModel> {
    match cached {
        Some(t) => decoded_index(t),
        None => None,
    }
}

/// The index served from the cache without any network call, if any.
pub open spec fn ready_index(force_refresh: bool, cached: Option<Seq<char>>) -> Option<IndexModel> {
    if force_refresh {
        None
    } else {
        usable_cache(cached)
    }
}

/// The cached index served in place of a failed fetch.
pub open spec fn fallback(cached: Option<Seq<char>>) -> Option<SyncModel> {
    match usable_cache(cached) {
        Some(m) => Some(SyncModel { index: m, write: None, stale: true }),
        None => None,
    }
}

/// The outcome of a synchronization that fetched; `None` is `SyncUnavailable`.
pub open spec fn after_fetch(cached: Option<Seq<char>>, outcome: FetchModel) -> Option<SyncModel> {
    match outcome {
        FetchModel::NotModified => match usable_cache(cached) {
            Some(m) => Some(SyncModel { index: m, write: None, stale: false }),
            None => None,
        },
        FetchModel::Fetched(body, token) => match decoded_index(body) {
            Some(m) => Some(SyncModel { index: m, write: Some((body, token)), stale: false }),
            None => fallback(cached),
        },
        FetchModel::Failed => fallback(cached),
    }
}

/// The outcome of a whole synchronization, where `outcome` is what a fetch would return.
pub open spec fn synchronized(force_refresh: bool, cached: Option<Seq<char>>, outcome: FetchModel) -> Option<SyncModel> {
    match ready_index(force_refresh, cached) {
        Some(m) => Some(SyncModel { index: m, write: None, stale: false }),
        None => after_fetch(cached, outcome),
    }
}

/// Whether a synchronization calls the network.
pub open spec fn fetches(force_refresh: bool, cached: Option<Seq<char>>) -> bool {
    ready_index(force_refresh, cached) is None
}

/// The cached index text once the result of a synchronization is written back.
pub open spec fn stored_after(cached: Option<Seq<char>>, s: SyncModel) -> Option<Seq<char>> {
    match s.write {
        Some(w) => Some(w.0),
        None => cached,
    }
}

/// The first step of a synchronization.
pub enum SyncStep {
    /// The cached index, served without a network call.
    Ready(Index),
    /// A fetch is needed, sending this freshness token if there is one.
    Fetch(Option<String>),
}

/// Decides whether the cached index text `cached` can be served as it is, or a
/// conditional fetch is needed; `token` is the stored freshness token, which is
/// sent only while the index text it belongs to exists.
pub fn begin_sync(force_refresh: bool, cached: Option<&str>, token: Option<String>) -> (r: SyncStep)
    ensures
        match r {
            SyncStep::Ready(idx) => ready_index(force_refresh, opt_str(cached)) == Some(idx@),
            SyncStep::Fetch(t) => fetches(force_refresh, opt_str(cached))
                && opt_view(t) == (if cached is Some {
                    opt_view(token)
                } else {
                    None
                }),
        },
{
    match cached {
        Some(text) => match Index::decode(text) {
            Ok(index) => if force_refresh {
                SyncStep::Fetch(token)
            } else {
                SyncStep::Ready(index)
            },
            Err(_) => SyncStep::Fetch(token),
        },
        None => SyncStep::Fetch(None),
    }
}

/// The cached index, served because the fetch gave nothing usable.
fn fall_back(cached: Option<&str>) -> (r: Result<Synced, SyncError>)
    ensures
        match r {
            Ok(s) => fallback(opt_str(cached)) == Some(s@),
            Err(_) => fallback(opt_str(cached)) is None,
        },
{
    match cached {
        Some(text) => match Index::decode(text) {
            Ok(index) => Ok(Synced { index, write: None, stale: true }),
            Err(_) => Err(SyncError::SyncUnavailable),
        },
        None => Err(SyncError::SyncUnavailable),
    }
}

/// Completes a synchronization from what the fetch returned: "not modified"
/// serves the cached text again, a payload that decodes replaces the cache, and
/// anything else falls back to the cache.
pub fn finish_sync(cached: Option<&str>, outcome: FetchOutcome) -> (r: Result<Synced, SyncError>)
    ensures
        match r {
            Ok(s) => after_fetch(opt_str(cached), outcome@) == Some(s@),
            Err(_) => after_fetch(opt_str(cached), outcome@) is None,
        },
{
    match outcome {
        FetchOutcome::NotModified => match cached {
            Some(text) => match Index::decode(text) {
                Ok(index) => Ok(Synced { index, write: None, stale: false }),
                Err(_) => Err(SyncError::SyncUnavailable),
            },
            None => Err(SyncError::SyncUnavailable),
        },
        FetchOutcome::Fetched { body, token } => match Index::decode(body.as_str()) {
            Ok(index) => Ok(Synced { index, write: Some(IndexWrite { text: body, token }), stale: false }),
            Err(_) => fall_back(cached),
        },
        FetchOutcome::Failed => fall_back(cached),
    }
}

/// Synchronizing twice without a forced refresh: once the first result is
/// written back, the second makes no network call and serves the same index.
pub proof fn lemma_sync_twice(cached: Option<Seq<char>>, first: FetchModel, second: FetchModel)
    requires
        synchronized(false, cached, first) is Some,
    ensures
        ({
            let s = synchronized(false, cached, first)->0;
            &&& !fetches(false, stored_after(cached, s))
            &&& synchronized(false, stored_after(cached, s), second) == Some(
                SyncModel { index: s.index, write: None, stale: false },
            )
        }),
{
}

/// An index written to the store decodes, when read back, to the index that was fetched.
pub proof fn lemma_written_index_reads_back(cached: Option<Seq<char>>, outcome: FetchModel)
    requires
        after_fetch(cached, outcome) is Some,
        after_fetch(cached, outcome)->0.write is Some,
    ensures
        ({
            let s = after_fetch(cached, outcome)->0;
            let (text, token) = s.write->0;
            decoded_index(text) == Some(s.index)
        }),
{
}

/// A forced refresh whose fetch fails serves the cached index as it was, and
/// leaves the store unchanged.
pub proof fn lemma_failed_refresh_keeps_cache(cached: Option<Seq<char>>)
    requires
        usable_cache(cached) is Some,
    ensures
        fetches(true, cached),
        synchronized(true, cached, FetchModel::Failed) == Some(
            SyncModel { index: usable_cache(cached)->0, write: None, stale: true },
        ),
        stored_after(cached, synchronized(true, cached, FetchModel::Failed)->0) == cached,
{
}

/// With no cache, a failed fetch makes synchronization fail, and nothing is written.
pub proof fn lemma_no_cache_no_index(force_refresh: bool)
    ensures
        fetches(force_refresh, None),
        synchronized(force_refresh, None, FetchModel::Failed) is None,
{
}

} // verus!
