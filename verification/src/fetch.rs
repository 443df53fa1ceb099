//! The decisions taken for each part during a fetch: which responses are
//! downloaded, which cached responses are read, and when a part is left, as a
//! step function from the stage a part has reached and what the program found
//! to the next stage and the next thing to do. The program performs the
//! actions (the network, the cache files, the database) and reports back.

use vstd::prelude::*;
use crate::parts::needs_download;

verus! {

/// The options of a fetch run that the decisions depend on.
#[derive(Debug, Clone, Copy, PartialEq, Eq, Structural)]
pub struct FetchOptions {
    /// Whether the JLCPCB data is fetched too.
    pub jlc_data: bool,
    /// Whether cached JLCPCB responses are fetched again.
    pub refresh_cache_jlc: bool,
    /// Whether cached product pages are fetched again.
    pub refresh_cache_lcsc: bool,
    /// Whether the run only fills the cache, reading nothing into the database.
    pub download_to_cache_only: bool,
}

/// Where the handling of one part stands.
#[derive(Debug, Clone, Copy, PartialEq, Eq, Structural)]
pub enum PartStage {
    /// Nothing done yet.
    Start,
    /// Waiting to hear about the cached JLCPCB response.
    JlcCache,
    /// Waiting for the JLCPCB download.
    JlcDownload,
    /// Waiting for the cached JLCPCB response to be read.
    JlcRead,
    /// Waiting to hear about the cached product page.
    LcscCache,
    /// Waiting for the product page download.
    LcscDownload,
    /// Waiting for the product page to be read and the part stored.
    LcscRead,
    /// The part is done.
    Done,
}

/// What the program reports after an action.
#[derive(Debug, Clone, Copy, PartialEq, Eq, Structural)]
pub enum FetchEvent {
    /// The handling of a part begins.
    Begin,
    /// The cache file asked about: whether it is there, and its length.
    Cache { present: bool, len: u64 },
    /// A download ended: `ok` when it succeeded and was written to the
    /// cache; `present` tells whether the cache file is there afterwards.
    Downloaded { ok: bool, present: bool },
    /// The cached response was read and used.
    Read,
}

/// What the program does next.
#[derive(Debug, Clone, Copy, PartialEq, Eq, Structural)]
pub enum FetchAction {
    /// Look at the cached JLCPCB response and report it (`Cache`).
    InspectJlcCache,
    /// Download the JLCPCB response into the cache (`Downloaded`).
    DownloadJlc,
    /// Read the cached JLCPCB response (`Read`).
    ReadJlc,
    /// Look at the cached product page and report it (`Cache`).
    InspectLcscCache,
    /// Download the product page into the cache (`Downloaded`).
    DownloadLcsc,
    /// Read the cached product page and store the part (`Read`).
    StorePart,
    /// Go on to the next part.
    NextPart,
}

/// What a step adds to the run's counts.
#[derive(Debug, Clone, Copy, PartialEq, Eq, Structural)]
pub enum Tally {
    Nothing,
    /// A response was downloaded.
    Downloaded,
    /// A cached response was used instead of a download.
    Cached,
}

/// Whether a response has to be downloaded (see `needs_download`).
pub open spec fn must_download(refresh: bool, present: bool, len: u64) -> bool {
    refresh || !present || len == 0
}

/// After the JLCPCB response: it is read when the run reads responses and
/// the cache file is there; the product page comes next either way.
pub open spec fn after_jlc(o: FetchOptions, present: bool, tally: Tally) -> (
    PartStage,
    FetchAction,
    Tally,
) {
    if !o.download_to_cache_only && present {
        (PartStage::JlcRead, FetchAction::ReadJlc, tally)
    } else {
        (PartStage::LcscCache, FetchAction::InspectLcscCache, tally)
    }
}

/// After the product page is in the cache: it is read and the part stored,
/// unless the run only fills the cache.
pub open spec fn after_lcsc(o: FetchOptions, tally: Tally) -> (PartStage, FetchAction, Tally) {
    if o.download_to_cache_only {
        (PartStage::Done, FetchAction::NextPart, tally)
    } else {
        (PartStage::LcscRead, FetchAction::StorePart, tally)
    }
}

/// The step from `stage` on `event`: the next stage, the next action and
/// what to count. A part starts with its JLCPCB response when that data is
/// fetched, else with its product page; a response is downloaded when
/// `must_download`, else the cached one counts as used; a product page that
/// cannot be downloaded ends the part. An event that does not fit the stage
/// ends the part.
pub open spec fn fetch_transition(o: FetchOptions, stage: PartStage, event: FetchEvent) -> (
    PartStage,
    FetchAction,
    Tally,
) {
    match (stage, event) {
        (PartStage::Start, FetchEvent::Begin) => if o.jlc_data {
            (PartStage::JlcCache, FetchAction::InspectJlcCache, Tally::Nothing)
        } else {
            (PartStage::LcscCache, FetchAction::InspectLcscCache, Tally::Nothing)
        },
        (PartStage::JlcCache, FetchEvent::Cache { present, len }) => if must_download(
            o.refresh_cache_jlc,
            present,
            len,
        ) {
            (PartStage::JlcDownload, FetchAction::DownloadJlc, Tally::Nothing)
        } else {
            after_jlc(o, present, Tally::Cached)
        },
        (PartStage::JlcDownload, FetchEvent::Downloaded { ok, present }) => after_jlc(
            o,
            present,
            if ok {
                Tally::Downloaded
            } else {
                Tally::Nothing
            },
        ),
        (PartStage::JlcRead, FetchEvent::Read) => (
            PartStage::LcscCache,
            FetchAction::InspectLcscCache,
            Tally::Nothing,
        ),
        (PartStage::LcscCache, FetchEvent::Cache { present, len }) => if must_download(
            o.refresh_cache_lcsc,
            present,
            len,
        ) {
            (PartStage::LcscDownload, FetchAction::DownloadLcsc, Tally::Nothing)
        } else {
            after_lcsc(o, Tally::Cached)
        },
        (PartStage::LcscDownload, FetchEvent::Downloaded { ok, present: _ }) => if ok {
            after_lcsc(o, Tally::Downloaded)
        } else {
            (PartStage::Done, FetchAction::NextPart, Tally::Nothing)
        },
        _ => (PartStage::Done, FetchAction::NextPart, Tally::Nothing),
    }
}

fn jlc_next(o: FetchOptions, present: bool, tally: Tally) -> (r: (PartStage, FetchAction, Tally))
    ensures
        r == after_jlc(o, present, tally),
{
    if !o.download_to_cache_only && present {
        (PartStage::JlcRead, FetchAction::ReadJlc, tally)
    } else {
        (PartStage::LcscCache, FetchAction::InspectLcscCache, tally)
    }
}

fn lcsc_next(o: FetchOptions, tally: Tally) -> (r: (PartStage, FetchAction, Tally))
    ensures
        r == after_lcsc(o, tally),
{
    if o.download_to_cache_only {
        (PartStage::Done, FetchAction::NextPart, tally)
    } else {
        (PartStage::LcscRead, FetchAction::StorePart, tally)
    }
}

/// One step of the handling of a part (see `fetch_transition`).
pub fn fetch_step(o: FetchOptions, stage: PartStage, event: FetchEvent) -> (r: (
    PartStage,
    FetchAction,
    Tally,
))
    ensures
        r == fetch_transition(o, stage, event),
{
    match (stage, event) {
        (PartStage::Start, FetchEvent::Begin) => if o.jlc_data {
            (PartStage::JlcCache, FetchAction::InspectJlcCache, Tally::Nothing)
        } else {
            (PartStage::LcscCache, FetchAction::InspectLcscCache, Tally::Nothing)
        },
        (PartStage::JlcCache, FetchEvent::Cache { present, len }) => if needs_download(
            o.refresh_cache_jlc,
            present,
            len,
        ) {
            (PartStage::JlcDownload, FetchAction::DownloadJlc, Tally::Nothing)
        } else {
            jlc_next(o, present, Tally::Cached)
        },
        (PartStage::JlcDownload, FetchEvent::Downloaded { ok, present }) => {
            let tally = if ok {
                Tally::Downloaded
            } else {
                Tally::Nothing
            };
            jlc_next(o, present, tally)
        },
        (PartStage::JlcRead, FetchEvent::Read) => (
            PartStage::LcscCache,
            FetchAction::InspectLcscCache,
            Tally::Nothing,
        ),
        (PartStage::LcscCache, FetchEvent::Cache { present, len }) => if needs_download(
            o.refresh_cache_lcsc,
            present,
            len,
        ) {
            (PartStage::LcscDownload, FetchAction::DownloadLcsc, Tally::Nothing)
        } else {
            lcsc_next(o, Tally::Cached)
        },
        (PartStage::LcscDownload, FetchEvent::Downloaded { ok, present: _ }) => if ok {
            lcsc_next(o, Tally::Downloaded)
        } else {
            (PartStage::Done, FetchAction::NextPart, Tally::Nothing)
        },
        _ => (PartStage::Done, FetchAction::NextPart, Tally::Nothing),
    }
}

/// What the steps promise, whatever the stage and the event: a run that
/// only fills the cache never reads a response or stores a part; a cached
/// JLCPCB response is read only when its file is there; a product page that
/// could not be downloaded ends its part without storing it; and a part is
/// stored only from a product page that is in the cache.
pub proof fn lemma_fetch_decisions(o: FetchOptions, stage: PartStage, event: FetchEvent)
    ensures
        o.download_to_cache_only ==> fetch_transition(o, stage, event).1 != FetchAction::ReadJlc
            && fetch_transition(o, stage, event).1 != FetchAction::StorePart,
        fetch_transition(o, stage, event).1 == FetchAction::ReadJlc ==> ((event matches FetchEvent::Cache {
            present: true,
            ..
        }) || (event matches FetchEvent::Downloaded { present: true, .. })),
        (stage == PartStage::LcscDownload && (event matches FetchEvent::Downloaded {
            ok: false,
            ..
        })) ==> fetch_transition(o, stage, event).1 == FetchAction::NextPart,
        fetch_transition(o, stage, event).1 == FetchAction::StorePart ==> ((event matches FetchEvent::Cache {
            present: true,
            ..
        }) || (event matches FetchEvent::Downloaded { ok: true, .. })),
{
}

/// Each step, stated by the options and the event alone. A part begins
/// with its JLCPCB response exactly when that data is fetched. A response is
/// downloaded exactly when asked to refresh, or when its cache file is
/// missing or empty; otherwise the cached one counts as used. A JLCPCB
/// response whose file is there afterwards, cached or just downloaded, is
/// read unless the run only fills the cache, and the product page comes
/// next otherwise. A product page in the cache (cached or downloaded) is
/// read and the part stored unless the run only fills the cache; a product
/// page that could not be downloaded ends the part.
pub proof fn lemma_fetch_steps(o: FetchOptions, present: bool, len: u64, ok: bool)
    ensures
        fetch_transition(o, PartStage::Start, FetchEvent::Begin) == if o.jlc_data {
            (PartStage::JlcCache, FetchAction::InspectJlcCache, Tally::Nothing)
        } else {
            (PartStage::LcscCache, FetchAction::InspectLcscCache, Tally::Nothing)
        },
        (o.refresh_cache_jlc || !present || len == 0) ==> fetch_transition(
            o,
            PartStage::JlcCache,
            FetchEvent::Cache { present, len },
        ) == (PartStage::JlcDownload, FetchAction::DownloadJlc, Tally::Nothing),
        (!o.refresh_cache_jlc && present && len > 0 && !o.download_to_cache_only)
            ==> fetch_transition(o, PartStage::JlcCache, FetchEvent::Cache { present, len }) == (
            PartStage::JlcRead,
            FetchAction::ReadJlc,
            Tally::Cached,
        ),
        (!o.refresh_cache_jlc && present && len > 0 && o.download_to_cache_only)
            ==> fetch_transition(o, PartStage::JlcCache, FetchEvent::Cache { present, len }) == (
            PartStage::LcscCache,
            FetchAction::InspectLcscCache,
            Tally::Cached,
        ),
        fetch_transition(o, PartStage::JlcDownload, FetchEvent::Downloaded { ok, present }) == (
            if present && !o.download_to_cache_only {
                PartStage::JlcRead
            } else {
                PartStage::LcscCache
            },
            if present && !o.download_to_cache_only {
                FetchAction::ReadJlc
            } else {
                FetchAction::InspectLcscCache
            },
            if ok {
                Tally::Downloaded
            } else {
                Tally::Nothing
            },
        ),
        fetch_transition(o, PartStage::JlcRead, FetchEvent::Read) == (
            PartStage::LcscCache,
            FetchAction::InspectLcscCache,
            Tally::Nothing,
        ),
        (o.refresh_cache_lcsc || !present || len == 0) ==> fetch_transition(
            o,
            PartStage::LcscCache,
            FetchEvent::Cache { present, len },
        ) == (PartStage::LcscDownload, FetchAction::DownloadLcsc, Tally::Nothing),
        (!o.refresh_cache_lcsc && present && len > 0) ==> fetch_transition(
            o,
            PartStage::LcscCache,
            FetchEvent::Cache { present, len },
        ) == if o.download_to_cache_only {
            (PartStage::Done, FetchAction::NextPart, Tally::Cached)
        } else {
            (PartStage::LcscRead, FetchAction::StorePart, Tally::Cached)
        },
        fetch_transition(o, PartStage::LcscDownload, FetchEvent::Downloaded { ok, present }) == if !ok {
            (PartStage::Done, FetchAction::NextPart, Tally::Nothing)
        } else if o.download_to_cache_only {
            (PartStage::Done, FetchAction::NextPart, Tally::Downloaded)
        } else {
            (PartStage::LcscRead, FetchAction::StorePart, Tally::Downloaded)
        },
        fetch_transition(o, PartStage::LcscRead, FetchEvent::Read) == (
            PartStage::Done,
            FetchAction::NextPart,
            Tally::Nothing,
        ),
{
}

/// An event that does not answer the action the stage is waiting on ends
/// the part without anything counted, and so does any event once the part
/// is done.
pub proof fn lemma_fetch_misfit_events(o: FetchOptions, stage: PartStage, event: FetchEvent)
    ensures
        (stage == PartStage::Done || (stage == PartStage::Start && !(event is Begin)) || ((stage
            == PartStage::JlcCache || stage == PartStage::LcscCache) && !(event is Cache)) || ((
        stage == PartStage::JlcDownload || stage == PartStage::LcscDownload) && !(
        event is Downloaded)) || ((stage == PartStage::JlcRead || stage == PartStage::LcscRead)
            && !(event is Read))) ==> fetch_transition(o, stage, event) == (
            PartStage::Done,
            FetchAction::NextPart,
            Tally::Nothing,
        ),
{
}

} // verus!
