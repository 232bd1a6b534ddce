//! Walking ESI's war list: the first pass over the active wars (newest ids
//! first, page by page, until a page holds only ended wars), and the later
//! refreshes (the wars newer than the highest id seen, then every stored
//! active war).
use crate::decimal::{i64_to_decimal, int_decimal, lemma_decimal_round_trip, parse_i64, parsed_i64};
use crate::war_updater::{bootstrap_done, bootstrap_flag_value, MetaKey, WarFetchResult, WAR_FETCH_PAUSE_MS};
use vstd::prelude::*;

verus! {

/// The largest id of a non-empty list.
pub open spec fn seq_max(s: Seq<i64>) -> i64
    decreases s.len(),
{
    if s.len() <= 1 {
        s[0]
    } else {
        let m = seq_max(s.drop_last());
        if s.last() > m {
            s.last()
        } else {
            m
        }
    }
}

/// The smallest id of a non-empty list.
pub open spec fn seq_min(s: Seq<i64>) -> i64
    decreases s.len(),
{
    if s.len() <= 1 {
        s[0]
    } else {
        let m = seq_min(s.drop_last());
        if s.last() < m {
            s.last()
        } else {
            m
        }
    }
}

/// The ids of `s` above `bound`, in order.
pub open spec fn ids_above(s: Seq<i64>, bound: int) -> Seq<i64>
    decreases s.len(),
{
    if s.len() == 0 {
        Seq::empty()
    } else {
        let r = ids_above(s.drop_last(), bound);
        if s.last() > bound {
            r.push(s.last())
        } else {
            r
        }
    }
}

/// `seq_max` and `seq_min` are ids of the list, the largest and the smallest.
pub proof fn lemma_seq_extremes(s: Seq<i64>)
    requires
        s.len() > 0,
    ensures
        s.contains(seq_max(s)),
        s.contains(seq_min(s)),
        forall|i: int| 0 <= i < s.len() ==> seq_min(s) <= #[trigger] s[i] <= seq_max(s),
    decreases s.len(),
{
    if s.len() == 1 {
        assert(s[0] == seq_max(s));
    } else {
        let t = s.drop_last();
        lemma_seq_extremes(t);
        assert forall|i: int| 0 <= i < s.len() implies seq_min(s) <= #[trigger] s[i] <= seq_max(s) by {
            if i < t.len() {
                assert(t[i] == s[i]);
            }
        }
        let jmax = choose|j: int| 0 <= j < t.len() && t[j] == seq_max(t);
        let jmin = choose|j: int| 0 <= j < t.len() && t[j] == seq_min(t);
        assert(s[jmax] == t[jmax]);
        assert(s[jmin] == t[jmin]);
        assert(s[s.len() - 1] == s.last());
    }
}

/// Every id kept by `ids_above` is above the bound and comes from the list;
/// every id of the list above the bound is kept.
pub proof fn lemma_ids_above(s: Seq<i64>, bound: int)
    ensures
        forall|i: int| 0 <= i < ids_above(s, bound).len() ==> #[trigger] ids_above(s, bound)[i] > bound,
        forall|i: int| 0 <= i < ids_above(s, bound).len() ==> s.contains(#[trigger] ids_above(s, bound)[i]),
        forall|i: int| 0 <= i < s.len() && #[trigger] s[i] > bound ==> ids_above(s, bound).contains(s[i]),
    decreases s.len(),
{
    if s.len() > 0 {
        let t = s.drop_last();
        lemma_ids_above(t, bound);
        let r = ids_above(t, bound);
        let out = ids_above(s, bound);
        assert forall|i: int| 0 <= i < out.len() implies #[trigger] out[i] > bound && s.contains(out[i]) by {
            if i < r.len() {
                assert(out[i] == r[i]);
                assert(t.contains(r[i]));
                let j = choose|j: int| 0 <= j < t.len() && t[j] == r[i];
                assert(s[j] == t[j]);
            } else {
                assert(s[s.len() - 1] == s.last());
            }
        }
        assert forall|i: int| 0 <= i < s.len() && #[trigger] s[i] > bound implies out.contains(s[i]) by {
            if i < t.len() {
                assert(t[i] == s[i]);
                let j = choose|j: int| 0 <= j < r.len() && r[j] == t[i];
                assert(out[j] == r[j]);
            } else {
                assert(out[out.len() - 1] == s.last());
            }
        }
    }
}

fn list_max(ids: &Vec<i64>) -> (m: i64)
    requires
        ids@.len() > 0,
    ensures
        m == seq_max(ids@),
{
    let mut m = ids[0];
    let mut i: usize = 1;
    assert(ids@.take(1) =~= seq![ids@[0]]);
    while i < ids.len()
        invariant
            1 <= i <= ids@.len(),
            m == seq_max(ids@.take(i as int)),
        decreases ids@.len() - i,
    {
        assert(ids@.take(i + 1).drop_last() =~= ids@.take(i as int));
        assert(ids@.take(i + 1).last() == ids@[i as int]);
        if ids[i] > m {
            m = ids[i];
        }
        i = i + 1;
    }
    assert(ids@.take(ids@.len() as int) =~= ids@);
    m
}

fn list_min(ids: &Vec<i64>) -> (m: i64)
    requires
        ids@.len() > 0,
    ensures
        m == seq_min(ids@),
{
    let mut m = ids[0];
    let mut i: usize = 1;
    assert(ids@.take(1) =~= seq![ids@[0]]);
    while i < ids.len()
        invariant
            1 <= i <= ids@.len(),
            m == seq_min(ids@.take(i as int)),
        decreases ids@.len() - i,
    {
        assert(ids@.take(i + 1).drop_last() =~= ids@.take(i as int));
        assert(ids@.take(i + 1).last() == ids@[i as int]);
        if ids[i] < m {
            m = ids[i];
        }
        i = i + 1;
    }
    assert(ids@.take(ids@.len() as int) =~= ids@);
    m
}

/// Appends to `out` the ids of `ids` above `bound`.
fn extend_ids_above(out: &mut Vec<i64>, ids: &Vec<i64>, bound: i64)
    ensures
        final(out)@ == old(out)@ + ids_above(ids@, bound as int),
{
    let mut i: usize = 0;
    let ghost start = out@;
    assert(ids_above(ids@.take(0), bound as int) =~= Seq::<i64>::empty());
    assert(out@ =~= start + ids_above(ids@.take(0), bound as int));
    while i < ids.len()
        invariant
            i <= ids@.len(),
            out@ == start + ids_above(ids@.take(i as int), bound as int),
        decreases ids@.len() - i,
    {
        assert(ids@.take(i + 1).drop_last() =~= ids@.take(i as int));
        assert(ids@.take(i + 1).last() == ids@[i as int]);
        if ids[i] > bound {
            out.push(ids[i]);
            assert(out@ =~= start + ids_above(ids@.take(i + 1), bound as int));
        }
        i = i + 1;
    }
    assert(ids@.take(ids@.len() as int) =~= ids@);
}

fn copy_opt_string(s: &Option<String>) -> (r: Option<String>)
    ensures
        r == *s,
{
    match s {
        Some(v) => Some(v.clone()),
        None => None,
    }
}

/// Outside work on the war tables and ESI's war endpoints.
#[derive(Debug)]
pub enum WarsRequest {
    /// Read a `war_meta` value.
    LoadMeta { key: MetaKey },
    /// Store a `war_meta` value.
    SaveMeta { key: MetaKey, value: String },
    /// Fetch the newest page of the war list, sending this ETag.
    FetchWarList { etag: Option<String> },
    /// Fetch the page of the war list below `max_war_id`.
    FetchWarPage { max_war_id: i64 },
    /// Fetch one war (sending this ETag), store it as planned by
    /// `war_store_plan`, then pause for `pause_ms`.
    FetchAndStoreWar { war_id: i64, etag: Option<String>, pause_ms: u64 },
    /// Read the stored active wars with their ETags.
    LoadActiveWars,
    Finish,
}

/// The outcome of a `WarsRequest`.
#[derive(Debug)]
pub enum WarsEvent {
    MetaLoaded { value: Option<String> },
    MetaSaved,
    /// The newest page: the answer's ETag, and no ids when unchanged.
    WarList { etag: Option<String>, war_ids: Option<Vec<i64>> },
    WarPage { war_ids: Vec<i64> },
    WarStored { result: WarFetchResult },
    ActiveWars { wars: Vec<(i64, Option<String>)> },
}

/// The first pass over the war list.
#[derive(Debug)]
pub enum BootstrapWars {
    /// Waiting for the newest page of the war list.
    FetchFirstPage,
    /// Waiting for the list's ETag to be stored.
    SaveListEtag { etag: String, war_ids: Option<Vec<i64>> },
    /// Waiting for war `page[next]` to be fetched and stored.
    StorePage { page: Vec<i64>, next: usize, all_finished: bool, max_seen: i64 },
    /// Waiting for the page below `before`.
    FetchOlderPage { before: i64, max_seen: i64 },
    /// Waiting for the highest id seen to be stored.
    SaveMaxWarId { max_seen: i64 },
    /// Waiting for the bootstrap flag to be stored.
    MarkDone,
    Done,
}

/// Where the first pass goes with the newest page: nothing to walk when it is
/// empty; else its wars, remembering its highest id.
pub open spec fn bootstrap_begin(war_ids: Option<Vec<i64>>) -> BootstrapWars {
    match war_ids {
        Some(page) => if page@.len() > 0 {
            BootstrapWars::StorePage { page, next: 0, all_finished: true, max_seen: seq_max(page@) }
        } else {
            BootstrapWars::MarkDone
        },
        None => BootstrapWars::MarkDone,
    }
}

/// Where the first pass goes when a page is through: it stops after a page
/// whose wars all ended or vanished, or when no older page can exist; else it
/// asks for the page below the page's smallest id.
pub open spec fn bootstrap_after_page(page: Seq<i64>, all_finished: bool, max_seen: i64) -> BootstrapWars {
    if all_finished {
        BootstrapWars::SaveMaxWarId { max_seen }
    } else if seq_min(page) > 1 {
        BootstrapWars::FetchOlderPage { before: seq_min(page), max_seen }
    } else {
        BootstrapWars::SaveMaxWarId { max_seen }
    }
}

pub open spec fn war_ended(result: WarFetchResult) -> bool {
    result is Finished || result is Missing
}

/// The first pass after event `e`; an event that does not answer the pending
/// request leaves it as it is.
pub open spec fn bootstrap_next(s: BootstrapWars, e: WarsEvent) -> BootstrapWars {
    match s {
        BootstrapWars::FetchFirstPage => match e {
            WarsEvent::WarList { etag, war_ids } => match etag {
                Some(t) => BootstrapWars::SaveListEtag { etag: t, war_ids },
                None => bootstrap_begin(war_ids),
            },
            _ => s,
        },
        BootstrapWars::SaveListEtag { war_ids, .. } => match e {
            WarsEvent::MetaSaved => bootstrap_begin(war_ids),
            _ => s,
        },
        BootstrapWars::StorePage { page, next, all_finished, max_seen } => match e {
            WarsEvent::WarStored { result } => {
                let af = all_finished && war_ended(result);
                if next + 1 < page@.len() {
                    BootstrapWars::StorePage { page, next: (next + 1) as usize, all_finished: af, max_seen }
                } else {
                    bootstrap_after_page(page@, af, max_seen)
                }
            },
            _ => s,
        },
        BootstrapWars::FetchOlderPage { max_seen, .. } => match e {
            WarsEvent::WarPage { war_ids } => if war_ids@.len() > 0 {
                BootstrapWars::StorePage { page: war_ids, next: 0, all_finished: true, max_seen }
            } else {
                BootstrapWars::SaveMaxWarId { max_seen }
            },
            _ => s,
        },
        BootstrapWars::SaveMaxWarId { .. } => match e {
            WarsEvent::MetaSaved => BootstrapWars::MarkDone,
            _ => s,
        },
        BootstrapWars::MarkDone => match e {
            WarsEvent::MetaSaved => BootstrapWars::Done,
            _ => s,
        },
        BootstrapWars::Done => s,
    }
}

/// The request the first pass waits on in state `s`.
pub open spec fn bootstrap_request_ok(s: BootstrapWars, r: WarsRequest) -> bool {
    match s {
        BootstrapWars::FetchFirstPage => r == (WarsRequest::FetchWarList { etag: None }),
        BootstrapWars::SaveListEtag { etag, .. } => r == (WarsRequest::SaveMeta {
            key: MetaKey::ListEtag,
            value: etag,
        }),
        BootstrapWars::StorePage { page, next, .. } => r == (WarsRequest::FetchAndStoreWar {
            war_id: page@[next as int],
            etag: None,
            pause_ms: WAR_FETCH_PAUSE_MS,
        }),
        BootstrapWars::FetchOlderPage { before, .. } => r == (WarsRequest::FetchWarPage {
            max_war_id: before,
        }),
        BootstrapWars::SaveMaxWarId { max_seen } => r matches WarsRequest::SaveMeta { key, value }
            && key == MetaKey::MaxWarId && value@ == int_decimal(max_seen as int),
        BootstrapWars::MarkDone => r matches WarsRequest::SaveMeta { key, value } && key
            == MetaKey::BootstrapDone && value@ == "1"@,
        BootstrapWars::Done => r is Finish,
    }
}

impl BootstrapWars {
    pub open spec fn wf(self) -> bool {
        self matches BootstrapWars::StorePage { page, next, .. } ==> next < page@.len()
    }

    pub fn new() -> (s: Self)
        ensures
            s == BootstrapWars::FetchFirstPage,
    {
        BootstrapWars::FetchFirstPage
    }

    /// The outside work the first pass waits on.
    pub fn request(&self) -> (r: WarsRequest)
        requires
            self.wf(),
        ensures
            bootstrap_request_ok(*self, r),
    {
        match self {
            BootstrapWars::FetchFirstPage => WarsRequest::FetchWarList { etag: None },
            BootstrapWars::SaveListEtag { etag, .. } => WarsRequest::SaveMeta {
                key: MetaKey::ListEtag,
                value: etag.clone(),
            },
            BootstrapWars::StorePage { page, next, .. } => WarsRequest::FetchAndStoreWar {
                war_id: page[*next],
                etag: None,
                pause_ms: WAR_FETCH_PAUSE_MS,
            },
            BootstrapWars::FetchOlderPage { before, .. } => WarsRequest::FetchWarPage {
                max_war_id: *before,
            },
            BootstrapWars::SaveMaxWarId { max_seen } => WarsRequest::SaveMeta {
                key: MetaKey::MaxWarId,
                value: i64_to_decimal(*max_seen),
            },
            BootstrapWars::MarkDone => WarsRequest::SaveMeta {
                key: MetaKey::BootstrapDone,
                value: bootstrap_flag_value(),
            },
            BootstrapWars::Done => WarsRequest::Finish,
        }
    }

    fn begin(war_ids: Option<Vec<i64>>) -> (s: Self)
        ensures
            s == bootstrap_begin(war_ids),
            s.wf(),
    {
        match war_ids {
            Some(page) => {
                if page.len() > 0 {
                    let max_seen = list_max(&page);
                    BootstrapWars::StorePage { page, next: 0, all_finished: true, max_seen }
                } else {
                    BootstrapWars::MarkDone
                }
            },
            None => BootstrapWars::MarkDone,
        }
    }

    /// Takes the outcome of the pending request.
    pub fn step(self, event: WarsEvent) -> (next: Self)
        requires
            self.wf(),
        ensures
            next == bootstrap_next(self, event),
            next.wf(),
    {
        match self {
            BootstrapWars::FetchFirstPage => match event {
                WarsEvent::WarList { etag, war_ids } => match etag {
                    Some(t) => BootstrapWars::SaveListEtag { etag: t, war_ids },
                    None => Self::begin(war_ids),
                },
                _ => BootstrapWars::FetchFirstPage,
            },
            BootstrapWars::SaveListEtag { etag, war_ids } => match event {
                WarsEvent::MetaSaved => Self::begin(war_ids),
                _ => BootstrapWars::SaveListEtag { etag, war_ids },
            },
            BootstrapWars::StorePage { page, next, all_finished, max_seen } => match event {
                WarsEvent::WarStored { result } => {
                    let ended = match result {
                        WarFetchResult::Finished => true,
                        WarFetchResult::Missing => true,
                        _ => false,
                    };
                    let af = all_finished && ended;
                    let len = page.len();
                    if next + 1 < len {
                        BootstrapWars::StorePage { page, next: next + 1, all_finished: af, max_seen }
                    } else if af {
                        BootstrapWars::SaveMaxWarId { max_seen }
                    } else {
                        let least = list_min(&page);
                        if least > 1 {
                            BootstrapWars::FetchOlderPage { before: least, max_seen }
                        } else {
                            BootstrapWars::SaveMaxWarId { max_seen }
                        }
                    }
                },
                _ => BootstrapWars::StorePage { page, next, all_finished, max_seen },
            },
            BootstrapWars::FetchOlderPage { before, max_seen } => match event {
                WarsEvent::WarPage { war_ids } => {
                    if war_ids.len() > 0 {
                        BootstrapWars::StorePage { page: war_ids, next: 0, all_finished: true, max_seen }
                    } else {
                        BootstrapWars::SaveMaxWarId { max_seen }
                    }
                },
                _ => BootstrapWars::FetchOlderPage { before, max_seen },
            },
            BootstrapWars::SaveMaxWarId { max_seen } => match event {
                WarsEvent::MetaSaved => BootstrapWars::MarkDone,
                _ => BootstrapWars::SaveMaxWarId { max_seen },
            },
            BootstrapWars::MarkDone => match event {
                WarsEvent::MetaSaved => BootstrapWars::Done,
                _ => BootstrapWars::MarkDone,
            },
            BootstrapWars::Done => BootstrapWars::Done,
        }
    }
}

/// The first pass stops paging after a page on which every war ended or
/// vanished, and otherwise pages down below the smallest id it has seen; the
/// highest id it stores is that of the newest page.
pub proof fn lemma_bootstrap_paging(
    page: Vec<i64>,
    last: usize,
    all_finished: bool,
    max_seen: i64,
    result: WarFetchResult,
)
    requires
        last + 1 == page@.len(),
    ensures
        ({
            let s = BootstrapWars::StorePage {
                page,
                next: last,
                all_finished,
                max_seen,
            };
            let t = bootstrap_next(s, WarsEvent::WarStored { result });
            &&& (all_finished && war_ended(result)) ==> t == (BootstrapWars::SaveMaxWarId { max_seen })
            &&& t matches BootstrapWars::FetchOlderPage { before, max_seen: m } ==> (m == max_seen
                && 1 < before && forall|i: int| 0 <= i < page@.len() ==> before <= #[trigger] page@[i])
        }),
        bootstrap_begin(Some(page)) matches BootstrapWars::StorePage { max_seen: m, .. } && page@.contains(m)
            && forall|i: int| 0 <= i < page@.len() ==> #[trigger] page@[i] <= m,
{
    lemma_seq_extremes(page@);
}

/// A later refresh of the war list.
#[derive(Debug)]
pub enum RefreshWars {
    /// Waiting for the stored list ETag.
    LoadListEtag,
    /// Waiting for the stored highest war id.
    LoadMaxWarId { list_etag: Option<String> },
    /// Waiting for the newest page of the war list.
    FetchList { list_etag: Option<String>, max_seen: i64 },
    /// Waiting for the new list ETag to be stored.
    SaveListEtag { etag: String, war_ids: Option<Vec<i64>>, max_seen: i64 },
    /// Waiting for the page below `cursor`; `to_fetch` holds the new wars so far.
    FetchOlderPage { cursor: i64, to_fetch: Vec<i64>, max_seen: i64 },
    /// Waiting for new war `to_fetch[next]` to be fetched and stored.
    StoreNew { to_fetch: Vec<i64>, next: usize, new_max: i64, max_seen: i64 },
    /// Waiting for the stored active wars.
    LoadActive { new_max: i64, max_seen: i64 },
    /// Waiting for active war `active[next]` to be fetched and stored.
    RefreshActive { active: Vec<(i64, Option<String>)>, next: usize, new_max: i64, max_seen: i64 },
    /// Waiting for the new highest war id to be stored.
    SaveMaxWarId { new_max: i64 },
    Done,
}

/// The highest war id read from the stored meta value: its decimal value, or
/// 0 when it is missing or not a number.
pub open spec fn stored_max_war_id(value: Option<String>) -> i64 {
    match value {
        Some(v) => match parsed_i64(v@) {
            Some(n) => n as i64,
            None => 0,
        },
        None => 0,
    }
}

/// Whether the walk goes on to the page below `cursor`: only while wars
/// between the highest id seen and the cursor may be missing.
pub open spec fn keeps_paging(cursor: i64, max_seen: i64) -> bool {
    cursor > max_seen + 1
}

/// The refresh moves on to the new wars `to_fetch`, or to the active ones
/// when there are none.
pub open spec fn refresh_start_store(to_fetch: Seq<i64>, max_seen: i64, t: RefreshWars) -> bool {
    if to_fetch.len() > 0 {
        t matches RefreshWars::StoreNew { to_fetch: tf, next, new_max, max_seen: ms } && tf@
            == to_fetch && next == 0 && new_max == max_seen && ms == max_seen
    } else {
        t == (RefreshWars::LoadActive { new_max: max_seen, max_seen })
    }
}

/// After the newest page: its ids above the highest seen are new, and older
/// pages are walked from its smallest id while wars may be missing.
pub open spec fn refresh_after_list(war_ids: Option<Vec<i64>>, max_seen: i64, t: RefreshWars) -> bool {
    match war_ids {
        None => t == (RefreshWars::LoadActive { new_max: max_seen, max_seen }),
        Some(ids) => {
            let fresh = ids_above(ids@, max_seen as int);
            if ids@.len() > 0 && keeps_paging(seq_min(ids@), max_seen) {
                t matches RefreshWars::FetchOlderPage { cursor, to_fetch, max_seen: ms } && cursor
                    == seq_min(ids@) && to_fetch@ == fresh && ms == max_seen
            } else {
                refresh_start_store(fresh, max_seen, t)
            }
        },
    }
}

/// The refresh ends by storing the highest war id when it grew.
pub open spec fn refresh_finish(new_max: i64, max_seen: i64) -> RefreshWars {
    if new_max > max_seen {
        RefreshWars::SaveMaxWarId { new_max }
    } else {
        RefreshWars::Done
    }
}

pub open spec fn max_i64(a: i64, b: i64) -> i64 {
    if a >= b {
        a
    } else {
        b
    }
}

/// How a refresh moves on event `e`; an event that does not answer the
/// pending request leaves it as it is.
pub open spec fn refresh_next_ok(s: RefreshWars, e: WarsEvent, t: RefreshWars) -> bool {
    match s {
        RefreshWars::LoadListEtag => match e {
            WarsEvent::MetaLoaded { value } => t == (RefreshWars::LoadMaxWarId { list_etag: value }),
            _ => t == s,
        },
        RefreshWars::LoadMaxWarId { list_etag } => match e {
            WarsEvent::MetaLoaded { value } => t == (RefreshWars::FetchList {
                list_etag,
                max_seen: stored_max_war_id(value),
            }),
            _ => t == s,
        },
        RefreshWars::FetchList { max_seen, .. } => match e {
            WarsEvent::WarList { etag, war_ids } => match etag {
                Some(tag) => t == (RefreshWars::SaveListEtag { etag: tag, war_ids, max_seen }),
                None => refresh_after_list(war_ids, max_seen, t),
            },
            _ => t == s,
        },
        RefreshWars::SaveListEtag { war_ids, max_seen, .. } => match e {
            WarsEvent::MetaSaved => refresh_after_list(war_ids, max_seen, t),
            _ => t == s,
        },
        RefreshWars::FetchOlderPage { to_fetch, max_seen, .. } => match e {
            WarsEvent::WarPage { war_ids } => {
                let fresh = ids_above(war_ids@, max_seen as int);
                if war_ids@.len() == 0 || fresh.len() == 0 {
                    refresh_start_store(to_fetch@, max_seen, t)
                } else {
                    let c = seq_min(war_ids@);
                    if c > 1 && keeps_paging(c, max_seen) {
                        t matches RefreshWars::FetchOlderPage { cursor, to_fetch: tf, max_seen: ms }
                            && cursor == c && tf@ == to_fetch@ + fresh && ms == max_seen
                    } else {
                        refresh_start_store(to_fetch@ + fresh, max_seen, t)
                    }
                }
            },
            _ => t == s,
        },
        RefreshWars::StoreNew { to_fetch, next, new_max, max_seen } => match e {
            WarsEvent::WarStored { .. } => {
                let m = max_i64(new_max, to_fetch@[next as int]);
                if next + 1 < to_fetch@.len() {
                    t == (RefreshWars::StoreNew { to_fetch, next: (next + 1) as usize, new_max: m, max_seen })
                } else {
                    t == (RefreshWars::LoadActive { new_max: m, max_seen })
                }
            },
            _ => t == s,
        },
        RefreshWars::LoadActive { new_max, max_seen } => match e {
            WarsEvent::ActiveWars { wars } => if wars@.len() > 0 {
                t == (RefreshWars::RefreshActive { active: wars, next: 0, new_max, max_seen })
            } else {
                t == refresh_finish(new_max, max_seen)
            },
            _ => t == s,
        },
        RefreshWars::RefreshActive { active, next, new_max, max_seen } => match e {
            WarsEvent::WarStored { .. } => if next + 1 < active@.len() {
                t == (RefreshWars::RefreshActive { active, next: (next + 1) as usize, new_max, max_seen })
            } else {
                t == refresh_finish(new_max, max_seen)
            },
            _ => t == s,
        },
        RefreshWars::SaveMaxWarId { .. } => match e {
            WarsEvent::MetaSaved => t == RefreshWars::Done,
            _ => t == s,
        },
        RefreshWars::Done => t == s,
    }
}

/// The request a refresh waits on in state `s`.
pub open spec fn refresh_request_ok(s: RefreshWars, r: WarsRequest) -> bool {
    match s {
        RefreshWars::LoadListEtag => r == (WarsRequest::LoadMeta { key: MetaKey::ListEtag }),
        RefreshWars::LoadMaxWarId { .. } => r == (WarsRequest::LoadMeta { key: MetaKey::MaxWarId }),
        RefreshWars::FetchList { list_etag, .. } => r == (WarsRequest::FetchWarList { etag: list_etag }),
        RefreshWars::SaveListEtag { etag, .. } => r == (WarsRequest::SaveMeta {
            key: MetaKey::ListEtag,
            value: etag,
        }),
        RefreshWars::FetchOlderPage { cursor, .. } => r == (WarsRequest::FetchWarPage {
            max_war_id: cursor,
        }),
        RefreshWars::StoreNew { to_fetch, next, .. } => r == (WarsRequest::FetchAndStoreWar {
            war_id: to_fetch@[next as int],
            etag: None,
            pause_ms: WAR_FETCH_PAUSE_MS,
        }),
        RefreshWars::LoadActive { .. } => r is LoadActiveWars,
        RefreshWars::RefreshActive { active, next, .. } => r == (WarsRequest::FetchAndStoreWar {
            war_id: active@[next as int].0,
            etag: active@[next as int].1,
            pause_ms: WAR_FETCH_PAUSE_MS,
        }),
        RefreshWars::SaveMaxWarId { new_max } => r matches WarsRequest::SaveMeta { key, value } && key
            == MetaKey::MaxWarId && value@ == int_decimal(new_max as int),
        RefreshWars::Done => r is Finish,
    }
}

impl RefreshWars {
    pub open spec fn wf(self) -> bool {
        match self {
            RefreshWars::StoreNew { to_fetch, next, .. } => next < to_fetch@.len(),
            RefreshWars::RefreshActive { active, next, .. } => next < active@.len(),
            _ => true,
        }
    }

    pub fn new() -> (s: Self)
        ensures
            s == RefreshWars::LoadListEtag,
    {
        RefreshWars::LoadListEtag
    }

    /// The outside work the refresh waits on.
    pub fn request(&self) -> (r: WarsRequest)
        requires
            self.wf(),
        ensures
            refresh_request_ok(*self, r),
    {
        match self {
            RefreshWars::LoadListEtag => WarsRequest::LoadMeta { key: MetaKey::ListEtag },
            RefreshWars::LoadMaxWarId { .. } => WarsRequest::LoadMeta { key: MetaKey::MaxWarId },
            RefreshWars::FetchList { list_etag, .. } => WarsRequest::FetchWarList {
                etag: copy_opt_string(list_etag),
            },
            RefreshWars::SaveListEtag { etag, .. } => WarsRequest::SaveMeta {
                key: MetaKey::ListEtag,
                value: etag.clone(),
            },
            RefreshWars::FetchOlderPage { cursor, .. } => WarsRequest::FetchWarPage {
                max_war_id: *cursor,
            },
            RefreshWars::StoreNew { to_fetch, next, .. } => WarsRequest::FetchAndStoreWar {
                war_id: to_fetch[*next],
                etag: None,
                pause_ms: WAR_FETCH_PAUSE_MS,
            },
            RefreshWars::LoadActive { .. } => WarsRequest::LoadActiveWars,
            RefreshWars::RefreshActive { active, next, .. } => WarsRequest::FetchAndStoreWar {
                war_id: active[*next].0,
                etag: copy_opt_string(&active[*next].1),
                pause_ms: WAR_FETCH_PAUSE_MS,
            },
            RefreshWars::SaveMaxWarId { new_max } => WarsRequest::SaveMeta {
                key: MetaKey::MaxWarId,
                value: i64_to_decimal(*new_max),
            },
            RefreshWars::Done => WarsRequest::Finish,
        }
    }

    fn paging(cursor: i64, max_seen: i64) -> (r: bool)
        ensures
            r == keeps_paging(cursor, max_seen),
    {
        cursor as i128 > max_seen as i128 + 1
    }

    fn start_store(to_fetch: Vec<i64>, max_seen: i64) -> (t: Self)
        ensures
            refresh_start_store(to_fetch@, max_seen, t),
            t.wf(),
    {
        if to_fetch.len() > 0 {
            RefreshWars::StoreNew { to_fetch, next: 0, new_max: max_seen, max_seen }
        } else {
            RefreshWars::LoadActive { new_max: max_seen, max_seen }
        }
    }

    fn after_list(war_ids: Option<Vec<i64>>, max_seen: i64) -> (t: Self)
        ensures
            refresh_after_list(war_ids, max_seen, t),
            t.wf(),
    {
        match war_ids {
            None => RefreshWars::LoadActive { new_max: max_seen, max_seen },
            Some(ids) => {
                let mut fresh: Vec<i64> = Vec::new();
                extend_ids_above(&mut fresh, &ids, max_seen);
                assert(fresh@ =~= ids_above(ids@, max_seen as int));
                if ids.len() > 0 {
                    let least = list_min(&ids);
                    if Self::paging(least, max_seen) {
                        return RefreshWars::FetchOlderPage { cursor: least, to_fetch: fresh, max_seen };
                    }
                }
                Self::start_store(fresh, max_seen)
            },
        }
    }

    fn finish(new_max: i64, max_seen: i64) -> (t: Self)
        ensures
            t == refresh_finish(new_max, max_seen),
    {
        if new_max > max_seen {
            RefreshWars::SaveMaxWarId { new_max }
        } else {
            RefreshWars::Done
        }
    }

    /// Takes the outcome of the pending request.
    pub fn step(self, event: WarsEvent) -> (next: Self)
        requires
            self.wf(),
        ensures
            refresh_next_ok(self, event, next),
            next.wf(),
    {
        match self {
            RefreshWars::LoadListEtag => match event {
                WarsEvent::MetaLoaded { value } => RefreshWars::LoadMaxWarId { list_etag: value },
                _ => RefreshWars::LoadListEtag,
            },
            RefreshWars::LoadMaxWarId { list_etag } => match event {
                WarsEvent::MetaLoaded { value } => {
                    let max_seen = match &value {
                        Some(v) => match parse_i64(v.as_str()) {
                            Some(n) => n,
                            None => 0,
                        },
                        None => 0,
                    };
                    RefreshWars::FetchList { list_etag, max_seen }
                },
                _ => RefreshWars::LoadMaxWarId { list_etag },
            },
            RefreshWars::FetchList { list_etag, max_seen } => match event {
                WarsEvent::WarList { etag, war_ids } => match etag {
                    Some(tag) => RefreshWars::SaveListEtag { etag: tag, war_ids, max_seen },
                    None => Self::after_list(war_ids, max_seen),
                },
                _ => RefreshWars::FetchList { list_etag, max_seen },
            },
            RefreshWars::SaveListEtag { etag, war_ids, max_seen } => match event {
                WarsEvent::MetaSaved => Self::after_list(war_ids, max_seen),
                _ => RefreshWars::SaveListEtag { etag, war_ids, max_seen },
            },
            RefreshWars::FetchOlderPage { cursor, to_fetch, max_seen } => match event {
                WarsEvent::WarPage { war_ids } => {
                    let mut fresh: Vec<i64> = Vec::new();
                    extend_ids_above(&mut fresh, &war_ids, max_seen);
                    assert(fresh@ =~= ids_above(war_ids@, max_seen as int));
                    if war_ids.len() == 0 || fresh.len() == 0 {
                        Self::start_store(to_fetch, max_seen)
                    } else {
                        let mut to_fetch = to_fetch;
                        extend_ids_above(&mut to_fetch, &war_ids, max_seen);
                        let least = list_min(&war_ids);
                        if least > 1 && Self::paging(least, max_seen) {
                            RefreshWars::FetchOlderPage { cursor: least, to_fetch, max_seen }
                        } else {
                            Self::start_store(to_fetch, max_seen)
                        }
                    }
                },
                _ => RefreshWars::FetchOlderPage { cursor, to_fetch, max_seen },
            },
            RefreshWars::StoreNew { to_fetch, next, new_max, max_seen } => match event {
                WarsEvent::WarStored { .. } => {
                    let id = to_fetch[next];
                    let m = if id > new_max {
                        id
                    } else {
                        new_max
                    };
                    let len = to_fetch.len();
                    if next + 1 < len {
                        RefreshWars::StoreNew { to_fetch, next: next + 1, new_max: m, max_seen }
                    } else {
                        RefreshWars::LoadActive { new_max: m, max_seen }
                    }
                },
                _ => RefreshWars::StoreNew { to_fetch, next, new_max, max_seen },
            },
            RefreshWars::LoadActive { new_max, max_seen } => match event {
                WarsEvent::ActiveWars { wars } => {
                    if wars.len() > 0 {
                        RefreshWars::RefreshActive { active: wars, next: 0, new_max, max_seen }
                    } else {
                        Self::finish(new_max, max_seen)
                    }
                },
                _ => RefreshWars::LoadActive { new_max, max_seen },
            },
            RefreshWars::RefreshActive { active, next, new_max, max_seen } => match event {
                WarsEvent::WarStored { .. } => {
                    let len = active.len();
                    if next + 1 < len {
                        RefreshWars::RefreshActive { active, next: next + 1, new_max, max_seen }
                    } else {
                        Self::finish(new_max, max_seen)
                    }
                },
                _ => RefreshWars::RefreshActive { active, next, new_max, max_seen },
            },
            RefreshWars::SaveMaxWarId { new_max } => match event {
                WarsEvent::MetaSaved => RefreshWars::Done,
                _ => RefreshWars::SaveMaxWarId { new_max },
            },
            RefreshWars::Done => RefreshWars::Done,
        }
    }
}

/// The whole war refresh: the first pass until its flag is stored, later
/// refreshes after that.
#[derive(Debug)]
pub enum WarRefresh {
    /// Waiting for the stored bootstrap flag.
    CheckBootstrap,
    Bootstrap { run: BootstrapWars },
    Refresh { run: RefreshWars },
}

impl WarRefresh {
    pub open spec fn wf(self) -> bool {
        match self {
            WarRefresh::Bootstrap { run } => run.wf(),
            WarRefresh::Refresh { run } => run.wf(),
            WarRefresh::CheckBootstrap => true,
        }
    }

    /// How the war refresh moves on event `e`: the stored flag "1" picks a
    /// later refresh, anything else the first pass; after that the chosen
    /// walk takes the events.
    pub open spec fn next_ok(self, e: WarsEvent, t: WarRefresh) -> bool {
        match self {
            WarRefresh::CheckBootstrap => match e {
                WarsEvent::MetaLoaded { value } => if value matches Some(v) && v@ == "1"@ {
                    t == (WarRefresh::Refresh { run: RefreshWars::LoadListEtag })
                } else {
                    t == (WarRefresh::Bootstrap { run: BootstrapWars::FetchFirstPage })
                },
                _ => t == self,
            },
            WarRefresh::Bootstrap { run } => t == (WarRefresh::Bootstrap { run: bootstrap_next(run, e) }),
            WarRefresh::Refresh { run } => t matches WarRefresh::Refresh { run: r } && refresh_next_ok(
                run,
                e,
                r,
            ),
        }
    }

    pub open spec fn request_ok(self, r: WarsRequest) -> bool {
        match self {
            WarRefresh::CheckBootstrap => r == (WarsRequest::LoadMeta { key: MetaKey::BootstrapDone }),
            WarRefresh::Bootstrap { run } => bootstrap_request_ok(run, r),
            WarRefresh::Refresh { run } => refresh_request_ok(run, r),
        }
    }

    pub fn new() -> (s: Self)
        ensures
            s == WarRefresh::CheckBootstrap,
    {
        WarRefresh::CheckBootstrap
    }

    pub fn request(&self) -> (r: WarsRequest)
        requires
            self.wf(),
        ensures
            self.request_ok(r),
    {
        match self {
            WarRefresh::CheckBootstrap => WarsRequest::LoadMeta { key: MetaKey::BootstrapDone },
            WarRefresh::Bootstrap { run } => run.request(),
            WarRefresh::Refresh { run } => run.request(),
        }
    }

    pub fn step(self, event: WarsEvent) -> (next: Self)
        requires
            self.wf(),
        ensures
            self.next_ok(event, next),
            next.wf(),
    {
        match self {
            WarRefresh::CheckBootstrap => match event {
                WarsEvent::MetaLoaded { value } => {
                    if bootstrap_done(&value) {
                        WarRefresh::Refresh { run: RefreshWars::new() }
                    } else {
                        WarRefresh::Bootstrap { run: BootstrapWars::new() }
                    }
                },
                _ => WarRefresh::CheckBootstrap,
            },
            WarRefresh::Bootstrap { run } => WarRefresh::Bootstrap { run: run.step(event) },
            WarRefresh::Refresh { run } => WarRefresh::Refresh { run: run.step(event) },
        }
    }
}

/// The wars a refresh fetches as new all lie above the highest id seen
/// before, and every id above it on the pages walked is fetched.
pub proof fn lemma_new_wars_above_max_seen(ids: Seq<i64>, max_seen: i64)
    ensures
        forall|i: int|
            0 <= i < ids_above(ids, max_seen as int).len() ==> #[trigger] ids_above(
                ids,
                max_seen as int,
            )[i] > max_seen,
        forall|i: int| 0 <= i < ids.len() && #[trigger] ids[i] > max_seen ==> ids_above(
            ids,
            max_seen as int,
        ).contains(ids[i]),
{
    lemma_ids_above(ids, max_seen as int);
}

/// The highest war id is stored again only when it grew, and then with the
/// new value.
pub proof fn lemma_max_war_id_only_grows(new_max: i64, max_seen: i64)
    ensures
        refresh_finish(new_max, max_seen) matches RefreshWars::SaveMaxWarId { new_max: m } ==> m
            == new_max && m > max_seen,
        new_max <= max_seen ==> refresh_finish(new_max, max_seen) == RefreshWars::Done,
{
}

/// Storing a new war raises the running maximum to at least its id, and
/// never lowers it.
pub proof fn lemma_store_new_tracks_max(
    to_fetch: Vec<i64>,
    next: usize,
    new_max: i64,
    max_seen: i64,
    result: WarFetchResult,
    t: RefreshWars,
)
    requires
        next < to_fetch@.len(),
        refresh_next_ok(
            RefreshWars::StoreNew { to_fetch, next, new_max, max_seen },
            WarsEvent::WarStored { result },
            t,
        ),
    ensures
        t matches RefreshWars::StoreNew { new_max: m, .. } ==> m >= new_max && m >= to_fetch@[next as int],
        t matches RefreshWars::LoadActive { new_max: m, .. } ==> m >= new_max && m >= to_fetch@[next as int],
{
}

/// The highest war id one refresh stores is the highest id the next refresh
/// starts from: the stored decimal text reads back as the same number.
pub proof fn lemma_max_war_id_read_back(new_max: i64, value: String)
    requires
        value@ == int_decimal(new_max as int),
    ensures
        stored_max_war_id(Some(value)) == new_max,
{
    lemma_decimal_round_trip(new_max);
}

/// The first pass after a series of events, taken in order.
pub open spec fn bootstrap_run(s: BootstrapWars, es: Seq<WarsEvent>) -> BootstrapWars
    decreases es.len(),
{
    if es.len() == 0 {
        s
    } else {
        bootstrap_run(bootstrap_next(s, es[0]), es.drop_first())
    }
}

/// The events reporting that a page's wars were stored with these results.
pub open spec fn stored_events(results: Seq<WarFetchResult>) -> Seq<WarsEvent> {
    Seq::new(results.len(), |i: int| WarsEvent::WarStored { result: results[i] })
}

proof fn lemma_bootstrap_page_suffix(
    page: Vec<i64>,
    k: usize,
    all_finished: bool,
    max_seen: i64,
    results: Seq<WarFetchResult>,
)
    requires
        k < page@.len(),
        page@.len() <= usize::MAX,
        results.len() == page@.len(),
    ensures
        bootstrap_run(
            BootstrapWars::StorePage { page, next: k, all_finished, max_seen },
            stored_events(results.subrange(k as int, results.len() as int)),
        ) == bootstrap_after_page(
            page@,
            all_finished && forall|i: int| k <= i < results.len() ==> #[trigger] war_ended(results[i]),
            max_seen,
        ),
    decreases page@.len() - k,
{
    let n = results.len() as int;
    let es = stored_events(results.subrange(k as int, n));
    let s = BootstrapWars::StorePage { page, next: k, all_finished, max_seen };
    let af = all_finished && war_ended(results[k as int]);
    assert(es[0] == WarsEvent::WarStored { result: results[k as int] });
    assert(es.drop_first() =~= stored_events(results.subrange(k + 1, n)));
    assert(es.len() > 0);
    assert(bootstrap_run(s, es) == bootstrap_run(bootstrap_next(s, es[0]), es.drop_first()));
    if k + 1 < n {
        let s1 = BootstrapWars::StorePage { page, next: (k + 1) as usize, all_finished: af, max_seen };
        assert(bootstrap_next(s, es[0]) == s1);
        lemma_bootstrap_page_suffix(page, (k + 1) as usize, af, max_seen, results);
        assert((af && forall|i: int| k + 1 <= i < n ==> #[trigger] war_ended(results[i])) == (
        all_finished && forall|i: int| k <= i < n ==> #[trigger] war_ended(results[i]))) by {
            if af && forall|i: int| k + 1 <= i < n ==> #[trigger] war_ended(results[i]) {
                assert forall|i: int| k <= i < n implies #[trigger] war_ended(results[i]) by {
                    if i > k {
                    }
                }
            }
        }
    } else {
        assert(es.drop_first() =~= Seq::<WarsEvent>::empty());
        assert(bootstrap_next(s, es[0]) == bootstrap_after_page(page@, af, max_seen));
        assert(af == (all_finished && forall|i: int| k <= i < n ==> #[trigger] war_ended(results[i])));
    }
}

/// The first pass walks a whole page and then stops paging exactly when
/// every war of the page ended (finished or vanished) or no older page can
/// exist (the page holds war 1 or below); otherwise it asks for the page
/// below the page's smallest id. Either way it keeps the highest id of the
/// newest page.
pub proof fn lemma_bootstrap_stops_only_after_ended_page(
    page: Vec<i64>,
    max_seen: i64,
    results: Seq<WarFetchResult>,
)
    requires
        page@.len() > 0,
        page@.len() <= usize::MAX,
        results.len() == page@.len(),
    ensures
        ({
            let t = bootstrap_run(
                BootstrapWars::StorePage { page, next: 0, all_finished: true, max_seen },
                stored_events(results),
            );
            let all_ended = forall|i: int|
                0 <= i < results.len() ==> (#[trigger] results[i] is Finished || results[i] is Missing);
            let older_pages = forall|i: int| 0 <= i < page@.len() ==> #[trigger] page@[i] > 1;
            &&& all_ended ==> t == (BootstrapWars::SaveMaxWarId { max_seen })
            &&& !older_pages ==> t == (BootstrapWars::SaveMaxWarId { max_seen })
            &&& (!all_ended && older_pages) ==> (t matches BootstrapWars::FetchOlderPage {
                before,
                max_seen: m,
            } && m == max_seen && page@.contains(before) && forall|i: int|
                0 <= i < page@.len() ==> before <= #[trigger] page@[i])
        }),
{
    lemma_bootstrap_page_suffix(page, 0, true, max_seen, results);
    assert(results.subrange(0, results.len() as int) =~= results);
    lemma_seq_extremes(page@);
    let n = results.len() as int;
    let t = bootstrap_run(
        BootstrapWars::StorePage { page, next: 0, all_finished: true, max_seen },
        stored_events(results),
    );
    let ended = forall|i: int| 0 <= i < n ==> #[trigger] war_ended(results[i]);
    let all_ended = forall|i: int|
        0 <= i < n ==> (#[trigger] results[i] is Finished || results[i] is Missing);
    assert(ended == all_ended) by {
        if ended {
            assert forall|i: int| 0 <= i < n implies (#[trigger] results[i] is Finished
                || results[i] is Missing) by {
                assert(war_ended(results[i]));
            }
        }
        if all_ended {
            assert forall|i: int| 0 <= i < n implies #[trigger] war_ended(results[i]) by {
                assert(results[i] is Finished || results[i] is Missing);
            }
        }
    }
    assert(t == bootstrap_after_page(page@, ended, max_seen));
    let older_pages = forall|i: int| 0 <= i < page@.len() ==> #[trigger] page@[i] > 1;
    assert(older_pages == (seq_min(page@) > 1)) by {
        if !older_pages {
            let i = choose|i: int| 0 <= i < page@.len() && !(#[trigger] page@[i] > 1);
            assert(seq_min(page@) <= page@[i]);
        } else {
            let j = choose|j: int| 0 <= j < page@.len() && page@[j] == seq_min(page@);
            assert(page@[j] > 1);
        }
    }
}

/// `listed` holds exactly the ids of `before` and the ids of `page` above
/// `max_seen`.
pub open spec fn lists_new_wars(listed: Seq<i64>, before: Seq<i64>, page: Seq<i64>, max_seen: i64) -> bool {
    forall|x: i64| #[trigger] listed.contains(x) <==> (before.contains(x) || (page.contains(x) && x > max_seen))
}

proof fn lemma_ids_above_members(ids: Seq<i64>, max_seen: i64, before: Seq<i64>)
    ensures
        lists_new_wars(before + ids_above(ids, max_seen as int), before, ids, max_seen),
        lists_new_wars(ids_above(ids, max_seen as int), Seq::empty(), ids, max_seen),
{
    lemma_ids_above(ids, max_seen as int);
    let f = ids_above(ids, max_seen as int);
    assert forall|x: i64| #[trigger] (before + f).contains(x) <==> (before.contains(x) || (ids.contains(x)
        && x > max_seen)) by {
        if (before + f).contains(x) {
            let j = choose|j: int| 0 <= j < (before + f).len() && (before + f)[j] == x;
            if j >= before.len() {
                assert(f[j - before.len()] == x);
            }
        }
        if before.contains(x) {
            let j = choose|j: int| 0 <= j < before.len() && before[j] == x;
            assert((before + f)[j] == x);
        }
        if ids.contains(x) && x > max_seen {
            let i = choose|i: int| 0 <= i < ids.len() && ids[i] == x;
            assert(f.contains(ids[i]));
            let j = choose|j: int| 0 <= j < f.len() && f[j] == x;
            assert((before + f)[before.len() + j] == x);
        }
    }
    assert(Seq::<i64>::empty() + f =~= f);
    assert forall|x: i64| #[trigger] f.contains(x) <==> (Seq::<i64>::empty().contains(x) || (
    ids.contains(x) && x > max_seen)) by {
        assert((Seq::<i64>::empty() + f).contains(x) == f.contains(x));
    }
}

proof fn lemma_after_list_outcome(ids: Vec<i64>, max_seen: i64, t: RefreshWars)
    requires
        refresh_after_list(Some(ids), max_seen, t),
    ensures
        t is FetchOlderPage || t is StoreNew || t is LoadActive,
        t matches RefreshWars::FetchOlderPage { cursor, to_fetch, max_seen: m } ==> m == max_seen
            && lists_new_wars(to_fetch@, Seq::empty(), ids@, max_seen) && ids@.contains(cursor)
            && cursor > max_seen + 1 && forall|i: int| 0 <= i < ids@.len() ==> cursor <= #[trigger] ids@[i],
        t matches RefreshWars::StoreNew { to_fetch, next, new_max, max_seen: m } ==> next == 0
            && new_max == max_seen && m == max_seen && lists_new_wars(to_fetch@, Seq::empty(), ids@, max_seen),
        t matches RefreshWars::LoadActive { new_max, max_seen: m } ==> new_max == max_seen && m
            == max_seen && forall|i: int| 0 <= i < ids@.len() ==> #[trigger] ids@[i] <= max_seen,
{
    lemma_ids_above_members(ids@, max_seen, Seq::empty());
    lemma_ids_above(ids@, max_seen as int);
    if ids@.len() > 0 {
        lemma_seq_extremes(ids@);
    }
    if t is LoadActive {
        assert forall|i: int| 0 <= i < ids@.len() implies #[trigger] ids@[i] <= max_seen by {
            if ids@[i] > max_seen {
                assert(ids_above(ids@, max_seen as int).contains(ids@[i]));
            }
        }
    }
}

/// After the newest page of the war list (with no new ETag), the refresh
/// has listed as new exactly the page's ids above the highest id seen: it
/// fetches them, first paging further down while wars between may be
/// missing, and goes to the active wars only when the page holds no newer id.
pub proof fn lemma_newest_page_wars_fetched(list_etag: Option<String>, max_seen: i64, ids: Vec<i64>, t: RefreshWars)
    requires
        refresh_next_ok(
            RefreshWars::FetchList { list_etag, max_seen },
            WarsEvent::WarList { etag: None, war_ids: Some(ids) },
            t,
        ),
    ensures
        t is FetchOlderPage || t is StoreNew || t is LoadActive,
        t matches RefreshWars::FetchOlderPage { cursor, to_fetch, max_seen: m } ==> m == max_seen
            && lists_new_wars(to_fetch@, Seq::empty(), ids@, max_seen) && ids@.contains(cursor)
            && cursor > max_seen + 1 && forall|i: int| 0 <= i < ids@.len() ==> cursor <= #[trigger] ids@[i],
        t matches RefreshWars::StoreNew { to_fetch, next, new_max, max_seen: m } ==> next == 0
            && new_max == max_seen && m == max_seen && lists_new_wars(to_fetch@, Seq::empty(), ids@, max_seen),
        t matches RefreshWars::LoadActive { new_max, max_seen: m } ==> new_max == max_seen && m
            == max_seen && forall|i: int| 0 <= i < ids@.len() ==> #[trigger] ids@[i] <= max_seen,
{
    lemma_after_list_outcome(ids, max_seen, t);
}

/// The same holds once a new list ETag has been stored.
pub proof fn lemma_newest_page_wars_fetched_after_etag(etag: String, max_seen: i64, ids: Vec<i64>, t: RefreshWars)
    requires
        refresh_next_ok(
            RefreshWars::SaveListEtag { etag, war_ids: Some(ids), max_seen },
            WarsEvent::MetaSaved,
            t,
        ),
    ensures
        t is FetchOlderPage || t is StoreNew || t is LoadActive,
        t matches RefreshWars::FetchOlderPage { cursor, to_fetch, max_seen: m } ==> m == max_seen
            && lists_new_wars(to_fetch@, Seq::empty(), ids@, max_seen) && ids@.contains(cursor)
            && cursor > max_seen + 1 && forall|i: int| 0 <= i < ids@.len() ==> cursor <= #[trigger] ids@[i],
        t matches RefreshWars::StoreNew { to_fetch, next, new_max, max_seen: m } ==> next == 0
            && new_max == max_seen && m == max_seen && lists_new_wars(to_fetch@, Seq::empty(), ids@, max_seen),
        t matches RefreshWars::LoadActive { new_max, max_seen: m } ==> new_max == max_seen && m
            == max_seen && forall|i: int| 0 <= i < ids@.len() ==> #[trigger] ids@[i] <= max_seen,
{
    lemma_after_list_outcome(ids, max_seen, t);
}

/// An older page adds exactly its ids above the highest id seen to the wars
/// to fetch, whether paging goes on (below the page's smallest id, above 1
/// and while wars may still be missing) or stops; the walk goes straight to
/// the active wars only when no new war was found at all.
pub proof fn lemma_older_page_wars_added(
    cursor: i64,
    to_fetch: Vec<i64>,
    max_seen: i64,
    ids: Vec<i64>,
    t: RefreshWars,
)
    requires
        refresh_next_ok(
            RefreshWars::FetchOlderPage { cursor, to_fetch, max_seen },
            WarsEvent::WarPage { war_ids: ids },
            t,
        ),
    ensures
        t is FetchOlderPage || t is StoreNew || t is LoadActive,
        t matches RefreshWars::FetchOlderPage { cursor: c, to_fetch: tf, max_seen: m } ==> m == max_seen
            && lists_new_wars(tf@, to_fetch@, ids@, max_seen) && ids@.contains(c) && c > 1 && c
            > max_seen + 1 && forall|i: int| 0 <= i < ids@.len() ==> c <= #[trigger] ids@[i],
        t matches RefreshWars::StoreNew { to_fetch: tf, next, new_max, max_seen: m } ==> next == 0
            && new_max == max_seen && m == max_seen && lists_new_wars(tf@, to_fetch@, ids@, max_seen),
        t matches RefreshWars::LoadActive { new_max, max_seen: m } ==> new_max == max_seen && m
            == max_seen && to_fetch@.len() == 0 && forall|i: int| 0 <= i < ids@.len() ==> #[trigger] ids@[i]
            <= max_seen,
{
    let fresh = ids_above(ids@, max_seen as int);
    lemma_ids_above_members(ids@, max_seen, to_fetch@);
    lemma_ids_above(ids@, max_seen as int);
    if ids@.len() > 0 {
        lemma_seq_extremes(ids@);
    }
    if fresh.len() == 0 {
        assert forall|i: int| 0 <= i < ids@.len() implies #[trigger] ids@[i] <= max_seen by {
            if ids@[i] > max_seen {
                assert(fresh.contains(ids@[i]));
            }
        }
        assert forall|x: i64| #[trigger] to_fetch@.contains(x) <==> (to_fetch@.contains(x) || (
        ids@.contains(x) && x > max_seen)) by {
            if ids@.contains(x) && x > max_seen {
                let i = choose|i: int| 0 <= i < ids@.len() && ids@[i] == x;
                assert(ids@[i] <= max_seen);
            }
        }
    }
}

/// The running maximum `m` covers `start` and the first `k` new wars, and is
/// one of them.
pub open spec fn running_max(m: i64, start: i64, wars: Seq<i64>, k: int) -> bool {
    &&& m >= start
    &&& forall|i: int| 0 <= i < k ==> m >= #[trigger] wars[i]
    &&& (m == start || exists|i: int| 0 <= i < k && wars[i] == m)
}

proof fn lemma_store_walk_prefix(
    to_fetch: Vec<i64>,
    start: i64,
    max_seen: i64,
    states: Seq<RefreshWars>,
    results: Seq<WarFetchResult>,
    k: int,
)
    requires
        0 <= k < to_fetch@.len(),
        to_fetch@.len() <= usize::MAX,
        states.len() == to_fetch@.len() + 1,
        results.len() == to_fetch@.len(),
        states[0] == (RefreshWars::StoreNew { to_fetch, next: 0, new_max: start, max_seen }),
        forall|j: int|
            0 <= j < to_fetch@.len() ==> refresh_next_ok(
                #[trigger] states[j],
                WarsEvent::WarStored { result: results[j] },
                states[j + 1],
            ),
    ensures
        states[k] matches RefreshWars::StoreNew { to_fetch: tf, next, new_max, max_seen: m } && tf
            == to_fetch && next == k && m == max_seen && running_max(new_max, start, to_fetch@, k),
    decreases k,
{
    if k > 0 {
        lemma_store_walk_prefix(to_fetch, start, max_seen, states, results, k - 1);
        assert(refresh_next_ok(states[k - 1], WarsEvent::WarStored { result: results[k - 1] }, states[k]));
        if let RefreshWars::StoreNew { new_max, .. } = states[k - 1] {
            if let RefreshWars::StoreNew { new_max: m2, .. } = states[k] {
                assert(running_max(m2, start, to_fetch@, k)) by {
                    if m2 != start && m2 != to_fetch@[k - 1] {
                        let i = choose|i: int| 0 <= i < k - 1 && to_fetch@[i] == new_max;
                    }
                    if m2 == to_fetch@[k - 1] && m2 != start {
                        assert(to_fetch@[k - 1] == m2);
                    }
                }
            }
        }
    }
}

/// Once the new wars are listed, the refresh fetches and stores each of them
/// in turn, one per step, and then goes to the stored active wars with a
/// highest id that is at least the one it started from and every war it
/// stored, and is one of these.
pub proof fn lemma_new_wars_all_stored(
    to_fetch: Vec<i64>,
    start: i64,
    max_seen: i64,
    states: Seq<RefreshWars>,
    results: Seq<WarFetchResult>,
)
    requires
        to_fetch@.len() > 0,
        to_fetch@.len() <= usize::MAX,
        states.len() == to_fetch@.len() + 1,
        results.len() == to_fetch@.len(),
        states[0] == (RefreshWars::StoreNew { to_fetch, next: 0, new_max: start, max_seen }),
        forall|j: int|
            0 <= j < to_fetch@.len() ==> refresh_next_ok(
                #[trigger] states[j],
                WarsEvent::WarStored { result: results[j] },
                states[j + 1],
            ),
    ensures
        forall|k: int|
            0 <= k < to_fetch@.len() ==> (#[trigger] states[k] matches RefreshWars::StoreNew {
                to_fetch: tf,
                next,
                ..
            } && tf == to_fetch && next == k),
        states[to_fetch@.len() as int] matches RefreshWars::LoadActive { new_max, max_seen: m } && m
            == max_seen && running_max(new_max, start, to_fetch@, to_fetch@.len() as int),
{
    let n = to_fetch@.len() as int;
    assert forall|k: int| 0 <= k < n implies (#[trigger] states[k] matches RefreshWars::StoreNew {
        to_fetch: tf,
        next,
        ..
    } && tf == to_fetch && next == k) by {
        lemma_store_walk_prefix(to_fetch, start, max_seen, states, results, k);
    }
    lemma_store_walk_prefix(to_fetch, start, max_seen, states, results, n - 1);
    assert(refresh_next_ok(states[n - 1], WarsEvent::WarStored { result: results[n - 1] }, states[n]));
    if let RefreshWars::StoreNew { new_max, .. } = states[n - 1] {
        if let RefreshWars::LoadActive { new_max: m2, .. } = states[n] {
            assert(running_max(m2, start, to_fetch@, n)) by {
                if m2 != start && m2 != to_fetch@[n - 1] {
                    let i = choose|i: int| 0 <= i < n - 1 && to_fetch@[i] == new_max;
                }
            }
        }
    }
}

/// Each page the first pass walks starts with no war seen running, from its
/// first war, keeping the highest id of the newest page; an empty older page
/// ends the walk, and an empty newest list skips straight to marking the
/// pass done.
pub proof fn lemma_bootstrap_pages_start_fresh(before: i64, max_seen: i64, ids: Vec<i64>)
    ensures
        ids@.len() > 0 ==> bootstrap_next(
            BootstrapWars::FetchOlderPage { before, max_seen },
            WarsEvent::WarPage { war_ids: ids },
        ) == (BootstrapWars::StorePage { page: ids, next: 0, all_finished: true, max_seen }),
        ids@.len() == 0 ==> bootstrap_next(
            BootstrapWars::FetchOlderPage { before, max_seen },
            WarsEvent::WarPage { war_ids: ids },
        ) == (BootstrapWars::SaveMaxWarId { max_seen }),
        ids@.len() > 0 ==> (bootstrap_next(
            BootstrapWars::FetchFirstPage,
            WarsEvent::WarList { etag: None, war_ids: Some(ids) },
        ) matches BootstrapWars::StorePage { page, next, all_finished, max_seen: m } && page == ids
            && next == 0 && all_finished && ids@.contains(m) && forall|i: int|
            0 <= i < ids@.len() ==> #[trigger] ids@[i] <= m),
        ids@.len() == 0 ==> bootstrap_next(
            BootstrapWars::FetchFirstPage,
            WarsEvent::WarList { etag: None, war_ids: Some(ids) },
        ) == BootstrapWars::MarkDone,
        bootstrap_next(BootstrapWars::FetchFirstPage, WarsEvent::WarList { etag: None, war_ids: None })
            == BootstrapWars::MarkDone,
{
    if ids@.len() > 0 {
        lemma_seq_extremes(ids@);
    }
}

} // verus!
