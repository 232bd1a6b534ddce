//! The periodic war update: how a fetched war is stored, how the cache is
//! rebuilt from the stored participants, and how an update cycle reports.
use crate::clock::unix_timestamp;
use crate::war::{alliance_ids, collect_entities_from_war, corporation_ids, war_entities, WarDetail};
use std::collections::HashSet;
use vstd::prelude::*;

verus! {

broadcast use vstd::std_specs::hash::group_hash_axioms;

/// Seconds to wait before the next cycle after a failed one.
pub const ERROR_RETRY_SECONDS: u64 = 3600;

/// Milliseconds to pause after each war fetched from ESI.
pub const WAR_FETCH_PAUSE_MS: u64 = 50;

/// The keys of the `war_meta` table.
#[derive(Debug, Clone, Copy)]
pub enum MetaKey {
    /// The ETag of the last war list.
    ListEtag,
    /// The highest war id seen.
    MaxWarId,
    /// Set to "1" once the first full pass over active wars is done.
    BootstrapDone,
}

/// The name under which a meta value is stored.
pub open spec fn meta_key_text(key: MetaKey) -> Seq<char> {
    match key {
        MetaKey::ListEtag => "wars_list_etag"@,
        MetaKey::MaxWarId => "max_war_id_seen"@,
        MetaKey::BootstrapDone => "bootstrap_done"@,
    }
}

/// The name under which a meta value is stored.
pub fn meta_key_name(key: MetaKey) -> (name: &'static str)
    ensures
        name@ == meta_key_text(key),
{
    match key {
        MetaKey::ListEtag => "wars_list_etag",
        MetaKey::MaxWarId => "max_war_id_seen",
        MetaKey::BootstrapDone => "bootstrap_done",
    }
}

/// Whether the stored bootstrap flag says the first pass is done: only the
/// value "1" does.
pub fn bootstrap_done(flag: &Option<String>) -> (done: bool)
    ensures
        done == (flag matches Some(v) && v@ == "1"@),
{
    match flag {
        Some(v) => {
            let one = String::from_str("1");
            *v == one
        },
        None => false,
    }
}

/// The text stored as the bootstrap flag.
pub fn bootstrap_flag_value() -> (v: String)
    ensures
        v@ == "1"@,
{
    String::from_str("1")
}

/// What happened to one war on a refresh.
#[derive(Debug, Clone, Copy)]
pub enum WarFetchResult {
    /// Still running; its row and participants were stored.
    Active,
    /// It ended; it was removed.
    Finished,
    /// ESI reported no change since the stored ETag.
    Unchanged,
    /// ESI no longer knows it; it was removed.
    Missing,
}

/// What ESI answered when asked for a war.
#[derive(Debug)]
pub enum WarLookup {
    /// The request failed, with this HTTP status if ESI answered with one.
    Failed { status: Option<u16> },
    /// Nothing changed since the ETag sent.
    NotModified,
    /// The war, with the ETag of this answer.
    Found { war: WarDetail, etag: Option<String> },
}

/// The row and participants stored for a war still running.
#[derive(Debug)]
pub struct ActiveWarUpsert {
    pub war_id: i64,
    pub etag: Option<String>,
    pub updated_at: i64,
    pub corporations: HashSet<i64>,
    pub alliances: HashSet<i64>,
}

/// What to do after asking ESI for a war.
#[derive(Debug)]
pub enum WarStorePlan {
    /// Pass the ESI error on.
    Fail,
    /// Remove the war and its participants.
    Remove { war_id: i64, result: WarFetchResult },
    /// Leave the stored war as it is.
    Keep,
    /// Store the war as running, with these participants.
    Save { upsert: ActiveWarUpsert },
}

/// How a war fetched from ESI is stored, the clock reading `now`. A war ESI
/// no longer knows (404) is removed as missing, any other failure is passed
/// on, an unchanged war stays, a finished one is removed, and a running one
/// is stored with its ETag, `now` and all of its participants.
pub open spec fn war_store_ok(war_id: i64, lookup: WarLookup, now: i64, plan: WarStorePlan) -> bool {
    match lookup {
        WarLookup::Failed { status } => if status == Some(404u16) {
            plan == (WarStorePlan::Remove { war_id, result: WarFetchResult::Missing })
        } else {
            plan is Fail
        },
        WarLookup::NotModified => plan is Keep,
        WarLookup::Found { war, etag } => if war.finished is Some {
            plan == (WarStorePlan::Remove { war_id, result: WarFetchResult::Finished })
        } else {
            plan matches WarStorePlan::Save { upsert } && upsert.war_id == war.id && upsert.etag
                == etag && upsert.updated_at == now && upsert.corporations@ == corporation_ids(
                war_entities(war),
            ) && upsert.alliances@ == alliance_ids(war_entities(war))
        },
    }
}

/// The outcome a plan reports to the war list walk.
pub open spec fn plan_result(plan: WarStorePlan) -> Option<WarFetchResult> {
    match plan {
        WarStorePlan::Fail => None,
        WarStorePlan::Remove { result, .. } => Some(result),
        WarStorePlan::Keep => Some(WarFetchResult::Unchanged),
        WarStorePlan::Save { .. } => Some(WarFetchResult::Active),
    }
}

impl WarStorePlan {
    /// The outcome of the plan once carried out; `None` for `Fail`.
    pub fn result(&self) -> (r: Option<WarFetchResult>)
        ensures
            r == plan_result(*self),
    {
        match self {
            WarStorePlan::Fail => None,
            WarStorePlan::Remove { result, .. } => Some(*result),
            WarStorePlan::Keep => Some(WarFetchResult::Unchanged),
            WarStorePlan::Save { .. } => Some(WarFetchResult::Active),
        }
    }
}

/// How to store war `war_id` after ESI's answer, the clock reading `now`.
pub fn war_store_plan_at(war_id: i64, lookup: WarLookup, now: i64) -> (plan: WarStorePlan)
    ensures
        war_store_ok(war_id, lookup, now, plan),
{
    match lookup {
        WarLookup::Failed { status } => match status {
            Some(code) => {
                if code == 404 {
                    WarStorePlan::Remove { war_id, result: WarFetchResult::Missing }
                } else {
                    WarStorePlan::Fail
                }
            },
            None => WarStorePlan::Fail,
        },
        WarLookup::NotModified => WarStorePlan::Keep,
        WarLookup::Found { war, etag } => {
            if war.finished.is_some() {
                WarStorePlan::Remove { war_id, result: WarFetchResult::Finished }
            } else {
                let (corporations, alliances) = collect_entities_from_war(&war);
                WarStorePlan::Save {
                    upsert: ActiveWarUpsert {
                        war_id: war.id,
                        etag,
                        updated_at: now,
                        corporations,
                        alliances,
                    },
                }
            }
        },
    }
}

/// How to store war `war_id` after ESI's answer; a running war is stamped
/// with the clock's current reading.
pub fn war_store_plan(war_id: i64, lookup: WarLookup) -> (plan: WarStorePlan)
    ensures
        exists|now: i64| #[trigger] war_store_ok(war_id, lookup, now, plan),
{
    let now = if matches!(lookup, WarLookup::Found { .. }) {
        unix_timestamp()
    } else {
        0
    };
    let ghost l = lookup;
    let plan = war_store_plan_at(war_id, lookup, now);
    assert(war_store_ok(war_id, l, now, plan));
    plan
}

/// The ids stored under `category` among participant rows (entity id,
/// category).
pub open spec fn participants_in(rows: Seq<(i64, String)>, category: Seq<char>) -> Set<i64> {
    Set::new(
        |id: i64|
            exists|i: int| 0 <= i < rows.len() && (#[trigger] rows[i]).0 == id && rows[i].1@ == category,
    )
}

/// Splits the stored war participants into the corporations and the
/// alliances at war; rows of any other category are left out.
pub fn participant_sets(rows: &Vec<(i64, String)>) -> (r: (HashSet<i64>, HashSet<i64>))
    ensures
        r.0@ == participants_in(rows@, "corporation"@),
        r.1@ == participants_in(rows@, "alliance"@),
{
    let corporation = String::from_str("corporation");
    let alliance = String::from_str("alliance");
    let mut corporations: HashSet<i64> = HashSet::new();
    let mut alliances: HashSet<i64> = HashSet::new();
    let n = rows.len();
    let mut i: usize = 0;
    while i < n
        invariant
            n == rows@.len(),
            i <= n,
            corporation@ == "corporation"@,
            alliance@ == "alliance"@,
            corporations@ == participants_in(rows@.take(i as int), "corporation"@),
            alliances@ == participants_in(rows@.take(i as int), "alliance"@),
        decreases n - i,
    {
        let entity_id = rows[i].0;
        let is_corporation = rows[i].1 == corporation;
        let is_alliance = rows[i].1 == alliance;
        let ghost before = rows@.take(i as int);
        let ghost after = rows@.take(i + 1);
        if is_corporation {
            corporations.insert(entity_id);
        } else if is_alliance {
            alliances.insert(entity_id);
        }
        proof {
            assert(after[i as int] == rows@[i as int]);
            assert("corporation"@ != "alliance"@) by {
                reveal_strlit("corporation");
                reveal_strlit("alliance");
                assert("corporation"@[0] != "alliance"@[0]);
            }
            assert forall|id: i64|
                participants_in(after, "corporation"@).contains(id) <==> corporations@.contains(id)
                by {
                if participants_in(after, "corporation"@).contains(id) {
                    let j = choose|j: int|
                        0 <= j < after.len() && (#[trigger] after[j]).0 == id && after[j].1@
                            == "corporation"@;
                    if j < i {
                        assert(before[j] == after[j]);
                    }
                }
                if participants_in(before, "corporation"@).contains(id) {
                    let j = choose|j: int|
                        0 <= j < before.len() && (#[trigger] before[j]).0 == id && before[j].1@
                            == "corporation"@;
                    assert(after[j] == before[j]);
                }
            }
            assert forall|id: i64|
                participants_in(after, "alliance"@).contains(id) <==> alliances@.contains(id) by {
                if participants_in(after, "alliance"@).contains(id) {
                    let j = choose|j: int|
                        0 <= j < after.len() && (#[trigger] after[j]).0 == id && after[j].1@
                            == "alliance"@;
                    if j < i {
                        assert(before[j] == after[j]);
                    }
                }
                if participants_in(before, "alliance"@).contains(id) {
                    let j = choose|j: int|
                        0 <= j < before.len() && (#[trigger] before[j]).0 == id && before[j].1@
                            == "alliance"@;
                    assert(after[j] == before[j]);
                }
            }
            assert(participants_in(after, "corporation"@) =~= corporations@);
            assert(participants_in(after, "alliance"@) =~= alliances@);
        }
        i = i + 1;
    }
    assert(rows@.take(n as int) =~= rows@);
    (corporations, alliances)
}

/// How an update cycle ended.
#[derive(Debug, Clone, Copy)]
pub enum CycleReport {
    Succeeded,
    /// The war refresh failed; the affiliation refresh went through.
    WarsFailed,
    /// The affiliation refresh failed (whatever the war refresh did).
    FleetFailed,
}

/// One update cycle: rebuild the cache from the database, refresh the wars,
/// rebuild the cache again if that worked, then refresh the affiliations of
/// the fleet members in any case.
#[derive(Debug)]
pub enum UpdateCycle {
    /// Waiting for the cache to be rebuilt before the war refresh.
    ReloadFirst,
    /// Waiting for the war refresh.
    RefreshWars,
    /// Waiting for the cache to be rebuilt after a successful war refresh.
    ReloadAfter,
    /// Waiting for the fleet affiliation refresh.
    RefreshFleet { wars_ok: bool },
    Done { report: CycleReport },
}

/// The outside work an update cycle waits on.
#[derive(Debug)]
pub enum CycleRequest {
    /// Rebuild the cache from the stored participants; its result is not
    /// looked at.
    ReloadCache,
    /// Run a `WarRefresh`.
    RefreshWars,
    /// Refresh the affiliations of the active fleet members.
    RefreshFleet,
    Finish { report: CycleReport },
}

/// The outcome of a `CycleRequest`.
#[derive(Debug)]
pub enum CycleEvent {
    CacheReloaded,
    WarsRefreshed { ok: bool },
    FleetRefreshed { ok: bool },
}

/// The report of a cycle: an affiliation failure wins over a war failure.
pub open spec fn cycle_report(wars_ok: bool, fleet_ok: bool) -> CycleReport {
    if !fleet_ok {
        CycleReport::FleetFailed
    } else if !wars_ok {
        CycleReport::WarsFailed
    } else {
        CycleReport::Succeeded
    }
}

pub open spec fn cycle_request(s: UpdateCycle) -> CycleRequest {
    match s {
        UpdateCycle::ReloadFirst => CycleRequest::ReloadCache,
        UpdateCycle::RefreshWars => CycleRequest::RefreshWars,
        UpdateCycle::ReloadAfter => CycleRequest::ReloadCache,
        UpdateCycle::RefreshFleet { .. } => CycleRequest::RefreshFleet,
        UpdateCycle::Done { report } => CycleRequest::Finish { report },
    }
}

/// The cycle after event `e`; an event that does not answer the pending
/// request leaves it as it is.
pub open spec fn cycle_next(s: UpdateCycle, e: CycleEvent) -> UpdateCycle {
    match s {
        UpdateCycle::ReloadFirst => match e {
            CycleEvent::CacheReloaded => UpdateCycle::RefreshWars,
            _ => s,
        },
        UpdateCycle::RefreshWars => match e {
            CycleEvent::WarsRefreshed { ok } => if ok {
                UpdateCycle::ReloadAfter
            } else {
                UpdateCycle::RefreshFleet { wars_ok: false }
            },
            _ => s,
        },
        UpdateCycle::ReloadAfter => match e {
            CycleEvent::CacheReloaded => UpdateCycle::RefreshFleet { wars_ok: true },
            _ => s,
        },
        UpdateCycle::RefreshFleet { wars_ok } => match e {
            CycleEvent::FleetRefreshed { ok } => UpdateCycle::Done { report: cycle_report(wars_ok, ok) },
            _ => s,
        },
        UpdateCycle::Done { .. } => s,
    }
}

impl UpdateCycle {
    pub fn new() -> (s: Self)
        ensures
            s == UpdateCycle::ReloadFirst,
    {
        UpdateCycle::ReloadFirst
    }

    pub fn request(&self) -> (r: CycleRequest)
        ensures
            r == cycle_request(*self),
    {
        match self {
            UpdateCycle::ReloadFirst => CycleRequest::ReloadCache,
            UpdateCycle::RefreshWars => CycleRequest::RefreshWars,
            UpdateCycle::ReloadAfter => CycleRequest::ReloadCache,
            UpdateCycle::RefreshFleet { .. } => CycleRequest::RefreshFleet,
            UpdateCycle::Done { report } => CycleRequest::Finish { report: *report },
        }
    }

    pub fn step(self, event: CycleEvent) -> (next: Self)
        ensures
            next == cycle_next(self, event),
    {
        match self {
            UpdateCycle::ReloadFirst => match event {
                CycleEvent::CacheReloaded => UpdateCycle::RefreshWars,
                _ => UpdateCycle::ReloadFirst,
            },
            UpdateCycle::RefreshWars => match event {
                CycleEvent::WarsRefreshed { ok } => {
                    if ok {
                        UpdateCycle::ReloadAfter
                    } else {
                        UpdateCycle::RefreshFleet { wars_ok: false }
                    }
                },
                _ => UpdateCycle::RefreshWars,
            },
            UpdateCycle::ReloadAfter => match event {
                CycleEvent::CacheReloaded => UpdateCycle::RefreshFleet { wars_ok: true },
                _ => UpdateCycle::ReloadAfter,
            },
            UpdateCycle::RefreshFleet { wars_ok } => match event {
                CycleEvent::FleetRefreshed { ok } => {
                    let report = if !ok {
                        CycleReport::FleetFailed
                    } else if !wars_ok {
                        CycleReport::WarsFailed
                    } else {
                        CycleReport::Succeeded
                    };
                    UpdateCycle::Done { report }
                },
                _ => UpdateCycle::RefreshFleet { wars_ok },
            },
            UpdateCycle::Done { report } => UpdateCycle::Done { report },
        }
    }
}

/// A cycle rebuilds the cache before it touches ESI, so a failing war
/// refresh leaves the cache as the database has it; it rebuilds the cache
/// again exactly when the war refresh succeeded; and it refreshes the fleet
/// affiliations whether or not the war refresh succeeded, reporting an
/// affiliation failure first.
pub proof fn lemma_cycle_order(wars_ok: bool, fleet_ok: bool)
    ensures
        cycle_request(UpdateCycle::ReloadFirst) is ReloadCache,
        cycle_next(UpdateCycle::ReloadFirst, CycleEvent::CacheReloaded) == UpdateCycle::RefreshWars,
        ({
            let after_wars = cycle_next(UpdateCycle::RefreshWars, CycleEvent::WarsRefreshed { ok: wars_ok });
            let before_fleet = if wars_ok {
                cycle_next(after_wars, CycleEvent::CacheReloaded)
            } else {
                after_wars
            };
            &&& (cycle_request(after_wars) is ReloadCache <==> wars_ok)
            &&& cycle_request(before_fleet) is RefreshFleet
            &&& cycle_request(cycle_next(before_fleet, CycleEvent::FleetRefreshed { ok: fleet_ok }))
                == (CycleRequest::Finish { report: cycle_report(wars_ok, fleet_ok) })
            &&& (cycle_report(wars_ok, fleet_ok) is FleetFailed <==> !fleet_ok)
            &&& (cycle_report(wars_ok, fleet_ok) is Succeeded <==> (wars_ok && fleet_ok))
        }),
{
}

/// Seconds to wait before the next cycle: the configured interval after a
/// successful cycle, an hour after a failed one.
pub fn seconds_until_next_cycle(cycle_ok: bool, interval_seconds: u64) -> (s: u64)
    ensures
        cycle_ok ==> s == interval_seconds,
        !cycle_ok ==> s == ERROR_RETRY_SECONDS,
{
    if cycle_ok {
        interval_seconds
    } else {
        ERROR_RETRY_SECONDS
    }
}

} // verus!
