use backend::war::{WarDetail, WarEntity};
use backend::war_list::{BootstrapWars, RefreshWars, WarRefresh, WarsEvent, WarsRequest};
use backend::war_updater::{
    bootstrap_done, meta_key_name, participant_sets, seconds_until_next_cycle, war_store_plan,
    war_store_plan_at, CycleEvent, CycleReport, CycleRequest, MetaKey, UpdateCycle,
    WarFetchResult, WarLookup, WarStorePlan,
};
use std::collections::HashSet;

fn set(ids: &[i64]) -> HashSet<i64> {
    ids.iter().copied().collect()
}

#[test]
fn meta_key_names() {
    assert_eq!(meta_key_name(MetaKey::ListEtag), "wars_list_etag");
    assert_eq!(meta_key_name(MetaKey::MaxWarId), "max_war_id_seen");
    assert_eq!(meta_key_name(MetaKey::BootstrapDone), "bootstrap_done");
}

#[test]
fn bootstrap_flag() {
    assert!(bootstrap_done(&Some("1".to_string())));
    assert!(!bootstrap_done(&Some("0".to_string())));
    assert!(!bootstrap_done(&Some("11".to_string())));
    assert!(!bootstrap_done(&None));
}

fn war(id: i64, finished: bool) -> WarDetail {
    WarDetail {
        id,
        aggressor: WarEntity { corporation_id: Some(1), alliance_id: None },
        defender: WarEntity { corporation_id: Some(2), alliance_id: Some(3) },
        allies: vec![WarEntity { corporation_id: None, alliance_id: Some(4) }],
        finished: if finished { Some("2024-05-01T00:00:00Z".to_string()) } else { None },
    }
}

#[test]
fn war_not_found_is_removed_as_missing() {
    let plan = war_store_plan_at(5, WarLookup::Failed { status: Some(404) }, 0);
    assert!(matches!(plan, WarStorePlan::Remove { war_id: 5, result: WarFetchResult::Missing }));
    assert!(matches!(plan.result(), Some(WarFetchResult::Missing)));
}

#[test]
fn other_failures_are_passed_on() {
    assert!(matches!(war_store_plan_at(5, WarLookup::Failed { status: Some(500) }, 0), WarStorePlan::Fail));
    assert!(matches!(war_store_plan_at(5, WarLookup::Failed { status: None }, 0), WarStorePlan::Fail));
    assert!(war_store_plan_at(5, WarLookup::Failed { status: None }, 0).result().is_none());
}

#[test]
fn unchanged_war_is_kept() {
    let plan = war_store_plan_at(5, WarLookup::NotModified, 0);
    assert!(matches!(plan, WarStorePlan::Keep));
    assert!(matches!(plan.result(), Some(WarFetchResult::Unchanged)));
}

#[test]
fn finished_war_is_removed() {
    let plan = war_store_plan_at(5, WarLookup::Found { war: war(5, true), etag: None }, 0);
    assert!(matches!(plan, WarStorePlan::Remove { war_id: 5, result: WarFetchResult::Finished }));
}

#[test]
fn running_war_is_saved_with_participants() {
    let plan = war_store_plan_at(
        5,
        WarLookup::Found { war: war(5, false), etag: Some("abc".to_string()) },
        1700000000,
    );
    assert!(matches!(plan.result(), Some(WarFetchResult::Active)));
    match plan {
        WarStorePlan::Save { upsert } => {
            assert_eq!(upsert.war_id, 5);
            assert_eq!(upsert.etag.as_deref(), Some("abc"));
            assert_eq!(upsert.updated_at, 1700000000);
            assert_eq!(upsert.corporations, set(&[1, 2]));
            assert_eq!(upsert.alliances, set(&[3, 4]));
        }
        other => panic!("unexpected {:?}", other),
    }
}

#[test]
fn clock_stamped_plan_for_running_war() {
    match war_store_plan(5, WarLookup::Found { war: war(5, false), etag: None }) {
        WarStorePlan::Save { upsert } => assert!(upsert.updated_at > 1_600_000_000),
        other => panic!("unexpected {:?}", other),
    }
    assert!(matches!(war_store_plan(5, WarLookup::NotModified), WarStorePlan::Keep));
}

#[test]
fn participants_split_by_category() {
    let rows = vec![
        (1, "corporation".to_string()),
        (2, "alliance".to_string()),
        (3, "corporation".to_string()),
        (4, "faction".to_string()),
        (1, "corporation".to_string()),
    ];
    let (corps, alliances) = participant_sets(&rows);
    assert_eq!(corps, set(&[1, 3]));
    assert_eq!(alliances, set(&[2]));
    let (c, a) = participant_sets(&vec![]);
    assert!(c.is_empty() && a.is_empty());
}

#[test]
fn retry_delay() {
    assert_eq!(seconds_until_next_cycle(true, 600), 600);
    assert_eq!(seconds_until_next_cycle(false, 600), 3600);
}

fn run_cycle(wars_ok: bool, fleet_ok: bool) -> (Vec<&'static str>, CycleReport) {
    let mut trace = Vec::new();
    let mut c = UpdateCycle::new();
    loop {
        let event = match c.request() {
            CycleRequest::ReloadCache => {
                trace.push("reload");
                CycleEvent::CacheReloaded
            }
            CycleRequest::RefreshWars => {
                trace.push("wars");
                CycleEvent::WarsRefreshed { ok: wars_ok }
            }
            CycleRequest::RefreshFleet => {
                trace.push("fleet");
                CycleEvent::FleetRefreshed { ok: fleet_ok }
            }
            CycleRequest::Finish { report } => return (trace, report),
        };
        c = c.step(event);
    }
}

#[test]
fn cycle_reloads_around_a_good_war_refresh() {
    let (trace, report) = run_cycle(true, true);
    assert_eq!(trace, vec!["reload", "wars", "reload", "fleet"]);
    assert!(matches!(report, CycleReport::Succeeded));
}

#[test]
fn cycle_refreshes_fleet_after_failed_war_refresh() {
    let (trace, report) = run_cycle(false, true);
    assert_eq!(trace, vec!["reload", "wars", "fleet"]);
    assert!(matches!(report, CycleReport::WarsFailed));
    let (_, report) = run_cycle(false, false);
    assert!(matches!(report, CycleReport::FleetFailed));
    let (_, report) = run_cycle(true, false);
    assert!(matches!(report, CycleReport::FleetFailed));
}

fn expect_store(r: WarsRequest, id: i64) {
    match r {
        WarsRequest::FetchAndStoreWar { war_id, pause_ms, .. } => {
            assert_eq!(war_id, id);
            assert_eq!(pause_ms, 50);
        }
        other => panic!("expected war {} but got {:?}", id, other),
    }
}

#[test]
fn bootstrap_walks_pages_until_a_finished_page() {
    let mut s = BootstrapWars::new();
    assert!(matches!(s.request(), WarsRequest::FetchWarList { etag: None }));
    s = s.step(WarsEvent::WarList { etag: Some("e1".to_string()), war_ids: Some(vec![30, 29, 28]) });
    match s.request() {
        WarsRequest::SaveMeta { key: MetaKey::ListEtag, value } => assert_eq!(value, "e1"),
        other => panic!("unexpected {:?}", other),
    }
    s = s.step(WarsEvent::MetaSaved);
    expect_store(s.request(), 30);
    s = s.step(WarsEvent::WarStored { result: WarFetchResult::Finished });
    expect_store(s.request(), 29);
    s = s.step(WarsEvent::WarStored { result: WarFetchResult::Active });
    expect_store(s.request(), 28);
    s = s.step(WarsEvent::WarStored { result: WarFetchResult::Missing });
    assert!(matches!(s.request(), WarsRequest::FetchWarPage { max_war_id: 28 }));
    s = s.step(WarsEvent::WarPage { war_ids: vec![27, 26] });
    expect_store(s.request(), 27);
    s = s.step(WarsEvent::WarStored { result: WarFetchResult::Finished });
    s = s.step(WarsEvent::WarStored { result: WarFetchResult::Missing });
    match s.request() {
        WarsRequest::SaveMeta { key: MetaKey::MaxWarId, value } => assert_eq!(value, "30"),
        other => panic!("unexpected {:?}", other),
    }
    s = s.step(WarsEvent::MetaSaved);
    match s.request() {
        WarsRequest::SaveMeta { key: MetaKey::BootstrapDone, value } => assert_eq!(value, "1"),
        other => panic!("unexpected {:?}", other),
    }
    s = s.step(WarsEvent::MetaSaved);
    assert!(matches!(s.request(), WarsRequest::Finish));
}

#[test]
fn bootstrap_with_empty_list_only_marks_done() {
    let mut s = BootstrapWars::new();
    s = s.step(WarsEvent::WarList { etag: None, war_ids: None });
    assert!(matches!(s.request(), WarsRequest::SaveMeta { key: MetaKey::BootstrapDone, .. }));
}

#[test]
fn bootstrap_stops_at_war_one() {
    let mut s = BootstrapWars::new();
    s = s.step(WarsEvent::WarList { etag: None, war_ids: Some(vec![2, 1]) });
    s = s.step(WarsEvent::WarStored { result: WarFetchResult::Active });
    s = s.step(WarsEvent::WarStored { result: WarFetchResult::Active });
    match s.request() {
        WarsRequest::SaveMeta { key: MetaKey::MaxWarId, value } => assert_eq!(value, "2"),
        other => panic!("unexpected {:?}", other),
    }
}

#[test]
fn refresh_fetches_new_wars_then_active_ones() {
    let mut s = RefreshWars::new();
    assert!(matches!(s.request(), WarsRequest::LoadMeta { key: MetaKey::ListEtag }));
    s = s.step(WarsEvent::MetaLoaded { value: Some("old".to_string()) });
    assert!(matches!(s.request(), WarsRequest::LoadMeta { key: MetaKey::MaxWarId }));
    s = s.step(WarsEvent::MetaLoaded { value: Some("100".to_string()) });
    match s.request() {
        WarsRequest::FetchWarList { etag } => assert_eq!(etag.as_deref(), Some("old")),
        other => panic!("unexpected {:?}", other),
    }
    s = s.step(WarsEvent::WarList { etag: Some("new".to_string()), war_ids: Some(vec![105, 104]) });
    assert!(matches!(s.request(), WarsRequest::SaveMeta { key: MetaKey::ListEtag, .. }));
    s = s.step(WarsEvent::MetaSaved);
    assert!(matches!(s.request(), WarsRequest::FetchWarPage { max_war_id: 104 }));
    s = s.step(WarsEvent::WarPage { war_ids: vec![103, 102, 99] });
    expect_store(s.request(), 105);
    s = s.step(WarsEvent::WarStored { result: WarFetchResult::Active });
    expect_store(s.request(), 104);
    s = s.step(WarsEvent::WarStored { result: WarFetchResult::Active });
    expect_store(s.request(), 103);
    s = s.step(WarsEvent::WarStored { result: WarFetchResult::Finished });
    expect_store(s.request(), 102);
    s = s.step(WarsEvent::WarStored { result: WarFetchResult::Active });
    assert!(matches!(s.request(), WarsRequest::LoadActiveWars));
    s = s.step(WarsEvent::ActiveWars { wars: vec![(50, Some("t50".to_string())), (60, None)] });
    match s.request() {
        WarsRequest::FetchAndStoreWar { war_id, etag, .. } => {
            assert_eq!(war_id, 50);
            assert_eq!(etag.as_deref(), Some("t50"));
        }
        other => panic!("unexpected {:?}", other),
    }
    s = s.step(WarsEvent::WarStored { result: WarFetchResult::Unchanged });
    expect_store(s.request(), 60);
    s = s.step(WarsEvent::WarStored { result: WarFetchResult::Active });
    match s.request() {
        WarsRequest::SaveMeta { key: MetaKey::MaxWarId, value } => assert_eq!(value, "105"),
        other => panic!("unexpected {:?}", other),
    }
    s = s.step(WarsEvent::MetaSaved);
    assert!(matches!(s.request(), WarsRequest::Finish));
}

#[test]
fn refresh_without_news_keeps_max_war_id() {
    let mut s = RefreshWars::new();
    s = s.step(WarsEvent::MetaLoaded { value: None });
    s = s.step(WarsEvent::MetaLoaded { value: Some("not a number".to_string()) });
    s = s.step(WarsEvent::WarList { etag: None, war_ids: None });
    assert!(matches!(s.request(), WarsRequest::LoadActiveWars));
    s = s.step(WarsEvent::ActiveWars { wars: vec![] });
    assert!(matches!(s.request(), WarsRequest::Finish));
}

#[test]
fn refresh_with_no_stored_max_pages_down_to_war_one() {
    let mut s = RefreshWars::new();
    s = s.step(WarsEvent::MetaLoaded { value: None });
    s = s.step(WarsEvent::MetaLoaded { value: None });
    s = s.step(WarsEvent::WarList { etag: None, war_ids: Some(vec![3]) });
    assert!(matches!(s.request(), WarsRequest::FetchWarPage { max_war_id: 3 }));
    s = s.step(WarsEvent::WarPage { war_ids: vec![2, 1] });
    expect_store(s.request(), 3);
    s = s.step(WarsEvent::WarStored { result: WarFetchResult::Active });
    expect_store(s.request(), 2);
    s = s.step(WarsEvent::WarStored { result: WarFetchResult::Active });
    expect_store(s.request(), 1);
}

#[test]
fn war_refresh_picks_the_pass_by_flag() {
    let s = WarRefresh::new();
    assert!(matches!(s.request(), WarsRequest::LoadMeta { key: MetaKey::BootstrapDone }));
    let s = s.step(WarsEvent::MetaLoaded { value: Some("1".to_string()) });
    assert!(matches!(s.request(), WarsRequest::LoadMeta { key: MetaKey::ListEtag }));
    let t = WarRefresh::new().step(WarsEvent::MetaLoaded { value: None });
    assert!(matches!(t.request(), WarsRequest::FetchWarList { etag: None }));
}
