use backend::affiliation::{
    alliance_path, alliance_write, character_path, character_write, corporation_fresh,
    corporation_path, AffiliationService, AllianceEvent, AllianceRequest, AllianceSync,
    AllianceWrite, CharacterEvent, CharacterRequest,
    CharacterSync, CharacterWrite, CorporationEvent, CorporationRequest, CorporationSync,
    CorporationWrite,
};

#[test]
fn service_keeps_its_handles() {
    let service = AffiliationService::new("db".to_string(), 42u32);
    assert_eq!(service.db(), "db");
    assert_eq!(*service.esi_client(), 42);
}

#[test]
fn esi_paths() {
    assert_eq!(character_path(2112000001), "/latest/characters/2112000001");
    assert_eq!(corporation_path(98000001), "/latest/corporations/98000001");
    assert_eq!(alliance_path(99000001), "/latest/alliances/99000001");
    assert_eq!(character_path(-1), "/latest/characters/-1");
}

#[test]
fn character_insert_or_update() {
    match character_write(5, "Alice".to_string(), 77, false) {
        CharacterWrite::Insert { id, name, corporation_id } => {
            assert_eq!((id, name.as_str(), corporation_id), (5, "Alice", 77));
        }
        other => panic!("unexpected {:?}", other),
    }
    match character_write(5, "Alice".to_string(), 77, true) {
        CharacterWrite::Update { id, name, corporation_id } => {
            assert_eq!((id, name.as_str(), corporation_id), (5, "Alice", 77));
        }
        other => panic!("unexpected {:?}", other),
    }
}

#[test]
fn alliance_insert_or_update() {
    assert!(matches!(alliance_write(3, "A".to_string(), false), AllianceWrite::Insert { id: 3, .. }));
    assert!(matches!(alliance_write(3, "A".to_string(), true), AllianceWrite::Update { id: 3, .. }));
}

#[test]
fn freshness_window_is_one_day() {
    assert!(corporation_fresh(1000, 1000));
    assert!(corporation_fresh(1000, 1000 + 86399));
    assert!(!corporation_fresh(1000, 1000 + 86400));
    assert!(!corporation_fresh(1000, 500000));
}

#[test]
fn fresh_corporation_is_not_fetched() {
    let s = CorporationSync::new(9);
    assert!(matches!(s.request(), CorporationRequest::LoadCorporation { id: 9 }));
    let s = s.step_at(CorporationEvent::Loaded { updated_at: Some(1000) }, 2000);
    assert!(matches!(s.request(), CorporationRequest::Finish));
}

#[test]
fn stale_corporation_with_alliance_is_updated_after_its_alliance() {
    let s = CorporationSync::new(9);
    let s = s.step_at(CorporationEvent::Loaded { updated_at: Some(1000) }, 100000);
    assert!(matches!(s.request(), CorporationRequest::FetchCorporation { id: 9 }));
    let s = s.step_at(
        CorporationEvent::Fetched { name: "Corp".to_string(), alliance_id: Some(55) },
        999999,
    );
    assert!(matches!(s.request(), CorporationRequest::SyncAlliance { alliance_id: 55 }));
    // An event that does not answer the pending request changes nothing.
    let s = s.step_at(CorporationEvent::Stored, 0);
    assert!(matches!(s.request(), CorporationRequest::SyncAlliance { alliance_id: 55 }));
    let s = s.step_at(CorporationEvent::AllianceSynced, 0);
    match s.request() {
        CorporationRequest::Store {
            write: CorporationWrite::Update { id, name, alliance_id, updated_at },
        } => {
            assert_eq!(id, 9);
            assert_eq!(name, "Corp");
            assert_eq!(alliance_id, Some(55));
            assert_eq!(updated_at, 100000);
        }
        other => panic!("unexpected {:?}", other),
    }
    let s = s.step_at(CorporationEvent::Stored, 0);
    assert!(matches!(s.request(), CorporationRequest::Finish));
}

#[test]
fn unknown_corporation_without_alliance_is_inserted() {
    let s = CorporationSync::new(4);
    let s = s.step_at(CorporationEvent::Loaded { updated_at: None }, 12345);
    let s = s.step_at(CorporationEvent::Fetched { name: "New".to_string(), alliance_id: None }, 0);
    match s.request() {
        CorporationRequest::Store {
            write: CorporationWrite::Insert { id, name, alliance_id, updated_at },
        } => {
            assert_eq!((id, name.as_str(), alliance_id, updated_at), (4, "New", None, 12345));
        }
        other => panic!("unexpected {:?}", other),
    }
}

#[test]
fn clock_reading_step_refetches_an_old_corporation() {
    let s = CorporationSync::new(4);
    let s = s.step(CorporationEvent::Loaded { updated_at: Some(0) });
    assert!(matches!(s.request(), CorporationRequest::FetchCorporation { id: 4 }));
    let s = CorporationSync::new(4);
    let s = s.step(CorporationEvent::Loaded { updated_at: Some(i64::MAX - 86400) });
    assert!(matches!(s.request(), CorporationRequest::Finish));
}

#[test]
fn clock_reading_step_stamps_the_write_with_the_current_time() {
    let s = CorporationSync::new(4).step(CorporationEvent::Loaded { updated_at: None });
    let s = s.step(CorporationEvent::Fetched { name: "X".to_string(), alliance_id: None });
    match s.request() {
        CorporationRequest::Store { write: CorporationWrite::Insert { updated_at, .. } } => {
            assert!(updated_at > 1_600_000_000);
        }
        other => panic!("unexpected {:?}", other),
    }
}

#[test]
fn character_row_waits_for_its_corporation() {
    let mut s = CharacterSync::new(11);
    assert!(matches!(s.request(), CharacterRequest::FetchCharacter { id: 11 }));
    s = s.step(CharacterEvent::Fetched { name: "Eve".to_string(), corporation_id: 70 });
    assert!(matches!(s.request(), CharacterRequest::SyncCorporation { corporation_id: 70 }));
    s = s.step(CharacterEvent::Looked { exists: true });
    assert!(matches!(s.request(), CharacterRequest::SyncCorporation { corporation_id: 70 }));
    s = s.step(CharacterEvent::CorporationSynced);
    assert!(matches!(s.request(), CharacterRequest::LookupCharacter { id: 11 }));
    s = s.step(CharacterEvent::Looked { exists: false });
    match s.request() {
        CharacterRequest::Store { write: CharacterWrite::Insert { id, name, corporation_id } } => {
            assert_eq!((id, name.as_str(), corporation_id), (11, "Eve", 70));
        }
        other => panic!("unexpected {:?}", other),
    }
    s = s.step(CharacterEvent::Stored);
    assert!(matches!(s.request(), CharacterRequest::Finish));
}

#[test]
fn alliance_refresh_writes_the_esi_name() {
    let mut s = AllianceSync::new(99);
    assert!(matches!(s.request(), AllianceRequest::FetchAlliance { id: 99 }));
    s = s.step(AllianceEvent::Fetched { name: "Goons".to_string() });
    assert!(matches!(s.request(), AllianceRequest::LookupAlliance { id: 99 }));
    s = s.step(AllianceEvent::Looked { exists: true });
    match s.request() {
        AllianceRequest::Store { write: AllianceWrite::Update { id, name } } => {
            assert_eq!((id, name.as_str()), (99, "Goons"));
        }
        other => panic!("unexpected {:?}", other),
    }
    s = s.step(AllianceEvent::Stored);
    assert!(matches!(s.request(), AllianceRequest::Finish));
}
