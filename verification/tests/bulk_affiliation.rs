use backend::affiliation::CharacterWrite;
use backend::bulk_affiliation::{
    affiliation_chunks, bulk_character_write, BulkAffiliationSync, BulkEvent, BulkRequest,
    CharacterCorporation,
};
use std::collections::HashMap;

#[test]
fn chunks_of_at_most_a_thousand() {
    let ids: Vec<i64> = (1..=2500).collect();
    let chunks = affiliation_chunks(&ids);
    assert_eq!(chunks.len(), 3);
    assert_eq!(chunks[0].len(), 1000);
    assert_eq!(chunks[1].len(), 1000);
    assert_eq!(chunks[2].len(), 500);
    assert_eq!(chunks.concat(), ids);
    assert_eq!(affiliation_chunks(&ids[..1000]).len(), 1);
    assert_eq!(affiliation_chunks(&ids[..1001]).len(), 2);
    assert!(affiliation_chunks(&[]).is_empty());
    assert_eq!(affiliation_chunks(&[7]), vec![vec![7]]);
}

fn aff(character_id: i64, corporation_id: i64) -> CharacterCorporation {
    CharacterCorporation { character_id, corporation_id }
}

#[test]
fn new_row_without_esi_name_gets_placeholder() {
    match bulk_character_write(aff(2112, 98), None, false) {
        CharacterWrite::Insert { id, name, corporation_id } => {
            assert_eq!((id, name.as_str(), corporation_id), (2112, "Character 2112", 98));
        }
        other => panic!("unexpected {:?}", other),
    }
}

#[test]
fn new_row_with_esi_name_uses_it() {
    match bulk_character_write(aff(2112, 98), Some("Bob".to_string()), false) {
        CharacterWrite::Insert { name, .. } => assert_eq!(name, "Bob"),
        other => panic!("unexpected {:?}", other),
    }
}

#[test]
fn stored_row_keeps_name_without_esi_name() {
    assert!(matches!(
        bulk_character_write(aff(2112, 98), None, true),
        CharacterWrite::UpdateCorporation { id: 2112, corporation_id: 98 }
    ));
    match bulk_character_write(aff(2112, 98), Some("Bob".to_string()), true) {
        CharacterWrite::Update { id, name, corporation_id } => {
            assert_eq!((id, name.as_str(), corporation_id), (2112, "Bob", 98));
        }
        other => panic!("unexpected {:?}", other),
    }
}

#[test]
fn no_ids_means_nothing_to_do() {
    let s = BulkAffiliationSync::new(&[]);
    assert!(matches!(s.request(), BulkRequest::Finish));
}

#[test]
fn corporations_are_synced_once_before_characters_are_written() {
    let mut s = BulkAffiliationSync::new(&[1, 2, 3]);
    match s.request() {
        BulkRequest::FetchAffiliations { ids } => assert_eq!(ids, vec![1, 2, 3]),
        other => panic!("unexpected {:?}", other),
    }
    s = s.step(BulkEvent::Affiliations {
        affiliations: vec![aff(1, 50), aff(2, 60), aff(3, 50)],
    });
    assert!(matches!(s.request(), BulkRequest::SyncCorporation { corporation_id: 50 }));
    s = s.step(BulkEvent::CorporationSynced);
    assert!(matches!(s.request(), BulkRequest::SyncCorporation { corporation_id: 60 }));
    s = s.step(BulkEvent::CorporationSynced);
    match s.request() {
        BulkRequest::FetchNames { ids } => assert_eq!(ids, vec![1, 2, 3]),
        other => panic!("unexpected {:?}", other),
    }
    let mut names = HashMap::new();
    names.insert(1, "One".to_string());
    names.insert(2, "Two".to_string());
    s = s.step(BulkEvent::Names { names: Some(names) });
    assert!(matches!(s.request(), BulkRequest::LookupCharacter { character_id: 1 }));
    s = s.step(BulkEvent::Looked { exists: false });
    match s.request() {
        BulkRequest::Store { write: CharacterWrite::Insert { id, name, corporation_id } } => {
            assert_eq!((id, name.as_str(), corporation_id), (1, "One", 50));
        }
        other => panic!("unexpected {:?}", other),
    }
    s = s.step(BulkEvent::Stored);
    assert!(matches!(s.request(), BulkRequest::LookupCharacter { character_id: 2 }));
    s = s.step(BulkEvent::Looked { exists: true });
    assert!(matches!(
        s.request(),
        BulkRequest::Store { write: CharacterWrite::Update { id: 2, corporation_id: 60, .. } }
    ));
    s = s.step(BulkEvent::Stored);
    s = s.step(BulkEvent::Looked { exists: true });
    assert!(matches!(
        s.request(),
        BulkRequest::Store { write: CharacterWrite::UpdateCorporation { id: 3, corporation_id: 50 } }
    ));
    s = s.step(BulkEvent::Stored);
    assert!(matches!(s.request(), BulkRequest::Finish));
}

#[test]
fn failed_name_lookup_means_placeholders_for_new_rows() {
    let mut s = BulkAffiliationSync::new(&[8]);
    s = s.step(BulkEvent::Affiliations { affiliations: vec![aff(8, 70)] });
    s = s.step(BulkEvent::CorporationSynced);
    s = s.step(BulkEvent::Names { names: None });
    s = s.step(BulkEvent::Looked { exists: false });
    match s.request() {
        BulkRequest::Store { write: CharacterWrite::Insert { name, .. } } => {
            assert_eq!(name, "Character 8")
        }
        other => panic!("unexpected {:?}", other),
    }
}

#[test]
fn empty_affiliation_answer_moves_to_the_next_chunk() {
    let ids: Vec<i64> = (1..=1001).collect();
    let mut s = BulkAffiliationSync::new(&ids);
    s = s.step(BulkEvent::Affiliations { affiliations: vec![] });
    assert!(matches!(s.request(), BulkRequest::FetchNames { .. }));
    s = s.step(BulkEvent::Names { names: None });
    match s.request() {
        BulkRequest::FetchAffiliations { ids } => assert_eq!(ids, vec![1001]),
        other => panic!("unexpected {:?}", other),
    }
    // Out-of-turn events leave the refresh waiting.
    s = s.step(BulkEvent::Stored);
    assert!(matches!(s.request(), BulkRequest::FetchAffiliations { .. }));
}
