//! Keeping the character, corporation and alliance tables in step with ESI:
//! which ESI resource to fetch, when a stored corporation is fresh enough,
//! and which row to insert or update. Each multi-step update is a machine
//! whose `request` names the next piece of outside work and whose `step`
//! takes its outcome.
use crate::clock::unix_timestamp;
use crate::decimal::{int_decimal, prefixed_decimal};
use vstd::prelude::*;

verus! {

/// Seconds for which a stored corporation counts as fresh (24 hours).
pub const CORPORATION_REFRESH_SECONDS: i64 = 86400;

/// ESI accepts at most this many character ids in one affiliation request.
pub const AFFILIATION_CHUNK_SIZE: usize = 1000;

/// Holds the database and ESI handles that the affiliation updates use.
pub struct AffiliationService<Db, Esi> {
    db: Db,
    esi_client: Esi,
}

impl<Db, Esi> AffiliationService<Db, Esi> {
    pub closed spec fn database(self) -> Db {
        self.db
    }

    pub closed spec fn esi(self) -> Esi {
        self.esi_client
    }

    pub fn new(database: Db, esi_client: Esi) -> (service: Self)
        ensures
            service.database() == database,
            service.esi() == esi_client,
    {
        AffiliationService { db: database, esi_client }
    }

    pub fn db(&self) -> (db: &Db)
        ensures
            *db == self.database(),
    {
        &self.db
    }

    pub fn esi_client(&self) -> (esi: &Esi)
        ensures
            *esi == self.esi(),
    {
        &self.esi_client
    }
}

/// The ESI path of a character.
pub fn character_path(id: i64) -> (path: String)
    ensures
        path@ == "/latest/characters/"@ + int_decimal(id as int),
{
    prefixed_decimal("/latest/characters/", id)
}

/// The ESI path of a corporation.
pub fn corporation_path(id: i64) -> (path: String)
    ensures
        path@ == "/latest/corporations/"@ + int_decimal(id as int),
{
    prefixed_decimal("/latest/corporations/", id)
}

/// The ESI path of an alliance.
pub fn alliance_path(id: i64) -> (path: String)
    ensures
        path@ == "/latest/alliances/"@ + int_decimal(id as int),
{
    prefixed_decimal("/latest/alliances/", id)
}

/// A write to the `character` table.
#[derive(Debug)]
pub enum CharacterWrite {
    /// A new row.
    Insert { id: i64, name: String, corporation_id: i64 },
    /// A new name and corporation for an existing row.
    Update { id: i64, name: String, corporation_id: i64 },
    /// A new corporation for an existing row, whose name stays.
    UpdateCorporation { id: i64, corporation_id: i64 },
}

/// A write to the `alliance` table.
#[derive(Debug)]
pub enum AllianceWrite {
    Insert { id: i64, name: String },
    Update { id: i64, name: String },
}

/// A write to the `corporation` table.
#[derive(Debug)]
pub enum CorporationWrite {
    Insert { id: i64, name: String, alliance_id: Option<i64>, updated_at: i64 },
    Update { id: i64, name: String, alliance_id: Option<i64>, updated_at: i64 },
}

/// The character row to write after a character has been fetched from ESI:
/// a new row when none is stored, else an update of name and corporation.
pub fn character_write(id: i64, name: String, corporation_id: i64, exists: bool) -> (w:
    CharacterWrite)
    ensures
        exists ==> w == (CharacterWrite::Update { id, name, corporation_id }),
        !exists ==> w == (CharacterWrite::Insert { id, name, corporation_id }),
{
    if exists {
        CharacterWrite::Update { id, name, corporation_id }
    } else {
        CharacterWrite::Insert { id, name, corporation_id }
    }
}

/// Refreshing one character from ESI: its corporation is refreshed before
/// the character row, which refers to it, is written.
#[derive(Debug)]
pub enum CharacterSync {
    /// Waiting for the character from ESI.
    AwaitCharacter { id: i64 },
    /// Waiting for the character's corporation to be refreshed.
    AwaitCorporation { id: i64, name: String, corporation_id: i64 },
    /// Waiting to learn whether the character has a row.
    AwaitExisting { id: i64, name: String, corporation_id: i64 },
    /// Waiting for the character row to be written.
    AwaitStore { write: CharacterWrite },
    Done,
}

/// The outside work a `CharacterSync` waits on.
#[derive(Debug)]
pub enum CharacterRequest {
    /// Fetch the character from ESI (at `character_path(id)`).
    FetchCharacter { id: i64 },
    /// Refresh this corporation (as `CorporationSync` does).
    SyncCorporation { corporation_id: i64 },
    /// Find out whether the character has a row.
    LookupCharacter { id: i64 },
    Store { write: CharacterWrite },
    Finish,
}

/// The outcome of a `CharacterRequest`.
#[derive(Debug)]
pub enum CharacterEvent {
    Fetched { name: String, corporation_id: i64 },
    CorporationSynced,
    Looked { exists: bool },
    Stored,
}

/// The request that a character refresh in state `s` waits on.
pub open spec fn character_request(s: CharacterSync) -> CharacterRequest {
    match s {
        CharacterSync::AwaitCharacter { id } => CharacterRequest::FetchCharacter { id },
        CharacterSync::AwaitCorporation { corporation_id, .. } => CharacterRequest::SyncCorporation {
            corporation_id,
        },
        CharacterSync::AwaitExisting { id, .. } => CharacterRequest::LookupCharacter { id },
        CharacterSync::AwaitStore { write } => CharacterRequest::Store { write },
        CharacterSync::Done => CharacterRequest::Finish,
    }
}

/// The state after event `e` in state `s`; an event that does not answer the
/// pending request leaves the state as it is.
pub open spec fn character_next(s: CharacterSync, e: CharacterEvent) -> CharacterSync {
    match s {
        CharacterSync::AwaitCharacter { id } => match e {
            CharacterEvent::Fetched { name, corporation_id } => CharacterSync::AwaitCorporation {
                id,
                name,
                corporation_id,
            },
            _ => s,
        },
        CharacterSync::AwaitCorporation { id, name, corporation_id } => match e {
            CharacterEvent::CorporationSynced => CharacterSync::AwaitExisting { id, name, corporation_id },
            _ => s,
        },
        CharacterSync::AwaitExisting { id, name, corporation_id } => match e {
            CharacterEvent::Looked { exists } => CharacterSync::AwaitStore {
                write: if exists {
                    CharacterWrite::Update { id, name, corporation_id }
                } else {
                    CharacterWrite::Insert { id, name, corporation_id }
                },
            },
            _ => s,
        },
        CharacterSync::AwaitStore { .. } => match e {
            CharacterEvent::Stored => CharacterSync::Done,
            _ => s,
        },
        CharacterSync::Done => s,
    }
}

impl CharacterSync {
    /// Starts the refresh of character `id` by fetching it from ESI.
    pub fn new(id: i64) -> (s: Self)
        ensures
            s == (CharacterSync::AwaitCharacter { id }),
    {
        CharacterSync::AwaitCharacter { id }
    }

    /// The outside work this refresh waits on.
    pub fn request(&self) -> (r: CharacterRequest)
        ensures
            r == character_request(*self),
    {
        match self {
            CharacterSync::AwaitCharacter { id } => CharacterRequest::FetchCharacter { id: *id },
            CharacterSync::AwaitCorporation { corporation_id, .. } => {
                CharacterRequest::SyncCorporation { corporation_id: *corporation_id }
            },
            CharacterSync::AwaitExisting { id, .. } => CharacterRequest::LookupCharacter { id: *id },
            CharacterSync::AwaitStore { write } => CharacterRequest::Store {
                write: copy_character_write(write),
            },
            CharacterSync::Done => CharacterRequest::Finish,
        }
    }

    /// Takes the outcome of the pending request.
    pub fn step(self, event: CharacterEvent) -> (next: Self)
        ensures
            next == character_next(self, event),
    {
        match self {
            CharacterSync::AwaitCharacter { id } => match event {
                CharacterEvent::Fetched { name, corporation_id } => CharacterSync::AwaitCorporation {
                    id,
                    name,
                    corporation_id,
                },
                _ => CharacterSync::AwaitCharacter { id },
            },
            CharacterSync::AwaitCorporation { id, name, corporation_id } => match event {
                CharacterEvent::CorporationSynced => CharacterSync::AwaitExisting {
                    id,
                    name,
                    corporation_id,
                },
                _ => CharacterSync::AwaitCorporation { id, name, corporation_id },
            },
            CharacterSync::AwaitExisting { id, name, corporation_id } => match event {
                CharacterEvent::Looked { exists } => CharacterSync::AwaitStore {
                    write: character_write(id, name, corporation_id, exists),
                },
                _ => CharacterSync::AwaitExisting { id, name, corporation_id },
            },
            CharacterSync::AwaitStore { write } => match event {
                CharacterEvent::Stored => CharacterSync::Done,
                _ => CharacterSync::AwaitStore { write },
            },
            CharacterSync::Done => CharacterSync::Done,
        }
    }
}

/// A character refresh asks for the refresh of the corporation ESI names
/// before it looks at the character row, and writes the row (an insert
/// exactly when none is stored) with the ESI name and corporation.
pub proof fn lemma_character_written_after_its_corporation(
    id: i64,
    name: String,
    corporation_id: i64,
    e: CharacterEvent,
    exists: bool,
)
    ensures
        ({
            let s1 = character_next(
                CharacterSync::AwaitCharacter { id },
                CharacterEvent::Fetched { name, corporation_id },
            );
            let s2 = character_next(s1, e);
            let s3 = character_next(s2, CharacterEvent::Looked { exists });
            &&& character_request(s1) == (CharacterRequest::SyncCorporation { corporation_id })
            &&& !(e is CorporationSynced) ==> s2 == s1
            &&& e is CorporationSynced ==> character_request(s3) == (CharacterRequest::Store {
                write: if exists {
                    CharacterWrite::Update { id, name, corporation_id }
                } else {
                    CharacterWrite::Insert { id, name, corporation_id }
                },
            })
        }),
{
}

/// The alliance row to write after an alliance has been fetched from ESI.
pub fn alliance_write(id: i64, name: String, exists: bool) -> (w: AllianceWrite)
    ensures
        exists ==> w == (AllianceWrite::Update { id, name }),
        !exists ==> w == (AllianceWrite::Insert { id, name }),
{
    if exists {
        AllianceWrite::Update { id, name }
    } else {
        AllianceWrite::Insert { id, name }
    }
}

fn copy_alliance_write(w: &AllianceWrite) -> (r: AllianceWrite)
    ensures
        r == *w,
{
    match w {
        AllianceWrite::Insert { id, name } => AllianceWrite::Insert { id: *id, name: name.clone() },
        AllianceWrite::Update { id, name } => AllianceWrite::Update { id: *id, name: name.clone() },
    }
}

/// Refreshing one alliance from ESI.
#[derive(Debug)]
pub enum AllianceSync {
    /// Waiting for the alliance from ESI.
    AwaitAlliance { id: i64 },
    /// Waiting to learn whether the alliance has a row.
    AwaitExisting { id: i64, name: String },
    /// Waiting for the alliance row to be written.
    AwaitStore { write: AllianceWrite },
    Done,
}

/// The outside work an `AllianceSync` waits on.
#[derive(Debug)]
pub enum AllianceRequest {
    /// Fetch the alliance from ESI (at `alliance_path(id)`).
    FetchAlliance { id: i64 },
    /// Find out whether the alliance has a row.
    LookupAlliance { id: i64 },
    Store { write: AllianceWrite },
    Finish,
}

/// The outcome of an `AllianceRequest`.
#[derive(Debug)]
pub enum AllianceEvent {
    Fetched { name: String },
    Looked { exists: bool },
    Stored,
}

pub open spec fn alliance_request(s: AllianceSync) -> AllianceRequest {
    match s {
        AllianceSync::AwaitAlliance { id } => AllianceRequest::FetchAlliance { id },
        AllianceSync::AwaitExisting { id, .. } => AllianceRequest::LookupAlliance { id },
        AllianceSync::AwaitStore { write } => AllianceRequest::Store { write },
        AllianceSync::Done => AllianceRequest::Finish,
    }
}

/// The state after event `e` in state `s`: the alliance row written is an
/// insert exactly when none is stored, with the ESI name. An event that does
/// not answer the pending request leaves the state as it is.
pub open spec fn alliance_next(s: AllianceSync, e: AllianceEvent) -> AllianceSync {
    match s {
        AllianceSync::AwaitAlliance { id } => match e {
            AllianceEvent::Fetched { name } => AllianceSync::AwaitExisting { id, name },
            _ => s,
        },
        AllianceSync::AwaitExisting { id, name } => match e {
            AllianceEvent::Looked { exists } => AllianceSync::AwaitStore {
                write: if exists {
                    AllianceWrite::Update { id, name }
                } else {
                    AllianceWrite::Insert { id, name }
                },
            },
            _ => s,
        },
        AllianceSync::AwaitStore { .. } => match e {
            AllianceEvent::Stored => AllianceSync::Done,
            _ => s,
        },
        AllianceSync::Done => s,
    }
}

/// An alliance refresh writes the alliance under the name ESI gave: it
/// inserts the row exactly when none is stored and updates it otherwise.
pub proof fn lemma_alliance_insert_exactly_when_missing(id: i64, name: String, exists: bool)
    ensures
        ({
            let s = alliance_next(
                alliance_next(AllianceSync::AwaitAlliance { id }, AllianceEvent::Fetched { name }),
                AllianceEvent::Looked { exists },
            );
            &&& alliance_request(s) matches AllianceRequest::Store { write }
            &&& !exists ==> alliance_request(s) == (AllianceRequest::Store {
                write: AllianceWrite::Insert { id, name },
            })
            &&& exists ==> alliance_request(s) == (AllianceRequest::Store {
                write: AllianceWrite::Update { id, name },
            })
        }),
{
}

impl AllianceSync {
    /// Starts the refresh of alliance `id` by fetching it from ESI.
    pub fn new(id: i64) -> (s: Self)
        ensures
            s == (AllianceSync::AwaitAlliance { id }),
    {
        AllianceSync::AwaitAlliance { id }
    }

    /// The outside work this refresh waits on.
    pub fn request(&self) -> (r: AllianceRequest)
        ensures
            r == alliance_request(*self),
    {
        match self {
            AllianceSync::AwaitAlliance { id } => AllianceRequest::FetchAlliance { id: *id },
            AllianceSync::AwaitExisting { id, .. } => AllianceRequest::LookupAlliance { id: *id },
            AllianceSync::AwaitStore { write } => AllianceRequest::Store {
                write: copy_alliance_write(write),
            },
            AllianceSync::Done => AllianceRequest::Finish,
        }
    }

    /// Takes the outcome of the pending request.
    pub fn step(self, event: AllianceEvent) -> (next: Self)
        ensures
            next == alliance_next(self, event),
    {
        match self {
            AllianceSync::AwaitAlliance { id } => match event {
                AllianceEvent::Fetched { name } => AllianceSync::AwaitExisting { id, name },
                _ => AllianceSync::AwaitAlliance { id },
            },
            AllianceSync::AwaitExisting { id, name } => match event {
                AllianceEvent::Looked { exists } => AllianceSync::AwaitStore {
                    write: alliance_write(id, name, exists),
                },
                _ => AllianceSync::AwaitExisting { id, name },
            },
            AllianceSync::AwaitStore { write } => match event {
                AllianceEvent::Stored => AllianceSync::Done,
                _ => AllianceSync::AwaitStore { write },
            },
            AllianceSync::Done => AllianceSync::Done,
        }
    }
}

fn copy_corporation_write(w: &CorporationWrite) -> (r: CorporationWrite)
    ensures
        r == *w,
{
    match w {
        CorporationWrite::Insert { id, name, alliance_id, updated_at } => CorporationWrite::Insert {
            id: *id,
            name: name.clone(),
            alliance_id: *alliance_id,
            updated_at: *updated_at,
        },
        CorporationWrite::Update { id, name, alliance_id, updated_at } => CorporationWrite::Update {
            id: *id,
            name: name.clone(),
            alliance_id: *alliance_id,
            updated_at: *updated_at,
        },
    }
}

pub(crate) fn copy_character_write(w: &CharacterWrite) -> (r: CharacterWrite)
    ensures
        r == *w,
{
    match w {
        CharacterWrite::Insert { id, name, corporation_id } => CharacterWrite::Insert {
            id: *id,
            name: name.clone(),
            corporation_id: *corporation_id,
        },
        CharacterWrite::Update { id, name, corporation_id } => CharacterWrite::Update {
            id: *id,
            name: name.clone(),
            corporation_id: *corporation_id,
        },
        CharacterWrite::UpdateCorporation { id, corporation_id } => {
            CharacterWrite::UpdateCorporation { id: *id, corporation_id: *corporation_id }
        },
    }
}

/// A stored corporation updated at `updated_at` needs no refresh at `now`
/// while less than a day has passed.
pub open spec fn corporation_is_fresh(updated_at: i64, now: i64) -> bool {
    updated_at + CORPORATION_REFRESH_SECONDS > now
}

/// Whether a stored corporation is still fresh at `now`.
pub fn corporation_fresh(updated_at: i64, now: i64) -> (r: bool)
    requires
        updated_at <= i64::MAX - CORPORATION_REFRESH_SECONDS,
    ensures
        r == corporation_is_fresh(updated_at, now),
        r <==> (now as int) - (updated_at as int) < 86400,
{
    updated_at + CORPORATION_REFRESH_SECONDS > now
}

/// The corporation row to write: an insert for a corporation not stored
/// before, else an update; either way stamped with `now`.
pub open spec fn corporation_write_for(
    id: i64,
    known: bool,
    name: String,
    alliance_id: Option<i64>,
    now: i64,
) -> CorporationWrite {
    if known {
        CorporationWrite::Update { id, name, alliance_id, updated_at: now }
    } else {
        CorporationWrite::Insert { id, name, alliance_id, updated_at: now }
    }
}

/// Refreshing one corporation from ESI, with its alliance.
#[derive(Debug)]
pub enum CorporationSync {
    /// Waiting for the stored row of the corporation, if any.
    AwaitStored { id: i64 },
    /// Waiting for the corporation from ESI.
    AwaitCorporation { id: i64, known: bool, now: i64 },
    /// Waiting for the corporation's alliance to be refreshed.
    AwaitAlliance { write: CorporationWrite, alliance_id: i64 },
    /// Waiting for the corporation row to be written.
    AwaitStore { write: CorporationWrite },
    Done,
}

/// The outside work a `CorporationSync` waits on.
#[derive(Debug)]
pub enum CorporationRequest {
    /// Read the `updated_at` of the stored corporation row.
    LoadCorporation { id: i64 },
    /// Fetch the corporation from ESI (at `corporation_path(id)`).
    FetchCorporation { id: i64 },
    /// Refresh the alliance (as `AllianceWrite` describes).
    SyncAlliance { alliance_id: i64 },
    Store { write: CorporationWrite },
    Finish,
}

/// The outcome of a `CorporationRequest`.
#[derive(Debug)]
pub enum CorporationEvent {
    Loaded { updated_at: Option<i64> },
    Fetched { name: String, alliance_id: Option<i64> },
    AllianceSynced,
    Stored,
}

/// The request that a corporation refresh in state `s` waits on.
pub open spec fn corporation_request(s: CorporationSync) -> CorporationRequest {
    match s {
        CorporationSync::AwaitStored { id } => CorporationRequest::LoadCorporation { id },
        CorporationSync::AwaitCorporation { id, .. } => CorporationRequest::FetchCorporation { id },
        CorporationSync::AwaitAlliance { alliance_id, .. } => CorporationRequest::SyncAlliance {
            alliance_id,
        },
        CorporationSync::AwaitStore { write } => CorporationRequest::Store { write },
        CorporationSync::Done => CorporationRequest::Finish,
    }
}

/// The state after event `e` in state `s`, the clock reading `now`. An event
/// that does not answer the pending request leaves the state as it is.
pub open spec fn corporation_next(s: CorporationSync, e: CorporationEvent, now: i64) -> CorporationSync {
    match s {
        CorporationSync::AwaitStored { id } => match e {
            CorporationEvent::Loaded { updated_at } => match updated_at {
                Some(u) => if corporation_is_fresh(u, now) {
                    CorporationSync::Done
                } else {
                    CorporationSync::AwaitCorporation { id, known: true, now }
                },
                None => CorporationSync::AwaitCorporation { id, known: false, now },
            },
            _ => s,
        },
        CorporationSync::AwaitCorporation { id, known, now: stamp } => match e {
            CorporationEvent::Fetched { name, alliance_id } => {
                let write = corporation_write_for(id, known, name, alliance_id, stamp);
                match alliance_id {
                    Some(a) => CorporationSync::AwaitAlliance { write, alliance_id: a },
                    None => CorporationSync::AwaitStore { write },
                }
            },
            _ => s,
        },
        CorporationSync::AwaitAlliance { write, .. } => match e {
            CorporationEvent::AllianceSynced => CorporationSync::AwaitStore { write },
            _ => s,
        },
        CorporationSync::AwaitStore { .. } => match e {
            CorporationEvent::Stored => CorporationSync::Done,
            _ => s,
        },
        CorporationSync::Done => s,
    }
}

/// The event carries a stored timestamp whose freshness test cannot overflow.
pub open spec fn corporation_event_in_range(e: CorporationEvent) -> bool {
    e matches CorporationEvent::Loaded { updated_at: Some(u) } ==> u <= i64::MAX
        - CORPORATION_REFRESH_SECONDS
}

impl CorporationSync {
    /// Starts the refresh of corporation `id` by reading its stored row.
    pub fn new(id: i64) -> (s: Self)
        ensures
            s == (CorporationSync::AwaitStored { id }),
    {
        CorporationSync::AwaitStored { id }
    }

    /// The outside work this refresh waits on.
    pub fn request(&self) -> (r: CorporationRequest)
        ensures
            r == corporation_request(*self),
    {
        match self {
            CorporationSync::AwaitStored { id } => CorporationRequest::LoadCorporation { id: *id },
            CorporationSync::AwaitCorporation { id, .. } => CorporationRequest::FetchCorporation {
                id: *id,
            },
            CorporationSync::AwaitAlliance { alliance_id, .. } => {
                CorporationRequest::SyncAlliance { alliance_id: *alliance_id }
            },
            CorporationSync::AwaitStore { write } => CorporationRequest::Store {
                write: copy_corporation_write(write),
            },
            CorporationSync::Done => CorporationRequest::Finish,
        }
    }

    /// Takes the outcome of the pending request, the clock reading `now`.
    pub fn step_at(self, event: CorporationEvent, now: i64) -> (next: Self)
        requires
            corporation_event_in_range(event),
        ensures
            next == corporation_next(self, event, now),
    {
        match self {
            CorporationSync::AwaitStored { id } => match event {
                CorporationEvent::Loaded { updated_at } => match updated_at {
                    Some(u) => {
                        if corporation_fresh(u, now) {
                            CorporationSync::Done
                        } else {
                            CorporationSync::AwaitCorporation { id, known: true, now }
                        }
                    },
                    None => CorporationSync::AwaitCorporation { id, known: false, now },
                },
                _ => CorporationSync::AwaitStored { id },
            },
            CorporationSync::AwaitCorporation { id, known, now: stamp } => match event {
                CorporationEvent::Fetched { name, alliance_id } => {
                    let write = if known {
                        CorporationWrite::Update { id, name, alliance_id, updated_at: stamp }
                    } else {
                        CorporationWrite::Insert { id, name, alliance_id, updated_at: stamp }
                    };
                    match alliance_id {
                        Some(a) => CorporationSync::AwaitAlliance { write, alliance_id: a },
                        None => CorporationSync::AwaitStore { write },
                    }
                },
                _ => CorporationSync::AwaitCorporation { id, known, now: stamp },
            },
            CorporationSync::AwaitAlliance { write, alliance_id } => match event {
                CorporationEvent::AllianceSynced => CorporationSync::AwaitStore { write },
                _ => CorporationSync::AwaitAlliance { write, alliance_id },
            },
            CorporationSync::AwaitStore { write } => match event {
                CorporationEvent::Stored => CorporationSync::Done,
                _ => CorporationSync::AwaitStore { write },
            },
            CorporationSync::Done => CorporationSync::Done,
        }
    }

    /// Takes the outcome of the pending request; the freshness test reads the
    /// clock once the stored row is in.
    pub fn step(self, event: CorporationEvent) -> (next: Self)
        requires
            corporation_event_in_range(event),
        ensures
            exists|now: i64| next == #[trigger] corporation_next(self, event, now),
    {
        let needs_clock = matches!(self, CorporationSync::AwaitStored { .. }) && matches!(
            event,
            CorporationEvent::Loaded { .. }
        );
        let now = if needs_clock {
            unix_timestamp()
        } else {
            0
        };
        let ghost s = self;
        let ghost e = event;
        let next = self.step_at(event, now);
        assert(next == corporation_next(s, e, now));
        next
    }
}

/// A corporation stored less than a day ago is not fetched again: its
/// refresh ends as soon as the stored row is read; an older one, or one not
/// stored, is fetched from ESI.
pub proof fn lemma_fresh_corporation_not_refetched(id: i64, updated_at: Option<i64>, now: i64)
    ensures
        (updated_at matches Some(u) && (now as int) - (u as int) < 86400) ==> corporation_next(
            CorporationSync::AwaitStored { id },
            CorporationEvent::Loaded { updated_at },
            now,
        ) == CorporationSync::Done,
        !(updated_at matches Some(u) && (now as int) - (u as int) < 86400) ==> corporation_request(
            corporation_next(
                CorporationSync::AwaitStored { id },
                CorporationEvent::Loaded { updated_at },
                now,
            ),
        ) == (CorporationRequest::FetchCorporation { id }),
{
}

/// The alliance of a corporation is refreshed before the corporation row is
/// written, exactly when ESI names one, and the row written is an insert
/// exactly when no row was stored before, with the ESI name and alliance and
/// the clock reading of the freshness test.
pub proof fn lemma_corporation_write_after_alliance(
    id: i64,
    known: bool,
    now: i64,
    name: String,
    alliance_id: Option<i64>,
    later: i64,
)
    ensures
        ({
            let s = corporation_next(
                CorporationSync::AwaitCorporation { id, known, now },
                CorporationEvent::Fetched { name, alliance_id },
                later,
            );
            let w = if known {
                CorporationWrite::Update { id, name, alliance_id, updated_at: now }
            } else {
                CorporationWrite::Insert { id, name, alliance_id, updated_at: now }
            };
            &&& alliance_id matches Some(a) ==> corporation_request(s)
                == (CorporationRequest::SyncAlliance { alliance_id: a }) && corporation_request(
                corporation_next(s, CorporationEvent::AllianceSynced, later),
            ) == (CorporationRequest::Store { write: w })
            &&& alliance_id is None ==> corporation_request(s) == (CorporationRequest::Store {
                write: w,
            })
        }),
{
}

} // verus!
