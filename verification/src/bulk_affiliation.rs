//! Bulk refresh of the corporation of many characters: ids go to ESI in
//! chunks, the corporations they name are refreshed first (the character
//! rows refer to them), then each character row is written.
use crate::affiliation::{copy_character_write, CharacterWrite, AFFILIATION_CHUNK_SIZE};
use crate::decimal::{int_decimal, prefixed_decimal};
use std::collections::HashMap;
use std::collections::HashSet;
use vstd::prelude::*;

verus! {

broadcast use vstd::std_specs::hash::group_hash_axioms;

/// One entry of ESI's bulk affiliation answer.
#[derive(Debug, Clone, Copy)]
pub struct CharacterCorporation {
    pub character_id: i64,
    pub corporation_id: i64,
}

pub open spec fn min_int(a: int, b: int) -> int {
    if a <= b {
        a
    } else {
        b
    }
}

/// The number of chunks of at most `AFFILIATION_CHUNK_SIZE` ids that `n` ids
/// make.
pub open spec fn chunk_count(n: int) -> int {
    (n + 999) / 1000
}

/// Chunk `k` of `ids`: the ids from position `1000 k` on, at most 1000 of them.
pub open spec fn chunk_of(ids: Seq<i64>, k: int) -> Seq<i64> {
    ids.subrange(1000 * k, min_int(1000 * k + 1000, ids.len() as int))
}

fn copy_range(ids: &[i64], start: usize, end: usize) -> (out: Vec<i64>)
    requires
        start <= end <= ids@.len(),
    ensures
        out@ == ids@.subrange(start as int, end as int),
{
    let mut out: Vec<i64> = Vec::new();
    let mut i = start;
    while i < end
        invariant
            start <= i <= end,
            end <= ids@.len(),
            out@ == ids@.subrange(start as int, i as int),
        decreases end - i,
    {
        out.push(ids[i]);
        i = i + 1;
        assert(out@ =~= ids@.subrange(start as int, i as int));
    }
    out
}

fn copy_ids(ids: &Vec<i64>) -> (out: Vec<i64>)
    ensures
        out@ == ids@,
{
    let out = copy_range(ids.as_slice(), 0, ids.len());
    assert(ids@.subrange(0, ids@.len() as int) =~= ids@);
    out
}

/// Splits `ids` into the chunks in which ESI takes them, in order, as
/// `ids.chunks(AFFILIATION_CHUNK_SIZE)` does.
pub fn affiliation_chunks(ids: &[i64]) -> (chunks: Vec<Vec<i64>>)
    ensures
        chunks@.len() == chunk_count(ids@.len() as int),
        forall|k: int| 0 <= k < chunks@.len() ==> (#[trigger] chunks@[k])@ == chunk_of(ids@, k),
{
    let n = ids.len();
    let mut chunks: Vec<Vec<i64>> = Vec::new();
    let mut start: usize = 0;
    while start < n
        invariant
            n == ids@.len(),
            start <= n,
            start <= 1000 * chunks@.len(),
            start < n ==> start == 1000 * chunks@.len(),
            chunks@.len() > 0 ==> 1000 * (chunks@.len() - 1) < start,
            n == 0 ==> chunks@.len() == 0,
            forall|k: int| 0 <= k < chunks@.len() ==> (#[trigger] chunks@[k])@ == chunk_of(ids@, k),
        decreases n - start,
    {
        let end = if n - start > AFFILIATION_CHUNK_SIZE {
            start + AFFILIATION_CHUNK_SIZE
        } else {
            n
        };
        let chunk = copy_range(ids, start, end);
        let ghost k = chunks@.len() as int;
        chunks.push(chunk);
        assert(chunks@[k]@ == chunk_of(ids@, k));
        start = end;
    }
    proof {
        let c = chunks@.len() as int;
        assert(chunk_count(n as int) == c) by (nonlinear_arith)
            requires
                c >= 0,
                n >= 0,
                n == 0 ==> c == 0,
                n > 0 ==> 1000 * (c - 1) < n <= 1000 * c,
        ;
    }
    chunks
}

/// The chunks cover the ids in order: id `i` is entry `i % 1000` of chunk
/// `i / 1000`, and every chunk holds between 1 and 1000 ids.
pub proof fn lemma_chunks_partition(ids: Seq<i64>, i: int, k: int)
    requires
        0 <= i < ids.len(),
        0 <= k < chunk_count(ids.len() as int),
    ensures
        0 <= i / 1000 < chunk_count(ids.len() as int),
        chunk_of(ids, i / 1000)[i % 1000] == ids[i],
        1 <= chunk_of(ids, k).len() <= 1000,
{
    let n = ids.len() as int;
    assert(1000 * (i / 1000) + i % 1000 == i && 0 <= i % 1000 < 1000) by (nonlinear_arith)
        requires
            0 <= i,
    ;
    assert(0 <= i / 1000 && i / 1000 < (n + 999) / 1000) by (nonlinear_arith)
        requires
            0 <= i < n,
    ;
    assert(1000 * k < n) by (nonlinear_arith)
        requires
            0 <= k < (n + 999) / 1000,
    ;
}

/// The corporations that `affs` names, each once, in order of first mention.
pub open spec fn distinct_corporations(affs: Seq<CharacterCorporation>) -> Seq<i64>
    decreases affs.len(),
{
    if affs.len() == 0 {
        Seq::empty()
    } else {
        let before = distinct_corporations(affs.drop_last());
        let c = affs.last().corporation_id;
        if before.contains(c) {
            before
        } else {
            before.push(c)
        }
    }
}

/// The set of corporations that `affs` names.
pub open spec fn named_corporations(affs: Seq<CharacterCorporation>) -> Set<i64> {
    Set::new(|c: i64| exists|i: int| 0 <= i < affs.len() && (#[trigger] affs[i]).corporation_id == c)
}

proof fn lemma_push_contains(s: Seq<i64>, x: i64, c: i64)
    ensures
        s.push(x).contains(c) <==> (s.contains(c) || c == x),
{
    if s.push(x).contains(c) {
        let j = choose|j: int| 0 <= j < s.push(x).len() && s.push(x)[j] == c;
        if j < s.len() {
            assert(s[j] == c);
        }
    }
    if s.contains(c) {
        let j = choose|j: int| 0 <= j < s.len() && s[j] == c;
        assert(s.push(x)[j] == c);
    }
    if c == x {
        assert(s.push(x)[s.len() as int] == c);
    }
}

proof fn lemma_named_push(t: Seq<CharacterCorporation>, a: CharacterCorporation, c: i64)
    ensures
        named_corporations(t.push(a)).contains(c) <==> (named_corporations(t).contains(c) || c
            == a.corporation_id),
{
    let affs = t.push(a);
    if named_corporations(affs).contains(c) {
        let i = choose|i: int| 0 <= i < affs.len() && (#[trigger] affs[i]).corporation_id == c;
        if i < t.len() {
            assert(t[i] == affs[i]);
        }
    }
    if named_corporations(t).contains(c) {
        let i = choose|i: int| 0 <= i < t.len() && (#[trigger] t[i]).corporation_id == c;
        assert(affs[i] == t[i]);
    }
    if c == a.corporation_id {
        assert(affs[t.len() as int] == a);
    }
}

/// `distinct_corporations` lists exactly the named corporations, each once.
pub proof fn lemma_distinct_corporations(affs: Seq<CharacterCorporation>)
    ensures
        distinct_corporations(affs).no_duplicates(),
        forall|c: i64| distinct_corporations(affs).contains(c) <==> named_corporations(affs).contains(c),
    decreases affs.len(),
{
    if affs.len() == 0 {
        assert forall|c: i64| !named_corporations(affs).contains(c) by {}
    } else {
        let t = affs.drop_last();
        let a = affs.last();
        assert(t.push(a) =~= affs);
        lemma_distinct_corporations(t);
        let before = distinct_corporations(t);
        assert forall|c: i64|
            distinct_corporations(affs).contains(c) <==> named_corporations(affs).contains(c) by {
            lemma_named_push(t, a, c);
            lemma_push_contains(before, a.corporation_id, c);
        }
        if !before.contains(a.corporation_id) {
            let p = before.push(a.corporation_id);
            assert forall|i: int, j: int| 0 <= i < j < p.len() implies p[i] != p[j] by {
                if j == before.len() {
                    assert(before[i] == p[i]);
                }
            }
        }
    }
}

fn distinct_corporations_of(affs: &Vec<CharacterCorporation>) -> (out: Vec<i64>)
    ensures
        out@ == distinct_corporations(affs@),
{
    let mut out: Vec<i64> = Vec::new();
    let mut seen: HashSet<i64> = HashSet::new();
    let n = affs.len();
    let mut i: usize = 0;
    while i < n
        invariant
            n == affs@.len(),
            i <= n,
            out@ == distinct_corporations(affs@.take(i as int)),
            forall|c: i64| seen@.contains(c) <==> out@.contains(c),
        decreases n - i,
    {
        let c = affs[i].corporation_id;
        assert(affs@.take(i + 1).drop_last() =~= affs@.take(i as int));
        assert(affs@.take(i + 1).last() == affs@[i as int]);
        let ghost old_out = out@;
        if seen.insert(c) {
            out.push(c);
            assert forall|d: i64| seen@.contains(d) <==> out@.contains(d) by {
                lemma_push_contains(old_out, c, d);
            }
        }
        i = i + 1;
    }
    assert(affs@.take(n as int) =~= affs@);
    out
}

/// The name ESI gave for a character, if it gave one.
pub open spec fn resolved_name(names: Map<i64, String>, id: i64) -> Option<String> {
    if names.contains_key(id) {
        Some(names[id])
    } else {
        None
    }
}

fn lookup_name(names: &HashMap<i64, String>, id: i64) -> (r: Option<String>)
    ensures
        r == resolved_name(names@, id),
{
    match names.get(&id) {
        Some(name) => Some(name.clone()),
        None => None,
    }
}

/// The row written for one character of a bulk refresh. A character not
/// stored yet is inserted, under its ESI name or, where ESI gave none, under
/// the placeholder "Character <id>". A stored one gets its new corporation,
/// and its ESI name where ESI gave one; else it keeps its name.
pub open spec fn bulk_write_ok(
    aff: CharacterCorporation,
    resolved: Option<String>,
    exists: bool,
    w: CharacterWrite,
) -> bool {
    if !exists {
        &&& w matches CharacterWrite::Insert { id, name, corporation_id }
        &&& id == aff.character_id
        &&& corporation_id == aff.corporation_id
        &&& match resolved {
            Some(n) => name == n,
            None => name@ == "Character "@ + int_decimal(aff.character_id as int),
        }
    } else {
        match resolved {
            Some(n) => w == (CharacterWrite::Update {
                id: aff.character_id,
                name: n,
                corporation_id: aff.corporation_id,
            }),
            None => w == (CharacterWrite::UpdateCorporation {
                id: aff.character_id,
                corporation_id: aff.corporation_id,
            }),
        }
    }
}

/// The row to write for one character of a bulk refresh, given the name ESI
/// resolved for it and whether a row is stored.
pub fn bulk_character_write(aff: CharacterCorporation, resolved: Option<String>, exists: bool) -> (w:
    CharacterWrite)
    ensures
        bulk_write_ok(aff, resolved, exists, w),
{
    if !exists {
        let name = match resolved {
            Some(n) => n,
            None => prefixed_decimal("Character ", aff.character_id),
        };
        CharacterWrite::Insert {
            id: aff.character_id,
            name,
            corporation_id: aff.corporation_id,
        }
    } else {
        match resolved {
            Some(n) => CharacterWrite::Update {
                id: aff.character_id,
                name: n,
                corporation_id: aff.corporation_id,
            },
            None => CharacterWrite::UpdateCorporation {
                id: aff.character_id,
                corporation_id: aff.corporation_id,
            },
        }
    }
}

/// Where a bulk refresh stands within the current chunk.
#[derive(Debug)]
pub enum BulkPhase {
    /// Waiting for ESI's affiliations of the chunk.
    FetchAffiliations,
    /// Refreshing the corporations that the chunk names, `next` being the
    /// one waited on.
    SyncCorporations {
        affiliations: Vec<CharacterCorporation>,
        corporations: Vec<i64>,
        next: usize,
    },
    /// Waiting for the names of the chunk's characters.
    FetchNames { affiliations: Vec<CharacterCorporation> },
    /// Waiting to learn whether character `next` is stored.
    LookupCharacter {
        affiliations: Vec<CharacterCorporation>,
        names: HashMap<i64, String>,
        next: usize,
    },
    /// Waiting for the row of character `next` to be written.
    StoreCharacter {
        affiliations: Vec<CharacterCorporation>,
        names: HashMap<i64, String>,
        next: usize,
        write: CharacterWrite,
    },
    Done,
}

/// The outside work a bulk refresh waits on.
#[derive(Debug)]
pub enum BulkRequest {
    /// Ask ESI for the corporations of these characters.
    FetchAffiliations { ids: Vec<i64> },
    /// Refresh this corporation (as `CorporationSync` does).
    SyncCorporation { corporation_id: i64 },
    /// Ask ESI for the names of these characters.
    FetchNames { ids: Vec<i64> },
    /// Find out whether this character has a row.
    LookupCharacter { character_id: i64 },
    Store { write: CharacterWrite },
    Finish,
}

/// The outcome of a `BulkRequest`.
#[derive(Debug)]
pub enum BulkEvent {
    Affiliations { affiliations: Vec<CharacterCorporation> },
    CorporationSynced,
    /// The names ESI resolved, or `None` where the name lookup failed.
    Names { names: Option<HashMap<i64, String>> },
    Looked { exists: bool },
    Stored,
}

/// A bulk refresh of the corporation of many characters.
pub struct BulkAffiliationSync {
    chunks: Vec<Vec<i64>>,
    chunk: usize,
    phase: BulkPhase,
    synced: Ghost<Set<i64>>,
}

impl BulkAffiliationSync {
    pub closed spec fn chunks(self) -> Seq<Seq<i64>> {
        self.chunks@.map_values(|c: Vec<i64>| c@)
    }

    pub closed spec fn chunk_index(self) -> int {
        self.chunk as int
    }

    pub closed spec fn phase(self) -> BulkPhase {
        self.phase
    }

    /// The corporations whose refresh has been reported done so far.
    pub closed spec fn synced(self) -> Set<i64> {
        self.synced@
    }

    /// The ids of the current chunk.
    pub open spec fn current_chunk(self) -> Seq<i64> {
        self.chunks()[self.chunk_index()]
    }

    /// Every corporation named by the affiliations has been refreshed.
    pub open spec fn corporations_synced(self, affs: Seq<CharacterCorporation>) -> bool {
        forall|i: int| 0 <= i < affs.len() ==> self.synced().contains(#[trigger] affs[i].corporation_id)
    }

    pub open spec fn wf(self) -> bool {
        &&& self.phase() !is Done ==> 0 <= self.chunk_index() < self.chunks().len()
        &&& match self.phase() {
            BulkPhase::SyncCorporations { affiliations, corporations, next } => {
                &&& corporations@ == distinct_corporations(affiliations@)
                &&& next < corporations@.len()
                &&& forall|j: int| 0 <= j < next ==> self.synced().contains(#[trigger] corporations@[j])
            },
            BulkPhase::FetchNames { affiliations } => self.corporations_synced(affiliations@),
            BulkPhase::LookupCharacter { affiliations, next, .. } => {
                &&& next < affiliations@.len()
                &&& self.corporations_synced(affiliations@)
            },
            BulkPhase::StoreCharacter { affiliations, names, next, write } => {
                &&& next < affiliations@.len()
                &&& self.corporations_synced(affiliations@)
                &&& exists|exists: bool|
                    bulk_write_ok(
                        affiliations@[next as int],
                        resolved_name(names@, affiliations@[next as int].character_id),
                        exists,
                        write,
                    )
            },
            _ => true,
        }
    }

    /// The request a bulk refresh in this state waits on; ESI is asked
    /// about the ids of the current chunk.
    pub open spec fn request_ok(self, r: BulkRequest) -> bool {
        match self.phase() {
            BulkPhase::FetchAffiliations => r matches BulkRequest::FetchAffiliations { ids } && ids@
                == self.current_chunk(),
            BulkPhase::SyncCorporations { corporations, next, .. } => r
                == (BulkRequest::SyncCorporation { corporation_id: corporations@[next as int] }),
            BulkPhase::FetchNames { .. } => r matches BulkRequest::FetchNames { ids } && ids@
                == self.current_chunk(),
            BulkPhase::LookupCharacter { affiliations, next, .. } => r
                == (BulkRequest::LookupCharacter {
                character_id: affiliations@[next as int].character_id,
            }),
            BulkPhase::StoreCharacter { write, .. } => r == (BulkRequest::Store { write }),
            BulkPhase::Done => r is Finish,
        }
    }

    /// The state after the chunk at `chunk` is through: the next chunk, if any.
    pub open spec fn after_chunk(self, next: BulkAffiliationSync) -> bool {
        &&& next.chunks() == self.chunks()
        &&& next.synced() == self.synced()
        &&& if self.chunk_index() + 1 < self.chunks().len() {
            next.chunk_index() == self.chunk_index() + 1 && next.phase() is FetchAffiliations
        } else {
            next.phase() is Done
        }
    }

    /// How a bulk refresh moves on event `e`. An event that does not answer
    /// the pending request leaves it as it is.
    pub open spec fn next_ok(self, e: BulkEvent, next: BulkAffiliationSync) -> bool {
        match self.phase() {
            BulkPhase::FetchAffiliations => match e {
                BulkEvent::Affiliations { affiliations } => {
                    let corps = distinct_corporations(affiliations@);
                    &&& next.chunks() == self.chunks()
                    &&& next.chunk_index() == self.chunk_index()
                    &&& next.synced() == self.synced()
                    &&& if corps.len() > 0 {
                        next.phase() matches BulkPhase::SyncCorporations {
                            affiliations: a,
                            corporations,
                            next: 0,
                        } && a == affiliations && corporations@ == corps
                    } else {
                        next.phase() == (BulkPhase::FetchNames { affiliations })
                    }
                },
                _ => next == self,
            },
            BulkPhase::SyncCorporations { affiliations, corporations, next: j } => match e {
                BulkEvent::CorporationSynced => {
                    &&& next.chunks() == self.chunks()
                    &&& next.chunk_index() == self.chunk_index()
                    &&& next.synced() == self.synced().insert(corporations@[j as int])
                    &&& if j + 1 < corporations@.len() {
                        next.phase() == (BulkPhase::SyncCorporations {
                            affiliations,
                            corporations,
                            next: (j + 1) as usize,
                        })
                    } else {
                        next.phase() == (BulkPhase::FetchNames { affiliations })
                    }
                },
                _ => next == self,
            },
            BulkPhase::FetchNames { affiliations } => match e {
                BulkEvent::Names { names } => {
                    let got: Map<i64, String> = match names {
                        Some(m) => m@,
                        None => Map::empty(),
                    };
                    if affiliations@.len() > 0 {
                        &&& next.chunks() == self.chunks()
                        &&& next.chunk_index() == self.chunk_index()
                        &&& next.synced() == self.synced()
                        &&& next.phase() matches BulkPhase::LookupCharacter {
                            affiliations: a,
                            names: m,
                            next: 0,
                        } && a == affiliations && m@ == got
                    } else {
                        self.after_chunk(next)
                    }
                },
                _ => next == self,
            },
            BulkPhase::LookupCharacter { affiliations, names, next: j } => match e {
                BulkEvent::Looked { exists } => {
                    &&& next.chunks() == self.chunks()
                    &&& next.chunk_index() == self.chunk_index()
                    &&& next.synced() == self.synced()
                    &&& next.phase() matches BulkPhase::StoreCharacter {
                        affiliations: a,
                        names: m,
                        next: k,
                        write,
                    } && a == affiliations && m == names && k == j && bulk_write_ok(
                        affiliations@[j as int],
                        resolved_name(names@, affiliations@[j as int].character_id),
                        exists,
                        write,
                    )
                },
                _ => next == self,
            },
            BulkPhase::StoreCharacter { affiliations, names, next: j, .. } => match e {
                BulkEvent::Stored => if j + 1 < affiliations@.len() {
                    &&& next.chunks() == self.chunks()
                    &&& next.chunk_index() == self.chunk_index()
                    &&& next.synced() == self.synced()
                    &&& next.phase() == (BulkPhase::LookupCharacter {
                        affiliations,
                        names,
                        next: (j + 1) as usize,
                    })
                } else {
                    self.after_chunk(next)
                },
                _ => next == self,
            },
            BulkPhase::Done => next == self,
        }
    }

    /// Starts a bulk refresh of `character_ids`; with no ids there is nothing
    /// to do.
    pub fn new(character_ids: &[i64]) -> (s: Self)
        ensures
            s.wf(),
            s.chunks().len() == chunk_count(character_ids@.len() as int),
            forall|k: int| 0 <= k < s.chunks().len() ==> #[trigger] s.chunks()[k] == chunk_of(
                character_ids@,
                k,
            ),
            s.synced() == Set::<i64>::empty(),
            s.chunks().len() == 0 ==> s.phase() is Done,
            s.chunks().len() > 0 ==> s.chunk_index() == 0 && s.phase() is FetchAffiliations,
    {
        let chunks = affiliation_chunks(character_ids);
        let phase = if chunks.len() == 0 {
            BulkPhase::Done
        } else {
            BulkPhase::FetchAffiliations
        };
        let s = BulkAffiliationSync { chunks, chunk: 0, phase, synced: Ghost(Set::empty()) };
        assert forall|k: int| 0 <= k < s.chunks().len() implies #[trigger] s.chunks()[k] == chunk_of(
            character_ids@,
            k,
        ) by {
            assert(s.chunks@[k]@ == chunk_of(character_ids@, k));
        }
        s
    }

    /// The outside work this refresh waits on; the ids asked of ESI are
    /// those of the current chunk.
    pub fn request(&self) -> (r: BulkRequest)
        requires
            self.wf(),
        ensures
            self.request_ok(r),
    {
        match &self.phase {
            BulkPhase::FetchAffiliations => {
                let ids = copy_ids(&self.chunks[self.chunk]);
                BulkRequest::FetchAffiliations { ids }
            },
            BulkPhase::SyncCorporations { corporations, next, .. } => BulkRequest::SyncCorporation {
                corporation_id: corporations[*next],
            },
            BulkPhase::FetchNames { .. } => {
                let ids = copy_ids(&self.chunks[self.chunk]);
                BulkRequest::FetchNames { ids }
            },
            BulkPhase::LookupCharacter { affiliations, next, .. } => BulkRequest::LookupCharacter {
                character_id: affiliations[*next].character_id,
            },
            BulkPhase::StoreCharacter { write, .. } => BulkRequest::Store {
                write: copy_character_write(write),
            },
            BulkPhase::Done => BulkRequest::Finish,
        }
    }

    fn finish_chunk(chunks: Vec<Vec<i64>>, chunk: usize, synced: Ghost<Set<i64>>) -> (next: Self)
        requires
            chunk < chunks@.len(),
        ensures
            next.wf(),
            next.chunks@ == chunks@,
            next.synced() == synced@,
            chunk + 1 < chunks@.len() ==> next.chunk == chunk + 1 && next.phase is FetchAffiliations,
            chunk + 1 >= chunks@.len() ==> next.phase is Done,
    {
        let len = chunks.len();
        if chunk + 1 < len {
            BulkAffiliationSync { chunks, chunk: chunk + 1, phase: BulkPhase::FetchAffiliations, synced }
        } else {
            BulkAffiliationSync { chunks, chunk, phase: BulkPhase::Done, synced }
        }
    }

    /// Takes the outcome of the pending request.
    pub fn step(self, event: BulkEvent) -> (next: Self)
        requires
            self.wf(),
        ensures
            next.wf(),
            self.next_ok(event, next),
    {
        let ghost old_self = self;
        let BulkAffiliationSync { chunks, chunk, phase, synced } = self;
        match phase {
            BulkPhase::FetchAffiliations => match event {
                BulkEvent::Affiliations { affiliations } => {
                    let corporations = distinct_corporations_of(&affiliations);
                    if corporations.len() > 0 {
                        BulkAffiliationSync {
                            chunks,
                            chunk,
                            phase: BulkPhase::SyncCorporations {
                                affiliations,
                                corporations,
                                next: 0,
                            },
                            synced,
                        }
                    } else {
                        proof {
                            lemma_distinct_corporations(affiliations@);
                            if affiliations@.len() > 0 {
                                let c = affiliations@[0].corporation_id;
                                assert(named_corporations(affiliations@).contains(c));
                                assert(distinct_corporations(affiliations@).contains(c));
                            }
                        }
                        BulkAffiliationSync {
                            chunks,
                            chunk,
                            phase: BulkPhase::FetchNames { affiliations },
                            synced,
                        }
                    }
                },
                _ => BulkAffiliationSync {
                    chunks,
                    chunk,
                    phase: BulkPhase::FetchAffiliations,
                    synced,
                },
            },
            BulkPhase::SyncCorporations { affiliations, corporations, next } => match event {
                BulkEvent::CorporationSynced => {
                    let ghost c = corporations@[next as int];
                    let synced: Ghost<Set<i64>> = Ghost(synced@.insert(c));
                    let len = corporations.len();
                    if next + 1 < len {
                        BulkAffiliationSync {
                            chunks,
                            chunk,
                            phase: BulkPhase::SyncCorporations {
                                affiliations,
                                corporations,
                                next: next + 1,
                            },
                            synced,
                        }
                    } else {
                        proof {
                            lemma_distinct_corporations(affiliations@);
                            assert forall|i: int| 0 <= i < affiliations@.len() implies synced@.contains(
                                #[trigger] affiliations@[i].corporation_id,
                            ) by {
                                let d = affiliations@[i].corporation_id;
                                assert(named_corporations(affiliations@).contains(d));
                                assert(corporations@.contains(d));
                                let j = choose|j: int|
                                    0 <= j < corporations@.len() && corporations@[j] == d;
                                if j < next {
                                    assert(old_self.synced().contains(corporations@[j]));
                                }
                            }
                        }
                        BulkAffiliationSync {
                            chunks,
                            chunk,
                            phase: BulkPhase::FetchNames { affiliations },
                            synced,
                        }
                    }
                },
                _ => BulkAffiliationSync {
                    chunks,
                    chunk,
                    phase: BulkPhase::SyncCorporations { affiliations, corporations, next },
                    synced,
                },
            },
            BulkPhase::FetchNames { affiliations } => match event {
                BulkEvent::Names { names } => {
                    let names = match names {
                        Some(m) => m,
                        None => HashMap::new(),
                    };
                    if affiliations.len() > 0 {
                        BulkAffiliationSync {
                            chunks,
                            chunk,
                            phase: BulkPhase::LookupCharacter { affiliations, names, next: 0 },
                            synced,
                        }
                    } else {
                        Self::finish_chunk(chunks, chunk, synced)
                    }
                },
                _ => BulkAffiliationSync {
                    chunks,
                    chunk,
                    phase: BulkPhase::FetchNames { affiliations },
                    synced,
                },
            },
            BulkPhase::LookupCharacter { affiliations, names, next } => match event {
                BulkEvent::Looked { exists } => {
                    let aff = affiliations[next];
                    let resolved = lookup_name(&names, aff.character_id);
                    let write = bulk_character_write(aff, resolved, exists);
                    BulkAffiliationSync {
                        chunks,
                        chunk,
                        phase: BulkPhase::StoreCharacter { affiliations, names, next, write },
                        synced,
                    }
                },
                _ => BulkAffiliationSync {
                    chunks,
                    chunk,
                    phase: BulkPhase::LookupCharacter { affiliations, names, next },
                    synced,
                },
            },
            BulkPhase::StoreCharacter { affiliations, names, next, write } => match event {
                BulkEvent::Stored => {
                    let len = affiliations.len();
                    if next + 1 < len {
                        BulkAffiliationSync {
                            chunks,
                            chunk,
                            phase: BulkPhase::LookupCharacter { affiliations, names, next: next + 1 },
                            synced,
                        }
                    } else {
                        Self::finish_chunk(chunks, chunk, synced)
                    }
                },
                _ => BulkAffiliationSync {
                    chunks,
                    chunk,
                    phase: BulkPhase::StoreCharacter { affiliations, names, next, write },
                    synced,
                },
            },
            BulkPhase::Done => BulkAffiliationSync { chunks, chunk, phase: BulkPhase::Done, synced },
        }
    }
}

/// The corporation a character write sets.
pub open spec fn written_corporation(w: CharacterWrite) -> i64 {
    match w {
        CharacterWrite::Insert { corporation_id, .. } => corporation_id,
        CharacterWrite::Update { corporation_id, .. } => corporation_id,
        CharacterWrite::UpdateCorporation { corporation_id, .. } => corporation_id,
    }
}

/// A character row is written only once every corporation that its chunk
/// names has been refreshed, so the corporation the row refers to exists.
pub proof fn lemma_character_written_after_corporation(s: BulkAffiliationSync, r: BulkRequest)
    requires
        s.wf(),
        s.request_ok(r),
        r is Store,
    ensures
        r matches BulkRequest::Store { write } && s.synced().contains(written_corporation(write)),
{
    if let BulkPhase::StoreCharacter { affiliations, names, next, write } = s.phase() {
        let aff = affiliations@[next as int];
        let ex = choose|exists: bool|
            bulk_write_ok(aff, resolved_name(names@, aff.character_id), exists, write);
        assert(s.synced().contains(affiliations@[next as int].corporation_id));
    }
}

/// A bulk refresh never invents a name for a stored character, and invents
/// one only when ESI gave none: the placeholder "Character <id>".
pub proof fn lemma_placeholder_only_for_new_rows(
    aff: CharacterCorporation,
    resolved: Option<String>,
    exists: bool,
    w: CharacterWrite,
)
    requires
        bulk_write_ok(aff, resolved, exists, w),
    ensures
        exists ==> !(w is Insert),
        exists && resolved is None ==> w == (CharacterWrite::UpdateCorporation {
            id: aff.character_id,
            corporation_id: aff.corporation_id,
        }),
        resolved matches Some(n) ==> (w matches CharacterWrite::Insert { name, .. } ==> name == n)
            && (w matches CharacterWrite::Update { name, .. } ==> name == n),
        !exists ==> (w matches CharacterWrite::Insert { id, corporation_id, .. } && id
            == aff.character_id && corporation_id == aff.corporation_id),
        !exists && resolved is None ==> (w matches CharacterWrite::Insert { name, .. } && name@
            == "Character "@ + int_decimal(aff.character_id as int)),
        exists && resolved is Some ==> (w matches CharacterWrite::Update { id, corporation_id, .. }
            && id == aff.character_id && corporation_id == aff.corporation_id),
{
}

} // verus!
