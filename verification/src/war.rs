//! The set of corporations and alliances at war, the entities a war names,
//! and who among a list of characters is at war.
use std::collections::HashSet;
use vstd::prelude::*;
use vstd::std_specs::iter::IteratorSpec;

verus! {

broadcast use vstd::std_specs::hash::group_hash_axioms;

/// One side of a war as the war detail lists it: a corporation, an alliance,
/// or both.
#[derive(Debug, Clone, Copy)]
pub struct WarEntity {
    pub corporation_id: Option<i64>,
    pub alliance_id: Option<i64>,
}

/// The details of a war that the war logic reads.
#[derive(Debug, Clone)]
pub struct WarDetail {
    pub id: i64,
    pub aggressor: WarEntity,
    pub defender: WarEntity,
    pub allies: Vec<WarEntity>,
    /// When the war finished, if it has.
    pub finished: Option<String>,
}

/// Where a character stands: its corporation and that corporation's alliance,
/// as far as they are known.
#[derive(Debug, Clone, Copy)]
pub struct CharacterAffiliation {
    pub corporation_id: Option<i64>,
    pub alliance_id: Option<i64>,
}

/// Whether an entity with these ids is at war, given the sets of
/// corporations and alliances at war.
pub open spec fn at_war_in(
    corporations: Set<i64>,
    alliances: Set<i64>,
    corporation_id: Option<i64>,
    alliance_id: Option<i64>,
) -> bool {
    (corporation_id matches Some(c) && corporations.contains(c)) || (alliance_id matches Some(
        a,
    ) && alliances.contains(a))
}

/// Every entity that a war names: aggressor, defender, then the allies.
pub open spec fn war_entities(war: WarDetail) -> Seq<WarEntity> {
    seq![war.aggressor, war.defender] + war.allies@
}

/// The corporation ids that some entity of `es` names.
pub open spec fn corporation_ids(es: Seq<WarEntity>) -> Set<i64> {
    Set::new(|c: i64| exists|i: int| 0 <= i < es.len() && (#[trigger] es[i]).corporation_id == Some(c))
}

/// The alliance ids that some entity of `es` names.
pub open spec fn alliance_ids(es: Seq<WarEntity>) -> Set<i64> {
    Set::new(|a: i64| exists|i: int| 0 <= i < es.len() && (#[trigger] es[i]).alliance_id == Some(a))
}

/// The in-memory record of who is at war.
#[derive(Debug)]
pub struct WarCache {
    pub corporations: HashSet<i64>,
    pub alliances: HashSet<i64>,
}

fn copy_id_set(ids: &HashSet<i64>) -> (r: HashSet<i64>)
    ensures
        r@ == ids@,
{
    let mut out: HashSet<i64> = HashSet::new();
    let ghost keys = vstd::std_specs::hash::spec_hash_keys_iter(ids).remaining().unref();
    for x in it: ids.iter()
        invariant
            it.seq().unref() == keys,
            keys.to_set() == ids@,
            forall|k: i64|
                out@.contains(k) <==> exists|i: int| 0 <= i < it.index() && keys[i] == k,
    {
        let ghost before = out@;
        out.insert(*x);
        proof {
            assert forall|k: i64|
                out@.contains(k) <==> exists|i: int| 0 <= i < it.index() + 1 && keys[i] == k by {
                if k == *x {
                    assert(keys[it.index() as int] == k);
                }
                if exists|i: int| 0 <= i < it.index() + 1 && keys[i] == k {
                    let i = choose|i: int| 0 <= i < it.index() + 1 && keys[i] == k;
                    if i < it.index() {
                        assert(before.contains(k));
                    }
                }
            }
        }
    }
    assert forall|k: i64| out@.contains(k) <==> ids@.contains(k) by {
        if ids@.contains(k) {
            assert(keys.to_set().contains(k));
            let i = choose|i: int| 0 <= i < keys.len() && keys[i] == k;
        }
        if out@.contains(k) {
            let i = choose|i: int| 0 <= i < keys.len() && keys[i] == k;
            assert(keys.contains(k));
        }
    }
    assert(out@ =~= ids@);
    out
}

impl Clone for WarCache {
    /// A cache with the same corporations and alliances.
    fn clone(&self) -> (c: Self)
        ensures
            c.corporations@ == self.corporations@,
            c.alliances@ == self.alliances@,
    {
        WarCache {
            corporations: copy_id_set(&self.corporations),
            alliances: copy_id_set(&self.alliances),
        }
    }
}

impl Default for WarCache {
    fn default() -> (cache: Self)
        ensures
            cache.corporations@ == Set::<i64>::empty(),
            cache.alliances@ == Set::<i64>::empty(),
    {
        WarCache { corporations: HashSet::new(), alliances: HashSet::new() }
    }
}

impl WarCache {
    /// Whether an entity with these ids is at war according to this cache.
    pub open spec fn at_war(self, corporation_id: Option<i64>, alliance_id: Option<i64>) -> bool {
        at_war_in(self.corporations@, self.alliances@, corporation_id, alliance_id)
    }

    /// Whether the cache records nobody at war.
    pub open spec fn is_empty_spec(self) -> bool {
        self.corporations@.is_empty() && self.alliances@.is_empty()
    }

    /// An empty cache: nobody at war.
    pub fn new() -> (cache: Self)
        ensures
            cache.corporations@ == Set::<i64>::empty(),
            cache.alliances@ == Set::<i64>::empty(),
    {
        WarCache { corporations: HashSet::new(), alliances: HashSet::new() }
    }

    pub fn contains_corporation(&self, corporation_id: i64) -> (r: bool)
        ensures
            r == self.corporations@.contains(corporation_id),
    {
        self.corporations.contains(&corporation_id)
    }

    pub fn contains_alliance(&self, alliance_id: i64) -> (r: bool)
        ensures
            r == self.alliances@.contains(alliance_id),
    {
        self.alliances.contains(&alliance_id)
    }

    /// At war when the corporation, or else the alliance, is in the cache.
    pub fn is_at_war(&self, corporation_id: Option<i64>, alliance_id: Option<i64>) -> (r: bool)
        ensures
            r == self.at_war(corporation_id, alliance_id),
    {
        if let Some(corp_id) = corporation_id {
            if self.contains_corporation(corp_id) {
                return true;
            }
        }
        if let Some(alliance_id) = alliance_id {
            if self.contains_alliance(alliance_id) {
                return true;
            }
        }
        false
    }

    /// Swaps in new sets of corporations and alliances at war.
    pub fn replace(&mut self, corporations: HashSet<i64>, alliances: HashSet<i64>)
        ensures
            final(self).corporations@ == corporations@,
            final(self).alliances@ == alliances@,
    {
        self.corporations = corporations;
        self.alliances = alliances;
    }

    /// Whether the cache records nobody at war.
    pub fn is_empty(&self) -> (r: bool)
        ensures
            r == self.is_empty_spec(),
    {
        self.corporations.is_empty() && self.alliances.is_empty()
    }
}

fn add_entity(corporations: &mut HashSet<i64>, alliances: &mut HashSet<i64>, entity: &WarEntity)
    ensures
        final(corporations)@ == (match entity.corporation_id {
            Some(c) => old(corporations)@.insert(c),
            None => old(corporations)@,
        }),
        final(alliances)@ == (match entity.alliance_id {
            Some(a) => old(alliances)@.insert(a),
            None => old(alliances)@,
        }),
{
    if let Some(corp_id) = entity.corporation_id {
        corporations.insert(corp_id);
    }
    if let Some(alliance_id) = entity.alliance_id {
        alliances.insert(alliance_id);
    }
}

proof fn lemma_ids_push(es: Seq<WarEntity>, e: WarEntity)
    ensures
        corporation_ids(es.push(e)) == (match e.corporation_id {
            Some(c) => corporation_ids(es).insert(c),
            None => corporation_ids(es),
        }),
        alliance_ids(es.push(e)) == (match e.alliance_id {
            Some(a) => alliance_ids(es).insert(a),
            None => alliance_ids(es),
        }),
{
    let t = es.push(e);
    let cs = match e.corporation_id {
        Some(c) => corporation_ids(es).insert(c),
        None => corporation_ids(es),
    };
    assert forall|c: i64| corporation_ids(t).contains(c) <==> cs.contains(c) by {
        if corporation_ids(t).contains(c) {
            let i = choose|i: int| 0 <= i < t.len() && (#[trigger] t[i]).corporation_id == Some(c);
            if i < es.len() {
                assert(es[i] == t[i]);
            }
        }
        if corporation_ids(es).contains(c) {
            let i = choose|i: int| 0 <= i < es.len() && (#[trigger] es[i]).corporation_id == Some(c);
            assert(t[i] == es[i]);
        }
        if e.corporation_id == Some(c) {
            assert(t[es.len() as int] == e);
        }
    }
    assert(corporation_ids(t) =~= cs);
    let als = match e.alliance_id {
        Some(a) => alliance_ids(es).insert(a),
        None => alliance_ids(es),
    };
    assert forall|a: i64| alliance_ids(t).contains(a) <==> als.contains(a) by {
        if alliance_ids(t).contains(a) {
            let i = choose|i: int| 0 <= i < t.len() && (#[trigger] t[i]).alliance_id == Some(a);
            if i < es.len() {
                assert(es[i] == t[i]);
            }
        }
        if alliance_ids(es).contains(a) {
            let i = choose|i: int| 0 <= i < es.len() && (#[trigger] es[i]).alliance_id == Some(a);
            assert(t[i] == es[i]);
        }
        if e.alliance_id == Some(a) {
            assert(t[es.len() as int] == e);
        }
    }
    assert(alliance_ids(t) =~= als);
}

/// Collects the corporation and alliance ids of every side of a war.
pub fn collect_entities_from_war(war: &WarDetail) -> (r: (HashSet<i64>, HashSet<i64>))
    ensures
        r.0@ == corporation_ids(war_entities(*war)),
        r.1@ == alliance_ids(war_entities(*war)),
{
    let mut corporations: HashSet<i64> = HashSet::new();
    let mut alliances: HashSet<i64> = HashSet::new();
    let ghost all = war_entities(*war);
    proof {
        assert(corporation_ids(seq![]) =~= Set::<i64>::empty());
        assert(alliance_ids(seq![]) =~= Set::<i64>::empty());
        lemma_ids_push(seq![], war.aggressor);
        assert(seq![].push(war.aggressor) =~= all.take(1));
    }
    add_entity(&mut corporations, &mut alliances, &war.aggressor);
    proof {
        lemma_ids_push(all.take(1), war.defender);
        assert(all.take(1).push(war.defender) =~= all.take(2));
    }
    add_entity(&mut corporations, &mut alliances, &war.defender);
    let n = war.allies.len();
    let mut i: usize = 0;
    while i < n
        invariant
            n == war.allies@.len(),
            i <= n,
            all == war_entities(*war),
            corporations@ == corporation_ids(all.take(2 + i)),
            alliances@ == alliance_ids(all.take(2 + i)),
        decreases n - i,
    {
        let ally = &war.allies[i];
        proof {
            lemma_ids_push(all.take(2 + i), *ally);
            assert(all.take(2 + i).push(*ally) =~= all.take(2 + i + 1));
        }
        add_entity(&mut corporations, &mut alliances, ally);
        i = i + 1;
    }
    assert(all.take(2 + n) =~= all);
    (corporations, alliances)
}

/// A character found in the database is at war when its corporation or its
/// alliance is; one not found is not.
pub open spec fn row_at_war(cache: WarCache, row: Option<CharacterAffiliation>) -> bool {
    match row {
        Some(a) => cache.at_war(a.corporation_id, a.alliance_id),
        None => false,
    }
}

/// Whether the character behind a database lookup is at war.
pub fn row_is_at_war(cache: &WarCache, row: &Option<CharacterAffiliation>) -> (r: bool)
    ensures
        r == row_at_war(*cache, *row),
{
    match row {
        Some(a) => cache.is_at_war(a.corporation_id, a.alliance_id),
        None => false,
    }
}

/// Whether a list of characters needs any database lookup at all: not when
/// the list is empty, nor when nobody is at war.
pub fn at_war_lookup_needed(cache: &WarCache, character_ids: &[i64]) -> (r: bool)
    ensures
        r == (character_ids@.len() > 0 && !cache.is_empty_spec()),
{
    character_ids.len() > 0 && !cache.is_empty()
}

/// The ids among `lookups` (character id, database row) that are at war.
pub open spec fn ids_at_war(cache: WarCache, lookups: Seq<(i64, Option<CharacterAffiliation>)>) -> Set<
    i64,
> {
    Set::new(
        |id: i64|
            exists|i: int|
                0 <= i < lookups.len() && (#[trigger] lookups[i]).0 == id && row_at_war(
                    cache,
                    lookups[i].1,
                ),
    )
}

/// The characters at war among those looked up, by their database rows.
pub fn characters_at_war(cache: &WarCache, lookups: &Vec<(i64, Option<CharacterAffiliation>)>) -> (r:
    HashSet<i64>)
    ensures
        r@ == ids_at_war(*cache, lookups@),
{
    let mut at_war: HashSet<i64> = HashSet::new();
    let n = lookups.len();
    let mut i: usize = 0;
    while i < n
        invariant
            n == lookups@.len(),
            i <= n,
            at_war@ == ids_at_war(*cache, lookups@.take(i as int)),
        decreases n - i,
    {
        let (character_id, row) = lookups[i];
        let hit = row_is_at_war(cache, &row);
        let ghost before = lookups@.take(i as int);
        let ghost after = lookups@.take(i + 1);
        if hit {
            at_war.insert(character_id);
        }
        proof {
            assert forall|id: i64|
                ids_at_war(*cache, after).contains(id) <==> at_war@.contains(id) by {
                if ids_at_war(*cache, after).contains(id) {
                    let j = choose|j: int|
                        0 <= j < after.len() && (#[trigger] after[j]).0 == id && row_at_war(
                            *cache,
                            after[j].1,
                        );
                    if j < i {
                        assert(before[j] == after[j]);
                    }
                }
                if ids_at_war(*cache, before).contains(id) {
                    let j = choose|j: int|
                        0 <= j < before.len() && (#[trigger] before[j]).0 == id && row_at_war(
                            *cache,
                            before[j].1,
                        );
                    assert(after[j] == before[j]);
                }
                if hit && id == character_id {
                    assert(after[i as int] == lookups@[i as int]);
                }
            }
            assert(ids_at_war(*cache, after) =~= at_war@);
        }
        i = i + 1;
    }
    assert(lookups@.take(n as int) =~= lookups@);
    at_war
}

/// Every corporation and alliance named by a war is at war once the cache
/// holds what `collect_entities_from_war` gathers from it.
pub proof fn lemma_war_sides_at_war(war: WarDetail, i: int)
    requires
        0 <= i < war_entities(war).len(),
        war_entities(war)[i].corporation_id is Some || war_entities(war)[i].alliance_id is Some,
    ensures
        at_war_in(
            corporation_ids(war_entities(war)),
            alliance_ids(war_entities(war)),
            war_entities(war)[i].corporation_id,
            war_entities(war)[i].alliance_id,
        ),
{
    let es = war_entities(war);
    if let Some(c) = es[i].corporation_id {
        assert(corporation_ids(es).contains(c));
    } else {
        let a = es[i].alliance_id.unwrap();
        assert(alliance_ids(es).contains(a));
    }
}

/// Nobody is at war in an empty cache, so skipping the lookups of
/// `at_war_lookup_needed` loses no character.
pub proof fn lemma_empty_cache_nobody_at_war(
    cache: WarCache,
    lookups: Seq<(i64, Option<CharacterAffiliation>)>,
)
    requires
        cache.is_empty_spec(),
    ensures
        ids_at_war(cache, lookups) == Set::<i64>::empty(),
{
    assert(ids_at_war(cache, lookups) =~= Set::<i64>::empty());
}

/// Only looked-up characters can come out at war, and exactly those whose row
/// is at war.
pub proof fn lemma_at_war_iff_row(
    cache: WarCache,
    lookups: Seq<(i64, Option<CharacterAffiliation>)>,
    i: int,
)
    requires
        0 <= i < lookups.len(),
    ensures
        row_at_war(cache, lookups[i].1) ==> ids_at_war(cache, lookups).contains(lookups[i].0),
        ids_at_war(cache, lookups).contains(lookups[i].0) ==> exists|j: int|
            0 <= j < lookups.len() && (#[trigger] lookups[j]).0 == lookups[i].0 && row_at_war(
                cache,
                lookups[j].1,
            ),
{
}

proof fn lemma_ids_follow_members(a: Seq<WarEntity>, b: Seq<WarEntity>)
    requires
        forall|e: WarEntity| a.contains(e) ==> b.contains(e),
    ensures
        corporation_ids(a).subset_of(corporation_ids(b)),
        alliance_ids(a).subset_of(alliance_ids(b)),
{
    assert forall|c: i64| corporation_ids(a).contains(c) implies corporation_ids(b).contains(c) by {
        let i = choose|i: int| 0 <= i < a.len() && (#[trigger] a[i]).corporation_id == Some(c);
        assert(a.contains(a[i]));
        let j = choose|j: int| 0 <= j < b.len() && b[j] == a[i];
        assert(b[j].corporation_id == Some(c));
    }
    assert forall|x: i64| alliance_ids(a).contains(x) implies alliance_ids(b).contains(x) by {
        let i = choose|i: int| 0 <= i < a.len() && (#[trigger] a[i]).alliance_id == Some(x);
        assert(a.contains(a[i]));
        let j = choose|j: int| 0 <= j < b.len() && b[j] == a[i];
        assert(b[j].alliance_id == Some(x));
    }
}

proof fn lemma_swapped_sides_contained(war: WarDetail, other: WarDetail, e: WarEntity)
    requires
        other.aggressor == war.defender,
        other.defender == war.aggressor,
        other.allies@.to_multiset() == war.allies@.to_multiset(),
        war_entities(war).contains(e),
    ensures
        war_entities(other).contains(e),
{
    let a = war_entities(war);
    let b = war_entities(other);
    let i = choose|i: int| 0 <= i < a.len() && a[i] == e;
    if i == 0 {
        assert(b[1] == e);
    } else if i == 1 {
        assert(b[0] == e);
    } else {
        assert(war.allies@[i - 2] == e);
        assert(war.allies@.contains(e));
        vstd::seq_lib::to_multiset_contains(war.allies@, e);
        vstd::seq_lib::to_multiset_contains(other.allies@, e);
        let j = choose|j: int| 0 <= j < other.allies@.len() && other.allies@[j] == e;
        assert(b[j + 2] == e);
    }
}

/// The sets `collect_entities_from_war` gathers do not depend on the order of
/// the sides: swapping aggressor and defender and reordering the allies
/// gives the same corporations and alliances.
pub proof fn lemma_collected_ids_ignore_side_order(war: WarDetail, other: WarDetail)
    requires
        other.aggressor == war.defender,
        other.defender == war.aggressor,
        other.allies@.to_multiset() == war.allies@.to_multiset(),
    ensures
        corporation_ids(war_entities(other)) == corporation_ids(war_entities(war)),
        alliance_ids(war_entities(other)) == alliance_ids(war_entities(war)),
{
    assert forall|e: WarEntity| war_entities(war).contains(e) implies war_entities(other).contains(e) by {
        lemma_swapped_sides_contained(war, other, e);
    }
    assert forall|e: WarEntity| war_entities(other).contains(e) implies war_entities(war).contains(e) by {
        lemma_swapped_sides_contained(other, war, e);
    }
    lemma_ids_follow_members(war_entities(war), war_entities(other));
    lemma_ids_follow_members(war_entities(other), war_entities(war));
    assert(corporation_ids(war_entities(other)) =~= corporation_ids(war_entities(war)));
    assert(alliance_ids(war_entities(other)) =~= alliance_ids(war_entities(war)));
}

} // verus!
