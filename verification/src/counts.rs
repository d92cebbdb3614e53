//! A small map from building kinds to counts, kept in a hash table keyed by
//! each kind's number (its place in the declaration of `BuildingType`).
use crate::building::BuildingType;
use std::collections::HashMap;
use vstd::prelude::*;

verus! {

broadcast use vstd::std_specs::hash::group_hash_axioms;

/// The number of a building kind: its place in the declaration.
pub open spec fn kind_code(b: BuildingType) -> u64 {
    match b {
        BuildingType::Miner => 0,
        BuildingType::Smelter => 1,
        BuildingType::EnergySource => 2,
        BuildingType::IronMiner => 3,
        BuildingType::CopperMiner => 4,
        BuildingType::StoneQuarry => 5,
        BuildingType::WaterPump => 6,
        BuildingType::ObsidianDrill => 7,
        BuildingType::ManaExtractor => 8,
        BuildingType::LavaSiphon => 9,
        BuildingType::IronSmelter => 10,
        BuildingType::CopperSmelter => 11,
        BuildingType::TreeFarm => 12,
        BuildingType::Sawmill => 13,
        BuildingType::SteelForge => 14,
        BuildingType::SteelSmelter => 15,
        BuildingType::Tannery => 16,
        BuildingType::CrystalRefinery => 17,
        BuildingType::AlchemistLab => 18,
        BuildingType::RunicForge => 19,
        BuildingType::ArcaneDistillery => 20,
        BuildingType::Constructor => 21,
        BuildingType::Toolmaker => 22,
        BuildingType::Assembler => 23,
        BuildingType::ImpCamp => 24,
        BuildingType::BreedingPen => 25,
        BuildingType::WarLodge => 26,
        BuildingType::WindTurbine => 27,
        BuildingType::WaterWheel => 28,
        BuildingType::LavaGenerator => 29,
        BuildingType::ManaReactor => 30,
        BuildingType::OpusForge => 31,
        BuildingType::Watchtower => 32,
        BuildingType::Trader => 33,
        BuildingType::SacrificeAltar => 34,
    }
}

/// The building kind with a given number (the last kind for numbers past the end).
pub open spec fn kind_of_code(k: u64) -> BuildingType {
    match k {
        0 => BuildingType::Miner,
        1 => BuildingType::Smelter,
        2 => BuildingType::EnergySource,
        3 => BuildingType::IronMiner,
        4 => BuildingType::CopperMiner,
        5 => BuildingType::StoneQuarry,
        6 => BuildingType::WaterPump,
        7 => BuildingType::ObsidianDrill,
        8 => BuildingType::ManaExtractor,
        9 => BuildingType::LavaSiphon,
        10 => BuildingType::IronSmelter,
        11 => BuildingType::CopperSmelter,
        12 => BuildingType::TreeFarm,
        13 => BuildingType::Sawmill,
        14 => BuildingType::SteelForge,
        15 => BuildingType::SteelSmelter,
        16 => BuildingType::Tannery,
        17 => BuildingType::CrystalRefinery,
        18 => BuildingType::AlchemistLab,
        19 => BuildingType::RunicForge,
        20 => BuildingType::ArcaneDistillery,
        21 => BuildingType::Constructor,
        22 => BuildingType::Toolmaker,
        23 => BuildingType::Assembler,
        24 => BuildingType::ImpCamp,
        25 => BuildingType::BreedingPen,
        26 => BuildingType::WarLodge,
        27 => BuildingType::WindTurbine,
        28 => BuildingType::WaterWheel,
        29 => BuildingType::LavaGenerator,
        30 => BuildingType::ManaReactor,
        31 => BuildingType::OpusForge,
        32 => BuildingType::Watchtower,
        33 => BuildingType::Trader,
        _ => BuildingType::SacrificeAltar,
    }
}

/// Distinct kinds have distinct numbers.
pub proof fn lemma_kind_code_injective(a: BuildingType, b: BuildingType)
    ensures
        kind_code(a) == kind_code(b) ==> a == b,
{
    assert(kind_of_code(kind_code(a)) == a);
    assert(kind_of_code(kind_code(b)) == b);
}

fn code(b: BuildingType) -> (k: u64)
    ensures
        k == kind_code(b),
{
    match b {
        BuildingType::Miner => 0,
        BuildingType::Smelter => 1,
        BuildingType::EnergySource => 2,
        BuildingType::IronMiner => 3,
        BuildingType::CopperMiner => 4,
        BuildingType::StoneQuarry => 5,
        BuildingType::WaterPump => 6,
        BuildingType::ObsidianDrill => 7,
        BuildingType::ManaExtractor => 8,
        BuildingType::LavaSiphon => 9,
        BuildingType::IronSmelter => 10,
        BuildingType::CopperSmelter => 11,
        BuildingType::TreeFarm => 12,
        BuildingType::Sawmill => 13,
        BuildingType::SteelForge => 14,
        BuildingType::SteelSmelter => 15,
        BuildingType::Tannery => 16,
        BuildingType::CrystalRefinery => 17,
        BuildingType::AlchemistLab => 18,
        BuildingType::RunicForge => 19,
        BuildingType::ArcaneDistillery => 20,
        BuildingType::Constructor => 21,
        BuildingType::Toolmaker => 22,
        BuildingType::Assembler => 23,
        BuildingType::ImpCamp => 24,
        BuildingType::BreedingPen => 25,
        BuildingType::WarLodge => 26,
        BuildingType::WindTurbine => 27,
        BuildingType::WaterWheel => 28,
        BuildingType::LavaGenerator => 29,
        BuildingType::ManaReactor => 30,
        BuildingType::OpusForge => 31,
        BuildingType::Watchtower => 32,
        BuildingType::Trader => 33,
        BuildingType::SacrificeAltar => 34,
    }
}

/// The position of kind `b` in a list of (kind, count) pairs, when it is there.
pub open spec fn index_of(s: Seq<(BuildingType, u32)>, b: BuildingType) -> int {
    choose|i: int| 0 <= i < s.len() && s[i].0 == b
}

/// A list of (kind, count) pairs seen as a map; with distinct kinds each key
/// has one value.
pub open spec fn entries_map(s: Seq<(BuildingType, u32)>) -> Map<BuildingType, u32> {
    Map::new(
        |b: BuildingType| exists|i: int| 0 <= i < s.len() && s[i].0 == b,
        |b: BuildingType| s[index_of(s, b)].1,
    )
}

/// No kind appears twice in the list.
pub open spec fn distinct_kinds(s: Seq<(BuildingType, u32)>) -> bool {
    forall|i: int, j: int| 0 <= i < s.len() && 0 <= j < s.len() && i != j ==> s[i].0 != s[j].0
}

/// The count stored for `b`, zero when there is none.
pub open spec fn count_in(m: Map<BuildingType, u32>, b: BuildingType) -> u32 {
    if m.contains_key(b) { m[b] } else { 0 }
}

/// Counts per building kind.
pub struct BuildingCounts {
    map: HashMap<u64, u32>,
    /// The kinds with a count, each once, in the order they were first set.
    kinds: Vec<BuildingType>,
}

impl View for BuildingCounts {
    type V = Map<BuildingType, u32>;

    closed spec fn view(&self) -> Map<BuildingType, u32> {
        Map::new(
            |b: BuildingType| self.map@.contains_key(kind_code(b)),
            |b: BuildingType| self.map@[kind_code(b)],
        )
    }
}

impl BuildingCounts {
    #[verifier::type_invariant]
    closed spec fn inv(self) -> bool {
        &&& self.kinds@.no_duplicates()
        &&& forall|b: BuildingType| self.map@.contains_key(kind_code(b)) <==> #[trigger] self.kinds@.contains(b)
    }

    /// No counts at all.
    pub fn new() -> (c: BuildingCounts)
        ensures
            c@ == Map::<BuildingType, u32>::empty(),
    {
        let c = BuildingCounts { map: HashMap::new(), kinds: Vec::new() };
        assert(c@ =~= Map::<BuildingType, u32>::empty());
        c
    }

    /// The count stored for `b`, if any.
    pub fn get(&self, b: BuildingType) -> (r: Option<u32>)
        ensures
            r == (if self@.contains_key(b) { Some(self@[b]) } else { None }),
    {
        match self.map.get(&code(b)) {
            Some(n) => Some(*n),
            None => None,
        }
    }

    /// Stores `n` for `b`, replacing any earlier count.
    pub fn set(&mut self, b: BuildingType, n: u32)
        ensures
            final(self)@ == old(self)@.insert(b, n),
    {
        proof {
            use_type_invariant(&*self);
        }
        let k = code(b);
        let fresh = !self.map.contains_key(&k);
        let mut whole = BuildingCounts::new();
        std::mem::swap(&mut whole, self);
        let BuildingCounts { mut map, mut kinds } = whole;
        let ghost old_map = map@;
        let ghost old_kinds = kinds@;
        map.insert(k, n);
        if fresh {
            kinds.push(b);
        }
        proof {
            assert forall|c: BuildingType| map@.contains_key(kind_code(c)) <==> #[trigger] kinds@.contains(c) by {
                lemma_kind_code_injective(b, c);
                if fresh {
                    if kinds@.contains(c) && c != b {
                        let i = choose|i: int| 0 <= i < kinds@.len() && kinds@[i] == c;
                        assert(old_kinds[i] == c);
                    }
                    if old_kinds.contains(c) {
                        let i = choose|i: int| 0 <= i < old_kinds.len() && old_kinds[i] == c;
                        assert(kinds@[i] == c);
                    }
                    assert(kinds@[old_kinds.len() as int] == b);
                } else {
                    assert(old_kinds.contains(b));
                }
            }
            if fresh {
                assert forall|i: int, j: int| 0 <= i < j < kinds@.len() implies kinds@[i] != kinds@[j] by {
                    if j == old_kinds.len() {
                        assert(old_kinds.contains(kinds@[i]));
                    }
                }
            }
        }
        *self = BuildingCounts { map, kinds };
        proof {
            assert forall|c: BuildingType| #[trigger] self@.contains_key(c) == old_map.insert(kind_code(b), n)
                .contains_key(kind_code(c)) by {}
            assert forall|c: BuildingType| self@.contains_key(c) && c != b implies #[trigger] self@[c] == old_map[kind_code(c)] by {
                lemma_kind_code_injective(b, c);
            }
            assert forall|c: BuildingType| #[trigger] self@.contains_key(c) <==> old(self)@.insert(b, n).contains_key(c) by {
                lemma_kind_code_injective(b, c);
            }
            assert(self@ =~= old(self)@.insert(b, n));
        }
    }

    /// Whether no kind has a count stored.
    pub fn is_empty(&self) -> (e: bool)
        ensures
            e == (self@ == Map::<BuildingType, u32>::empty()),
    {
        proof {
            use_type_invariant(self);
        }
        if self.kinds.len() == 0 {
            assert forall|c: BuildingType| !self@.contains_key(c) by {
                if self@.contains_key(c) {
                    assert(self.kinds@.contains(c));
                }
            }
            assert(self@ =~= Map::<BuildingType, u32>::empty());
            true
        } else {
            assert(self.kinds@.contains(self.kinds@[0]));
            assert(self@.contains_key(self.kinds@[0]));
            false
        }
    }

    /// The stored (kind, count) pairs, each kind once, in the order the kinds
    /// were first set.
    pub fn to_vec(&self) -> (v: Vec<(BuildingType, u32)>)
        ensures
            distinct_kinds(v@),
            entries_map(v@) == self@,
    {
        proof {
            use_type_invariant(self);
        }
        let mut v: Vec<(BuildingType, u32)> = Vec::new();
        let mut i: usize = 0;
        while i < self.kinds.len()
            invariant
                i <= self.kinds@.len(),
                v@.len() == i,
                self.kinds@.no_duplicates(),
                forall|c: BuildingType| self.map@.contains_key(kind_code(c)) <==> #[trigger] self.kinds@.contains(c),
                forall|j: int| 0 <= j < i ==> (#[trigger] v@[j]).0 == self.kinds@[j] && v@[j].1 == self@[self.kinds@[j]],
            decreases self.kinds@.len() - i,
        {
            let b = self.kinds[i];
            proof {
                assert(self.kinds@.contains(b));
            }
            let n = match self.map.get(&code(b)) {
                Some(n) => *n,
                None => 0,
            };
            v.push((b, n));
            i = i + 1;
        }
        proof {
            let s = v@;
            assert forall|a: int, c: int| 0 <= a < s.len() && 0 <= c < s.len() && a != c implies s[a].0 != s[c].0 by {
                assert(s[a].0 == self.kinds@[a] && s[c].0 == self.kinds@[c]);
            }
            assert forall|c: BuildingType| #[trigger] entries_map(s).contains_key(c) <==> self@.contains_key(c) by {
                if self@.contains_key(c) {
                    assert(self.kinds@.contains(c));
                    let j = choose|j: int| 0 <= j < self.kinds@.len() && self.kinds@[j] == c;
                    assert(s[j].0 == c);
                }
                if entries_map(s).contains_key(c) {
                    let j = choose|j: int| 0 <= j < s.len() && s[j].0 == c;
                    assert(self.kinds@[j] == c);
                    assert(self.kinds@.contains(c));
                }
            }
            assert forall|c: BuildingType| entries_map(s).contains_key(c) implies #[trigger] entries_map(s)[c] == self@[c] by {
                let j = index_of(s, c);
                assert(0 <= j < s.len() && s[j].0 == c);
            }
            assert(entries_map(s) =~= self@);
        }
        v
    }
}

} // verus!
