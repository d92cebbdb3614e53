//! The meta store: the catalog of unlocks, the unlocks a player owns, and
//! the wallet purchases are paid from.
use crate::fixed::Milli64;
use vstd::prelude::*;

verus! {

/// The kind of an unlock.
#[derive(Clone, Copy, Debug, PartialEq, Eq, Hash, Structural)]
pub enum UnlockCategory {
    Biome,
    StartingBonus,
    BuildingPool,
    Cosmetic,
}

/// A store entry: what it unlocks and what it costs in each currency.
#[derive(Clone, Copy, Debug)]
pub struct UnlockDef {
    pub id: &'static str,
    pub name: &'static str,
    pub category: UnlockCategory,
    pub cost_gold: u32,
    pub cost_souls: u32,
    pub cost_knowledge: u32,
}

/// The store catalog, in display order.
pub open spec fn catalog() -> Seq<UnlockDef> {
    seq![
        UnlockDef { id: "unlock_volcanic", name: "Ashen Caldera", category: UnlockCategory::Biome, cost_gold: 200, cost_souls: 100, cost_knowledge: 0 },
        UnlockDef { id: "unlock_desert", name: "Sunscorched Wastes", category: UnlockCategory::Biome, cost_gold: 200, cost_souls: 0, cost_knowledge: 100 },
        UnlockDef { id: "unlock_ocean", name: "Abyssal Shore", category: UnlockCategory::Biome, cost_gold: 150, cost_souls: 150, cost_knowledge: 0 },
        UnlockDef { id: "extra_starting_miner", name: "Prospector's Gift", category: UnlockCategory::StartingBonus, cost_gold: 300, cost_souls: 0, cost_knowledge: 0 },
        UnlockDef { id: "extra_starting_turbine", name: "Wind Blessing", category: UnlockCategory::StartingBonus, cost_gold: 250, cost_souls: 0, cost_knowledge: 0 },
        UnlockDef { id: "starting_combat", name: "War Preparation", category: UnlockCategory::StartingBonus, cost_gold: 0, cost_souls: 400, cost_knowledge: 0 },
        UnlockDef { id: "starting_watchtower_upgrade", name: "Sentinel's Eye", category: UnlockCategory::StartingBonus, cost_gold: 0, cost_souls: 200, cost_knowledge: 100 },
        UnlockDef { id: "unlock_alchemist_lab", name: "Alchemist's Secret", category: UnlockCategory::BuildingPool, cost_gold: 0, cost_souls: 0, cost_knowledge: 500 },
        UnlockDef { id: "unlock_mana_reactor", name: "Arcane Power", category: UnlockCategory::BuildingPool, cost_gold: 0, cost_souls: 200, cost_knowledge: 600 },
        UnlockDef { id: "golden_rune_paths", name: "Golden Runes", category: UnlockCategory::Cosmetic, cost_gold: 100, cost_souls: 0, cost_knowledge: 0 },
        UnlockDef { id: "spectral_minions", name: "Spectral Workers", category: UnlockCategory::Cosmetic, cost_gold: 0, cost_souls: 150, cost_knowledge: 0 },
    ]
}

/// The full store catalog.
pub fn unlock_catalog() -> (v: Vec<UnlockDef>)
    ensures
        v@ == catalog(),
{
    let mut v: Vec<UnlockDef> = Vec::new();
    v.push(UnlockDef { id: "unlock_volcanic", name: "Ashen Caldera", category: UnlockCategory::Biome, cost_gold: 200, cost_souls: 100, cost_knowledge: 0 });
    v.push(UnlockDef { id: "unlock_desert", name: "Sunscorched Wastes", category: UnlockCategory::Biome, cost_gold: 200, cost_souls: 0, cost_knowledge: 100 });
    v.push(UnlockDef { id: "unlock_ocean", name: "Abyssal Shore", category: UnlockCategory::Biome, cost_gold: 150, cost_souls: 150, cost_knowledge: 0 });
    v.push(UnlockDef { id: "extra_starting_miner", name: "Prospector's Gift", category: UnlockCategory::StartingBonus, cost_gold: 300, cost_souls: 0, cost_knowledge: 0 });
    v.push(UnlockDef { id: "extra_starting_turbine", name: "Wind Blessing", category: UnlockCategory::StartingBonus, cost_gold: 250, cost_souls: 0, cost_knowledge: 0 });
    v.push(UnlockDef { id: "starting_combat", name: "War Preparation", category: UnlockCategory::StartingBonus, cost_gold: 0, cost_souls: 400, cost_knowledge: 0 });
    v.push(UnlockDef { id: "starting_watchtower_upgrade", name: "Sentinel's Eye", category: UnlockCategory::StartingBonus, cost_gold: 0, cost_souls: 200, cost_knowledge: 100 });
    v.push(UnlockDef { id: "unlock_alchemist_lab", name: "Alchemist's Secret", category: UnlockCategory::BuildingPool, cost_gold: 0, cost_souls: 0, cost_knowledge: 500 });
    v.push(UnlockDef { id: "unlock_mana_reactor", name: "Arcane Power", category: UnlockCategory::BuildingPool, cost_gold: 0, cost_souls: 200, cost_knowledge: 600 });
    v.push(UnlockDef { id: "golden_rune_paths", name: "Golden Runes", category: UnlockCategory::Cosmetic, cost_gold: 100, cost_souls: 0, cost_knowledge: 0 });
    v.push(UnlockDef { id: "spectral_minions", name: "Spectral Workers", category: UnlockCategory::Cosmetic, cost_gold: 0, cost_souls: 150, cost_knowledge: 0 });
    assert(v@ =~= catalog());
    v
}

/// The ids of all unlocks, in catalog order.
pub fn all_unlocks() -> (v: Vec<&'static str>)
    ensures
        v@.len() == catalog().len(),
        forall|k: int| 0 <= k < v@.len() ==> #[trigger] v@[k] == catalog()[k].id,
{
    let cat = unlock_catalog();
    let mut v: Vec<&'static str> = Vec::new();
    let mut k: usize = 0;
    while k < cat.len()
        invariant
            cat@ == catalog(),
            k <= cat@.len(),
            v@.len() == k,
            forall|j: int| 0 <= j < k ==> #[trigger] v@[j] == catalog()[j].id,
        decreases cat@.len() - k,
    {
        v.push(cat[k].id);
        k = k + 1;
    }
    v
}

/// Whether two strings hold the same characters.
pub(crate) fn str_eq(a: &str, b: &str) -> (r: bool)
    ensures
        r == (a@ == b@),
{
    a.to_owned() == b.to_owned()
}

/// The catalog entry with id `id`, or `None` when there is none.
pub fn find_unlock(id: &str) -> (r: Option<UnlockDef>)
    ensures
        match r {
            Some(u) => exists|k: int|
                0 <= k < catalog().len() && catalog()[k] == u && u.id@ == id@ && forall|j: int|
                    0 <= j < k ==> (#[trigger] catalog()[j]).id@ != id@,
            None => forall|k: int| 0 <= k < catalog().len() ==> (#[trigger] catalog()[k]).id@ != id@,
        },
{
    let cat = unlock_catalog();
    let mut k: usize = 0;
    while k < cat.len()
        invariant
            cat@ == catalog(),
            k <= cat@.len(),
            forall|j: int| 0 <= j < k ==> (#[trigger] catalog()[j]).id@ != id@,
        decreases cat@.len() - k,
    {
        if str_eq(cat[k].id, id) {
            return Some(cat[k]);
        }
        k = k + 1;
    }
    None
}

/// The unlocks a player owns; they persist across runs.
pub struct PurchasedUnlocks {
    pub ids: Vec<String>,
}

/// The owned ids as character sequences.
pub open spec fn owned_ids(p: &PurchasedUnlocks) -> Seq<Seq<char>> {
    p.ids@.map_values(|s: String| s@)
}

impl Default for PurchasedUnlocks {
    fn default() -> (p: Self)
        ensures
            p.ids@.len() == 0,
    {
        PurchasedUnlocks { ids: Vec::new() }
    }
}

impl PurchasedUnlocks {
    /// Records an unlock as owned.
    pub fn add(&mut self, id: &str)
        ensures
            owned_ids(&*final(self)) == owned_ids(&*old(self)).push(id@),
    {
        self.ids.push(id.to_owned());
        assert(owned_ids(&*self) =~= owned_ids(&*old(self)).push(id@));
    }

    /// Whether the unlock is owned.
    pub fn has(&self, id: &str) -> (b: bool)
        ensures
            b == owned_ids(self).contains(id@),
    {
        let target = id.to_owned();
        let mut i: usize = 0;
        while i < self.ids.len()
            invariant
                target@ == id@,
                i <= self.ids@.len(),
                forall|j: int| 0 <= j < i ==> (#[trigger] self.ids@[j])@ != id@,
            decreases self.ids@.len() - i,
        {
            if self.ids[i] == target {
                assert(owned_ids(self)[i as int] == id@);
                return true;
            }
            i = i + 1;
        }
        assert forall|j: int| 0 <= j < owned_ids(self).len() implies owned_ids(self)[j] != id@ by {
            assert(owned_ids(self)[j] == self.ids@[j]@);
        }
        false
    }
}

/// The player's persistent wallet, with lifetime earning and spending
/// totals; amounts are exact thousandths of a currency unit.
#[derive(Clone, Copy, Debug)]
pub struct MetaWallet {
    pub gold: Milli64,
    pub souls: Milli64,
    pub knowledge: Milli64,
    pub lifetime_earned_gold: Milli64,
    pub lifetime_earned_souls: Milli64,
    pub lifetime_earned_knowledge: Milli64,
    pub lifetime_spent_gold: Milli64,
    pub lifetime_spent_souls: Milli64,
    pub lifetime_spent_knowledge: Milli64,
}

impl Default for MetaWallet {
    fn default() -> (w: Self)
        ensures
            w.gold.0 == 0 && w.souls.0 == 0 && w.knowledge.0 == 0,
            w.lifetime_earned_gold.0 == 0 && w.lifetime_earned_souls.0 == 0
                && w.lifetime_earned_knowledge.0 == 0,
            w.lifetime_spent_gold.0 == 0 && w.lifetime_spent_souls.0 == 0
                && w.lifetime_spent_knowledge.0 == 0,
    {
        MetaWallet {
            gold: Milli64(0),
            souls: Milli64(0),
            knowledge: Milli64(0),
            lifetime_earned_gold: Milli64(0),
            lifetime_earned_souls: Milli64(0),
            lifetime_earned_knowledge: Milli64(0),
            lifetime_spent_gold: Milli64(0),
            lifetime_spent_souls: Milli64(0),
            lifetime_spent_knowledge: Milli64(0),
        }
    }
}

/// A whole-unit cost in thousandths.
pub open spec fn cost_milli(cost: u32) -> int {
    cost * 1000
}

/// The wallet holds at least the unlock's cost in every currency.
pub open spec fn can_afford(w: MetaWallet, u: UnlockDef) -> bool {
    &&& w.gold.0 >= cost_milli(u.cost_gold)
    &&& w.souls.0 >= cost_milli(u.cost_souls)
    &&& w.knowledge.0 >= cost_milli(u.cost_knowledge)
}

/// The wallet after paying for the unlock.
pub open spec fn paid(w: MetaWallet, u: UnlockDef) -> MetaWallet {
    MetaWallet {
        gold: Milli64((w.gold.0 - cost_milli(u.cost_gold)) as u64),
        souls: Milli64((w.souls.0 - cost_milli(u.cost_souls)) as u64),
        knowledge: Milli64((w.knowledge.0 - cost_milli(u.cost_knowledge)) as u64),
        lifetime_spent_gold: Milli64((w.lifetime_spent_gold.0 + cost_milli(u.cost_gold)) as u64),
        lifetime_spent_souls: Milli64((w.lifetime_spent_souls.0 + cost_milli(u.cost_souls)) as u64),
        lifetime_spent_knowledge: Milli64(
            (w.lifetime_spent_knowledge.0 + cost_milli(u.cost_knowledge)) as u64,
        ),
        ..w
    }
}

/// The lifetime spending totals have room for the unlock's cost.
pub open spec fn spending_fits(w: MetaWallet, u: UnlockDef) -> bool {
    &&& w.lifetime_spent_gold.0 + cost_milli(u.cost_gold) <= u64::MAX
    &&& w.lifetime_spent_souls.0 + cost_milli(u.cost_souls) <= u64::MAX
    &&& w.lifetime_spent_knowledge.0 + cost_milli(u.cost_knowledge) <= u64::MAX
}

impl UnlockDef {
    /// Buys this unlock.  It fails, changing nothing, when the unlock is
    /// already owned or the wallet lacks any part of the cost; otherwise every
    /// cost is deducted together, added to the lifetime spending, and the
    /// unlock is recorded as owned.
    pub fn try_purchase(&self, wallet: &mut MetaWallet, purchased: &mut PurchasedUnlocks) -> (ok: bool)
        requires
            spending_fits(*old(wallet), *self),
        ensures
            ok == (!owned_ids(&*old(purchased)).contains(self.id@) && can_afford(*old(wallet), *self)),
            *final(wallet) == (if ok { paid(*old(wallet), *self) } else { *old(wallet) }),
            owned_ids(&*final(purchased)) == (if ok {
                owned_ids(&*old(purchased)).push(self.id@)
            } else {
                owned_ids(&*old(purchased))
            }),
    {
        if purchased.has(self.id) {
            return false;
        }
        let gold_cost = self.cost_gold as u64 * 1000;
        let souls_cost = self.cost_souls as u64 * 1000;
        let knowledge_cost = self.cost_knowledge as u64 * 1000;
        if wallet.gold.0 < gold_cost {
            return false;
        }
        if wallet.souls.0 < souls_cost {
            return false;
        }
        if wallet.knowledge.0 < knowledge_cost {
            return false;
        }
        wallet.gold = Milli64(wallet.gold.0 - gold_cost);
        wallet.souls = Milli64(wallet.souls.0 - souls_cost);
        wallet.knowledge = Milli64(wallet.knowledge.0 - knowledge_cost);
        wallet.lifetime_spent_gold = Milli64(wallet.lifetime_spent_gold.0 + gold_cost);
        wallet.lifetime_spent_souls = Milli64(wallet.lifetime_spent_souls.0 + souls_cost);
        wallet.lifetime_spent_knowledge = Milli64(wallet.lifetime_spent_knowledge.0 + knowledge_cost);
        purchased.add(self.id);
        true
    }
}

/// A purchase moves currency from the balance to the lifetime spending: in
/// each currency, balance plus lifetime spending is unchanged.
pub proof fn lemma_purchase_conserves(w: MetaWallet, u: UnlockDef)
    requires
        can_afford(w, u),
        spending_fits(w, u),
    ensures
        paid(w, u).gold.0 + paid(w, u).lifetime_spent_gold.0 == w.gold.0 + w.lifetime_spent_gold.0,
        paid(w, u).souls.0 + paid(w, u).lifetime_spent_souls.0 == w.souls.0 + w.lifetime_spent_souls.0,
        paid(w, u).knowledge.0 + paid(w, u).lifetime_spent_knowledge.0 == w.knowledge.0
            + w.lifetime_spent_knowledge.0,
{
}

/// Once bought, an unlock is owned, so buying it again fails.
pub proof fn lemma_owned_after_purchase(owned: Seq<Seq<char>>, id: Seq<char>)
    ensures
        owned.push(id).contains(id),
{
    assert(owned.push(id)[owned.len() as int] == id);
}

/// The catalog ids are distinct, so every catalog entry is the one found by its id.
pub proof fn lemma_catalog_ids_distinct()
    ensures
        forall|i: int, j: int| 0 <= i < catalog().len() && 0 <= j < catalog().len() && i != j
            ==> (#[trigger] catalog()[i]).id@ != (#[trigger] catalog()[j]).id@,
{
    reveal_strlit("unlock_volcanic");
    reveal_strlit("unlock_desert");
    reveal_strlit("unlock_ocean");
    reveal_strlit("extra_starting_miner");
    reveal_strlit("extra_starting_turbine");
    reveal_strlit("starting_combat");
    reveal_strlit("starting_watchtower_upgrade");
    reveal_strlit("unlock_alchemist_lab");
    reveal_strlit("unlock_mana_reactor");
    reveal_strlit("golden_rune_paths");
    reveal_strlit("spectral_minions");
    assert(catalog()[0].id@.len() == 15 && catalog()[0].id@[0] == 'u');
    assert(catalog()[1].id@.len() == 13 && catalog()[1].id@[0] == 'u');
    assert(catalog()[2].id@.len() == 12 && catalog()[2].id@[0] == 'u');
    assert(catalog()[3].id@.len() == 20 && catalog()[3].id@[0] == 'e');
    assert(catalog()[4].id@.len() == 22 && catalog()[4].id@[0] == 'e');
    assert(catalog()[5].id@.len() == 15 && catalog()[5].id@[0] == 's');
    assert(catalog()[6].id@.len() == 27 && catalog()[6].id@[0] == 's');
    assert(catalog()[7].id@.len() == 20 && catalog()[7].id@[0] == 'u');
    assert(catalog()[8].id@.len() == 19 && catalog()[8].id@[0] == 'u');
    assert(catalog()[9].id@.len() == 17 && catalog()[9].id@[0] == 'g');
    assert(catalog()[10].id@.len() == 16 && catalog()[10].id@[0] == 's');
}


/// The total cost of an unlock, over all three currencies.
pub open spec fn total_cost(u: UnlockDef) -> int {
    u.cost_gold + u.cost_souls + u.cost_knowledge
}

/// How many currencies an unlock costs something in.
pub open spec fn currencies_used(u: UnlockDef) -> int {
    (if u.cost_gold > 0 { 1int } else { 0int }) + (if u.cost_souls > 0 { 1int } else { 0int }) + (
    if u.cost_knowledge > 0 { 1int } else { 0int })
}

/// The store's price structure: nothing is free; every biome costs 300 in
/// total, split over two currencies; a cosmetic is paid in one currency; a
/// building-pool unlock needs at least 500 knowledge.
pub proof fn lemma_catalog_prices(k: int)
    requires
        0 <= k < catalog().len(),
    ensures
        total_cost(catalog()[k]) > 0,
        catalog()[k].category == UnlockCategory::Biome ==> total_cost(catalog()[k]) == 300
            && currencies_used(catalog()[k]) == 2,
        catalog()[k].category == UnlockCategory::Cosmetic ==> currencies_used(catalog()[k]) == 1,
        catalog()[k].category == UnlockCategory::BuildingPool ==> catalog()[k].cost_knowledge >= 500,
{
}

/// No biome can be bought with less than 300 currency in the wallet
/// altogether, whichever currencies it is held in.
pub proof fn lemma_biome_needs_300(w: MetaWallet, k: int)
    requires
        0 <= k < catalog().len(),
        catalog()[k].category == UnlockCategory::Biome,
        w.gold.0 + w.souls.0 + w.knowledge.0 < 300000,
    ensures
        !can_afford(w, catalog()[k]),
{
    lemma_catalog_prices(k);
}


/// The place of a category in store order: biomes, starting bonuses,
/// building pool, cosmetics.
pub open spec fn category_rank(c: UnlockCategory) -> int {
    match c {
        UnlockCategory::Biome => 0,
        UnlockCategory::StartingBonus => 1,
        UnlockCategory::BuildingPool => 2,
        UnlockCategory::Cosmetic => 3,
    }
}

/// The catalog lists its unlocks grouped by category, in store order.
pub proof fn lemma_catalog_grouped(i: int, j: int)
    requires
        0 <= i <= j < catalog().len(),
    ensures
        category_rank(catalog()[i].category) <= category_rank(catalog()[j].category),
{
}

} // verus!
