//! Factions and the faction table.

use vstd::prelude::*;

verus! {

/// Number of faction slots.
pub const FACTION_COUNT: usize = 7;

/// A faction: its colour, its cities and its treasury.
#[derive(Debug, Clone)]
pub struct Faction {
    pub id: u8,
    pub color: u8,
    pub cities: Vec<u8>,
    pub gold: u16,
    pub food: u16,
}

/// `f` is an empty faction slot.
pub open spec fn is_default_faction(f: Faction) -> bool {
    f.id == 0 && f.color == 0 && f.cities@ == Seq::<u8>::empty() && f.gold == 0 && f.food == 0
}

impl Default for Faction {
    fn default() -> (r: Self)
        ensures
            is_default_faction(r),
    {
        Faction { id: 0, color: 0, cities: Vec::new(), gold: 0, food: 0 }
    }
}

impl Faction {
    /// A faction slot is in use when its id is not 0.
    pub open spec fn valid(&self) -> bool {
        self.id != 0
    }

    pub fn is_valid(&self) -> (r: bool)
        ensures
            r == self.valid(),
    {
        self.id != 0
    }

    /// Number of cities the faction holds.
    pub fn city_count(&self) -> (r: usize)
        ensures
            r == self.cities@.len(),
    {
        self.cities.len()
    }
}

/// The faction table; `invalid` is the record handed out for ids outside
/// the table.
pub struct FactionStore {
    pub factions: Vec<Faction>,
    pub invalid: Faction,
}

impl FactionStore {
    /// The table has its 7 slots and the out-of-table record is empty.
    pub open spec fn wf(&self) -> bool {
        &&& self.factions@.len() == FACTION_COUNT
        &&& is_default_faction(self.invalid)
    }

    pub fn new() -> (r: Self)
        ensures
            r.wf(),
            forall|i: int| 0 <= i < FACTION_COUNT ==> is_default_faction(#[trigger] r.factions@[i]),
    {
        let mut factions: Vec<Faction> = Vec::new();
        let mut i: usize = 0;
        while i < FACTION_COUNT
            invariant
                i <= FACTION_COUNT,
                factions@.len() == i,
                forall|j: int| 0 <= j < i ==> is_default_faction(#[trigger] factions@[j]),
            decreases FACTION_COUNT - i,
        {
            factions.push(Faction::default());
            i = i + 1;
        }
        FactionStore { factions, invalid: Faction::default() }
    }

    /// The faction with id `id`; ids from 7 on get the out-of-table record.
    pub fn get(&self, id: u8) -> (r: &Faction)
        requires
            (id as int) < FACTION_COUNT ==> (id as int) < self.factions@.len(),
        ensures
            (id as int) < FACTION_COUNT ==> *r == self.factions@[id as int],
            (id as int) >= FACTION_COUNT ==> *r == self.invalid,
    {
        if (id as usize) < FACTION_COUNT {
            &self.factions[id as usize]
        } else {
            &self.invalid
        }
    }
}

} // verus!
