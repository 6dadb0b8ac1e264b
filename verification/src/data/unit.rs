//! Units: the armies that stand on the map.

use vstd::prelude::*;

verus! {

/// Number of unit slots.
pub const MAX_UNITS: usize = 64;
/// Unit flag bit 5 (deployed).
pub const UNIT_FLAG5: u8 = 0x20;
/// Unit flag bit 6 (extended movement).
pub const UNIT_FLAG6: u8 = 0x40;
/// Sentinel officer id of an empty unit slot.
pub const UNIT_NO_OFFICER: u16 = 0xFFFF;

/// Combat state of a unit.
#[derive(Debug, Clone, Copy, PartialEq, Eq, Structural)]
pub enum UnitState {
    Idle,
    Retreating,
    Destroyed,
}

/// A unit on the map.
#[derive(Debug, Clone, Copy)]
pub struct Unit {
    pub id: u16,
    pub officer_id: u16,
    pub col: u8,
    pub row: u8,
    pub flags: u8,
    /// Movement points.
    pub attr_1b: u8,
    /// Combined strength.
    pub attr_17: u16,
    pub faction_id: u8,
    /// Soldiers in the unit.
    pub troops: u16,
    /// Fatigue, 0..=100 in normal play.
    pub fatigue: u8,
    pub state: UnitState,
}

/// The record of an empty unit slot.
pub open spec fn default_unit() -> Unit {
    Unit {
        id: 0,
        officer_id: UNIT_NO_OFFICER,
        col: 0,
        row: 0,
        flags: 0,
        attr_1b: 0,
        attr_17: 0,
        faction_id: 0,
        troops: 0,
        fatigue: 0,
        state: UnitState::Idle,
    }
}

impl Default for Unit {
    fn default() -> (r: Self)
        ensures
            r == default_unit(),
    {
        Unit {
            id: 0,
            officer_id: UNIT_NO_OFFICER,
            col: 0,
            row: 0,
            flags: 0,
            attr_1b: 0,
            attr_17: 0,
            faction_id: 0,
            troops: 0,
            fatigue: 0,
            state: UnitState::Idle,
        }
    }
}

/// Fighting strength: strength scaled by troops / 100 and by the share of
/// the unit that is not fatigued.
pub open spec fn power_of(u: Unit) -> int {
    let rested = if u.fatigue >= 100 {
        0int
    } else {
        100 - u.fatigue
    };
    (u.attr_17 * u.troops * rested) / 10000
}

/// `b` is one of the six cells around `a` on the staggered grid.
pub open spec fn hex_adjacent(a_col: u8, a_row: u8, b_col: u8, b_row: u8) -> bool {
    let dc = b_col - a_col;
    let dr = b_row - a_row;
    ||| (dc == 0 && dr == -1)
    ||| (dc == 1 && dr == -1)
    ||| (dc == 1 && dr == 0)
    ||| (dc == 0 && dr == 1)
    ||| (dc == -1 && dr == 1)
    ||| (dc == -1 && dr == 0)
}

impl Unit {
    /// A slot holds a live unit: it has an officer and is not destroyed.
    pub open spec fn valid(self) -> bool {
        self.officer_id != UNIT_NO_OFFICER && self.state != UnitState::Destroyed
    }

    /// A live unit with soldiers that is not retreating.
    pub open spec fn combat_ready(self) -> bool {
        self.valid() && self.troops > 0 && self.state == UnitState::Idle
    }

    /// A fresh unit with the given ids; everything else as in an empty slot.
    pub fn new(id: u16, officer_id: u16, faction_id: u8) -> (r: Self)
        ensures
            r == (Unit { id, officer_id, faction_id, ..default_unit() }),
    {
        Unit { id, officer_id, faction_id, ..Unit::default() }
    }

    pub fn is_valid(&self) -> (r: bool)
        ensures
            r == self.valid(),
    {
        self.officer_id != UNIT_NO_OFFICER && self.state != UnitState::Destroyed
    }

    /// Whether flag 5 or flag 6 is set.
    pub fn has_combat_flags(&self) -> (r: bool)
        ensures
            r == (self.flags & (UNIT_FLAG5 | UNIT_FLAG6) != 0),
    {
        self.flags & (UNIT_FLAG5 | UNIT_FLAG6) != 0
    }

    pub fn has_flag5(&self) -> (r: bool)
        ensures
            r == (self.flags & UNIT_FLAG5 != 0),
    {
        self.flags & UNIT_FLAG5 != 0
    }

    pub fn has_flag6(&self) -> (r: bool)
        ensures
            r == (self.flags & UNIT_FLAG6 != 0),
    {
        self.flags & UNIT_FLAG6 != 0
    }

    pub fn is_combat_ready(&self) -> (r: bool)
        ensures
            r == self.combat_ready(),
    {
        self.is_valid() && self.troops > 0 && self.state == UnitState::Idle
    }

    /// Loses `amount` soldiers (never below 0); a unit left without soldiers
    /// is destroyed.
    pub fn take_damage(&mut self, amount: u16)
        ensures
            final(self).troops == (if old(self).troops >= amount {
                old(self).troops - amount
            } else {
                0
            }),
            final(self).state == (if final(self).troops == 0 {
                UnitState::Destroyed
            } else {
                old(self).state
            }),
            *final(self) == (Unit {
                troops: final(self).troops,
                state: final(self).state,
                ..*old(self)
            }),
    {
        self.troops = self.troops.saturating_sub(amount);
        if self.troops == 0 {
            self.state = UnitState::Destroyed;
        }
    }

    /// Fighting strength: `attr_17 * troops * (100 - fatigue) / 10000`,
    /// fatigue counted at most 100.
    pub fn effective_power(&self) -> (r: u32)
        ensures
            r == power_of(*self),
    {
        let rested: u64 = if self.fatigue >= 100 {
            0
        } else {
            100 - self.fatigue as u64
        };
        let a = self.attr_17 as u64;
        let t = self.troops as u64;
        assert(a * t <= 65535 * 65535) by (nonlinear_arith)
            requires
                a <= 65535,
                t <= 65535,
        ;
        assert(a * t * rested <= 65535 * 65535 * 100) by (nonlinear_arith)
            requires
                a * t <= 65535 * 65535,
                rested <= 100,
        ;
        (a * t * rested / 10000) as u32
    }
}

/// Damage never adds soldiers, and a unit that runs out of soldiers is
/// destroyed and no longer valid.
pub proof fn lemma_damage_destroys(before: Unit, after: Unit, amount: u16)
    requires
        after.troops == (if before.troops >= amount {
            before.troops - amount
        } else {
            0
        }),
        after.state == (if after.troops == 0 {
            UnitState::Destroyed
        } else {
            before.state
        }),
    ensures
        after.troops <= before.troops,
        after.troops == 0 ==> !after.valid(),
        amount >= before.troops ==> after.state == UnitState::Destroyed,
{
}

/// The unit slots.
pub struct UnitStore {
    pub units: Vec<Unit>,
}

/// A live unit standing on (`col`, `row`).
pub open spec fn unit_at(u: Unit, col: u8, row: u8) -> bool {
    u.valid() && u.col == col && u.row == row
}

/// A live unit led by `officer_id`.
pub open spec fn unit_of_officer(u: Unit, officer_id: u16) -> bool {
    u.valid() && u.officer_id == officer_id
}

/// A live unit of another faction next to `of`.
pub open spec fn adjacent_enemy(u: Unit, of: Unit) -> bool {
    u.valid() && u.faction_id != of.faction_id && hex_adjacent(of.col, of.row, u.col, u.row)
}

/// Number of live units among the first `n` slots.
pub open spec fn count_valid(s: Seq<Unit>, n: int) -> nat
    decreases n,
{
    if n <= 0 {
        0
    } else {
        count_valid(s, n - 1) + if s[n - 1].valid() {
            1nat
        } else {
            0nat
        }
    }
}

impl UnitStore {
    pub fn new() -> (r: Self)
        ensures
            r.units@.len() == MAX_UNITS,
            forall|i: int| 0 <= i < MAX_UNITS ==> r.units@[i] == default_unit(),
    {
        UnitStore { units: vec![Unit::default(); MAX_UNITS] }
    }

    /// The first live unit standing on (`col`, `row`).
    pub fn find_at(&self, col: u8, row: u8) -> (r: Option<&Unit>)
        ensures
            match r {
                Some(u) => exists|i: int|
                    0 <= i < self.units@.len() && self.units@[i] == *u && unit_at(*u, col, row)
                        && forall|j: int| 0 <= j < i ==> !unit_at(#[trigger] self.units@[j], col, row),
                None => forall|j: int|
                    0 <= j < self.units@.len() ==> !unit_at(#[trigger] self.units@[j], col, row),
            },
    {
        let mut i: usize = 0;
        while i < self.units.len()
            invariant
                i <= self.units@.len(),
                forall|j: int| 0 <= j < i ==> !unit_at(#[trigger] self.units@[j], col, row),
            decreases self.units@.len() - i,
        {
            let u = &self.units[i];
            if u.is_valid() && u.col == col && u.row == row {
                return Some(u);
            }
            i = i + 1;
        }
        None
    }

    /// The first live unit led by `officer_id`.
    pub fn find_by_officer(&self, officer_id: u16) -> (r: Option<&Unit>)
        ensures
            match r {
                Some(u) => exists|i: int|
                    0 <= i < self.units@.len() && self.units@[i] == *u && unit_of_officer(
                        *u,
                        officer_id,
                    ) && forall|j: int|
                        0 <= j < i ==> !unit_of_officer(#[trigger] self.units@[j], officer_id),
                None => forall|j: int|
                    0 <= j < self.units@.len() ==> !unit_of_officer(
                        #[trigger] self.units@[j],
                        officer_id,
                    ),
            },
    {
        let mut i: usize = 0;
        while i < self.units.len()
            invariant
                i <= self.units@.len(),
                forall|j: int| 0 <= j < i ==> !unit_of_officer(#[trigger] self.units@[j], officer_id),
            decreases self.units@.len() - i,
        {
            let u = &self.units[i];
            if u.is_valid() && u.officer_id == officer_id {
                return Some(u);
            }
            i = i + 1;
        }
        None
    }

    /// The first live unit of another faction on one of the six cells
    /// around `unit`.
    pub fn find_adjacent_enemy(&self, unit: &Unit) -> (r: Option<&Unit>)
        ensures
            match r {
                Some(u) => exists|i: int|
                    0 <= i < self.units@.len() && self.units@[i] == *u && adjacent_enemy(*u, *unit)
                        && forall|j: int|
                        0 <= j < i ==> !adjacent_enemy(#[trigger] self.units@[j], *unit),
                None => forall|j: int|
                    0 <= j < self.units@.len() ==> !adjacent_enemy(#[trigger] self.units@[j], *unit),
            },
    {
        let mut i: usize = 0;
        while i < self.units.len()
            invariant
                i <= self.units@.len(),
                forall|j: int| 0 <= j < i ==> !adjacent_enemy(#[trigger] self.units@[j], *unit),
            decreases self.units@.len() - i,
        {
            let u = &self.units[i];
            let dc = u.col as i16 - unit.col as i16;
            let dr = u.row as i16 - unit.row as i16;
            let adjacent = (dc == 0 && dr == -1) || (dc == 1 && dr == -1) || (dc == 1 && dr == 0)
                || (dc == 0 && dr == 1) || (dc == -1 && dr == 1) || (dc == -1 && dr == 0);
            if u.is_valid() && u.faction_id != unit.faction_id && adjacent {
                return Some(u);
            }
            i = i + 1;
        }
        None
    }

    /// Number of live units.
    pub fn active_count(&self) -> (r: usize)
        ensures
            r == count_valid(self.units@, self.units@.len() as int),
    {
        let mut n: usize = 0;
        let mut i: usize = 0;
        while i < self.units.len()
            invariant
                i <= self.units@.len(),
                n == count_valid(self.units@, i as int),
                n <= i,
            decreases self.units@.len() - i,
        {
            if self.units[i].is_valid() {
                n = n + 1;
            }
            i = i + 1;
        }
        n
    }
}

} // verus!
