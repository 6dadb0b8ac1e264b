//! City records and their resource accessors.

use vstd::prelude::*;

verus! {

/// Number of city slots.
pub const CITY_COUNT: usize = 42;
/// Number of playable cities (the first slots).
pub const CITY_PLAYABLE: usize = 21;

/// City record (87 bytes in the original layout).
///
/// `off_0f`, `off_11` and `off_13` are gold, food and troops; `off_18` and
/// `off_19` are development parameters, `off_1c` a multiplier and `off_1d`,
/// `off_1e` consumable resources.
#[derive(Debug, Clone)]
pub struct City {
    pub id: u8,
    /// Owning faction (0 = none).
    pub ownership: u8,
    pub officer_list: u16,
    /// Governor slot.
    pub appoint_1: u16,
    /// Advisor slot.
    pub appoint_2: u16,
    pub off_0f: u16,
    pub off_11: u16,
    pub off_13: u16,
    pub off_15: u16,
    pub off_17: u8,
    pub off_18: u8,
    pub off_19: u8,
    pub off_1a: u8,
    pub off_1c: u8,
    pub off_1d: u8,
    pub off_1e: u8,
    pub off_1f: u8,
    pub off_20: u16,
    pub off_22: u16,
    pub off_24: u16,
    pub off_26: u16,
    pub ext_deplete: [u8; 7],
    pub roster: Vec<u16>,
    pub bitflags: u16,
}

/// `c` is an empty city slot.
pub open spec fn is_default_city(c: City) -> bool {
    &&& c.id == 0
    &&& c.ownership == 0
    &&& c.officer_list == 0xFFFF
    &&& c.appoint_1 == 0xFFFF
    &&& c.appoint_2 == 0xFFFF
    &&& c.off_0f == 0
    &&& c.off_11 == 0
    &&& c.off_13 == 0
    &&& c.off_15 == 0
    &&& c.off_17 == 0
    &&& c.off_18 == 0
    &&& c.off_19 == 0
    &&& c.off_1a == 0
    &&& c.off_1c == 0
    &&& c.off_1d == 0
    &&& c.off_1e == 0
    &&& c.off_1f == 0
    &&& c.off_20 == 0
    &&& c.off_22 == 0
    &&& c.off_24 == 0
    &&& c.off_26 == 0
    &&& c.ext_deplete@ == seq![0u8, 0, 0, 0, 0, 0, 0]
    &&& c.roster@ == Seq::<u16>::empty()
    &&& c.bitflags == 0
}

impl Default for City {
    fn default() -> (r: Self)
        ensures
            is_default_city(r),
    {
        let c = City {
            id: 0,
            ownership: 0,
            officer_list: 0xFFFF,
            appoint_1: 0xFFFF,
            appoint_2: 0xFFFF,
            off_0f: 0,
            off_11: 0,
            off_13: 0,
            off_15: 0,
            off_17: 0,
            off_18: 0,
            off_19: 0,
            off_1a: 0,
            off_1c: 0,
            off_1d: 0,
            off_1e: 0,
            off_1f: 0,
            off_20: 0,
            off_22: 0,
            off_24: 0,
            off_26: 0,
            ext_deplete: [0; 7],
            roster: Vec::new(),
            bitflags: 0,
        };
        assert(c.ext_deplete@ =~= seq![0u8, 0, 0, 0, 0, 0, 0]);
        c
    }
}

/// The word field at a record offset (0 for offsets without a word field).
pub open spec fn word_at(c: City, offset: u8) -> u16 {
    if offset == 0x0F {
        c.off_0f
    } else if offset == 0x11 {
        c.off_11
    } else if offset == 0x13 {
        c.off_13
    } else if offset == 0x15 {
        c.off_15
    } else if offset == 0x20 {
        c.off_20
    } else if offset == 0x22 {
        c.off_22
    } else if offset == 0x24 {
        c.off_24
    } else if offset == 0x26 {
        c.off_26
    } else {
        0
    }
}

/// Offsets that hold a word field.
pub open spec fn is_word_offset(offset: u8) -> bool {
    offset == 0x0F || offset == 0x11 || offset == 0x13 || offset == 0x15 || offset == 0x20
        || offset == 0x22 || offset == 0x24 || offset == 0x26
}

/// The byte stat at a record offset (0 for offsets without a byte stat).
pub open spec fn stat_at(c: City, offset: u8) -> u8 {
    if offset == 0x18 {
        c.off_18
    } else if offset == 0x19 {
        c.off_19
    } else if offset == 0x1A {
        c.off_1a
    } else if offset == 0x1C {
        c.off_1c
    } else if offset == 0x1D {
        c.off_1d
    } else if offset == 0x1E {
        c.off_1e
    } else if offset == 0x1F {
        c.off_1f
    } else {
        0
    }
}

/// `a - b`, or 0 when `b` exceeds `a`.
pub open spec fn sat_sub_u8(a: u8, b: u8) -> u8 {
    if a >= b {
        (a - b) as u8
    } else {
        0
    }
}

/// `c` with the word field at `offset` set to `val` (unchanged for offsets
/// without a word field).
pub open spec fn with_word(c: City, offset: u8, val: u16) -> City {
    if offset == 0x0F {
        City { off_0f: val, ..c }
    } else if offset == 0x11 {
        City { off_11: val, ..c }
    } else if offset == 0x13 {
        City { off_13: val, ..c }
    } else if offset == 0x15 {
        City { off_15: val, ..c }
    } else if offset == 0x20 {
        City { off_20: val, ..c }
    } else if offset == 0x22 {
        City { off_22: val, ..c }
    } else if offset == 0x24 {
        City { off_24: val, ..c }
    } else if offset == 0x26 {
        City { off_26: val, ..c }
    } else {
        c
    }
}

/// `c` with `amount` consumed from the byte resource at `offset` (0x1D,
/// 0x1E, 0x18 or 0x19), never below 0; unchanged for other offsets.
pub open spec fn with_stat_dec(c: City, offset: u8, amount: u8) -> City {
    if offset == 0x1D {
        City { off_1d: sat_sub_u8(c.off_1d, amount), ..c }
    } else if offset == 0x1E {
        City { off_1e: sat_sub_u8(c.off_1e, amount), ..c }
    } else if offset == 0x18 {
        City { off_18: sat_sub_u8(c.off_18, amount), ..c }
    } else if offset == 0x19 {
        City { off_19: sat_sub_u8(c.off_19, amount), ..c }
    } else {
        c
    }
}

/// The development output: `((off_18 / 2) * (off_1c + 1) + off_18) *
/// governance`.
pub open spec fn development_output(c: City, governance: u16) -> int {
    ((c.off_18 / 2) * (c.off_1c + 1) + c.off_18) * governance
}

impl City {
    /// A city is valid when some faction owns it.
    pub open spec fn valid(&self) -> bool {
        self.ownership != 0
    }

    pub fn is_valid(&self) -> (r: bool)
        ensures
            r == self.valid(),
    {
        self.ownership != 0
    }

    /// The word field at `offset` (0x0F, 0x11, 0x13, 0x15, 0x20, 0x22, 0x24,
    /// 0x26); 0 for any other offset.
    pub fn get_word_off(&self, offset: u8) -> (r: u16)
        ensures
            r == word_at(*self, offset),
    {
        match offset {
            0x0F => self.off_0f,
            0x11 => self.off_11,
            0x13 => self.off_13,
            0x15 => self.off_15,
            0x20 => self.off_20,
            0x22 => self.off_22,
            0x24 => self.off_24,
            0x26 => self.off_26,
            _ => 0,
        }
    }

    /// Writes the word field at `offset`; other offsets are ignored.
    pub fn set_word_off(&mut self, offset: u8, val: u16)
        ensures
            *final(self) == with_word(*old(self), offset, val),
    {
        match offset {
            0x0F => self.off_0f = val,
            0x11 => self.off_11 = val,
            0x13 => self.off_13 = val,
            0x15 => self.off_15 = val,
            0x20 => self.off_20 = val,
            0x22 => self.off_22 = val,
            0x24 => self.off_24 = val,
            0x26 => self.off_26 = val,
            _ => {},
        }
    }

    /// Consumes `amount` of the byte resource at `offset` (0x1D, 0x1E, 0x18,
    /// 0x19), never going below 0; other offsets are ignored.
    pub fn stat_dec(&mut self, offset: u8, amount: u8)
        ensures
            *final(self) == with_stat_dec(*old(self), offset, amount),
    {
        match offset {
            0x1D => self.off_1d = self.off_1d.saturating_sub(amount),
            0x1E => self.off_1e = self.off_1e.saturating_sub(amount),
            0x18 => self.off_18 = self.off_18.saturating_sub(amount),
            0x19 => self.off_19 = self.off_19.saturating_sub(amount),
            _ => {},
        }
    }

    /// The byte stat at `offset` (0x18, 0x19, 0x1A, 0x1C, 0x1D, 0x1E,
    /// 0x1F); 0 for any other offset.
    pub fn stat_read(&self, offset: u8) -> (r: u8)
        ensures
            r == stat_at(*self, offset),
    {
        match offset {
            0x18 => self.off_18,
            0x19 => self.off_19,
            0x1A => self.off_1a,
            0x1C => self.off_1c,
            0x1D => self.off_1d,
            0x1E => self.off_1e,
            0x1F => self.off_1f,
            _ => 0,
        }
    }

    /// Clears ownership, the officer list, the appointments, the officer
    /// byte and the flags of a conquered city.
    pub fn reset(&mut self)
        ensures
            *final(self) == (City {
                ownership: 0,
                officer_list: 0xFFFF,
                appoint_1: 0,
                appoint_2: 0,
                off_17: 0,
                bitflags: 0,
                ..*old(self)
            }),
    {
        self.ownership = 0;
        self.officer_list = 0xFFFF;
        self.appoint_1 = 0;
        self.appoint_2 = 0;
        self.off_17 = 0;
        self.bitflags = 0;
    }

    /// `((off_18 / 2) * (off_1c + 1) + off_18) * governance`.
    pub fn compute_development_output(&self, governance: u16) -> (r: u32)
        ensures
            r == development_output(*self, governance),
    {
        let base = self.off_18 as u32;
        let multiplier = (self.off_1c as u32) + 1;
        assert((base / 2) * multiplier <= 127 * 256) by (nonlinear_arith)
            requires
                base <= 255,
                multiplier <= 256,
        ;
        let result = (base / 2) * multiplier + base;
        let g = governance as u32;
        assert(result * g <= 32767 * 65535) by (nonlinear_arith)
            requires
                result <= 32767,
                g <= 65535,
        ;
        result * g
    }

    /// Officer production, `officer_value * 125`, saturating at
    /// `u32::MAX`.
    pub fn compute_officer_production(&self, officer_value: u32) -> (r: u32)
        ensures
            r == (if officer_value * 125 > u32::MAX {
                u32::MAX as int
            } else {
                officer_value * 125
            }),
    {
        match officer_value.checked_mul(125) {
            Some(v) => v,
            None => u32::MAX,
        }
    }
}

/// Writing a word field and reading it back gives the written value, and
/// leaves the other word fields as they were.
pub proof fn lemma_word_roundtrip(c: City, offset: u8, val: u16, other: u8)
    requires
        is_word_offset(offset),
    ensures
        word_at(with_word(c, offset, val), offset) == val,
        other != offset ==> word_at(with_word(c, offset, val), other) == word_at(c, other),
{
}

/// Consuming a resource never raises it, and leaves the other byte stats
/// as they were.
pub proof fn lemma_stat_dec_never_raises(c: City, offset: u8, amount: u8, other: u8)
    ensures
        stat_at(with_stat_dec(c, offset, amount), offset) <= stat_at(c, offset),
        other != offset ==> stat_at(with_stat_dec(c, offset, amount), other) == stat_at(c, other),
{
}

/// The city table, indexed by city id; `invalid` is the record handed out
/// for ids outside the table.
pub struct CityStore {
    pub cities: Vec<City>,
    pub invalid: City,
}

impl CityStore {
    /// The table has its 42 slots and the out-of-table record is empty.
    pub open spec fn wf(&self) -> bool {
        &&& self.cities@.len() == CITY_COUNT
        &&& is_default_city(self.invalid)
    }

    /// The city with id `id`, or the out-of-table record for ids from 42 on.
    pub open spec fn city(&self, id: u8) -> City {
        if (id as int) < CITY_COUNT {
            self.cities@[id as int]
        } else {
            self.invalid
        }
    }

    pub fn new() -> (r: Self)
        ensures
            r.wf(),
            forall|i: int| 0 <= i < CITY_COUNT ==> is_default_city(#[trigger] r.cities@[i]),
    {
        let mut cities: Vec<City> = Vec::new();
        let mut i: usize = 0;
        while i < CITY_COUNT
            invariant
                i <= CITY_COUNT,
                cities@.len() == i,
                forall|j: int| 0 <= j < i ==> is_default_city(#[trigger] cities@[j]),
            decreases CITY_COUNT - i,
        {
            cities.push(City::default());
            i = i + 1;
        }
        CityStore { cities, invalid: City::default() }
    }

    /// The city with id `id`; ids from 42 on get the out-of-table record.
    pub fn get(&self, id: u8) -> (r: &City)
        requires
            (id as int) < CITY_COUNT ==> (id as int) < self.cities@.len(),
        ensures
            *r == self.city(id),
    {
        if (id as usize) < CITY_COUNT {
            &self.cities[id as usize]
        } else {
            &self.invalid
        }
    }

    /// Mutable access to the city with id `id`.
    pub fn get_mut(&mut self, id: u8) -> (r: &mut City)
        requires
            (id as int) < old(self).cities@.len(),
        ensures
            *r == old(self).cities@[id as int],
            final(self).cities@ == old(self).cities@.update(id as int, *final(r)),
            final(self).invalid == old(self).invalid,
    {
        &mut self.cities[id as usize]
    }
}

} // verus!
