//! Officer records, their bitfield accessors and the officer table.

use vstd::prelude::*;

verus! {

/// Lowest valid officer id.
pub const OFFICER_ID_MIN: u16 = 1;
/// Highest valid officer id.
pub const OFFICER_ID_MAX: u16 = 400;
/// Number of slots in the officer table (slot 0 is never a valid officer).
pub const OFFICER_COUNT: usize = 401;
/// Sentinel value for "no officer".
pub const OFFICER_INVALID: u16 = 0xFFFF;

/// Category of an officer, as derived by `Officer::get_category`.
#[derive(Debug, Clone, Copy, PartialEq, Eq, Structural)]
pub enum OfficerCategory {
    Loyal,
    Rebellious,
    Captured,
    Independent,
    Remnant,
    Special1,
    Special2,
    Reserved7,
    Reserved8,
    Reserved9,
    Special3,
}

/// Officer record (20-byte layout A).
///
/// `off3` packs two sub-categories in its nibbles, `off4`/`off5`/`off6` are
/// the INT/POL/CHR stats, bit 15 of `off9` marks a dead or incapacitated
/// officer and a loyalty of 0xFF is the "invalid" sentinel.
#[derive(Debug, Clone, Copy)]
pub struct Officer {
    pub id: u16,
    pub off3: u8,
    pub off4: u8,
    pub off5: u8,
    pub off6: u8,
    pub off7: u16,
    pub off9: u16,
    pub loyalty: u8,
    pub flag_e: u16,
    pub flag_10: u16,
    pub flag_12: u16,
}

/// The record of an empty officer slot.
pub open spec fn default_officer() -> Officer {
    Officer {
        id: 0,
        off3: 0,
        off4: 0,
        off5: 0,
        off6: 0,
        off7: 0,
        off9: 0,
        loyalty: 0xFF,
        flag_e: 0,
        flag_10: 0,
        flag_12: 0,
    }
}

impl Default for Officer {
    fn default() -> (r: Self)
        ensures
            r == default_officer(),
    {
        Officer {
            id: 0,
            off3: 0,
            off4: 0,
            off5: 0,
            off6: 0,
            off7: 0,
            off9: 0,
            loyalty: 0xFF,
            flag_e: 0,
            flag_10: 0,
            flag_12: 0,
        }
    }
}

/// `r` is the lowest set bit of `m`: a single bit, set in `m`, with no bit of
/// `m` below it.
pub open spec fn is_lowest_set_bit(m: u16, r: u16) -> bool {
    &&& r != 0
    &&& r & ((r - 1) as u16) == 0
    &&& m & r == r
    &&& m & ((r - 1) as u16) == 0
}

/// The lowest set bit of a nonzero mask.
pub open spec fn lowest_set_bit(m: u16) -> u16 {
    choose|r: u16| is_lowest_set_bit(m, r)
}

/// The bit ratio of `data` under `mask`: the bits of `data` selected by the
/// mask, shifted down to the mask's lowest bit. A zero mask gives the high
/// byte of `data`.
pub open spec fn bit_ratio_spec(data: u16, mask: u16) -> u16 {
    if mask == 0 {
        data & 0xFF00
    } else {
        ((mask & data) / lowest_set_bit(mask)) as u16
    }
}

/// The stat derived from a bit ratio: 100 at ratio 0, falling by 5 per step,
/// 0 from ratio 20 on.
pub open spec fn stat_from_ratio(ratio: u16) -> u16 {
    if ratio >= 20 {
        0
    } else {
        ((20 - ratio) * 5) as u16
    }
}

/// Upper sub-category of a packed category byte (0xFF when the nibble is 0xF).
pub open spec fn nibble_hi(off3: u8) -> u8 {
    if off3 / 16 == 15 {
        0xFF
    } else {
        off3 / 16
    }
}

/// Lower sub-category of a packed category byte, offset by 4 (0xFF when the
/// nibble is 0xF).
pub open spec fn nibble_lo(off3: u8) -> u8 {
    if off3 % 16 == 15 {
        0xFF
    } else {
        (off3 % 16 + 4) as u8
    }
}

/// The stat falls by 5 with each step of the ratio, from 100 at ratio 0
/// to 0 at ratio 20, and stays 0 beyond. The two sub-categories are the
/// high and low nibbles of the category byte (the low one offset by 4),
/// with 0xFF for a nibble of 15.
pub proof fn lemma_officer_field_rules(ratio: u16, off3: u8)
    ensures
        stat_from_ratio(0) == 100,
        ratio < 20 ==> stat_from_ratio((ratio + 1) as u16) + 5 == stat_from_ratio(ratio),
        ratio >= 20 ==> stat_from_ratio(ratio) == 0,
        stat_from_ratio(ratio) <= 100,
        (off3 >> 4u8) == 15 ==> nibble_hi(off3) == 0xFF,
        (off3 >> 4u8) != 15 ==> nibble_hi(off3) == off3 >> 4u8,
        (off3 & 15) == 15 ==> nibble_lo(off3) == 0xFF,
        (off3 & 15) != 15 ==> nibble_lo(off3) == (off3 & 15) + 4,
{
    assert(off3 >> 4u8 == off3 / 16 && off3 & 15 == off3 % 16) by (bit_vector);
}

/// The category of an officer.
pub open spec fn category_of(o: Officer) -> OfficerCategory {
    if bit_ratio_spec(o.off7, o.off9) == 7 || bit_ratio_spec(o.off7, o.off9) == 8 {
        OfficerCategory::Loyal
    } else if o.flag_12 & 0x1000 != 0 {
        OfficerCategory::Rebellious
    } else if o.off9 & 0x8000 != 0 {
        OfficerCategory::Captured
    } else {
        OfficerCategory::Independent
    }
}

impl Officer {
    /// A valid officer has an id in 1..=400.
    pub open spec fn valid(self) -> bool {
        self.id != 0 && self.id <= OFFICER_ID_MAX
    }

    /// Bit 15 of `off9` marks a dead or incapacitated officer.
    pub open spec fn disabled(self) -> bool {
        self.off9 & 0x8000 != 0
    }

    /// The empty-slot record.
    pub fn invalid() -> (r: Self)
        ensures
            r == default_officer(),
    {
        Self::default()
    }

    pub fn is_valid(&self) -> (r: bool)
        ensures
            r == self.valid(),
    {
        self.id != 0 && self.id <= OFFICER_ID_MAX
    }

    pub fn is_disabled(&self) -> (r: bool)
        ensures
            r == self.disabled(),
    {
        self.off9 & 0x8000 != 0
    }

    /// `off7`, or 0 for a disabled officer.
    pub fn get_off7_cond(&self) -> (r: u16)
        ensures
            r == (if self.disabled() { 0 } else { self.off7 }),
    {
        if self.is_disabled() {
            0
        } else {
            self.off7
        }
    }

    pub fn test_flag_e(&self, mask: u16) -> (r: bool)
        ensures
            r == (self.flag_e & mask != 0),
    {
        self.flag_e & mask != 0
    }

    pub fn test_flag_10(&self, mask: u16) -> (r: bool)
        ensures
            r == (self.flag_10 & mask != 0),
    {
        self.flag_10 & mask != 0
    }

    pub fn set_flag_e(&mut self, mask: u16)
        ensures
            *final(self) == (Officer { flag_e: old(self).flag_e | mask, ..*old(self) }),
    {
        self.flag_e = self.flag_e | mask;
    }

    pub fn clear_flag_e(&mut self, mask: u16)
        ensures
            *final(self) == (Officer { flag_e: old(self).flag_e & !mask, ..*old(self) }),
    {
        self.flag_e = self.flag_e & !mask;
    }

    pub fn test_flag_12(&self, mask: u16) -> (r: bool)
        ensures
            r == (self.flag_12 & mask != 0),
    {
        self.flag_12 & mask != 0
    }

    pub fn set_flag_12(&mut self, mask: u16)
        ensures
            *final(self) == (Officer { flag_12: old(self).flag_12 | mask, ..*old(self) }),
    {
        self.flag_12 = self.flag_12 | mask;
    }

    pub fn clear_flag_12(&mut self, mask: u16)
        ensures
            *final(self) == (Officer { flag_12: old(self).flag_12 & !mask, ..*old(self) }),
    {
        self.flag_12 = self.flag_12 & !mask;
    }

    /// Whether any bit of `mask_e` is set in `flag_e` or any bit of
    /// `mask_10` in `flag_10`.
    pub fn test_flags_any(&self, mask_e: u16, mask_10: u16) -> (r: bool)
        ensures
            r == (self.flag_e & mask_e != 0 || self.flag_10 & mask_10 != 0),
    {
        self.flag_e & mask_e != 0 || self.flag_10 & mask_10 != 0
    }

    pub fn set_flags_both(&mut self, mask_e: u16, mask_10: u16)
        ensures
            *final(self) == (Officer {
                flag_e: old(self).flag_e | mask_e,
                flag_10: old(self).flag_10 | mask_10,
                ..*old(self)
            }),
    {
        self.flag_e = self.flag_e | mask_e;
        self.flag_10 = self.flag_10 | mask_10;
    }

    /// `(mask & data) / lowest_bit(mask)`, or the high byte of `data` for a
    /// zero mask.
    pub fn bit_ratio(data: u16, mask: u16) -> (r: u16)
        ensures
            r == bit_ratio_spec(data, mask),
    {
        if mask == 0 {
            return data & 0xFF00;
        }
        assert(mask != 0 ==> !mask < 0xFFFFu16) by (bit_vector);
        let lowest = mask & (!mask + 1);
        proof {
            lemma_lowest_set_bit(mask);
        }
        (mask & data) / lowest
    }

    pub fn bit_ratio_is_7(data: u16, mask: u16) -> (r: bool)
        ensures
            r == (bit_ratio_spec(data, mask) == 7),
    {
        Self::bit_ratio(data, mask) == 7
    }

    pub fn bit_ratio_is_8(data: u16, mask: u16) -> (r: bool)
        ensures
            r == (bit_ratio_spec(data, mask) == 8),
    {
        Self::bit_ratio(data, mask) == 8
    }

    /// `(20 - ratio) * 5`, or 0 from ratio 20 on.
    pub fn calc_stat_from_ratio(ratio: u16) -> (r: u16)
        ensures
            r == stat_from_ratio(ratio),
            r <= 100,
    {
        if ratio >= 20 {
            0
        } else {
            (20 - ratio) * 5
        }
    }

    pub fn nibble_hi_get(off3: u8) -> (r: u8)
        ensures
            r == nibble_hi(off3),
    {
        let val = off3 >> 4;
        assert(off3 >> 4 == off3 / 16) by (bit_vector);
        if val == 0xF {
            0xFF
        } else {
            val
        }
    }

    pub fn nibble_lo_get(off3: u8) -> (r: u8)
        ensures
            r == nibble_lo(off3),
    {
        let val = off3 & 0x0F;
        assert(off3 & 0x0F == off3 % 16) by (bit_vector);
        if val == 0xF {
            0xFF
        } else {
            val + 4
        }
    }

    /// The category byte with its two nibbles swapped.
    pub fn off_1a(&self) -> (r: u8)
        ensures
            r == self.off3 / 16 + (self.off3 % 16) * 16,
    {
        let b = self.off3;
        assert((b >> 4) | ((b & 0x0F) << 4) == b / 16 + (b % 16) * 16) by (bit_vector);
        (b >> 4) | ((b & 0x0F) << 4)
    }

    pub fn get_category(&self) -> (r: OfficerCategory)
        ensures
            r == category_of(*self),
    {
        let r7 = Self::bit_ratio_is_7(self.off7, self.off9);
        let r8 = Self::bit_ratio_is_8(self.off7, self.off9);
        if r7 || r8 {
            return OfficerCategory::Loyal;
        }
        if self.test_flag_12(0x1000) {
            return OfficerCategory::Rebellious;
        }
        if self.off9 & 0x8000 != 0 {
            return OfficerCategory::Captured;
        }
        OfficerCategory::Independent
    }
}

/// `m & (!m + 1)` is the lowest set bit of a nonzero `m`, and the lowest set
/// bit is unique.
pub proof fn lemma_lowest_set_bit(m: u16)
    requires
        m != 0,
    ensures
        is_lowest_set_bit(m, (m & ((!m + 1) as u16)) as u16),
        lowest_set_bit(m) == (m & ((!m + 1) as u16)) as u16,
{
    let w = (m & ((!m + 1) as u16)) as u16;
    assert(m != 0 ==> is_lowest_set_bit(m, (m & ((!m + 1) as u16)) as u16)) by (bit_vector);
    let c = lowest_set_bit(m);
    assert(is_lowest_set_bit(m, c));
    assert(is_lowest_set_bit(m, w) && is_lowest_set_bit(m, c) ==> w == c) by (bit_vector);
}

/// Extended officer record (layout B).
#[derive(Debug, Clone, Copy)]
pub struct OfficerExtB {
    pub field_14: u16,
    pub field_16: u16,
    pub field_18: u8,
}

impl Default for OfficerExtB {
    fn default() -> (r: Self)
        ensures
            r == (OfficerExtB { field_14: 0, field_16: 0, field_18: 0 }),
    {
        OfficerExtB { field_14: 0, field_16: 0, field_18: 0 }
    }
}

/// Alternate officer record (layout C); `nibble_byte` packs two
/// sub-categories.
#[derive(Debug, Clone, Copy)]
pub struct OfficerExtC {
    pub alt_off0: u8,
    pub war: u8,
    pub alt_off4: u8,
    pub nibble_byte: u8,
    pub flag_d: u16,
}

impl Default for OfficerExtC {
    fn default() -> (r: Self)
        ensures
            r == (OfficerExtC { alt_off0: 0, war: 0, alt_off4: 0, nibble_byte: 0, flag_d: 0 }),
    {
        OfficerExtC { alt_off0: 0, war: 0, alt_off4: 0, nibble_byte: 0, flag_d: 0 }
    }
}

/// The officer table, indexed by officer id. `invalid` is the record handed
/// out for ids outside the table.
pub struct OfficerStore {
    pub officers: Vec<Officer>,
    pub ext_b: Vec<OfficerExtB>,
    pub ext_c: Vec<OfficerExtC>,
    pub invalid: Officer,
}

/// Ids that `OfficerStore::get` answers with the empty record.
pub open spec fn officer_id_out_of_table(id: u16) -> bool {
    id == 0 || id as int > OFFICER_COUNT as int
}

impl OfficerStore {
    /// The table has its 401 slots and the out-of-table record is empty.
    pub open spec fn wf(&self) -> bool {
        &&& self.officers@.len() == OFFICER_COUNT
        &&& self.invalid == default_officer()
    }

    pub fn new() -> (r: Self)
        ensures
            r.wf(),
            r.ext_b@.len() == OFFICER_COUNT,
            r.ext_c@.len() == OFFICER_COUNT,
            forall|i: int| 0 <= i < OFFICER_COUNT ==> r.officers@[i] == default_officer(),
    {
        OfficerStore {
            officers: vec![Officer::default(); OFFICER_COUNT],
            ext_b: vec![OfficerExtB::default(); OFFICER_COUNT],
            ext_c: vec![OfficerExtC::default(); OFFICER_COUNT],
            invalid: Officer::invalid(),
        }
    }

    /// The officer with id `id`; ids 0 and above 401 get the out-of-table
    /// record.
    pub fn get(&self, id: u16) -> (r: &Officer)
        requires
            officer_id_out_of_table(id) || (id as int) < self.officers@.len(),
        ensures
            officer_id_out_of_table(id) ==> *r == self.invalid,
            !officer_id_out_of_table(id) ==> *r == self.officers@[id as int],
    {
        if id == 0 || id as usize > OFFICER_COUNT {
            &self.invalid
        } else {
            &self.officers[id as usize]
        }
    }

    /// Mutable access to the officer with id `id`.
    pub fn get_mut(&mut self, id: u16) -> (r: &mut Officer)
        requires
            !officer_id_out_of_table(id),
            (id as int) < old(self).officers@.len(),
        ensures
            *r == old(self).officers@[id as int],
            final(self).officers@ == old(self).officers@.update(id as int, *final(r)),
            final(self).ext_b@ == old(self).ext_b@,
            final(self).ext_c@ == old(self).ext_c@,
            final(self).invalid == old(self).invalid,
    {
        &mut self.officers[id as usize]
    }
}

} // verus!
