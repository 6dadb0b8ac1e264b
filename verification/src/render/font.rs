//! Font bitmaps, the text cursor, and character widths.

use vstd::prelude::*;

verus! {

/// A byte of an 8-pixel glyph row doubled: the first half is the byte
/// shifted right with its lowest bit kept.
pub open spec fn expand8_first(s: u8) -> u8 {
    (s >> 1u8) | (s & 1)
}

/// The second half of a doubled 8-pixel glyph byte: the byte shifted left.
pub open spec fn expand8_second(s: u8) -> u8 {
    (s << 1u8) as u8
}

/// Byte `2 i` of a doubled 16-pixel row: byte `i`, with the lowest bit of
/// byte `i - 1` carried into its top bit.
pub open spec fn expand16_even(src: Seq<u8>, i: int) -> u8 {
    if i > 0 && src[i - 1] & 1 != 0 {
        src[i] | 0x80
    } else {
        src[i]
    }
}

/// Byte `2 i + 1` of a doubled 16-pixel row: byte `i` shifted left, with
/// the top bit of byte `i + 1` carried into its lowest bit.
pub open spec fn expand16_odd(src: Seq<u8>, i: int) -> u8 {
    if i + 1 < src.len() && src[i + 1] & 0x80 != 0 {
        ((src[i] << 1u8) as u8) | 1
    } else {
        (src[i] << 1u8) as u8
    }
}

/// Byte `j` of a doubled 8-pixel row (see `expand8_first`,
/// `expand8_second`).
pub open spec fn expand8_at(src: Seq<u8>, j: int) -> u8 {
    if j % 2 == 0 {
        expand8_first(src[j / 2])
    } else {
        expand8_second(src[j / 2])
    }
}

/// Byte `j` of a doubled 16-pixel row (see `expand16_even`,
/// `expand16_odd`).
pub open spec fn expand16_at(src: Seq<u8>, j: int) -> u8 {
    if j % 2 == 0 {
        expand16_even(src, j / 2)
    } else {
        expand16_odd(src, j / 2)
    }
}

/// Text renderer: glyph size, bitmap, and the cursor.
pub struct FontRenderer {
    pub char_width: u8,
    pub char_height: u8,
    pub bitmap_data: Vec<u8>,
    pub cursor_x: u16,
    pub cursor_y: u16,
    pub cursor_visible: bool,
}

impl Default for FontRenderer {
    fn default() -> (r: Self)
        ensures
            r.char_width == 8,
            r.char_height == 16,
            r.bitmap_data@ == Seq::<u8>::empty(),
            r.cursor_x == 0,
            r.cursor_y == 0,
            !r.cursor_visible,
    {
        FontRenderer {
            char_width: 8,
            char_height: 16,
            bitmap_data: Vec::new(),
            cursor_x: 0,
            cursor_y: 0,
            cursor_visible: false,
        }
    }
}

impl FontRenderer {
    /// An 8x16 renderer with no bitmap and a hidden cursor at the origin.
    pub fn new() -> (r: Self)
        ensures
            r.char_width == 8,
            r.char_height == 16,
            r.bitmap_data@ == Seq::<u8>::empty(),
            r.cursor_x == 0,
            r.cursor_y == 0,
            !r.cursor_visible,
    {
        Self::default()
    }

    /// Doubles 8-pixel glyph bytes into pairs of `dst`, as many as both
    /// buffers hold; the rest of `dst` is untouched.
    pub fn expand_bitmap_8px(src: &[u8], dst: &mut [u8])
        ensures
            final(dst)@.len() == old(dst)@.len(),
            forall|j: int|
                0 <= j < old(dst)@.len() ==> #[trigger] final(dst)@[j] == if j / 2 < src@.len() && j
                    / 2 < old(dst)@.len() / 2 {
                    expand8_at(src@, j)
                } else {
                    old(dst)@[j]
                },
    {
        let dl = dst.len();
        let n = if src.len() < dl / 2 {
            src.len()
        } else {
            dl / 2
        };
        let mut k: usize = 0;
        while k < n
            invariant
                k <= n,
                dl == dst@.len(),
                n == (if src@.len() < dl / 2 {
                    src@.len() as int
                } else {
                    (dl / 2) as int
                }),
                dst@.len() == old(dst)@.len(),
                forall|j: int| 0 <= j < 2 * k ==> #[trigger] dst@[j] == expand8_at(src@, j),
                forall|j: int| 2 * k <= j < dst@.len() ==> #[trigger] dst@[j] == old(dst)@[j],
            decreases n - k,
        {
            let s = src[k];
            dst[2 * k] = (s >> 1) | (s & 1);
            dst[2 * k + 1] = s << 1;
            k = k + 1;
        }
    }

    /// Doubles a 16-pixel glyph row (at most 16 bytes of `src`) into
    /// `dst`, carrying bits across byte boundaries (see `expand16_at`);
    /// the rest of `dst` is untouched.
    pub fn expand_bitmap_16px(src: &[u8], dst: &mut [u8])
        requires
            old(dst)@.len() >= 2 * (if src@.len() < 16 {
                src@.len() as int
            } else {
                16
            }),
        ensures
            final(dst)@.len() == old(dst)@.len(),
            forall|j: int|
                0 <= j < old(dst)@.len() ==> #[trigger] final(dst)@[j] == if j / 2 < src@.len() && j
                    / 2 < 16 {
                    expand16_at(src@, j)
                } else {
                    old(dst)@[j]
                },
    {
        let n = if src.len() < 16 {
            src.len()
        } else {
            16
        };
        let mut i: usize = 0;
        while i < n
            invariant
                i <= n,
                n == (if src@.len() < 16 {
                    src@.len() as int
                } else {
                    16
                }),
                2 * n <= dst@.len(),
                dst@.len() == old(dst)@.len(),
                forall|j: int| 0 <= j < 2 * i ==> #[trigger] dst@[j] == expand16_at(src@, j),
                forall|j: int| 2 * i <= j < dst@.len() ==> #[trigger] dst@[j] == old(dst)@[j],
            decreases n - i,
        {
            let byte = src[i];
            let mut even = byte;
            if i > 0 {
                even = even | if src[i - 1] & 1 != 0 {
                    0x80
                } else {
                    0
                };
            }
            let mut odd = byte << 1;
            if i + 1 < src.len() {
                odd = odd | if src[i + 1] & 0x80 != 0 {
                    1
                } else {
                    0
                };
            }
            assert(byte | 0u8 == byte) by (bit_vector);
            assert(((byte << 1u8) as u8) | 0u8 == (byte << 1u8) as u8) by (bit_vector);
            dst[2 * i] = even;
            dst[2 * i + 1] = odd;
            i = i + 1;
        }
    }

    /// Whether `ch` is a Shift-JIS lead byte: 0x81..=0x9F or 0xE0..=0xFC.
    pub fn is_sjis_range(ch: u8) -> (r: bool)
        ensures
            r == ((0x81 <= ch <= 0x9F) || (0xE0 <= ch <= 0xFC)),
    {
        (0x81 <= ch && ch <= 0x9F) || (0xE0 <= ch && ch <= 0xFC)
    }

    /// Flips the cursor's visibility.
    pub fn toggle_cursor_blink(&mut self)
        ensures
            final(self).cursor_visible == !old(self).cursor_visible,
            final(self).char_width == old(self).char_width,
            final(self).char_height == old(self).char_height,
            final(self).bitmap_data@ == old(self).bitmap_data@,
            final(self).cursor_x == old(self).cursor_x,
            final(self).cursor_y == old(self).cursor_y,
    {
        self.cursor_visible = !self.cursor_visible;
    }

    /// Moves the cursor to `(x, y)`.
    pub fn set_cursor_pos(&mut self, x: u16, y: u16)
        ensures
            final(self).cursor_x == x,
            final(self).cursor_y == y,
            final(self).cursor_visible == old(self).cursor_visible,
            final(self).char_width == old(self).char_width,
            final(self).char_height == old(self).char_height,
            final(self).bitmap_data@ == old(self).bitmap_data@,
    {
        self.cursor_x = x;
        self.cursor_y = y;
    }
}

/// The total width of the characters of `s`.
pub open spec fn widths_sum(widths: Seq<u8>, s: Seq<u8>) -> int
    decreases s.len(),
{
    if s.len() == 0 {
        0
    } else {
        widths_sum(widths, s.drop_last()) + widths[s.last() as int]
    }
}

/// Width of each of the 256 character codes.
pub struct FontWidthTable {
    widths: [u8; 256],
}

impl View for FontWidthTable {
    type V = Seq<u8>;

    closed spec fn view(&self) -> Seq<u8> {
        self.widths@
    }
}

impl Default for FontWidthTable {
    fn default() -> (r: Self)
        ensures
            r@.len() == 256,
            forall|c: int| 0 <= c < 256 ==> r@[c] == 8,
    {
        FontWidthTable { widths: [8; 256] }
    }
}

impl FontWidthTable {
    /// Holds a width for each of the 256 codes.
    pub closed spec fn wf(&self) -> bool {
        self.widths@.len() == 256
    }

    /// Every character 8 pixels wide.
    pub fn new() -> (r: Self)
        ensures
            r.wf(),
            r@.len() == 256,
            forall|c: int| 0 <= c < 256 ==> r@[c] == 8,
    {
        Self::default()
    }

    /// The width of `ch`.
    pub fn get_width(&self, ch: u8) -> (r: u8)
        requires
            self.wf(),
        ensures
            r == self@[ch as int],
    {
        self.widths[ch as usize]
    }

    /// Sets the width of `ch`.
    pub fn set_width(&mut self, ch: u8, w: u8)
        requires
            old(self).wf(),
        ensures
            final(self).wf(),
            final(self)@ == old(self)@.update(ch as int, w),
    {
        self.widths[ch as usize] = w;
    }

    /// The total width of `s`.
    pub fn string_width(&self, s: &[u8]) -> (r: u16)
        requires
            self.wf(),
            widths_sum(self@, s@) <= u16::MAX,
        ensures
            r == widths_sum(self@, s@),
    {
        let mut total: u16 = 0;
        let mut i: usize = 0;
        while i < s.len()
            invariant
                self.wf(),
                i <= s@.len(),
                widths_sum(self@, s@) <= u16::MAX,
                total == widths_sum(self@, s@.take(i as int)),
            decreases s@.len() - i,
        {
            proof {
                assert(s@.take(i + 1).drop_last() =~= s@.take(i as int));
                lemma_widths_sum_prefix(self@, s@, i + 1);
            }
            total = total + self.get_width(s[i]) as u16;
            i = i + 1;
        }
        assert(s@.take(i as int) =~= s@);
        total
    }
}

/// The width of two strings one after the other is the sum of their
/// widths.
pub proof fn lemma_widths_sum_concat(widths: Seq<u8>, a: Seq<u8>, b: Seq<u8>)
    ensures
        widths_sum(widths, a + b) == widths_sum(widths, a) + widths_sum(widths, b),
    decreases b.len(),
{
    if b.len() == 0 {
        assert(a + b =~= a);
    } else {
        assert((a + b).drop_last() =~= a + b.drop_last());
        lemma_widths_sum_concat(widths, a, b.drop_last());
    }
}

/// The width of a prefix is at most the width of the whole string.
proof fn lemma_widths_sum_prefix(widths: Seq<u8>, s: Seq<u8>, k: int)
    requires
        0 <= k <= s.len(),
    ensures
        widths_sum(widths, s.take(k)) <= widths_sum(widths, s),
    decreases s.len(),
{
    if k < s.len() {
        assert(s.drop_last().take(k) =~= s.take(k));
        lemma_widths_sum_prefix(widths, s.drop_last(), k);
    } else {
        assert(s.take(k) =~= s);
    }
}

} // verus!
