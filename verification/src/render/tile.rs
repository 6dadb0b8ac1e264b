//! Tile and sprite blitting over planar pixel data.

use vstd::prelude::*;
use crate::render::palette::{Color, Palette};
use crate::render::viewport::Viewport;

pub use crate::data::map::{grid_to_screen, stagger_transform};

verus! {

/// Size of the tile buffer: four planes of 32 bytes.
pub const TILE_BUFFER_SIZE: usize = 128;

/// Raster operations of the blitter.
#[derive(Debug, Clone, Copy, PartialEq, Eq, Structural)]
pub enum RasterOp {
    Copy,
    Xor,
    And,
    Or,
}

/// Tile compositor: a tile buffer and a palette.
pub struct TileRenderer {
    pub tile_buffer: [u8; TILE_BUFFER_SIZE],
    pub palette: Palette,
}

/// The coverage byte at column `c` of a four-plane block: the union of the
/// four plane bytes there.
pub open spec fn plane_cover(src: Seq<u8>, c: int) -> u8 {
    src[c] | src[c + 0x10] | src[c + 0x20] | src[c + 0x30]
}

/// A destination byte cleared where the source covers it, then the source
/// byte laid over it.
pub open spec fn merge_byte(d: u8, cover: u8, s: u8) -> u8 {
    (d & !cover) | s
}

/// A merged byte shows every source bit; where the coverage is set it is
/// exactly the source, and elsewhere it keeps the destination's bits along
/// with the source's.
pub proof fn lemma_merge_byte(d: u8, cover: u8, s: u8)
    ensures
        merge_byte(d, cover, s) & s == s,
        merge_byte(d, cover, s) & cover == (s & cover),
        merge_byte(d, cover, s) & !cover == ((d | s) & !cover),
{
    assert(((d & !cover) | s) & s == s && ((d & !cover) | s) & cover == (s & cover) && ((d & !cover) | s)
        & !cover == ((d | s) & !cover)) by (bit_vector);
}

/// Whether word column `i` of a plane merge is processed: its first bytes
/// exist in the destination and all four source planes.
pub open spec fn merge_runs(dst_len: int, src_len: int, i: int) -> bool {
    2 * i + 1 < dst_len && 2 * i + 0x31 < src_len
}

/// Whether byte `j` belongs to the word column starting at `base`: two
/// bytes at `base` in each of four consecutive 16-byte planes.
pub open spec fn in_column(base: int, j: int) -> bool {
    j >= base && (j - base) % 16 < 2 && (j - base) / 16 < 4
}

/// The destination after merging the word column at `base`: each byte of
/// the column is merged with the coverage at its own offset in the first
/// plane.
pub open spec fn merge_column_spec(d: Seq<u8>, src: Seq<u8>, base: int) -> Seq<u8> {
    Seq::new(
        d.len(),
        |j: int|
            if in_column(base, j) {
                merge_byte(d[j], plane_cover(src, base + (j - base) % 16), src[j])
            } else {
                d[j]
            },
    )
}

/// The destination after merging the first `n` word columns in order,
/// column `i` starting at byte `2 i`.
pub open spec fn merge_prefix(d: Seq<u8>, src: Seq<u8>, n: nat) -> Seq<u8>
    decreases n,
{
    if n == 0 {
        d
    } else {
        merge_column_spec(merge_prefix(d, src, (n - 1) as nat), src, 2 * (n - 1))
    }
}

/// The number of word columns a merge processes from column `i` on: it
/// stops at the first column that does not run, or after column 15.
pub open spec fn merge_count_from(dst_len: int, src_len: int, i: int) -> int
    decreases 16 - i,
{
    if i >= 16 || !merge_runs(dst_len, src_len, i) {
        i
    } else {
        merge_count_from(dst_len, src_len, i + 1)
    }
}

/// Columns `k..i` all run and column `i` stops the merge: the merge
/// processes `i` columns counting from `k`.
proof fn lemma_merge_count(dst_len: int, src_len: int, k: int, i: int)
    requires
        0 <= k <= i <= 16,
        forall|m: int| k <= m < i ==> merge_runs(dst_len, src_len, m),
        i == 16 || !merge_runs(dst_len, src_len, i),
    ensures
        merge_count_from(dst_len, src_len, k) == i,
    decreases i - k,
{
    if k < i {
        lemma_merge_count(dst_len, src_len, k + 1, i);
    }
}

/// Byte `j` of a buffer after drawing `src` at byte `base`, shifted right
/// by `shift` pixels: source byte `i` goes to `base + 4 i` shifted right,
/// and the bits shifted out are added into the byte after it.
pub open spec fn sprite_at(d: Seq<u8>, src: Seq<u8>, base: int, shift: u8, j: int) -> u8 {
    if j >= base && (j - base) % 4 == 0 && (j - base) / 4 < src.len() {
        src[(j - base) / 4] >> shift
    } else if j >= base + 1 && (j - base - 1) % 4 == 0 && (j - base - 1) / 4 < src.len() {
        d[j] | ((src[(j - base - 1) / 4] << ((8 - shift) as u8)) as u8)
    } else {
        d[j]
    }
}

/// Byte `j` of a buffer filled with a two-row pattern: 4-byte groups
/// alternate between the pattern's first and second byte pairs; a last
/// partial group is untouched.
pub open spec fn solid_at(d: Seq<u8>, pattern: Seq<u8>, j: int) -> u8 {
    if j < (d.len() / 4) * 4 {
        pattern[(if (j / 4) % 2 == 1 {
            2int
        } else {
            0int
        }) + j % 2]
    } else {
        d[j]
    }
}

/// Merging one 16-bit word of a plane, taken as two bytes, is the byte
/// merge of each half.
proof fn lemma_merge_word(
    dl: u8,
    dh: u8,
    al: u8,
    ah: u8,
    bl: u8,
    bh: u8,
    cl: u8,
    ch: u8,
    el: u8,
    eh: u8,
    pl: u8,
    ph: u8,
)
    ensures
        ({
            let d = (dl as u16) | ((dh as u16) << 8u16);
            let m = !(((al as u16) | ((ah as u16) << 8u16)) | ((bl as u16) | ((bh as u16) << 8u16))
                | ((cl as u16) | ((ch as u16) << 8u16)) | ((el as u16) | ((eh as u16) << 8u16)));
            let r = (d & m) | ((pl as u16) | ((ph as u16) << 8u16));
            &&& (r as u8) == (dl & !(al | bl | cl | el)) | pl
            &&& ((r >> 8u16) as u8) == (dh & !(ah | bh | ch | eh)) | ph
        }),
{
    assert({
        let d = (dl as u16) | ((dh as u16) << 8u16);
        let m = !(((al as u16) | ((ah as u16) << 8u16)) | ((bl as u16) | ((bh as u16) << 8u16)) | ((
        cl as u16) | ((ch as u16) << 8u16)) | ((el as u16) | ((eh as u16) << 8u16)));
        let r = (d & m) | ((pl as u16) | ((ph as u16) << 8u16));
        &&& (r as u8) == (dl & !(al | bl | cl | el)) | pl
        &&& ((r >> 8u16) as u8) == (dh & !(ah | bh | ch | eh)) | ph
    }) by (bit_vector);
}

impl Default for TileRenderer {
    fn default() -> (r: Self)
        ensures
            forall|i: int| 0 <= i < 128 ==> r.tile_buffer@[i] == 0,
            forall|i: int| 0 <= i < 256 ==> r.palette.colors@[i] == (Color { r: 0, g: 0, b: 0 }),
    {
        TileRenderer { tile_buffer: [0;TILE_BUFFER_SIZE], palette: Palette::default() }
    }
}

impl TileRenderer {
    /// A renderer with a clear tile buffer and an all-black palette.
    pub fn new() -> (r: Self)
        ensures
            forall|i: int| 0 <= i < 128 ==> r.tile_buffer@[i] == 0,
            forall|i: int| 0 <= i < 256 ==> r.palette.colors@[i] == (Color { r: 0, g: 0, b: 0 }),
    {
        Self::default()
    }

    /// Zeroes the tile buffer.
    pub fn clear_buffer(&mut self)
        ensures
            forall|i: int| 0 <= i < 128 ==> final(self).tile_buffer@[i] == 0,
            final(self).palette == old(self).palette,
    {
        let mut i: usize = 0;
        while i < TILE_BUFFER_SIZE
            invariant
                i <= 128,
                self.palette == old(self).palette,
                forall|k: int| 0 <= k < i ==> self.tile_buffer@[k] == 0,
            decreases 128 - i,
        {
            self.tile_buffer[i] = 0;
            i = i + 1;
        }
    }

    /// Copies the first bytes of `src`, at most 128, into the tile buffer.
    pub fn copy_bitmap_128(&mut self, src: &[u8])
        ensures
            forall|i: int|
                0 <= i < 128 ==> #[trigger] final(self).tile_buffer@[i] == if i < src@.len() {
                    src@[i]
                } else {
                    old(self).tile_buffer@[i]
                },
            final(self).palette == old(self).palette,
    {
        let len = if src.len() < TILE_BUFFER_SIZE {
            src.len()
        } else {
            TILE_BUFFER_SIZE
        };
        let mut i: usize = 0;
        while i < len
            invariant
                i <= len,
                len <= 128,
                len <= src@.len(),
                len == src@.len() || len == 128,
                self.palette == old(self).palette,
                forall|k: int|
                    0 <= k < 128 ==> #[trigger] self.tile_buffer@[k] == if k < i {
                        src@[k]
                    } else {
                        old(self).tile_buffer@[k]
                    },
            decreases len - i,
        {
            self.tile_buffer[i] = src[i];
            i = i + 1;
        }
    }

    /// Composes a transparent sprite block over `dst`, column by column:
    /// in each 16-bit column of the four 16-byte planes, destination pixels
    /// covered by any source plane are cleared and the source laid over
    /// them (see `merge_prefix`). Columns stop at the first one that either
    /// buffer cannot hold.
    pub fn merge_planes_simple(dst: &mut [u8], src: &[u8])
        requires
            forall|i: int|
                0 <= i < 16 && merge_runs(old(dst)@.len() as int, src@.len() as int, i) ==> 2 * i
                    + 0x31 < old(dst)@.len(),
        ensures
            final(dst)@ == merge_prefix(
                old(dst)@,
                src@,
                merge_count_from(old(dst)@.len() as int, src@.len() as int, 0) as nat,
            ),
    {
        let ghost d0 = dst@;
        let ghost dl = dst@.len() as int;
        let ghost sl = src@.len() as int;
        let mut i: usize = 0;
        while i < 16
            invariant
                i <= 16,
                d0 == old(dst)@,
                dl == d0.len(),
                sl == src@.len(),
                dst@.len() == dl,
                forall|k: int| 0 <= k < 16 && merge_runs(dl, sl, k) ==> 2 * k + 0x31 < dl,
                forall|k: int| 0 <= k < i ==> merge_runs(dl, sl, k),
                dst@ == merge_prefix(d0, src@, i as nat),
            ensures
                dst@ == merge_prefix(d0, src@, i as nat),
                forall|k: int| 0 <= k < i ==> merge_runs(dl, sl, k),
                i == 16 || !merge_runs(dl, sl, i as int),
                i <= 16,
            decreases 16 - i,
        {
            let base = i * 2;
            if base + 1 >= dst.len() {
                break;
            }
            if base + 0x10 + 1 >= src.len() {
                break;
            }
            if base + 0x20 + 1 >= src.len() {
                break;
            }
            if base + 0x30 + 1 >= src.len() {
                break;
            }
            assert(merge_runs(dl, sl, i as int));
            Self::merge_column(dst, src, base);
            i = i + 1;
        }
        proof {
            lemma_merge_count(dl, sl, 0, i as int);
        }
    }

    /// Merges word column `base / 2` of the four planes (see
    /// `merge_planes_simple`).
    fn merge_column(dst: &mut [u8], src: &[u8], base: usize)
        requires
            base % 2 == 0,
            base < 32,
            base + 0x31 < old(dst)@.len(),
            base + 0x31 < src@.len(),
        ensures
            final(dst)@ == merge_column_spec(old(dst)@, src@, base as int),
    {
        let plane0 = src[base] as u16 | (src[base + 1] as u16) << 8;
        let plane1 = src[base + 0x10] as u16 | (src[base + 0x11] as u16) << 8;
        let plane2 = src[base + 0x20] as u16 | (src[base + 0x21] as u16) << 8;
        let plane3 = src[base + 0x30] as u16 | (src[base + 0x31] as u16) << 8;
        let mask = !(plane0 | plane1 | plane2 | plane3);
        let dst0 = dst[base] as u16 | (dst[base + 1] as u16) << 8;
        let dst1 = dst[base + 0x10] as u16 | (dst[base + 0x11] as u16) << 8;
        let dst2 = dst[base + 0x20] as u16 | (dst[base + 0x21] as u16) << 8;
        let dst3 = dst[base + 0x30] as u16 | (dst[base + 0x31] as u16) << 8;
        let r0 = ((dst0 & mask) | plane0) as u8;
        let r0h = (((dst0 & mask) | plane0) >> 8) as u8;
        let r1 = ((dst1 & mask) | plane1) as u8;
        let r1h = (((dst1 & mask) | plane1) >> 8) as u8;
        let r2 = ((dst2 & mask) | plane2) as u8;
        let r2h = (((dst2 & mask) | plane2) >> 8) as u8;
        let r3 = ((dst3 & mask) | plane3) as u8;
        let r3h = (((dst3 & mask) | plane3) >> 8) as u8;
        let ghost s = src@;
        let ghost d = dst@;
        let ghost b = base as int;
        proof {
            lemma_merge_word(
                d[b], d[b + 1], s[b], s[b + 1], s[b + 0x10], s[b + 0x11], s[b + 0x20], s[b + 0x21],
                s[b + 0x30], s[b + 0x31], s[b], s[b + 1]);
            lemma_merge_word(
                d[b + 0x10], d[b + 0x11], s[b], s[b + 1], s[b + 0x10], s[b + 0x11], s[b + 0x20],
                s[b + 0x21], s[b + 0x30], s[b + 0x31], s[b + 0x10], s[b + 0x11]);
            lemma_merge_word(
                d[b + 0x20], d[b + 0x21], s[b], s[b + 1], s[b + 0x10], s[b + 0x11], s[b + 0x20],
                s[b + 0x21], s[b + 0x30], s[b + 0x31], s[b + 0x20], s[b + 0x21]);
            lemma_merge_word(
                d[b + 0x30], d[b + 0x31], s[b], s[b + 1], s[b + 0x10], s[b + 0x11], s[b + 0x20],
                s[b + 0x21], s[b + 0x30], s[b + 0x31], s[b + 0x30], s[b + 0x31]);
        }
        assert(r0 == merge_byte(d[b], plane_cover(s, b), s[b]));
        assert(r0h == merge_byte(d[b + 1], plane_cover(s, b + 1), s[b + 1]));
        assert(r1 == merge_byte(d[b + 0x10], plane_cover(s, b), s[b + 0x10]));
        assert(r1h == merge_byte(d[b + 0x11], plane_cover(s, b + 1), s[b + 0x11]));
        assert(r2 == merge_byte(d[b + 0x20], plane_cover(s, b), s[b + 0x20]));
        assert(r2h == merge_byte(d[b + 0x21], plane_cover(s, b + 1), s[b + 0x21]));
        assert(r3 == merge_byte(d[b + 0x30], plane_cover(s, b), s[b + 0x30]));
        assert(r3h == merge_byte(d[b + 0x31], plane_cover(s, b + 1), s[b + 0x31]));
        if base + 1 < dst.len() {
            dst[base] = r0;
            dst[base + 1] = r0h;
        }
        if base + 0x10 + 1 < dst.len() {
            dst[base + 0x10] = r1;
            dst[base + 0x11] = r1h;
        }
        if base + 0x20 + 1 < dst.len() {
            dst[base + 0x20] = r2;
            dst[base + 0x21] = r2h;
        }
        if base + 0x30 + 1 < dst.len() {
            dst[base + 0x30] = r3;
            dst[base + 0x31] = r3h;
        }
        proof {
            let m = merge_column_spec(d, s, b);
            assert forall|j: int| 0 <= j < d.len() implies #[trigger] dst@[j] == m[j] by {
                if in_column(b, j) {
                    let off = j - b;
                    assert(off == off % 16 + 16 * (off / 16));
                    assert(j == b + off % 16 + 16 * (off / 16));
                }
            }
            assert(dst@ =~= m);
        }
    }

    /// Lays `src` over `dst` byte by byte, as far as both reach.
    pub fn merge_planes_direct(dst: &mut [u8], src: &[u8])
        ensures
            final(dst)@.len() == old(dst)@.len(),
            forall|j: int|
                0 <= j < old(dst)@.len() ==> #[trigger] final(dst)@[j] == if j < src@.len() {
                    merge_byte(old(dst)@[j], src@[j], src@[j])
                } else {
                    old(dst)@[j]
                },
    {
        let n = if dst.len() < src.len() {
            dst.len()
        } else {
            src.len()
        };
        let mut i: usize = 0;
        while i < n
            invariant
                i <= n,
                n <= dst@.len(),
                n <= src@.len(),
                n == dst@.len() || n == src@.len(),
                dst@.len() == old(dst)@.len(),
                forall|j: int|
                    0 <= j < dst@.len() ==> #[trigger] dst@[j] == if j < i {
                        merge_byte(old(dst)@[j], src@[j], src@[j])
                    } else {
                        old(dst)@[j]
                    },
            decreases n - i,
        {
            dst[i] = (dst[i] & !src[i]) | src[i];
            i = i + 1;
        }
    }

    /// Masks every byte of `data` with `mask`.
    pub fn apply_and_mask(data: &mut [u8], mask: u8)
        ensures
            final(data)@.len() == old(data)@.len(),
            forall|j: int| 0 <= j < old(data)@.len() ==> #[trigger] final(data)@[j] == old(data)@[j] & mask,
    {
        let mut i: usize = 0;
        while i < data.len()
            invariant
                i <= data@.len(),
                data@.len() == old(data)@.len(),
                forall|j: int|
                    0 <= j < data@.len() ==> #[trigger] data@[j] == if j < i {
                        old(data)@[j] & mask
                    } else {
                        old(data)@[j]
                    },
            decreases data@.len() - i,
        {
            data[i] = data[i] & mask;
            i = i + 1;
        }
    }

    /// Fills `dst` with a solid two-row pattern (see `solid_at`).
    pub fn fill_planes_solid(dst: &mut [u8], pattern: &[u8; 4])
        ensures
            final(dst)@.len() == old(dst)@.len(),
            forall|j: int|
                0 <= j < old(dst)@.len() ==> #[trigger] final(dst)@[j] == solid_at(
                    old(dst)@,
                    pattern@,
                    j,
                ),
    {
        let dl = dst.len();
        let chunks = dl / 4;
        let mut parity = false;
        let mut q: usize = 0;
        while q < chunks
            invariant
                q <= chunks,
                chunks == old(dst)@.len() / 4,
                dl == old(dst)@.len(),
                dst@.len() == old(dst)@.len(),
                parity == (q % 2 == 1),
                forall|j: int|
                    0 <= j < dst@.len() ==> #[trigger] dst@[j] == if j < 4 * q {
                        solid_at(old(dst)@, pattern@, j)
                    } else {
                        old(dst)@[j]
                    },
            decreases chunks - q,
        {
            let p0 = if parity {
                pattern[2]
            } else {
                pattern[0]
            };
            let p1 = if parity {
                pattern[3]
            } else {
                pattern[1]
            };
            dst[4 * q] = p0;
            dst[4 * q + 1] = p1;
            dst[4 * q + 2] = p0;
            dst[4 * q + 3] = p1;
            parity = !parity;
            q = q + 1;
        }
    }

    /// Sets the bits of `val` in every byte of `dst`.
    pub fn or_planes_all(dst: &mut [u8], val: u8)
        ensures
            final(dst)@.len() == old(dst)@.len(),
            forall|j: int| 0 <= j < old(dst)@.len() ==> #[trigger] final(dst)@[j] == old(dst)@[j] | val,
    {
        let mut i: usize = 0;
        while i < dst.len()
            invariant
                i <= dst@.len(),
                dst@.len() == old(dst)@.len(),
                forall|j: int|
                    0 <= j < dst@.len() ==> #[trigger] dst@[j] == if j < i {
                        old(dst)@[j] | val
                    } else {
                        old(dst)@[j]
                    },
            decreases dst@.len() - i,
        {
            dst[i] = dst[i] | val;
            i = i + 1;
        }
    }

    /// Draws a sprite column at pixel `pixel_x`, shifted right by `shift`
    /// pixels within its bytes (see `sprite_at`); with no shift the bytes
    /// are copied in place as far as both buffers reach.
    pub fn draw_sprite_subpixel(
        dst: &mut [u8],
        src: &[u8],
        pixel_x: u16,
        _buffer_base: usize,
        shift: u8,
    )
        requires
            shift < 8,
            src@.len() > 0 ==> pixel_x / 8 + 4 * (src@.len() - 1) <= usize::MAX,
        ensures
            final(dst)@.len() == old(dst)@.len(),
            shift == 0 ==> forall|j: int|
                0 <= j < old(dst)@.len() ==> #[trigger] final(dst)@[j] == if j < src@.len() {
                    src@[j]
                } else {
                    old(dst)@[j]
                },
            shift > 0 ==> forall|j: int|
                0 <= j < old(dst)@.len() ==> #[trigger] final(dst)@[j] == sprite_at(
                    old(dst)@,
                    src@,
                    (pixel_x / 8) as int,
                    shift,
                    j,
                ),
    {
        if shift == 0 {
            let n = if dst.len() < src.len() {
                dst.len()
            } else {
                src.len()
            };
            let mut i: usize = 0;
            while i < n
                invariant
                    i <= n,
                    n <= dst@.len(),
                    n <= src@.len(),
                    n == dst@.len() || n == src@.len(),
                    dst@.len() == old(dst)@.len(),
                    forall|j: int|
                        0 <= j < dst@.len() ==> #[trigger] dst@[j] == if j < i {
                            src@[j]
                        } else {
                            old(dst)@[j]
                        },
                decreases n - i,
            {
                dst[i] = src[i];
                i = i + 1;
            }
            return ;
        }
        let shift_inv = 8 - shift;
        let base = pixel_x as usize / 8;
        let mut i: usize = 0;
        while i < src.len()
            invariant
                i <= src@.len(),
                0 < shift < 8,
                shift_inv == 8 - shift,
                base == pixel_x / 8,
                src@.len() > 0 ==> pixel_x / 8 + 4 * (src@.len() - 1) <= usize::MAX,
                dst@.len() == old(dst)@.len(),
                forall|j: int|
                    0 <= j < dst@.len() ==> #[trigger] dst@[j] == if j < base + 4 * i {
                        sprite_at(old(dst)@, src@, base as int, shift, j)
                    } else {
                        old(dst)@[j]
                    },
            decreases src@.len() - i,
        {
            let byte_idx = base + i * 4;
            let s = src[i];
            if byte_idx < dst.len() {
                let low = s >> shift;
                let high = s << shift_inv;
                dst[byte_idx] = low;
                if byte_idx + 1 < dst.len() {
                    dst[byte_idx + 1] = dst[byte_idx + 1] | high;
                }
            }
            proof {
                assert forall|j: int| 0 <= j < dst@.len() implies #[trigger] dst@[j] == if j < base
                    + 4 * (i + 1) {
                    sprite_at(old(dst)@, src@, base as int, shift, j)
                } else {
                    old(dst)@[j]
                } by {
                    if base + 4 * i <= j < base + 4 * (i + 1) {
                        assert((j - base) / 4 == i <==> j - base < 4 * i + 4);
                        if j == byte_idx {
                            assert((j - base) % 4 == 0 && (j - base) / 4 == i);
                        } else if j == byte_idx + 1 {
                            assert((j - base - 1) % 4 == 0 && (j - base - 1) / 4 == i);
                            assert((j - base) % 4 == 1);
                        } else {
                            assert((j - base) % 4 >= 2);
                            assert((j - base - 1) % 4 >= 1);
                        }
                    }
                }
            }
            i = i + 1;
        }
        proof {
            assert forall|j: int| 0 <= j < dst@.len() implies #[trigger] dst@[j] == sprite_at(
                old(dst)@,
                src@,
                base as int,
                shift,
                j,
            ) by {
                if j >= base + 4 * src@.len() {
                    assert((j - base) / 4 >= src@.len());
                    assert((j - base - 1) / 4 >= src@.len() || (j - base - 1) % 4 != 0);
                }
            }
        }
    }

    /// Maps every byte of `data` through `table`.
    pub fn lookup_convert_tile(data: &mut [u8], table: &[u8; 256])
        ensures
            final(data)@.len() == old(data)@.len(),
            forall|j: int|
                0 <= j < old(data)@.len() ==> #[trigger] final(data)@[j] == table@[old(data)@[j] as int],
    {
        let mut i: usize = 0;
        while i < data.len()
            invariant
                i <= data@.len(),
                data@.len() == old(data)@.len(),
                forall|j: int|
                    0 <= j < data@.len() ==> #[trigger] data@[j] == if j < i {
                        table@[old(data)@[j] as int]
                    } else {
                        old(data)@[j]
                    },
            decreases data@.len() - i,
        {
            data[i] = table[data[i] as usize];
            i = i + 1;
        }
    }
}

/// Renders one tile: the base terrain is copied into the tile buffer; the
/// overlay layers selected by `overlay_flags` have nothing to draw.
pub fn render_tiles(
    renderer: &mut TileRenderer,
    viewport: &Viewport,
    base_tile: &[u8; TILE_BUFFER_SIZE],
    overlay_flags: u16,
)
    ensures
        final(renderer).tile_buffer@ == base_tile@,
        final(renderer).palette == old(renderer).palette,
{
    renderer.copy_bitmap_128(base_tile);
    assert(renderer.tile_buffer@ =~= base_tile@);
}

} // verus!
