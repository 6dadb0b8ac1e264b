//! Clip rectangles and the scrolling viewport.

use vstd::prelude::*;

verus! {

/// A clip rectangle: origin and size. Its far edges are the origin plus
/// the size read as a signed 16-bit number.
#[derive(Debug, Clone, Copy, PartialEq, Eq, Structural)]
pub struct ClipRect {
    pub x: i16,
    pub y: i16,
    pub w: u16,
    pub h: u16,
}

/// Whether `v` fits a signed 16-bit number.
pub open spec fn fits_i16(v: int) -> bool {
    i16::MIN <= v <= i16::MAX
}

/// The right edge of `r`: `x + w`, with `w` read as signed.
pub open spec fn right_edge(r: ClipRect) -> int {
    r.x + (r.w as i16)
}

/// The bottom edge of `r`: `y + h`, with `h` read as signed.
pub open spec fn bottom_edge(r: ClipRect) -> int {
    r.y + (r.h as i16)
}

/// Both far edges of `r` fit a signed 16-bit number.
pub open spec fn edges_fit(r: ClipRect) -> bool {
    fits_i16(right_edge(r)) && fits_i16(bottom_edge(r))
}

/// Whether the point lies in `r`: at or after the origin, before the far
/// edges.
pub open spec fn clip_contains(r: ClipRect, px: int, py: int) -> bool {
    r.x <= px < right_edge(r) && r.y <= py < bottom_edge(r)
}

/// Whether `a` and `b` overlap.
pub open spec fn clip_intersects(a: ClipRect, b: ClipRect) -> bool {
    a.x < right_edge(b) && right_edge(a) > b.x && a.y < bottom_edge(b) && bottom_edge(a) > b.y
}

/// The larger of two numbers.
pub open spec fn max_int(a: int, b: int) -> int {
    if a >= b {
        a
    } else {
        b
    }
}

/// The smaller of two numbers.
pub open spec fn min_int(a: int, b: int) -> int {
    if a <= b {
        a
    } else {
        b
    }
}

/// The overlap of `a` and `b`, or `None` when it is empty.
pub open spec fn clip_intersection(a: ClipRect, b: ClipRect) -> Option<ClipRect> {
    let x = max_int(a.x as int, b.x as int);
    let y = max_int(a.y as int, b.y as int);
    let x2 = min_int(right_edge(a), right_edge(b));
    let y2 = min_int(bottom_edge(a), bottom_edge(b));
    if x < x2 && y < y2 {
        Some(ClipRect { x: x as i16, y: y as i16, w: (x2 - x) as u16, h: (y2 - y) as u16 })
    } else {
        None
    }
}

impl ClipRect {
    /// The rectangle at `(x, y)` of size `w` by `h`.
    pub fn new(x: i16, y: i16, w: u16, h: u16) -> (r: Self)
        ensures
            r == (ClipRect { x, y, w, h }),
    {
        ClipRect { x, y, w, h }
    }

    /// Whether `(px, py)` lies in the rectangle.
    pub fn contains(&self, px: i16, py: i16) -> (r: bool)
        requires
            px >= self.x ==> fits_i16(right_edge(*self)),
            px >= self.x && px < right_edge(*self) && py >= self.y ==> fits_i16(bottom_edge(*self)),
        ensures
            r == clip_contains(*self, px as int, py as int),
    {
        px >= self.x && px < self.x + self.w as i16 && py >= self.y && py < self.y + self.h as i16
    }

    /// Whether the rectangle overlaps `other`.
    pub fn intersects(&self, other: &ClipRect) -> (r: bool)
        requires
            fits_i16(right_edge(*other)),
            self.x < right_edge(*other) ==> fits_i16(right_edge(*self)),
            self.x < right_edge(*other) && right_edge(*self) > other.x ==> fits_i16(
                bottom_edge(*other),
            ),
            self.x < right_edge(*other) && right_edge(*self) > other.x && self.y < bottom_edge(
                *other,
            ) ==> fits_i16(bottom_edge(*self)),
        ensures
            r == clip_intersects(*self, *other),
    {
        self.x < other.x + other.w as i16 && self.x + self.w as i16 > other.x && self.y < other.y
            + other.h as i16 && self.y + self.h as i16 > other.y
    }

    /// The overlap with `other`, or `None` when it is empty.
    pub fn intersection(&self, other: &ClipRect) -> (r: Option<ClipRect>)
        requires
            edges_fit(*self),
            edges_fit(*other),
            clip_intersection(*self, *other) is Some ==> fits_i16(
                min_int(right_edge(*self), right_edge(*other)) - max_int(self.x as int, other.x as int),
            ) && fits_i16(
                min_int(bottom_edge(*self), bottom_edge(*other)) - max_int(self.y as int, other.y as int),
            ),
        ensures
            r == clip_intersection(*self, *other),
    {
        let x = if self.x >= other.x {
            self.x
        } else {
            other.x
        };
        let y = if self.y >= other.y {
            self.y
        } else {
            other.y
        };
        let sx2 = self.x + self.w as i16;
        let ox2 = other.x + other.w as i16;
        let sy2 = self.y + self.h as i16;
        let oy2 = other.y + other.h as i16;
        let x2 = if sx2 <= ox2 {
            sx2
        } else {
            ox2
        };
        let y2 = if sy2 <= oy2 {
            sy2
        } else {
            oy2
        };
        if x < x2 && y < y2 {
            Some(ClipRect::new(x, y, (x2 - x) as u16, (y2 - y) as u16))
        } else {
            None
        }
    }
}

/// The overlap of two rectangles is symmetric; with sizes positive as
/// signed numbers it exists exactly when they overlap, and holds exactly
/// the points that both hold.
pub proof fn lemma_clip_intersection(a: ClipRect, b: ClipRect, px: int, py: int)
    requires
        edges_fit(a),
        edges_fit(b),
        (a.w as i16) > 0,
        (a.h as i16) > 0,
        (b.w as i16) > 0,
        (b.h as i16) > 0,
    ensures
        clip_intersection(a, b) == clip_intersection(b, a),
        clip_intersection(a, b) is Some <==> clip_intersects(a, b),
        clip_intersection(a, b) matches Some(c) ==> (clip_contains(c, px, py) <==> clip_contains(
            a,
            px,
            py,
        ) && clip_contains(b, px, py)),
{
    if clip_intersection(a, b) is Some {
        let c = clip_intersection(a, b).unwrap();
        let x = max_int(a.x as int, b.x as int);
        let y = max_int(a.y as int, b.y as int);
        let x2 = min_int(right_edge(a), right_edge(b));
        let y2 = min_int(bottom_edge(a), bottom_edge(b));
        assert(0 < x2 - x < 0x10000);
        assert(0 < y2 - y < 0x10000);
        assert(c.w == x2 - x);
        assert(c.h == y2 - y);
        if x2 - x <= i16::MAX && y2 - y <= i16::MAX {
            assert(right_edge(c) == x2);
            assert(bottom_edge(c) == y2);
        }
    }
}

/// What a viewport scroll position maps: world point to screen point.
pub open spec fn to_screen(scroll: (i16, i16), wx: int, wy: int) -> (int, int) {
    (wx - scroll.0, wy - scroll.1)
}

/// The scrolling display surface with its clip rectangle and content
/// buffer.
#[derive(Debug, Clone)]
pub struct Viewport {
    pub width: u16,
    pub height: u16,
    pub tile_w: u8,
    pub tile_h: u8,
    pub scroll_x: i16,
    pub scroll_y: i16,
    pub clip: ClipRect,
    pub content_buffer: Option<Vec<u8>>,
    pub buffer_offset: u32,
    pub dirty: bool,
}

/// The viewport has the standard 640 by 480 surface, 15 by 16 tiles, no
/// scroll, a full-surface clip, no buffer, and is marked dirty.
pub open spec fn is_default_viewport(v: Viewport) -> bool {
    &&& v.width == 640
    &&& v.height == 480
    &&& v.tile_w == 15
    &&& v.tile_h == 16
    &&& v.scroll_x == 0
    &&& v.scroll_y == 0
    &&& v.clip == (ClipRect { x: 0, y: 0, w: 640, h: 480 })
    &&& v.content_buffer is None
    &&& v.buffer_offset == 0
    &&& v.dirty
}

/// The row stride: the width rounded up to a multiple of 8.
pub open spec fn stride_of(width: u16) -> int {
    ((width + 7) / 8) * 8
}

/// Everything but the scroll position and the dirty flag is the same.
pub open spec fn same_but_scroll(a: Viewport, b: Viewport) -> bool {
    &&& a.width == b.width
    &&& a.height == b.height
    &&& a.tile_w == b.tile_w
    &&& a.tile_h == b.tile_h
    &&& a.clip == b.clip
    &&& a.content_buffer == b.content_buffer
    &&& a.buffer_offset == b.buffer_offset
}

impl Default for Viewport {
    fn default() -> (v: Self)
        ensures
            is_default_viewport(v),
    {
        Viewport {
            width: 640,
            height: 480,
            tile_w: 15,
            tile_h: 16,
            scroll_x: 0,
            scroll_y: 0,
            clip: ClipRect::new(0, 0, 640, 480),
            content_buffer: None,
            buffer_offset: 0,
            dirty: true,
        }
    }
}

impl Viewport {
    /// The standard viewport.
    pub fn new() -> (v: Self)
        ensures
            is_default_viewport(v),
    {
        Self::default()
    }

    /// A standard viewport whose clip and size are the rectangle
    /// `(x, y, w, h)`.
    pub fn new_bounded(x: i16, y: i16, w: u16, h: u16) -> (v: Self)
        ensures
            v.clip == (ClipRect { x, y, w, h }),
            v.width == w,
            v.height == h,
            v.tile_w == 15,
            v.tile_h == 16,
            v.scroll_x == 0,
            v.scroll_y == 0,
            v.content_buffer is None,
            v.buffer_offset == 0,
            v.dirty,
    {
        let mut v = Self::default();
        v.clip = ClipRect::new(x, y, w, h);
        v.width = w;
        v.height = h;
        v
    }

    /// Sets clip and size to `(x, y, w, h)`, clears the scroll and marks
    /// the viewport dirty.
    pub fn set_bounds(&mut self, x: i16, y: i16, w: u16, h: u16)
        ensures
            *final(self) == (Viewport {
                clip: ClipRect { x, y, w, h },
                width: w,
                height: h,
                scroll_x: 0,
                scroll_y: 0,
                dirty: true,
                ..*old(self)
            }),
    {
        self.clip = ClipRect::new(x, y, w, h);
        self.width = w;
        self.height = h;
        self.scroll_x = 0;
        self.scroll_y = 0;
        self.dirty = true;
    }

    /// Scrolls back to the origin and marks the viewport dirty.
    pub fn reset_scroll(&mut self)
        ensures
            *final(self) == (Viewport { scroll_x: 0, scroll_y: 0, dirty: true, ..*old(self) }),
    {
        self.scroll_x = 0;
        self.scroll_y = 0;
        self.dirty = true;
    }

    /// The scroll position.
    pub fn get_scroll(&self) -> (r: (i16, i16))
        ensures
            r == (self.scroll_x, self.scroll_y),
    {
        (self.scroll_x, self.scroll_y)
    }

    /// Scrolls to `(x, y)`; marks the viewport dirty when that moves it.
    pub fn set_scroll(&mut self, x: i16, y: i16)
        ensures
            (old(self).scroll_x != x || old(self).scroll_y != y) ==> *final(self) == (Viewport {
                scroll_x: x,
                scroll_y: y,
                dirty: true,
                ..*old(self)
            }),
            (old(self).scroll_x == x && old(self).scroll_y == y) ==> *final(self) == *old(self),
    {
        if self.scroll_x != x || self.scroll_y != y {
            self.scroll_x = x;
            self.scroll_y = y;
            self.dirty = true;
        }
    }

    /// Zeroes the content buffer, scrolls back to the origin and marks the
    /// viewport dirty.
    pub fn clear(&mut self)
        ensures
            final(self).scroll_x == 0,
            final(self).scroll_y == 0,
            final(self).dirty,
            final(self).width == old(self).width,
            final(self).height == old(self).height,
            final(self).tile_w == old(self).tile_w,
            final(self).tile_h == old(self).tile_h,
            final(self).clip == old(self).clip,
            final(self).buffer_offset == old(self).buffer_offset,
            old(self).content_buffer is None ==> final(self).content_buffer is None,
            old(self).content_buffer matches Some(b) ==> final(self).content_buffer matches Some(nb)
                && nb@ == Seq::new(b@.len(), |i: int| 0u8),
    {
        match &mut self.content_buffer {
            Some(buf) => {
                let n = buf.len();
                let mut i: usize = 0;
                while i < n
                    invariant
                        i <= n,
                        n == buf@.len(),
                        forall|k: int| 0 <= k < i ==> buf@[k] == 0,
                    decreases n - i,
                {
                    buf[i] = 0;
                    i = i + 1;
                }
                proof {
                    assert(buf@ =~= Seq::new(n as nat, |k: int| 0u8));
                }
            },
            None => {},
        }
        self.scroll_x = 0;
        self.scroll_y = 0;
        self.dirty = true;
    }

    /// The row stride: the width rounded up to a multiple of 8.
    pub fn byte_aligned_stride(&self) -> (r: usize)
        ensures
            r == stride_of(self.width),
    {
        let w = self.width as usize + 7;
        assert((w >> 3usize) << 3usize == (w / 8) * 8) by (bit_vector)
            requires
                w < 0x10000 + 7,
        ;
        ((self.width as usize + 7) >> 3) << 3
    }

    /// Allocates a zeroed content buffer of stride times height bytes and
    /// resets the buffer offset.
    pub fn build_buffer(&mut self)
        requires
            stride_of(old(self).width) * old(self).height <= usize::MAX,
        ensures
            final(self).content_buffer matches Some(b) && b@ == Seq::new(
                (stride_of(old(self).width) * old(self).height) as nat,
                |i: int| 0u8,
            ),
            final(self).buffer_offset == 0,
            same_but_scroll(
                *final(self),
                Viewport { content_buffer: final(self).content_buffer, buffer_offset: 0, ..*old(self) },
            ),
            final(self).scroll_x == old(self).scroll_x,
            final(self).scroll_y == old(self).scroll_y,
            final(self).dirty == old(self).dirty,
    {
        let stride = self.byte_aligned_stride();
        let size = stride * self.height as usize;
        let buf = vec![0u8; size];
        assert(buf@ =~= Seq::new(size as nat, |i: int| 0u8));
        self.content_buffer = Some(buf);
        self.buffer_offset = 0;
    }

    /// The content buffer, for writing, if one was built.
    pub fn buffer_mut(&mut self) -> (r: Option<&mut [u8]>)
        ensures
            old(self).content_buffer is None ==> r is None && *final(self) == *old(self),
            old(self).content_buffer matches Some(b) ==> (r matches Some(s) && s@ == b@ && (final(self).content_buffer matches Some(fb)
                && fb@ == final(s)@)),
            old(self).content_buffer is Some ==> *final(self) == (Viewport {
                content_buffer: final(self).content_buffer,
                ..*old(self)
            }),
    {
        match &mut self.content_buffer {
            Some(v) => Some(v.as_mut_slice()),
            None => None,
        }
    }

    /// Maps a world point to the screen: minus the scroll position.
    pub fn transform(&self, wx: i16, wy: i16) -> (r: (i16, i16))
        requires
            fits_i16(wx - self.scroll_x),
            fits_i16(wy - self.scroll_y),
        ensures
            (r.0 as int, r.1 as int) == to_screen((self.scroll_x, self.scroll_y), wx as int, wy as int),
    {
        (wx - self.scroll_x, wy - self.scroll_y)
    }

    /// Maps a screen point back to the world: plus the scroll position.
    pub fn inverse_transform(&self, sx: i16, sy: i16) -> (r: (i16, i16))
        requires
            fits_i16(sx + self.scroll_x),
            fits_i16(sy + self.scroll_y),
        ensures
            r.0 == sx + self.scroll_x,
            r.1 == sy + self.scroll_y,
    {
        (sx + self.scroll_x, sy + self.scroll_y)
    }

    /// Whether the screen point lies in the clip rectangle.
    pub fn is_visible(&self, sx: i16, sy: i16) -> (r: bool)
        requires
            sx >= self.clip.x ==> fits_i16(right_edge(self.clip)),
            sx >= self.clip.x && sx < right_edge(self.clip) && sy >= self.clip.y ==> fits_i16(
                bottom_edge(self.clip),
            ),
        ensures
            r == clip_contains(self.clip, sx as int, sy as int),
    {
        self.clip.contains(sx, sy)
    }
}

/// The first map column or row a scroll offset shows: one per 32
/// pixels, none for a negative offset, kept to a byte.
pub open spec fn window_start(scroll: i16) -> u8 {
    if scroll > 0 {
        (scroll / 32) as u8
    } else {
        0
    }
}

/// How many map columns or rows fit `pixels`: one per 32, at most `limit`.
pub open spec fn window_span(pixels: u16, limit: u16) -> u8 {
    if pixels / 32 <= limit {
        (pixels / 32) as u8
    } else {
        limit as u8
    }
}

/// The part of a `cols` x `rows` map that `v` shows: first column and row
/// from the scroll position, and the end column and row, as many tiles as
/// fit past the start, cut at the map's edge.
pub open spec fn map_window_spec(v: Viewport, cols: u8, rows: u8) -> (u8, u8, u8, u8) {
    let sc = window_start(v.scroll_x);
    let sr = window_start(v.scroll_y);
    let ec = sc + window_span(v.width, cols as u16);
    let er = sr + window_span(v.height, rows as u16);
    (
        sc,
        sr,
        if ec <= cols {
            ec as u8
        } else {
            cols
        },
        if er <= rows {
            er as u8
        } else {
            rows
        },
    )
}

/// The window a viewport shows starts one tile per 32 pixels of scroll
/// (at 0 for a negative scroll; the start is kept to a byte), never ends past the map's edge, and when
/// it fits inside the map it is as many tiles wide and high as 32-pixel
/// steps fit the viewport.
pub proof fn lemma_map_window(v: Viewport, cols: u8, rows: u8)
    ensures
        ({
            let (sc, sr, ec, er) = map_window_spec(v, cols, rows);
            &&& ec <= cols && er <= rows
            &&& v.scroll_x <= 0 ==> sc == 0
            &&& v.scroll_y <= 0 ==> sr == 0
            &&& v.scroll_x > 0 && v.scroll_x < 0x2000 ==> sc as int == v.scroll_x / 32
            &&& v.scroll_y > 0 && v.scroll_y < 0x2000 ==> sr as int == v.scroll_y / 32
            &&& (sc + v.width / 32 <= cols && v.width / 32 <= cols) ==> ec == sc + v.width / 32
            &&& (sr + v.height / 32 <= rows && v.height / 32 <= rows) ==> er == sr + v.height / 32
        }),
{
}

/// The part of a `cols` x `rows` map the viewport shows (see
/// `map_window_spec`).
pub fn map_window(viewport: &Viewport, cols: u8, rows: u8) -> (r: (u8, u8, u8, u8))
    requires
        window_start(viewport.scroll_x) + window_span(viewport.width, cols as u16) <= u8::MAX,
        window_start(viewport.scroll_y) + window_span(viewport.height, rows as u16) <= u8::MAX,
    ensures
        r == map_window_spec(*viewport, cols, rows),
{
    let qx = viewport.scroll_x / 32;
    let qy = viewport.scroll_y / 32;
    let start_col: u8 = if qx > 0 {
        qx as u8
    } else {
        0
    };
    let start_row: u8 = if qy > 0 {
        qy as u8
    } else {
        0
    };
    let wc = viewport.width / 32;
    let wr = viewport.height / 32;
    let visible_cols: u8 = if wc <= cols as u16 {
        wc as u8
    } else {
        cols
    };
    let visible_rows: u8 = if wr <= rows as u16 {
        wr as u8
    } else {
        rows
    };
    let ec = start_col + visible_cols;
    let er = start_row + visible_rows;
    (start_col, start_row, if ec <= cols {
        ec
    } else {
        cols
    }, if er <= rows {
        er
    } else {
        rows
    })
}

/// Mapping a world point to the screen and back gives the point again.
pub proof fn lemma_transform_roundtrip(scroll: (i16, i16), wx: int, wy: int)
    ensures
        ({
            let s = to_screen(scroll, wx, wy);
            (s.0 + scroll.0, s.1 + scroll.1) == (wx, wy)
        }),
{
}

} // verus!
