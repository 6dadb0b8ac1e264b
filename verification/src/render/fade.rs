//! Fade and scroll animation: a fixed-point animator, interpolation and
//! fade percentages, and a frame timer.

use vstd::prelude::*;

verus! {

/// Division rounding toward zero, as machine integer division does.
pub open spec fn trunc_div(a: int, b: int) -> int
    recommends
        b > 0,
{
    if a >= 0 {
        a / b
    } else {
        -((-a) / b)
    }
}

/// Absolute value.
pub open spec fn abs_int(a: int) -> int {
    if a < 0 {
        -a
    } else {
        a
    }
}

/// The 32-bit product of `a` and `b`, wrapping, read back as signed.
pub open spec fn wrap_mul_i32(a: i32, b: i32) -> i32 {
    vstd::wrapping::u32_specs::wrapping_mul(a as u32, b as u32) as i32
}

/// One animation step: `accumulator * velocity + constant`, wrapping at
/// 2^32.
pub open spec fn fade_step(acc: u32, velocity: u32, constant: u32) -> u32 {
    vstd::wrapping::u32_specs::wrapping_add(
        vstd::wrapping::u32_specs::wrapping_mul(acc, velocity),
        constant,
    )
}

/// The scroll offset of an accumulator: bits 16..30.
pub open spec fn scroll_offset(acc: u32) -> u16 {
    ((acc >> 16u32) & 0x7FFF) as u16
}

/// What the animator holds.
pub struct FadeView {
    pub accumulator: u32,
    pub velocity: u32,
    pub constant: u32,
}

/// Fixed-point animator driving scrolling and palette fades.
pub struct FadeAnimator {
    accumulator: u32,
    velocity: u32,
    constant: u32,
}

impl View for FadeAnimator {
    type V = FadeView;

    closed spec fn view(&self) -> FadeView {
        FadeView { accumulator: self.accumulator, velocity: self.velocity, constant: self.constant }
    }
}

impl Default for FadeAnimator {
    fn default() -> (r: Self)
        ensures
            r@ == (FadeView { accumulator: 0, velocity: 0x0003_43FD, constant: 0x0026_9EC3 }),
    {
        FadeAnimator { accumulator: 0, velocity: 0x0003_43FD, constant: 0x0026_9EC3 }
    }
}

impl FadeAnimator {
    /// An animator at rest with the standard velocity and constant.
    pub fn new() -> (r: Self)
        ensures
            r@ == (FadeView { accumulator: 0, velocity: 0x0003_43FD, constant: 0x0026_9EC3 }),
    {
        Self::default()
    }

    /// Advances one frame (see `fade_step`) and returns the new scroll
    /// offset.
    pub fn tick(&mut self) -> (r: u16)
        ensures
            final(self)@ == (FadeView {
                accumulator: fade_step(old(self)@.accumulator, old(self)@.velocity, old(self)@.constant),
                ..old(self)@
            }),
            r == scroll_offset(final(self)@.accumulator),
    {
        let product = Self::mul32(self.accumulator, self.velocity);
        self.accumulator = product.wrapping_add(self.constant);
        ((self.accumulator >> 16) & 0x7FFF) as u16
    }

    /// Sets the velocity.
    pub fn set_velocity(&mut self, vel: u32)
        ensures
            final(self)@ == (FadeView { velocity: vel, ..old(self)@ }),
    {
        self.velocity = vel;
    }

    /// Clears the accumulator.
    pub fn reset(&mut self)
        ensures
            final(self)@ == (FadeView { accumulator: 0, ..old(self)@ }),
    {
        self.accumulator = 0;
    }

    /// 32-bit wrapping product.
    fn mul32(a: u32, b: u32) -> (r: u32)
        ensures
            r == vstd::wrapping::u32_specs::wrapping_mul(a, b),
    {
        a.wrapping_mul(b)
    }
}

/// The interpolation weight of `value`: `value * 100 / 0xB0`.
pub open spec fn fade_weight(value: u16) -> int {
    (value * 100) / 0xB0
}

/// `start + t * (end - start) / 100` with `t` the weight of `value`,
/// dividing toward zero.
pub open spec fn lerp_fade_spec(value: u16, start: i32, end: i32) -> int {
    start + trunc_div(fade_weight(value) * (end - start), 100)
}

/// A fade starts at `start` for value 0 and arrives at `end` for value
/// 0xB0; in between its weight runs from 0 to 100.
pub proof fn lemma_lerp_fade_ends(value: u16, start: i32, end: i32)
    ensures
        lerp_fade_spec(0, start, end) == start,
        lerp_fade_spec(0xB0, start, end) == end,
        value <= 0xB0 ==> 0 <= fade_weight(value) <= 100,
{
    let x: int = end - start;
    assert(fade_weight(0xB0) == 100);
    if x >= 0 {
        assert((100 * x) / 100 == x);
    } else {
        assert((100 * (-x)) / 100 == -x);
    }
    assert(100 * x == fade_weight(0xB0) * x);
}

/// Linear interpolation from `start` to `end` by the weight of `value`.
pub fn lerp_fade(value: u16, start: i32, end: i32) -> (r: i32)
    requires
        i32::MIN <= end - start <= i32::MAX,
        i32::MIN <= fade_weight(value) * (end - start) <= i32::MAX,
        i32::MIN <= lerp_fade_spec(value, start, end) <= i32::MAX,
    ensures
        r == lerp_fade_spec(value, start, end),
{
    let t = (value as i32 * 100) / 0xB0;
    let d = end - start;
    let p = t * d;
    let q = p / 100;
    assert(q == trunc_div(p as int, 100));
    start + q
}

/// The fade percentage of `current` between `target` (0) and `boundary`
/// (100): `|current - target| * 100 / |boundary - target|`, kept to its
/// low 16 bits, then capped at 100.
pub open spec fn fade_percentage(current: i32, target: i32, boundary: i32) -> u16 {
    if current == target {
        0
    } else if boundary == target {
        100
    } else {
        let raw = ((abs_int(current - target) * 100) / abs_int(boundary - target)) as u16;
        if raw < 100 {
            raw
        } else {
            100
        }
    }
}

/// The fade percentage is at most 100; it is 0 at the target and 100 at
/// the boundary (when the boundary is not the target).
pub proof fn lemma_fade_percentage_bounds(current: i32, target: i32, boundary: i32)
    ensures
        fade_percentage(current, target, boundary) <= 100,
        current == target ==> fade_percentage(current, target, boundary) == 0,
        current == boundary && boundary != target ==> fade_percentage(current, target, boundary) == 100,
{
    if current == boundary && boundary != target {
        let a = abs_int(current - target);
        assert(a > 0);
        assert((a * 100) / a == 100) by (nonlinear_arith)
            requires
                a > 0,
        ;
    }
}

/// How far `current` has come from `target` toward `boundary`, in percent.
pub fn calc_fade_percentage(current: i32, target: i32, boundary: i32) -> (r: u16)
    ensures
        r == fade_percentage(current, target, boundary),
{
    if current == target {
        0
    } else if boundary == target {
        100
    } else {
        let diff = current as i64 - target as i64;
        let span = boundary as i64 - target as i64;
        let a = if diff < 0 {
            -diff
        } else {
            diff
        };
        let b = if span < 0 {
            -span
        } else {
            span
        };
        let raw = (a * 100 / b) as u16;
        if raw < 100 {
            raw
        } else {
            100
        }
    }
}

/// `value * 100 / 0xB0`.
pub fn fade_scaled(value: u16) -> (r: u16)
    ensures
        r == fade_weight(value),
{
    (value as u32 * 100 / 0xB0) as u16
}

/// Entry `(index + 18) mod len` of the table, or 0 for an empty table.
pub fn circular_lookup(index: u8, table: &[i16]) -> (r: i16)
    ensures
        table@.len() == 0 ==> r == 0,
        table@.len() > 0 ==> r == table@[(index + 18) % (table@.len() as int)],
{
    let len = table.len();
    if len == 0 {
        return 0;
    }
    let idx = (index as usize + 18) % len;
    table[idx]
}

/// Step `i` of the forward phase: the circular entry for `i` times
/// `params[0]` (wrapping), divided by 10000 toward zero, plus `params[2]`.
pub open spec fn fade_primary(params: Seq<i32>, table: Seq<i16>, i: int) -> int {
    trunc_div(wrap_mul_i32(table[(i + 18) % (table.len() as int)] as i32, params[0]) as int, 10000)
        + params[2]
}

/// Step `i` of the backward phase: entry `18 i mod len` times
/// `params[1]` (wrapping), divided by 10000 toward zero, plus `params[3]`.
pub open spec fn fade_secondary(params: Seq<i32>, table: Seq<i16>, i: int) -> int {
    trunc_div(wrap_mul_i32(table[(i * 18) % (table.len() as int)] as i32, params[1]) as int, 10000)
        + params[3]
}

/// The four steps of a compound scroll fade, forward and backward (see
/// `fade_primary` and `fade_secondary`).
pub fn scroll_fade_sequence(params: &[i32; 4], table: &[i16]) -> (r: ([i32; 4], [i32; 4]))
    requires
        table@.len() > 0,
        forall|i: int|
            0 <= i < 4 ==> i32::MIN <= #[trigger] fade_primary(params@, table@, i) <= i32::MAX,
        forall|i: int|
            0 <= i < 4 ==> i32::MIN <= #[trigger] fade_secondary(params@, table@, i) <= i32::MAX,
    ensures
        forall|i: int| 0 <= i < 4 ==> r.0@[i] == fade_primary(params@, table@, i),
        forall|i: int| 0 <= i < 4 ==> r.1@[i] == fade_secondary(params@, table@, i),
{
    let mut primary = [0i32; 4];
    let mut secondary = [0i32; 4];
    let len = table.len();
    let mut i: usize = 0;
    while i < 4
        invariant
            i <= 4,
            len == table@.len(),
            len > 0,
            forall|k: int|
                0 <= k < 4 ==> i32::MIN <= #[trigger] fade_primary(params@, table@, k) <= i32::MAX,
            forall|k: int|
                0 <= k < 4 ==> i32::MIN <= #[trigger] fade_secondary(params@, table@, k)
                    <= i32::MAX,
            forall|k: int| 0 <= k < i ==> primary@[k] == fade_primary(params@, table@, k),
            forall|k: int| 0 <= k < i ==> secondary@[k] == fade_secondary(params@, table@, k),
        decreases 4 - i,
    {
        let lookup_val = circular_lookup(i as u8, table) as i32;
        let product = FadeAnimator::mul32(lookup_val as u32, params[0] as u32);
        let q = product as i32 / 10000;
        assert(q == trunc_div((product as i32) as int, 10000));
        assert(fade_primary(params@, table@, i as int) == q + params@[2]);
        primary[i] = q + params[2];
        let table_val = table[(i * 18) % len] as i32;
        let product2 = FadeAnimator::mul32(table_val as u32, params[1] as u32);
        let q2 = product2 as i32 / 10000;
        assert(q2 == trunc_div((product2 as i32) as int, 10000));
        assert(fade_secondary(params@, table@, i as int) == q2 + params@[3]);
        secondary[i] = q2 + params[3];
        i = i + 1;
    }
    (primary, secondary)
}

/// What a frame timer holds.
pub struct TimerView {
    pub last_tick: u64,
    pub frame_ms: u64,
}

/// Paces frames: a frame is due `frame_ms` after the last one.
pub struct FrameTimer {
    last_tick: u64,
    frame_ms: u64,
}

impl View for FrameTimer {
    type V = TimerView;

    closed spec fn view(&self) -> TimerView {
        TimerView { last_tick: self.last_tick, frame_ms: self.frame_ms }
    }
}

impl FrameTimer {
    /// A timer for `fps` frames per second: `1000 / fps` milliseconds a
    /// frame.
    pub fn new(fps: u32) -> (r: Self)
        requires
            fps > 0,
        ensures
            r@ == (TimerView { last_tick: 0, frame_ms: (1000u32 / fps) as u64 }),
    {
        FrameTimer { last_tick: 0, frame_ms: 1000 / fps as u64 }
    }

    /// Whether the next frame is due at `current_tick`.
    pub fn is_ready(&self, current_tick: u64) -> (r: bool)
        requires
            self@.last_tick + self@.frame_ms <= u64::MAX,
        ensures
            r == (current_tick >= self@.last_tick + self@.frame_ms),
    {
        current_tick >= self.last_tick + self.frame_ms
    }

    /// Records that a frame was handled at `current_tick`.
    pub fn mark(&mut self, current_tick: u64)
        ensures
            final(self)@ == (TimerView { last_tick: current_tick, ..old(self)@ }),
    {
        self.last_tick = current_tick;
    }
}

} // verus!
