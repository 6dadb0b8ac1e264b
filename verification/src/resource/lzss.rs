//! LZSS decompression over a gamma-coded bit stream, and RLE image
//! decoding.

use vstd::prelude::*;
use vstd::arithmetic::power2::{pow2, lemma_pow2_unfold, lemma_pow2_strictly_increases, lemma2_to64};

verus! {

/// Number of bits the stream of `data` holds: each byte gives its seven
/// high bits.
pub open spec fn stream_len(data: Seq<u8>) -> int {
    7 * data.len() as int
}

/// Bit `k` of the stream: bit `7 - k % 7` of byte `k / 7`, most
/// significant first.
pub open spec fn stream_bit(data: Seq<u8>, k: int) -> bool {
    (data[k / 7] >> ((7 - k % 7) as u8)) & 1 == 1
}

/// Number of consecutive one bits from position `p`.
pub open spec fn ones_run(data: Seq<u8>, p: int) -> nat
    decreases stream_len(data) - p,
{
    if p < 0 || p >= stream_len(data) || !stream_bit(data, p) {
        0
    } else {
        1 + ones_run(data, p + 1)
    }
}

/// The value of `n` stream bits from position `p`, most significant first.
pub open spec fn bits_value(data: Seq<u8>, p: int, n: nat) -> nat
    decreases n,
{
    if n == 0 {
        0
    } else {
        bits_value(data, p, (n - 1) as nat) * 2 + if stream_bit(data, p + n - 1) {
            1nat
        } else {
            0nat
        }
    }
}

/// The value of a unary prefix of `k` ones: `2^k - 1`.
pub open spec fn unary_value(k: nat) -> nat
    decreases k,
{
    if k == 0 {
        0
    } else {
        unary_value((k - 1) as nat) * 2 + 1
    }
}

/// The gamma code at position `p`: `k` ones, a zero, then `k + 1` suffix
/// bits; its value is `(2^k - 1) * 2 + suffix`. Gives the value and the
/// position after the code, or `None` when the stream ends inside it.
pub open spec fn gamma_spec(data: Seq<u8>, p: int) -> Option<(int, int)> {
    let k = ones_run(data, p);
    let s = p + k + 1;
    if p + k >= stream_len(data) || s + k + 1 > stream_len(data) {
        None
    } else {
        Some(((unary_value(k) * 2 + bits_value(data, s, k + 1)) as int, s + k + 1))
    }
}

/// Reading the gamma code at `p` stays within the reader's signed 32-bit
/// arithmetic: at most 31 ones; a code of 30 ones needs a suffix of at most
/// 1 unless the stream ends inside it; a code of 31 ones must be cut off by
/// the end of the stream.
pub open spec fn gamma_safe(data: Seq<u8>, p: int) -> bool {
    let k = ones_run(data, p);
    let s = p + k + 1;
    ||| k <= 29
    ||| (p + k >= stream_len(data) && k <= 31)
    ||| (k == 30 && (s + k + 1 > stream_len(data) || bits_value(data, s, 31) <= 1))
    ||| (k == 31 && s + k + 1 > stream_len(data))
}

/// What the decompressor holds: its input, the number of stream bits read
/// so far, and whether it has run into the end of the input.
pub struct LzssView {
    pub data: Seq<u8>,
    pub pos: int,
    pub eof: bool,
}

/// The read position, end flag and output of a decompression in progress.
pub struct LzState {
    pub pos: int,
    pub eof: bool,
    pub out: Seq<u8>,
}

/// Where a decompression stops: whether it succeeded, whether the 32-bit
/// and size arithmetic held all the way, and the state it stopped in.
pub struct LzResult {
    pub ok: bool,
    pub safe: bool,
    pub state: LzState,
}

/// Reading a gamma code: its value, the new position and end flag. A code
/// cut off by the end of the input consumes the rest of the stream.
pub open spec fn gamma_after(data: Seq<u8>, pos: int, eof: bool) -> (Option<int>, int, bool) {
    match gamma_spec(data, pos) {
        Some((v, np)) => (Some(v), np, eof),
        None => (None, stream_len(data), true),
    }
}

/// `n` bytes copied from `out` starting `distance` bytes back, repeating
/// the window when the copy is longer than the distance.
pub open spec fn back_copy(out: Seq<u8>, distance: int, n: int) -> Seq<u8> {
    Seq::new(n as nat, |i: int| out[out.len() - distance + i % distance])
}

/// One step of a decompression: either the end, with its result, or the
/// state and remaining byte count after one more token.
pub enum LzStep {
    Done(LzResult),
    Next(LzState, nat),
}

/// Decoding one token from state `st` with `rem` bytes still to produce. A
/// token below 0x100 is a literal byte; a larger token is a back reference
/// at distance `token - 0x100`, whose length is the next gamma code plus 3
/// (a missing length code counts as 0). Decompression fails when a token
/// is missing or a back reference points before the start of the output;
/// it is unsafe when a code overflows the reader or a reference is longer
/// than what remains to be produced.
pub open spec fn lz_step(data: Seq<u8>, st: LzState, rem: nat) -> LzStep {
    if rem == 0 {
        LzStep::Done(LzResult { ok: true, safe: true, state: st })
    } else if !gamma_safe(data, st.pos) {
        LzStep::Done(LzResult { ok: false, safe: false, state: st })
    } else {
        let (t, p1, e1) = gamma_after(data, st.pos, st.eof);
        match t {
            None => LzStep::Done(
                LzResult { ok: false, safe: true, state: LzState { pos: p1, eof: e1, out: st.out } },
            ),
            Some(v) => if v < 0x100 {
                LzStep::Next(LzState { pos: p1, eof: e1, out: st.out.push(v as u8) }, (rem - 1) as nat)
            } else if !gamma_safe(data, p1) {
                LzStep::Done(
                    LzResult { ok: false, safe: false, state: LzState { pos: p1, eof: e1, out: st.out } },
                )
            } else {
                let (lc, p2, e2) = gamma_after(data, p1, e1);
                let length = match lc {
                    Some(x) => x,
                    None => 0,
                } + 3;
                let distance = v - 0x100;
                if distance == 0 || st.out.len() < distance {
                    LzStep::Done(
                        LzResult { ok: false, safe: true, state: LzState { pos: p2, eof: e2, out: st.out } },
                    )
                } else if length > rem {
                    LzStep::Done(
                        LzResult { ok: false, safe: false, state: LzState { pos: p2, eof: e2, out: st.out } },
                    )
                } else {
                    LzStep::Next(
                        LzState { pos: p2, eof: e2, out: st.out + back_copy(st.out, distance, length) },
                        (rem - length) as nat,
                    )
                }
            },
        }
    }
}

/// Decompressing `rem` more bytes from state `st`, token by token (see
/// `lz_step`).
pub open spec fn lz_run(data: Seq<u8>, st: LzState, rem: nat) -> LzResult
    decreases rem,
{
    match lz_step(data, st, rem) {
        LzStep::Done(r) => r,
        LzStep::Next(st2, rem2) => if rem2 < rem {
            lz_run(data, st2, rem2)
        } else {
            LzResult { ok: false, safe: false, state: st }
        },
    }
}

/// Being a prefix is transitive.
proof fn lemma_prefix_trans(a: Seq<u8>, b: Seq<u8>, c: Seq<u8>)
    requires
        a.is_prefix_of(b),
        b.is_prefix_of(c),
    ensures
        a.is_prefix_of(c),
{
    assert forall|i: int| 0 <= i < a.len() implies a[i] == c[i] by {
        assert(a[i] == b.subrange(0, a.len() as int)[i]);
        assert(b[i] == c.subrange(0, b.len() as int)[i]);
    }
    assert(a =~= c.subrange(0, a.len() as int));
}

/// A sequence is a prefix of itself with one more element.
proof fn lemma_prefix_push(a: Seq<u8>, x: u8)
    ensures
        a.is_prefix_of(a.push(x)),
{
    assert(a =~= a.push(x).subrange(0, a.len() as int));
}

/// A sequence is a prefix of itself followed by more.
proof fn lemma_prefix_add(a: Seq<u8>, b: Seq<u8>)
    ensures
        a.is_prefix_of(a + b),
{
    assert(a =~= (a + b).subrange(0, a.len() as int));
}

/// Decompression only appends: the output it starts from is a prefix of
/// the output it stops with, whether it succeeds or not. With nothing to
/// produce it succeeds and changes nothing; when it succeeds it has added
/// exactly the number of bytes asked for.
pub proof fn lemma_lz_run_appends(data: Seq<u8>, st: LzState, rem: nat)
    ensures
        ({
            let r = lz_run(data, st, rem);
            &&& st.out.is_prefix_of(r.state.out)
            &&& rem == 0 ==> r.ok && r.state == st
            &&& r.ok ==> r.state.out.len() == st.out.len() + rem
        }),
    decreases rem,
{
    assert(st.out =~= st.out.subrange(0, st.out.len() as int));
    match lz_step(data, st, rem) {
        LzStep::Done(_) => {},
        LzStep::Next(st2, rem2) => {
            if rem2 < rem {
                lemma_lz_run_appends(data, st2, rem2);
                let (t, p1, e1) = gamma_after(data, st.pos, st.eof);
                let v = t.unwrap();
                if v < 0x100 {
                    lemma_prefix_push(st.out, v as u8);
                } else {
                    let (lc, p2, e2) = gamma_after(data, p1, e1);
                    let length = match lc {
                        Some(x) => x,
                        None => 0,
                    } + 3;
                    lemma_prefix_add(st.out, back_copy(st.out, v - 0x100, length));
                }
                lemma_prefix_trans(st.out, st2.out, lz_run(data, st2, rem2).state.out);
            }
        },
    }
}

proof fn lemma_unary_value(k: nat)
    ensures
        unary_value(k) + 1 == pow2(k),
    decreases k,
{
    if k > 0 {
        lemma_unary_value((k - 1) as nat);
        lemma_pow2_unfold(k);
    } else {
        lemma2_to64();
    }
}

proof fn lemma_bits_value_bound(data: Seq<u8>, p: int, n: nat)
    ensures
        bits_value(data, p, n) < pow2(n),
    decreases n,
{
    if n > 0 {
        lemma_bits_value_bound(data, p, (n - 1) as nat);
        lemma_pow2_unfold(n);
    } else {
        lemma2_to64();
    }
}

/// A run of `j` ones ended by a zero (or by the end of the stream) is the
/// unary prefix.
proof fn lemma_ones_run(data: Seq<u8>, p: int, j: int)
    requires
        0 <= p,
        0 <= j,
        p + j <= stream_len(data),
        forall|i: int| p <= i < p + j ==> #[trigger] stream_bit(data, i),
        p + j == stream_len(data) || !stream_bit(data, p + j),
    ensures
        ones_run(data, p) == j,
    decreases j,
{
    if j > 0 {
        lemma_ones_run(data, p + 1, j - 1);
    }
}

/// The run of ones from `p` is made of one bits, and is ended by a zero
/// bit unless it reaches the end of the stream.
proof fn lemma_ones_run_bits(data: Seq<u8>, p: int)
    requires
        0 <= p,
    ensures
        forall|i: int| p <= i < p + ones_run(data, p) ==> #[trigger] stream_bit(data, i),
        p + ones_run(data, p) < stream_len(data) ==> !stream_bit(data, p + ones_run(data, p)),
    decreases stream_len(data) - p,
{
    if p < stream_len(data) && stream_bit(data, p) {
        lemma_ones_run_bits(data, p + 1);
    }
}

/// A gamma code is `k` one bits, a zero bit and a suffix of `k + 1` bits
/// whose binary value is `s`; it reads as `2^(k+1) - 2 + s`, and the code
/// ends right after the suffix.
pub proof fn lemma_gamma_closed_form(data: Seq<u8>, p: int)
    requires
        0 <= p,
        gamma_spec(data, p) is Some,
    ensures
        ({
            let k = ones_run(data, p);
            let s = p + k + 1;
            &&& forall|i: int| p <= i < p + k ==> #[trigger] stream_bit(data, i)
            &&& !stream_bit(data, p + k)
            &&& gamma_spec(data, p).unwrap().0 == pow2(k + 1) - 2 + bits_value(data, s, k + 1)
            &&& bits_value(data, s, k + 1) < pow2(k + 1)
            &&& gamma_spec(data, p).unwrap().1 == s + k + 1
        }),
{
    let k = ones_run(data, p);
    lemma_ones_run_bits(data, p);
    lemma_unary_value(k);
    lemma_pow2_unfold(k + 1);
    lemma_bits_value_bound(data, p + k + 1, k + 1);
}

/// A short gamma code held in the first byte: when the top `2k + 2` bits
/// of `data[0]` are `k` ones (`k <= 2`), a zero and a `k + 1`-bit suffix of
/// value `s`, the code at the start reads as `2^(k+1) - 2 + s` and ends
/// after those bits. An empty input holds no code.
pub proof fn lemma_gamma_first_byte(data: Seq<u8>, k: nat, s: nat)
    requires
        1 <= data.len(),
        k <= 2,
        s < pow2(k + 1),
        data[0] >> ((6 - 2 * k) as u8) == (pow2(k) - 1) * pow2(k + 2) + s,
    ensures
        gamma_spec(data, 0) == Some(((pow2(k + 1) - 2 + s) as int, (2 * k + 2) as int)),
        gamma_spec(Seq::<u8>::empty(), 0) is None,
{
    lemma2_to64();
    reveal_with_fuel(bits_value, 4);
    reveal_with_fuel(unary_value, 3);
    let b = data[0];
    let sv = s as u8;
    assert(stream_bit(data, 0) == ((b >> 7u8) & 1 == 1));
    assert(stream_bit(data, 1) == ((b >> 6u8) & 1 == 1));
    assert(stream_bit(data, 2) == ((b >> 5u8) & 1 == 1));
    assert(stream_bit(data, 3) == ((b >> 4u8) & 1 == 1));
    assert(stream_bit(data, 4) == ((b >> 3u8) & 1 == 1));
    assert(stream_bit(data, 5) == ((b >> 2u8) & 1 == 1));
    if k == 0 {
        assert((6 - 2 * k) as u8 == 6u8);
        assert(pow2(k) == 1 && pow2(k + 1) == 2 && pow2(k + 2) == 4);
        assert((pow2(k) - 1) * pow2(k + 2) == 0) by (nonlinear_arith)
            requires
                pow2(k) == 1,
                pow2(k + 2) == 4,
        ;
        assert(sv == s);
        assert(b >> 6u8 == sv);
        assert((b >> 7u8) & 1 == 0 && (b >> 6u8) & 1 == sv) by (bit_vector)
            requires
                b >> 6u8 == sv,
                sv < 2,
        ;
        lemma_ones_run(data, 0, 0);
        assert(bits_value(data, 1, 1) == s);
        assert(gamma_spec(data, 0) == Some((s as int, 2int)));
    } else if k == 1 {
        assert((6 - 2 * k) as u8 == 4u8);
        assert(pow2(k) == 2 && pow2(k + 1) == 4 && pow2(k + 2) == 8);
        assert((pow2(k) - 1) * pow2(k + 2) == 8) by (nonlinear_arith)
            requires
                pow2(k) == 2,
                pow2(k + 2) == 8,
        ;
        assert(sv == s);
        assert(b >> 4u8 == 8 + sv);
        assert((b >> 7u8) & 1 == 1 && (b >> 6u8) & 1 == 0 && sv == ((b >> 5u8) & 1) * 2 + ((b >> 4u8) & 1)
            && (b >> 5u8) & 1 <= 1 && (b >> 4u8) & 1 <= 1)
            by (bit_vector)
            requires
                b >> 4u8 == 8 + sv,
                sv < 4,
        ;
        lemma_ones_run(data, 0, 1);
        assert(bits_value(data, 2, 1) == (b >> 5u8) & 1);
        assert(bits_value(data, 2, 2) == s);
        assert(unary_value(1) == 1);
        assert(gamma_spec(data, 0) == Some((2 + s as int, 4int)));
    } else {
        assert((6 - 2 * k) as u8 == 2u8);
        assert(pow2(k) == 4 && pow2(k + 1) == 8 && pow2(k + 2) == 16);
        assert((pow2(k) - 1) * pow2(k + 2) == 48) by (nonlinear_arith)
            requires
                pow2(k) == 4,
                pow2(k + 2) == 16,
        ;
        assert(sv == s);
        assert(b >> 2u8 == 48 + sv);
        assert((b >> 7u8) & 1 == 1 && (b >> 6u8) & 1 == 1 && (b >> 5u8) & 1 == 0 && sv == ((b >> 4u8) & 1)
            * 4 + ((b >> 3u8) & 1) * 2 + ((b >> 2u8) & 1) && (b >> 4u8) & 1 <= 1 && (b >> 3u8) & 1 <= 1 && (b
            >> 2u8) & 1 <= 1) by (bit_vector)
            requires
                b >> 2u8 == 48 + sv,
                sv < 8,
        ;
        lemma_ones_run(data, 0, 2);
        assert(bits_value(data, 3, 1) == (b >> 4u8) & 1);
        assert(bits_value(data, 3, 2) == ((b >> 4u8) & 1) * 2 + ((b >> 3u8) & 1));
        assert(bits_value(data, 3, 3) == s);
        assert(unary_value(2) == 3);
        assert(gamma_spec(data, 0) == Some((6 + s as int, 6int)));
    }
}

/// A gamma code of value below 256 has at most seven leading ones.
proof fn lemma_small_gamma_is_safe(data: Seq<u8>, p: int)
    requires
        gamma_spec(data, p) is Some,
        gamma_spec(data, p).unwrap().0 < 0x100,
    ensures
        gamma_safe(data, p),
{
    let k = ones_run(data, p);
    lemma_unary_value(k);
    lemma2_to64();
    if k > 8 {
        lemma_pow2_strictly_increases(8, k);
    }
}

/// A literal token writes its own value: when the next code of the stream
/// is below 256, decompressing `rem > 0` bytes appends exactly that value
/// as a byte and goes on after the code with one byte less to produce. In
/// particular a single literal decompresses to that byte, successfully.
pub proof fn lemma_lz_literal(data: Seq<u8>, st: LzState, rem: nat)
    requires
        rem > 0,
        gamma_spec(data, st.pos) is Some,
        gamma_spec(data, st.pos).unwrap().0 < 0x100,
    ensures
        ({
            let v = gamma_spec(data, st.pos).unwrap().0;
            let next = LzState { pos: gamma_spec(data, st.pos).unwrap().1, eof: st.eof, out: st.out.push(v as u8) };
            &&& lz_run(data, st, rem) == lz_run(data, next, (rem - 1) as nat)
            &&& rem == 1 ==> lz_run(data, st, rem) == LzResult { ok: true, safe: true, state: next }
        }),
{
    lemma_small_gamma_is_safe(data, st.pos);
}

/// A back reference copies from the output. When the next code `v` of
/// the stream is 256 or more, it refers `v - 256` bytes back, and the code
/// after it (0 when the stream ends there) plus 3 gives the length:
/// - a distance of 0, or one reaching before the start of the output,
///   fails, leaving the output as it is;
/// - otherwise, when the length fits in what remains to produce, the output
///   grows by exactly that length, keeps what it had, and each new byte
///   equals the byte `v - 256` places before it; decompression goes on
///   after the two codes with that much less to produce.
/// A stream that ends before the next token fails and leaves the output.
pub proof fn lemma_lz_back_reference(data: Seq<u8>, st: LzState, rem: nat)
    requires
        rem > 0,
        gamma_safe(data, st.pos),
    ensures
        gamma_spec(data, st.pos) is None ==> !lz_run(data, st, rem).ok && lz_run(data, st, rem).state.out
            == st.out,
        ({
            let v = gamma_spec(data, st.pos).unwrap().0;
            let p1 = gamma_spec(data, st.pos).unwrap().1;
            let (lc, p2, e2) = gamma_after(data, p1, st.eof);
            let length: int = match lc {
                Some(x) => x,
                None => 0,
            } + 3;
            let distance = v - 0x100;
            gamma_spec(data, st.pos) is Some && v >= 0x100 && gamma_safe(data, p1) ==> {
                &&& (distance == 0 || distance > st.out.len()) ==> !lz_run(data, st, rem).ok && lz_run(
                    data,
                    st,
                    rem,
                ).state.out == st.out
                &&& (0 < distance <= st.out.len() && length <= rem) ==> exists|o: Seq<u8>|
                    {
                        &&& o.len() == st.out.len() + length
                        &&& st.out.is_prefix_of(o)
                        &&& forall|i: int|
                            0 <= i < length ==> #[trigger] o[st.out.len() + i] == o[st.out.len() + i - distance]
                        &&& lz_run(data, st, rem) == lz_run(
                            data,
                            LzState { pos: p2, eof: e2, out: o },
                            (rem - length) as nat,
                        )
                    }
            }
        }),
{
    if gamma_spec(data, st.pos) is Some {
        let v = gamma_spec(data, st.pos).unwrap().0;
        let p1 = gamma_spec(data, st.pos).unwrap().1;
        let (lc, p2, e2) = gamma_after(data, p1, st.eof);
        let length: int = match lc {
            Some(x) => x,
            None => 0,
        } + 3;
        let distance = v - 0x100;
        if v >= 0x100 && gamma_safe(data, p1) && 0 < distance <= st.out.len() && length <= rem {
            let bc = back_copy(st.out, distance, length);
            let o = st.out + bc;
            lemma_prefix_add(st.out, bc);
            assert forall|i: int| 0 <= i < st.out.len() implies #[trigger] o[i] == st.out[i] by {}
            assert forall|i: int| 0 <= i < length implies #[trigger] o[st.out.len() + i] == st.out[st.out.len()
                - distance + i % distance] by {
                assert(o[st.out.len() + i] == bc[i]);
            }
            lemma_periodic(st.out, o, distance, length);
            assert(lz_run(data, st, rem) == lz_run(
                data,
                LzState { pos: p2, eof: e2, out: o },
                (rem - length) as nat,
            ));
        }
    }
}

/// A gamma code within the safety bound has a value in `0..2^31`.
proof fn lemma_gamma_fits(data: Seq<u8>, p: int)
    requires
        gamma_safe(data, p),
        gamma_spec(data, p) is Some,
    ensures
        0 <= gamma_spec(data, p).unwrap().0 < 0x8000_0000,
{
    let k = ones_run(data, p);
    let s = p + k + 1;
    lemma_unary_value(k);
    lemma_bits_value_bound(data, s, k + 1);
    lemma_pow2_unfold(k + 1);
    lemma2_to64();
    if k < 29 {
        lemma_pow2_strictly_increases(k, 29);
    }
    if k == 30 {
        assert(unary_value(30) == 0x3FFF_FFFF);
    }
}

/// The LZSS decompressor. Each input byte contributes its seven high bits
/// to the bit stream.
pub struct LzssDecompressor {
    current_byte: u8,
    bit_counter: i8,
    buffer: Vec<u8>,
    buffer_pos: usize,
    eof: bool,
}

impl View for LzssDecompressor {
    type V = LzssView;

    closed spec fn view(&self) -> LzssView {
        LzssView {
            data: self.buffer@,
            pos: if self.bit_counter == 0 {
                self.buffer_pos * 7
            } else {
                (self.buffer_pos - 1) * 7 + (7 - self.bit_counter)
            },
            eof: self.eof,
        }
    }
}

impl LzssDecompressor {
    /// The bit counter and the shifted current byte agree with the read
    /// position.
    pub closed spec fn wf(&self) -> bool {
        &&& 0 <= self.bit_counter <= 6
        &&& self.buffer_pos <= self.buffer@.len()
        &&& self.bit_counter > 0 ==> {
            &&& self.buffer_pos >= 1
            &&& self.current_byte == (self.buffer@[self.buffer_pos - 1] << ((7
                - self.bit_counter) as u8)) as u8
        }
    }

    proof fn lemma_pos_bounds(&self)
        requires
            self.wf(),
        ensures
            0 <= self@.pos <= stream_len(self@.data),
            self@.pos == stream_len(self@.data) <==> (self.bit_counter == 0 && self.buffer_pos
                == self.buffer@.len()),
    {
    }

    /// A decompressor at the start of `data`.
    pub fn new(data: Vec<u8>) -> (r: Self)
        ensures
            r.wf(),
            r@ == (LzssView { data: data@, pos: 0, eof: false }),
    {
        LzssDecompressor { current_byte: 0, bit_counter: 0, buffer: data, buffer_pos: 0, eof: false }
    }

    /// Next stream bit, or `None` (setting the end flag) at the end.
    fn read_bit(&mut self) -> (r: Option<bool>)
        requires
            old(self).wf(),
        ensures
            final(self).wf(),
            final(self)@.data == old(self)@.data,
            old(self)@.pos < stream_len(old(self)@.data) ==> r == Some(
                stream_bit(old(self)@.data, old(self)@.pos),
            ) && final(self)@.pos == old(self)@.pos + 1 && final(self)@.eof == old(self)@.eof,
            old(self)@.pos >= stream_len(old(self)@.data) ==> r is None && final(self)@.pos
                == old(self)@.pos && final(self)@.eof,
    {
        proof {
            self.lemma_pos_bounds();
        }
        if self.bit_counter <= 0 {
            let ghost s0 = *self;
            match self.read_byte() {
                Some(b) => {
                    assert(self.buffer_pos == s0.buffer_pos + 1);
                    self.current_byte = b;
                    self.bit_counter = 7;
                    assert(b << 0u8 == b) by (bit_vector);
                },
                None => {
                    return None;
                },
            }
        }
        assert(self.buffer_pos >= 1);
        let ghost c = self.bit_counter;
        let ghost b = self.buffer@[self.buffer_pos - 1];
        let ghost k = old(self)@.pos;
        assert(k / 7 == self.buffer_pos - 1 && k % 7 == 7 - c) by (nonlinear_arith)
            requires
                k == (self.buffer_pos - 1) * 7 + (7 - c),
                1 <= c <= 7,
        ;
        let cb = self.current_byte;
        let bit = (cb & 0x80) != 0;
        assert(cb == (b << ((7 - c) as u8)) as u8);
        proof {
            let s = (7 - c) as u8;
            assert(s < 7);
            assert(((b << s) as u8) & 0x80 != 0 <==> (b >> ((7 - s) as u8)) & 1 == 1) by (bit_vector)
                requires
                    s < 7,
            ;
            assert(((((b << s) as u8) << 1u8) as u8) == (b << ((s + 1) as u8)) as u8) by (bit_vector)
                requires
                    s < 7,
            ;
        }
        self.current_byte = cb << 1;
        self.bit_counter = self.bit_counter - 1;
        Some(bit)
    }

    /// Next input byte, or `None` (setting the end flag) at the end.
    fn read_byte(&mut self) -> (r: Option<u8>)
        requires
            old(self).bit_counter == 0,
            old(self).wf(),
        ensures
            final(self).buffer@ == old(self).buffer@,
            final(self).current_byte == old(self).current_byte,
            final(self).bit_counter == old(self).bit_counter,
            old(self).buffer_pos < old(self).buffer@.len() ==> {
                &&& r == Some(old(self).buffer@[old(self).buffer_pos as int])
                &&& final(self).buffer_pos == old(self).buffer_pos + 1
                &&& final(self).eof == old(self).eof
            },
            old(self).buffer_pos >= old(self).buffer@.len() ==> {
                &&& r is None
                &&& final(self).buffer_pos == old(self).buffer_pos
                &&& final(self).eof
            },
    {
        if self.buffer_pos >= self.buffer.len() {
            self.eof = true;
            return None;
        }
        let byte = self.buffer[self.buffer_pos];
        self.buffer_pos = self.buffer_pos + 1;
        Some(byte)
    }

    /// Reads one gamma code (see `gamma_spec`); `None`, with the rest of
    /// the stream consumed, when the stream ends inside the code.
    pub fn gamma_read(&mut self) -> (r: Option<i32>)
        requires
            old(self).wf(),
            gamma_safe(old(self)@.data, old(self)@.pos),
        ensures
            final(self).wf(),
            final(self)@.data == old(self)@.data,
            ({
                let (t, p, e) = gamma_after(old(self)@.data, old(self)@.pos, old(self)@.eof);
                &&& final(self)@.pos == p
                &&& final(self)@.eof == e
                &&& match t {
                    Some(v) => r == Some(v as i32) && 0 <= v < 0x8000_0000,
                    None => r is None,
                }
            }),
    {
        let ghost data = self@.data;
        let ghost p = self@.pos;
        let ghost e0 = self@.eof;
        proof {
            self.lemma_pos_bounds();
        }
        let mut prefix_value: i32 = 0;
        let mut prefix_bits: i32 = 0;
        loop
            invariant_except_break
                self.wf(),
                data == old(self)@.data,
                p == old(self)@.pos,
                e0 == old(self)@.eof,
                self@.data == data,
                self@.eof == e0,
                0 <= p,
                p + prefix_bits <= stream_len(data),
                self@.pos == p + prefix_bits,
                0 <= prefix_bits,
                forall|i: int| p <= i < p + prefix_bits ==> #[trigger] stream_bit(data, i),
                prefix_value == unary_value(prefix_bits as nat),
                gamma_safe(data, p),
                prefix_bits <= ones_run(data, p),
            ensures
                self.wf(),
                self@.data == data,
                self@.eof == e0,
                prefix_bits >= 1,
                ones_run(data, p) == prefix_bits - 1,
                self@.pos == p + prefix_bits,
                p + prefix_bits <= stream_len(data),
                prefix_value == unary_value((prefix_bits - 1) as nat),
                prefix_bits <= 32,
                gamma_safe(data, p),
            decreases stream_len(data) - self@.pos,
        {
            let ghost before = self@.pos;
            let bit = match self.read_bit() {
                Some(b) => b,
                None => {
                    proof {
                        lemma_ones_run(data, p, prefix_bits as int);
                    }
                    return None;
                },
            };
            if bit {
                proof {
                    lemma_unary_value(prefix_bits as nat);
                    lemma_unary_value((prefix_bits + 1) as nat);
                    lemma_ones_extends(data, p, prefix_bits as int);
                    lemma2_to64();
                    if prefix_bits + 1 < 31 {
                        lemma_pow2_strictly_increases((prefix_bits + 1) as nat, 31);
                    }
                }
                prefix_value = prefix_value * 2 + 1;
                prefix_bits = prefix_bits + 1;
            } else {
                proof {
                    lemma_ones_run(data, p, prefix_bits as int);
                }
                prefix_bits = prefix_bits + 1;
                break;
            }
        }
        let ghost k = (prefix_bits - 1) as nat;
        let ghost s = p + prefix_bits;
        let mut suffix_value: i32 = 0;
        let mut i: i32 = 0;
        while i < prefix_bits
            invariant
                self.wf(),
                data == old(self)@.data,
                p == old(self)@.pos,
                e0 == old(self)@.eof,
                ones_run(data, p) == k,
                prefix_value == unary_value(k),
                0 <= p,
                self@.data == data,
                self@.eof == e0,
                0 <= i <= prefix_bits,
                prefix_bits == k + 1,
                k <= 31,
                gamma_safe(data, p),
                s == p + k + 1,
                self@.pos == s + i,
                s + i <= stream_len(data),
                suffix_value == bits_value(data, s, i as nat),
            decreases prefix_bits - i,
        {
            let bit = match self.read_bit() {
                Some(b) => b,
                None => {
                    return None;
                },
            };
            proof {
                assert(i <= 30);
                lemma_bits_value_bound(data, s, i as nat);
                lemma2_to64();
                if i < 30 {
                    lemma_pow2_strictly_increases(i as nat, 30);
                }
            }
            suffix_value = suffix_value * 2 + if bit {
                1
            } else {
                0
            };
            i = i + 1;
        }
        proof {
            lemma_gamma_fits(data, p);
        }
        Some(prefix_value * 2 + suffix_value)
    }

    /// Decodes one token onto `output` (see `lz_step`): the remaining byte
    /// count after it, or `None` when decompression fails there.
    fn decode_token(&mut self, output: &mut Vec<u8>, remaining: usize, literal_table: &[u8; 256]) -> (r: Option<usize>)
        requires
            old(self).wf(),
            remaining > 0,
            forall|j: int| 0 <= j < 256 ==> literal_table@[j] == j,
            lz_run(
                old(self)@.data,
                LzState { pos: old(self)@.pos, eof: old(self)@.eof, out: old(output)@ },
                remaining as nat,
            ).safe,
        ensures
            final(self).wf(),
            final(self)@.data == old(self)@.data,
            match lz_step(
                old(self)@.data,
                LzState { pos: old(self)@.pos, eof: old(self)@.eof, out: old(output)@ },
                remaining as nat,
            ) {
                LzStep::Done(res) => r is None && !res.ok && res.state == LzState {
                    pos: final(self)@.pos,
                    eof: final(self)@.eof,
                    out: final(output)@,
                },
                LzStep::Next(st2, rem2) => r == Some(rem2 as usize) && rem2 < remaining && st2
                    == LzState { pos: final(self)@.pos, eof: final(self)@.eof, out: final(output)@ },
            },
    {
        let ghost data = self@.data;
        let token = match self.gamma_read() {
            Some(v) => v,
            None => return None,
        };
        if token < 0x100 {
            let byte = literal_table[token as usize];
            output.push(byte);
            return Some(remaining - 1);
        }
        let distance = (token - 0x100) as usize;
        let length_code = match self.gamma_read() {
            Some(v) => v,
            None => 0,
        };
        let length = (length_code as usize) + 3;
        if distance == 0 || output.len() < distance {
            return None;
        }
        let ghost before = output@;
        let src = output.len() - distance;
        let mut i: usize = 0;
        while i < length
            invariant
                i <= length,
                distance >= 1,
                src + distance == before.len(),
                src + distance <= usize::MAX,
                output@ == before + back_copy(before, distance as int, i as int),
            decreases length - i,
        {
            assert((i % distance) < distance) by (nonlinear_arith)
                requires
                    distance >= 1,
            ;
            let byte = output[src + (i % distance)];
            output.push(byte);
            assert(output@ =~= before + back_copy(before, distance as int, i + 1));
            i = i + 1;
        }
        Some(remaining - length)
    }

    /// Decompresses `size` bytes onto `output` (see `lz_run`); true when
    /// all of them were produced.
    pub fn decompress(&mut self, output: &mut Vec<u8>, size: usize) -> (r: bool)
        requires
            old(self).wf(),
            lz_run(
                old(self)@.data,
                LzState { pos: old(self)@.pos, eof: old(self)@.eof, out: old(output)@ },
                size as nat,
            ).safe,
        ensures
            final(self).wf(),
            ({
                let res = lz_run(
                    old(self)@.data,
                    LzState { pos: old(self)@.pos, eof: old(self)@.eof, out: old(output)@ },
                    size as nat,
                );
                &&& r == res.ok
                &&& final(output)@ == res.state.out
                &&& final(self)@ == (LzssView { data: old(self)@.data, pos: res.state.pos, eof: res.state.eof })
            }),
            old(output)@.is_prefix_of(final(output)@),
            size == 0 ==> r && final(output)@ == old(output)@,
            r ==> final(output)@.len() == old(output)@.len() + size,
    {
        let ghost data = self@.data;
        let ghost target = lz_run(
            data,
            LzState { pos: self@.pos, eof: self@.eof, out: output@ },
            size as nat,
        );
        proof {
            lemma_lz_run_appends(data, LzState { pos: self@.pos, eof: self@.eof, out: output@ }, size as nat);
        }
        let mut literal_table = [0u8; 256];
        let mut t: usize = 0;
        while t < 256
            invariant
                t <= 256,
                forall|j: int| 0 <= j < t ==> literal_table@[j] == j,
            decreases 256 - t,
        {
            literal_table[t] = t as u8;
            t = t + 1;
        }
        let mut remaining = size;
        while remaining > 0
            invariant
                self.wf(),
                self@.data == data,
                data == old(self)@.data,
                forall|j: int| 0 <= j < 256 ==> literal_table@[j] == j,
                lz_run(data, LzState { pos: self@.pos, eof: self@.eof, out: output@ }, remaining as nat)
                    == target,
                target == lz_run(
                    old(self)@.data,
                    LzState { pos: old(self)@.pos, eof: old(self)@.eof, out: old(output)@ },
                    size as nat,
                ),
                target.safe,
                old(output)@.is_prefix_of(target.state.out),
                size == 0 ==> target.ok && target.state.out == old(output)@,
                target.ok ==> target.state.out.len() == old(output)@.len() + size,
            decreases remaining,
        {
            let ghost st = LzState { pos: self@.pos, eof: self@.eof, out: output@ };
            match self.decode_token(output, remaining, &literal_table) {
                Some(rem2) => {
                    remaining = rem2;
                },
                None => {
                    return false;
                },
            }
        }
        true
    }
}

/// One more one bit extends a run of ones.
proof fn lemma_ones_extends(data: Seq<u8>, p: int, j: int)
    requires
        0 <= p,
        0 <= j,
        p + j < stream_len(data),
        forall|i: int| p <= i < p + j ==> #[trigger] stream_bit(data, i),
        stream_bit(data, p + j),
    ensures
        ones_run(data, p) >= j + 1,
    decreases j,
{
    if j > 0 {
        lemma_ones_extends(data, p + 1, j - 1);
    }
}


/// `n` bytes appended one at a time, byte `i` read from position
/// `src + i % distance` of the output as it stands at that moment.
pub open spec fn near_copy(out: Seq<u8>, src: int, distance: int, n: nat) -> Seq<u8>
    decreases n,
{
    if n == 0 {
        out
    } else {
        let o = near_copy(out, src, distance, (n - 1) as nat);
        o.push(o[src + (n - 1) % distance])
    }
}

/// Like `near_copy`, except that a byte whose source position lies beyond
/// the output as it stands at that moment is skipped.
pub open spec fn far_copy(out: Seq<u8>, src: int, distance: int, n: nat) -> Seq<u8>
    decreases n,
{
    if n == 0 {
        out
    } else {
        let o = far_copy(out, src, distance, (n - 1) as nat);
        let j = src + (n - 1) % distance;
        if j < o.len() {
            o.push(o[j])
        } else {
            o
        }
    }
}

/// Start of a back reference `distance` bytes back in an output of `len`
/// bytes, clamped to the start.
pub open spec fn rle_source(len: int, distance: int) -> int {
    if len >= distance {
        len - distance
    } else {
        0
    }
}

/// One RLE control byte applied to `out`. High bit clear: bits 4..6 plus
/// one copies of the low nibble. `10dd_llll`-style near reference: distance
/// bits 2..3 plus one, length bits 0..1 plus one. `11xx_xxxx` far
/// reference: distance (low six bits plus one) times three, four bytes.
/// `None` where a near reference finds the output empty.
pub open spec fn rle_control(out: Seq<u8>, c: u8) -> Option<Seq<u8>> {
    if c & 0x80 == 0 {
        let count = ((c >> 4u8) & 0x07) + 1;
        Some(out + Seq::new(count as nat, |i: int| c & 0x0F))
    } else if c & 0x40 == 0 {
        let distance = ((c >> 2u8) & 0x03) + 1;
        let length = (c & 0x03) + 1;
        if out.len() == 0 {
            None
        } else {
            Some(
                near_copy(
                    out,
                    rle_source(out.len() as int, distance as int),
                    distance as int,
                    length as nat,
                ),
            )
        }
    } else {
        let distance = ((c & 0x3F) + 1) * 3;
        Some(far_copy(out, rle_source(out.len() as int, distance as int), distance as int, 4))
    }
}

/// The control bytes of `data` from position `p` on applied to `out` in
/// order; `None` where one of them fails.
pub open spec fn rle_body(data: Seq<u8>, p: int, out: Seq<u8>) -> Option<Seq<u8>>
    decreases data.len() - p,
{
    if p < 0 || p >= data.len() {
        Some(out)
    } else {
        match rle_control(out, data[p]) {
            None => None,
            Some(o) => rle_body(data, p + 1, o),
        }
    }
}

/// A near copy appends exactly `n` bytes.
proof fn lemma_near_copy_appends(out: Seq<u8>, src: int, distance: int, n: nat)
    ensures
        near_copy(out, src, distance, n).len() == out.len() + n,
        out.is_prefix_of(near_copy(out, src, distance, n)),
    decreases n,
{
    if n == 0 {
        assert(out =~= out.subrange(0, out.len() as int));
    } else {
        lemma_near_copy_appends(out, src, distance, (n - 1) as nat);
        let o = near_copy(out, src, distance, (n - 1) as nat);
        lemma_prefix_push(o, o[src + (n - 1) % distance]);
        lemma_prefix_trans(out, o, near_copy(out, src, distance, n));
    }
}

/// A far copy appends at most `n` bytes and keeps what was there.
proof fn lemma_far_copy_appends(out: Seq<u8>, src: int, distance: int, n: nat)
    ensures
        out.is_prefix_of(far_copy(out, src, distance, n)),
    decreases n,
{
    if n == 0 {
        assert(out =~= out.subrange(0, out.len() as int));
    } else {
        lemma_far_copy_appends(out, src, distance, (n - 1) as nat);
        let o = far_copy(out, src, distance, (n - 1) as nat);
        let j = src + (n - 1) % distance;
        if j < o.len() {
            lemma_prefix_push(o, o[j]);
            lemma_prefix_trans(out, o, far_copy(out, src, distance, n));
        }
    }
}

/// Each byte of a near copy whose source window lies inside `out` is the
/// byte of `out` at its place in the window.
proof fn lemma_near_copy_window(out: Seq<u8>, src: int, distance: int, n: nat)
    requires
        0 <= src,
        0 < distance,
        src + distance <= out.len(),
    ensures
        near_copy(out, src, distance, n).len() == out.len() + n,
        forall|i: int|
            0 <= i < n ==> #[trigger] near_copy(out, src, distance, n)[out.len() + i] == out[src + i % distance],
        forall|i: int| 0 <= i < out.len() ==> #[trigger] near_copy(out, src, distance, n)[i] == out[i],
    decreases n,
{
    if n > 0 {
        lemma_near_copy_window(out, src, distance, (n - 1) as nat);
        let o = near_copy(out, src, distance, (n - 1) as nat);
        let j = src + (n - 1) % distance;
        assert(0 <= (n - 1) % distance < distance) by {
            vstd::arithmetic::div_mod::lemma_mod_bound((n - 1) as int, distance);
        }
        assert(o[j] == out[j]);
    }
}

/// Each byte of a far copy whose source window lies inside `out` is the
/// byte of `out` at its place in the window; nothing is skipped.
proof fn lemma_far_copy_window(out: Seq<u8>, src: int, distance: int, n: nat)
    requires
        0 <= src,
        0 < distance,
        src + distance <= out.len(),
    ensures
        far_copy(out, src, distance, n).len() == out.len() + n,
        forall|i: int|
            0 <= i < n ==> #[trigger] far_copy(out, src, distance, n)[out.len() + i] == out[src + i % distance],
        forall|i: int| 0 <= i < out.len() ==> #[trigger] far_copy(out, src, distance, n)[i] == out[i],
    decreases n,
{
    if n > 0 {
        lemma_far_copy_window(out, src, distance, (n - 1) as nat);
        let o = far_copy(out, src, distance, (n - 1) as nat);
        let j = src + (n - 1) % distance;
        assert(0 <= (n - 1) % distance < distance) by {
            vstd::arithmetic::div_mod::lemma_mod_bound((n - 1) as int, distance);
        }
        assert(o[j] == out[j]);
    }
}

/// A copy of period `d` read from the `d` bytes before the end repeats
/// them: every appended byte equals the byte `d` places before it.
proof fn lemma_periodic(out: Seq<u8>, o: Seq<u8>, d: int, n: int)
    requires
        0 < d <= out.len(),
        o.len() == out.len() + n,
        forall|i: int| 0 <= i < out.len() ==> #[trigger] o[i] == out[i],
        forall|i: int| 0 <= i < n ==> #[trigger] o[out.len() + i] == out[out.len() - d + i % d],
    ensures
        forall|i: int| 0 <= i < n ==> #[trigger] o[out.len() + i] == o[out.len() + i - d],
{
    assert forall|i: int| 0 <= i < n implies #[trigger] o[out.len() + i] == o[out.len() + i - d] by {
        if i < d {
            vstd::arithmetic::div_mod::lemma_small_mod(i as nat, d as nat);
            assert(o[out.len() + i - d] == out[out.len() + i - d]);
        } else {
            vstd::arithmetic::div_mod::lemma_mod_add_multiples_vanish(i - d, d);
            assert(o[out.len() + (i - d)] == out[out.len() - d + (i - d) % d]);
        }
    }
}

/// What an RLE control byte `c` appends to `out`:
/// - high bit clear: `((c >> 4) & 7) + 1` copies of the low nibble;
/// - `10dd_ddll`-style near reference (with a non-empty output): `(c & 3) + 1`
///   bytes, each equal to the byte `((c >> 2) & 3) + 1` places before it
///   when the output reaches back that far;
/// - `11xx_xxxx` far reference: with distance `((c & 0x3F) + 1) * 3` inside
///   the output, four bytes, each equal to the byte that distance before it.
/// What was there is always kept.
pub proof fn lemma_rle_control_appends(out: Seq<u8>, c: u8)
    ensures
        c & 0x80 == 0 ==> rle_control(out, c) == Some(
            out + Seq::new((((c >> 4u8) & 7) + 1) as nat, |i: int| c & 0x0F),
        ),
        c & 0xC0 == 0x80 && out.len() > 0 ==> ({
            let d = ((c >> 2u8) & 3) + 1;
            let n = (c & 3) + 1;
            let o = rle_control(out, c).unwrap();
            &&& rle_control(out, c) is Some
            &&& o.len() == out.len() + n
            &&& out.is_prefix_of(o)
            &&& out.len() >= d ==> forall|i: int|
                0 <= i < n ==> #[trigger] o[out.len() + i] == o[out.len() + i - d]
        }),
        c & 0xC0 == 0x80 && out.len() == 0 ==> rle_control(out, c) is None,
        c & 0xC0 == 0xC0 && out.len() >= ((c & 0x3F) + 1) * 3 ==> ({
            let d = ((c & 0x3F) + 1) * 3;
            let o = rle_control(out, c).unwrap();
            &&& rle_control(out, c) is Some
            &&& o.len() == out.len() + 4
            &&& out.is_prefix_of(o)
            &&& forall|i: int| 0 <= i < 4 ==> #[trigger] o[out.len() + i] == o[out.len() + i - d]
        }),
{
    assert((c & 0x80 == 0 || c & 0xC0 == 0x80 || c & 0xC0 == 0xC0) && (c & 0xC0 == 0x80 <==> (c & 0x80 != 0
        && c & 0x40 == 0)) && (c & 0xC0 == 0xC0 <==> (c & 0x80 != 0 && c & 0x40 != 0)) && (c >> 2u8) & 3 <= 3
        && c & 3 <= 3 && c & 0x3F <= 63) by (bit_vector);
    if c & 0xC0 == 0x80 && out.len() > 0 {
        let d = ((c >> 2u8) & 3) + 1;
        let n = (c & 3) + 1;
        let src = rle_source(out.len() as int, d as int);
        lemma_near_copy_appends(out, src, d as int, n as nat);
        if out.len() >= d {
            lemma_near_copy_window(out, src, d as int, n as nat);
            lemma_periodic(out, rle_control(out, c).unwrap(), d as int, n as int);
        }
    }
    if c & 0xC0 == 0xC0 && out.len() >= ((c & 0x3F) + 1) * 3 {
        let d = ((c & 0x3F) + 1) * 3;
        let src = rle_source(out.len() as int, d as int);
        lemma_far_copy_appends(out, src, d as int, 4);
        lemma_far_copy_window(out, src, d as int, 4);
        lemma_periodic(out, rle_control(out, c).unwrap(), d as int, 4);
    }
}

/// RLE decoding only appends: the output it starts from is a prefix of
/// the output it produces.
pub proof fn lemma_rle_body_appends(data: Seq<u8>, p: int, out: Seq<u8>)
    ensures
        rle_body(data, p, out) is Some ==> out.is_prefix_of(rle_body(data, p, out).unwrap()),
    decreases data.len() - p,
{
    if p < 0 || p >= data.len() {
        assert(out =~= out.subrange(0, out.len() as int));
    } else {
        let c = data[p];
        match rle_control(out, c) {
            None => {},
            Some(o) => {
                if c & 0x80 == 0 {
                    let count = ((c >> 4u8) & 0x07) + 1;
                    lemma_prefix_add(out, Seq::new(count as nat, |i: int| c & 0x0F));
                } else if c & 0x40 == 0 {
                    let distance = ((c >> 2u8) & 0x03) + 1;
                    let length = (c & 0x03) + 1;
                    lemma_near_copy_appends(
                        out,
                        rle_source(out.len() as int, distance as int),
                        distance as int,
                        length as nat,
                    );
                } else {
                    let distance = ((c & 0x3F) + 1) * 3;
                    lemma_far_copy_appends(out, rle_source(out.len() as int, distance as int), distance as int, 4);
                }
                lemma_rle_body_appends(data, p + 1, o);
                if rle_body(data, p + 1, o) is Some {
                    lemma_prefix_trans(out, o, rle_body(data, p + 1, o).unwrap());
                }
            },
        }
    }
}

/// What an RLE decoder holds: its input and read position.
pub struct RleView {
    pub data: Seq<u8>,
    pub pos: int,
}

/// Decoder of RLE image data: a width byte, a height byte, then control
/// bytes (see `rle_control`).
pub struct RleDecoder<'a> {
    data: &'a [u8],
    pos: usize,
}

impl<'a> View for RleDecoder<'a> {
    type V = RleView;

    closed spec fn view(&self) -> RleView {
        RleView { data: self.data@, pos: self.pos as int }
    }
}

impl<'a> RleDecoder<'a> {
    /// The read position lies within the input.
    pub closed spec fn wf(&self) -> bool {
        self.pos <= self.data@.len()
    }

    /// A decoder at the start of `data`.
    pub fn new(data: &'a [u8]) -> (r: Self)
        ensures
            r.wf(),
            r@ == (RleView { data: data@, pos: 0 }),
    {
        RleDecoder { data, pos: 0 }
    }

    fn read_byte(&mut self) -> (r: Option<u8>)
        requires
            old(self).wf(),
        ensures
            final(self).wf(),
            final(self)@.data == old(self)@.data,
            old(self)@.pos < old(self)@.data.len() ==> r == Some(old(self)@.data[old(self)@.pos])
                && final(self)@.pos == old(self)@.pos + 1,
            old(self)@.pos >= old(self)@.data.len() ==> r is None && final(self)@.pos == old(
                self,
            )@.pos,
    {
        if self.pos >= self.data.len() {
            None
        } else {
            let b = self.data[self.pos];
            self.pos = self.pos + 1;
            Some(b)
        }
    }

    /// Applies one control byte to `output` (see `rle_control`).
    fn apply_control(control: u8, output: &mut Vec<u8>)
        requires
            rle_control(old(output)@, control) is Some,
        ensures
            final(output)@ == rle_control(old(output)@, control).unwrap(),
    {
        let ghost before = output@;
        if control & 0x80 == 0 {
            let value = control & 0x0F;
            assert((control >> 4u8) & 0x07u8 <= 7) by (bit_vector);
            let count = ((control >> 4) & 0x07) + 1;
            let mut k: u8 = 0;
            while k < count
                invariant
                    k <= count,
                    value == control & 0x0F,
                    output@ == before + Seq::new(k as nat, |i: int| control & 0x0F),
                decreases count - k,
            {
                output.push(value);
                assert(output@ =~= before + Seq::new((k + 1) as nat, |i: int| control & 0x0F));
                k = k + 1;
            }
        } else if control & 0x40 == 0 {
            assert((control >> 2u8) & 0x03u8 <= 3) by (bit_vector);
            assert(control & 0x03u8 <= 3) by (bit_vector);
            let distance = ((control >> 2) & 0x03) as usize + 1;
            let length = (control & 0x03) as usize + 1;
            let src = output.len().saturating_sub(distance);
            let mut i: usize = 0;
            while i < length
                invariant
                    i <= length,
                    1 <= distance <= 4,
                    before.len() >= 1,
                    src == rle_source(before.len() as int, distance as int),
                    output@ == near_copy(before, src as int, distance as int, i as nat),
                    output@.len() == before.len() + i,
                decreases length - i,
            {
                let olen = output.len();
                assert(src + i % distance < olen) by (nonlinear_arith)
                    requires
                        1 <= distance,
                        src == rle_source(before.len() as int, distance as int),
                        before.len() >= 1,
                        olen == before.len() + i,
                ;
                let byte = output[src + (i % distance)];
                output.push(byte);
                i = i + 1;
            }
        } else {
            assert(control & 0x3Fu8 <= 63) by (bit_vector);
            let distance = ((control & 0x3F) as usize + 1) * 3;
            let src = output.len().saturating_sub(distance);
            let blen = output.len();
            let mut i: usize = 0;
            while i < 4
                invariant
                    i <= 4,
                    blen == before.len(),
                    3 <= distance <= 192,
                    src == rle_source(before.len() as int, distance as int),
                    src <= before.len(),
                    output@ == far_copy(before, src as int, distance as int, i as nat),
                    output@.len() <= before.len() + i,
                decreases 4 - i,
            {
                assert(i % distance < distance) by (nonlinear_arith)
                    requires
                        1 <= distance,
                ;
                if src + (i % distance) < output.len() {
                    let byte = output[src + (i % distance)];
                    output.push(byte);
                }
                i = i + 1;
            }
        }
    }

    /// Decodes the rest of the input onto `output`: false, with `output`
    /// untouched, when the two header bytes are missing.
    pub fn decode(&mut self, output: &mut Vec<u8>) -> (r: bool)
        requires
            old(self).wf(),
            old(self)@.pos + 2 <= old(self)@.data.len() ==> rle_body(
                old(self)@.data,
                old(self)@.pos + 2,
                old(output)@,
            ) is Some,
        ensures
            final(self).wf(),
            final(self)@ == (RleView { data: old(self)@.data, pos: old(self)@.data.len() as int }),
            r == (old(self)@.pos + 2 <= old(self)@.data.len()),
            r ==> final(output)@ == rle_body(old(self)@.data, old(self)@.pos + 2, old(output)@).unwrap(),
            !r ==> final(output)@ == old(output)@,
            old(output)@.is_prefix_of(final(output)@),
    {
        let ghost data = self@.data;
        proof {
            lemma_rle_body_appends(data, self@.pos + 2, output@);
            assert(output@ =~= output@.subrange(0, output@.len() as int));
        }
        match self.read_byte() {
            Some(_) => {},
            None => return false,
        }
        match self.read_byte() {
            Some(_) => {},
            None => return false,
        }
        let ghost target = rle_body(data, self@.pos, output@);
        loop
            invariant
                self.wf(),
                self@.data == data,
                data == old(self)@.data,
                old(self)@.pos + 2 <= self@.pos,
                rle_body(data, self@.pos, output@) == target,
                target == rle_body(old(self)@.data, old(self)@.pos + 2, old(output)@),
                target is Some,
            ensures
                self.wf(),
                self@.data == data,
                self@.pos == data.len(),
                output@ == target.unwrap(),
            decreases data.len() - self@.pos,
        {
            match self.read_byte() {
                Some(control) => {
                    Self::apply_control(control, output);
                },
                None => {
                    break;
                },
            }
        }
        true
    }
}

} // verus!
