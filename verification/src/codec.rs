//! Serialization adapter: a compact binary representation for the values
//! the cache stores.  Integers are little-endian with a fixed width, signed
//! values carry a sign byte before their magnitude, strings are a length
//! prefix followed by their UTF-8 bytes, and lists are a count followed by
//! the encoded elements.  Every decoder is the exact inverse of its encoder
//! on encoded input and rejects anything else, so a corrupt entry reads as
//! a cache miss, never as a wrong value.

use vstd::prelude::*;
use vstd::utf8::{decode_utf8, encode_utf8, valid_utf8};

verus! {

pub open spec fn pow256(n: nat) -> int
    decreases n,
{
    if n == 0 {
        1
    } else {
        256 * pow256((n - 1) as nat)
    }
}

/// The `n` little-endian base-256 digits of `x`.
pub open spec fn enc_uint(x: int, n: nat) -> Seq<u8>
    decreases n,
{
    if n == 0 {
        Seq::empty()
    } else {
        seq![(x % 256) as u8] + enc_uint(x / 256, (n - 1) as nat)
    }
}

/// The value of the `n` base-256 digits of `b` starting at `pos`.
pub open spec fn dec_uint(b: Seq<u8>, pos: int, n: nat) -> int
    decreases n,
{
    if n == 0 {
        0
    } else {
        b[pos] + 256 * dec_uint(b, pos + 1, (n - 1) as nat)
    }
}

pub proof fn lemma_enc_uint_len(x: int, n: nat)
    ensures
        enc_uint(x, n).len() == n,
    decreases n,
{
    if n > 0 {
        lemma_enc_uint_len(x / 256, (n - 1) as nat);
    }
}

pub proof fn lemma_dec_uint_bound(b: Seq<u8>, pos: int, n: nat)
    requires
        0 <= pos,
        pos + n <= b.len(),
    ensures
        0 <= dec_uint(b, pos, n) < pow256(n),
    decreases n,
{
    if n > 0 {
        lemma_dec_uint_bound(b, pos + 1, (n - 1) as nat);
    }
}

/// Reading back the digits of `x` yields `x`.
pub proof fn lemma_dec_enc_uint(x: int, n: nat, b: Seq<u8>, pos: int)
    requires
        0 <= x < pow256(n),
        0 <= pos,
        pos + n <= b.len(),
        b.subrange(pos, pos + n) == enc_uint(x, n),
    ensures
        dec_uint(b, pos, n) == x,
    decreases n,
{
    lemma_enc_uint_len(x, n);
    if n == 0 {
    } else {
        let q = x / 256;
        let r = x % 256;
        assert(b[pos] == enc_uint(x, n)[0]);
        assert(enc_uint(x, n)[0] == r as u8);
        assert(b.subrange(pos + 1, pos + n) =~= enc_uint(x, n).subrange(
            1,
            n as int,
        ));
        lemma_enc_uint_len(q, (n - 1) as nat);
        assert(enc_uint(x, n).subrange(1, n as int) =~= enc_uint(q, (n - 1) as nat));
        assert(q < pow256((n - 1) as nat)) by {
            assert(x < 256 * pow256((n - 1) as nat));
            assert(x == 256 * q + r) by {
                vstd::arithmetic::div_mod::lemma_fundamental_div_mod(x, 256);
            }
        }
        lemma_dec_enc_uint(q, (n - 1) as nat, b, pos + 1);
        assert(x == 256 * q + r) by {
            vstd::arithmetic::div_mod::lemma_fundamental_div_mod(x, 256);
        }
    }
}

pub open spec fn enc_u64(x: u64) -> Seq<u8> {
    enc_uint(x as int, 8)
}

pub open spec fn spec_dec_u64(b: Seq<u8>, pos: int) -> Option<(u64, int)> {
    if 0 <= pos && pos + 8 <= b.len() {
        Some((dec_uint(b, pos, 8) as u64, pos + 8))
    } else {
        None
    }
}

/// Appends the eight little-endian bytes of `x`.
pub fn encode_u64(out: &mut Vec<u8>, x: u64)
    ensures
        final(out)@ == old(out)@ + enc_u64(x),
{
    let x0: u64 = x;
    let x1: u64 = x0 / 256;
    let x2: u64 = x1 / 256;
    let x3: u64 = x2 / 256;
    let x4: u64 = x3 / 256;
    let x5: u64 = x4 / 256;
    let x6: u64 = x5 / 256;
    let x7: u64 = x6 / 256;
    out.push((x0 % 256) as u8);
    out.push((x1 % 256) as u8);
    out.push((x2 % 256) as u8);
    out.push((x3 % 256) as u8);
    out.push((x4 % 256) as u8);
    out.push((x5 % 256) as u8);
    out.push((x6 % 256) as u8);
    out.push((x7 % 256) as u8);
    proof {
        reveal_with_fuel(enc_uint, 9);
        assert(final(out)@ =~= old(out)@ + enc_u64(x));
    }
}

/// Reads eight little-endian bytes starting at `pos`.
pub fn decode_u64(buf: &Vec<u8>, pos: usize) -> (r: Option<(u64, usize)>)
    ensures
        match r {
            Some((v, p)) => spec_dec_u64(buf@, pos as int) == Some((v, p as int)),
            None => spec_dec_u64(buf@, pos as int) is None,
        },
{
    if buf.len() < 8 || pos > buf.len() - 8 {
        return None;
    }
    let b0: u64 = buf[pos] as u64;
    let b1: u64 = buf[pos + 1] as u64;
    let b2: u64 = buf[pos + 2] as u64;
    let b3: u64 = buf[pos + 3] as u64;
    let b4: u64 = buf[pos + 4] as u64;
    let b5: u64 = buf[pos + 5] as u64;
    let b6: u64 = buf[pos + 6] as u64;
    let b7: u64 = buf[pos + 7] as u64;
    let v: u64 = b0 + 256 * (b1 + 256 * (b2 + 256 * (b3 + 256 * (b4 + 256 * (b5 + 256 * (b6
        + 256 * b7))))));
    proof {
        reveal_with_fuel(dec_uint, 9);
        assert(v as int == dec_uint(buf@, pos as int, 8));
    }
    Some((v, pos + 8))
}


/// Splits a concatenation laid down inside `b` into its two parts.
pub proof fn lemma_concat_parts(b: Seq<u8>, pos: int, x: Seq<u8>, y: Seq<u8>)
    requires
        0 <= pos,
        pos + x.len() + y.len() <= b.len(),
        b.subrange(pos, pos + x.len() + y.len()) == x + y,
    ensures
        b.subrange(pos, pos + x.len() as int) == x,
        b.subrange(pos + x.len() as int, pos + x.len() + y.len()) == y,
{
    let l1 = x.len() as int;
    let l2 = y.len() as int;
    assert(b.subrange(pos, pos + l1) =~= x) by {
        assert forall|k: int| 0 <= k < l1 implies b[pos + k] == x[k] by {
            assert(b.subrange(pos, pos + l1 + l2)[k] == b[pos + k]);
            assert((x + y)[k] == x[k]);
        }
    }
    assert(b.subrange(pos + l1, pos + l1 + l2) =~= y) by {
        assert forall|k: int| 0 <= k < l2 implies b[pos + l1 + k] == y[k] by {
            assert(b.subrange(pos, pos + l1 + l2)[l1 + k] == b[pos + l1 + k]);
            assert((x + y)[l1 + k] == y[k]);
        }
    }
}

/// A sign byte followed by the eight magnitude bytes.
pub open spec fn enc_int9(x: int) -> Seq<u8> {
    if x < 0 {
        seq![1u8] + enc_uint(-x, 8)
    } else {
        seq![0u8] + enc_uint(x, 8)
    }
}

pub open spec fn spec_dec_int9(b: Seq<u8>, pos: int) -> Option<(int, int)> {
    if 0 <= pos && pos + 9 <= b.len() {
        let s = b[pos];
        let m = dec_uint(b, pos + 1, 8);
        if s == 0 {
            Some((m, pos + 9))
        } else if s == 1 && m > 0 {
            Some((-m, pos + 9))
        } else {
            None
        }
    } else {
        None
    }
}

/// Appends the sign byte and magnitude of `x`.
pub fn encode_int9(out: &mut Vec<u8>, x: i128)
    requires
        -0x1_0000_0000_0000_0000 < x < 0x1_0000_0000_0000_0000,
    ensures
        final(out)@ == old(out)@ + enc_int9(x as int),
{
    if x < 0 {
        out.push(1u8);
        let m: u64 = (-x) as u64;
        encode_u64(out, m);
        proof {
            assert(final(out)@ =~= old(out)@ + enc_int9(x as int));
        }
    } else {
        out.push(0u8);
        encode_u64(out, x as u64);
        proof {
            assert(final(out)@ =~= old(out)@ + enc_int9(x as int));
        }
    }
}

/// Reads a sign byte and magnitude starting at `pos`.
pub fn decode_int9(buf: &Vec<u8>, pos: usize) -> (r: Option<(i128, usize)>)
    ensures
        match r {
            Some((v, p)) => spec_dec_int9(buf@, pos as int) == Some((v as int, p as int)),
            None => spec_dec_int9(buf@, pos as int) is None,
        },
{
    if pos >= buf.len() {
        return None;
    }
    let s = buf[pos];
    match decode_u64(buf, pos + 1) {
        None => None,
        Some((m, p)) => {
            proof {
                lemma_dec_uint_bound(buf@, pos as int + 1, 8);
                assert(pow256(8) == 0x1_0000_0000_0000_0000) by {
                    reveal_with_fuel(pow256, 9);
                }
                assert(m as int == dec_uint(buf@, pos as int + 1, 8));
                assert(p as int == pos as int + 9);
                assert(pos as int + 9 <= buf@.len());
            }
            if s == 0 {
                proof {
                    assert(buf@[pos as int] == 0);
                    assert(spec_dec_int9(buf@, pos as int) == Some((
                        m as int,
                        pos as int + 9,
                    )));
                }
                Some((m as i128, p))
            } else if s == 1 && m > 0 {
                proof {
                    assert(spec_dec_int9(buf@, pos as int) == Some((
                        -(m as int),
                        pos as int + 9,
                    )));
                }
                Some((-(m as i128), p))
            } else {
                None
            }
        },
    }
}

/// Round trip for the signed encoding.
pub proof fn lemma_dec_enc_int9(x: int, b: Seq<u8>, pos: int)
    requires
        -0x1_0000_0000_0000_0000 < x < 0x1_0000_0000_0000_0000,
        0 <= pos,
        pos + 9 <= b.len(),
        b.subrange(pos, pos + 9) == enc_int9(x),
    ensures
        spec_dec_int9(b, pos) == Some((x, pos + 9)),
{
    assert(pow256(8) == 0x1_0000_0000_0000_0000) by {
        reveal_with_fuel(pow256, 9);
    }
    let mag: int = if x < 0 {
        -x
    } else {
        x
    };
    lemma_enc_uint_len(mag, 8);
    assert(b[pos] == enc_int9(x)[0]);
    assert(b.subrange(pos + 1, pos + 9) =~= enc_int9(x).subrange(1, 9));
    assert(enc_int9(x).subrange(1, 9) =~= enc_uint(mag, 8));
    lemma_dec_enc_uint(mag, 8, b, pos + 1);
}

pub open spec fn enc_bool(v: bool) -> Seq<u8> {
    if v {
        seq![1u8]
    } else {
        seq![0u8]
    }
}

pub open spec fn spec_dec_bool(b: Seq<u8>, pos: int) -> Option<(bool, int)> {
    if 0 <= pos && pos + 1 <= b.len() {
        if b[pos] == 0 {
            Some((false, pos + 1))
        } else if b[pos] == 1 {
            Some((true, pos + 1))
        } else {
            None
        }
    } else {
        None
    }
}

/// Turns a vector of UTF-8 bytes back into a string.
///
/// Relies on `String::from_utf8`: it succeeds exactly on valid UTF-8 input
/// and the returned string's bytes are the input bytes.
#[verifier::external_body]
fn string_from_utf8(b: Vec<u8>) -> (r: Option<String>)
    ensures
        r is Some <==> valid_utf8(b@),
        r matches Some(s) ==> encode_utf8(s@) == b@,
{
    String::from_utf8(b).ok()
}

/// A value the binary form can carry faithfully: lengths and counts must
/// fit the eight-byte length prefix, and integers their nine-byte form.
/// Every value built in executable code satisfies this; only unbounded
/// ghost values can fall outside it.
pub trait Encodable: DeepView + Sized {
    /// The encoded bytes of a value with deep view `v`.
    spec fn enc_of(v: <Self as DeepView>::V) -> Seq<u8>;

    /// Whether `v` is small enough to encode faithfully.
    spec fn enc_wf(v: <Self as DeepView>::V) -> bool;

    /// The parser: what value the bytes of `b` starting at `pos` denote,
    /// and where it ends.
    spec fn dec_at(b: Seq<u8>, pos: int) -> Option<(<Self as DeepView>::V, int)>;

    /// Decoding is the inverse of encoding: parsing at the start of
    /// `enc_of(v)` yields `v` and stops right after it.
    proof fn lemma_enc_dec(v: <Self as DeepView>::V, b: Seq<u8>, pos: int)
        requires
            Self::enc_wf(v),
            0 <= pos,
            pos + Self::enc_of(v).len() <= b.len(),
            b.subrange(pos, pos + Self::enc_of(v).len() as int) == Self::enc_of(v),
        ensures
            Self::dec_at(b, pos) == Some((v, pos + Self::enc_of(v).len() as int)),
    ;

    fn encode(&self, out: &mut Vec<u8>)
        ensures
            final(out)@ == old(out)@ + Self::enc_of(self.deep_view()),
            Self::enc_wf(self.deep_view()),
    ;

    fn decode(buf: &Vec<u8>, pos: usize) -> (r: Option<(Self, usize)>)
        requires
            pos <= buf@.len(),
        ensures
            match r {
                Some((v, p)) => Self::dec_at(buf@, pos as int) == Some((v.deep_view(), p as int))
                    && pos <= p <= buf@.len(),
                None => Self::dec_at(buf@, pos as int) is None,
            },
    ;
}

impl Encodable for bool {
    open spec fn enc_of(v: bool) -> Seq<u8> {
        enc_bool(v)
    }

    open spec fn enc_wf(v: bool) -> bool {
        true
    }

    open spec fn dec_at(b: Seq<u8>, pos: int) -> Option<(bool, int)> {
        spec_dec_bool(b, pos)
    }

    proof fn lemma_enc_dec(v: bool, b: Seq<u8>, pos: int) {
        assert(b[pos] == enc_bool(v)[0]);
    }

    fn encode(&self, out: &mut Vec<u8>) {
        if *self {
            out.push(1u8);
        } else {
            out.push(0u8);
        }
        proof {
            assert(final(out)@ =~= old(out)@ + enc_bool(*self));
        }
    }

    fn decode(buf: &Vec<u8>, pos: usize) -> (r: Option<(Self, usize)>) {
        if pos >= buf.len() {
            return None;
        }
        let v = buf[pos];
        if v == 0 {
            Some((false, pos + 1))
        } else if v == 1 {
            Some((true, pos + 1))
        } else {
            None
        }
    }
}

impl Encodable for i64 {
    open spec fn enc_of(v: i64) -> Seq<u8> {
        enc_int9(v as int)
    }

    open spec fn enc_wf(v: i64) -> bool {
        true
    }

    open spec fn dec_at(b: Seq<u8>, pos: int) -> Option<(i64, int)> {
        match spec_dec_int9(b, pos) {
            Some((x, p)) => if i64::MIN <= x <= i64::MAX {
                Some((x as i64, p))
            } else {
                None
            },
            None => None,
        }
    }

    proof fn lemma_enc_dec(v: i64, b: Seq<u8>, pos: int) {
        lemma_enc_uint_len(if v < 0 {
            -(v as int)
        } else {
            v as int
        }, 8);
        lemma_dec_enc_int9(v as int, b, pos);
    }

    fn encode(&self, out: &mut Vec<u8>) {
        encode_int9(out, *self as i128);
        proof {
            lemma_enc_uint_len(if *self < 0 {
                -(*self as int)
            } else {
                *self as int
            }, 8);
        }
    }

    fn decode(buf: &Vec<u8>, pos: usize) -> (r: Option<(Self, usize)>) {
        match decode_int9(buf, pos) {
            None => None,
            Some((x, p)) => {
                if x >= i64::MIN as i128 && x <= i64::MAX as i128 {
                    if p <= buf.len() {
                        Some((x as i64, p))
                    } else {
                        proof {
                            lemma_dec_uint_bound(buf@, pos + 1, 8);
                        }
                        None
                    }
                } else {
                    None
                }
            },
        }
    }
}

impl Encodable for i32 {
    open spec fn enc_of(v: i32) -> Seq<u8> {
        enc_int9(v as int)
    }

    open spec fn enc_wf(v: i32) -> bool {
        true
    }

    open spec fn dec_at(b: Seq<u8>, pos: int) -> Option<(i32, int)> {
        match spec_dec_int9(b, pos) {
            Some((x, p)) => if i32::MIN <= x <= i32::MAX {
                Some((x as i32, p))
            } else {
                None
            },
            None => None,
        }
    }

    proof fn lemma_enc_dec(v: i32, b: Seq<u8>, pos: int) {
        lemma_enc_uint_len(if v < 0 {
            -(v as int)
        } else {
            v as int
        }, 8);
        lemma_dec_enc_int9(v as int, b, pos);
    }

    fn encode(&self, out: &mut Vec<u8>) {
        encode_int9(out, *self as i128);
        proof {
            lemma_enc_uint_len(if *self < 0 {
                -(*self as int)
            } else {
                *self as int
            }, 8);
        }
    }

    fn decode(buf: &Vec<u8>, pos: usize) -> (r: Option<(Self, usize)>) {
        match decode_int9(buf, pos) {
            None => None,
            Some((x, p)) => {
                if x >= i32::MIN as i128 && x <= i32::MAX as i128 {
                    if p <= buf.len() {
                        Some((x as i32, p))
                    } else {
                        proof {
                            lemma_dec_uint_bound(buf@, pos + 1, 8);
                        }
                        None
                    }
                } else {
                    None
                }
            },
        }
    }
}

impl Encodable for u32 {
    open spec fn enc_of(v: u32) -> Seq<u8> {
        enc_uint(v as int, 4)
    }

    open spec fn enc_wf(v: u32) -> bool {
        true
    }

    open spec fn dec_at(b: Seq<u8>, pos: int) -> Option<(u32, int)> {
        if 0 <= pos && pos + 4 <= b.len() {
            Some(((dec_uint(b, pos, 4) as u32), pos + 4))
        } else {
            None
        }
    }

    proof fn lemma_enc_dec(v: u32, b: Seq<u8>, pos: int) {
        lemma_enc_uint_len(v as int, 4);
        assert(pow256(4) == 0x1_0000_0000) by {
            reveal_with_fuel(pow256, 5);
        }
        lemma_dec_enc_uint(v as int, 4, b, pos);
    }

    fn encode(&self, out: &mut Vec<u8>) {
        let x0: u32 = *self;
        let x1: u32 = x0 / 256;
        let x2: u32 = x1 / 256;
        let x3: u32 = x2 / 256;
        out.push((x0 % 256) as u8);
        out.push((x1 % 256) as u8);
        out.push((x2 % 256) as u8);
        out.push((x3 % 256) as u8);
        proof {
            reveal_with_fuel(enc_uint, 5);
            assert(final(out)@ =~= old(out)@ + enc_uint(*self as int, 4));
        }
    }

    fn decode(buf: &Vec<u8>, pos: usize) -> (r: Option<(Self, usize)>) {
        if buf.len() < 4 || pos > buf.len() - 4 {
            return None;
        }
        let b0: u32 = buf[pos] as u32;
        let b1: u32 = buf[pos + 1] as u32;
        let b2: u32 = buf[pos + 2] as u32;
        let b3: u32 = buf[pos + 3] as u32;
        let v: u32 = b0 + 256 * (b1 + 256 * (b2 + 256 * b3));
        proof {
            reveal_with_fuel(dec_uint, 5);
            assert(v as int == dec_uint(buf@, pos as int, 4));
        }
        Some((v, pos + 4))
    }
}

/// The concatenated encodings of the elements of `s`.
pub open spec fn enc_all_of<T: Encodable>(s: Seq<<T as DeepView>::V>) -> Seq<u8>
    decreases s.len(),
{
    if s.len() == 0 {
        Seq::empty()
    } else {
        T::enc_of(s[0]) + enc_all_of::<T>(s.drop_first())
    }
}

/// Parses `n` consecutive elements starting at `pos`.
pub open spec fn dec_elems<T: Encodable>(b: Seq<u8>, pos: int, n: nat) -> Option<
    (Seq<<T as DeepView>::V>, int),
>
    decreases n,
{
    if n == 0 {
        Some((Seq::empty(), pos))
    } else {
        match T::dec_at(b, pos) {
            None => None,
            Some((v, p)) => match dec_elems::<T>(b, p, (n - 1) as nat) {
                None => None,
                Some((vs, e)) => Some((seq![v] + vs, e)),
            },
        }
    }
}

pub proof fn lemma_enc_all_snoc<T: Encodable>(s: Seq<<T as DeepView>::V>, x: <T as DeepView>::V)
    ensures
        enc_all_of::<T>(s.push(x)) == enc_all_of::<T>(s) + T::enc_of(x),
    decreases s.len(),
{
    if s.len() == 0 {
        assert(s.push(x)[0] == x);
        assert(s.push(x).drop_first() =~= Seq::<<T as DeepView>::V>::empty());
        assert(enc_all_of::<T>(s.push(x)) == T::enc_of(x) + enc_all_of::<T>(
            Seq::<<T as DeepView>::V>::empty(),
        ));
        assert(enc_all_of::<T>(s.push(x)) =~= enc_all_of::<T>(s) + T::enc_of(x));
    } else {
        assert(s.push(x)[0] == s[0]);
        assert(s.push(x).drop_first() =~= s.drop_first().push(x));
        lemma_enc_all_snoc::<T>(s.drop_first(), x);
        assert(enc_all_of::<T>(s.push(x)) == T::enc_of(s[0]) + enc_all_of::<T>(
            s.drop_first().push(x),
        ));
        assert(enc_all_of::<T>(s) == T::enc_of(s[0]) + enc_all_of::<T>(s.drop_first()));
        assert(enc_all_of::<T>(s.push(x)) =~= enc_all_of::<T>(s) + T::enc_of(x));
    }
}

pub proof fn lemma_dec_enc_elems<T: Encodable>(s: Seq<<T as DeepView>::V>, b: Seq<u8>, pos: int)
    requires
        forall|i: int| 0 <= i < s.len() ==> T::enc_wf(#[trigger] s[i]),
        0 <= pos,
        pos + enc_all_of::<T>(s).len() <= b.len(),
        b.subrange(pos, pos + enc_all_of::<T>(s).len() as int) == enc_all_of::<T>(s),
    ensures
        dec_elems::<T>(b, pos, s.len()) == Some((s, pos + enc_all_of::<T>(s).len() as int)),
    decreases s.len(),
{
    if s.len() == 0 {
        assert(s =~= Seq::<<T as DeepView>::V>::empty());
    } else {
        let h = s[0];
        let he = T::enc_of(h);
        let hl = he.len() as int;
        let all = enc_all_of::<T>(s);
        let rest = enc_all_of::<T>(s.drop_first());
        assert(all == he + rest);
        lemma_concat_parts(b, pos, he, rest);
        T::lemma_enc_dec(h, b, pos);
        lemma_dec_enc_elems::<T>(s.drop_first(), b, pos + hl);
        assert(seq![h] + s.drop_first() =~= s);
    }
}

impl<T: Encodable> Encodable for Vec<T> {
    open spec fn enc_of(v: Seq<<T as DeepView>::V>) -> Seq<u8> {
        enc_uint(v.len() as int, 8) + enc_all_of::<T>(v)
    }

    open spec fn enc_wf(v: Seq<<T as DeepView>::V>) -> bool {
        &&& v.len() < pow256(8)
        &&& forall|i: int| 0 <= i < v.len() ==> T::enc_wf(#[trigger] v[i])
    }

    open spec fn dec_at(b: Seq<u8>, pos: int) -> Option<(Seq<<T as DeepView>::V>, int)> {
        match spec_dec_u64(b, pos) {
            None => None,
            Some((n, p)) => dec_elems::<T>(b, p, n as nat),
        }
    }

    proof fn lemma_enc_dec(v: Seq<<T as DeepView>::V>, b: Seq<u8>, pos: int) {
        let all = enc_all_of::<T>(v);
        let whole = Self::enc_of(v);
        lemma_enc_uint_len(v.len() as int, 8);
        lemma_concat_parts(b, pos, enc_uint(v.len() as int, 8), all);
        assert(pow256(8) == 0x1_0000_0000_0000_0000) by {
            reveal_with_fuel(pow256, 9);
        }
        lemma_dec_enc_uint(v.len() as int, 8, b, pos);
        assert(spec_dec_u64(b, pos) == Some(((v.len() as u64), pos + 8)));
        lemma_dec_enc_elems::<T>(v, b, pos + 8);
        assert((v.len() as u64) as nat == v.len());
    }

    fn encode(&self, out: &mut Vec<u8>) {
        encode_u64(out, self.len() as u64);
        let mut i: usize = 0;
        while i < self.len()
            invariant
                i <= self@.len(),
                out@ == old(out)@ + enc_uint(self@.len() as int, 8) + enc_all_of::<T>(
                    self.deep_view().take(i as int),
                ),
                forall|j: int| 0 <= j < i ==> T::enc_wf(#[trigger] self.deep_view()[j]),
            decreases self@.len() - i,
        {
            proof {
                assert(enc_all_of::<T>(self.deep_view().take(0)) =~= Seq::<u8>::empty());
            }
            self[i].encode(out);
            proof {
                assert(self.deep_view().take(i + 1) =~= self.deep_view().take(i as int).push(
                    self.deep_view()[i as int],
                ));
                lemma_enc_all_snoc::<T>(self.deep_view().take(i as int), self.deep_view()[i as int]);
                assert(self.deep_view()[i as int] == self@[i as int].deep_view());
                assert(out@ =~= old(out)@ + enc_uint(self@.len() as int, 8) + enc_all_of::<T>(
                    self.deep_view().take(i + 1),
                ));
            }
            i = i + 1;
        }
        proof {
            assert(self.deep_view().take(self@.len() as int) =~= self.deep_view());
            assert(enc_all_of::<T>(self.deep_view().take(0)) =~= Seq::<u8>::empty());
            assert(out@ =~= old(out)@ + Self::enc_of(self.deep_view()));
            assert(pow256(8) == 0x1_0000_0000_0000_0000) by {
                reveal_with_fuel(pow256, 9);
            }
        }
    }

    fn decode(buf: &Vec<u8>, pos: usize) -> (r: Option<(Self, usize)>) {
        match decode_u64(buf, pos) {
            None => None,
            Some((n, p)) => {
                let mut acc: Vec<T> = Vec::new();
                let mut cur: usize = p;
                let mut i: u64 = 0;
                proof {
                    assert(acc.deep_view() =~= Seq::<<T as DeepView>::V>::empty());
                    match dec_elems::<T>(buf@, cur as int, n as nat) {
                        Some((vs, e)) => {
                            assert(acc.deep_view() + vs =~= vs);
                        },
                        None => {},
                    }
                }
                while i < n
                    invariant
                        i <= n,
                        pos <= cur <= buf@.len(),
                        match dec_elems::<T>(buf@, cur as int, (n - i) as nat) {
                            Some((vs, e)) => Self::dec_at(buf@, pos as int) == Some(
                                (acc.deep_view() + vs, e),
                            ),
                            None => Self::dec_at(buf@, pos as int) is None,
                        },
                    decreases n - i,
                {
                    match T::decode(buf, cur) {
                        None => {
                            return None;
                        },
                        Some((v, c2)) => {
                            let ghost acc0 = acc.deep_view();
                            let ghost vdv = v.deep_view();
                            proof {
                                let k = (n - i) as nat;
                                match dec_elems::<T>(buf@, c2 as int, (k - 1) as nat) {
                                    Some((vs2, e2)) => {
                                        assert(dec_elems::<T>(buf@, cur as int, k) == Some(
                                            (seq![vdv] + vs2, e2),
                                        ));
                                        assert(acc0 + (seq![vdv] + vs2) =~= (acc0.push(vdv))
                                            + vs2);
                                    },
                                    None => {
                                        assert(dec_elems::<T>(buf@, cur as int, k) is None);
                                    },
                                }
                            }
                            acc.push(v);
                            proof {
                                assert(acc.deep_view() =~= acc0.push(vdv));
                            }
                            cur = c2;
                            i = i + 1;
                        },
                    }
                }
                proof {
                    assert(dec_elems::<T>(buf@, cur as int, 0) == Some((
                        Seq::<<T as DeepView>::V>::empty(),
                        cur as int,
                    )));
                    assert(acc.deep_view() + Seq::<<T as DeepView>::V>::empty()
                        =~= acc.deep_view());
                }
                Some((acc, cur))
            },
        }
    }
}

impl Encodable for String {
    open spec fn enc_of(v: Seq<char>) -> Seq<u8> {
        enc_uint(encode_utf8(v).len() as int, 8) + encode_utf8(v)
    }

    open spec fn enc_wf(v: Seq<char>) -> bool {
        encode_utf8(v).len() < pow256(8)
    }

    open spec fn dec_at(b: Seq<u8>, pos: int) -> Option<(Seq<char>, int)> {
        match spec_dec_u64(b, pos) {
            None => None,
            Some((n, p)) => if p + n <= b.len() && valid_utf8(b.subrange(p, p + n)) {
                Some((decode_utf8(b.subrange(p, p + n)), p + n))
            } else {
                None
            },
        }
    }

    proof fn lemma_enc_dec(v: Seq<char>, b: Seq<u8>, pos: int) {
        let bytes = encode_utf8(v);
        let n = bytes.len() as int;
        lemma_enc_uint_len(n, 8);
        assert(pow256(8) == 0x1_0000_0000_0000_0000) by {
            reveal_with_fuel(pow256, 9);
        }
        lemma_concat_parts(b, pos, enc_uint(n, 8), bytes);
        lemma_dec_enc_uint(n, 8, b, pos);
        assert(spec_dec_u64(b, pos) == Some(((n as u64), pos + 8)));
        vstd::utf8::encode_utf8_valid_utf8(v);
        vstd::utf8::encode_utf8_decode_utf8(v);
    }

    fn encode(&self, out: &mut Vec<u8>) {
        let mut bytes = self.as_str().as_bytes_vec();
        encode_u64(out, bytes.len() as u64);
        out.append(&mut bytes);
        proof {
            assert(pow256(8) == 0x1_0000_0000_0000_0000) by {
                reveal_with_fuel(pow256, 9);
            }
            assert(final(out)@ =~= old(out)@ + Self::enc_of(self.deep_view()));
        }
    }

    fn decode(buf: &Vec<u8>, pos: usize) -> (r: Option<(Self, usize)>) {
        match decode_u64(buf, pos) {
            None => None,
            Some((n, p)) => {
                if n > (buf.len() - p) as u64 {
                    return None;
                }
                let n = n as usize;
                let blen = buf.len();
                let mut bytes: Vec<u8> = Vec::new();
                let mut i: usize = 0;
                while i < n
                    invariant
                        i <= n,
                        p + n <= blen,
                        blen == buf@.len(),
                        bytes@ =~= buf@.subrange(p as int, p + i),
                    decreases n - i,
                {
                    bytes.push(buf[p + i]);
                    proof {
                        assert(bytes@ =~= buf@.subrange(p as int, p + i + 1));
                    }
                    i = i + 1;
                }
                proof {
                    assert(bytes@ =~= buf@.subrange(p as int, p + n));
                }
                match string_from_utf8(bytes) {
                    None => None,
                    Some(s) => {
                        proof {
                            vstd::utf8::encode_utf8_decode_utf8(s@);
                        }
                        Some((s, p + n))
                    },
                }
            },
        }
    }
}

} // verus!
