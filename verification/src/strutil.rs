//! Small verified string helpers used when building cache keys, comparing
//! record ids, and flattening upstream rows: decimal rendering of integers,
//! lexicographic comparison by code point, membership tests, and joining.

use vstd::prelude::*;

verus! {

/// The views of a sequence of owned strings.
pub open spec fn str_views(vs: Seq<String>) -> Seq<Seq<char>> {
    vs.map_values(|s: String| s@)
}

pub open spec fn digit_char(d: int) -> char {
    seq!['0', '1', '2', '3', '4', '5', '6', '7', '8', '9'][d]
}

/// The decimal digits of `n`, most significant first.
pub open spec fn dec_rep(n: nat) -> Seq<char>
    decreases n,
{
    if n < 10 {
        seq![digit_char(n as int)]
    } else {
        dec_rep(n / 10) + seq![digit_char((n % 10) as int)]
    }
}

/// The decimal rendering of a signed value: a minus sign before the digits
/// of its magnitude.
pub open spec fn spec_i64_dec(n: int) -> Seq<char> {
    if n < 0 {
        seq!['-'] + dec_rep((-n) as nat)
    } else {
        dec_rep(n as nat)
    }
}

/// Renders `n` in decimal.
pub fn u64_dec(n: u64) -> (r: String)
    ensures
        r@ == dec_rep(n as nat),
    decreases n,
{
    let digits = "0123456789";
    proof {
        reveal_strlit("0123456789");
        assert(digits@ =~= seq!['0', '1', '2', '3', '4', '5', '6', '7', '8', '9']);
        assert(vstd::utf8::is_ascii_chars(digits@)) by {
            assert(forall|i: int|
                0 <= i < 10 ==> (#[trigger] digits@[i]) as nat <= 0x7F) by {
                assert(digits@ =~= seq!['0', '1', '2', '3', '4', '5', '6', '7', '8', '9']);
            }
        }
    }
    if n < 10 {
        let d = digits.substring_ascii(n as usize, n as usize + 1);
        proof {
            assert(d@ =~= seq![digit_char(n as int)]);
        }
        d.to_owned()
    } else {
        let mut s = u64_dec(n / 10);
        let m = (n % 10) as usize;
        let d = digits.substring_ascii(m, m + 1);
        proof {
            assert(d@ =~= seq![digit_char((n % 10) as int)]);
        }
        s.append(d);
        s
    }
}

/// Renders `n` in decimal, with a leading minus sign when negative.
pub fn i64_dec(n: i64) -> (r: String)
    ensures
        r@ == spec_i64_dec(n as int),
{
    if n < 0 {
        let m: u64 = (-(n as i128)) as u64;
        let mut s = String::from_str("-");
        proof {
            reveal_strlit("-");
        }
        let rest = u64_dec(m);
        s.append(rest.as_str());
        s
    } else {
        u64_dec(n as u64)
    }
}

/// Strict lexicographic order on character sequences, comparing by code
/// point, with a proper prefix ordered first.  This matches the order the
/// relational store uses for its id columns, since UTF-8 byte order agrees
/// with code point order.
pub open spec fn str_lt_spec(a: Seq<char>, b: Seq<char>) -> bool
    decreases a.len(),
{
    if b.len() == 0 {
        false
    } else if a.len() == 0 {
        true
    } else if a[0] != b[0] {
        (a[0] as u32) < (b[0] as u32)
    } else {
        str_lt_spec(a.drop_first(), b.drop_first())
    }
}

proof fn lemma_str_lt_skip(a: Seq<char>, b: Seq<char>, i: int)
    requires
        0 <= i,
        i < a.len(),
        i < b.len(),
        a[i] == b[i],
    ensures
        str_lt_spec(a.skip(i), b.skip(i)) == str_lt_spec(a.skip(i + 1), b.skip(i + 1)),
{
    assert(a.skip(i).drop_first() =~= a.skip(i + 1));
    assert(b.skip(i).drop_first() =~= b.skip(i + 1));
    assert(a.skip(i)[0] == a[i]);
    assert(b.skip(i)[0] == b[i]);
}

/// Compares two strings in the strict lexicographic order `str_lt_spec`.
pub fn str_lt(a: &str, b: &str) -> (r: bool)
    ensures
        r == str_lt_spec(a@, b@),
{
    let alen = a.unicode_len();
    let blen = b.unicode_len();
    let mut i: usize = 0;
    proof {
        assert(a@.skip(0) =~= a@);
        assert(b@.skip(0) =~= b@);
    }
    while i < alen && i < blen
        invariant
            i <= alen,
            i <= blen,
            alen == a@.len(),
            blen == b@.len(),
            str_lt_spec(a@, b@) == str_lt_spec(a@.skip(i as int), b@.skip(i as int)),
        decreases alen - i,
    {
        let ca = a.get_char(i);
        let cb = b.get_char(i);
        if ca != cb {
            proof {
                assert(a@.skip(i as int)[0] == a@[i as int]);
                assert(b@.skip(i as int)[0] == b@[i as int]);
            }
            return (ca as u32) < (cb as u32);
        }
        proof {
            lemma_str_lt_skip(a@, b@, i as int);
        }
        i = i + 1;
    }
    proof {
        assert(a@.skip(i as int).len() == alen - i);
        assert(b@.skip(i as int).len() == blen - i);
    }
    alen < blen
}

/// Whether `s` occurs among the strings of `vs`, compared by contents.
pub open spec fn seq_contains_str(vs: Seq<String>, s: Seq<char>) -> bool {
    exists|i: int| 0 <= i < vs.len() && vs[i]@ == s
}

/// Linear scan for a string equal to `s`.
pub fn vec_contains_string(v: &Vec<String>, s: &String) -> (r: bool)
    ensures
        r == seq_contains_str(v@, s@),
{
    let mut i: usize = 0;
    while i < v.len()
        invariant
            i <= v@.len(),
            forall|j: int| 0 <= j < i ==> v@[j]@ != s@,
        decreases v@.len() - i,
    {
        if v[i].eq(s) {
            return true;
        }
        i = i + 1;
    }
    false
}

/// The strings of `vs` interleaved with `sep`.
pub open spec fn spec_join(vs: Seq<Seq<char>>, sep: Seq<char>) -> Seq<char>
    decreases vs.len(),
{
    if vs.len() == 0 {
        Seq::empty()
    } else if vs.len() == 1 {
        vs[0]
    } else {
        spec_join(vs.drop_last(), sep) + sep + vs.last()
    }
}

/// Joins the strings of `v` with the separator `sep`.
pub fn join_with(v: &Vec<String>, sep: &str) -> (r: String)
    ensures
        r@ == spec_join(str_views(v@), sep@),
{
    let mut s = String::new();
    let mut i: usize = 0;
    while i < v.len()
        invariant
            i <= v@.len(),
            s@ == spec_join(str_views(v@).take(i as int), sep@),
        decreases v@.len() - i,
    {
        if i > 0 {
            s.append(sep);
        }
        s.append(v[i].as_str());
        proof {
            let vw = str_views(v@);
            assert(vw.take(i + 1).drop_last() =~= vw.take(i as int));
            assert(vw.take(i + 1).last() == vw[i as int]);
            if i == 0 {
                assert(s@ == spec_join(vw.take(i + 1), sep@));
            }
        }
        i = i + 1;
    }
    proof {
        assert(str_views(v@).take(v@.len() as int) =~= str_views(v@));
    }
    s
}

} // verus!
