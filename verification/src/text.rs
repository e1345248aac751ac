//! Character-sequence utilities shared by the listing engine: lexicographic
//! ordering of names, padding to column widths, and decimal rendering of
//! numeric identifiers.

use vstd::prelude::*;

verus! {

/// A sequence of `n` spaces, the filler used when padding a column.
pub open spec fn spaces(n: nat) -> Seq<char> {
    Seq::new(n, |i: int| ' ')
}

/// `s` padded on the right with spaces to width `w` (unchanged if already wider).
pub open spec fn pad_right_spec(s: Seq<char>, w: nat) -> Seq<char> {
    if s.len() >= w {
        s
    } else {
        s + spaces((w - s.len()) as nat)
    }
}

/// `s` padded on the left with spaces to width `w` (unchanged if already wider).
pub open spec fn pad_left_spec(s: Seq<char>, w: nat) -> Seq<char> {
    if s.len() >= w {
        s
    } else {
        spaces((w - s.len()) as nat) + s
    }
}

/// Appends `n` spaces to `out`.
fn append_spaces(out: &mut String, n: usize)
    ensures
        final(out)@ == old(out)@ + spaces(n as nat),
{
    let mut i: usize = 0;
    while i < n
        invariant
            i <= n,
            out@ == old(out)@ + spaces(i as nat),
        decreases n - i,
    {
        out.append(" ");
        i = i + 1;
        proof {
            reveal_strlit(" ");
            assert(out@ =~= old(out)@ + spaces(i as nat));
        }
    }
    proof {
        assert(out@ =~= old(out)@ + spaces(n as nat));
    }
}

/// Left-aligns `s` in a field of width `w`.
pub fn pad_right(s: &str, w: usize) -> (r: String)
    ensures
        r@ == pad_right_spec(s@, w as nat),
{
    let len = s.unicode_len();
    let mut r = String::from_str(s);
    if len < w {
        append_spaces(&mut r, w - len);
    }
    proof {
        assert(r@ =~= pad_right_spec(s@, w as nat));
    }
    r
}

/// Right-aligns `s` in a field of width `w`.
pub fn pad_left(s: &str, w: usize) -> (r: String)
    ensures
        r@ == pad_left_spec(s@, w as nat),
{
    let len = s.unicode_len();
    let mut r = String::new();
    if len < w {
        append_spaces(&mut r, w - len);
    }
    r.append(s);
    proof {
        assert(r@ =~= pad_left_spec(s@, w as nat));
    }
    r
}

/// Total lexicographic order on character sequences, comparing scalar values
/// position by position; a proper prefix sorts before its extensions.
pub open spec fn lex_le(a: Seq<char>, b: Seq<char>) -> bool
    decreases a.len(),
{
    if a.len() == 0 {
        true
    } else if b.len() == 0 {
        false
    } else if (a[0] as u32) < (b[0] as u32) {
        true
    } else if (a[0] as u32) > (b[0] as u32) {
        false
    } else {
        lex_le(a.drop_first(), b.drop_first())
    }
}

/// `lex_le` relates every pair of sequences one way or the other.
pub proof fn lemma_lex_le_total(a: Seq<char>, b: Seq<char>)
    ensures
        lex_le(a, b) || lex_le(b, a),
    decreases a.len(),
{
    if a.len() == 0 || b.len() == 0 {
    } else if (a[0] as u32) == (b[0] as u32) {
        lemma_lex_le_total(a.drop_first(), b.drop_first());
    }
}

/// `lex_le` is transitive.
pub proof fn lemma_lex_le_trans(a: Seq<char>, b: Seq<char>, c: Seq<char>)
    requires
        lex_le(a, b),
        lex_le(b, c),
    ensures
        lex_le(a, c),
    decreases a.len(),
{
    if a.len() == 0 || b.len() == 0 || c.len() == 0 {
    } else if (a[0] as u32) == (b[0] as u32) && (b[0] as u32) == (c[0] as u32) {
        lemma_lex_le_trans(a.drop_first(), b.drop_first(), c.drop_first());
    }
}

/// Compares two names in the lexicographic order used for sorting listings.
pub fn str_lex_le(a: &str, b: &str) -> (r: bool)
    ensures
        r == lex_le(a@, b@),
{
    let alen = a.unicode_len();
    let blen = b.unicode_len();
    let mut i: usize = 0;
    proof {
        assert(a@.skip(0) =~= a@);
        assert(b@.skip(0) =~= b@);
    }
    loop
        invariant
            i <= alen,
            i <= blen,
            alen == a@.len(),
            blen == b@.len(),
            lex_le(a@, b@) == lex_le(a@.skip(i as int), b@.skip(i as int)),
        decreases alen - i,
    {
        if i >= alen {
            return true;
        }
        if i >= blen {
            return false;
        }
        let ca = a.get_char(i);
        let cb = b.get_char(i);
        proof {
            assert(a@.skip(i as int)[0] == a@[i as int]);
            assert(b@.skip(i as int)[0] == b@[i as int]);
            assert(a@.skip(i as int).drop_first() =~= a@.skip(i as int + 1));
            assert(b@.skip(i as int).drop_first() =~= b@.skip(i as int + 1));
        }
        if (ca as u32) < (cb as u32) {
            return true;
        }
        if (ca as u32) > (cb as u32) {
            return false;
        }
        i = i + 1;
    }
}

/// Whether `s` ends with the suffix `suf`.
pub open spec fn ends_with_spec(s: Seq<char>, suf: Seq<char>) -> bool {
    suf.len() <= s.len() && s.skip(s.len() - suf.len()) == suf
}

/// Whether `s` starts with the prefix `pre`.
pub open spec fn starts_with_spec(s: Seq<char>, pre: Seq<char>) -> bool {
    pre.len() <= s.len() && s.take(pre.len() as int) == pre
}

/// Suffix test over character sequences.
pub fn str_ends_with(s: &str, suf: &str) -> (r: bool)
    ensures
        r == ends_with_spec(s@, suf@),
{
    let n = s.unicode_len();
    let m = suf.unicode_len();
    if m > n {
        return false;
    }
    let mut i: usize = 0;
    while i < m
        invariant
            i <= m,
            m <= n,
            n == s@.len(),
            m == suf@.len(),
            forall|k: int| 0 <= k < i ==> s@[n - m + k] == suf@[k],
        decreases m - i,
    {
        let cs = s.get_char(n - m + i);
        let cf = suf.get_char(i);
        if (cs as u32) != (cf as u32) {
            proof {
                assert(s@[n - m + i] as u32 != suf@[i as int] as u32);
                assert(s@.skip(n - m) != suf@) by {
                    assert(s@.skip(n - m).len() == m);
                    assert(s@.skip(n - m)[i as int] != suf@[i as int]);
                }
            }
            return false;
        }
        proof {
            assert(s@[n - m + i] == suf@[i as int]) by {
                assert(s@[n - m + i] as u32 == suf@[i as int] as u32);
            }
        }
        i = i + 1;
    }
    proof {
        assert(s@.skip(n - m) =~= suf@);
    }
    true
}

/// Prefix test over character sequences.
pub fn str_starts_with(s: &str, pre: &str) -> (r: bool)
    ensures
        r == starts_with_spec(s@, pre@),
{
    let n = s.unicode_len();
    let m = pre.unicode_len();
    if m > n {
        return false;
    }
    let mut i: usize = 0;
    while i < m
        invariant
            i <= m,
            m <= n,
            n == s@.len(),
            m == pre@.len(),
            forall|k: int| 0 <= k < i ==> s@[k] == pre@[k],
        decreases m - i,
    {
        let cs = s.get_char(i);
        let cp = pre.get_char(i);
        if (cs as u32) != (cp as u32) {
            proof {
                assert(s@.take(m as int) != pre@) by {
                    assert(s@.take(m as int)[i as int] != pre@[i as int]);
                }
            }
            return false;
        }
        proof {
            assert(s@[i as int] == pre@[i as int]) by {
                assert(s@[i as int] as u32 == pre@[i as int] as u32);
            }
        }
        i = i + 1;
    }
    proof {
        assert(s@.take(m as int) =~= pre@);
    }
    true
}

/// Character-wise equality of two string slices.
pub fn str_eq(a: &str, b: &str) -> (r: bool)
    ensures
        r == (a@ == b@),
{
    let alen = a.unicode_len();
    let blen = b.unicode_len();
    if alen != blen {
        return false;
    }
    let mut i: usize = 0;
    while i < alen
        invariant
            i <= alen,
            alen == a@.len(),
            alen == b@.len(),
            forall|k: int| 0 <= k < i ==> a@[k] == b@[k],
        decreases alen - i,
    {
        let ca = a.get_char(i);
        let cb = b.get_char(i);
        if (ca as u32) != (cb as u32) {
            proof {
                assert(a@ != b@) by {
                    assert(a@[i as int] != b@[i as int]);
                }
            }
            return false;
        }
        proof {
            assert(a@[i as int] == b@[i as int]) by {
                assert(a@[i as int] as u32 == b@[i as int] as u32);
            }
        }
        i = i + 1;
    }
    proof {
        assert(a@ =~= b@);
    }
    true
}

/// The digit character for a value below ten.
pub open spec fn digit_char(d: int) -> char {
    if d == 0 {
        '0'
    } else if d == 1 {
        '1'
    } else if d == 2 {
        '2'
    } else if d == 3 {
        '3'
    } else if d == 4 {
        '4'
    } else if d == 5 {
        '5'
    } else if d == 6 {
        '6'
    } else if d == 7 {
        '7'
    } else if d == 8 {
        '8'
    } else {
        '9'
    }
}

/// The decimal representation of `n`, most significant digit first.
pub open spec fn decimal_rep(n: nat) -> Seq<char>
    decreases n,
{
    if n < 10 {
        seq![digit_char(n as int)]
    } else {
        decimal_rep(n / 10).push(digit_char((n % 10) as int))
    }
}

/// Relies on `String::push`: appends the given character to the end of the string.
#[verifier::external_body]
pub(crate) fn push_char(s: &mut String, c: char)
    ensures
        final(s)@ == old(s)@.push(c),
{
    s.push(c)
}

fn digit_to_char(d: u32) -> (c: char)
    requires
        d < 10,
    ensures
        c == digit_char(d as int),
{
    if d == 0 {
        '0'
    } else if d == 1 {
        '1'
    } else if d == 2 {
        '2'
    } else if d == 3 {
        '3'
    } else if d == 4 {
        '4'
    } else if d == 5 {
        '5'
    } else if d == 6 {
        '6'
    } else if d == 7 {
        '7'
    } else if d == 8 {
        '8'
    } else {
        '9'
    }
}

/// Renders `n` in decimal, as the fallback display for a numeric identifier
/// that has no name.
pub fn u32_to_decimal(n: u32) -> (r: String)
    ensures
        r@ == decimal_rep(n as nat),
{
    let mut digits: Vec<char> = Vec::new();
    let mut m: u32 = n;
    if m == 0 {
        let mut r = String::new();
        push_char(&mut r, '0');
        proof {
            assert(r@ =~= decimal_rep(0));
        }
        return r;
    }
    while m > 0
        invariant
            m > 0 ==> decimal_rep(n as nat) == decimal_rep(m as nat) + digits@.reverse(),
            m == 0 ==> decimal_rep(n as nat) == digits@.reverse(),
            m == 0 ==> digits@.len() > 0,
        decreases m,
    {
        let d = m % 10;
        let ghost pre = digits@;
        digits.push(digit_to_char(d));
        proof {
            assert(digits@.reverse() =~= seq![digit_char(d as int)] + pre.reverse());
            if m >= 10 {
                assert(decimal_rep(m as nat) == decimal_rep((m / 10) as nat).push(
                    digit_char(d as int),
                ));
                assert(decimal_rep((m / 10) as nat) + digits@.reverse() =~= decimal_rep(m as nat)
                    + pre.reverse());
            } else {
                assert(decimal_rep(m as nat) == seq![digit_char(d as int)]);
                assert(digits@.reverse() =~= decimal_rep(m as nat) + pre.reverse());
            }
        }
        m = m / 10;
    }
    let mut r = String::new();
    let mut i: usize = digits.len();
    while i > 0
        invariant
            i <= digits@.len(),
            r@ == digits@.skip(i as int).reverse(),
        decreases i,
    {
        i = i - 1;
        push_char(&mut r, digits[i]);
        proof {
            assert(r@ =~= digits@.skip(i as int).reverse());
        }
    }
    proof {
        assert(digits@.skip(0) =~= digits@);
        assert(r@ == decimal_rep(n as nat));
    }
    r
}

} // verus!
