//! Plain-text helpers: lexicographic order on strings, substring search,
//! case folding, and the small formatting routines the orchestrator needs
//! (hexadecimal identifiers, decimal counters).

use vstd::prelude::*;

verus! {

/// The lowercase form of a string, as `str::to_lowercase` computes it.
pub uninterp spec fn lower_of(s: Seq<char>) -> Seq<char>;

/// The uppercase form of a string, as `str::to_uppercase` computes it.
pub uninterp spec fn upper_of(s: Seq<char>) -> Seq<char>;

/// The string with leading and trailing whitespace removed, as `str::trim`
/// computes it.
pub uninterp spec fn trim_of(s: Seq<char>) -> Seq<char>;

/// Relies on str::to_lowercase: the result depends on the characters alone,
/// and lowercasing an empty string yields an empty string.
#[verifier::external_body]
pub fn lowercase(s: &str) -> (r: String)
    ensures
        r@ == lower_of(s@),
        s@.len() == 0 ==> r@.len() == 0,
{
    s.to_lowercase()
}

/// Relies on str::to_uppercase: the result depends on the characters alone.
#[verifier::external_body]
pub fn uppercase(s: &str) -> (r: String)
    ensures
        r@ == upper_of(s@),
{
    s.to_uppercase()
}

/// Relies on str::trim: the result depends on the characters alone.
#[verifier::external_body]
pub fn trim(s: &str) -> (r: &str)
    ensures
        r@ == trim_of(s@),
{
    s.trim()
}

/// Relies on String::push: appends one character at the end.
#[verifier::external_body]
pub fn push_char(s: &mut String, c: char)
    ensures
        final(s)@ == old(s)@.push(c),
{
    s.push(c);
}

/// Lexicographic order on character sequences by code point, with a proper
/// prefix ordered before its extensions.  This is the order `str::cmp` uses.
pub open spec fn str_lt(a: Seq<char>, b: Seq<char>) -> bool
    decreases a.len(),
{
    if b.len() == 0 {
        false
    } else if a.len() == 0 {
        true
    } else if a[0] != b[0] {
        a[0] < b[0]
    } else {
        str_lt(a.drop_first(), b.drop_first())
    }
}

pub proof fn lemma_str_lt_irrefl(a: Seq<char>)
    ensures
        !str_lt(a, a),
    decreases a.len(),
{
    if a.len() > 0 {
        lemma_str_lt_irrefl(a.drop_first());
    }
}

pub proof fn lemma_str_lt_trichotomy(a: Seq<char>, b: Seq<char>)
    ensures
        str_lt(a, b) || str_lt(b, a) || a =~= b,
    decreases a.len(),
{
    if a.len() == 0 && b.len() == 0 {
        assert(a =~= b);
    } else if a.len() == 0 {
        assert(str_lt(a, b));
    } else if b.len() == 0 {
        assert(str_lt(b, a));
    } else if a[0] != b[0] {
    } else {
        lemma_str_lt_trichotomy(a.drop_first(), b.drop_first());
        if a.drop_first() =~= b.drop_first() {
            assert(a.len() == b.len());
            assert forall|i: int| 0 <= i < a.len() implies a[i] == b[i] by {
                if i > 0 {
                    assert(a.drop_first()[i - 1] == a[i]);
                    assert(b.drop_first()[i - 1] == b[i]);
                }
            }
            assert(a =~= b);
        }
    }
}

pub proof fn lemma_str_lt_trans(a: Seq<char>, b: Seq<char>, c: Seq<char>)
    requires
        str_lt(a, b),
        str_lt(b, c),
    ensures
        str_lt(a, c),
    decreases a.len(),
{
    if a.len() == 0 || b.len() == 0 || c.len() == 0 {
    } else if a[0] == b[0] && b[0] == c[0] {
        lemma_str_lt_trans(a.drop_first(), b.drop_first(), c.drop_first());
    }
}

/// Compares two strings in the lexicographic order `str_lt`.
pub fn str_lt_exec(a: &str, b: &str) -> (r: bool)
    ensures
        r == str_lt(a@, b@),
{
    let alen = a.unicode_len();
    let blen = b.unicode_len();
    let mut i: usize = 0;
    proof {
        assert(a@.skip(0) =~= a@);
        assert(b@.skip(0) =~= b@);
    }
    loop
        invariant
            i <= alen,
            i <= blen,
            alen == a@.len(),
            blen == b@.len(),
            str_lt(a@, b@) == str_lt(a@.skip(i as int), b@.skip(i as int)),
        decreases alen - i,
    {
        if i >= alen {
            proof {
                assert(a@.skip(i as int).len() == 0);
            }
            return blen > i;
        }
        if i >= blen {
            proof {
                assert(b@.skip(i as int).len() == 0);
            }
            return false;
        }
        let ca = a.get_char(i);
        let cb = b.get_char(i);
        if ca != cb {
            proof {
                assert(a@.skip(i as int)[0] == a@[i as int]);
                assert(b@.skip(i as int)[0] == b@[i as int]);
            }
            return ca < cb;
        }
        proof {
            assert(a@.skip(i as int).drop_first() =~= a@.skip(i + 1));
            assert(b@.skip(i as int).drop_first() =~= b@.skip(i + 1));
            assert(a@.skip(i as int)[0] == a@[i as int]);
            assert(b@.skip(i as int)[0] == b@[i as int]);
        }
        i = i + 1;
    }
}

/// Decides whether two strings hold the same characters.
pub fn str_eq_exec(a: &str, b: &str) -> (r: bool)
    ensures
        r == (a@ == b@),
{
    let alen = a.unicode_len();
    let blen = b.unicode_len();
    if alen != blen {
        return false;
    }
    let mut i: usize = 0;
    while i < alen
        invariant
            alen == a@.len(),
            blen == b@.len(),
            alen == blen,
            i <= alen,
            forall|t: int| 0 <= t < i ==> a@[t] == b@[t],
        decreases alen - i,
    {
        if a.get_char(i) != b.get_char(i) {
            proof {
                if a@ == b@ {
                    assert(a@[i as int] == b@[i as int]);
                }
            }
            return false;
        }
        i = i + 1;
    }
    proof {
        assert(a@ =~= b@);
    }
    true
}

/// Decides whether `prefix` is a prefix of `s`.
pub fn str_starts_with(s: &str, prefix: &str) -> (r: bool)
    ensures
        r == (prefix@.len() <= s@.len() && s@.subrange(0, prefix@.len() as int) == prefix@),
{
    let n = prefix.unicode_len();
    let l = s.unicode_len();
    if n > l {
        return false;
    }
    let mut j: usize = 0;
    while j < n
        invariant
            n <= l,
            l == s@.len(),
            n == prefix@.len(),
            j <= n,
            forall|t: int| 0 <= t < j ==> s@[t] == prefix@[t],
        decreases n - j,
    {
        if s.get_char(j) != prefix.get_char(j) {
            proof {
                if s@.subrange(0, n as int) == prefix@ {
                    assert(s@.subrange(0, n as int)[j as int] == prefix@[j as int]);
                }
            }
            return false;
        }
        j = j + 1;
    }
    proof {
        assert(s@.subrange(0, n as int) =~= prefix@);
    }
    true
}

/// `needle` occurs in `hay` starting at position `i`.
pub open spec fn is_substring_at(hay: Seq<char>, needle: Seq<char>, i: int) -> bool {
    0 <= i && i + needle.len() <= hay.len() && hay.subrange(i, i + needle.len()) == needle
}

/// `needle` occurs somewhere in `hay` (the empty sequence occurs everywhere).
pub open spec fn contains_seq(hay: Seq<char>, needle: Seq<char>) -> bool {
    exists|i: int| is_substring_at(hay, needle, i)
}

/// Substring search: decides whether `needle` occurs in `hay`.
pub fn str_contains(hay: &str, needle: &str) -> (r: bool)
    ensures
        r == contains_seq(hay@, needle@),
{
    let h = hay.unicode_len();
    let n = needle.unicode_len();
    if n == 0 {
        proof {
            assert(hay@.subrange(0, 0) =~= needle@);
            assert(is_substring_at(hay@, needle@, 0));
        }
        return true;
    }
    if n > h {
        proof {
            assert(forall|i: int| !is_substring_at(hay@, needle@, i)) by {
                assert forall|i: int| !is_substring_at(hay@, needle@, i) by {
                    if 0 <= i && i + needle@.len() <= hay@.len() {
                        assert(false);
                    }
                }
            }
        }
        return false;
    }
    let mut i: usize = 0;
    while i <= h - n
        invariant
            1 <= n,
            n <= h,
            h == hay@.len(),
            n == needle@.len(),
            i <= h - n + 1,
            forall|k: int| 0 <= k < i ==> !is_substring_at(hay@, needle@, k),
        decreases h - n - i + 1,
    {
        let mut j: usize = 0;
        let mut ok = true;
        while j < n
            invariant
                n <= h,
                h == hay@.len(),
                n == needle@.len(),
                i <= h - n,
                j <= n,
                ok ==> forall|t: int| 0 <= t < j ==> hay@[i + t] == needle@[t],
                !ok ==> !is_substring_at(hay@, needle@, i as int),
            decreases n - j,
        {
            let ch = hay.get_char(i + j);
            let cn = needle.get_char(j);
            if ch != cn {
                proof {
                    if is_substring_at(hay@, needle@, i as int) {
                        assert(hay@.subrange(i as int, i + needle@.len())[j as int]
                            == needle@[j as int]);
                    }
                }
                ok = false;
                j = n;
            } else {
                j = j + 1;
            }
        }
        if ok {
            proof {
                assert(hay@.subrange(i as int, i + needle@.len()) =~= needle@);
                assert(is_substring_at(hay@, needle@, i as int));
            }
            return true;
        }
        i = i + 1;
    }
    proof {
        assert(forall|k: int| !is_substring_at(hay@, needle@, k)) by {
            assert forall|k: int| !is_substring_at(hay@, needle@, k) by {
                if 0 <= k && k + needle@.len() <= hay@.len() {
                    assert(k < i);
                }
            }
        }
    }
    false
}

/// The hexadecimal digit for a value below 16, using uppercase letters.
pub open spec fn hex_digit(n: int) -> char {
    if n < 10 {
        ((n + 48) as u8) as char
    } else {
        ((n + 55) as u8) as char
    }
}

/// The four uppercase hexadecimal digits of a 16-bit value.
pub open spec fn hex4_seq(v: u16) -> Seq<char> {
    seq![
        hex_digit(((v >> 12) & 0xf) as int),
        hex_digit(((v >> 8) & 0xf) as int),
        hex_digit(((v >> 4) & 0xf) as int),
        hex_digit((v & 0xf) as int),
    ]
}

/// The eight uppercase hexadecimal digits of a 32-bit value.
pub open spec fn hex8_seq(v: u32) -> Seq<char> {
    seq![
        hex_digit(((v >> 28) & 0xf) as int),
        hex_digit(((v >> 24) & 0xf) as int),
        hex_digit(((v >> 20) & 0xf) as int),
        hex_digit(((v >> 16) & 0xf) as int),
        hex_digit(((v >> 12) & 0xf) as int),
        hex_digit(((v >> 8) & 0xf) as int),
        hex_digit(((v >> 4) & 0xf) as int),
        hex_digit((v & 0xf) as int),
    ]
}

fn hex_digit_exec(n: u8) -> (c: char)
    requires
        n < 16,
    ensures
        c == hex_digit(n as int),
{
    if n < 10 {
        (n + 48) as char
    } else {
        (n + 55) as char
    }
}

/// Formats a 16-bit value as four uppercase hexadecimal digits.
pub fn hex4(v: u16) -> (s: String)
    ensures
        s@ == hex4_seq(v),
{
    let mut s = String::new();
    let d0: u8 = ((v >> 12) & 0xf) as u8;
    let d1: u8 = ((v >> 8) & 0xf) as u8;
    let d2: u8 = ((v >> 4) & 0xf) as u8;
    let d3: u8 = (v & 0xf) as u8;
    proof {
        assert((v >> 12) & 0xf < 16 && (v >> 8) & 0xf < 16 && (v >> 4) & 0xf < 16 && v & 0xf < 16)
            by (bit_vector);
    }
    push_char(&mut s, hex_digit_exec(d0));
    push_char(&mut s, hex_digit_exec(d1));
    push_char(&mut s, hex_digit_exec(d2));
    push_char(&mut s, hex_digit_exec(d3));
    proof {
        assert(s@ =~= hex4_seq(v));
    }
    s
}

/// Formats a 32-bit value as eight uppercase hexadecimal digits.
pub fn hex8(v: u32) -> (s: String)
    ensures
        s@ == hex8_seq(v),
{
    let mut s = String::new();
    let d0: u8 = ((v >> 28) & 0xf) as u8;
    let d1: u8 = ((v >> 24) & 0xf) as u8;
    let d2: u8 = ((v >> 20) & 0xf) as u8;
    let d3: u8 = ((v >> 16) & 0xf) as u8;
    let d4: u8 = ((v >> 12) & 0xf) as u8;
    let d5: u8 = ((v >> 8) & 0xf) as u8;
    let d6: u8 = ((v >> 4) & 0xf) as u8;
    let d7: u8 = (v & 0xf) as u8;
    proof {
        assert((v >> 28) & 0xf < 16 && (v >> 24) & 0xf < 16 && (v >> 20) & 0xf < 16 && (v >> 16)
            & 0xf < 16 && (v >> 12) & 0xf < 16 && (v >> 8) & 0xf < 16 && (v >> 4) & 0xf < 16 && v
            & 0xf < 16) by (bit_vector);
    }
    push_char(&mut s, hex_digit_exec(d0));
    push_char(&mut s, hex_digit_exec(d1));
    push_char(&mut s, hex_digit_exec(d2));
    push_char(&mut s, hex_digit_exec(d3));
    push_char(&mut s, hex_digit_exec(d4));
    push_char(&mut s, hex_digit_exec(d5));
    push_char(&mut s, hex_digit_exec(d6));
    push_char(&mut s, hex_digit_exec(d7));
    proof {
        assert(s@ =~= hex8_seq(v));
    }
    s
}

/// The decimal digits of a natural number, most significant first.
pub open spec fn dec_seq(n: nat) -> Seq<char>
    decreases n,
{
    if n < 10 {
        seq![hex_digit(n as int)]
    } else {
        dec_seq(n / 10).push(hex_digit((n % 10) as int))
    }
}

/// Formats a 64-bit value in decimal.
pub fn u64_to_dec(n: u64) -> (s: String)
    ensures
        s@ == dec_seq(n as nat),
    decreases n,
{
    if n < 10 {
        let mut s = String::new();
        push_char(&mut s, hex_digit_exec(n as u8));
        proof {
            assert(s@ =~= dec_seq(n as nat));
        }
        s
    } else {
        proof {
            assert(n / 10 < n) by (nonlinear_arith)
                requires
                    n >= 10,
            ;
        }
        let mut s = u64_to_dec(n / 10);
        push_char(&mut s, hex_digit_exec((n % 10) as u8));
        proof {
            assert((n % 10) < 16) by (nonlinear_arith);
            assert(s@ =~= dec_seq(n as nat));
        }
        s
    }
}

} // verus!

