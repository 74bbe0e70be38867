//! Basic character-sequence helpers shared by the rest of the library: ASCII
//! lowercasing, substring search, decimal rendering of integers, and the
//! conversion from `&str` to `Vec<char>` at the library boundary.

use vstd::prelude::*;

verus! {

/// ASCII lowercasing of one character; every non-ASCII-uppercase character is
/// left unchanged.
pub open spec fn lower_char(c: char) -> char {
    if 'A' <= c && c <= 'Z' {
        (((c as u32) + 32) as u8) as char
    } else {
        c
    }
}

/// ASCII lowercasing of a whole sequence.
pub open spec fn lower(s: Seq<char>) -> Seq<char> {
    s.map_values(|c: char| lower_char(c))
}

/// Executable ASCII lowercasing.
pub fn to_lower(s: &Vec<char>) -> (r: Vec<char>)
    ensures
        r@ == lower(s@),
{
    let mut out: Vec<char> = Vec::new();
    let mut i: usize = 0;
    while i < s.len()
        invariant
            i <= s@.len(),
            out@ == lower(s@.subrange(0, i as int)),
        decreases s@.len() - i,
    {
        let c = s[i];
        if 'A' <= c && c <= 'Z' {
            out.push((((c as u32) + 32) as u8) as char);
        } else {
            out.push(c);
        }
        assert(lower(s@.subrange(0, i + 1 as int)) =~= lower(s@.subrange(0, i as int)).push(
            lower_char(s@[i as int]),
        ));
        i = i + 1;
    }
    assert(s@.subrange(0, s@.len() as int) =~= s@);
    out
}

/// `n` occurs in `h` starting at position `i`.
pub open spec fn is_sub_at(h: Seq<char>, n: Seq<char>, i: int) -> bool {
    0 <= i && i + n.len() <= h.len() && h.subrange(i, i + n.len()) == n
}

/// `n` occurs somewhere in `h` (the empty sequence occurs everywhere).
pub open spec fn has_sub(h: Seq<char>, n: Seq<char>) -> bool {
    exists|i: int| is_sub_at(h, n, i)
}

/// Executable substring test.
pub fn contains_sub(h: &Vec<char>, n: &Vec<char>) -> (r: bool)
    ensures
        r == has_sub(h@, n@),
{
    if n.len() > h.len() {
        assert(forall|i: int| !is_sub_at(h@, n@, i));
        return false;
    }
    if n.len() == 0 {
        assert(h@.subrange(0, 0) =~= n@);
        assert(is_sub_at(h@, n@, 0));
        return true;
    }
    let bound = h.len() - n.len();
    let mut i: usize = 0;
    loop
        invariant
            1 <= n@.len() <= h@.len() <= usize::MAX,
            bound == h@.len() - n@.len(),
            i <= bound + 1,
            forall|k: int| 0 <= k < i ==> !is_sub_at(h@, n@, k),
        decreases bound + 1 - i,
    {
        if i > bound {
            assert(forall|k: int| !is_sub_at(h@, n@, k));
            return false;
        }
        let mut j: usize = 0;
        let mut mismatch = false;
        while j < n.len()
            invariant
                i <= bound,
                1 <= n@.len() <= h@.len() <= usize::MAX,
                bound == h@.len() - n@.len(),
                j <= n@.len(),
                !mismatch ==> forall|l: int| 0 <= l < j ==> h@[i + l] == n@[l],
                mismatch ==> !is_sub_at(h@, n@, i as int),
            decreases n@.len() - j,
        {
            if h[i + j] != n[j] {
                proof {
                    if is_sub_at(h@, n@, i as int) {
                        assert(h@.subrange(i as int, i + n@.len())[j as int] == n@[j as int]);
                    }
                }
                mismatch = true;
                j = n.len();
            } else {
                j = j + 1;
            }
        }
        if !mismatch {
            assert(h@.subrange(i as int, i + n@.len()) =~= n@);
            assert(is_sub_at(h@, n@, i as int));
            return true;
        }
        i = i + 1;
    }
}

/// The character for a decimal digit.
pub open spec fn dec_digit(d: int) -> char {
    ((48 + d) as u8) as char
}

/// Decimal rendering of a natural number, most significant digit first, with
/// no leading zeros (zero itself renders as "0").
pub open spec fn dec_str(n: nat) -> Seq<char>
    decreases n,
{
    if n < 10 {
        seq![dec_digit(n as int)]
    } else {
        dec_str(n / 10).push(dec_digit((n % 10) as int))
    }
}

/// Executable decimal rendering of a `u64`.
pub fn u64_to_dec(n: u64) -> (r: Vec<char>)
    ensures
        r@ == dec_str(n as nat),
    decreases n,
{
    if n < 10 {
        let mut v: Vec<char> = Vec::new();
        v.push((48 + (n as u8)) as char);
        assert(v@ =~= dec_str(n as nat));
        v
    } else {
        let mut v = u64_to_dec(n / 10);
        v.push((48 + ((n % 10) as u8)) as char);
        assert(v@ =~= dec_str(n as nat));
        v
    }
}

/// Conversion from `&str` to the character vectors the library works on.
pub fn str_to_chars(s: &str) -> (r: Vec<char>)
    ensures
        r@ == s@,
{
    let len = s.unicode_len();
    let mut out: Vec<char> = Vec::new();
    let mut i: usize = 0;
    while i < len
        invariant
            len == s@.len(),
            i <= len,
            out@ == s@.subrange(0, i as int),
        decreases len - i,
    {
        out.push(s.get_char(i));
        assert(out@ =~= s@.subrange(0, i as int + 1));
        i = i + 1;
    }
    assert(s@.subrange(0, s@.len() as int) =~= s@);
    out
}

/// Executable character-vector equality.
pub fn chars_eq(a: &Vec<char>, b: &Vec<char>) -> (r: bool)
    ensures
        r == (a@ == b@),
{
    if a.len() != b.len() {
        return false;
    }
    let mut i: usize = 0;
    while i < a.len()
        invariant
            a@.len() == b@.len(),
            i <= a@.len(),
            forall|t: int| 0 <= t < i ==> a@[t] == b@[t],
        decreases a@.len() - i,
    {
        if a[i] != b[i] {
            return false;
        }
        i = i + 1;
    }
    assert(a@ =~= b@);
    true
}

/// Copy of the characters of `s` between `from` and `to`.
pub fn slice_chars(s: &Vec<char>, from: usize, to: usize) -> (r: Vec<char>)
    requires
        from <= to <= s@.len(),
    ensures
        r@ == s@.subrange(from as int, to as int),
{
    let mut out: Vec<char> = Vec::new();
    let mut i: usize = from;
    while i < to
        invariant
            from <= i <= to <= s@.len(),
            out@ == s@.subrange(from as int, i as int),
        decreases to - i,
    {
        out.push(s[i]);
        assert(out@ =~= s@.subrange(from as int, i as int + 1));
        i = i + 1;
    }
    out
}

/// Concatenation helper: append the characters of `b` to `a`.
pub fn append_chars(a: &mut Vec<char>, b: &Vec<char>)
    ensures
        final(a)@ == old(a)@ + b@,
{
    let mut i: usize = 0;
    while i < b.len()
        invariant
            i <= b@.len(),
            a@ == old(a)@ + b@.subrange(0, i as int),
        decreases b@.len() - i,
    {
        a.push(b[i]);
        assert(a@ =~= old(a)@ + b@.subrange(0, i as int + 1));
        i = i + 1;
    }
    assert(old(a)@ + b@.subrange(0, b@.len() as int) =~= old(a)@ + b@);
}

} // verus!

