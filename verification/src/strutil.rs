//! Verified character-level string machinery: case folding, equality,
//! substring search, and decimal rendering, all specified over `Seq<char>`.

use vstd::prelude::*;
use vstd::string::*;

verus! {

/// True when `c` is an ASCII upper-case letter.
pub open spec fn is_ascii_upper(c: char) -> bool {
    'A' <= c && c <= 'Z'
}

/// The ASCII lower-case counterpart of `c`; every other character is unchanged.
pub open spec fn lower_char(c: char) -> char {
    if is_ascii_upper(c) {
        (((c as u32) + 32) as u8) as char
    } else {
        c
    }
}

/// A character sequence with its ASCII letters lowered.
pub open spec fn lower_chars(s: Seq<char>) -> Seq<char> {
    s.map_values(|c: char| lower_char(c))
}

/// The needle `n` occurs in `h` starting at position `i`.
pub open spec fn chars_match_at(h: Seq<char>, n: Seq<char>, i: int) -> bool {
    0 <= i && i + n.len() <= h.len() && h.subrange(i, i + n.len() as int) == n
}

/// The needle `n` occurs somewhere in `h`.
pub open spec fn chars_contain(h: Seq<char>, n: Seq<char>) -> bool {
    exists|i: int| chars_match_at(h, n, i)
}

/// `p` is a prefix of `s`.
pub open spec fn chars_start_with(s: Seq<char>, p: Seq<char>) -> bool {
    chars_match_at(s, p, 0)
}

/// Relies on `String::push`: appends exactly one character at the end.
#[verifier::external_body]
pub fn push_char(s: &mut String, c: char)
    ensures
        final(s)@ == old(s)@.push(c),
{
    s.push(c);
}

/// Character-by-character string equality.
pub fn str_eq(a: &str, b: &str) -> (r: bool)
    ensures
        r == (a@ == b@),
{
    let alen: usize = a.unicode_len();
    let blen: usize = b.unicode_len();
    if alen != blen {
        proof {
            if a@ == b@ {
                assert(a@.len() == b@.len());
            }
        }
        return false;
    }
    let mut i: usize = 0;
    while i < alen
        invariant
            alen == a@.len(),
            alen == b@.len(),
            i <= alen,
            forall|j: int| 0 <= j < i ==> a@[j] == b@[j],
        decreases alen - i,
    {
        let ca: char = a.get_char(i);
        let cb: char = b.get_char(i);
        if ca != cb {
            proof {
                if a@ == b@ {
                    assert(a@[i as int] == b@[i as int]);
                }
            }
            return false;
        }
        i += 1;
    }
    proof {
        assert(a@ =~= b@);
    }
    true
}

/// Whether `n` occurs in `h` at position `i`; lengths are passed in to avoid recounting.
fn match_at(h: &str, n: &str, i: usize, hlen: usize, nlen: usize) -> (r: bool)
    requires
        hlen == h@.len(),
        nlen == n@.len(),
        i + nlen <= hlen,
    ensures
        r == chars_match_at(h@, n@, i as int),
{
    let mut k: usize = 0;
    while k < nlen
        invariant
            hlen == h@.len(),
            nlen == n@.len(),
            i + nlen <= hlen,
            k <= nlen,
            forall|j: int| 0 <= j < k ==> h@[i + j] == n@[j],
        decreases nlen - k,
    {
        let hc: char = h.get_char(i + k);
        let nc: char = n.get_char(k);
        if hc != nc {
            proof {
                if chars_match_at(h@, n@, i as int) {
                    assert(h@.subrange(i as int, i + nlen as int)[k as int] == n@[k as int]);
                }
            }
            return false;
        }
        k += 1;
    }
    proof {
        assert(h@.subrange(i as int, i + nlen as int) =~= n@);
    }
    true
}

/// Substring search; `true` exactly when `n` occurs in `h`.
pub fn contains_str(h: &str, n: &str) -> (r: bool)
    ensures
        r == chars_contain(h@, n@),
{
    let hlen: usize = h.unicode_len();
    let nlen: usize = n.unicode_len();
    if nlen > hlen {
        proof {
            assert(forall|i: int| !chars_match_at(h@, n@, i));
        }
        return false;
    }
    if nlen == 0 {
        proof {
            assert(h@.subrange(0, 0) =~= n@);
            assert(chars_match_at(h@, n@, 0));
        }
        return true;
    }
    let mut i: usize = 0;
    while i <= hlen - nlen
        invariant
            hlen == h@.len(),
            nlen == n@.len(),
            0 < nlen <= hlen,
            i <= hlen - nlen + 1,
            forall|j: int| 0 <= j < i ==> !chars_match_at(h@, n@, j),
        decreases hlen - nlen - i + 1,
    {
        if match_at(h, n, i, hlen, nlen) {
            return true;
        }
        i += 1;
    }
    proof {
        assert(forall|j: int| chars_match_at(h@, n@, j) ==> 0 <= j <= hlen - nlen);
    }
    false
}

/// Prefix test; `true` exactly when `p` is a prefix of `s`.
pub fn starts_with_str(s: &str, p: &str) -> (r: bool)
    ensures
        r == chars_start_with(s@, p@),
{
    let slen: usize = s.unicode_len();
    let plen: usize = p.unicode_len();
    if plen > slen {
        return false;
    }
    match_at(s, p, 0, slen, plen)
}

/// A copy of `s` with its ASCII letters lowered.
pub fn lower_str(s: &str) -> (r: String)
    ensures
        r@ == lower_chars(s@),
{
    let n: usize = s.unicode_len();
    let mut out: String = String::new();
    let mut i: usize = 0;
    while i < n
        invariant
            n == s@.len(),
            i <= n,
            out@ =~= lower_chars(s@).subrange(0, i as int),
        decreases n - i,
    {
        let c: char = s.get_char(i);
        let cu: u32 = c as u32;
        let lc: char = if 65 <= cu && cu <= 90 {
            ((cu + 32) as u8) as char
        } else {
            c
        };
        proof {
            assert(lc == lower_char(c));
        }
        push_char(&mut out, lc);
        proof {
            assert(out@ =~= lower_chars(s@).subrange(0, i + 1));
        }
        i += 1;
    }
    proof {
        assert(lower_chars(s@).subrange(0, n as int) =~= lower_chars(s@));
    }
    out
}

/// The index of the last occurrence of `c` in `s`, if any.
pub fn find_last_char(s: &str, c: char) -> (r: Option<usize>)
    ensures
        match r {
            Option::Some(i) => i < s@.len() && s@[i as int] == c && (forall|j: int|
                i < j < s@.len() ==> s@[j] != c),
            Option::None => forall|j: int| 0 <= j < s@.len() ==> s@[j] != c,
        },
{
    let n: usize = s.unicode_len();
    let mut i: usize = n;
    while i > 0
        invariant
            n == s@.len(),
            i <= n,
            forall|j: int| i <= j < n ==> s@[j] != c,
        decreases i,
    {
        i -= 1;
        if s.get_char(i) == c {
            return Option::Some(i);
        }
    }
    Option::None
}

/// The index of the first occurrence of `c` in `s`, if any.
pub fn find_first_char(s: &str, c: char) -> (r: Option<usize>)
    ensures
        match r {
            Option::Some(i) => i < s@.len() && s@[i as int] == c && (forall|j: int|
                0 <= j < i ==> s@[j] != c),
            Option::None => forall|j: int| 0 <= j < s@.len() ==> s@[j] != c,
        },
{
    let n: usize = s.unicode_len();
    let mut i: usize = 0;
    while i < n
        invariant
            n == s@.len(),
            i <= n,
            forall|j: int| 0 <= j < i ==> s@[j] != c,
        decreases n - i,
    {
        if s.get_char(i) == c {
            return Option::Some(i);
        }
        i += 1;
    }
    Option::None
}

/// `s` with every non-overlapping occurrence of `pat` replaced by `rep`,
/// scanning left to right; `pat` must not be empty.
pub open spec fn replace_chars(s: Seq<char>, pat: Seq<char>, rep: Seq<char>) -> Seq<char>
    decreases s.len(),
{
    if s.len() == 0 {
        s
    } else if 0 < pat.len() <= s.len() && s.subrange(0, pat.len() as int) == pat {
        rep + replace_chars(s.skip(pat.len() as int), pat, rep)
    } else {
        seq![s[0]] + replace_chars(s.drop_first(), pat, rep)
    }
}

/// Replaces every non-overlapping occurrence of `pat` in `s` by `rep`.
pub fn replace_str(s: &str, pat: &str, rep: &str) -> (r: String)
    requires
        pat@.len() > 0,
    ensures
        r@ == replace_chars(s@, pat@, rep@),
{
    let slen: usize = s.unicode_len();
    let plen: usize = pat.unicode_len();
    let mut out: String = String::new();
    let mut i: usize = 0;
    proof {
        assert(s@.skip(0) =~= s@);
        assert(out@ + replace_chars(s@, pat@, rep@) =~= replace_chars(s@, pat@, rep@));
    }
    while i < slen
        invariant
            slen == s@.len(),
            plen == pat@.len(),
            plen > 0,
            i <= slen,
            replace_chars(s@, pat@, rep@) =~= out@ + replace_chars(
                s@.skip(i as int),
                pat@,
                rep@,
            ),
        decreases slen - i,
    {
        let ghost rest = s@.skip(i as int);
        if plen <= slen - i && match_at(s, pat, i, slen, plen) {
            out.append(rep);
            proof {
                assert(rest.subrange(0, plen as int) =~= s@.subrange(i as int, i + plen));
                assert(replace_chars(rest, pat@, rep@) == rep@ + replace_chars(
                    rest.skip(plen as int),
                    pat@,
                    rep@,
                ));
                assert(rest.skip(plen as int) =~= s@.skip(i + plen));
            }
            i += plen;
        } else {
            let ghost old_out = out@;
            let c: char = s.get_char(i);
            push_char(&mut out, c);
            proof {
                if plen <= rest.len() && rest.subrange(0, plen as int) == pat@ {
                    assert(rest.subrange(0, plen as int) =~= s@.subrange(i as int, i + plen));
                }
                assert(rest.len() > 0);
                assert(rest[0] == s@[i as int]);
                assert(replace_chars(rest, pat@, rep@) == seq![rest[0]] + replace_chars(
                    rest.drop_first(),
                    pat@,
                    rep@,
                ));
                assert(rest.drop_first() =~= s@.skip(i + 1));
                assert(out@ =~= old_out + seq![c]);
            }
            i += 1;
        }
        proof {
            assert(replace_chars(s@, pat@, rep@) =~= out@ + replace_chars(
                s@.skip(i as int),
                pat@,
                rep@,
            ));
        }
    }
    proof {
        assert(s@.skip(slen as int) =~= Seq::<char>::empty());
        assert(replace_chars(Seq::<char>::empty(), pat@, rep@) == Seq::<char>::empty());
        assert(out@ + Seq::<char>::empty() =~= out@);
    }
    out
}

/// `s` without its leading run of the character `c`.
pub open spec fn trim_start_char(s: Seq<char>, c: char) -> Seq<char>
    decreases s.len(),
{
    if s.len() > 0 && s[0] == c {
        trim_start_char(s.drop_first(), c)
    } else {
        s
    }
}

/// The leading run of `c` in `s` has this length.
proof fn lemma_trim_start_char(s: Seq<char>, c: char, j: int)
    requires
        0 <= j <= s.len(),
        forall|k: int| 0 <= k < j ==> s[k] == c,
        j == s.len() || s[j] != c,
    ensures
        trim_start_char(s, c) =~= s.skip(j),
    decreases j,
{
    if j == 0 {
        assert(s.skip(0) =~= s);
    } else {
        assert(s[0] == c);
        lemma_trim_start_char(s.drop_first(), c, j - 1);
        assert(s.drop_first().skip(j - 1) =~= s.skip(j));
    }
}

/// Removes the leading run of the character `c` from `s`.
pub fn trim_start_str(s: &str, c: char) -> (r: String)
    ensures
        r@ == trim_start_char(s@, c),
{
    let n: usize = s.unicode_len();
    let mut j: usize = 0;
    let mut done: bool = false;
    while !done && j < n
        invariant
            n == s@.len(),
            j <= n,
            forall|k: int| 0 <= k < j ==> s@[k] == c,
            done ==> j < n && s@[j as int] != c,
        decreases n - j + (if done { 0int } else { 1int }),
    {
        if s.get_char(j) != c {
            done = true;
        } else {
            j += 1;
        }
    }
    proof {
        lemma_trim_start_char(s@, c, j as int);
    }
    let rest: &str = s.substring_char(j, n);
    rest.to_owned()
}

/// The character for one decimal digit.
pub open spec fn digit_char(d: nat) -> char {
    ((48 + d) as u8) as char
}

/// The decimal rendering of `n`, most significant digit first.
pub open spec fn decimal_chars(n: nat) -> Seq<char>
    decreases n,
{
    if n < 10 {
        seq![digit_char(n)]
    } else {
        decimal_chars(n / 10).push(digit_char(n % 10))
    }
}

/// Appends the decimal rendering of `n` to `out`.
pub fn push_decimal(out: &mut String, n: u64)
    ensures
        final(out)@ == old(out)@ + decimal_chars(n as nat),
    decreases n,
{
    if n >= 10 {
        push_decimal(out, n / 10);
    }
    let d: u8 = (n % 10) as u8;
    push_char(out, (48 + d) as char);
    proof {
        if n >= 10 {
            assert((old(out)@ + decimal_chars((n / 10) as nat)).push(digit_char((n % 10) as nat))
                =~= old(out)@ + decimal_chars(n as nat));
        } else {
            assert(old(out)@.push(digit_char(n as nat)) =~= old(out)@ + decimal_chars(n as nat));
        }
    }
}

/// The decimal rendering of `n` as an owned string.
pub fn u64_to_string(n: u64) -> (r: String)
    ensures
        r@ == decimal_chars(n as nat),
{
    let mut out: String = String::new();
    push_decimal(&mut out, n);
    proof {
        assert(Seq::<char>::empty() + decimal_chars(n as nat) =~= decimal_chars(n as nat));
    }
    out
}

} // verus!
