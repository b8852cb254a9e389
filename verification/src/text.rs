//! Verified helpers over `&str` and its `Seq<char>` view: equality, prefix and
//! suffix tests, character search, splitting, trimming and digit parsing.
//! These are the primitives the classifier and the configuration parsers are
//! specified and proved against.

use vstd::prelude::*;
use vstd::string::StrSliceExecFns;

verus! {

/// A sequence starts with the given prefix.
pub open spec fn seq_starts_with(s: Seq<char>, p: Seq<char>) -> bool {
    p.len() <= s.len() && s.subrange(0, p.len() as int) == p
}

/// A sequence ends with the given suffix.
pub open spec fn seq_ends_with(s: Seq<char>, p: Seq<char>) -> bool {
    p.len() <= s.len() && s.subrange(s.len() - p.len(), s.len() as int) == p
}

/// Index of the first occurrence of `c` in `s`, or -1 if `c` does not occur.
pub open spec fn find_char(s: Seq<char>, c: char) -> int
    decreases s.len(),
{
    if s.len() == 0 {
        -1
    } else if s[0] == c {
        0
    } else {
        let r = find_char(s.subrange(1, s.len() as int), c);
        if r < 0 {
            -1
        } else {
            r + 1
        }
    }
}

/// Number of occurrences of `c` in `s`.
pub open spec fn count_char_spec(s: Seq<char>, c: char) -> nat
    decreases s.len(),
{
    if s.len() == 0 {
        0
    } else {
        count_char_spec(s.drop_last(), c) + (if s.last() == c {
            1nat
        } else {
            0nat
        })
    }
}

/// The first occurrence pins down `find_char`.
pub proof fn lemma_find_char_at(s: Seq<char>, c: char, i: int)
    requires
        0 <= i < s.len(),
        s[i] == c,
        forall|j: int| 0 <= j < i ==> s[j] != c,
    ensures
        find_char(s, c) == i,
    decreases s.len(),
{
    if i == 0 {
    } else {
        lemma_find_char_at(s.subrange(1, s.len() as int), c, i - 1);
    }
}

/// If `c` occurs nowhere in `s`, `find_char` reports -1.
pub proof fn lemma_find_char_none(s: Seq<char>, c: char)
    requires
        forall|j: int| 0 <= j < s.len() ==> s[j] != c,
    ensures
        find_char(s, c) == -1,
    decreases s.len(),
{
    if s.len() > 0 {
        lemma_find_char_none(s.subrange(1, s.len() as int), c);
    }
}

/// `find_char` returns either -1 with no occurrence, or the first occurrence.
pub proof fn lemma_find_char_props(s: Seq<char>, c: char)
    ensures
        find_char(s, c) == -1 ==> forall|j: int| 0 <= j < s.len() ==> s[j] != c,
        find_char(s, c) >= 0 ==> {
            &&& find_char(s, c) < s.len()
            &&& s[find_char(s, c)] == c
            &&& forall|j: int| 0 <= j < find_char(s, c) ==> s[j] != c
        },
    decreases s.len(),
{
    if s.len() > 0 && s[0] != c {
        lemma_find_char_props(s.subrange(1, s.len() as int), c);
        let sub = s.subrange(1, s.len() as int);
        if find_char(sub, c) >= 0 {
            assert forall|j: int| 0 <= j < find_char(s, c) implies s[j] != c by {
                if j > 0 {
                    assert(sub[j - 1] != c);
                }
            }
        } else {
            assert forall|j: int| 0 <= j < s.len() implies s[j] != c by {
                if j > 0 {
                    assert(sub[j - 1] != c);
                }
            }
        }
    }
}

/// Counting over a prefix extends one character at a time.
pub proof fn lemma_count_char_step(s: Seq<char>, c: char, i: int)
    requires
        0 <= i < s.len(),
    ensures
        count_char_spec(s.subrange(0, i + 1), c) == count_char_spec(s.subrange(0, i), c) + (
        if s[i] == c {
            1nat
        } else {
            0nat
        }),
{
    let pre = s.subrange(0, i + 1);
    assert(pre.drop_last() =~= s.subrange(0, i));
}

/// True exactly when the two string views are equal.
pub fn str_eq(a: &str, b: &str) -> (r: bool)
    ensures
        r == (a@ == b@),
{
    let alen = a.unicode_len();
    let blen = b.unicode_len();
    if alen != blen {
        return false;
    }
    let mut i: usize = 0;
    while i < alen
        invariant
            alen == a@.len(),
            blen == b@.len(),
            alen == blen,
            i <= alen,
            forall|j: int| 0 <= j < i ==> a@[j] == b@[j],
        decreases alen - i,
    {
        if a.get_char(i) != b.get_char(i) {
            return false;
        }
        i += 1;
    }
    proof {
        assert(a@ =~= b@);
    }
    true
}

/// True exactly when `s` starts with `p`.
pub fn str_starts_with(s: &str, p: &str) -> (r: bool)
    ensures
        r == seq_starts_with(s@, p@),
{
    let slen = s.unicode_len();
    let plen = p.unicode_len();
    if plen > slen {
        return false;
    }
    let mut i: usize = 0;
    while i < plen
        invariant
            slen == s@.len(),
            plen == p@.len(),
            plen <= slen,
            i <= plen,
            forall|j: int| 0 <= j < i ==> s@[j] == p@[j],
        decreases plen - i,
    {
        if s.get_char(i) != p.get_char(i) {
            proof {
                assert(s@.subrange(0, p@.len() as int)[i as int] != p@[i as int]);
            }
            return false;
        }
        i += 1;
    }
    proof {
        assert(s@.subrange(0, p@.len() as int) =~= p@);
    }
    true
}

/// True exactly when `s` ends with `p`.
pub fn str_ends_with(s: &str, p: &str) -> (r: bool)
    ensures
        r == seq_ends_with(s@, p@),
{
    let slen = s.unicode_len();
    let plen = p.unicode_len();
    if plen > slen {
        return false;
    }
    let off = slen - plen;
    let mut i: usize = 0;
    while i < plen
        invariant
            slen == s@.len(),
            plen == p@.len(),
            plen <= slen,
            off == slen - plen,
            i <= plen,
            forall|j: int| 0 <= j < i ==> s@[off + j] == p@[j],
        decreases plen - i,
    {
        if s.get_char(off + i) != p.get_char(i) {
            proof {
                assert(s@.subrange(s@.len() - p@.len(), s@.len() as int)[i as int] != p@[i as int]);
            }
            return false;
        }
        i += 1;
    }
    proof {
        assert(s@.subrange(s@.len() - p@.len(), s@.len() as int) =~= p@);
    }
    true
}

/// Position of the first occurrence of `c` in `s`, as `find_char` gives it.
pub fn str_find(s: &str, c: char) -> (r: Option<usize>)
    ensures
        match r {
            Some(i) => find_char(s@, c) == i as int,
            None => find_char(s@, c) == -1,
        },
{
    let len = s.unicode_len();
    let mut i: usize = 0;
    while i < len
        invariant
            len == s@.len(),
            i <= len,
            forall|j: int| 0 <= j < i ==> s@[j] != c,
        decreases len - i,
    {
        if s.get_char(i) == c {
            proof {
                lemma_find_char_at(s@, c, i as int);
            }
            return Some(i);
        }
        i += 1;
    }
    proof {
        lemma_find_char_none(s@, c);
    }
    None
}

/// True exactly when `c` occurs in `s`.
pub fn str_contains_char(s: &str, c: char) -> (r: bool)
    ensures
        r == s@.contains(c),
{
    match str_find(s, c) {
        Some(i) => {
            proof {
                lemma_find_char_props(s@, c);
            }
            true
        },
        None => {
            proof {
                lemma_find_char_props(s@, c);
                if s@.contains(c) {
                    let w = choose|j: int| 0 <= j < s@.len() && s@[j] == c;
                    assert(s@[w] != c);
                }
            }
            false
        },
    }
}

/// Number of occurrences of `c` in `s`.
pub fn str_count_char(s: &str, c: char) -> (r: usize)
    ensures
        r == count_char_spec(s@, c),
{
    let len = s.unicode_len();
    let mut i: usize = 0;
    let mut cnt: usize = 0;
    proof {
        assert(s@.subrange(0, 0) =~= Seq::<char>::empty());
    }
    while i < len
        invariant
            len == s@.len(),
            i <= len,
            cnt <= i,
            cnt == count_char_spec(s@.subrange(0, i as int), c),
        decreases len - i,
    {
        proof {
            lemma_count_char_step(s@, c, i as int);
        }
        if s.get_char(i) == c {
            cnt += 1;
        }
        i += 1;
    }
    proof {
        assert(s@.subrange(0, s@.len() as int) =~= s@);
    }
    cnt
}

} // verus!

verus! {

/// An ASCII whitespace character, the class the trimming helpers strip: the
/// whitespace set of the ASCII range (trimming differs from the full Unicode
/// set only on non-ASCII whitespace).
pub open spec fn is_space(c: char) -> bool {
    c == ' ' || c == '\t' || c == '\n' || c == '\r' || c == '\u{b}' || c == '\u{c}'
}

/// `s` with leading ASCII whitespace removed.
pub open spec fn trim_start_spec(s: Seq<char>) -> Seq<char>
    decreases s.len(),
{
    if s.len() > 0 && is_space(s[0]) {
        trim_start_spec(s.subrange(1, s.len() as int))
    } else {
        s
    }
}

/// `s` with trailing ASCII whitespace removed.
pub open spec fn trim_end_spec(s: Seq<char>) -> Seq<char>
    decreases s.len(),
{
    if s.len() > 0 && is_space(s.last()) {
        trim_end_spec(s.drop_last())
    } else {
        s
    }
}

/// `s` with leading and trailing ASCII whitespace removed.
pub open spec fn trim_spec(s: Seq<char>) -> Seq<char> {
    trim_end_spec(trim_start_spec(s))
}

proof fn lemma_trim_start_at(s: Seq<char>, a: int)
    requires
        0 <= a <= s.len(),
        forall|j: int| 0 <= j < a ==> is_space(s[j]),
        a < s.len() ==> !is_space(s[a]),
    ensures
        trim_start_spec(s) == s.subrange(a, s.len() as int),
    decreases a,
{
    if a == 0 {
        assert(s.subrange(0, s.len() as int) =~= s);
    } else {
        let sub = s.subrange(1, s.len() as int);
        lemma_trim_start_at(sub, a - 1);
        assert(sub.subrange(a - 1, sub.len() as int) =~= s.subrange(a, s.len() as int));
    }
}

proof fn lemma_trim_end_at(s: Seq<char>, b: int)
    requires
        0 <= b <= s.len(),
        forall|j: int| b <= j < s.len() ==> is_space(s[j]),
        b > 0 ==> !is_space(s[b - 1]),
    ensures
        trim_end_spec(s) == s.subrange(0, b),
    decreases s.len() - b,
{
    if b == s.len() {
        assert(s.subrange(0, s.len() as int) =~= s);
    } else {
        lemma_trim_end_at(s.drop_last(), b);
        assert(s.drop_last().subrange(0, b) =~= s.subrange(0, b));
    }
}

/// `s` with leading and trailing ASCII whitespace removed, as `trim_spec`.
pub fn trim(s: &str) -> (t: &str)
    ensures
        t@ == trim_spec(s@),
{
    let len = s.unicode_len();
    let mut a: usize = 0;
    while a < len && is_space_char(s.get_char(a))
        invariant
            len == s@.len(),
            a <= len,
            forall|j: int| 0 <= j < a ==> is_space(s@[j]),
        decreases len - a,
    {
        a += 1;
    }
    proof {
        lemma_trim_start_at(s@, a as int);
    }
    if a == len {
        let t = s.substring_char(a, len);
        proof {
            assert(trim_end_spec(Seq::<char>::empty()) =~= Seq::<char>::empty());
            assert(s@.subrange(a as int, len as int) =~= Seq::<char>::empty());
        }
        return t;
    }
    let mut b: usize = len;
    while b > a && is_space_char(s.get_char(b - 1))
        invariant
            len == s@.len(),
            a <= b <= len,
            a < len,
            !is_space(s@[a as int]),
            forall|j: int| b <= j < len ==> is_space(s@[j]),
        decreases b,
    {
        b -= 1;
    }
    let t = s.substring_char(a, b);
    proof {
        let mid = s@.subrange(a as int, len as int);
        lemma_trim_end_at(mid, b - a);
        assert(mid.subrange(0, b - a) =~= s@.subrange(a as int, b as int));
    }
    t
}

/// Executable test for `is_space`.
pub fn is_space_char(c: char) -> (r: bool)
    ensures
        r == is_space(c),
{
    c == ' ' || c == '\t' || c == '\n' || c == '\r' || c == '\u{b}' || c == '\u{c}'
}

/// The pieces of `s` between occurrences of the separator `c`, in order.
/// An empty sequence yields one empty piece, as `str::split` does.
pub open spec fn split_spec(s: Seq<char>, c: char) -> Seq<Seq<char>>
    decreases s.len(),
{
    let i = find_char(s, c);
    if 0 <= i < s.len() {
        seq![s.subrange(0, i)] + split_spec(s.subrange(i + 1, s.len() as int), c)
    } else {
        seq![s]
    }
}

/// `split_spec` always yields at least one piece.
pub proof fn lemma_split_nonempty(s: Seq<char>, c: char)
    ensures
        split_spec(s, c).len() >= 1,
    decreases s.len(),
{
    let i = find_char(s, c);
    if i >= 0 {
        lemma_find_char_props(s, c);
        lemma_split_nonempty(s.subrange(i + 1, s.len() as int), c);
    }
}

/// The pieces of `s` between occurrences of `c`, as `split_spec` lists them.
pub fn split_str<'a>(s: &'a str, c: char) -> (parts: Vec<&'a str>)
    ensures
        parts@.len() == split_spec(s@, c).len(),
        forall|i: int| 0 <= i < parts@.len() ==> parts@[i]@ == split_spec(s@, c)[i],
{
    let len = s.unicode_len();
    let mut parts: Vec<&str> = Vec::new();
    let mut p: usize = 0;
    let mut done = false;
    let ghost whole = split_spec(s@, c);
    proof {
        assert(s@.subrange(0, len as int) =~= s@);
        assert(parts@.map_values(|q: &str| q@) =~= Seq::<Seq<char>>::empty());
        assert(Seq::<Seq<char>>::empty() + split_spec(s@, c) =~= split_spec(s@, c));
    }
    while !done
        invariant
            len == s@.len(),
            p <= len,
            whole == split_spec(s@, c),
            !done ==> whole == parts@.map_values(|q: &str| q@) + split_spec(
                s@.subrange(p as int, len as int),
                c,
            ),
            done ==> whole == parts@.map_values(|q: &str| q@),
        decreases len - p + (if done { 0int } else { 1int }),
    {
        let rest = s.substring_char(p, len);
        let ghost restv = s@.subrange(p as int, len as int);
        match str_find(rest, c) {
            Some(i) => {
                proof {
                    lemma_find_char_props(restv, c);
                }
                let piece = s.substring_char(p, p + i);
                proof {
                    assert(restv.subrange(0, i as int) =~= s@.subrange(p as int, p + i));
                    assert(restv.subrange(i + 1, restv.len() as int) =~= s@.subrange(
                        p + i + 1,
                        len as int,
                    ));
                    assert(split_spec(restv, c) == seq![restv.subrange(0, i as int)]
                        + split_spec(restv.subrange(i + 1, restv.len() as int), c));
                    assert(parts@.push(piece).map_values(|q: &str| q@) =~= parts@.map_values(
                        |q: &str| q@,
                    ).push(piece@));
                    assert(parts@.map_values(|q: &str| q@) + split_spec(restv, c)
                        =~= parts@.map_values(|q: &str| q@).push(piece@) + split_spec(
                        s@.subrange(p + i + 1, len as int),
                        c,
                    ));
                }
                parts.push(piece);
                p = p + i + 1;
            },
            None => {
                proof {
                    assert(split_spec(restv, c) == seq![restv]);
                    assert(parts@.push(rest).map_values(|q: &str| q@) =~= parts@.map_values(
                        |q: &str| q@,
                    ).push(rest@));
                    assert(parts@.map_values(|q: &str| q@) + split_spec(restv, c)
                        =~= parts@.map_values(|q: &str| q@).push(rest@));
                }
                parts.push(rest);
                done = true;
            },
        }
    }
    parts
}

} // verus!

verus! {

/// An ASCII decimal digit.
pub open spec fn is_digit(c: char) -> bool {
    '0' <= c && c <= '9'
}

/// Numeric value of an ASCII digit.
pub open spec fn digit_val(c: char) -> nat {
    (c as nat - '0' as nat) as nat
}

/// All characters of `s` are ASCII digits.
pub open spec fn all_digits(s: Seq<char>) -> bool {
    forall|i: int| 0 <= i < s.len() ==> is_digit(s[i])
}

/// The base-ten value of a digit string.
pub open spec fn digits_val(s: Seq<char>) -> nat
    decreases s.len(),
{
    if s.len() == 0 {
        0
    } else {
        digits_val(s.drop_last()) * 10 + digit_val(s.last())
    }
}

/// The value of a non-empty all-digit string that fits in sixteen bits, and
/// nothing otherwise.
pub open spec fn parse_digits_spec(s: Seq<char>) -> Option<u16> {
    if s.len() > 0 && all_digits(s) && digits_val(s) <= 65535 {
        Some(digits_val(s) as u16)
    } else {
        None
    }
}

/// What parsing a decimal `u16` yields: an optional leading `+`, then a
/// non-empty digit string whose value fits in sixteen bits.
pub open spec fn parse_u16_spec(s: Seq<char>) -> Option<u16> {
    if s.len() > 0 && s[0] == '+' {
        parse_digits_spec(s.subrange(1, s.len() as int))
    } else {
        parse_digits_spec(s)
    }
}

proof fn lemma_digits_val_step(s: Seq<char>, i: int)
    requires
        0 <= i < s.len(),
    ensures
        digits_val(s.subrange(0, i + 1)) == digits_val(s.subrange(0, i)) * 10 + digit_val(s[i]),
{
    let pre = s.subrange(0, i + 1);
    assert(pre.drop_last() =~= s.subrange(0, i));
}

/// Decimal `u16` parsing, exactly `parse_u16_spec`.
pub fn parse_u16(s: &str) -> (r: Option<u16>)
    ensures
        r == parse_u16_spec(s@),
{
    let len = s.unicode_len();
    if len > 0 && s.get_char(0) == '+' {
        let digits = s.substring_char(1, len);
        proof {
            assert(digits@ =~= s@.subrange(1, s@.len() as int));
        }
        return parse_digits(digits);
    }
    parse_digits(s)
}

/// Parse a non-empty digit string, exactly `parse_digits_spec`.
fn parse_digits(s: &str) -> (r: Option<u16>)
    ensures
        r == parse_digits_spec(s@),
{
    let len = s.unicode_len();
    if len == 0 {
        return None;
    }
    let mut i: usize = 0;
    let mut acc: u32 = 0;
    proof {
        assert(s@.subrange(0, 0) =~= Seq::<char>::empty());
    }
    while i < len
        invariant
            len == s@.len(),
            i <= len,
            forall|j: int| 0 <= j < i ==> is_digit(s@[j]),
            digits_val(s@.subrange(0, i as int)) <= 65535 ==> acc == digits_val(
                s@.subrange(0, i as int),
            ),
            digits_val(s@.subrange(0, i as int)) > 65535 ==> acc > 65535,
            acc <= 655359,
        decreases len - i,
    {
        let c = s.get_char(i);
        if c < '0' || c > '9' {
            return None;
        }
        let d = (c as u32) - 48;
        proof {
            lemma_digits_val_step(s@, i as int);
        }
        if acc <= 65535 {
            acc = acc * 10 + d;
        } else {
            proof {
                assert(digits_val(s@.subrange(0, i as int)) * 10 + digit_val(s@[i as int])
                    > 65535) by (nonlinear_arith)
                    requires
                        digits_val(s@.subrange(0, i as int)) > 65535,
                ;
            }
        }
        i += 1;
    }
    proof {
        assert(s@.subrange(0, len as int) =~= s@);
    }
    if acc > 65535 {
        None
    } else {
        Some(acc as u16)
    }
}

/// ASCII lowercase folding of one character.
pub open spec fn lower_char(c: char) -> char {
    if 'A' <= c && c <= 'Z' {
        ((c as u8) + 32) as char
    } else {
        c
    }
}

/// ASCII lowercase folding of a character sequence.
pub open spec fn lower(s: Seq<char>) -> Seq<char> {
    s.map_values(|c: char| lower_char(c))
}

/// Executable ASCII lowercase folding of one character.
pub fn char_to_lower(c: char) -> (r: char)
    ensures
        r == lower_char(c),
{
    if c >= 'A' && c <= 'Z' {
        ((c as u8) + 32) as char
    } else {
        c
    }
}

/// True exactly when the ASCII lowercase foldings of the views are equal.
pub fn eq_ignore_ascii_case(s: &str, t: &str) -> (r: bool)
    ensures
        r == (lower(s@) == lower(t@)),
{
    let slen = s.unicode_len();
    let tlen = t.unicode_len();
    if slen != tlen {
        proof {
            assert(lower(s@).len() == s@.len());
            assert(lower(t@).len() == t@.len());
        }
        return false;
    }
    let mut i: usize = 0;
    while i < slen
        invariant
            slen == s@.len(),
            tlen == t@.len(),
            slen == tlen,
            i <= slen,
            forall|j: int| 0 <= j < i ==> lower_char(s@[j]) == lower_char(t@[j]),
        decreases slen - i,
    {
        if char_to_lower(s.get_char(i)) != char_to_lower(t.get_char(i)) {
            proof {
                assert(lower(s@)[i as int] != lower(t@)[i as int]);
            }
            return false;
        }
        i += 1;
    }
    proof {
        assert(lower(s@) =~= lower(t@));
    }
    true
}

} // verus!
