//! Character-level string utilities: comparison, prefix and suffix
//! handling, searching, splitting, and decimal parsing.  Everything the
//! rest of the library needs to take strings apart is proved here once.

use vstd::prelude::*;
use vstd::string::*;

verus! {

/// Compares two string slices character by character.
pub fn str_eq(a: &str, b: &str) -> (r: bool)
    ensures
        r == (a@ == b@),
{
    let alen = a.unicode_len();
    let blen = b.unicode_len();
    if alen != blen {
        assert(a@ != b@) by {
            assert(a@.len() != b@.len());
        }
        return false;
    }
    let mut i: usize = 0;
    while i < alen
        invariant
            alen == a@.len(),
            alen == b@.len(),
            i <= alen,
            forall|j: int| 0 <= j < i ==> a@[j] == b@[j],
        decreases alen - i,
    {
        if a.get_char(i) != b.get_char(i) {
            return false;
        }
        i += 1;
    }
    assert(a@ =~= b@);
    true
}

/// True when `p` is a prefix of `s`.
pub fn starts_with(s: &str, p: &str) -> (r: bool)
    ensures
        r == p@.is_prefix_of(s@),
{
    let slen = s.unicode_len();
    let plen = p.unicode_len();
    if plen > slen {
        return false;
    }
    let head = s.substring_char(0, plen);
    assert(head@ =~= s@.take(plen as int));
    str_eq(head, p)
}

/// True when `p` is a suffix of `s`.
pub fn ends_with(s: &str, p: &str) -> (r: bool)
    ensures
        r == p@.is_suffix_of(s@),
{
    let slen = s.unicode_len();
    let plen = p.unicode_len();
    if plen > slen {
        return false;
    }
    let tail = s.substring_char(slen - plen, slen);
    assert(tail@ =~= s@.skip(slen - plen));
    str_eq(tail, p)
}

/// Removes a prefix: `Some(rest)` with `p + rest == s` exactly when `p`
/// is a prefix of `s`.
pub fn strip_prefix_str(s: &str, p: &str) -> (r: Option<String>)
    ensures
        p@.is_prefix_of(s@) ==> (r matches Some(rest) && s@ == p@ + rest@),
        !p@.is_prefix_of(s@) ==> r is None,
{
    if starts_with(s, p) {
        let rest = s.substring_char(p.unicode_len(), s.unicode_len());
        assert(s@ =~= p@ + rest@);
        Some(rest.to_owned())
    } else {
        None
    }
}

/// Removes a suffix: `Some(head)` with `head + p == s` exactly when `p`
/// is a suffix of `s`.
pub fn strip_suffix_str(s: &str, p: &str) -> (r: Option<String>)
    ensures
        p@.is_suffix_of(s@) ==> (r matches Some(head) && s@ == head@ + p@),
        !p@.is_suffix_of(s@) ==> r is None,
{
    if ends_with(s, p) {
        let head = s.substring_char(0, s.unicode_len() - p.unicode_len());
        assert(s@ =~= head@ + p@);
        Some(head.to_owned())
    } else {
        None
    }
}

/// Concatenates two string slices.
pub fn concat_str(a: &str, b: &str) -> (r: String)
    ensures
        r@ == a@ + b@,
{
    a.to_owned().concat(b)
}

/// The least index at which `c` occurs in `s`, if any.
pub open spec fn spec_find_char(s: Seq<char>, c: char) -> Option<int>
    decreases s.len(),
{
    if s.len() == 0 {
        None
    } else if s[0] == c {
        Some(0)
    } else {
        match spec_find_char(s.skip(1), c) {
            Some(i) => Some(i + 1),
            None => None,
        }
    }
}

/// `spec_find_char` finds exactly the first occurrence: a hit is in range,
/// holds `c`, and nothing before it does; a miss means `c` never occurs.
pub proof fn lemma_find_char(s: Seq<char>, c: char)
    ensures
        spec_find_char(s, c) matches Some(i) ==> 0 <= i < s.len() && s[i] == c && forall|j: int|
            0 <= j < i ==> s[j] != c,
        spec_find_char(s, c) is None ==> forall|j: int| 0 <= j < s.len() ==> s[j] != c,
    decreases s.len(),
{
    if s.len() > 0 && s[0] != c {
        lemma_find_char(s.skip(1), c);
        assert forall|j: int| 0 <= j < s.len() && s[j] == c implies spec_find_char(
            s,
            c,
        ) matches Some(i) && j >= i by {
            assert(s.skip(1)[j - 1] == s[j]);
        }
    }
}

/// The greatest index at which `c` occurs in `s`, if any.
pub open spec fn spec_rfind_char(s: Seq<char>, c: char) -> Option<int>
    decreases s.len(),
{
    if s.len() == 0 {
        None
    } else if s[s.len() - 1] == c {
        Some(s.len() - 1)
    } else {
        spec_rfind_char(s.take(s.len() - 1), c)
    }
}

/// `spec_rfind_char` finds exactly the last occurrence.
pub proof fn lemma_rfind_char(s: Seq<char>, c: char)
    ensures
        spec_rfind_char(s, c) matches Some(i) ==> 0 <= i < s.len() && s[i] == c && forall|j: int|
            i < j < s.len() ==> s[j] != c,
        spec_rfind_char(s, c) is None ==> forall|j: int| 0 <= j < s.len() ==> s[j] != c,
    decreases s.len(),
{
    if s.len() > 0 && s[s.len() - 1] != c {
        lemma_rfind_char(s.take(s.len() - 1), c);
        assert(forall|j: int| 0 <= j < s.len() - 1 ==> s.take(s.len() - 1)[j] == s[j]);
    }
}

/// Finds the first occurrence of `c` in `s`.
pub fn find_char(s: &str, c: char) -> (r: Option<usize>)
    ensures
        r matches Some(i) ==> spec_find_char(s@, c) == Some(i as int),
        r is None ==> spec_find_char(s@, c) is None,
{
    proof {
        lemma_find_char(s@, c);
    }
    let len = s.unicode_len();
    let mut i: usize = 0;
    while i < len
        invariant
            len == s@.len(),
            i <= len,
            forall|j: int| 0 <= j < i ==> s@[j] != c,
        decreases len - i,
    {
        if s.get_char(i) == c {
            proof {
                lemma_find_char(s@, c);
                if spec_find_char(s@, c) is None {
                    assert(false);
                }
                let fi = spec_find_char(s@, c)->Some_0;
                assert(s@[fi] == c);
                assert(fi == i);
            }
            return Some(i);
        }
        i += 1;
    }
    proof {
        lemma_find_char(s@, c);
        if spec_find_char(s@, c) is Some {
            assert(s@[spec_find_char(s@, c)->Some_0] == c);
            assert(false);
        }
    }
    None
}

/// Finds the last occurrence of `c` in `s`.
pub fn rfind_char(s: &str, c: char) -> (r: Option<usize>)
    ensures
        r matches Some(i) ==> spec_rfind_char(s@, c) == Some(i as int),
        r is None ==> spec_rfind_char(s@, c) is None,
{
    proof {
        lemma_rfind_char(s@, c);
    }
    let len = s.unicode_len();
    let mut i: usize = len;
    while i > 0
        invariant
            len == s@.len(),
            i <= len,
            forall|j: int| i <= j < len ==> s@[j] != c,
        decreases i,
    {
        i -= 1;
        if s.get_char(i) == c {
            proof {
                lemma_rfind_char(s@, c);
                if spec_rfind_char(s@, c) is None {
                    assert(false);
                }
                let fi = spec_rfind_char(s@, c)->Some_0;
                assert(s@[fi] == c);
                assert(fi == i);
            }
            return Some(i);
        }
    }
    proof {
        lemma_rfind_char(s@, c);
        if spec_rfind_char(s@, c) is Some {
            assert(s@[spec_rfind_char(s@, c)->Some_0] == c);
            assert(false);
        }
    }
    None
}

/// The pieces of `s` between occurrences of `c`: always at least one
/// piece, one more piece per occurrence, separators dropped.
pub open spec fn spec_split(s: Seq<char>, c: char) -> Seq<Seq<char>>
    decreases s.len(),
{
    match spec_find_char(s, c) {
        Some(i) => if 0 <= i < s.len() {
            seq![s.take(i)] + spec_split(s.skip(i + 1), c)
        } else {
            seq![s]
        },
        None => seq![s],
    }
}

/// Splits `s` at every occurrence of `c`.
pub fn split_char(s: &str, c: char) -> (r: Vec<String>)
    ensures
        r.deep_view() == spec_split(s@, c),
        r@.len() >= 1,
    decreases s@.len(),
{
    proof {
        lemma_find_char(s@, c);
    }
    match find_char(s, c) {
        None => {
            let mut v: Vec<String> = Vec::new();
            v.push(s.to_owned());
            assert(v.deep_view() =~= spec_split(s@, c));
            v
        },
        Some(i) => {
            proof {
                lemma_find_char(s@, c);
            }
            let len = s.unicode_len();
            let head = s.substring_char(0, i);
            let tail = s.substring_char(i + 1, len);
            assert(tail@ =~= s@.skip(i + 1));
            assert(head@ =~= s@.take(i as int));
            let mut rest = split_char(tail, c);
            rest.insert(0, head.to_owned());
            assert(rest.deep_view() =~= spec_split(s@, c));
            rest
        },
    }
}

/// True of a decimal digit.
pub open spec fn is_digit(c: char) -> bool {
    '0' <= c && c <= '9'
}

/// The numeric value of a digit.
pub open spec fn digit_val(c: char) -> int {
    c as int - '0' as int
}

/// True when `s` is all decimal digits.
pub open spec fn all_digits(s: Seq<char>) -> bool {
    forall|i: int| 0 <= i < s.len() ==> is_digit(#[trigger] s[i])
}

/// The number a digit string denotes, most significant digit first.
pub open spec fn digits_val(s: Seq<char>) -> int
    decreases s.len(),
{
    if s.len() == 0 {
        0
    } else {
        digits_val(s.take(s.len() - 1)) * 10 + digit_val(s[s.len() - 1])
    }
}

/// A digit string denotes a number that never shrinks as digits are
/// appended: every prefix denotes at most as much.
pub proof fn lemma_digits_val_monotone(s: Seq<char>, i: int)
    requires
        all_digits(s),
        0 <= i <= s.len(),
    ensures
        0 <= digits_val(s.take(i)) <= digits_val(s),
    decreases s.len() - i,
{
    if i == s.len() {
        assert(s.take(i) =~= s);
        lemma_digits_val_nonneg(s);
    } else {
        lemma_digits_val_monotone(s, i + 1);
        lemma_digits_val_nonneg(s.take(i));
        assert(s.take(i + 1).take(i) =~= s.take(i));
        assert(digits_val(s.take(i + 1)) == digits_val(s.take(i)) * 10 + digit_val(s.take(i + 1)[i]));
        assert(is_digit(s[i]));
    }
}

/// A digit string denotes a nonnegative number.
pub proof fn lemma_digits_val_nonneg(s: Seq<char>)
    requires
        all_digits(s),
    ensures
        digits_val(s) >= 0,
    decreases s.len(),
{
    if s.len() > 0 {
        assert(all_digits(s.take(s.len() - 1))) by {
            assert(forall|i: int| 0 <= i < s.len() - 1 ==> s.take(s.len() - 1)[i] == s[i]);
        }
        lemma_digits_val_nonneg(s.take(s.len() - 1));
        assert(is_digit(s[s.len() - 1]));
    }
}

/// Parses a decimal port number: `Some` exactly when `s` is a nonempty
/// digit string denoting at most 65535.
pub fn parse_port(s: &str) -> (r: Option<u16>)
    ensures
        r matches Some(p) ==> s@.len() > 0 && all_digits(s@) && digits_val(s@) == p as int,
        r is None ==> !(s@.len() > 0 && all_digits(s@) && digits_val(s@) <= 65535),
{
    let len = s.unicode_len();
    if len == 0 {
        return None;
    }
    let mut val: u32 = 0;
    let mut i: usize = 0;
    while i < len
        invariant
            len == s@.len(),
            i <= len,
            forall|j: int| 0 <= j < i ==> is_digit(#[trigger] s@[j]),
            val == digits_val(s@.take(i as int)),
            val <= 65535,
        decreases len - i,
    {
        let c = s.get_char(i);
        if c < '0' || c > '9' {
            assert(!all_digits(s@));
            return None;
        }
        let d: u32 = (c as u32) - ('0' as u32);
        assert(d == digit_val(c));
        let next: u32 = val * 10 + d;
        proof {
            assert(s@.take(i + 1).take(i as int) =~= s@.take(i as int));
            assert(s@.take(i + 1)[i as int] == s@[i as int]);
        }
        if next > 65535 {
            proof {
                if all_digits(s@) {
                    lemma_digits_val_monotone(s@, i + 1);
                }
            }
            return None;
        }
        val = next;
        i += 1;
    }
    assert(s@.take(len as int) =~= s@);
    Some(val as u16)
}

/// True of a hexadecimal digit.
pub open spec fn is_hex_digit(c: char) -> bool {
    is_digit(c) || ('a' <= c && c <= 'f') || ('A' <= c && c <= 'F')
}

/// Tests a character for being a hexadecimal digit.
pub fn hex_digit(c: char) -> (r: bool)
    ensures
        r == is_hex_digit(c),
{
    (c >= '0' && c <= '9') || (c >= 'a' && c <= 'f') || (c >= 'A' && c <= 'F')
}

} // verus!
