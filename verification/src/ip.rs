//! Recognition of literal IP addresses in request hosts.
//!
//! The network mediator treats a host that is a literal IPv4 or IPv6
//! address differently from a DNS name, so the two grammars are pinned
//! down here: dotted-decimal IPv4 with no leading zeros, and IPv6 as
//! colon-separated 16-bit hexadecimal groups, with at most one `::`
//! abbreviation and an optional trailing dotted-decimal tail.

use vstd::prelude::*;
use vstd::string::*;
use crate::text::{
    all_digits, digits_val, is_digit, is_hex_digit, hex_digit, parse_port, spec_split, split_char,
};

verus! {

/// One dotted-decimal component: one to three digits, value at most 255,
/// no leading zero.
pub open spec fn is_dec_octet(s: Seq<char>) -> bool {
    &&& 1 <= s.len() <= 3
    &&& all_digits(s)
    &&& digits_val(s) <= 255
    &&& (s.len() > 1 ==> s[0] != '0')
}

/// A literal IPv4 address: four dot-separated decimal octets.
pub open spec fn is_ipv4_literal(s: Seq<char>) -> bool {
    let parts = spec_split(s, '.');
    parts.len() == 4 && (forall|i: int| 0 <= i < 4 ==> is_dec_octet(#[trigger] parts[i]))
}

/// One IPv6 group: one to four hexadecimal digits.
pub open spec fn is_h16(s: Seq<char>) -> bool {
    1 <= s.len() <= 4 && (forall|i: int| 0 <= i < s.len() ==> is_hex_digit(#[trigger] s[i]))
}

/// All parts in `[lo, hi)` are nonempty.
pub open spec fn nonempty_range(parts: Seq<Seq<char>>, lo: int, hi: int) -> bool {
    forall|i: int| lo <= i < hi ==> (#[trigger] parts[i]).len() > 0
}

/// All parts in `[lo, hi)` are 16-bit groups.
pub open spec fn h16_run(parts: Seq<Seq<char>>, lo: int, hi: int) -> bool {
    forall|i: int| lo <= i < hi ==> is_h16(#[trigger] parts[i])
}

/// The parts in `[lo, hi)` form a valid address tail: 16-bit groups, the
/// last of which may instead be a dotted-decimal IPv4 tail.
pub open spec fn tail_ok(parts: Seq<Seq<char>>, lo: int, hi: int) -> bool {
    hi > lo ==> (h16_run(parts, lo, hi - 1) && (is_h16(parts[hi - 1]) || is_ipv4_literal(
        parts[hi - 1],
    )))
}

/// How many 16-bit groups the tail `[lo, hi)` stands for: an IPv4 tail
/// counts for two.
pub open spec fn tail_weight(parts: Seq<Seq<char>>, lo: int, hi: int) -> int {
    (hi - lo) + if hi > lo && !is_h16(parts[hi - 1]) && is_ipv4_literal(parts[hi - 1]) {
        1int
    } else {
        0int
    }
}

/// A literal IPv6 address, over its colon-split parts: either the full
/// eight groups (the last two possibly written as an IPv4 tail), or a
/// single `::` abbreviation — leading, trailing, in the middle, or alone —
/// with few enough groups shown that the abbreviation stands for at least
/// one.
pub open spec fn is_ipv6_literal(s: Seq<char>) -> bool {
    let parts = spec_split(s, ':');
    let n = parts.len() as int;
    ||| (n == 8 && nonempty_range(parts, 0, 8) && h16_run(parts, 0, 8))
    ||| (n == 7 && nonempty_range(parts, 0, 7) && h16_run(parts, 0, 6) && is_ipv4_literal(
        parts[6],
    ))
    ||| (n == 3 && parts[0].len() == 0 && parts[1].len() == 0 && parts[2].len() == 0)
    ||| (n >= 3 && parts[0].len() == 0 && parts[1].len() == 0 && nonempty_range(parts, 2, n)
        && tail_ok(parts, 2, n) && tail_weight(parts, 2, n) <= 7)
    ||| (n >= 3 && parts[n - 1].len() == 0 && parts[n - 2].len() == 0 && nonempty_range(
        parts,
        0,
        n - 2,
    ) && h16_run(parts, 0, n - 2) && n - 2 <= 7)
    ||| (exists|k: int|
        1 <= k <= n - 2 && parts[k].len() == 0 && nonempty_range(parts, 0, k) && nonempty_range(
            parts,
            k + 1,
            n,
        ) && h16_run(parts, 0, k) && tail_ok(parts, k + 1, n) && k + tail_weight(parts, k + 1, n)
            <= 7)
}

/// A digit string of at most three digits denotes at most 999.
proof fn lemma_digits_val_small(s: Seq<char>)
    requires
        all_digits(s),
        s.len() <= 3,
    ensures
        s.len() <= 1 ==> digits_val(s) <= 9,
        s.len() <= 2 ==> digits_val(s) <= 99,
        digits_val(s) <= 999,
    decreases s.len(),
{
    if s.len() > 0 {
        assert(all_digits(s.take(s.len() - 1))) by {
            assert(forall|i: int| 0 <= i < s.len() - 1 ==> s.take(s.len() - 1)[i] == s[i]);
        }
        lemma_digits_val_small(s.take(s.len() - 1));
        crate::text::lemma_digits_val_nonneg(s.take(s.len() - 1));
        assert(is_digit(s[s.len() - 1]));
    }
}

/// Tests one dotted-decimal component.
pub fn dec_octet(s: &str) -> (r: bool)
    ensures
        r == is_dec_octet(s@),
{
    let len = s.unicode_len();
    if len == 0 || len > 3 {
        return false;
    }
    if len > 1 && s.get_char(0) == '0' {
        return false;
    }
    match parse_port(s) {
        Some(v) => v <= 255,
        None => {
            proof {
                if all_digits(s@) {
                    lemma_digits_val_small(s@);
                }
            }
            false
        },
    }
}

/// Tests whether a host is a literal IPv4 address.
pub fn is_ipv4(host: &str) -> (r: bool)
    ensures
        r == is_ipv4_literal(host@),
{
    let parts = split_char(host, '.');
    let n = parts.len();
    proof {
        assert(parts.deep_view().len() == n as int);
    }
    if n != 4 {
        return false;
    }
    let mut i: usize = 0;
    while i < 4
        invariant
            parts.deep_view() == spec_split(host@, '.'),
            parts@.len() == 4,
            i <= 4,
            forall|j: int| 0 <= j < i ==> is_dec_octet(#[trigger] parts.deep_view()[j]),
        decreases 4 - i,
    {
        assert(parts.deep_view()[i as int] == parts@[i as int]@);
        if !dec_octet(parts[i].as_str()) {
            return false;
        }
        i += 1;
    }
    true
}

/// Tests one 16-bit hexadecimal group.
pub fn h16_part(s: &str) -> (r: bool)
    ensures
        r == is_h16(s@),
{
    let len = s.unicode_len();
    if len == 0 || len > 4 {
        return false;
    }
    let mut i: usize = 0;
    while i < len
        invariant
            len == s@.len(),
            i <= len,
            forall|j: int| 0 <= j < i ==> is_hex_digit(#[trigger] s@[j]),
        decreases len - i,
    {
        if !hex_digit(s.get_char(i)) {
            return false;
        }
        i += 1;
    }
    true
}

/// Tests that every part in `[lo, hi)` is nonempty.
fn check_nonempty(parts: &Vec<String>, lo: usize, hi: usize) -> (r: bool)
    requires
        lo <= hi <= parts@.len(),
    ensures
        r == nonempty_range(parts.deep_view(), lo as int, hi as int),
{
    let mut i: usize = lo;
    while i < hi
        invariant
            lo <= i <= hi <= parts@.len(),
            forall|j: int| lo <= j < i ==> (#[trigger] parts.deep_view()[j]).len() > 0,
        decreases hi - i,
    {
        assert(parts.deep_view()[i as int] == parts@[i as int]@);
        if parts[i].as_str().unicode_len() == 0 {
            return false;
        }
        i += 1;
    }
    true
}

/// Tests that every part in `[lo, hi)` is a 16-bit group.
fn check_h16_run(parts: &Vec<String>, lo: usize, hi: usize) -> (r: bool)
    requires
        lo <= hi <= parts@.len(),
    ensures
        r == h16_run(parts.deep_view(), lo as int, hi as int),
{
    let mut i: usize = lo;
    while i < hi
        invariant
            lo <= i <= hi <= parts@.len(),
            forall|j: int| lo <= j < i ==> is_h16(#[trigger] parts.deep_view()[j]),
        decreases hi - i,
    {
        assert(parts.deep_view()[i as int] == parts@[i as int]@);
        if !h16_part(parts[i].as_str()) {
            return false;
        }
        i += 1;
    }
    true
}

/// Tests a tail of groups, the last of which may be an IPv4 tail, and
/// that its weight stays within `budget` groups.
fn check_tail(parts: &Vec<String>, lo: usize, budget: usize) -> (r: bool)
    requires
        lo <= parts@.len(),
        budget <= 7,
    ensures
        r == (tail_ok(parts.deep_view(), lo as int, parts@.len() as int) && tail_weight(
            parts.deep_view(),
            lo as int,
            parts@.len() as int,
        ) <= budget as int),
{
    let n = parts.len();
    if n == lo {
        return true;
    }
    if n - lo > budget {
        return false;
    }
    assert(parts.deep_view()[n - 1] == parts@[n - 1]@);
    if !check_h16_run(parts, lo, n - 1) {
        return false;
    }
    let last_h16 = h16_part(parts[n - 1].as_str());
    let last_v4 = is_ipv4(parts[n - 1].as_str());
    if !last_h16 && !last_v4 {
        return false;
    }
    let weight: usize = if !last_h16 && last_v4 {
        n - lo + 1
    } else {
        n - lo
    };
    weight <= budget
}

/// Tests whether a host is a literal IPv6 address.
pub fn is_ipv6(host: &str) -> (r: bool)
    ensures
        r == is_ipv6_literal(host@),
{
    let parts = split_char(host, ':');
    let n = parts.len();
    let ghost pv = parts.deep_view();
    assert(pv.len() == n as int);
    // Full form: eight groups, or six groups and an IPv4 tail.
    if n == 8 {
        assert(pv[7] == parts@[7]@);
        if check_nonempty(&parts, 0, 8) && check_h16_run(&parts, 0, 8) {
            return true;
        }
    }
    if n == 7 {
        assert(pv[6] == parts@[6]@);
        if check_nonempty(&parts, 0, 7) && check_h16_run(&parts, 0, 6) && is_ipv4(
            parts[6].as_str(),
        ) {
            return true;
        }
    }
    if n < 3 {
        assert(!is_ipv6_literal(host@));
        return false;
    }
    // The bare `::`.
    assert(pv[0] == parts@[0]@);
    assert(pv[1] == parts@[1]@);
    assert(pv[2] == parts@[2]@);
    assert(pv[n - 1] == parts@[n - 1]@);
    assert(pv[n - 2] == parts@[n - 2]@);
    let e0 = parts[0].as_str().unicode_len() == 0;
    let e1 = parts[1].as_str().unicode_len() == 0;
    let elast = parts[n - 1].as_str().unicode_len() == 0;
    let eprev = parts[n - 2].as_str().unicode_len() == 0;
    if n == 3 && e0 && e1 && parts[2].as_str().unicode_len() == 0 {
        return true;
    }
    // Leading `::`.
    if e0 && e1 && check_nonempty(&parts, 2, n) && check_tail(&parts, 2, 7) {
        return true;
    }
    // Trailing `::`.
    if elast && eprev && n - 2 <= 7 && check_nonempty(&parts, 0, n - 2) && check_h16_run(
        &parts,
        0,
        n - 2,
    ) {
        return true;
    }
    // A `::` in the middle: try each possible position.
    let mut k: usize = 1;
    while k + 1 < n
        invariant
            pv == parts.deep_view(),
            pv == spec_split(host@, ':'),
            n == parts@.len(),
            1 <= k < n,
            forall|k2: int|
                1 <= k2 < k ==> !((#[trigger] pv[k2]).len() == 0 && nonempty_range(pv, 0, k2)
                    && nonempty_range(pv, k2 + 1, n as int) && h16_run(pv, 0, k2) && tail_ok(
                    pv,
                    k2 + 1,
                    n as int,
                ) && k2 + tail_weight(pv, k2 + 1, n as int) <= 7),
        decreases n - k,
    {
        assert(pv[k as int] == parts@[k as int]@);
        if parts[k].as_str().unicode_len() == 0 && check_nonempty(&parts, 0, k) && check_nonempty(
            &parts,
            k + 1,
            n,
        ) && check_h16_run(&parts, 0, k) && (k <= 7 && check_tail(&parts, k + 1, 7 - k)) {
            return true;
        }
        k += 1;
    }
    assert(!is_ipv6_literal(host@));
    false
}

} // verus!
