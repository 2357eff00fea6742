//! The syntax of binding addresses.
//!
//! A binding identifier for the local-bind strategy must be a textual IP
//! address: a dotted quad of decimal octets, or an IPv6 address of
//! colon-separated hexadecimal groups with at most one `::` compression and
//! an optional embedded dotted quad in the final position. The grammar is
//! stated over the identifier's bytes; `is_valid_ip` decides it exactly.

use vstd::prelude::*;
use vstd::slice::slice_subrange;
use vstd::string::StringSliceAdditionalSpecFns;

verus! {

/// The byte `.` (ASCII 46).
pub const DOT: u8 = 46;

/// The byte `:` (ASCII 58).
pub const COLON: u8 = 58;

/// A decimal digit `0`..`9` (ASCII 48..57).
pub open spec fn is_digit(b: u8) -> bool {
    48 <= b <= 57
}

/// A hexadecimal digit: decimal, `a`..`f` (97..102) or `A`..`F` (65..70).
pub open spec fn is_hex_digit(b: u8) -> bool {
    is_digit(b) || 97 <= b <= 102 || 65 <= b <= 70
}

/// The number a string of decimal digits denotes.
pub open spec fn dec_value(s: Seq<u8>) -> int
    decreases s.len(),
{
    if s.len() == 0 {
        0
    } else {
        dec_value(s.drop_last()) * 10 + (s.last() - 48)
    }
}

/// One decimal octet of a dotted quad: one to three digits, no leading
/// zero, value at most 255.
pub open spec fn is_octet(s: Seq<u8>) -> bool {
    &&& 1 <= s.len() <= 3
    &&& forall|i: int| 0 <= i < s.len() ==> is_digit(#[trigger] s[i])
    &&& s.len() > 1 ==> s[0] != 48
    &&& dec_value(s) <= 255
}

/// One hexadecimal group of an IPv6 address: one to four hex digits.
pub open spec fn is_h16(s: Seq<u8>) -> bool {
    1 <= s.len() <= 4 && forall|i: int| 0 <= i < s.len() ==> is_hex_digit(#[trigger] s[i])
}

/// The position of the first occurrence of `target` in `s`, or -1.
pub open spec fn first_at(s: Seq<u8>, target: u8) -> int
    decreases s.len(),
{
    if s.len() == 0 {
        -1
    } else if s[0] == target {
        0
    } else {
        let r = first_at(s.drop_first(), target);
        if r == -1 {
            -1
        } else {
            r + 1
        }
    }
}

/// The position of the first `::` in `s`, or -1.
pub open spec fn first_dcolon(s: Seq<u8>) -> int
    decreases s.len(),
{
    if s.len() < 2 {
        -1
    } else if s[0] == COLON && s[1] == COLON {
        0
    } else {
        let r = first_dcolon(s.drop_first());
        if r == -1 {
            -1
        } else {
            r + 1
        }
    }
}

/// How many octets `s` holds as a dot-separated list, or `None` when it is
/// not one: every piece must be a decimal octet and none may be empty.
pub open spec fn dotted_quads(s: Seq<u8>) -> Option<int>
    decreases s.len(),
{
    if s.len() == 0 {
        None
    } else {
        let c = first_at(s, DOT);
        if !(0 <= c < s.len()) {
            if is_octet(s) {
                Some(1)
            } else {
                None
            }
        } else {
            if is_octet(s.subrange(0, c)) {
                match dotted_quads(s.subrange(c + 1, s.len() as int)) {
                    Some(n) => Some(n + 1),
                    None => None,
                }
            } else {
                None
            }
        }
    }
}

/// A textual IPv4 address: exactly four dot-separated decimal octets.
pub open spec fn is_ipv4(s: Seq<u8>) -> bool {
    dotted_quads(s) == Some(4int)
}

/// How many 16-bit slots `s` fills as a colon-separated list of groups
/// without `::`, or `None` when it is not one. Each piece must be a hex
/// group; when `allow4` holds, the final piece may instead be an embedded
/// dotted quad, which fills two slots.
pub open spec fn colon_pieces(s: Seq<u8>, allow4: bool) -> Option<int>
    decreases s.len(),
{
    if s.len() == 0 {
        None
    } else {
        let c = first_at(s, COLON);
        if !(0 <= c < s.len()) {
            if is_h16(s) {
                Some(1)
            } else if allow4 && is_ipv4(s) {
                Some(2)
            } else {
                None
            }
        } else {
            if is_h16(s.subrange(0, c)) {
                match colon_pieces(s.subrange(c + 1, s.len() as int), allow4) {
                    Some(n) => Some(n + 1),
                    None => None,
                }
            } else {
                None
            }
        }
    }
}

/// A textual IPv6 address. Without `::` it is exactly eight slots of
/// groups, the last possibly an embedded dotted quad. With one `::` — which
/// stands for at least one zero group — the groups before it (none of them
/// a quad) and after it together fill at most seven slots; everything
/// around the `::` must still be a well-formed group list, so a second `::`
/// is rejected as an empty group.
pub open spec fn is_ipv6(s: Seq<u8>) -> bool {
    let d = first_dcolon(s);
    if !(0 <= d && d + 2 <= s.len()) {
        colon_pieces(s, true) == Some(8int)
    } else {
        let left = s.subrange(0, d);
        let right = s.subrange(d + 2, s.len() as int);
        let ln = if left.len() == 0 {
            Some(0int)
        } else {
            colon_pieces(left, false)
        };
        let rn = if right.len() == 0 {
            Some(0int)
        } else {
            colon_pieces(right, true)
        };
        ln is Some && rn is Some && ln->0 + rn->0 <= 7
    }
}

/// A syntactically valid IP address: IPv4 or IPv6.
pub open spec fn is_ip_text(s: Seq<u8>) -> bool {
    is_ipv4(s) || is_ipv6(s)
}

proof fn lemma_first_at_from(s: Seq<u8>, target: u8, i: int)
    requires
        0 <= i <= s.len(),
        forall|j: int| 0 <= j < i ==> s[j] != target,
        i < s.len() ==> s[i] == target,
    ensures
        first_at(s, target) == if i < s.len() {
            i
        } else {
            -1
        },
    decreases s.len(),
{
    if s.len() == 0 {
    } else if i == 0 {
    } else {
        assert(s[0] != target);
        let t = s.drop_first();
        assert forall|j: int| 0 <= j < i - 1 implies t[j] != target by {
            assert(t[j] == s[j + 1]);
        }
        lemma_first_at_from(t, target, i - 1);
    }
}

proof fn lemma_first_dcolon_from(s: Seq<u8>, i: int)
    requires
        0 <= i <= s.len(),
        forall|j: int| 0 <= j < i ==> !(#[trigger] s[j] == COLON && j + 1 < s.len() && s[j + 1] == COLON),
        i + 1 < s.len() ==> s[i] == COLON && s[i + 1] == COLON,
        i + 1 >= s.len() ==> i >= s.len() - 1,
    ensures
        first_dcolon(s) == if i + 1 < s.len() {
            i
        } else {
            -1
        },
    decreases s.len(),
{
    if s.len() < 2 {
    } else if i == 0 {
    } else {
        assert(!(s[0] == COLON && 1 < s.len() && s[1] == COLON));
        let t = s.drop_first();
        assert forall|j: int| 0 <= j < i - 1 implies !(#[trigger] t[j] == COLON && j + 1 < t.len()
            && t[j + 1] == COLON) by {
            assert(t[j] == s[j + 1]);
            if j + 1 < t.len() {
                assert(t[j + 1] == s[j + 2]);
            }
        }
        if i < s.len() {
            assert(t[i - 1] == s[i]);
            if i + 1 < s.len() {
                assert(t[i] == s[i + 1]);
            }
        }
        lemma_first_dcolon_from(t, i - 1);
    }
}

/// Finds the first occurrence of `target`, returning the string's length
/// when there is none.
fn find_first(s: &[u8], target: u8) -> (r: usize)
    ensures
        r <= s@.len(),
        r < s@.len() ==> s@[r as int] == target && first_at(s@, target) == r,
        r == s@.len() ==> first_at(s@, target) == -1,
{
    let n = s.len();
    let mut i: usize = 0;
    while i < n
        invariant
            n == s@.len(),
            0 <= i <= n,
            forall|j: int| 0 <= j < i ==> s@[j] != target,
        decreases n - i,
    {
        if s[i] == target {
            proof {
                lemma_first_at_from(s@, target, i as int);
            }
            return i;
        }
        i = i + 1;
    }
    proof {
        lemma_first_at_from(s@, target, n as int);
    }
    n
}

/// Finds the first `::`, returning the string's length when there is none.
fn find_dcolon(s: &[u8]) -> (r: usize)
    ensures
        r <= s@.len(),
        r + 2 <= s@.len() ==> s@[r as int] == COLON && s@[r + 1] == COLON && first_dcolon(s@) == r,
        r + 2 > s@.len() ==> r == s@.len() && first_dcolon(s@) == -1,
{
    let n = s.len();
    if n < 2 {
        return n;
    }
    let mut i: usize = 0;
    while i < n - 1
        invariant
            2 <= n == s@.len(),
            0 <= i <= n,
            forall|j: int|
                0 <= j < i ==> !(#[trigger] s@[j] == COLON && j + 1 < s@.len() && s@[j + 1] == COLON),
        decreases n - i,
    {
        if s[i] == COLON && s[i + 1] == COLON {
            proof {
                lemma_first_dcolon_from(s@, i as int);
            }
            return i;
        }
        i = i + 1;
    }
    proof {
        lemma_first_dcolon_from(s@, i as int);
    }
    n
}

proof fn lemma_dec_value_small(s: Seq<u8>)
    requires
        1 <= s.len() <= 3,
    ensures
        s.len() == 1 ==> dec_value(s) == s[0] - 48,
        s.len() == 2 ==> dec_value(s) == (s[0] - 48) * 10 + (s[1] - 48),
        s.len() == 3 ==> dec_value(s) == ((s[0] - 48) * 10 + (s[1] - 48)) * 10 + (s[2] - 48),
{
    reveal_with_fuel(dec_value, 4);
    if s.len() == 1 {
        assert(s.drop_last() =~= Seq::<u8>::empty());
        assert(dec_value(s.drop_last()) == 0);
    } else if s.len() == 2 {
        let t = s.drop_last();
        assert(t.drop_last() =~= Seq::<u8>::empty());
        assert(dec_value(t.drop_last()) == 0);
        assert(t.last() == s[0]);
        assert(s.last() == s[1]);
    } else {
        let t = s.drop_last();
        let u = t.drop_last();
        assert(u.drop_last() =~= Seq::<u8>::empty());
        assert(dec_value(u.drop_last()) == 0);
        assert(u.last() == s[0]);
        assert(t.last() == s[1]);
        assert(s.last() == s[2]);
    }
}

/// Decides whether `s` is one decimal octet.
fn check_octet(s: &[u8]) -> (r: bool)
    ensures
        r == is_octet(s@),
{
    let n = s.len();
    if n < 1 || n > 3 {
        return false;
    }
    let mut i: usize = 0;
    while i < n
        invariant
            n == s@.len(),
            0 <= i <= n,
            forall|j: int| 0 <= j < i ==> is_digit(#[trigger] s@[j]),
        decreases n - i,
    {
        let b = s[i];
        if b < 48 || b > 57 {
            return false;
        }
        i = i + 1;
    }
    if n > 1 && s[0] == 48 {
        return false;
    }
    let v: u32 = if n == 1 {
        s[0] as u32 - 48
    } else if n == 2 {
        (s[0] as u32 - 48) * 10 + (s[1] as u32 - 48)
    } else {
        ((s[0] as u32 - 48) * 10 + (s[1] as u32 - 48)) * 10 + (s[2] as u32 - 48)
    };
    proof {
        lemma_dec_value_small(s@);
    }
    v <= 255
}

/// Decides whether `s` is one hexadecimal group.
fn check_h16(s: &[u8]) -> (r: bool)
    ensures
        r == is_h16(s@),
{
    let n = s.len();
    if n < 1 || n > 4 {
        return false;
    }
    let mut i: usize = 0;
    while i < n
        invariant
            n == s@.len(),
            0 <= i <= n,
            forall|j: int| 0 <= j < i ==> is_hex_digit(#[trigger] s@[j]),
        decreases n - i,
    {
        let b = s[i];
        if !(48 <= b && b <= 57 || 97 <= b && b <= 102 || 65 <= b && b <= 70) {
            return false;
        }
        i = i + 1;
    }
    true
}

/// Counts the dot-separated octets of `s`, per `dotted_quads`.
fn check_quads(s: &[u8]) -> (r: Option<usize>)
    ensures
        match r {
            Some(n) => dotted_quads(s@) == Some(n as int) && 1 <= n <= s@.len(),
            None => dotted_quads(s@) is None,
        },
    decreases s@.len(),
{
    if s.len() == 0 {
        return None;
    }
    let c = find_first(s, DOT);
    if c == s.len() {
        if check_octet(s) {
            Some(1)
        } else {
            None
        }
    } else {
        if !check_octet(slice_subrange(s, 0, c)) {
            return None;
        }
        match check_quads(slice_subrange(s, c + 1, s.len())) {
            Some(n) => Some(n + 1),
            None => None,
        }
    }
}

/// Decides whether `s` is a textual IPv4 address.
fn check_ipv4(s: &[u8]) -> (r: bool)
    ensures
        r == is_ipv4(s@),
{
    match check_quads(s) {
        Some(n) => n == 4,
        None => false,
    }
}

/// Counts the slots of a colon-separated group list, per `colon_pieces`.
fn check_pieces(s: &[u8], allow4: bool) -> (r: Option<usize>)
    ensures
        match r {
            Some(n) => colon_pieces(s@, allow4) == Some(n as int) && 1 <= n <= s@.len(),
            None => colon_pieces(s@, allow4) is None,
        },
    decreases s@.len(),
{
    if s.len() == 0 {
        return None;
    }
    let c = find_first(s, COLON);
    if c == s.len() {
        if check_h16(s) {
            Some(1)
        } else if allow4 && check_ipv4(s) {
            Some(2)
        } else {
            None
        }
    } else {
        if !check_h16(slice_subrange(s, 0, c)) {
            return None;
        }
        match check_pieces(slice_subrange(s, c + 1, s.len()), allow4) {
            Some(n) => Some(n + 1),
            None => None,
        }
    }
}

/// Decides whether `s` is a textual IPv6 address.
fn check_ipv6(s: &[u8]) -> (r: bool)
    ensures
        r == is_ipv6(s@),
{
    let d = find_dcolon(s);
    if s.len() >= 2 && d <= s.len() - 2 {
        let left = slice_subrange(s, 0, d);
        let right = slice_subrange(s, d + 2, s.len());
        let ln: Option<usize> = if left.len() == 0 {
            Some(0)
        } else {
            check_pieces(left, false)
        };
        let rn: Option<usize> = if right.len() == 0 {
            Some(0)
        } else {
            check_pieces(right, true)
        };
        match (ln, rn) {
            (Some(a), Some(b)) => a + b <= 7,
            _ => false,
        }
    } else {
        match check_pieces(s, true) {
            Some(n) => n == 8,
            None => false,
        }
    }
}

/// Decides whether a binding identifier is a syntactically valid IP
/// address.
pub fn is_valid_ip(s: &str) -> (r: bool)
    ensures
        r == is_ip_text(s.spec_bytes()),
{
    let bytes = s.as_bytes();
    if check_ipv4(bytes) {
        true
    } else {
        check_ipv6(bytes)
    }
}

} // verus!
