//! The debugger's breakpoint command: parse a hexadecimal address and flip it
//! in or out of the breakpoint set.

use vstd::prelude::*;
use std::collections::HashSet;

verus! {

broadcast use vstd::std_specs::hash::group_hash_axioms;

/// The value of an ASCII hexadecimal digit, either case.
pub open spec fn hex_digit_value(b: u8) -> Option<nat> {
    if 0x30 <= b <= 0x39 {
        Some((b - 0x30) as nat)
    } else if 0x61 <= b <= 0x66 {
        Some((b - 0x61 + 10) as nat)
    } else if 0x41 <= b <= 0x46 {
        Some((b - 0x41 + 10) as nat)
    } else {
        None
    }
}

/// The number that a string of hexadecimal digits spells, most significant
/// digit first; `None` when some byte is not a digit.
pub open spec fn hex_digits_value(s: Seq<u8>) -> Option<nat>
    decreases s.len(),
{
    if s.len() == 0 {
        Some(0)
    } else {
        match (hex_digits_value(s.drop_last()), hex_digit_value(s.last())) {
            (Some(v), Some(d)) => Some(v * 16 + d),
            _ => None,
        }
    }
}

/// An address written as one to four hexadecimal digits.
pub open spec fn spec_parse_address(s: Seq<u8>) -> Option<u16> {
    if 1 <= s.len() <= 4 {
        match hex_digits_value(s) {
            Some(v) => Some(v as u16),
            None => None,
        }
    } else {
        None
    }
}

/// Lower-case hexadecimal digit `d`.
pub open spec fn hex_char(d: nat) -> char {
    if d == 0 {
        '0'
    } else if d == 1 {
        '1'
    } else if d == 2 {
        '2'
    } else if d == 3 {
        '3'
    } else if d == 4 {
        '4'
    } else if d == 5 {
        '5'
    } else if d == 6 {
        '6'
    } else if d == 7 {
        '7'
    } else if d == 8 {
        '8'
    } else if d == 9 {
        '9'
    } else if d == 10 {
        'a'
    } else if d == 11 {
        'b'
    } else if d == 12 {
        'c'
    } else if d == 13 {
        'd'
    } else if d == 14 {
        'e'
    } else {
        'f'
    }
}

/// A number in lower-case hexadecimal without leading zeros.
pub open spec fn hex_lower(v: nat) -> Seq<char>
    decreases v,
{
    if v < 16 {
        seq![hex_char(v)]
    } else {
        hex_lower(v / 16) + seq![hex_char(v % 16)]
    }
}

/// Bound on a number of `n` hexadecimal digits.
pub open spec fn digits_bound(n: int) -> int {
    if n == 0 {
        1
    } else if n == 1 {
        16
    } else if n == 2 {
        256
    } else if n == 3 {
        4096
    } else {
        65536
    }
}

fn digit_value(b: u8) -> (r: Option<u8>)
    ensures
        r matches Some(d) ==> hex_digit_value(b) == Some(d as nat) && d < 16,
        r is None ==> hex_digit_value(b) is None,
{
    if 0x30 <= b && b <= 0x39 {
        Some(b - 0x30)
    } else if 0x61 <= b && b <= 0x66 {
        Some(b - 0x61 + 10)
    } else if 0x41 <= b && b <= 0x46 {
        Some(b - 0x41 + 10)
    } else {
        None
    }
}

/// Parses an address written as one to four hexadecimal digits.
pub fn parse_address(s: &str) -> (r: Option<u16>)
    ensures
        r == spec_parse_address(vstd::string::StringSliceAdditionalSpecFns::spec_bytes(s)),
{
    let b = s.as_bytes();
    let n = b.len();
    if n < 1 || n > 4 {
        return None;
    }
    let mut acc: u64 = 0;
    let mut i: usize = 0;
    while i < n
        invariant
            b@ == vstd::string::StringSliceAdditionalSpecFns::spec_bytes(s),
            n == b@.len(),
            1 <= n <= 4,
            i <= n,
            hex_digits_value(b@.take(i as int)) == Some(acc as nat),
            acc < digits_bound(i as int),
        decreases n - i,
    {
        assert(b@.take(i + 1).drop_last() == b@.take(i as int));
        match digit_value(b[i]) {
            Some(d) => {
                assert(acc * 16 + d < digits_bound(i + 1)) by (nonlinear_arith)
                    requires
                        acc < digits_bound(i as int),
                        d < 16,
                        digits_bound(i + 1) == 16 * digits_bound(i as int),
                ;
                acc = acc * 16 + d as u64;
            },
            None => {
                proof {
                    lemma_bad_digit(b@, (i + 1) as nat, n as nat);
                }
                return None;
            },
        }
        i = i + 1;
    }
    assert(b@.take(n as int) == b@);
    Some(acc as u16)
}

/// A string with a non-digit among its first `k` bytes spells no number.
proof fn lemma_bad_digit(s: Seq<u8>, k: nat, n: nat)
    requires
        1 <= k <= n,
        n == s.len(),
        hex_digit_value(s[k - 1]) is None,
    ensures
        hex_digits_value(s) is None,
    decreases n - k,
{
    if k == n {
        assert(s.last() == s[k - 1]);
    } else {
        let t = s.drop_last();
        lemma_bad_digit(t, k, (n - 1) as nat);
    }
}

fn digit_str(d: u16) -> (r: &'static str)
    requires
        d < 16,
    ensures
        r@ == seq![hex_char(d as nat)],
{
    if d == 0 {
        proof {
            reveal_strlit("0");
        }
        "0"
    } else if d == 1 {
        proof {
            reveal_strlit("1");
        }
        "1"
    } else if d == 2 {
        proof {
            reveal_strlit("2");
        }
        "2"
    } else if d == 3 {
        proof {
            reveal_strlit("3");
        }
        "3"
    } else if d == 4 {
        proof {
            reveal_strlit("4");
        }
        "4"
    } else if d == 5 {
        proof {
            reveal_strlit("5");
        }
        "5"
    } else if d == 6 {
        proof {
            reveal_strlit("6");
        }
        "6"
    } else if d == 7 {
        proof {
            reveal_strlit("7");
        }
        "7"
    } else if d == 8 {
        proof {
            reveal_strlit("8");
        }
        "8"
    } else if d == 9 {
        proof {
            reveal_strlit("9");
        }
        "9"
    } else if d == 10 {
        proof {
            reveal_strlit("a");
        }
        "a"
    } else if d == 11 {
        proof {
            reveal_strlit("b");
        }
        "b"
    } else if d == 12 {
        proof {
            reveal_strlit("c");
        }
        "c"
    } else if d == 13 {
        proof {
            reveal_strlit("d");
        }
        "d"
    } else if d == 14 {
        proof {
            reveal_strlit("e");
        }
        "e"
    } else {
        proof {
            reveal_strlit("f");
        }
        "f"
    }
}

/// `v` in lower-case hexadecimal without leading zeros.
pub fn hex_lower_string(v: u16) -> (r: String)
    ensures
        r@ == hex_lower(v as nat),
    decreases v,
{
    if v < 16 {
        String::from_str(digit_str(v))
    } else {
        let mut s = hex_lower_string(v / 16);
        s.append(digit_str(v % 16));
        s
    }
}

/// The breakpoint set after flipping `a`.
pub open spec fn toggled(set: Set<u16>, a: u16) -> Set<u16> {
    if set.contains(a) {
        set.remove(a)
    } else {
        set.insert(a)
    }
}

/// Flipping the same breakpoint twice gives back the set it started from.
pub proof fn lemma_toggle_twice(set: Set<u16>, a: u16)
    ensures
        toggled(toggled(set, a), a) == set,
{
    assert(toggled(toggled(set, a), a) =~= set);
}

/// Flips a breakpoint: the address `s` names leaves the set if it was in
/// it and joins it otherwise; the answer says which, or that `s` names no
/// address.
pub fn toggle_breakpoint(s: &str, breakpoints: &mut Box<HashSet<u16>>) -> (msg: String)
    ensures
        match spec_parse_address(vstd::string::StringSliceAdditionalSpecFns::spec_bytes(s)) {
            Some(a) => {
                &&& final(breakpoints)@ == toggled(old(breakpoints)@, a)
                &&& old(breakpoints)@.contains(a) ==> msg@ == "removed breakpoint 0x"@ + hex_lower(a as nat)
                &&& !old(breakpoints)@.contains(a) ==> msg@ == "added breakpoint 0x"@ + hex_lower(a as nat)
            },
            None => {
                &&& final(breakpoints)@ == old(breakpoints)@
                &&& msg@ == "invalid address: "@ + s@
            },
        },
{
    match parse_address(s) {
        Some(o) => {
            if breakpoints.contains(&o) {
                breakpoints.remove(&o);
                let mut msg = String::from_str("removed breakpoint 0x");
                let h = hex_lower_string(o);
                msg.append(h.as_str());
                msg
            } else {
                breakpoints.insert(o);
                let mut msg = String::from_str("added breakpoint 0x");
                let h = hex_lower_string(o);
                msg.append(h.as_str());
                msg
            }
        },
        None => {
            let mut msg = String::from_str("invalid address: ");
            msg.append(s);
            msg
        },
    }
}

} // verus!
