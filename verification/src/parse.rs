//! Parsing the textual forms the program accepts: decimal slot numbers,
//! hexadecimal hashes, and the `origin | slot/hex-hash` form of a resume
//! point.  The round-trip lemmas tie parsing to the formatting in
//! [`crate::utils`]: an artifact file name pins down the point it was
//! written for.

use vstd::prelude::*;
use vstd::arithmetic::div_mod::lemma_fundamental_div_mod;
use vstd::string::StringSliceAdditionalSpecFns;
use crate::point::{Point, PointView};
use crate::utils::{dec_digit, hex_digit, spec_artifact_file_name, spec_dec, spec_hex};

verus! {

/// ASCII decimal digit.
pub open spec fn is_dec_digit(b: u8) -> bool {
    48 <= b <= 57
}

/// ASCII hexadecimal digit, either case.
pub open spec fn is_hex_digit(b: u8) -> bool {
    ||| 48 <= b <= 57
    ||| 97 <= b <= 102
    ||| 65 <= b <= 70
}

/// Value of one hexadecimal digit.
pub open spec fn hex_nibble(b: u8) -> u8 {
    if 48 <= b <= 57 {
        (b - 48) as u8
    } else if 97 <= b <= 102 {
        (b - 87) as u8
    } else {
        (b - 55) as u8
    }
}

/// Value of a decimal digit string (most significant first).
pub open spec fn spec_dec_value(s: Seq<u8>) -> int
    decreases s.len(),
{
    if s.len() == 0 {
        0
    } else {
        spec_dec_value(s.drop_last()) * 10 + (s.last() - 48)
    }
}

/// A digit string parses as a `u64`: nonempty, digits only, in range.
pub open spec fn spec_parse_u64_ok(s: Seq<u8>) -> bool {
    &&& s.len() > 0
    &&& forall|i: int| 0 <= i < s.len() ==> is_dec_digit(#[trigger] s[i])
    &&& spec_dec_value(s) <= u64::MAX
}

/// A hexadecimal string decodes: even length, hex digits only.
pub open spec fn spec_hex_ok(s: Seq<u8>) -> bool {
    &&& s.len() % 2 == 0
    &&& forall|i: int| 0 <= i < s.len() ==> is_hex_digit(#[trigger] s[i])
}

/// The bytes a hexadecimal string decodes to.
pub open spec fn spec_hex_value(s: Seq<u8>) -> Seq<u8> {
    Seq::new((s.len() / 2) as nat, |i: int| (hex_nibble(s[2 * i]) * 16 + hex_nibble(s[2 * i + 1])) as u8)
}

/// Digit strings have nonnegative value.
pub proof fn lemma_dec_value_nonneg(s: Seq<u8>)
    requires
        forall|i: int| 0 <= i < s.len() ==> is_dec_digit(#[trigger] s[i]),
    ensures
        spec_dec_value(s) >= 0,
    decreases s.len(),
{
    if s.len() > 0 {
        lemma_dec_value_nonneg(s.drop_last());
    }
}

/// Extending a digit string multiplies its value by ten and adds the new
/// digit; the value never shrinks.
pub proof fn lemma_dec_value_monotonic(s: Seq<u8>, i: int)
    requires
        forall|k: int| 0 <= k < s.len() ==> is_dec_digit(#[trigger] s[k]),
        0 <= i <= s.len(),
    ensures
        spec_dec_value(s) >= spec_dec_value(s.take(i)),
    decreases s.len() - i,
{
    if i < s.len() {
        assert(s.take(i + 1).drop_last() =~= s.take(i));
        lemma_dec_value_nonneg(s.take(i));
        lemma_dec_value_monotonic(s, i + 1);
    } else {
        assert(s.take(i) =~= s);
    }
}

/// Parse a decimal `u64`; exactly the nonempty all-digit strings whose
/// value fits yield a number, and that number is the string's value.
pub fn parse_u64(s: &[u8]) -> (r: Option<u64>)
    ensures
        match r {
            Some(v) => spec_parse_u64_ok(s@) && v == spec_dec_value(s@),
            None => !spec_parse_u64_ok(s@),
        },
{
    let n = s.len();
    if n == 0 {
        return None;
    }
    let mut acc: u64 = 0;
    for k in 0..n
        invariant
            n == s@.len(),
            forall|i: int| 0 <= i < k ==> is_dec_digit(#[trigger] s@[i]),
            acc == spec_dec_value(s@.take(k as int)),
    {
        let b = s[k];
        if b < 48 || b > 57 {
            proof {
                assert(!is_dec_digit(s@[k as int]));
            }
            return None;
        }
        let d = (b - 48) as u64;
        let next = match acc.checked_mul(10) {
            Some(x) => x.checked_add(d),
            None => None,
        };
        proof {
            assert(s@.take(k + 1).drop_last() =~= s@.take(k as int));
            assert(spec_dec_value(s@.take(k + 1)) == acc * 10 + d);
        }
        match next {
            Some(v) => {
                acc = v;
            },
            None => {
                proof {
                    if spec_parse_u64_ok(s@) {
                        lemma_dec_value_monotonic(s@, k + 1);
                    }
                }
                return None;
            },
        }
    }
    proof {
        assert(s@.take(n as int) =~= s@);
    }
    Some(acc)
}

/// Decode a hexadecimal string; exactly the even-length all-hex-digit
/// strings decode, two digits to a byte.
pub fn parse_hex(s: &[u8]) -> (r: Option<Vec<u8>>)
    ensures
        match r {
            Some(v) => spec_hex_ok(s@) && v@ == spec_hex_value(s@),
            None => !spec_hex_ok(s@),
        },
{
    let n = s.len();
    if n % 2 != 0 {
        return None;
    }
    let m = n / 2;
    let mut out: Vec<u8> = Vec::new();
    for k in 0..m
        invariant
            n == s@.len(),
            n == 2 * m,
            out@.len() == k,
            forall|i: int| 0 <= i < 2 * k ==> is_hex_digit(#[trigger] s@[i]),
            forall|i: int| 0 <= i < k ==> out@[i] == (hex_nibble(s@[2 * i]) * 16 + hex_nibble(
                s@[2 * i + 1],
            )) as u8,
    {
        let hi = s[2 * k];
        let lo = s[2 * k + 1];
        let hi_ok = (hi >= 48 && hi <= 57) || (hi >= 97 && hi <= 102) || (hi >= 65 && hi <= 70);
        let lo_ok = (lo >= 48 && lo <= 57) || (lo >= 97 && lo <= 102) || (lo >= 65 && lo <= 70);
        if !hi_ok {
            proof {
                assert(!is_hex_digit(s@[2 * (k as int)]));
            }
            return None;
        }
        if !lo_ok {
            proof {
                assert(!is_hex_digit(s@[2 * (k as int) + 1]));
            }
            return None;
        }
        let hv: u8 = if hi <= 57 {
            hi - 48
        } else if hi >= 97 {
            hi - 87
        } else {
            hi - 55
        };
        let lv: u8 = if lo <= 57 {
            lo - 48
        } else if lo >= 97 {
            lo - 87
        } else {
            lo - 55
        };
        out.push(hv * 16 + lv);
    }
    proof {
        assert(out@ =~= spec_hex_value(s@));
    }
    Some(out)
}

/// Index of the first `/` in a byte string, if any.
pub open spec fn first_slash(s: Seq<u8>) -> Option<int>
    decreases s.len(),
{
    if s.len() == 0 {
        None
    } else if s[0] == 47 {
        Some(0)
    } else {
        match first_slash(s.drop_first()) {
            Some(i) => Some(i + 1),
            None => None,
        }
    }
}

/// What [`first_slash`] finds: the least index holding a `/`.
pub proof fn lemma_first_slash(s: Seq<u8>)
    ensures
        match first_slash(s) {
            Some(i) => 0 <= i < s.len() && s[i] == 47 && forall|k: int| 0 <= k < i ==> s[k] != 47,
            None => forall|k: int| 0 <= k < s.len() ==> s[k] != 47,
        },
    decreases s.len(),
{
    if s.len() > 0 && s[0] != 47 {
        let t = s.drop_first();
        lemma_first_slash(t);
        match first_slash(t) {
            Some(i) => {
                assert(s[i + 1] == t[i]);
                assert forall|k: int| 0 <= k < i + 1 implies s[k] != 47 by {
                    if k > 0 {
                        assert(t[k - 1] != 47);
                    }
                }
            },
            None => {
                assert forall|k: int| 0 <= k < s.len() implies s[k] != 47 by {
                    if k > 0 {
                        assert(t[k - 1] != 47);
                    }
                }
            },
        }
    }
}

/// The parsed form of a resume-point argument: `origin`, or a decimal
/// slot and a hexadecimal hash separated by `/` (text after a second `/`
/// is ignored).
pub open spec fn spec_parse_point(s: Seq<u8>) -> Option<PointView> {
    if s == seq![111u8, 114u8, 105u8, 103u8, 105u8, 110u8] {
        Some(PointView::Origin)
    } else {
        match first_slash(s) {
            None => None,
            Some(i) => {
                let slot_part = s.take(i);
                let rest = s.skip(i + 1);
                let hex_part = match first_slash(rest) {
                    None => rest,
                    Some(j) => rest.take(j),
                };
                if spec_parse_u64_ok(slot_part) && spec_hex_ok(hex_part) {
                    Some(
                        PointView::Specific(
                            spec_dec_value(slot_part) as u64,
                            spec_hex_value(hex_part),
                        ),
                    )
                } else {
                    None
                }
            },
        }
    }
}

/// Find the first `/`, scanning forward.
fn find_slash(s: &[u8]) -> (r: Option<usize>)
    ensures
        match r {
            Some(i) => first_slash(s@) == Some(i as int),
            None => first_slash(s@) is None,
        },
{
    proof {
        lemma_first_slash(s@);
    }
    let n = s.len();
    for k in 0..n
        invariant
            n == s@.len(),
            forall|i: int| 0 <= i < k ==> s@[i] != 47,
            match first_slash(s@) {
                Some(i) => 0 <= i < s@.len() && s@[i] == 47 && forall|j: int| 0 <= j < i
                    ==> s@[j] != 47,
                None => forall|j: int| 0 <= j < s@.len() ==> s@[j] != 47,
            },
    {
        if s[k] == 47 {
            proof {
                match first_slash(s@) {
                    Some(i) => {
                        assert(i <= k as int);
                        assert(i >= k as int);
                    },
                    None => {
                        assert(s@[k as int] != 47);
                    },
                }
            }
            return Some(k);
        }
    }
    proof {
        match first_slash(s@) {
            Some(i) => {
                assert(s@[i] != 47);
            },
            None => {},
        }
    }
    None
}

/// Parse a resume point: `origin`, or `slot/hex-hash` as the chain-sync
/// protocol names points.  Malformed input yields nothing.
pub fn parse_point(s: &str) -> (r: Option<Point>)
    ensures
        match r {
            Some(p) => spec_parse_point(s.spec_bytes()) == Some(p@),
            None => spec_parse_point(s.spec_bytes()) is None,
        },
{
    let bytes: &[u8] = s.as_bytes();
    let n = bytes.len();
    if n == 6 && bytes[0] == 111 && bytes[1] == 114 && bytes[2] == 105 && bytes[3] == 103
        && bytes[4] == 105 && bytes[5] == 110 {
        proof {
            assert(bytes@ =~= seq![111u8, 114u8, 105u8, 103u8, 105u8, 110u8]);
        }
        return Some(Point::Origin);
    }
    proof {
        assert(bytes@ != seq![111u8, 114u8, 105u8, 103u8, 105u8, 110u8]) by {
            if bytes@ == seq![111u8, 114u8, 105u8, 103u8, 105u8, 110u8] {
                assert(bytes@.len() == 6);
                assert(bytes@[0] == 111 && bytes@[1] == 114 && bytes@[2] == 105 && bytes@[3] == 103
                    && bytes@[4] == 105 && bytes@[5] == 110);
            }
        }
    }
    let i = match find_slash(bytes) {
        Some(i) => i,
        None => {
            return None;
        },
    };
    proof {
        lemma_first_slash(bytes@);
    }
    let slot_part: &[u8] = &bytes[0..i];
    let rest: &[u8] = &bytes[i + 1..n];
    proof {
        assert(slot_part@ =~= bytes@.take(i as int));
        assert(rest@ =~= bytes@.skip(i as int + 1));
    }
    let j_opt = find_slash(rest);
    proof {
        lemma_first_slash(rest@);
    }
    let hex_part: &[u8] = match j_opt {
        None => rest,
        Some(j) => &rest[0..j],
    };
    proof {
        match first_slash(rest@) {
            None => {
                assert(hex_part@ =~= rest@);
            },
            Some(j) => {
                assert(hex_part@ =~= rest@.take(j));
            },
        }
    }
    let slot = match parse_u64(slot_part) {
        Some(v) => v,
        None => {
            return None;
        },
    };
    let hash = match parse_hex(hex_part) {
        Some(v) => v,
        None => {
            return None;
        },
    };
    Some(Point::Specific(slot, hash))
}

/// Every decimal digit the formatter writes is a digit character.
pub proof fn lemma_dec_digits(n: nat)
    ensures
        forall|i: int| 0 <= i < spec_dec(n).len() ==> is_dec_digit(#[trigger] spec_dec(n)[i]),
        spec_dec(n).len() >= 1,
    decreases n,
{
    if n >= 10 {
        lemma_dec_digits(n / 10);
        assert forall|i: int| 0 <= i < spec_dec(n).len() implies is_dec_digit(
            #[trigger] spec_dec(n)[i],
        ) by {
            if i < spec_dec(n / 10).len() {
                assert(spec_dec(n)[i] == spec_dec(n / 10)[i]);
            }
        }
    }
}

/// Parsing a formatted number returns the number.
pub proof fn lemma_dec_round_trip(n: nat)
    ensures
        spec_dec_value(spec_dec(n)) == n,
    decreases n,
{
    if n < 10 {
        assert(spec_dec(n).drop_last() =~= Seq::<u8>::empty());
        assert(spec_dec_value(Seq::<u8>::empty()) == 0);
    } else {
        lemma_dec_round_trip(n / 10);
        assert(spec_dec(n).drop_last() =~= spec_dec(n / 10));
        assert(spec_dec(n).last() == dec_digit((n % 10) as int));
        assert(spec_dec_value(spec_dec(n)) == spec_dec_value(spec_dec(n / 10)) * 10 + (n % 10));
        lemma_fundamental_div_mod(n as int, 10);
    }
}

/// The formatted hexadecimal string is twice as long as its bytes.
pub proof fn lemma_hex_len(bytes: Seq<u8>)
    ensures
        spec_hex(bytes).len() == 2 * bytes.len(),
    decreases bytes.len(),
{
    if bytes.len() > 0 {
        lemma_hex_len(bytes.drop_last());
    }
}

/// The two formatted digits of byte `i` of a hexadecimal string.
pub proof fn lemma_hex_index(bytes: Seq<u8>, i: int)
    requires
        0 <= i < bytes.len(),
    ensures
        spec_hex(bytes)[2 * i] == hex_digit(bytes[i] as int / 16),
        spec_hex(bytes)[2 * i + 1] == hex_digit(bytes[i] as int % 16),
    decreases bytes.len(),
{
    lemma_hex_len(bytes);
    lemma_hex_len(bytes.drop_last());
    if i < bytes.len() - 1 {
        lemma_hex_index(bytes.drop_last(), i);
    }
}

/// Decoding a formatted hexadecimal string returns the bytes.
pub proof fn lemma_hex_round_trip(bytes: Seq<u8>)
    ensures
        spec_hex_value(spec_hex(bytes)) =~= bytes,
{
    lemma_hex_len(bytes);
    assert forall|i: int| 0 <= i < bytes.len() implies spec_hex_value(spec_hex(bytes))[i]
        == bytes[i] by {
        lemma_hex_index(bytes, i);
        lemma_fundamental_div_mod(bytes[i] as int, 16);
    }
}

/// An artifact file name pins down its point: equal names mean the same
/// slot and the same hash.  Together with the write rule, the bytes
/// stored under a body file name decode to exactly the point the name
/// spells.
pub proof fn lemma_file_name_injective(slot1: u64, h1: Seq<u8>, slot2: u64, h2: Seq<u8>)
    requires
        h1.len() == 32,
        h2.len() == 32,
        spec_artifact_file_name(slot1, h1) == spec_artifact_file_name(slot2, h2),
    ensures
        slot1 == slot2,
        h1 == h2,
{
    let d1 = spec_dec(slot1 as nat);
    let d2 = spec_dec(slot2 as nat);
    let n1 = spec_artifact_file_name(slot1, h1);
    let n2 = spec_artifact_file_name(slot2, h2);
    lemma_hex_len(h1);
    lemma_hex_len(h2);
    lemma_dec_digits(slot1 as nat);
    lemma_dec_digits(slot2 as nat);
    assert(n1.len() == d1.len() + 65 && n2.len() == d2.len() + 65);
    assert(d1.len() == d2.len());
    assert(d1 =~= n1.subrange(0, d1.len() as int)) by {
        assert forall|i: int| 0 <= i < d1.len() implies n1[i] == d1[i] by {}
    }
    assert(d2 =~= n2.subrange(0, d2.len() as int)) by {
        assert forall|i: int| 0 <= i < d2.len() implies n2[i] == d2[i] by {}
    }
    assert(d1 == d2);
    lemma_dec_round_trip(slot1 as nat);
    lemma_dec_round_trip(slot2 as nat);
    assert(slot1 == slot2);
    let o = d1.len() + 1;
    assert(spec_hex(h1) =~= spec_hex(h2)) by {
        assert forall|i: int| 0 <= i < 64 implies spec_hex(h1)[i] == spec_hex(h2)[i] by {
            assert(n1[o + i] == spec_hex(h1)[i]);
            assert(n2[o + i] == spec_hex(h2)[i]);
        }
    }
    lemma_hex_round_trip(h1);
    lemma_hex_round_trip(h2);
    assert(h1 =~= h2);
}

} // verus!
