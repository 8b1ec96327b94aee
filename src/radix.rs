//! Reading unsigned numerals from bytes.
use vstd::prelude::*;

verus! {

/// Value of the digit `b` in `radix` (`0-9`, then letters of either case), if it is one.
pub open spec fn digit_value(b: u8, radix: nat) -> Option<nat> {
    let v: int = if 0x30 <= b <= 0x39 {
        b - 0x30
    } else if 0x61 <= b <= 0x7a {
        b - 0x61 + 10
    } else if 0x41 <= b <= 0x5a {
        b - 0x41 + 10
    } else {
        36
    };
    if v < radix {
        Some(v as nat)
    } else {
        None
    }
}

/// Every byte of `s` is a digit in `radix`.
pub open spec fn all_digits(s: Seq<u8>, radix: nat) -> bool {
    forall|i: int| 0 <= i < s.len() ==> (#[trigger] digit_value(s[i], radix)) is Some
}

/// Value of the digits `s` in `radix`, most significant first.
pub open spec fn digits_value(s: Seq<u8>, radix: nat) -> nat
    decreases s.len(),
{
    if s.len() == 0 {
        0
    } else {
        digits_value(s.drop_last(), radix) * radix + digit_value(s.last(), radix).unwrap()
    }
}

/// The digits of an unsigned numeral: one leading `+` is allowed and dropped.
pub open spec fn unsigned_digits(s: Seq<u8>) -> Seq<u8> {
    if s.len() > 0 && s[0] == 0x2b {
        s.drop_first()
    } else {
        s
    }
}

/// The value of the unsigned numeral `s` in `radix`, if `s` is one and its value is at most `max`.
pub open spec fn spec_parse_unsigned(s: Seq<u8>, radix: nat, max: nat) -> Option<nat> {
    let d = unsigned_digits(s);
    if d.len() > 0 && all_digits(d, radix) && digits_value(d, radix) <= max {
        Some(digits_value(d, radix))
    } else {
        None
    }
}

/// Appending digits never lowers the value.
proof fn lemma_value_grows(d: Seq<u8>, radix: nat, k: int)
    requires
        1 <= radix,
        0 <= k <= d.len(),
        all_digits(d, radix),
    ensures
        digits_value(d.subrange(0, k), radix) <= digits_value(d, radix),
    decreases d.len(),
{
    if k < d.len() {
        let p = d.drop_last();
        assert(p.subrange(0, k) =~= d.subrange(0, k));
        assert(all_digits(p, radix)) by {
            assert forall|i: int| 0 <= i < p.len() implies (#[trigger] digit_value(p[i], radix)) is Some by {
                assert(p[i] == d[i]);
            }
        }
        lemma_value_grows(p, radix, k);
        let v = digits_value(p, radix);
        assert(v <= v * radix) by (nonlinear_arith)
            requires
                1 <= radix,
        ;
    } else {
        assert(d.subrange(0, k) =~= d);
    }
}

fn digit(b: u8, radix: u32) -> (r: Option<u32>)
    requires
        radix <= 36,
    ensures
        r is Some <==> digit_value(b, radix as nat) is Some,
        r matches Some(v) ==> digit_value(b, radix as nat) == Some(v as nat),
{
    let v: u32 = if 0x30 <= b && b <= 0x39 {
        (b - 0x30) as u32
    } else if 0x61 <= b && b <= 0x7a {
        (b - 0x61 + 10) as u32
    } else if 0x41 <= b && b <= 0x5a {
        (b - 0x41 + 10) as u32
    } else {
        36
    };
    if v < radix {
        Some(v)
    } else {
        None
    }
}

/// Reads the unsigned numeral `s` in `radix`; `None` unless `s` is one (after an optional `+`)
/// and its value is at most `max`.
pub fn parse_unsigned(s: &[u8], radix: u32, max: u32) -> (r: Option<u32>)
    requires
        2 <= radix <= 36,
    ensures
        r is Some <==> spec_parse_unsigned(s@, radix as nat, max as nat) is Some,
        r matches Some(v) ==> spec_parse_unsigned(s@, radix as nat, max as nat) == Some(v as nat),
{
    let len = s.len();
    let mut i: usize = 0;
    if len > 0 && s[0] == 0x2b {
        i = 1;
    }
    let start = i;
    let ghost d = unsigned_digits(s@);
    assert(d =~= s@.subrange(start as int, len as int));
    if i >= len {
        return None;
    }
    let mut acc: u32 = 0;
    while i < len
        invariant
            start <= i <= len,
            len == s@.len(),
            d == s@.subrange(start as int, len as int),
            d == unsigned_digits(s@),
            all_digits(d.subrange(0, i - start), radix as nat),
            acc as nat == digits_value(d.subrange(0, i - start), radix as nat),
            acc <= max,
            2 <= radix <= 36,
        decreases len - i,
    {
        let k: Ghost<int> = Ghost(i - start);
        let dv = match digit(s[i], radix) {
            Some(v) => v,
            None => {
                assert(d[k@] == s@[i as int]);
                assert(digit_value(d[k@], radix as nat) is None);
                assert(!all_digits(d, radix as nat));
                return None;
            },
        };
        assert(acc as int * radix as int <= 0xffff_ffff * 36) by (nonlinear_arith)
            requires
                acc <= 0xffff_ffff,
                radix <= 36,
        ;
        let next: u64 = acc as u64 * radix as u64 + dv as u64;
        proof {
            let pre = d.subrange(0, k@ + 1);
            assert(pre.drop_last() =~= d.subrange(0, k@));
            assert(pre.last() == s@[i as int]);
            assert(all_digits(pre, radix as nat)) by {
                assert forall|j: int| 0 <= j < pre.len() implies (#[trigger] digit_value(
                    pre[j],
                    radix as nat,
                )) is Some by {
                    if j < k@ {
                        assert(pre[j] == d.subrange(0, k@)[j]);
                    }
                }
            }
            assert(next == digits_value(pre, radix as nat));
        }
        if next > max as u64 {
            proof {
                if all_digits(d, radix as nat) {
                    lemma_value_grows(d, radix as nat, k@ + 1);
                }
            }
            return None;
        }
        acc = next as u32;
        i = i + 1;
    }
    assert(d.subrange(0, i - start) =~= d);
    Some(acc)
}

} // verus!
