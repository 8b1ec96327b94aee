//! Canonical texts of blocks, and the proofs that the parser reads them back.
use vstd::prelude::*;

use crate::radix::{all_digits, digit_value, digits_value, spec_parse_unsigned, unsigned_digits};
use crate::scan::{
    initial_scan, is_hex_digit, spec_ip_end, spec_parse, spec_parse_from, FamilyType, Fault,
    ParserState, Scan,
};
use crate::v4::Ipv4Addr;
use crate::v6::{spec_from_segments, Ipv6Addr};
use crate::IpAddr;

verus! {

/// The decimal digits of `n`, without leading zeros.
pub open spec fn dec(n: nat) -> Seq<u8>
    decreases n,
{
    if n < 10 {
        seq![(0x30 + n) as u8]
    } else {
        dec(n / 10).push((0x30 + n % 10) as u8)
    }
}

/// The lower-case hexadecimal digit of `v`.
pub open spec fn hex_char(v: nat) -> u8 {
    if v < 10 {
        (0x30 + v) as u8
    } else {
        (0x61 + v - 10) as u8
    }
}

/// The lower-case hexadecimal digits of `n`, without leading zeros.
pub open spec fn hex(n: nat) -> Seq<u8>
    decreases n,
{
    if n < 16 {
        seq![hex_char(n)]
    } else {
        hex(n / 16).push(hex_char(n % 16))
    }
}

/// The full text `a:b:c:d:e:f:g:h` of an IPv6 address, every segment written out.
pub open spec fn v6_addr_text(s: Seq<u16>) -> Seq<u8> {
    hex(s[0] as nat) + seq![0x3au8] + hex(s[1] as nat) + seq![0x3au8] + hex(s[2] as nat) + seq![
        0x3au8,
    ] + hex(s[3] as nat) + seq![0x3au8] + hex(s[4] as nat) + seq![0x3au8] + hex(s[5] as nat)
        + seq![0x3au8] + hex(s[6] as nat) + seq![0x3au8] + hex(s[7] as nat)
}

/// The full text `a:b:c:d:e:f:g:h/prefix` of an IPv6 block.
pub open spec fn v6_text(s: Seq<u16>, prefix: u8) -> Seq<u8> {
    v6_addr_text(s) + seq![0x2fu8] + dec(prefix as nat)
}

/// The canonical text `a.b.c.d` of an IPv4 address.
pub open spec fn v4_addr_text(a: u8, b: u8, c: u8, d: u8) -> Seq<u8> {
    dec(a as nat) + seq![0x2eu8] + dec(b as nat) + seq![0x2eu8] + dec(c as nat) + seq![0x2eu8]
        + dec(d as nat)
}

/// The canonical text `a.b.c.d/prefix` of an IPv4 block.
pub open spec fn v4_text(a: u8, b: u8, c: u8, d: u8, prefix: u8) -> Seq<u8> {
    v4_addr_text(a, b, c, d) + seq![0x2fu8] + dec(prefix as nat)
}

/// The IPv4 address of the octets `o`, first octet in the high bits.
pub open spec fn v4_addr_of(o: Seq<u8>) -> IpAddr {
    IpAddr::V4(
        Ipv4Addr {
            bits: (o[0] as int * 0x100_0000 + o[1] as int * 0x1_0000 + o[2] as int * 0x100
                + o[3] as int) as u32,
        },
    )
}

/// The IPv6 address of the segments `seg`, first segment in the high bits.
pub open spec fn v6_addr_of(seg: Seq<u16>) -> IpAddr {
    IpAddr::V6(Ipv6Addr { bits: spec_from_segments(seg) as u128 })
}

/// `dec(n)` is a non-empty run of decimal digits whose value is `n`.
proof fn lemma_dec(n: nat)
    ensures
        dec(n).len() >= 1,
        all_digits(dec(n), 10),
        digits_value(dec(n), 10) == n,
        forall|j: int| 0 <= j < dec(n).len() ==> 0x30 <= #[trigger] dec(n)[j] <= 0x39,
    decreases n,
{
    if n >= 10 {
        lemma_dec(n / 10);
        let s = dec(n);
        assert(s.drop_last() =~= dec(n / 10));
        assert forall|j: int| 0 <= j < s.len() implies 0x30 <= #[trigger] s[j] <= 0x39 by {
            if j < s.len() - 1 {
                assert(s[j] == dec(n / 10)[j]);
            }
        }
        assert forall|j: int| 0 <= j < s.len() implies (#[trigger] digit_value(s[j], 10)) is Some by {
            assert(0x30 <= s[j] <= 0x39);
        }
        assert(s.last() == (0x30 + n % 10) as u8);
        assert(digit_value(s.last(), 10) == Some((n % 10) as nat));
        assert(digits_value(s, 10) == digits_value(dec(n / 10), 10) * 10 + n % 10);
        assert((n / 10) * 10 + n % 10 == n) by {
            vstd::arithmetic::div_mod::lemma_fundamental_div_mod(n as int, 10);
        }
    } else {
        let s = dec(n);
        assert forall|j: int| 0 <= j < s.len() implies (#[trigger] digit_value(s[j], 10)) is Some by {
            assert(0x30 <= s[j] <= 0x39);
        }
        assert(s.drop_last() =~= Seq::<u8>::empty());
        assert(digits_value(s.drop_last(), 10) == 0);
        assert(digit_value(s.last(), 10) == Some(n));
    }
}

/// `hex(n)` is a non-empty run of hexadecimal digits whose value is `n`.
proof fn lemma_hex(n: nat)
    ensures
        hex(n).len() >= 1,
        all_digits(hex(n), 16),
        digits_value(hex(n), 16) == n,
        forall|j: int| 0 <= j < hex(n).len() ==> is_hex_digit(#[trigger] hex(n)[j]),
        hex(n)[0] != 0x2b,
    decreases n,
{
    let s = hex(n);
    if n >= 16 {
        lemma_hex(n / 16);
        assert(s.drop_last() =~= hex(n / 16));
        assert forall|j: int| 0 <= j < s.len() implies is_hex_digit(#[trigger] s[j]) by {
            if j < s.len() - 1 {
                assert(s[j] == hex(n / 16)[j]);
            }
        }
        assert forall|j: int| 0 <= j < s.len() implies (#[trigger] digit_value(s[j], 16)) is Some by {
            if j < s.len() - 1 {
                assert(s[j] == hex(n / 16)[j]);
            }
        }
        assert(s[0] == hex(n / 16)[0]);
        assert(digit_value(s.last(), 16) == Some((n % 16) as nat));
        assert(digits_value(s, 16) == digits_value(hex(n / 16), 16) * 16 + n % 16);
        assert((n / 16) * 16 + n % 16 == n) by {
            vstd::arithmetic::div_mod::lemma_fundamental_div_mod(n as int, 16);
        }
    } else {
        assert forall|j: int| 0 <= j < s.len() implies (#[trigger] digit_value(s[j], 16)) is Some by {
            assert(j == 0);
        }
        assert(s.drop_last() =~= Seq::<u8>::empty());
        assert(digits_value(s.drop_last(), 16) == 0);
        assert(digit_value(s.last(), 16) == Some(n));
    }
}

/// The numeral `dec(n)` reads back as `n`.
proof fn lemma_dec_parses(n: nat, max: nat)
    requires
        n <= max,
    ensures
        spec_parse_unsigned(dec(n), 10, max) == Some(n),
{
    lemma_dec(n);
    assert(unsigned_digits(dec(n)) == dec(n)) by {
        assert(0x30 <= dec(n)[0] <= 0x39);
    }
}

/// In the middle of a component, more digits change nothing.
proof fn lemma_digits_continue(bytes: Seq<u8>, q: Scan, i: int, k: int)
    requires
        0 <= i <= k <= bytes.len(),
        q.state == ParserState::Digit,
        forall|j: int| i <= j < k ==> is_hex_digit(#[trigger] bytes[j]),
    ensures
        spec_parse_from(bytes, q, i) == spec_parse_from(bytes, q, k),
    decreases k - i,
{
    if i < k {
        lemma_digits_continue(bytes, q, i + 1, k);
    }
}

/// A component `dec(n)` at `i..k`, closed by a `.` at `k`.
proof fn lemma_v4_component(bytes: Seq<u8>, p: Scan, i: int, k: int, n: u8)
    requires
        0 <= i < k < bytes.len(),
        bytes.subrange(i, k) == dec(n as nat),
        bytes[k] == 0x2e,
        p.state == ParserState::Initial || p.state == ParserState::V4Sep,
        p.family == FamilyType::Unknown || p.family == FamilyType::V4,
        p.comps.len() < 4,
    ensures
        spec_parse_from(bytes, p, i) == spec_parse_from(
            bytes,
            Scan {
                state: ParserState::V4Sep,
                family: FamilyType::V4,
                comps: p.comps.push(n as u16),
                start: 0,
                ..p
            },
            k + 1,
        ),
{
    lemma_dec(n as nat);
    lemma_dec_parses(n as nat, 255);
    assert forall|j: int| i <= j < k implies is_hex_digit(#[trigger] bytes[j]) by {
        assert(bytes[j] == bytes.subrange(i, k)[j - i]);
    }
    let q = Scan { state: ParserState::Digit, start: i, ..p };
    lemma_digits_continue(bytes, q, i + 1, k);
}

/// A segment `hex(n)` at `i..k`, closed by a `:` at `k`.
proof fn lemma_v6_segment(bytes: Seq<u8>, p: Scan, i: int, k: int, n: u16)
    requires
        0 <= i < k < bytes.len(),
        bytes.subrange(i, k) == hex(n as nat),
        bytes[k] == 0x3a,
        p.state == ParserState::Initial || p.state == ParserState::V6Sep,
        p.family == FamilyType::Unknown || p.family == FamilyType::V6,
        !p.sep_initial,
        p.comps.len() < 8,
    ensures
        spec_parse_from(bytes, p, i) == spec_parse_from(
            bytes,
            Scan {
                state: ParserState::V6Sep,
                family: FamilyType::V6,
                comps: p.comps.push(n),
                start: 0,
                ..p
            },
            k + 1,
        ),
{
    lemma_hex(n as nat);
    assert(unsigned_digits(hex(n as nat)) == hex(n as nat));
    assert forall|j: int| i <= j < k implies is_hex_digit(#[trigger] bytes[j]) by {
        assert(bytes[j] == bytes.subrange(i, k)[j - i]);
    }
    let q = Scan { state: ParserState::Digit, start: i, ..p };
    lemma_digits_continue(bytes, q, i + 1, k);
}

/// Where the parts and separators of the IPv6 address text lie at the start of `s`.
spec fn v6_layout(s: Seq<u8>, seg: Seq<u16>, e: Seq<int>) -> bool {
    &&& seg.len() == 8
    &&& e.len() == 8
    &&& e[0] == hex(seg[0] as nat).len()
    &&& forall|i: int| 1 <= i < 8 ==> #[trigger] e[i] == e[i - 1] + 1 + hex(seg[i] as nat).len()
    &&& e[7] <= s.len()
    &&& s.subrange(0, e[0]) == hex(seg[0] as nat)
    &&& forall|i: int| 1 <= i < 8 ==> s.subrange(e[i - 1] + 1, #[trigger] e[i]) == hex(seg[i] as nat)
    &&& forall|i: int| 0 <= i < 7 ==> s[#[trigger] e[i]] == 0x3a
}

/// The address text followed by any `tail` is laid out as `v6_layout` says, its address part
/// ending at `e[7]`.
proof fn lemma_v6_layout(seg: Seq<u16>, tail: Seq<u8>) -> (e: Seq<int>)
    requires
        seg.len() == 8,
    ensures
        v6_layout(v6_addr_text(seg) + tail, seg, e),
        e[7] == v6_addr_text(seg).len(),
{
    let s = v6_addr_text(seg) + tail;
    let e0 = hex(seg[0] as nat).len() as int;
    let e1 = e0 + 1 + hex(seg[1] as nat).len();
    let e2 = e1 + 1 + hex(seg[2] as nat).len();
    let e3 = e2 + 1 + hex(seg[3] as nat).len();
    let e4 = e3 + 1 + hex(seg[4] as nat).len();
    let e5 = e4 + 1 + hex(seg[5] as nat).len();
    let e6 = e5 + 1 + hex(seg[6] as nat).len();
    let e7 = e6 + 1 + hex(seg[7] as nat).len();
    assert(s.subrange(0, e0) =~= hex(seg[0] as nat));
    assert(s.subrange(e0 + 1, e1) =~= hex(seg[1] as nat));
    assert(s.subrange(e1 + 1, e2) =~= hex(seg[2] as nat));
    assert(s.subrange(e2 + 1, e3) =~= hex(seg[3] as nat));
    assert(s.subrange(e3 + 1, e4) =~= hex(seg[4] as nat));
    assert(s.subrange(e4 + 1, e5) =~= hex(seg[5] as nat));
    assert(s.subrange(e5 + 1, e6) =~= hex(seg[6] as nat));
    assert(s.subrange(e6 + 1, e7) =~= hex(seg[7] as nat));
    assert(s[e0] == 0x3a);
    assert(s[e1] == 0x3a);
    assert(s[e2] == 0x3a);
    assert(s[e3] == 0x3a);
    assert(s[e4] == 0x3a);
    assert(s[e5] == 0x3a);
    assert(s[e6] == 0x3a);
    seq![e0, e1, e2, e3, e4, e5, e6, e7]
}

/// The machine reads the address part of any text laid out as `v6_layout` says, up to the
/// start of the last part; closing the address there gives the address of the parts.
#[verifier::rlimit(80)]
proof fn lemma_v6_machine(s: Seq<u8>, seg: Seq<u16>, e: Seq<int>) -> (q: Scan)
    requires
        v6_layout(s, seg, e),
        e[7] == s.len() || s[e[7]] == 0x2f,
    ensures
        spec_parse(s) == spec_parse_from(s, q, e[7]),
        spec_ip_end(q, s, e[7]) == Ok::<IpAddr, Fault>(v6_addr_of(seg)),
        q.family == FamilyType::V6,
{
    lemma_hex(seg[7] as nat);
    let e0 = e[0];
    let e1 = e[1];
    let e2 = e[2];
    let e3 = e[3];
    let e4 = e[4];
    let e5 = e[5];
    let e6 = e[6];
    let e7 = e[7];
    assert(s.subrange(e0 + 1, e1) == hex(seg[1] as nat));
    assert(s.subrange(e1 + 1, e2) == hex(seg[2] as nat));
    assert(s.subrange(e2 + 1, e3) == hex(seg[3] as nat));
    assert(s.subrange(e3 + 1, e4) == hex(seg[4] as nat));
    assert(s.subrange(e4 + 1, e5) == hex(seg[5] as nat));
    assert(s.subrange(e5 + 1, e6) == hex(seg[6] as nat));
    assert(s.subrange(e6 + 1, e7) == hex(seg[7] as nat));
    assert(s[e0] == 0x3a);
    assert(s[e1] == 0x3a);
    assert(s[e2] == 0x3a);
    assert(s[e3] == 0x3a);
    assert(s[e4] == 0x3a);
    assert(s[e5] == 0x3a);
    assert(s[e6] == 0x3a);
    let p0 = initial_scan();
    lemma_v6_segment(s, p0, 0, e0, seg[0]);
    let p1 = Scan {
        state: ParserState::V6Sep,
        family: FamilyType::V6,
        comps: p0.comps.push(seg[0]),
        start: 0,
        ..p0
    };
    lemma_v6_segment(s, p1, e0 + 1, e1, seg[1]);
    let p2 = Scan { comps: p1.comps.push(seg[1]), ..p1 };
    lemma_v6_segment(s, p2, e1 + 1, e2, seg[2]);
    let p3 = Scan { comps: p2.comps.push(seg[2]), ..p2 };
    lemma_v6_segment(s, p3, e2 + 1, e3, seg[3]);
    let p4 = Scan { comps: p3.comps.push(seg[3]), ..p3 };
    lemma_v6_segment(s, p4, e3 + 1, e4, seg[4]);
    let p5 = Scan { comps: p4.comps.push(seg[4]), ..p4 };
    lemma_v6_segment(s, p5, e4 + 1, e5, seg[5]);
    let p6 = Scan { comps: p5.comps.push(seg[5]), ..p5 };
    lemma_v6_segment(s, p6, e5 + 1, e6, seg[6]);
    let p7 = Scan { comps: p6.comps.push(seg[6]), ..p6 };
    // the last part runs up to the end of the address
    assert forall|j: int| e6 + 1 <= j < e7 implies is_hex_digit(#[trigger] s[j]) by {
        assert(s[j] == s.subrange(e6 + 1, e7)[j - (e6 + 1)]);
    }
    let q = Scan { state: ParserState::Digit, start: e6 + 1, ..p7 };
    lemma_digits_continue(s, q, e6 + 2, e7);
    assert(unsigned_digits(hex(seg[7] as nat)) == hex(seg[7] as nat));
    assert(q.comps.push(seg[7]) =~= seg);
    q
}

/// Parsing the canonical text of an IPv6 address gives back the address, with no prefix length.
pub proof fn lemma_v6_addr_text_round_trip(seg: Seq<u16>)
    requires
        seg.len() == 8,
    ensures
        spec_parse(v6_addr_text(seg)) == Ok::<(IpAddr, Option<u8>), Fault>((v6_addr_of(seg), None)),
{
    let s = v6_addr_text(seg);
    let tail = Seq::<u8>::empty();
    assert(v6_addr_text(seg) + tail =~= s);
    let e = lemma_v6_layout(seg, tail);
    lemma_v6_machine(s, seg, e);
}

/// Parsing the canonical text of an IPv6 block gives back its address and prefix length.
pub proof fn lemma_v6_text_round_trip(seg: Seq<u16>, prefix: u8)
    requires
        seg.len() == 8,
        prefix <= 128,
    ensures
        spec_parse(v6_text(seg, prefix)) == Ok::<(IpAddr, Option<u8>), Fault>(
            (v6_addr_of(seg), Some(prefix)),
        ),
{
    let s = v6_text(seg, prefix);
    let tail = seq![0x2fu8] + dec(prefix as nat);
    assert(v6_addr_text(seg) + tail =~= s);
    let e = lemma_v6_layout(seg, tail);
    assert(s[e[7]] == 0x2f);
    lemma_dec(prefix as nat);
    lemma_dec_parses(prefix as nat, 255);
    assert(s.subrange(e[7] + 1, s.len() as int) =~= dec(prefix as nat));
    lemma_v6_machine(s, seg, e);
}

/// Where the parts and separators of the IPv4 address text lie at the start of `s`.
spec fn v4_layout(s: Seq<u8>, o: Seq<u8>, e: Seq<int>) -> bool {
    &&& o.len() == 4
    &&& e.len() == 4
    &&& e[0] == dec(o[0] as nat).len()
    &&& forall|i: int| 1 <= i < 4 ==> #[trigger] e[i] == e[i - 1] + 1 + dec(o[i] as nat).len()
    &&& e[3] <= s.len()
    &&& s.subrange(0, e[0]) == dec(o[0] as nat)
    &&& forall|i: int| 1 <= i < 4 ==> s.subrange(e[i - 1] + 1, #[trigger] e[i]) == dec(o[i] as nat)
    &&& forall|i: int| 0 <= i < 3 ==> s[#[trigger] e[i]] == 0x2e
}

/// The address text followed by any `tail` is laid out as `v4_layout` says, its address part
/// ending at `e[3]`.
proof fn lemma_v4_layout(o: Seq<u8>, tail: Seq<u8>) -> (e: Seq<int>)
    requires
        o.len() == 4,
    ensures
        v4_layout(v4_addr_text(o[0], o[1], o[2], o[3]) + tail, o, e),
        e[3] == v4_addr_text(o[0], o[1], o[2], o[3]).len(),
{
    let s = v4_addr_text(o[0], o[1], o[2], o[3]) + tail;
    let e0 = dec(o[0] as nat).len() as int;
    let e1 = e0 + 1 + dec(o[1] as nat).len();
    let e2 = e1 + 1 + dec(o[2] as nat).len();
    let e3 = e2 + 1 + dec(o[3] as nat).len();
    assert(s.subrange(0, e0) =~= dec(o[0] as nat));
    assert(s.subrange(e0 + 1, e1) =~= dec(o[1] as nat));
    assert(s.subrange(e1 + 1, e2) =~= dec(o[2] as nat));
    assert(s.subrange(e2 + 1, e3) =~= dec(o[3] as nat));
    assert(s[e0] == 0x2e);
    assert(s[e1] == 0x2e);
    assert(s[e2] == 0x2e);
    seq![e0, e1, e2, e3]
}

/// The machine reads the address part of any text laid out as `v4_layout` says, up to the
/// start of the last part; closing the address there gives the address of the parts.
proof fn lemma_v4_machine(s: Seq<u8>, o: Seq<u8>, e: Seq<int>) -> (q: Scan)
    requires
        v4_layout(s, o, e),
        e[3] == s.len() || s[e[3]] == 0x2f,
    ensures
        spec_parse(s) == spec_parse_from(s, q, e[3]),
        spec_ip_end(q, s, e[3]) == Ok::<IpAddr, Fault>(v4_addr_of(o)),
        q.family == FamilyType::V4,
{
    lemma_dec(o[3] as nat);
    let e0 = e[0];
    let e1 = e[1];
    let e2 = e[2];
    let e3 = e[3];
    assert(s.subrange(e0 + 1, e1) == dec(o[1] as nat));
    assert(s.subrange(e1 + 1, e2) == dec(o[2] as nat));
    assert(s.subrange(e2 + 1, e3) == dec(o[3] as nat));
    assert(s[e0] == 0x2e);
    assert(s[e1] == 0x2e);
    assert(s[e2] == 0x2e);
    let p0 = initial_scan();
    lemma_v4_component(s, p0, 0, e0, o[0]);
    let p1 = Scan {
        state: ParserState::V4Sep,
        family: FamilyType::V4,
        comps: p0.comps.push(o[0] as u16),
        start: 0,
        ..p0
    };
    lemma_v4_component(s, p1, e0 + 1, e1, o[1]);
    let p2 = Scan { comps: p1.comps.push(o[1] as u16), ..p1 };
    lemma_v4_component(s, p2, e1 + 1, e2, o[2]);
    let p3 = Scan { comps: p2.comps.push(o[2] as u16), ..p2 };
    // the last part runs up to the end of the address
    assert forall|j: int| e2 + 1 <= j < e3 implies is_hex_digit(#[trigger] s[j]) by {
        assert(s[j] == s.subrange(e2 + 1, e3)[j - (e2 + 1)]);
    }
    let q = Scan { state: ParserState::Digit, start: e2 + 1, ..p3 };
    lemma_digits_continue(s, q, e2 + 2, e3);
    lemma_dec_parses(o[3] as nat, 255);
    let comps = q.comps.push(o[3] as u16);
    assert(comps =~= seq![o[0] as u16, o[1] as u16, o[2] as u16, o[3] as u16]);
    q
}

/// Parsing the canonical text of an IPv4 address gives back the address, with no prefix length.
pub proof fn lemma_v4_addr_text_round_trip(a: u8, b: u8, c: u8, d: u8)
    requires
    ensures
        spec_parse(v4_addr_text(a, b, c, d)) == Ok::<(IpAddr, Option<u8>), Fault>((v4_addr_of(seq![a, b, c, d]), None)),
{
    let o = seq![a, b, c, d];
    let s = v4_addr_text(a, b, c, d);
    let tail = Seq::<u8>::empty();
    assert(v4_addr_text(o[0], o[1], o[2], o[3]) + tail =~= s);
    let e = lemma_v4_layout(o, tail);
    lemma_v4_machine(s, o, e);
}

/// Parsing the canonical text of an IPv4 block gives back its address and prefix length.
pub proof fn lemma_v4_text_round_trip(a: u8, b: u8, c: u8, d: u8, prefix: u8)
    requires
        prefix <= 32,
    ensures
        spec_parse(v4_text(a, b, c, d, prefix)) == Ok::<(IpAddr, Option<u8>), Fault>(
            (v4_addr_of(seq![a, b, c, d]), Some(prefix)),
        ),
{
    let o = seq![a, b, c, d];
    let s = v4_text(a, b, c, d, prefix);
    let tail = seq![0x2fu8] + dec(prefix as nat);
    assert(v4_addr_text(o[0], o[1], o[2], o[3]) + tail =~= s);
    let e = lemma_v4_layout(o, tail);
    assert(s[e[3]] == 0x2f);
    lemma_dec(prefix as nat);
    lemma_dec_parses(prefix as nat, 255);
    assert(s.subrange(e[3] + 1, s.len() as int) =~= dec(prefix as nat));
    lemma_v4_machine(s, o, e);
}

} // verus!
