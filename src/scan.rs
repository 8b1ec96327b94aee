//! The text grammar of addresses, stated as a state machine over the bytes of the text.
//!
//! The machine reads one byte at a time. The address family stays unknown until the first
//! separator: `.` commits to IPv4, `:` to IPv6. Each separator closes the component whose digits
//! precede it. IPv6 allows one `::`, which stands for as many zero components as are needed to
//! reach eight. A `/` ends the address; a decimal prefix length must follow it.
use vstd::prelude::*;

use crate::radix::spec_parse_unsigned;
use crate::v4::Ipv4Addr;
use crate::v6::{spec_from_segments, Ipv6Addr};
use crate::IpAddr;

verus! {

/// What the machine saw last.
#[derive(Clone, Copy, Debug, PartialEq, Eq, Structural)]
pub enum ParserState {
    /// Nothing yet.
    Initial,
    /// A digit of a component.
    Digit,
    /// A `.`.
    V4Sep,
    /// A `:`.
    V6Sep,
}

/// The address family, as far as the separators seen so far tell it.
#[derive(Clone, Copy, Debug, PartialEq, Eq, Structural)]
pub enum FamilyType {
    Unknown,
    V4,
    V6,
}

/// State of the machine after a prefix of the text.
pub struct Scan {
    pub state: ParserState,
    pub family: FamilyType,
    /// A `::` has been seen.
    pub zero_skip: bool,
    /// The text began with a `:` that no second `:` has yet followed.
    pub sep_initial: bool,
    /// The components read so far.
    pub comps: Seq<u16>,
    /// Where in `comps` the zeros of a `::` go.
    pub zero_start: nat,
    /// Byte offset where the digits of the current component began.
    pub start: int,
}

/// Why a text is rejected; text ranges are byte offsets `[from, to)` into the text.
pub enum Fault {
    InvalidComponent(int, int),
    InvalidCidr(int, int),
    UnexpectedCharacter(u8, int),
    InvalidIp,
    InvalidIpv4,
    Ipv4InvalidComponentSize(nat),
    Ipv4ComponentOverflow(nat),
    InvalidIpv6,
    Ipv6InvalidComponentSize(nat),
    Ipv6MultipleZeroAbbrv,
    MissingIp,
    MissingCidr,
    Ipv4CidrPrefixOverflow(nat),
    Ipv6CidrPrefixOverflow(nat),
}

/// `b` is an ASCII hexadecimal digit.
pub open spec fn is_hex_digit(b: u8) -> bool {
    (0x30 <= b <= 0x39) || (0x61 <= b <= 0x66) || (0x41 <= b <= 0x46)
}

/// The first `k` bytes are ASCII.
pub open spec fn ascii_prefix(bytes: Seq<u8>, k: int) -> bool {
    forall|j: int| 0 <= j < k ==> #[trigger] bytes[j] < 0x80
}

/// Bytes `from..to` are ASCII.
pub open spec fn ascii_range(bytes: Seq<u8>, from: int, to: int) -> bool {
    forall|j: int| from <= j < to ==> #[trigger] bytes[j] < 0x80
}

/// The state before any byte.
pub open spec fn initial_scan() -> Scan {
    Scan {
        state: ParserState::Initial,
        family: FamilyType::Unknown,
        zero_skip: false,
        sep_initial: false,
        comps: seq![],
        zero_start: 0,
        start: 0,
    }
}

/// Sets the state of a successful step.
pub open spec fn with_state(r: Result<Scan, Fault>, state: ParserState) -> Result<Scan, Fault> {
    match r {
        Ok(q) => Ok(Scan { state, ..q }),
        Err(f) => Err(f),
    }
}

/// Closes the component whose digits run from `p.start` to `pos`: decimal up to 255 for IPv4,
/// hexadecimal up to `ffff` for IPv6, and at most four or eight components.
pub open spec fn spec_extract(p: Scan, bytes: Seq<u8>, pos: int) -> Result<Scan, Fault> {
    let text = bytes.subrange(p.start, pos);
    let n = p.comps.len();
    match p.family {
        FamilyType::V4 => if n >= 4 {
            Err(Fault::Ipv4InvalidComponentSize(n + 1))
        } else {
            match spec_parse_unsigned(text, 10, 255) {
                Some(v) => Ok(Scan { comps: p.comps.push(v as u16), start: 0, ..p }),
                None => Err(Fault::InvalidComponent(p.start, pos)),
            }
        },
        FamilyType::V6 => if n >= 8 {
            Err(Fault::Ipv6InvalidComponentSize(n + 1))
        } else {
            match spec_parse_unsigned(text, 16, 0xffff) {
                Some(v) => Ok(Scan { comps: p.comps.push(v as u16), start: 0, ..p }),
                None => Err(Fault::InvalidComponent(p.start, pos)),
            }
        },
        FamilyType::Unknown => Ok(p),
    }
}

/// A digit at `pos`.
pub open spec fn spec_on_digit(p: Scan, pos: int) -> Result<Scan, Fault> {
    match p.state {
        ParserState::Digit => Ok(p),
        ParserState::V6Sep if p.sep_initial => Err(Fault::InvalidIpv6),
        _ => Ok(Scan { state: ParserState::Digit, start: pos, ..p }),
    }
}

/// A `.` at `pos`.
pub open spec fn spec_on_v4_sep(p: Scan, bytes: Seq<u8>, pos: int) -> Result<Scan, Fault> {
    match p.state {
        ParserState::Digit => match p.family {
            FamilyType::V6 => Err(Fault::InvalidIpv6),
            FamilyType::V4 => with_state(spec_extract(p, bytes, pos), ParserState::V4Sep),
            FamilyType::Unknown => with_state(
                spec_extract(Scan { family: FamilyType::V4, ..p }, bytes, pos),
                ParserState::V4Sep,
            ),
        },
        _ => Err(Fault::InvalidIpv4),
    }
}

/// The state that a rejected `.` leaves: a `.` after IPv6 digits changes nothing; otherwise the
/// separator is taken (and digits before it commit the family to IPv4).
pub open spec fn spec_on_v4_sep_left(p: Scan) -> Scan {
    if p.state == ParserState::Digit && p.family == FamilyType::V6 {
        p
    } else if p.state == ParserState::Digit {
        Scan { state: ParserState::V4Sep, family: FamilyType::V4, ..p }
    } else {
        Scan { state: ParserState::V4Sep, ..p }
    }
}

/// A `:` at `pos`.
pub open spec fn spec_on_v6_sep(p: Scan, bytes: Seq<u8>, pos: int) -> Result<Scan, Fault> {
    match p.state {
        ParserState::Digit => match p.family {
            FamilyType::V4 => Err(Fault::InvalidIpv4),
            FamilyType::V6 => with_state(spec_extract(p, bytes, pos), ParserState::V6Sep),
            FamilyType::Unknown => with_state(
                spec_extract(Scan { family: FamilyType::V6, ..p }, bytes, pos),
                ParserState::V6Sep,
            ),
        },
        ParserState::V6Sep => if p.zero_skip {
            Err(Fault::Ipv6MultipleZeroAbbrv)
        } else {
            Ok(
                Scan {
                    sep_initial: false,
                    zero_skip: true,
                    zero_start: p.comps.len(),
                    family: FamilyType::V6,
                    ..p
                },
            )
        },
        ParserState::Initial => Ok(Scan { sep_initial: true, state: ParserState::V6Sep, ..p }),
        ParserState::V4Sep => Err(Fault::InvalidIpv4),
    }
}

/// The state that a rejected `:` leaves: after IPv4 digits or a second `::` nothing changes;
/// otherwise the separator is taken (and digits before it commit the family to IPv6).
pub open spec fn spec_on_v6_sep_left(p: Scan) -> Scan {
    match p.state {
        ParserState::Digit => if p.family == FamilyType::V4 {
            p
        } else {
            Scan { state: ParserState::V6Sep, family: FamilyType::V6, ..p }
        },
        ParserState::V4Sep => Scan { state: ParserState::V6Sep, ..p },
        _ => p,
    }
}

/// One byte of the address part.
pub open spec fn spec_step(p: Scan, bytes: Seq<u8>, i: int) -> Result<Scan, Fault> {
    let b = bytes[i];
    if is_hex_digit(b) {
        spec_on_digit(p, i)
    } else if b == 0x2e {
        spec_on_v4_sep(p, bytes, i)
    } else if b == 0x3a {
        spec_on_v6_sep(p, bytes, i)
    } else {
        Err(Fault::UnexpectedCharacter(b, i))
    }
}

/// The state that a rejected byte of the address part leaves.
pub open spec fn spec_step_left(p: Scan, bytes: Seq<u8>, i: int) -> Scan {
    let b = bytes[i];
    if is_hex_digit(b) {
        p
    } else if b == 0x2e {
        spec_on_v4_sep_left(p)
    } else if b == 0x3a {
        spec_on_v6_sep_left(p)
    } else {
        p
    }
}

/// Fewer than eight components with the zeros of a `::` put in at `z`.
pub open spec fn spec_splice(comps: Seq<u16>, z: int) -> Seq<u16> {
    comps.subrange(0, z) + Seq::new((8 - comps.len()) as nat, |i: int| 0u16) + comps.subrange(
        z,
        comps.len() as int,
    )
}

/// The 32-bit pattern of four octets, first octet in the high bits.
pub open spec fn spec_from_octets(c: Seq<u16>) -> int {
    c[0] as int * 0x100_0000 + c[1] as int * 0x1_0000 + c[2] as int * 0x100 + c[3] as int
}

/// Assembles the address from the components read.
pub open spec fn spec_read_ip(p: Scan) -> Result<IpAddr, Fault> {
    let c = p.comps;
    let n = c.len();
    match p.family {
        FamilyType::V4 => if n == 4 {
            if c[0] > 255 {
                Err(Fault::Ipv4ComponentOverflow(c[0] as nat))
            } else if c[1] > 255 {
                Err(Fault::Ipv4ComponentOverflow(c[1] as nat))
            } else if c[2] > 255 {
                Err(Fault::Ipv4ComponentOverflow(c[2] as nat))
            } else if c[3] > 255 {
                Err(Fault::Ipv4ComponentOverflow(c[3] as nat))
            } else {
                Ok(IpAddr::V4(Ipv4Addr { bits: spec_from_octets(c) as u32 }))
            }
        } else {
            Err(Fault::Ipv4InvalidComponentSize(n))
        },
        FamilyType::V6 => if n > 8 {
            Err(Fault::InvalidIpv6)
        } else if n < 8 {
            if p.zero_skip {
                Ok(
                    IpAddr::V6(
                        Ipv6Addr {
                            bits: spec_from_segments(spec_splice(c, p.zero_start as int)) as u128,
                        },
                    ),
                )
            } else {
                Err(Fault::Ipv6InvalidComponentSize(n))
            }
        } else {
            Ok(IpAddr::V6(Ipv6Addr { bits: spec_from_segments(c) as u128 }))
        },
        FamilyType::Unknown => if p.state == ParserState::Initial {
            Err(Fault::MissingIp)
        } else {
            Err(Fault::InvalidIp)
        },
    }
}

/// The end of the address part, at `pos` (the end of the text or a `/`).
pub open spec fn spec_ip_end(p: Scan, bytes: Seq<u8>, pos: int) -> Result<IpAddr, Fault> {
    match p.state {
        ParserState::Digit => match spec_extract(p, bytes, pos) {
            Ok(q) => spec_read_ip(q),
            Err(f) => Err(f),
        },
        ParserState::V4Sep => Err(Fault::InvalidIpv4),
        ParserState::V6Sep => if p.zero_skip {
            if p.comps.len() == 0 {
                Ok(IpAddr::V6(Ipv6Addr { bits: 0 }))
            } else {
                spec_read_ip(p)
            }
        } else {
            Err(Fault::InvalidIpv6)
        },
        ParserState::Initial => Err(Fault::MissingIp),
    }
}

/// The prefix length after the `/` at `pos`: a decimal numeral up to the family's width.
pub open spec fn spec_cidr(family: FamilyType, bytes: Seq<u8>, pos: int) -> Result<u8, Fault> {
    let d = pos + 1;
    let len = bytes.len() as int;
    if d >= len {
        Err(Fault::MissingCidr)
    } else {
        match spec_parse_unsigned(bytes.subrange(d, len), 10, 255) {
            None => Err(Fault::InvalidCidr(d, len)),
            Some(v) => match family {
                FamilyType::V4 => if v > 32 {
                    Err(Fault::Ipv4CidrPrefixOverflow(v))
                } else {
                    Ok(v as u8)
                },
                FamilyType::V6 => if v > 128 {
                    Err(Fault::Ipv6CidrPrefixOverflow(v))
                } else {
                    Ok(v as u8)
                },
                FamilyType::Unknown => Err(Fault::InvalidCidr(d, len)),
            },
        }
    }
}

/// The outcome of reading `bytes` from offset `i` on, in state `p`.
pub open spec fn spec_parse_from(bytes: Seq<u8>, p: Scan, i: int) -> Result<
    (IpAddr, Option<u8>),
    Fault,
>
    decreases bytes.len() - i,
{
    if i >= bytes.len() || i < 0 {
        match spec_ip_end(p, bytes, i) {
            Ok(ip) => Ok((ip, None)),
            Err(f) => Err(f),
        }
    } else if bytes[i] == 0x2f {
        match spec_ip_end(p, bytes, i) {
            Err(f) => Err(f),
            Ok(ip) => match spec_cidr(p.family, bytes, i) {
                Ok(c) => Ok((ip, Some(c))),
                Err(f) => Err(f),
            },
        }
    } else {
        match spec_step(p, bytes, i) {
            Ok(q) => spec_parse_from(bytes, q, i + 1),
            Err(f) => Err(f),
        }
    }
}

/// The outcome of parsing the text whose bytes are `bytes`: an address and, after a `/`,
/// a prefix length.
pub open spec fn spec_parse(bytes: Seq<u8>) -> Result<(IpAddr, Option<u8>), Fault> {
    spec_parse_from(bytes, initial_scan(), 0)
}

} // verus!
