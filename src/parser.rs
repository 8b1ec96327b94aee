//! The parser: reads a text into an address and an optional prefix length, one byte at a time,
//! following the machine of `scan`.
use vstd::prelude::*;
use vstd::slice::slice_subrange;
use vstd::string::StringSliceAdditionalSpecFns;
use vstd::utf8::{
    is_char_boundary, is_continuation_byte, length_of_first_scalar, pop_first_scalar, valid_utf8,
};

use crate::radix::parse_unsigned;
use crate::scan::{
    ascii_prefix, ascii_range, initial_scan, spec_cidr, spec_extract, spec_ip_end, spec_on_digit,
    spec_on_v4_sep, spec_on_v4_sep_left, spec_on_v6_sep, spec_on_v6_sep_left, spec_parse, spec_parse_from, spec_read_ip, spec_splice, spec_step, spec_step_left,
    FamilyType, Fault, ParserState, Scan,
};
use crate::v4::Ipv4Addr;
use crate::v6::Ipv6Addr;
use crate::IpAddr;

verus! {

broadcast use vstd::utf8::encode_utf8_valid_utf8;

/// Why a text is not an address.
#[derive(Debug, PartialEq, Eq)]
pub enum ParseError<'a> {
    /// Invalid address component
    InvalidComponent(&'a str),
    /// Invalid CIDR prefix
    InvalidCidr(&'a str),
    /// Unexpected character, with the byte offset where it was met
    UnexpectedCharacter(char, usize),
    /// Input is not a valid IP address
    InvalidIp,
    /// Address is not valid IPv4
    InvalidIpv4,
    /// IPv4 address must have 4 components; carries the count seen
    Ipv4InvalidComponentSize(u8),
    /// IPv4 address component is greater than 255
    Ipv4ComponentOverflow(u16),
    /// Address is not valid IPv6
    InvalidIpv6,
    /// IPv6 address must have 8 components; carries the count seen
    Ipv6InvalidComponentSize(u8),
    /// IPv6 address holds more than one `::`
    Ipv6MultipleZeroAbbrv,
    /// Non-ASCII character, with the byte offset where it was met
    NonAsciiCharacter(usize),
    /// No address is given
    MissingIp,
    /// No prefix length follows the `/`
    MissingCidr,
    /// Prefix length is greater than 32
    Ipv4CidrPrefixOverflow(u8),
    /// Prefix length is greater than 128
    Ipv6CidrPrefixOverflow(u8),
}

impl<'a> ParseError<'a> {
    /// This error is the fault `f` of the text whose bytes are `bytes`.
    pub open spec fn is_fault(self, f: Fault, bytes: Seq<u8>) -> bool {
        match (self, f) {
            (ParseError::InvalidComponent(s), Fault::InvalidComponent(a, b)) => s.spec_bytes()
                == bytes.subrange(a, b),
            (ParseError::InvalidCidr(s), Fault::InvalidCidr(a, b)) => s.spec_bytes()
                == bytes.subrange(a, b),
            (ParseError::UnexpectedCharacter(c, i), Fault::UnexpectedCharacter(b, j)) => c == (
            b as char) && i == j,
            (ParseError::InvalidIp, Fault::InvalidIp) => true,
            (ParseError::InvalidIpv4, Fault::InvalidIpv4) => true,
            (ParseError::Ipv4InvalidComponentSize(n), Fault::Ipv4InvalidComponentSize(m)) => n
                == m,
            (ParseError::Ipv4ComponentOverflow(n), Fault::Ipv4ComponentOverflow(m)) => n == m,
            (ParseError::InvalidIpv6, Fault::InvalidIpv6) => true,
            (ParseError::Ipv6InvalidComponentSize(n), Fault::Ipv6InvalidComponentSize(m)) => n
                == m,
            (ParseError::Ipv6MultipleZeroAbbrv, Fault::Ipv6MultipleZeroAbbrv) => true,
            (ParseError::MissingIp, Fault::MissingIp) => true,
            (ParseError::MissingCidr, Fault::MissingCidr) => true,
            (ParseError::Ipv4CidrPrefixOverflow(n), Fault::Ipv4CidrPrefixOverflow(m)) => n == m,
            (ParseError::Ipv6CidrPrefixOverflow(n), Fault::Ipv6CidrPrefixOverflow(m)) => n == m,
            _ => false,
        }
    }
}

/// A step returned `r` and left the machine in `after`, where the model gives `expected`, and
/// `left` as the state after a fault.
pub open spec fn step_outcome<'a>(
    r: Option<ParseError<'a>>,
    after: Scan,
    expected: Result<Scan, Fault>,
    left: Scan,
    bytes: Seq<u8>,
) -> bool {
    match expected {
        Ok(q) => r is None && after == q,
        Err(f) => r matches Some(e) && e.is_fault(f, bytes) && after == left,
    }
}

/// A computation returned `r` where the model gives `expected`.
pub open spec fn outcome<'a, T>(
    r: Result<T, ParseError<'a>>,
    expected: Result<T, Fault>,
    bytes: Seq<u8>,
) -> bool {
    match expected {
        Ok(v) => r == Ok::<T, ParseError<'a>>(v),
        Err(f) => r matches Err(e) && e.is_fault(f, bytes),
    }
}

/// In valid UTF-8, an ASCII byte starts a character, and the position after it does too.
proof fn lemma_ascii_boundary(bytes: Seq<u8>, k: int)
    requires
        valid_utf8(bytes),
        0 <= k < bytes.len(),
        bytes[k] < 0x80,
    ensures
        is_char_boundary(bytes, k),
        is_char_boundary(bytes, k + 1),
    decreases bytes.len(),
{
    let len = length_of_first_scalar(bytes);
    let rest = pop_first_scalar(bytes);
    assert(valid_utf8(rest));
    if k == 0 {
        assert(len == 1);
        assert(is_char_boundary(rest, 0));
    } else {
        if k < len {
            assert(is_continuation_byte(bytes[k]));
        }
        assert(rest[k - len] == bytes[k]);
        lemma_ascii_boundary(rest, k - len);
    }
}

/// Reading from a `/` closes the address and reads the prefix length.
proof fn lemma_parse_at_slash(bytes: Seq<u8>, p: Scan, i: int)
    requires
        0 <= i < bytes.len(),
        bytes[i] == 0x2f,
    ensures
        spec_parse_from(bytes, p, i) == match spec_ip_end(p, bytes, i) {
            Err(f) => Err(f),
            Ok(ip) => match spec_cidr(p.family, bytes, i) {
                Ok(c) => Ok((ip, Some(c))),
                Err(f) => Err(f),
            },
        },
{
}

/// Reading from any other byte takes one step of the machine.
proof fn lemma_parse_at_step(bytes: Seq<u8>, p: Scan, i: int)
    requires
        0 <= i < bytes.len(),
        bytes[i] != 0x2f,
    ensures
        spec_parse_from(bytes, p, i) == match spec_step(p, bytes, i) {
            Ok(q) => spec_parse_from(bytes, q, i + 1),
            Err(f) => Err(f),
        },
{
}

/// The parser over one text.
pub struct Parser<'a> {
    state: ParserState,
    family: FamilyType,
    zero_skip: bool,
    sep_initial: bool,
    components_size: u8,
    components: [u16; 8],
    zero_component_start: u8,
    start_digit_position: usize,
    text: &'a [u8],
    src: &'a str,
}

impl<'a> View for Parser<'a> {
    type V = Scan;

    closed spec fn view(&self) -> Scan {
        Scan {
            state: self.state,
            family: self.family,
            zero_skip: self.zero_skip,
            sep_initial: self.sep_initial,
            comps: self.components@.subrange(0, self.components_size as int),
            zero_start: self.zero_component_start as nat,
            start: self.start_digit_position as int,
        }
    }
}

impl<'a> Parser<'a> {
    /// The bytes of the text being parsed.
    pub closed spec fn bytes(&self) -> Seq<u8> {
        self.text@
    }

    /// The fields agree with one another and with the text.
    pub closed spec fn wf(&self) -> bool {
        &&& self.text@ == self.src.spec_bytes()
        &&& self.components_size <= 8
        &&& self.zero_component_start <= self.components_size
    }

    /// A parser at the start of `text`.
    pub fn new(text: &'a str) -> (r: Parser<'a>)
        ensures
            r.wf(),
            r@ == initial_scan(),
            r.bytes() == text.spec_bytes(),
    {
        let r = Parser {
            state: ParserState::Initial,
            family: FamilyType::Unknown,
            zero_skip: false,
            sep_initial: false,
            components_size: 0,
            components: [0u16; 8],
            zero_component_start: 0,
            start_digit_position: 0,
            text: text.as_bytes(),
            src: text,
        };
        assert(r@.comps =~= seq![]);
        r
    }

    /// The text between byte offsets `from` and `to`, which are ASCII bytes.
    fn slice(&self, from: usize, to: usize) -> (r: &'a str)
        requires
            self.wf(),
            from < to <= self.bytes().len(),
            ascii_range(self.bytes(), from as int, to as int),
        ensures
            r.spec_bytes() == self.bytes().subrange(from as int, to as int),
    {
        let ghost bytes = self.bytes();
        proof {
            lemma_ascii_boundary(bytes, to - 1);
        }
        let (head, _) = self.src.split_at(to);
        proof {
            let hb = head.spec_bytes();
            assert(hb =~= bytes.subrange(0, to as int));
            assert(hb[from as int] == bytes[from as int]);
            lemma_ascii_boundary(hb, from as int);
        }
        let (_, r) = head.split_at(from);
        assert(r.spec_bytes() =~= bytes.subrange(from as int, to as int));
        r
    }

    /// Closes the component whose digits end at `pos`.
    fn extract_component(&mut self, pos: usize) -> (r: Option<ParseError<'a>>)
        requires
            old(self).wf(),
            old(self)@.start <= pos <= old(self).bytes().len(),
            ascii_range(old(self).bytes(), old(self)@.start, pos as int),
        ensures
            final(self).wf(),
            final(self).bytes() == old(self).bytes(),
            final(self)@.family == old(self)@.family,
            step_outcome(r, final(self)@, spec_extract(old(self)@, old(self).bytes(), pos as int), old(self)@, old(self).bytes()),
    {
        let start = self.start_digit_position;
        let digits = slice_subrange(self.text, start, pos);
        let result = match self.family {
            FamilyType::V4 => {
                if self.components_size >= 4 {
                    return Some(ParseError::Ipv4InvalidComponentSize(self.components_size + 1));
                }
                parse_unsigned(digits, 10, 255)
            },
            FamilyType::V6 => {
                if self.components_size >= 8 {
                    return Some(ParseError::Ipv6InvalidComponentSize(self.components_size + 1));
                }
                parse_unsigned(digits, 16, 0xffff)
            },
            FamilyType::Unknown => return None,
        };
        match result {
            Some(component) => {
                let ghost before = self.components@.subrange(0, self.components_size as int);
                self.components[self.components_size as usize] = component as u16;
                self.components_size = self.components_size + 1;
                self.start_digit_position = 0;
                assert(self.components@.subrange(0, self.components_size as int) =~= before.push(
                    component as u16,
                ));
                None
            },
            None => {
                if start < pos {
                    Some(ParseError::InvalidComponent(self.slice(start, pos)))
                } else {
                    proof {
                        reveal_strlit("");
                    }
                    assert("".spec_bytes() =~= self.bytes().subrange(start as int, pos as int));
                    Some(ParseError::InvalidComponent(""))
                }
            },
        }
    }

    /// A digit at `pos`.
    pub fn on_digit(&mut self, pos: usize) -> (r: Option<ParseError<'a>>)
        requires
            old(self).wf(),
        ensures
            final(self).wf(),
            final(self).bytes() == old(self).bytes(),
            step_outcome(r, final(self)@, spec_on_digit(old(self)@, pos as int), old(self)@, old(self).bytes()),
    {
        match self.state {
            ParserState::Digit => None,
            ParserState::V6Sep if self.sep_initial => Some(ParseError::InvalidIpv6),
            _ => {
                self.state = ParserState::Digit;
                self.start_digit_position = pos;
                None
            },
        }
    }

    /// A `.` at `pos`.
    pub fn on_v4_sep(&mut self, pos: usize) -> (r: Option<ParseError<'a>>)
        requires
            old(self).wf(),
            old(self)@.state == ParserState::Digit ==> old(self)@.start <= pos <= old(self).bytes().len()
                && ascii_range(old(self).bytes(), old(self)@.start, pos as int),
        ensures
            final(self).wf(),
            final(self).bytes() == old(self).bytes(),
            step_outcome(r, final(self)@, spec_on_v4_sep(old(self)@, old(self).bytes(), pos as int), spec_on_v4_sep_left(old(self)@), old(self).bytes()),
    {
        let result = match self.state {
            ParserState::Digit => match self.family {
                FamilyType::V6 => return Some(ParseError::InvalidIpv6),
                FamilyType::Unknown => {
                    self.family = FamilyType::V4;
                    self.extract_component(pos)
                },
                FamilyType::V4 => self.extract_component(pos),
            },
            _ => Some(ParseError::InvalidIpv4),
        };
        self.state = ParserState::V4Sep;
        result
    }

    /// A `:` at `pos`.
    pub fn on_v6_sep(&mut self, pos: usize) -> (r: Option<ParseError<'a>>)
        requires
            old(self).wf(),
            old(self)@.state == ParserState::Digit ==> old(self)@.start <= pos <= old(self).bytes().len()
                && ascii_range(old(self).bytes(), old(self)@.start, pos as int),
        ensures
            final(self).wf(),
            final(self).bytes() == old(self).bytes(),
            step_outcome(r, final(self)@, spec_on_v6_sep(old(self)@, old(self).bytes(), pos as int), spec_on_v6_sep_left(old(self)@), old(self).bytes()),
    {
        let result = match self.state {
            ParserState::Digit => match self.family {
                FamilyType::V4 => return Some(ParseError::InvalidIpv4),
                FamilyType::Unknown => {
                    self.family = FamilyType::V6;
                    self.extract_component(pos)
                },
                FamilyType::V6 => self.extract_component(pos),
            },
            ParserState::V6Sep => {
                // only one `::` is allowed
                if self.zero_skip {
                    return Some(ParseError::Ipv6MultipleZeroAbbrv);
                } else {
                    self.sep_initial = false;
                    self.zero_skip = true;
                    self.zero_component_start = self.components_size;
                    self.family = FamilyType::V6;
                    return None;
                }
            },
            // the text may begin with `::`
            ParserState::Initial => {
                self.sep_initial = true;
                None
            },
            ParserState::V4Sep => Some(ParseError::InvalidIpv4),
        };
        self.state = ParserState::V6Sep;
        result
    }

    /// Puts the zeros of a `::` in at the recorded place, to make eight components.
    fn splice_zeros(&self) -> (r: [u16; 8])
        requires
            self.wf(),
            self.components_size < 8,
        ensures
            r@ == spec_splice(self@.comps, self@.zero_start as int),
    {
        let n = self.components_size as usize;
        let z = self.zero_component_start as usize;
        let gap = 8 - n;
        let mut out = [0u16; 8];
        let mut j: usize = 0;
        while j < z
            invariant
                j <= z <= n < 8,
                self.wf(),
                n == self.components_size,
                forall|t: int| 0 <= t < j ==> out@[t] == self.components@[t],
                forall|t: int| j <= t < 8 ==> out@[t] == 0,
            decreases z - j,
        {
            out[j] = self.components[j];
            j = j + 1;
        }
        while j < n
            invariant
                z <= j <= n < 8,
                gap == 8 - n,
                self.wf(),
                n == self.components_size,
                z == self.zero_component_start,
                forall|t: int| 0 <= t < z ==> out@[t] == self.components@[t],
                forall|t: int| z <= t < z + gap ==> out@[t] == 0,
                forall|t: int| z <= t < j ==> out@[t + gap] == self.components@[t],
                forall|t: int| j + gap <= t < 8 ==> out@[t] == 0,
            decreases n - j,
        {
            out[j + gap] = self.components[j];
            j = j + 1;
        }
        assert(out@ =~= spec_splice(self@.comps, self@.zero_start as int));
        out
    }

    /// Assembles the address from the components read.
    fn read_ip(&self) -> (r: Result<IpAddr, ParseError<'a>>)
        requires
            self.wf(),
        ensures
            outcome(r, spec_read_ip(self@), self.bytes()),
    {
        let c = &self.components;
        match self.family {
            FamilyType::V4 => if self.components_size == 4 {
                if c[0] > 255 {
                    return Err(ParseError::Ipv4ComponentOverflow(c[0]));
                }
                if c[1] > 255 {
                    return Err(ParseError::Ipv4ComponentOverflow(c[1]));
                }
                if c[2] > 255 {
                    return Err(ParseError::Ipv4ComponentOverflow(c[2]));
                }
                if c[3] > 255 {
                    return Err(ParseError::Ipv4ComponentOverflow(c[3]));
                }
                Ok(IpAddr::V4(Ipv4Addr::new(c[0] as u8, c[1] as u8, c[2] as u8, c[3] as u8)))
            } else {
                Err(ParseError::Ipv4InvalidComponentSize(self.components_size))
            },
            FamilyType::V6 => {
                let s = if self.components_size < 8 {
                    if self.zero_skip {
                        self.splice_zeros()
                    } else {
                        return Err(ParseError::Ipv6InvalidComponentSize(self.components_size));
                    }
                } else {
                    assert(self@.comps =~= self.components@);
                    self.components
                };
                let ip = Ipv6Addr::new(s[0], s[1], s[2], s[3], s[4], s[5], s[6], s[7]);
                assert(seq![s[0], s[1], s[2], s[3], s[4], s[5], s[6], s[7]] =~= s@);
                Ok(IpAddr::V6(ip))
            },
            FamilyType::Unknown => match self.state {
                ParserState::Initial => Err(ParseError::MissingIp),
                _ => Err(ParseError::InvalidIp),
            },
        }
    }

    /// Closes the address part at `pos`, the end of the text or a `/`.
    fn on_ip_end(&mut self, pos: usize) -> (r: Result<IpAddr, ParseError<'a>>)
        requires
            old(self).wf(),
            old(self)@.state == ParserState::Digit ==> old(self)@.start <= pos <= old(self).bytes().len()
                && ascii_range(old(self).bytes(), old(self)@.start, pos as int),
        ensures
            final(self).wf(),
            final(self).bytes() == old(self).bytes(),
            final(self)@.family == old(self)@.family,
            outcome(r, spec_ip_end(old(self)@, old(self).bytes(), pos as int), old(self).bytes()),
    {
        match self.state {
            ParserState::Digit => match self.extract_component(pos) {
                None => self.read_ip(),
                Some(error) => Err(error),
            },
            ParserState::V4Sep => Err(ParseError::InvalidIpv4),
            ParserState::V6Sep => if self.zero_skip {
                if self.components_size == 0 {
                    Ok(IpAddr::V6(Ipv6Addr::from_bits(0)))
                } else {
                    self.read_ip()
                }
            } else {
                Err(ParseError::InvalidIpv6)
            },
            ParserState::Initial => Err(ParseError::MissingIp),
        }
    }

    /// Reads the prefix length after the `/` at `pos`.
    fn on_cidr_sep(&self, pos: usize) -> (r: Result<u8, ParseError<'a>>)
        requires
            self.wf(),
            pos < self.bytes().len(),
            self.bytes()[pos as int] == 0x2f,
        ensures
            outcome(r, spec_cidr(self@.family, self.bytes(), pos as int), self.bytes()),
    {
        let len = self.text.len();
        let digit_pos = pos + 1;
        if digit_pos >= len {
            return Err(ParseError::MissingCidr);
        }
        let digits = slice_subrange(self.text, digit_pos, len);
        match parse_unsigned(digits, 10, 255) {
            Some(result) => match self.family {
                FamilyType::V4 => if result > crate::v4::BITS_LEN as u32 {
                    Err(ParseError::Ipv4CidrPrefixOverflow(result as u8))
                } else {
                    Ok(result as u8)
                },
                FamilyType::V6 => if result > crate::v6::BITS_LEN as u32 {
                    Err(ParseError::Ipv6CidrPrefixOverflow(result as u8))
                } else {
                    Ok(result as u8)
                },
                FamilyType::Unknown => Err(ParseError::InvalidCidr(self.suffix(digit_pos))),
            },
            None => Err(ParseError::InvalidCidr(self.suffix(digit_pos))),
        }
    }

    /// The text from byte offset `from` to its end.
    fn suffix(&self, from: usize) -> (r: &'a str)
        requires
            self.wf(),
            0 < from <= self.bytes().len(),
            self.bytes()[from - 1] < 0x80,
        ensures
            r.spec_bytes() == self.bytes().subrange(from as int, self.bytes().len() as int),
    {
        proof {
            lemma_ascii_boundary(self.bytes(), from - 1);
        }
        let (_, r) = self.src.split_at(from);
        r
    }

    /// One byte of the address part, at `idx`.
    fn step(&mut self, idx: usize) -> (r: Option<ParseError<'a>>)
        requires
            old(self).wf(),
            idx < old(self).bytes().len(),
            old(self)@.state == ParserState::Digit ==> old(self)@.start <= idx
                && ascii_range(old(self).bytes(), old(self)@.start, idx as int),
            old(self).bytes()[idx as int] != 0x2f,
        ensures
            final(self).wf(),
            final(self).bytes() == old(self).bytes(),
            step_outcome(r, final(self)@, spec_step(old(self)@, old(self).bytes(), idx as int), spec_step_left(old(self)@, old(self).bytes(), idx as int), old(self).bytes()),
    {
        let ch = self.text[idx];
        if (0x30 <= ch && ch <= 0x39) || (0x61 <= ch && ch <= 0x66) || (0x41 <= ch && ch <= 0x46) {
            self.on_digit(idx)
        } else if ch == 0x2e {
            self.on_v4_sep(idx)
        } else if ch == 0x3a {
            self.on_v6_sep(idx)
        } else {
            let c = ch as char;
            assert(c == (ch as char));
            Some(ParseError::UnexpectedCharacter(c, idx))
        }
    }

    /// Reads the whole text.
    pub fn parse(&mut self) -> (r: Result<(IpAddr, Option<u8>), ParseError<'a>>)
        requires
            old(self).wf(),
            old(self)@ == initial_scan(),
        ensures
            outcome(r, spec_parse(old(self).bytes()), old(self).bytes()),
    {
        let ghost bytes = self.bytes();
        let mut idx: usize = 0;
        while idx < self.text.len()
            invariant
                self.wf(),
                self.bytes() == bytes,
                bytes == old(self).bytes(),
                idx <= bytes.len(),
                self@.start <= idx,
                ascii_prefix(bytes, idx as int),
                spec_parse_from(bytes, self@, idx as int) == spec_parse(bytes),
            decreases bytes.len() - idx,
        {
            let ch = self.text[idx];
            let ghost before = self@;
            if ch == 0x2f {
                proof {
                    lemma_parse_at_slash(bytes, before, idx as int);
                }
                let ip = match self.on_ip_end(idx) {
                    Ok(extracted_ip) => extracted_ip,
                    Err(error) => return Err(error),
                };
                return match self.on_cidr_sep(idx) {
                    Ok(cidr) => Ok((ip, Some(cidr))),
                    Err(error) => Err(error),
                };
            }
            proof {
                lemma_parse_at_step(bytes, before, idx as int);
            }
            if let Some(error) = self.step(idx) {
                return Err(error);
            }
            idx = idx + 1;
        }
        match self.on_ip_end(idx) {
            Ok(ip) => Ok((ip, None)),
            Err(error) => Err(error),
        }
    }
}

} // verus!

verus! {

/// Parses `text` into an address and, where a `/` follows it, a prefix length.
pub fn parse_ip(text: &str) -> (r: Result<(IpAddr, Option<u8>), ParseError<'_>>)
    ensures
        outcome(r, spec_parse(text.spec_bytes()), text.spec_bytes()),
{
    let mut parser = Parser::new(text);
    parser.parse()
}

} // verus!
