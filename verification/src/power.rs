//! Firmware image for the PIC of the voltage controller.
//!
//! The controller's flash window and transfer protocol are fixed; this
//! module validates an image against the window and parses the vendor's
//! text format, one 16-bit word per line as a hexadecimal number. Reading
//! the file and talking to the controller are external collaborators.

use vstd::prelude::*;

use crate::error::Error;

verus! {

/// First flash address of the program window.
pub const PROGRAM_LOAD_ADDRESS: u16 = 0x0300;

/// Last flash address of the program window, inclusive.
pub const PROGRAM_LOAD_END_ADDRESS: u16 = 0x0f7f;

/// An address in the PIC's flash.
#[derive(Debug, Clone, Copy, PartialEq, Eq, Structural)]
pub struct PicAddress(pub u16);

/// A count of 16-bit PIC words.
#[derive(Debug, Clone, Copy, PartialEq, Eq, Structural)]
pub struct PicWords(pub u16);

impl PicAddress {
    /// Number of words from this address to `end`, both included.
    pub fn distance_to(&self, end: PicAddress) -> (r: PicWords)
        requires
            self.0 <= end.0,
            end.0 - self.0 + 1 <= u16::MAX,
        ensures
            r.0 == end.0 - self.0 + 1,
    {
        PicWords(end.0 - self.0 + 1)
    }
}

impl PicWords {
    /// The byte count of this many 16-bit words.
    pub fn to_bytes(&self) -> (r: usize)
        ensures
            r == self.0 * 2,
    {
        (self.0 as usize) * 2
    }
}

/// A program image ready to load into the PIC's flash window.
#[derive(Debug, Clone)]
pub struct PicProgram {
    pub load_addr: PicAddress,
    pub prog_size: PicWords,
    pub bytes: Vec<u8>,
}

impl PicProgram {
    /// Accept an image for the fixed flash window; the byte count must
    /// match the window exactly, anything else is a reported error.
    pub fn from_bytes(bytes: Vec<u8>) -> (r: Result<Self, Error>)
        ensures
            r is Ok <==> bytes@.len() == 2 * (PROGRAM_LOAD_END_ADDRESS - PROGRAM_LOAD_ADDRESS + 1),
            r matches Ok(p) ==> p.load_addr.0 == PROGRAM_LOAD_ADDRESS && p.prog_size.0
                == PROGRAM_LOAD_END_ADDRESS - PROGRAM_LOAD_ADDRESS + 1 && p.bytes@ == bytes@,
            r is Err ==> r == Result::<Self, Error>::Err(Error::ProgramSize(bytes@.len() as usize)),
    {
        let load_addr = PicAddress(PROGRAM_LOAD_ADDRESS);
        let prog_size = load_addr.distance_to(PicAddress(PROGRAM_LOAD_END_ADDRESS));
        if bytes.len() != prog_size.to_bytes() {
            return Err(Error::ProgramSize(bytes.len()));
        }
        Ok(Self { load_addr, prog_size, bytes })
    }
}

/// The value of a hexadecimal digit, or -1 for any other character.
pub open spec fn hex_digit_value(c: char) -> int {
    if '0' <= c <= '9' {
        c as int - '0' as int
    } else if 'a' <= c <= 'f' {
        c as int - 'a' as int + 10
    } else if 'A' <= c <= 'F' {
        c as int - 'A' as int + 10
    } else {
        -1
    }
}

pub open spec fn is_hex_digit(c: char) -> bool {
    hex_digit_value(c) >= 0
}

/// The number written by a string of hexadecimal digits, most significant
/// first.
pub open spec fn hex_value(s: Seq<char>) -> int
    decreases s.len(),
{
    if s.len() == 0 {
        0
    } else {
        hex_value(s.drop_last()) * 16 + hex_digit_value(s.last())
    }
}

/// The digits of a line: an optional leading plus sign is skipped.
pub open spec fn line_digits(s: Seq<char>) -> Seq<char> {
    if s.len() > 0 && s[0] == '+' {
        s.subrange(1, s.len() as int)
    } else {
        s
    }
}

/// Whether a line is a hexadecimal number that fits 32 bits: at least one
/// digit after the optional sign, all characters hexadecimal digits, value
/// within range.
pub open spec fn line_parses(s: Seq<char>) -> bool {
    let d = line_digits(s);
    d.len() > 0 && (forall|i: int| 0 <= i < d.len() ==> is_hex_digit(#[trigger] d[i])) && hex_value(
        d,
    ) <= u32::MAX
}

proof fn lemma_hex_value_nonneg(s: Seq<char>)
    requires
        forall|i: int| 0 <= i < s.len() ==> is_hex_digit(#[trigger] s[i]),
    ensures
        hex_value(s) >= 0,
    decreases s.len(),
{
    if s.len() > 0 {
        lemma_hex_value_nonneg(s.drop_last());
    }
}

/// With every character a digit, the number only grows as digits are
/// appended.
proof fn lemma_hex_prefix_le(s: Seq<char>, j: int)
    requires
        forall|i: int| 0 <= i < s.len() ==> is_hex_digit(#[trigger] s[i]),
        0 <= j <= s.len(),
    ensures
        hex_value(s.take(j)) <= hex_value(s),
    decreases s.len() - j,
{
    if j < s.len() {
        let u = s.take(j + 1);
        assert(u.drop_last() =~= s.take(j));
        assert(u.last() == s[j]);
        lemma_hex_value_nonneg(s.take(j));
        assert(hex_value(u) == hex_value(s.take(j)) * 16 + hex_digit_value(s[j]));
        assert(hex_value(s.take(j)) * 16 >= hex_value(s.take(j))) by (nonlinear_arith)
            requires
                hex_value(s.take(j)) >= 0,
        ;
        lemma_hex_prefix_le(s, j + 1);
    } else {
        assert(s.take(j) =~= s);
    }
}

/// Parse one line of the vendor's firmware text format as a hexadecimal
/// number; anything but a hexadecimal number fitting 32 bits is a
/// reported error.
pub fn parse_line(line: &str) -> (r: Result<u32, Error>)
    ensures
        line_parses(line@) ==> r == Result::<u32, Error>::Ok(hex_value(line_digits(line@)) as u32),
        !line_parses(line@) ==> r == Result::<u32, Error>::Err(Error::Hex),
{
    let n = line.unicode_len();
    let start: usize = if n > 0 && line.get_char(0) == '+' {
        1
    } else {
        0
    };
    let ghost d = line_digits(line@);
    proof {
        assert(d =~= line@.subrange(start as int, n as int));
    }
    if n == start {
        return Err(Error::Hex);
    }
    let mut val: u32 = 0;
    let mut i: usize = start;
    while i < n
        invariant
            start <= i <= n,
            n == line@.len(),
            d == line_digits(line@),
            d =~= line@.subrange(start as int, n as int),
            forall|k: int| start <= k < i ==> is_hex_digit(#[trigger] line@[k]),
            val == hex_value(line@.subrange(start as int, i as int)),
        decreases n - i,
    {
        let c = line.get_char(i);
        let u = c as u32;
        let digit: u32 = if u >= 48 && u <= 57 {
            u - 48
        } else if u >= 97 && u <= 102 {
            u - 97 + 10
        } else if u >= 65 && u <= 70 {
            u - 65 + 10
        } else {
            proof {
                assert(!is_hex_digit(line@[i as int]));
                assert(d[i - start] == line@[i as int]);
            }
            return Err(Error::Hex);
        };
        proof {
            assert(is_hex_digit(line@[i as int]));
            assert(digit == hex_digit_value(line@[i as int]));
        }
        let next = (val as u64) * 16 + (digit as u64);
        proof {
            let p = line@.subrange(start as int, i + 1);
            assert(p.drop_last() =~= line@.subrange(start as int, i as int));
            assert(p.last() == line@[i as int]);
        }
        if next > 0xffff_ffffu64 {
            proof {
                if line_parses(line@) {
                    assert(forall|k: int| 0 <= k < d.len() ==> is_hex_digit(#[trigger] d[k]));
                    lemma_hex_prefix_le(d, i + 1 - start);
                    assert(d.take(i + 1 - start) =~= line@.subrange(start as int, i + 1));
                }
            }
            return Err(Error::Hex);
        }
        val = next as u32;
        i = i + 1;
    }
    proof {
        assert(line@.subrange(start as int, n as int) =~= d);
    }
    Ok(val)
}

} // verus!
