//! Command codec for the BM1387 chip bus.
//!
//! A command frame is a 3-byte header (command byte, length byte, hardware
//! chip address) followed by a payload. The command byte packs a 4-bit
//! opcode, a broadcast flag at bit 4 and a 3-bit command-type tag at bits
//! 5..=7; control commands always carry the tag 2. The length byte counts
//! the serialized command including the one-byte CRC5 checksum the transport
//! appends; the checksum itself is a transport concern, only its size is
//! reserved here.

use vstd::prelude::*;

verus! {

/// Hash counting register address.
pub const HASH_COUNTING_REG: u8 = 0x14;

/// Maximum supported baud rate clock divisor.
pub const MAX_BAUD_CLOCK_DIV: usize = 26;

/// Basic divisor of the clock speed when calculating the baud register value.
pub const CHIP_OSC_CLK_BASE_BAUD_DIV: usize = 8;

/// How many cores are on the chip.
pub const NUM_CORES_ON_CHIP: usize = 114;

/// Command-type tag carried in bits 5..=7 of every control command byte.
pub const VIL_CTL_CMD_TAG: u8 = 0x40;

/// Number of midstates the FPGA sends to the chips with each piece of work.
///
/// The internal representation is the base-2 logarithm of the midstate
/// count; only counts supported by the hardware (1, 2 or 4) are
/// constructible, so a value of this type is always valid.
#[derive(Debug, Clone, Copy)]
pub struct MidstateCount {
    /// Base-2 logarithm of the number of midstates.
    log2: usize,
}

/// Midstate count encoded for the FPGA control register.
#[derive(Debug, Clone, Copy, PartialEq, Eq, Structural)]
pub enum MidstateCode {
    One,
    Two,
    Four,
}

impl MidstateCount {
    /// Base-2 logarithm of the midstate count.
    pub closed spec fn log2_spec(&self) -> usize {
        self.log2
    }

    pub open spec fn wf(&self) -> bool {
        self.log2_spec() <= 2
    }

    /// The midstate count itself.
    pub open spec fn count_spec(&self) -> usize {
        if self.log2_spec() == 0 {
            1
        } else if self.log2_spec() == 1 {
            2
        } else {
            4
        }
    }

    /// The FPGA register code for this midstate count.
    pub open spec fn code_spec(&self) -> MidstateCode {
        if self.log2_spec() == 0 {
            MidstateCode::One
        } else if self.log2_spec() == 1 {
            MidstateCode::Two
        } else {
            MidstateCode::Four
        }
    }

    /// Construct from a midstate count; only 1, 2 and 4 exist in hardware,
    /// any other count is a caller error.
    pub fn new(count: usize) -> (r: Self)
        requires
            count == 1 || count == 2 || count == 4,
        ensures
            r.wf(),
            r.count_spec() == count,
            r.log2_spec() == (if count == 1 { 0int } else if count == 2 { 1int } else { 2int }),
    {
        if count == 1 {
            Self { log2: 0 }
        } else if count == 2 {
            Self { log2: 1 }
        } else {
            Self { log2: 2 }
        }
    }

    /// Midstate count encoded for the FPGA.
    pub fn to_reg(&self) -> (r: MidstateCode)
        requires
            self.wf(),
        ensures
            r == self.code_spec(),
    {
        if self.log2 == 0 {
            MidstateCode::One
        } else if self.log2 == 1 {
            MidstateCode::Two
        } else {
            MidstateCode::Four
        }
    }

    /// The midstate count.
    #[inline]
    pub fn to_count(&self) -> (r: usize)
        requires
            self.wf(),
        ensures
            r == self.count_spec(),
    {
        let l = self.log2;
        let r = 1usize << l;
        proof {
            assert(l <= 2 ==> 1usize << l == (if l == 0 {
                1usize
            } else if l == 1 {
                2usize
            } else {
                4usize
            })) by (bit_vector);
        }
        r
    }

    /// Base-2 logarithm of the midstate count.
    #[inline]
    pub fn to_bits(&self) -> (r: usize)
        ensures
            r == self.log2_spec(),
    {
        self.log2
    }

    /// Mask extracting the midstate index bits out of a work id.
    #[inline]
    pub fn to_mask(&self) -> (r: usize)
        requires
            self.wf(),
        ensures
            r == self.count_spec() - 1,
    {
        let l = self.log2;
        let c = 1usize << l;
        proof {
            assert(l <= 2 ==> 1usize << l == (if l == 0 {
                1usize
            } else if l == 1 {
                2usize
            } else {
                4usize
            })) by (bit_vector);
        }
        c - 1
    }
}

/// Bridge between the linear chip address (`0..=63`) and the hardware
/// addressing scheme, which assigns addresses in increments of four; a
/// broadcast encodes as address zero.
#[derive(Debug, Clone, Copy, PartialEq, Eq, Structural)]
pub enum ChipAddress {
    All,
    /// Linear chip address.
    One(usize),
}

impl ChipAddress {
    pub open spec fn is_broadcast_spec(&self) -> bool {
        match self {
            ChipAddress::All => true,
            ChipAddress::One(_) => false,
        }
    }

    /// A single-chip address must fit the 8-bit hardware field after the
    /// times-four step, which caps the linear index at 63.
    pub open spec fn wf(&self) -> bool {
        match self {
            ChipAddress::All => true,
            ChipAddress::One(i) => i < 64,
        }
    }

    pub open spec fn hw_addr_spec(&self) -> u8 {
        match self {
            ChipAddress::All => 0,
            ChipAddress::One(i) => (i * 4) as u8,
        }
    }

    /// Whether this address is a broadcast.
    pub fn is_broadcast(&self) -> (r: bool)
        ensures
            r == self.is_broadcast_spec(),
    {
        match self {
            ChipAddress::All => true,
            ChipAddress::One(_) => false,
        }
    }

    /// Hardware chip address byte, or 0 for a broadcast. A linear index
    /// whose hardware form overflows a byte is a caller error.
    pub fn to_hw_addr(&self) -> (r: u8)
        requires
            self.wf(),
        ensures
            r == self.hw_addr_spec(),
    {
        match self {
            ChipAddress::All => 0,
            ChipAddress::One(x) => (*x * 4) as u8,
        }
    }
}

/// Address of one core on the chain, as encoded in every returned nonce.
///
/// The chips divide the search space so that fixed bits of the nonce name
/// the chip and the core that found it.
#[derive(Debug, Copy, Clone, PartialEq, Eq, Structural)]
pub struct CoreAddress {
    pub chip: usize,
    pub core: usize,
}

impl CoreAddress {
    /// Decode chip and core coordinates out of a nonce; total, the fixed
    /// mask widths keep both in range.
    pub fn new(nonce: u32) -> (r: Self)
        ensures
            r.chip == ((nonce >> 2) & 0x3f) as usize,
            r.core == ((nonce >> 24) & 0x7f) as usize,
            r.chip < 64,
            r.core < 128,
    {
        proof {
            assert((nonce >> 2) & 0x3f < 64 && (nonce >> 24) & 0x7f < 128) by (bit_vector);
        }
        Self {
            chip: ((nonce >> 2) & 0x3f) as usize,
            core: ((nonce >> 24) & 0x7f) as usize,
        }
    }
}

/// Command byte: 4-bit opcode, broadcast flag, control-command tag.
#[derive(Debug, Clone, Copy, PartialEq, Eq, Structural)]
pub struct Cmd {
    pub code: u8,
    pub to_all: bool,
}

impl Cmd {
    pub open spec fn wf(&self) -> bool {
        self.code < 16
    }

    /// The serialized command byte.
    pub open spec fn byte_spec(&self) -> u8 {
        self.code | (if self.to_all {
            0x10u8
        } else {
            0u8
        }) | VIL_CTL_CMD_TAG
    }

    pub(crate) fn new(code: u8, to_all: bool) -> (r: Self)
        requires
            code < 16,
        ensures
            r.code == code,
            r.to_all == to_all,
            r.wf(),
    {
        Self { code, to_all }
    }

    pub(crate) fn to_byte(&self) -> (r: u8)
        ensures
            r == self.byte_spec(),
    {
        self.code | (if self.to_all {
            0x10u8
        } else {
            0u8
        }) | VIL_CTL_CMD_TAG
    }
}

/// Header common to all commands: command byte, length byte (payload plus
/// checksum size), hardware chip address.
#[derive(Debug, Clone, Copy, PartialEq, Eq, Structural)]
pub struct CmdHeader {
    pub cmd: Cmd,
    pub length: u8,
    pub hw_addr: u8,
}

impl CmdHeader {
    pub open spec fn wf(&self) -> bool {
        self.cmd.wf()
    }

    /// The three serialized header bytes.
    pub open spec fn bytes_spec(&self) -> Seq<u8> {
        seq![self.cmd.byte_spec(), self.length, self.hw_addr]
    }

    /// Create a header with a custom checksum size; the length field counts
    /// the serialized command plus that checksum.
    pub(crate) fn new_extended(
        code: u8,
        length: usize,
        chip_address: ChipAddress,
        checksum_size: usize,
    ) -> (r: Self)
        requires
            code < 16,
            chip_address.wf(),
            length + checksum_size <= 255,
        ensures
            r.cmd.code == code,
            r.cmd.to_all == chip_address.is_broadcast_spec(),
            r.length == length + checksum_size,
            r.hw_addr == chip_address.hw_addr_spec(),
            r.wf(),
    {
        Self {
            cmd: Cmd::new(code, chip_address.is_broadcast()),
            length: (length + checksum_size) as u8,
            hw_addr: chip_address.to_hw_addr(),
        }
    }

    /// Header for a control command, whose CRC5 checksum fits one byte.
    pub(crate) fn new(code: u8, length: usize, chip_address: ChipAddress) -> (r: Self)
        requires
            code < 16,
            chip_address.wf(),
            length + 1 <= 255,
        ensures
            r.cmd.code == code,
            r.cmd.to_all == chip_address.is_broadcast_spec(),
            r.length == length + 1,
            r.hw_addr == chip_address.hw_addr_spec(),
            r.wf(),
    {
        Self::new_extended(code, length, chip_address, 1)
    }
}

/// Big-endian bytes of a 32-bit register value.
pub open spec fn u32_be_bytes(v: u32) -> Seq<u8> {
    seq![
        (v / 0x1000000) as u8,
        ((v / 0x10000) % 0x100) as u8,
        ((v / 0x100) % 0x100) as u8,
        (v % 0x100) as u8,
    ]
}

/// The 32-bit value carried by four big-endian bytes.
pub open spec fn u32_of_be_bytes(b0: u8, b1: u8, b2: u8, b3: u8) -> u32 {
    (b0 * 0x1000000 + b1 * 0x10000 + b2 * 0x100 + b3) as u32
}

proof fn lemma_u32_be_shift(v: u32)
    ensures
        (v >> 24) as u8 == (v / 0x1000000) as u8,
        ((v >> 16) & 0xff) as u8 == ((v / 0x10000) % 0x100) as u8,
        ((v >> 8) & 0xff) as u8 == ((v / 0x100) % 0x100) as u8,
        (v & 0xff) as u8 == (v % 0x100) as u8,
{
    assert((v >> 24) as u8 == (v / 0x1000000) as u8 && ((v >> 16) & 0xff) as u8 == ((v
        / 0x10000) % 0x100) as u8 && ((v >> 8) & 0xff) as u8 == ((v / 0x100) % 0x100) as u8 && (v
        & 0xff) as u8 == (v % 0x100) as u8) by (bit_vector);
}

proof fn lemma_u32_of_be_shift(b0: u8, b1: u8, b2: u8, b3: u8)
    ensures
        ((b0 as u32) << 24) | ((b1 as u32) << 16) | ((b2 as u32) << 8) | (b3 as u32)
            == u32_of_be_bytes(b0, b1, b2, b3),
{
    assert(((b0 as u32) << 24) | ((b1 as u32) << 16) | ((b2 as u32) << 8) | (b3 as u32) == (b0
        * 0x1000000 + b1 * 0x10000 + b2 * 0x100 + b3) as u32) by (bit_vector);
}

/// Response to a get-status command: the register value, followed by two
/// bytes this chip generation leaves zero.
#[derive(Debug, Clone, Copy, PartialEq, Eq, Structural)]
pub struct CmdResponse {
    pub value: u32,
}

impl CmdResponse {
    /// Decode a six-byte response frame; the register value comes first,
    /// big-endian.
    pub fn from_bytes(bytes: &[u8; 6]) -> (r: Self)
        ensures
            r.value == u32_of_be_bytes(bytes@[0], bytes@[1], bytes@[2], bytes@[3]),
    {
        let b0 = bytes[0];
        let b1 = bytes[1];
        let b2 = bytes[2];
        let b3 = bytes[3];
        proof {
            lemma_u32_of_be_shift(b0, b1, b2, b3);
        }
        Self {
            value: ((b0 as u32) << 24) | ((b1 as u32) << 16) | ((b2 as u32) << 8) | (b3 as u32),
        }
    }
}

/// Set-configuration command: writes one register on one chip or on all.
#[derive(Debug, Clone, Copy, PartialEq, Eq, Structural)]
pub struct SetConfigCmd {
    pub header: CmdHeader,
    pub register: u8,
    pub value: u32,
}

impl SetConfigCmd {
    pub open spec fn bytes_spec(&self) -> Seq<u8> {
        self.header.bytes_spec() + seq![self.register] + u32_be_bytes(self.value)
    }

    pub fn new(chip_address: ChipAddress, register: u8, value: u32) -> (r: Self)
        requires
            chip_address.wf(),
        ensures
            r.header.cmd.code == 0x08,
            r.header.cmd.to_all == chip_address.is_broadcast_spec(),
            r.header.length == 9,
            r.header.hw_addr == chip_address.hw_addr_spec(),
            r.register == register,
            r.value == value,
    {
        // The packed command is 8 bytes; the length field adds the checksum.
        let header = CmdHeader::new(0x08, 8, chip_address);
        Self { header, register, value }
    }

    /// Serialize the command frame.
    pub fn pack(&self) -> (r: Vec<u8>)
        ensures
            r@ == self.bytes_spec(),
    {
        let mut r: Vec<u8> = Vec::new();
        r.push(self.header.cmd.to_byte());
        r.push(self.header.length);
        r.push(self.header.hw_addr);
        r.push(self.register);
        r.push((self.value >> 24) as u8);
        r.push(((self.value >> 16) & 0xff) as u8);
        r.push(((self.value >> 8) & 0xff) as u8);
        r.push((self.value & 0xff) as u8);
        proof {
            lemma_u32_be_shift(self.value);
            assert(r@ =~= self.bytes_spec());
        }
        r
    }
}

/// Get-status command: reads one register from one chip or from all.
#[derive(Debug, Clone, Copy, PartialEq, Eq, Structural)]
pub struct GetStatusCmd {
    pub header: CmdHeader,
    pub register: u8,
}

impl GetStatusCmd {
    pub open spec fn bytes_spec(&self) -> Seq<u8> {
        self.header.bytes_spec() + seq![self.register]
    }

    pub fn new(chip_address: ChipAddress, register: u8) -> (r: Self)
        requires
            chip_address.wf(),
        ensures
            r.header.cmd.code == 0x04,
            r.header.cmd.to_all == chip_address.is_broadcast_spec(),
            r.header.length == 5,
            r.header.hw_addr == chip_address.hw_addr_spec(),
            r.register == register,
    {
        let header = CmdHeader::new(0x04, 4, chip_address);
        Self { header, register }
    }

    /// Serialize the command frame.
    pub fn pack(&self) -> (r: Vec<u8>)
        ensures
            r@ == self.bytes_spec(),
    {
        let mut r: Vec<u8> = Vec::new();
        r.push(self.header.cmd.to_byte());
        r.push(self.header.length);
        r.push(self.header.hw_addr);
        r.push(self.register);
        proof {
            assert(r@ =~= self.bytes_spec());
        }
        r
    }
}

/// Set-chip-address command: assigns a hardware address to exactly one
/// chip. Address assignment cannot be broadcast, so a broadcast target is a
/// caller error.
#[derive(Debug, Clone, Copy, PartialEq, Eq, Structural)]
pub struct SetChipAddressCmd {
    pub header: CmdHeader,
    pub reserved: u8,
}

impl SetChipAddressCmd {
    pub open spec fn bytes_spec(&self) -> Seq<u8> {
        self.header.bytes_spec() + seq![self.reserved]
    }

    pub fn new(chip_address: ChipAddress) -> (r: Self)
        requires
            chip_address.wf(),
            !chip_address.is_broadcast_spec(),
        ensures
            r.header.cmd.code == 0x01,
            r.header.cmd.to_all == false,
            r.header.length == 5,
            r.header.hw_addr == chip_address.hw_addr_spec(),
            r.reserved == 0,
    {
        let header = CmdHeader::new(0x01, 4, chip_address);
        Self { header, reserved: 0 }
    }

    /// Serialize the command frame.
    pub fn pack(&self) -> (r: Vec<u8>)
        ensures
            r@ == self.bytes_spec(),
    {
        let mut r: Vec<u8> = Vec::new();
        r.push(self.header.cmd.to_byte());
        r.push(self.header.length);
        r.push(self.header.hw_addr);
        r.push(self.reserved);
        proof {
            assert(r@ =~= self.bytes_spec());
        }
        r
    }
}

/// Inactivate-from-chain command: always broadcast, detaches all chips from
/// the addressing chain before re-enumeration.
#[derive(Debug, Clone, Copy, PartialEq, Eq, Structural)]
pub struct InactivateFromChainCmd {
    pub header: CmdHeader,
    pub reserved: u8,
}

impl InactivateFromChainCmd {
    pub open spec fn bytes_spec(&self) -> Seq<u8> {
        self.header.bytes_spec() + seq![self.reserved]
    }

    pub fn new() -> (r: Self)
        ensures
            r.header.cmd.code == 0x05,
            r.header.cmd.to_all == true,
            r.header.length == 5,
            r.header.hw_addr == 0,
            r.reserved == 0,
    {
        let header = CmdHeader::new(0x05, 4, ChipAddress::All);
        Self { header, reserved: 0 }
    }

    /// Serialize the command frame.
    pub fn pack(&self) -> (r: Vec<u8>)
        ensures
            r@ == self.bytes_spec(),
    {
        let mut r: Vec<u8> = Vec::new();
        r.push(self.header.cmd.to_byte());
        r.push(self.header.length);
        r.push(self.header.hw_addr);
        r.push(self.reserved);
        proof {
            assert(r@ =~= self.bytes_spec());
        }
        r
    }
}

} // verus!
