//! Chip registers and their 4-byte big-endian wire layout.
//!
//! Every register packs to exactly one 32-bit word; packing then unpacking
//! returns the value unchanged, and unpacking never fails: enum-coded
//! subfields that receive a raw value the datasheet does not name decode
//! into an explicit raw arm carrying the original bits, so malformed
//! hardware responses stay observable instead of fatal.

use vstd::prelude::*;

use crate::bm1387::MAX_BAUD_CLOCK_DIV;
use crate::error::Error;

verus! {

/// One bit as a 32-bit word.
pub open spec fn bit32(b: bool) -> u32 {
    if b {
        1
    } else {
        0
    }
}

/// A register on the chip: addressable by a fixed register number,
/// 4 bytes long, with lossless pack and total unpack.
///
/// Registers are read with a get-status command and written with a
/// set-config command.
pub trait Register: Sized {
    /// Address of the register on the chip.
    spec fn reg_num_spec() -> u8;

    /// Address of the register on the chip.
    fn reg_num() -> (r: u8)
        ensures
            r == Self::reg_num_spec(),
    ;

    /// The values representable in the register's bit fields.
    spec fn wf(self) -> bool;

    /// The 32-bit big-endian register word this value packs to.
    spec fn pack_spec(self) -> u32;

    /// The value a raw register word decodes to; total.
    spec fn unpack_spec(reg: u32) -> Self;

    /// Pack into a big-endian register word.
    fn to_reg(&self) -> (r: u32)
        ensures
            r == self.pack_spec(),
    ;

    /// Decode a register word; always succeeds and yields a well-formed
    /// value.
    fn from_reg(reg: u32) -> (r: Self)
        ensures
            r == Self::unpack_spec(reg),
            r.wf(),
    ;

    /// Round trip: unpacking a packed value returns it unchanged, for
    /// every value whose fields fit the register layout.
    proof fn lemma_round_trip(self)
        requires
            self.wf(),
        ensures
            Self::unpack_spec(self.pack_spec()) == self,
    ;
}

/// Hashrate register: hash count in units of 2^24 hashes.
#[derive(Debug, Clone, Copy, PartialEq, Eq, Structural)]
pub struct HashrateReg {
    /// Hashrate in 2^24 hash units.
    pub hashrate24: u32,
}

impl HashrateReg {
    /// Hashrate in hashes.
    pub fn hashrate(&self) -> (r: u64)
        ensures
            r == self.hashrate24 * 0x1000000,
    {
        let r = (self.hashrate24 as u64) << 24;
        proof {
            let h = self.hashrate24;
            assert((h as u64) << 24 == h as u64 * 0x1000000) by (bit_vector);
        }
        r
    }
}

impl Register for HashrateReg {
    open spec fn reg_num_spec() -> u8 {
        0x08
    }

    fn reg_num() -> u8 {
        0x08
    }

    open spec fn wf(self) -> bool {
        true
    }

    open spec fn pack_spec(self) -> u32 {
        self.hashrate24
    }

    open spec fn unpack_spec(reg: u32) -> Self {
        HashrateReg { hashrate24: reg }
    }

    fn to_reg(&self) -> u32 {
        self.hashrate24
    }

    fn from_reg(reg: u32) -> Self {
        HashrateReg { hashrate24: reg }
    }

    proof fn lemma_round_trip(self) {
    }
}

/// Status and control flags of the chip's I2C controller.
#[derive(Debug, Clone, Copy, PartialEq, Eq, Structural)]
pub struct I2cControlFlags {
    /// I2C controller is busy.
    pub busy: bool,
    /// Initiate an I2C transaction.
    pub do_command: bool,
}

impl I2cControlFlags {
    /// The flags byte: busy at bit 7, do-command at bit 0.
    pub open spec fn byte_spec(self) -> u32 {
        (bit32(self.busy) << 7) | bit32(self.do_command)
    }
}

/// I2C control register: controller flags, device address, register
/// number and one data byte.
#[derive(Debug, Clone, Copy, PartialEq, Eq, Structural)]
pub struct I2cControlReg {
    /// Controller status and control flags.
    pub flags: I2cControlFlags,
    /// I2C address, 8-bit format; odd addresses write.
    pub addr: u8,
    /// Register number on the addressed device.
    pub reg: u8,
    /// Data read, or data to be written.
    pub data: u8,
}

impl Register for I2cControlReg {
    open spec fn reg_num_spec() -> u8 {
        0x20
    }

    fn reg_num() -> u8 {
        0x20
    }

    open spec fn wf(self) -> bool {
        true
    }

    open spec fn pack_spec(self) -> u32 {
        (self.flags.byte_spec() << 24) | ((self.addr as u32) << 16) | ((self.reg as u32) << 8) | (
        self.data as u32)
    }

    open spec fn unpack_spec(reg: u32) -> Self {
        I2cControlReg {
            flags: I2cControlFlags {
                busy: (reg >> 31) & 1 == 1,
                do_command: (reg >> 24) & 1 == 1,
            },
            addr: ((reg >> 16) & 0xff) as u8,
            reg: ((reg >> 8) & 0xff) as u8,
            data: (reg & 0xff) as u8,
        }
    }

    fn to_reg(&self) -> (r: u32) {
        let busy_bit: u32 = if self.flags.busy {
            1
        } else {
            0
        };
        let do_bit: u32 = if self.flags.do_command {
            1
        } else {
            0
        };
        let fb: u32 = (busy_bit << 7) | do_bit;
        (fb << 24) | ((self.addr as u32) << 16) | ((self.reg as u32) << 8) | (self.data as u32)
    }

    fn from_reg(reg: u32) -> (r: Self) {
        I2cControlReg {
            flags: I2cControlFlags {
                busy: (reg >> 31) & 1 == 1,
                do_command: (reg >> 24) & 1 == 1,
            },
            addr: ((reg >> 16) & 0xff) as u8,
            reg: ((reg >> 8) & 0xff) as u8,
            data: (reg & 0xff) as u8,
        }
    }

    proof fn lemma_round_trip(self) {
        let b = bit32(self.flags.busy);
        let c = bit32(self.flags.do_command);
        let a = self.addr;
        let g = self.reg;
        let d = self.data;
        assert(b <= 1 && c <= 1 ==> {
            let v = (((b << 7) | c) << 24) | ((a as u32) << 16) | ((g as u32) << 8) | (d as u32);
            ((v >> 31) & 1 == b) && ((v >> 24) & 1 == c) && (((v >> 16) & 0xff) as u8 == a) && (((v
                >> 8) & 0xff) as u8 == g) && ((v & 0xff) as u8 == d)
        }) by (bit_vector);
    }
}

/// Recognized chip revisions, with an explicit raw arm for revision codes
/// the decoder does not recognize: decoding always succeeds and preserves
/// the original bits.
#[derive(Debug, Clone, Copy, PartialEq, Eq, Structural)]
pub enum ChipRev {
    Bm1387,
    /// A revision code other than the known ones.
    Raw(u16),
}

impl Default for ChipRev {
    fn default() -> (r: Self)
        ensures
            r == ChipRev::Bm1387,
    {
        ChipRev::Bm1387
    }
}

/// Revision code of the BM1387 chip.
pub const CHIP_REV_BM1387_CODE: u16 = 0x1387;

impl ChipRev {
    /// The raw arm only carries codes that no named revision owns.
    pub open spec fn wf(self) -> bool {
        match self {
            ChipRev::Bm1387 => true,
            ChipRev::Raw(x) => x != CHIP_REV_BM1387_CODE,
        }
    }

    pub open spec fn code_spec(self) -> u16 {
        match self {
            ChipRev::Bm1387 => CHIP_REV_BM1387_CODE,
            ChipRev::Raw(x) => x,
        }
    }

    pub open spec fn of_code_spec(code: u16) -> Self {
        if code == CHIP_REV_BM1387_CODE {
            ChipRev::Bm1387
        } else {
            ChipRev::Raw(code)
        }
    }
}

/// Chip identity register: revision code and assigned hardware address.
#[derive(Debug, Clone, Copy, PartialEq, Eq, Structural)]
pub struct GetAddressReg {
    pub chip_rev: ChipRev,
    pub reserved1: u8,
    /// Hardware chip address.
    pub addr: u8,
}

impl Register for GetAddressReg {
    open spec fn reg_num_spec() -> u8 {
        0x00
    }

    fn reg_num() -> u8 {
        0x00
    }

    open spec fn wf(self) -> bool {
        self.chip_rev.wf()
    }

    open spec fn pack_spec(self) -> u32 {
        ((self.chip_rev.code_spec() as u32) << 16) | ((self.reserved1 as u32) << 8) | (
        self.addr as u32)
    }

    open spec fn unpack_spec(reg: u32) -> Self {
        GetAddressReg {
            chip_rev: ChipRev::of_code_spec(((reg >> 16) & 0xffff) as u16),
            reserved1: ((reg >> 8) & 0xff) as u8,
            addr: (reg & 0xff) as u8,
        }
    }

    fn to_reg(&self) -> (r: u32) {
        let code: u16 = match self.chip_rev {
            ChipRev::Bm1387 => CHIP_REV_BM1387_CODE,
            ChipRev::Raw(x) => x,
        };
        ((code as u32) << 16) | ((self.reserved1 as u32) << 8) | (self.addr as u32)
    }

    fn from_reg(reg: u32) -> (r: Self) {
        let code = ((reg >> 16) & 0xffff) as u16;
        let chip_rev = if code == CHIP_REV_BM1387_CODE {
            ChipRev::Bm1387
        } else {
            ChipRev::Raw(code)
        };
        GetAddressReg { chip_rev, reserved1: ((reg >> 8) & 0xff) as u8, addr: (reg & 0xff) as u8 }
    }

    proof fn lemma_round_trip(self) {
        let c = self.chip_rev.code_spec();
        let s = self.reserved1;
        let a = self.addr;
        assert({
            let v = ((c as u32) << 16) | ((s as u32) << 8) | (a as u32);
            (((v >> 16) & 0xffff) as u16 == c) && (((v >> 8) & 0xff) as u8 == s) && ((v
                & 0xff) as u8 == a)
        }) by (bit_vector);
    }
}

/// Reverse the bits of one byte.
pub open spec fn rev8(b: u8) -> u8 {
    ((b << 7) & 0x80) | ((b << 5) & 0x40) | ((b << 3) & 0x20) | ((b << 1) & 0x10) | ((b >> 1)
        & 0x08) | ((b >> 3) & 0x04) | ((b >> 5) & 0x02) | ((b >> 7) & 0x01)
}

/// Whether a difficulty is a power of two.
pub open spec fn is_power_of_two(d: u32) -> bool {
    exists|k: u32| k < 32 && d == (1u32 << k)
}

/// The zero-and-carry bit test `d & (d - 1) == 0` recognizes exactly the
/// powers of two among the non-zero words.
pub proof fn lemma_power_of_two_test(d: u32)
    ensures
        (d != 0 && d & ((d - 1) as u32) == 0) <==> is_power_of_two(d),
{
    if d != 0 && d & ((d - 1) as u32) == 0 {
        assert(d == 1u32 << 0u32 || d == 1u32 << 1u32 || d == 1u32 << 2u32 || d == 1u32 << 3u32
            || d == 1u32 << 4u32 || d == 1u32 << 5u32 || d == 1u32 << 6u32 || d == 1u32 << 7u32
            || d == 1u32 << 8u32 || d == 1u32 << 9u32 || d == 1u32 << 10u32 || d == 1u32 << 11u32
            || d == 1u32 << 12u32 || d == 1u32 << 13u32 || d == 1u32 << 14u32 || d == 1u32
            << 15u32 || d == 1u32 << 16u32 || d == 1u32 << 17u32 || d == 1u32 << 18u32 || d == 1u32
            << 19u32 || d == 1u32 << 20u32 || d == 1u32 << 21u32 || d == 1u32 << 22u32 || d == 1u32
            << 23u32 || d == 1u32 << 24u32 || d == 1u32 << 25u32 || d == 1u32 << 26u32 || d == 1u32
            << 27u32 || d == 1u32 << 28u32 || d == 1u32 << 29u32 || d == 1u32 << 30u32 || d == 1u32
            << 31u32) by (bit_vector)
            requires
                d != 0 && d & ((d - 1) as u32) == 0,
        ;
    }
    if is_power_of_two(d) {
        let k = choose|k: u32| k < 32 && d == (1u32 << k);
        assert(k < 32 ==> (1u32 << k) != 0 && (1u32 << k) & (((1u32 << k) - 1) as u32) == 0)
            by (bit_vector);
    }
}

/// The ticket mask derived from a difficulty: every byte of `difficulty - 1`
/// with its bits reversed in place. The chip compares against a bit-reversed
/// hash representation, which is where the unusual layout comes from.
pub open spec fn ticket_mask_spec(difficulty: u32) -> u32 {
    let x = (difficulty - 1) as u32;
    (rev8((x & 0xff) as u8) as u32) | ((rev8(((x >> 8) & 0xff) as u8) as u32) << 8) | ((rev8(((x
        >> 16) & 0xff) as u8) as u32) << 16) | ((rev8(((x >> 24) & 0xff) as u8) as u32) << 24)
}

/// All 32 bits of a word in reverse order.
pub open spec fn rev32(x: u32) -> u32 {
    let a = ((x >> 1) & 0x55555555) | ((x & 0x55555555) << 1);
    let b = ((a >> 2) & 0x33333333) | ((a & 0x33333333) << 2);
    let c = ((b >> 4) & 0x0f0f0f0f) | ((b & 0x0f0f0f0f) << 4);
    let d = ((c >> 8) & 0x00ff00ff) | ((c & 0x00ff00ff) << 8);
    (d >> 16) | (d << 16)
}

/// The bytes of a word in reverse order.
pub open spec fn swap32(x: u32) -> u32 {
    (x >> 24) | ((x >> 8) & 0x0000ff00) | ((x & 0x0000ff00) << 8) | (x << 24)
}

/// The ticket mask equals the chip's documented encoding: take
/// `difficulty - 1`, reverse all 32 bits, then reverse the byte order.
/// That composition reverses the bits within each byte in place.
pub proof fn lemma_ticket_mask_formula(difficulty: u32)
    ensures
        ticket_mask_spec(difficulty) == swap32(rev32((difficulty - 1) as u32)),
{
    let x = (difficulty - 1) as u32;
    assert((rev8((x & 0xff) as u8) as u32) | ((rev8(((x >> 8) & 0xff) as u8) as u32) << 8) | ((
    rev8(((x >> 16) & 0xff) as u8) as u32) << 16) | ((rev8(((x >> 24) & 0xff) as u8) as u32) << 24)
        == swap32(rev32(x))) by (bit_vector);
}

/// Reverse the bits of one byte.
fn reverse_byte(b: u8) -> (r: u8)
    ensures
        r == rev8(b),
{
    ((b << 7) & 0x80) | ((b << 5) & 0x40) | ((b << 3) & 0x20) | ((b << 1) & 0x10) | ((b >> 1)
        & 0x08) | ((b >> 3) & 0x04) | ((b >> 5) & 0x02) | ((b >> 7) & 0x01)
}

/// ASIC difficulty register.
///
/// The chip reports only solutions whose bit-reversed hash, masked with
/// this register, comes out zero; the stored word is derived from
/// `difficulty - 1`.
#[derive(Debug, Clone, Copy, PartialEq, Eq, Structural)]
pub struct TicketMaskReg {
    /// The mask word, already in register layout.
    pub ticket_mask: u32,
}

impl TicketMaskReg {
    /// Build the difficulty register. The difficulty must be a non-zero
    /// power of two; anything else is a reported configuration error.
    pub fn new(difficulty: u32) -> (r: Result<Self, Error>)
        ensures
            r is Ok <==> (difficulty != 0 && is_power_of_two(difficulty)),
            r is Err ==> r == Result::<Self, Error>::Err(Error::Difficulty(difficulty)),
            r is Ok ==> r == Result::<Self, Error>::Ok(
                TicketMaskReg { ticket_mask: ticket_mask_spec(difficulty) },
            ),
    {
        proof {
            lemma_power_of_two_test(difficulty);
        }
        if difficulty == 0 {
            return Err(Error::Difficulty(difficulty));
        }
        if difficulty & (difficulty - 1) != 0 {
            return Err(Error::Difficulty(difficulty));
        }
        let x = difficulty - 1;
        let b0 = reverse_byte((x & 0xff) as u8);
        let b1 = reverse_byte(((x >> 8) & 0xff) as u8);
        let b2 = reverse_byte(((x >> 16) & 0xff) as u8);
        let b3 = reverse_byte(((x >> 24) & 0xff) as u8);
        let ticket_mask = (b0 as u32) | ((b1 as u32) << 8) | ((b2 as u32) << 16) | ((
        b3 as u32) << 24);
        Ok(Self { ticket_mask })
    }
}

impl Register for TicketMaskReg {
    open spec fn reg_num_spec() -> u8 {
        0x18
    }

    fn reg_num() -> u8 {
        0x18
    }

    open spec fn wf(self) -> bool {
        true
    }

    open spec fn pack_spec(self) -> u32 {
        self.ticket_mask
    }

    open spec fn unpack_spec(reg: u32) -> Self {
        TicketMaskReg { ticket_mask: reg }
    }

    fn to_reg(&self) -> u32 {
        self.ticket_mask
    }

    fn from_reg(reg: u32) -> Self {
        TicketMaskReg { ticket_mask: reg }
    }

    proof fn lemma_round_trip(self) {
    }
}

/// TF pin function selector; the names come from the chip datasheet.
#[derive(Debug, Clone, Copy, PartialEq, Eq, Structural)]
pub enum TfSelector {
    /// Chip is hashing.
    HashDoing,
    UartReceiving,
    UartTransmitting,
    /// Required for I2C.
    SCL0,
}

/// RF pin function selector.
#[derive(Debug, Clone, Copy, PartialEq, Eq, Structural)]
pub enum RfSelector {
    OpenDrain,
    /// Required for I2C.
    SDA0,
}

/// Which of the two I2C buses wired to the chip to use.
#[derive(Debug, Clone, Copy, PartialEq, Eq, Structural)]
pub enum I2cBusSelect {
    Bottom,
    Middle,
}

pub open spec fn tfs_bits(t: TfSelector) -> u32 {
    match t {
        TfSelector::HashDoing => 0,
        TfSelector::UartReceiving => 1,
        TfSelector::UartTransmitting => 2,
        TfSelector::SCL0 => 3,
    }
}

pub open spec fn tfs_of_bits(b: u32) -> TfSelector {
    if b == 0 {
        TfSelector::HashDoing
    } else if b == 1 {
        TfSelector::UartReceiving
    } else if b == 2 {
        TfSelector::UartTransmitting
    } else {
        TfSelector::SCL0
    }
}

pub open spec fn rfs_bits(r: RfSelector) -> u32 {
    match r {
        RfSelector::OpenDrain => 0,
        RfSelector::SDA0 => 1,
    }
}

pub open spec fn rfs_of_bits(b: u32) -> RfSelector {
    if b == 0 {
        RfSelector::OpenDrain
    } else {
        RfSelector::SDA0
    }
}

pub open spec fn i2c_bus_bits(b: I2cBusSelect) -> u32 {
    match b {
        I2cBusSelect::Bottom => 0,
        I2cBusSelect::Middle => 1,
    }
}

pub open spec fn i2c_bus_of_bits(b: u32) -> I2cBusSelect {
    if b == 0 {
        I2cBusSelect::Bottom
    } else {
        I2cBusSelect::Middle
    }
}

/// Core configuration register: communication speed, AsicBoost gating and
/// pin-function multiplexing.
#[derive(Debug, Clone, Copy, PartialEq, Eq, Structural)]
pub struct MiscCtrlReg {
    /// Zero when setting the baud rate, one while initializing the chain.
    pub not_set_baud: bool,
    /// Invert the clock pin.
    pub inv_clock: bool,
    /// Which I2C bus the chip talks on.
    pub i2c_bus: I2cBusSelect,
    /// Makes all hashing blocks ignore incoming work until they are
    /// enabled one by one by work with bit 0 set.
    pub gate_block: bool,
    /// RF pin function.
    pub rfs: RfSelector,
    /// Baud rate divisor, a 5-bit field; the maximum supported divisor is
    /// 26. This field must always hold the true UART divisor, whatever
    /// `not_set_baud` says.
    pub baud_div: u8,
    /// Enable multi-midstate processing (AsicBoost).
    pub mmen: bool,
    /// TF pin function.
    pub tfs: TfSelector,
}

impl MiscCtrlReg {
    /// Build the register and sanity-check the baud rate divisor; a divisor
    /// above the maximum is a reported configuration error. Pin functions
    /// start in hashing mode on the bottom bus.
    pub fn new(
        not_set_baud: bool,
        inv_clock: bool,
        baud_div: usize,
        gate_block: bool,
        mmen: bool,
    ) -> (r: Result<Self, Error>)
        ensures
            r is Ok <==> baud_div <= MAX_BAUD_CLOCK_DIV,
            baud_div > MAX_BAUD_CLOCK_DIV ==> r == Result::<Self, Error>::Err(
                Error::BaudRate(baud_div),
            ),
            baud_div <= MAX_BAUD_CLOCK_DIV ==> r == Result::<Self, Error>::Ok(
                MiscCtrlReg {
                    not_set_baud,
                    inv_clock,
                    i2c_bus: I2cBusSelect::Bottom,
                    gate_block,
                    rfs: RfSelector::OpenDrain,
                    baud_div: baud_div as u8,
                    mmen,
                    tfs: TfSelector::HashDoing,
                },
            ),
    {
        if baud_div > MAX_BAUD_CLOCK_DIV {
            return Err(Error::BaudRate(baud_div));
        }
        Ok(Self {
            not_set_baud,
            inv_clock,
            baud_div: baud_div as u8,
            gate_block,
            mmen,
            tfs: TfSelector::HashDoing,
            rfs: RfSelector::OpenDrain,
            i2c_bus: I2cBusSelect::Bottom,
        })
    }

    /// Switch the pin multiplexing between hashing mode and I2C mode while
    /// keeping every other field, and clear the two initialization-only
    /// flags. This is meant as the modify step of a read-modify-write
    /// cycle on a value previously read from the chip, so unrelated
    /// configuration survives.
    pub fn set_i2c(&mut self, i2c_bus: Option<I2cBusSelect>)
        ensures
            final(self).not_set_baud == true,
            final(self).gate_block == false,
            final(self).inv_clock == old(self).inv_clock,
            final(self).baud_div == old(self).baud_div,
            final(self).mmen == old(self).mmen,
            match i2c_bus {
                Some(bus) => final(self).tfs == TfSelector::SCL0 && final(self).rfs
                    == RfSelector::SDA0 && final(self).i2c_bus == bus,
                None => final(self).tfs == TfSelector::HashDoing && final(self).rfs
                    == RfSelector::OpenDrain && final(self).i2c_bus == I2cBusSelect::Bottom,
            },
    {
        // These two only matter during initialization, so clear them.
        self.not_set_baud = true;
        self.gate_block = false;

        match i2c_bus {
            Some(bus) => {
                self.tfs = TfSelector::SCL0;
                self.rfs = RfSelector::SDA0;
                self.i2c_bus = bus;
            },
            None => {
                self.tfs = TfSelector::HashDoing;
                self.rfs = RfSelector::OpenDrain;
                self.i2c_bus = I2cBusSelect::Bottom;
            },
        }
    }
}

impl Register for MiscCtrlReg {
    open spec fn reg_num_spec() -> u8 {
        0x1c
    }

    fn reg_num() -> u8 {
        0x1c
    }

    open spec fn wf(self) -> bool {
        self.baud_div < 32
    }

    open spec fn pack_spec(self) -> u32 {
        (bit32(self.not_set_baud) << 30) | (bit32(self.inv_clock) << 21) | (i2c_bus_bits(
            self.i2c_bus,
        ) << 16) | (bit32(self.gate_block) << 15) | (rfs_bits(self.rfs) << 14) | ((((
        self.baud_div & 0x1f) as u32)) << 8) | (bit32(self.mmen) << 7) | (tfs_bits(self.tfs) << 5)
    }

    open spec fn unpack_spec(reg: u32) -> Self {
        MiscCtrlReg {
            not_set_baud: (reg >> 30) & 1 == 1,
            inv_clock: (reg >> 21) & 1 == 1,
            i2c_bus: i2c_bus_of_bits((reg >> 16) & 1),
            gate_block: (reg >> 15) & 1 == 1,
            rfs: rfs_of_bits((reg >> 14) & 1),
            baud_div: ((reg >> 8) & 0x1f) as u8,
            mmen: (reg >> 7) & 1 == 1,
            tfs: tfs_of_bits((reg >> 5) & 3),
        }
    }

    fn to_reg(&self) -> (r: u32) {
        let nsb: u32 = if self.not_set_baud {
            1
        } else {
            0
        };
        let ic: u32 = if self.inv_clock {
            1
        } else {
            0
        };
        let bus: u32 = match self.i2c_bus {
            I2cBusSelect::Bottom => 0,
            I2cBusSelect::Middle => 1,
        };
        let gb: u32 = if self.gate_block {
            1
        } else {
            0
        };
        let rf: u32 = match self.rfs {
            RfSelector::OpenDrain => 0,
            RfSelector::SDA0 => 1,
        };
        let mm: u32 = if self.mmen {
            1
        } else {
            0
        };
        let tf: u32 = match self.tfs {
            TfSelector::HashDoing => 0,
            TfSelector::UartReceiving => 1,
            TfSelector::UartTransmitting => 2,
            TfSelector::SCL0 => 3,
        };
        (nsb << 30) | (ic << 21) | (bus << 16) | (gb << 15) | (rf << 14) | (((self.baud_div
            & 0x1f) as u32) << 8) | (mm << 7) | (tf << 5)
    }

    fn from_reg(reg: u32) -> (r: Self) {
        proof {
            assert((reg >> 8) & 0x1f < 32) by (bit_vector);
        }
        let bus_bits = (reg >> 16) & 1;
        let rf_bits = (reg >> 14) & 1;
        let tf_bits = (reg >> 5) & 3;
        MiscCtrlReg {
            not_set_baud: (reg >> 30) & 1 == 1,
            inv_clock: (reg >> 21) & 1 == 1,
            i2c_bus: if bus_bits == 0 {
                I2cBusSelect::Bottom
            } else {
                I2cBusSelect::Middle
            },
            gate_block: (reg >> 15) & 1 == 1,
            rfs: if rf_bits == 0 {
                RfSelector::OpenDrain
            } else {
                RfSelector::SDA0
            },
            baud_div: ((reg >> 8) & 0x1f) as u8,
            mmen: (reg >> 7) & 1 == 1,
            tfs: if tf_bits == 0 {
                TfSelector::HashDoing
            } else if tf_bits == 1 {
                TfSelector::UartReceiving
            } else if tf_bits == 2 {
                TfSelector::UartTransmitting
            } else {
                TfSelector::SCL0
            },
        }
    }

    proof fn lemma_round_trip(self) {
        let nsb = bit32(self.not_set_baud);
        let ic = bit32(self.inv_clock);
        let bus = i2c_bus_bits(self.i2c_bus);
        let gb = bit32(self.gate_block);
        let rf = rfs_bits(self.rfs);
        let bd = self.baud_div;
        let mm = bit32(self.mmen);
        let tf = tfs_bits(self.tfs);
        assert(nsb <= 1 && ic <= 1 && bus <= 1 && gb <= 1 && rf <= 1 && bd < 32 && mm <= 1 && tf
            <= 3 ==> {
            let v = (nsb << 30) | (ic << 21) | (bus << 16) | (gb << 15) | (rf << 14) | (((bd
                & 0x1f) as u32) << 8) | (mm << 7) | (tf << 5);
            ((v >> 30) & 1 == nsb) && ((v >> 21) & 1 == ic) && ((v >> 16) & 1 == bus) && ((v >> 15)
                & 1 == gb) && ((v >> 14) & 1 == rf) && (((v >> 8) & 0x1f) as u8 == bd) && ((v >> 7)
                & 1 == mm) && ((v >> 5) & 3 == tf)
        }) by (bit_vector);
    }
}

/// PLL divider register: the four integer dividers deriving the chip clock
/// from the crystal oscillator.
#[derive(Debug, Clone, Copy, PartialEq, Eq, Structural)]
pub struct PllReg {
    /// Feedback divider; the datasheet table uses 32..=127.
    pub fbdiv: u8,
    /// Reference divider; the register field holds four bits.
    pub refdiv: u8,
    /// First post-divider, 1..=7.
    pub postdiv1: u8,
    /// Second post-divider; must not exceed `postdiv1`.
    pub postdiv2: u8,
}

/// The chip frequency a divider tuple produces from a crystal frequency:
/// `xtal * fbdiv / (refdiv * postdiv1 * postdiv2)`, rounded down.
pub open spec fn pll_frequency_spec(xtal: int, fbdiv: int, refdiv: int, postdiv1: int, postdiv2: int) -> int {
    (xtal * fbdiv) / (refdiv * postdiv1 * postdiv2)
}

/// Distance between two frequencies.
pub open spec fn distance_spec(x: int, y: int) -> int {
    if x >= y {
        x - y
    } else {
        y - x
    }
}

/// Distance between two frequencies.
pub fn distance(x: usize, y: usize) -> (r: usize)
    ensures
        r == distance_spec(x as int, y as int),
{
    if x >= y {
        x - y
    } else {
        y - x
    }
}

impl PllReg {
    /// Simulate the divider chain and compute the resulting chip frequency.
    pub fn calc(&self, xtal_freq: usize) -> (r: usize)
        requires
            self.refdiv >= 1,
            self.postdiv1 >= 1,
            self.postdiv2 >= 1,
            xtal_freq * self.fbdiv <= u64::MAX,
            pll_frequency_spec(
                xtal_freq as int,
                self.fbdiv as int,
                self.refdiv as int,
                self.postdiv1 as int,
                self.postdiv2 as int,
            ) <= usize::MAX,
        ensures
            r == pll_frequency_spec(
                xtal_freq as int,
                self.fbdiv as int,
                self.refdiv as int,
                self.postdiv1 as int,
                self.postdiv2 as int,
            ),
    {
        // The arithmetic runs in u64 so the product cannot overflow.
        let x = (xtal_freq as u64) * (self.fbdiv as u64);
        let q = x / (self.refdiv as u64) / (self.postdiv1 as u64) / (self.postdiv2 as u64);
        proof {
            let xi = x as int;
            let rd = self.refdiv as int;
            let p1 = self.postdiv1 as int;
            let p2 = self.postdiv2 as int;
            vstd::arithmetic::div_mod::lemma_div_denominator(xi, rd, p1);
            vstd::arithmetic::div_mod::lemma_div_denominator(xi, rd * p1, p2);
            assert(rd * p1 > 0) by (nonlinear_arith)
                requires
                    rd >= 1 && p1 >= 1,
            ;
            assert(rd * p1 * p2 == (rd * p1) * p2);
        }
        q as usize
    }

    /// Absolute error between the frequency this divider produces and a
    /// target frequency.
    pub fn calculate_error(&self, xtal_freq: usize, target_freq: usize) -> (r: usize)
        requires
            self.refdiv >= 1,
            self.postdiv1 >= 1,
            self.postdiv2 >= 1,
            xtal_freq * self.fbdiv <= u64::MAX,
            pll_frequency_spec(
                xtal_freq as int,
                self.fbdiv as int,
                self.refdiv as int,
                self.postdiv1 as int,
                self.postdiv2 as int,
            ) <= usize::MAX,
        ensures
            r == distance_spec(
                pll_frequency_spec(
                    xtal_freq as int,
                    self.fbdiv as int,
                    self.refdiv as int,
                    self.postdiv1 as int,
                    self.postdiv2 as int,
                ),
                target_freq as int,
            ),
    {
        distance(self.calc(xtal_freq), target_freq)
    }
}

impl Register for PllReg {
    open spec fn reg_num_spec() -> u8 {
        0x0c
    }

    fn reg_num() -> u8 {
        0x0c
    }

    /// The register keeps eight bits of `fbdiv` and four bits of each
    /// remaining divider.
    open spec fn wf(self) -> bool {
        self.refdiv < 16 && self.postdiv1 < 16 && self.postdiv2 < 16
    }

    open spec fn pack_spec(self) -> u32 {
        ((self.fbdiv as u32) << 16) | (((self.refdiv & 0x0f) as u32) << 8) | (((self.postdiv1
            & 0x0f) as u32) << 4) | ((self.postdiv2 & 0x0f) as u32)
    }

    open spec fn unpack_spec(reg: u32) -> Self {
        PllReg {
            fbdiv: ((reg >> 16) & 0xff) as u8,
            refdiv: ((reg >> 8) & 0x0f) as u8,
            postdiv1: ((reg >> 4) & 0x0f) as u8,
            postdiv2: (reg & 0x0f) as u8,
        }
    }

    fn to_reg(&self) -> (r: u32) {
        ((self.fbdiv as u32) << 16) | (((self.refdiv & 0x0f) as u32) << 8) | (((self.postdiv1
            & 0x0f) as u32) << 4) | ((self.postdiv2 & 0x0f) as u32)
    }

    fn from_reg(reg: u32) -> (r: Self) {
        proof {
            assert((reg >> 16) & 0xff < 256 && (reg >> 8) & 0x0f < 16 && (reg >> 4) & 0x0f < 16
                && reg & 0x0f < 16) by (bit_vector);
        }
        PllReg {
            fbdiv: ((reg >> 16) & 0xff) as u8,
            refdiv: ((reg >> 8) & 0x0f) as u8,
            postdiv1: ((reg >> 4) & 0x0f) as u8,
            postdiv2: (reg & 0x0f) as u8,
        }
    }

    proof fn lemma_round_trip(self) {
        let f = self.fbdiv;
        let rd = self.refdiv;
        let p1 = self.postdiv1;
        let p2 = self.postdiv2;
        assert(rd < 16 && p1 < 16 && p2 < 16 ==> {
            let v = ((f as u32) << 16) | (((rd & 0x0f) as u32) << 8) | (((p1 & 0x0f) as u32) << 4)
                | ((p2 & 0x0f) as u32);
            (((v >> 16) & 0xff) as u8 == f) && (((v >> 8) & 0x0f) as u8 == rd) && (((v >> 4)
                & 0x0f) as u8 == p1) && ((v & 0x0f) as u8 == p2)
        }) by (bit_vector);
    }
}

} // verus!
