//! ATA PIO disk driver: the register layout, drive state and the values the
//! driver writes to and decodes from the device.  The port accesses
//! themselves are done by the caller with the values computed here.
use vstd::prelude::*;

verus! {

pub type BlockIndex = u32;

/// Master or slave drive on a bus.
#[derive(Debug, Clone, Copy, PartialEq, Eq, Structural)]
pub enum Drive {
    Master,
    Slave,
}

impl Drive {
    /// The drive-select bit: set for the slave.
    pub fn to_bool(&self) -> (b: bool)
        ensures
            b == (*self == Drive::Slave),
    {
        match self {
            Drive::Master => false,
            Drive::Slave => true,
        }
    }
}

/// Command register values.
#[derive(Debug, Clone, Copy, PartialEq, Eq, Structural)]
pub enum Command {
    Read,
    Write,
    CacheFlush,
    Identify,
    MasterDriveSelector,
    SlaveDriveSelector,
}

pub open spec fn command_value(c: Command) -> u8 {
    match c {
        Command::Read => 0x20,
        Command::Write => 0x30,
        Command::CacheFlush => 0xE7,
        Command::Identify => 0xEC,
        Command::MasterDriveSelector => 0xA0,
        Command::SlaveDriveSelector => 0xB0,
    }
}

impl Command {
    /// The byte written to the command (or drive) register.
    pub fn value(&self) -> (v: u8)
        ensures
            v == command_value(*self),
    {
        match self {
            Command::Read => 0x20,
            Command::Write => 0x30,
            Command::CacheFlush => 0xE7,
            Command::Identify => 0xEC,
            Command::MasterDriveSelector => 0xA0,
            Command::SlaveDriveSelector => 0xB0,
        }
    }
}

/// Status register bits.
#[derive(Debug, Clone, Copy, PartialEq, Eq, Structural)]
pub enum Status {
    ERR,
    IDX,
    CORR,
    DRQ,
    SRV,
    DF,
    RDY,
    BSY,
}

pub open spec fn status_bit(s: Status) -> u8 {
    match s {
        Status::ERR => 0,
        Status::IDX => 1,
        Status::CORR => 2,
        Status::DRQ => 3,
        Status::SRV => 4,
        Status::DF => 5,
        Status::RDY => 6,
        Status::BSY => 7,
    }
}

impl Status {
    /// Whether this status bit is set in a status register value.
    pub fn is_set(&self, status: u8) -> (b: bool)
        ensures
            b == ((status >> status_bit(*self)) & 1 == 1),
    {
        let bit: u8 = match self {
            Status::ERR => 0,
            Status::IDX => 1,
            Status::CORR => 2,
            Status::DRQ => 3,
            Status::SRV => 4,
            Status::DF => 5,
            Status::RDY => 6,
            Status::BSY => 7,
        };
        (status >> bit) & 1 == 1
    }
}

/// Ultra DMA mode reported by IDENTIFY.
#[derive(Debug, Clone, Copy, PartialEq, Eq, Structural)]
pub struct UDMA {
    pub mode: u8,
}

/// Position of the lowest set bit of a non-zero byte.
pub open spec fn lowest_set_bit(x: u16) -> int
    decreases 16 - 0int,
{
    lowest_set_bit_from(x, 0)
}

pub open spec fn lowest_set_bit_from(x: u16, i: int) -> int
    decreases 16 - i,
{
    if i >= 16 || (x >> (i as u16)) & 1 == 1 {
        i
    } else {
        lowest_set_bit_from(x, i + 1)
    }
}

impl UDMA {
    /// Decodes word 88 of the IDENTIFY data: the mode is the lowest set bit
    /// of its upper byte, which must not be zero.
    pub fn from_ibf(buf_88: u16) -> (u: Self)
        requires
            buf_88 >> 8u16 != 0,
        ensures
            u.mode == lowest_set_bit_from(buf_88 >> 8u16, 0),
            u.mode < 8,
    {
        let upper: u16 = buf_88 >> 8u16;
        let mut mode: u8 = 0;
        assert(upper < 0x100) by (bit_vector)
            requires
                upper == buf_88 >> 8u16,
        ;
        assert(upper & (((1u16 << 0u16) - 1) as u16) == 0) by (bit_vector);
        while (upper >> (mode as u16)) & 1 == 0
            invariant
                upper != 0,
                upper < 0x100,
                mode < 8,
                lowest_set_bit_from(upper, 0) == lowest_set_bit_from(upper, mode as int),
                upper & (((1u16 << (mode as u16)) - 1) as u16) == 0,
            decreases 8 - mode,
        {
            let m = mode as u16;
            assert(m < 7 && upper & (((1u16 << ((m + 1) as u16)) - 1) as u16) == 0) by (bit_vector)
                requires
                    upper != 0,
                    upper < 0x100,
                    m < 8,
                    (upper >> m) & 1 == 0,
                    upper & (((1u16 << m) - 1) as u16) == 0,
            ;
            mode = mode + 1;
        }
        let m = mode as u16;
        assert((upper >> m) & 1 == 1) by (bit_vector)
            requires
                (upper >> m) & 1 != 0,
        ;
        UDMA { mode }
    }
}

/// Errors of bus operations.
#[derive(Debug, Clone, Copy, PartialEq, Eq, Structural)]
pub enum BusError {
    NoDrive,
    DriveNotAta,
    UnableToRead,
    NotInitMembers,
    InvalidBufferSize,
    InvalidBusIdx,
}

/// I/O port numbers of an ATA bus.
#[derive(Debug, Clone, Copy, PartialEq, Eq, Structural)]
pub struct ATARegisters {
    pub data_register: u16,
    pub error_register: u16,
    pub features_register: u16,
    pub sector_count_register: u16,
    pub lba0_register: u16,
    pub lba1_register: u16,
    pub lba2_register: u16,
    pub drive_register: u16,
    pub status_register: u16,
    pub command_register: u16,
    pub alternate_status_register: u16,
    pub control_register: u16,
    pub drive_blockess_register: u16,
}

impl ATARegisters {
    /// The task-file registers follow `io_base`, the control registers
    /// follow `ctrl_base`.
    pub fn new(io_base: u16, ctrl_base: u16) -> (r: Self)
        requires
            io_base + 7 <= u16::MAX,
            ctrl_base + 1 <= u16::MAX,
        ensures
            r == (ATARegisters {
                data_register: io_base,
                error_register: (io_base + 1) as u16,
                features_register: (io_base + 1) as u16,
                sector_count_register: (io_base + 2) as u16,
                lba0_register: (io_base + 3) as u16,
                lba1_register: (io_base + 4) as u16,
                lba2_register: (io_base + 5) as u16,
                drive_register: (io_base + 6) as u16,
                status_register: (io_base + 7) as u16,
                command_register: (io_base + 7) as u16,
                alternate_status_register: ctrl_base,
                control_register: ctrl_base,
                drive_blockess_register: (ctrl_base + 1) as u16,
            }),
    {
        ATARegisters {
            data_register: io_base + 0,
            error_register: io_base + 1,
            features_register: io_base + 1,
            sector_count_register: io_base + 2,
            lba0_register: io_base + 3,
            lba1_register: io_base + 4,
            lba2_register: io_base + 5,
            drive_register: io_base + 6,
            status_register: io_base + 7,
            command_register: io_base + 7,
            alternate_status_register: ctrl_base + 0,
            control_register: ctrl_base + 0,
            drive_blockess_register: ctrl_base + 1,
        }
    }
}

/// Register values that select a 28-bit LBA sector for one transfer.
#[derive(Debug, Clone, Copy, PartialEq, Eq, Structural)]
pub struct Setup28 {
    pub drive: u8,
    pub sector_count: u8,
    pub lba0: u8,
    pub lba1: u8,
    pub lba2: u8,
}

/// An ATA bus and what IDENTIFY reported about its drive.
pub struct Bus {
    pub id: u8,
    pub irq: u8,
    pub ctrl_base: u16,
    pub io_base: u16,
    pub ata_reg: ATARegisters,
    pub slave: Option<bool>,
    pub lba48_supported: Option<bool>,
    pub udma: Option<UDMA>,
    pub lba28_adr_sectors: Option<u32>,
    pub lba48_adr_sectors: Option<u64>,
}

/// The 28-bit sector count from IDENTIFY words 60 and 61.
pub open spec fn identify_lba28(w60: u16, w61: u16) -> u32 {
    (w61 * 0x1_0000 + w60) as u32
}

/// The 48-bit sector count from IDENTIFY words 100 to 103.
pub open spec fn identify_lba48(w100: u16, w101: u16, w102: u16, w103: u16) -> u64 {
    (w103 * 0x1_0000_0000_0000 + w102 * 0x1_0000_0000 + w101 * 0x1_0000 + w100) as u64
}

/// The register values that address sector `block` in 28-bit LBA mode on a
/// drive that IDENTIFY found to be the slave (`Some(true)`) or the master;
/// `NotInitMembers` before IDENTIFY.
pub open spec fn setup28_result(slave: Option<bool>, block: u32) -> Result<Setup28, BusError> {
    match slave {
        None => Err(BusError::NotInitMembers),
        Some(s) => Ok(
            Setup28 {
                drive: (0xE0 + (if s {
                    0x10int
                } else {
                    0
                }) + (block / 0x100_0000) % 0x10) as u8,
                sector_count: 1,
                lba0: (block % 0x100) as u8,
                lba1: ((block / 0x100) % 0x100) as u8,
                lba2: ((block / 0x1_0000) % 0x100) as u8,
            },
        ),
    }
}

/// Bytes per sector.
pub const SECTOR_SIZE: usize = 512;

impl Bus {
    /// A bus whose drive has not been identified yet.
    pub fn new(id: u8, io_base: u16, ctrl_base: u16, irq: u8) -> (b: Self)
        requires
            io_base + 7 <= u16::MAX,
            ctrl_base + 1 <= u16::MAX,
        ensures
            b.id == id,
            b.irq == irq,
            b.io_base == io_base,
            b.ctrl_base == ctrl_base,
            b.ata_reg.data_register == io_base,
            b.ata_reg.control_register == ctrl_base,
            b.slave is None,
            b.lba48_supported is None,
            b.udma is None,
            b.lba28_adr_sectors is None,
            b.lba48_adr_sectors is None,
    {
        Bus {
            id,
            irq,
            ctrl_base,
            io_base,
            ata_reg: ATARegisters::new(io_base, ctrl_base),
            slave: None,
            lba48_supported: None,
            udma: None,
            lba28_adr_sectors: None,
            lba48_adr_sectors: None,
        }
    }

    /// Records what the 256 IDENTIFY words say about the drive.
    pub fn apply_identify(&mut self, drive: Drive, buf: &[u16])
        requires
            buf@.len() == 256,
            buf@[88] >> 8u16 != 0,
        ensures
            final(self).slave == Some(drive == Drive::Slave),
            final(self).udma == Some(UDMA { mode: lowest_set_bit_from(buf@[88] >> 8u16, 0) as u8 }),
            final(self).lba28_adr_sectors == Some(identify_lba28(buf@[60], buf@[61])),
            final(self).lba48_supported == Some((buf@[83] >> 10u16) & 1 == 1),
            (buf@[83] >> 10u16) & 1 == 1 ==> final(self).lba48_adr_sectors == Some(
                identify_lba48(buf@[100], buf@[101], buf@[102], buf@[103]),
            ),
            (buf@[83] >> 10u16) & 1 != 1 ==> final(self).lba48_adr_sectors
                == old(self).lba48_adr_sectors,
            final(self).id == old(self).id,
            final(self).irq == old(self).irq,
            final(self).io_base == old(self).io_base,
            final(self).ctrl_base == old(self).ctrl_base,
            final(self).ata_reg == old(self).ata_reg,
    {
        self.slave = Some(drive.to_bool());
        self.udma = Some(UDMA::from_ibf(buf[88]));
        let lba32: u32 = ((buf[61] as u32) << 16) | (buf[60] as u32);
        let (w60, w61) = (buf[60], buf[61]);
        assert(lba32 == w61 * 0x1_0000 + w60) by (bit_vector)
            requires
                lba32 == ((w61 as u32) << 16) | (w60 as u32),
        ;
        self.lba28_adr_sectors = Some(lba32);
        let supported = (buf[83] >> 10u16) & 1 == 1;
        self.lba48_supported = Some(supported);
        if supported {
            let (w100, w101, w102, w103) = (buf[100], buf[101], buf[102], buf[103]);
            let lba48: u64 = ((w103 as u64) << 48) | ((w102 as u64) << 32) | ((w101 as u64) << 16)
                | (w100 as u64);
            assert(lba48 == w103 * 0x1_0000_0000_0000 + w102 * 0x1_0000_0000 + w101 * 0x1_0000
                + w100) by (bit_vector)
                requires
                    lba48 == ((w103 as u64) << 48) | ((w102 as u64) << 32) | ((w101 as u64) << 16)
                        | (w100 as u64),
            ;
            self.lba48_adr_sectors = Some(lba48);
        }
    }

    /// The register values that address sector `block` in 28-bit LBA mode;
    /// the drive must have been identified.
    pub fn setup28(&self, block: u32) -> (r: Result<Setup28, BusError>)
        ensures
            r == setup28_result(self.slave, block),
    {
        match self.slave {
            Some(slave) => {
                let drive_id: u8 = if slave {
                    0xF0
                } else {
                    0xE0
                };
                let top: u8 = ((block >> 24u32) as u8) & 0x0F;
                let lba0: u8 = (block & 0xFF) as u8;
                let lba1: u8 = ((block >> 8u32) & 0xFF) as u8;
                let lba2: u8 = ((block >> 16u32) & 0xFF) as u8;
                assert(top == (block / 0x100_0000) % 0x10 && lba0 == block % 0x100 && lba1 == (
                block / 0x100) % 0x100 && lba2 == (block / 0x1_0000) % 0x100) by (bit_vector)
                    requires
                        top == ((block >> 24u32) as u8) & 0x0F,
                        lba0 == (block & 0xFF) as u8,
                        lba1 == ((block >> 8u32) & 0xFF) as u8,
                        lba2 == ((block >> 16u32) & 0xFF) as u8,
                ;
                assert((drive_id | top) == drive_id + top) by (bit_vector)
                    requires
                        drive_id == 0xF0 || drive_id == 0xE0,
                        top < 0x10,
                ;
                Ok(Setup28 { drive: drive_id | top, sector_count: 1, lba0, lba1, lba2 })
            },
            None => Err(BusError::NotInitMembers),
        }
    }

    /// Starts reading sector `block` into a buffer of `buf_len` bytes: the
    /// register values that select the sector, or why it cannot be read.
    /// The 256 data words then read from the drive give the sector through
    /// [`words_to_sector`].
    pub fn read(&self, block: BlockIndex, buf_len: usize) -> (r: Result<Setup28, BusError>)
        ensures
            buf_len != SECTOR_SIZE ==> r == Err::<Setup28, BusError>(BusError::InvalidBufferSize),
            buf_len == SECTOR_SIZE ==> r == setup28_result(self.slave, block),
    {
        if buf_len != SECTOR_SIZE {
            return Err(BusError::InvalidBufferSize);
        }
        self.setup28(block)
    }

    /// Starts writing `buf` to sector `block`: the register values that
    /// select the sector and the 256 data words to send, or why it cannot be
    /// written.
    pub fn write(&self, block: BlockIndex, buf: &[u8]) -> (r: Result<(Setup28, Vec<u16>), BusError>)
        ensures
            buf@.len() != SECTOR_SIZE ==> (r matches Err(e) && e == BusError::InvalidBufferSize),
            buf@.len() == SECTOR_SIZE ==> match setup28_result(self.slave, block) {
                Err(e) => r matches Err(e2) && e2 == e,
                Ok(s) => r matches Ok((s2, words)) && s2 == s && words@.len() == 256 && forall|
                    i: int,
                | 0 <= i < 256 ==> words@[i] == buf@[2 * i] + buf@[2 * i + 1] * 0x100,
            },
    {
        if buf.len() != SECTOR_SIZE {
            return Err(BusError::InvalidBufferSize);
        }
        match self.setup28(block) {
            Ok(setup) => Ok((setup, sector_to_words(buf))),
            Err(e) => Err(e),
        }
    }

    /// The block index that holds byte `address`, in units of the drive's
    /// 28-bit sector count; 0 before IDENTIFY.
    pub fn get_block(&self, address: u32) -> (b: BlockIndex)
        requires
            self.lba28_adr_sectors matches Some(n) ==> n != 0,
        ensures
            self.lba28_adr_sectors matches Some(n) ==> b == address / n,
            self.lba28_adr_sectors is None ==> b == 0,
    {
        if let Some(lba28_adr_sectors) = self.lba28_adr_sectors {
            return (address / lba28_adr_sectors) as BlockIndex;
        }
        0
    }
}

/// The 512 bytes of a sector from the 256 data-register words, low byte
/// first.
pub fn words_to_sector(words: &[u16]) -> (buf: Vec<u8>)
    requires
        words@.len() == 256,
    ensures
        buf@.len() == 512,
        forall|i: int|
            0 <= i < 256 ==> buf@[2 * i] == (words@[i] % 0x100) as u8 && buf@[2 * i + 1] == (
            words@[i] / 0x100) as u8,
{
    let mut buf: Vec<u8> = Vec::new();
    let mut i: usize = 0;
    while i < 256
        invariant
            words@.len() == 256,
            0 <= i <= 256,
            buf@.len() == 2 * i,
            forall|k: int|
                0 <= k < i ==> buf@[2 * k] == (words@[k] % 0x100) as u8 && buf@[2 * k + 1] == (
                words@[k] / 0x100) as u8,
        decreases 256 - i,
    {
        let data = words[i];
        buf.push((data & 0xFF) as u8);
        buf.push((data >> 8u16) as u8);
        assert((data & 0xFF) as u8 == (data % 0x100) as u8 && (data >> 8u16) as u8 == (data
            / 0x100) as u8) by (bit_vector);
        i = i + 1;
    }
    buf
}

/// The 256 data-register words of a 512-byte sector, low byte first.
pub fn sector_to_words(buf: &[u8]) -> (words: Vec<u16>)
    requires
        buf@.len() == 512,
    ensures
        words@.len() == 256,
        forall|i: int| 0 <= i < 256 ==> words@[i] == buf@[2 * i] + buf@[2 * i + 1] * 0x100,
{
    let mut words: Vec<u16> = Vec::new();
    let mut i: usize = 0;
    while i < 256
        invariant
            buf@.len() == 512,
            0 <= i <= 256,
            words@.len() == i,
            forall|k: int| 0 <= k < i ==> words@[k] == buf@[2 * k] + buf@[2 * k + 1] * 0x100,
        decreases 256 - i,
    {
        let lo = buf[2 * i] as u16;
        let hi = buf[2 * i + 1] as u16;
        words.push(lo + hi * 0x100);
        i = i + 1;
    }
    words
}

/// `read` on bus number `bus` of `buses`.
pub fn read(buses: &Vec<Bus>, bus: u8, block: BlockIndex, buf_len: usize) -> (r: Result<
    Setup28,
    BusError,
>)
    ensures
        bus >= buses@.len() ==> r == Err::<Setup28, BusError>(BusError::InvalidBusIdx),
        bus < buses@.len() && buf_len != SECTOR_SIZE ==> r == Err::<Setup28, BusError>(
            BusError::InvalidBufferSize,
        ),
        bus < buses@.len() && buf_len == SECTOR_SIZE ==> r == setup28_result(
            buses@[bus as int].slave,
            block,
        ),
{
    if bus as usize >= buses.len() {
        return Err(BusError::InvalidBusIdx);
    }
    buses[bus as usize].read(block, buf_len)
}

/// `write` on bus number `bus` of `buses`.
pub fn write(buses: &Vec<Bus>, bus: u8, block: BlockIndex, buf: &[u8]) -> (r: Result<
    (Setup28, Vec<u16>),
    BusError,
>)
    ensures
        bus >= buses@.len() ==> (r matches Err(e) && e == BusError::InvalidBusIdx),
        bus < buses@.len() && buf@.len() != SECTOR_SIZE ==> (r matches Err(e) && e
            == BusError::InvalidBufferSize),
        bus < buses@.len() && buf@.len() == SECTOR_SIZE ==> match setup28_result(
            buses@[bus as int].slave,
            block,
        ) {
            Err(e) => r matches Err(e2) && e2 == e,
            Ok(s) => r matches Ok((s2, words)) && s2 == s && words@.len() == 256 && forall|i: int|
                0 <= i < 256 ==> words@[i] == buf@[2 * i] + buf@[2 * i + 1] * 0x100,
        },
{
    if bus as usize >= buses.len() {
        return Err(BusError::InvalidBusIdx);
    }
    buses[bus as usize].write(block, buf)
}

/// The two buses the kernel probes, before IDENTIFY: the primary bus
/// (ports 0x1F0 and 0x3F6, IRQ 14) for the master drive and the secondary
/// bus (ports 0x170 and 0x376, IRQ 15) for the slave drive.
pub fn init() -> (buses: (Bus, Bus))
    ensures
        buses.0.id == 0 && buses.0.io_base == 0x1F0 && buses.0.ctrl_base == 0x3F6 && buses.0.irq
            == 14,
        buses.1.id == 1 && buses.1.io_base == 0x170 && buses.1.ctrl_base == 0x376 && buses.1.irq
            == 15,
        buses.0.slave is None && buses.1.slave is None,
{
    let master = Bus::new(0, 0x1F0, 0x3F6, 14);
    let slave = Bus::new(1, 0x170, 0x376, 15);
    (master, slave)
}

/// Where the IDENTIFY exchange stands: which register is to be read next.
#[derive(Debug, Clone, Copy, PartialEq, Eq, Structural)]
pub enum IdentifyStage {
    /// The alternate status, right after the command is sent.
    Probe,
    /// The status, until the drive is no longer busy.
    WaitNotBusy,
    /// The LBA mid and high registers, which hold 0 on an ATA drive.
    Signature,
    /// The status, until data is ready or an error is reported.
    WaitData,
    /// The 256 words of the answer.
    ReadWords,
}

/// What was read at a stage of the IDENTIFY exchange.
pub enum IdentifyRead {
    AltStatus(u8),
    Status(u8),
    Signature(u8, u8),
    Words(Vec<u16>),
}

/// What to do after a reading: read at the next stage, or stop: the drive
/// failed with an error, or it was identified.
#[derive(Debug, Clone, Copy, PartialEq, Eq, Structural)]
pub enum IdentifyNext {
    Read(IdentifyStage),
    Failed(BusError),
    Identified,
}

/// The reading is the one the stage asks for.
pub open spec fn reading_fits(stage: IdentifyStage, r: IdentifyRead) -> bool {
    match stage {
        IdentifyStage::Probe => r is AltStatus,
        IdentifyStage::WaitNotBusy => r is Status,
        IdentifyStage::Signature => r is Signature,
        IdentifyStage::WaitData => r is Status,
        IdentifyStage::ReadWords => r matches IdentifyRead::Words(w) && w@.len() == 256,
    }
}

/// The decision taken on a reading: no status at all means no drive; the
/// drive is waited for while busy; a nonzero signature is not an ATA drive;
/// data is waited for until ready (an error stops it); a drive that reports
/// no UDMA mode in word 88 is not taken as an ATA drive.
pub open spec fn identify_next(stage: IdentifyStage, r: IdentifyRead) -> IdentifyNext {
    match r {
        IdentifyRead::AltStatus(a) => if a == 0 {
            IdentifyNext::Failed(BusError::NoDrive)
        } else {
            IdentifyNext::Read(IdentifyStage::WaitNotBusy)
        },
        IdentifyRead::Status(st) => if stage == IdentifyStage::WaitNotBusy {
            if (st >> 7u8) & 1 == 1 {
                IdentifyNext::Read(IdentifyStage::WaitNotBusy)
            } else {
                IdentifyNext::Read(IdentifyStage::Signature)
            }
        } else if (st >> 3u8) & 1 == 1 {
            IdentifyNext::Read(IdentifyStage::ReadWords)
        } else if st & 1 == 1 {
            IdentifyNext::Failed(BusError::UnableToRead)
        } else {
            IdentifyNext::Read(IdentifyStage::WaitData)
        },
        IdentifyRead::Signature(mid, high) => if mid != 0 || high != 0 {
            IdentifyNext::Failed(BusError::DriveNotAta)
        } else {
            IdentifyNext::Read(IdentifyStage::WaitData)
        },
        IdentifyRead::Words(w) => if w@[88] >> 8u16 == 0 {
            IdentifyNext::Failed(BusError::DriveNotAta)
        } else {
            IdentifyNext::Identified
        },
    }
}

impl Bus {
    /// The start of IDENTIFY for `drive`: the bus records which drive it
    /// addresses before anything is read.
    pub fn begin_identify(&mut self, drive: Drive)
        ensures
            *final(self) == (Bus { slave: Some(drive == Drive::Slave), ..*old(self) }),
    {
        self.slave = Some(drive.to_bool());
    }

    /// One step of IDENTIFY: the decision on what was read at `stage`; when
    /// the answer is taken, what it reports is recorded.
    pub fn identify_step(&mut self, drive: Drive, stage: IdentifyStage, r: IdentifyRead) -> (next: IdentifyNext)
        requires
            reading_fits(stage, r),
        ensures
            next == identify_next(stage, r),
            next == IdentifyNext::Identified ==> ({
                let w = r->Words_0@;
                &&& final(self).slave == Some(drive == Drive::Slave)
                &&& final(self).udma == Some(UDMA { mode: lowest_set_bit_from(w[88] >> 8u16, 0) as u8 })
                &&& final(self).lba28_adr_sectors == Some(identify_lba28(w[60], w[61]))
                &&& final(self).lba48_supported == Some((w[83] >> 10u16) & 1 == 1)
                &&& (w[83] >> 10u16) & 1 == 1 ==> final(self).lba48_adr_sectors == Some(
                    identify_lba48(w[100], w[101], w[102], w[103]),
                )
                &&& (w[83] >> 10u16) & 1 != 1 ==> final(self).lba48_adr_sectors
                    == old(self).lba48_adr_sectors
                &&& final(self).id == old(self).id
                &&& final(self).irq == old(self).irq
                &&& final(self).io_base == old(self).io_base
                &&& final(self).ctrl_base == old(self).ctrl_base
                &&& final(self).ata_reg == old(self).ata_reg
            }),
            next != IdentifyNext::Identified ==> *final(self) == *old(self),
    {
        match r {
            IdentifyRead::AltStatus(a) => {
                if a == 0 {
                    IdentifyNext::Failed(BusError::NoDrive)
                } else {
                    IdentifyNext::Read(IdentifyStage::WaitNotBusy)
                }
            },
            IdentifyRead::Status(st) => {
                proof {
                    assert(st >> 0u8 == st) by (bit_vector);
                }
                if stage == IdentifyStage::WaitNotBusy {
                    if Status::BSY.is_set(st) {
                        IdentifyNext::Read(IdentifyStage::WaitNotBusy)
                    } else {
                        IdentifyNext::Read(IdentifyStage::Signature)
                    }
                } else if Status::DRQ.is_set(st) {
                    IdentifyNext::Read(IdentifyStage::ReadWords)
                } else if Status::ERR.is_set(st) {
                    IdentifyNext::Failed(BusError::UnableToRead)
                } else {
                    IdentifyNext::Read(IdentifyStage::WaitData)
                }
            },
            IdentifyRead::Signature(mid, high) => {
                if mid != 0 || high != 0 {
                    IdentifyNext::Failed(BusError::DriveNotAta)
                } else {
                    IdentifyNext::Read(IdentifyStage::WaitData)
                }
            },
            IdentifyRead::Words(w) => {
                if w[88] >> 8u16 == 0 {
                    IdentifyNext::Failed(BusError::DriveNotAta)
                } else {
                    self.apply_identify(drive, w.as_slice());
                    IdentifyNext::Identified
                }
            },
        }
    }
}

} // verus!
