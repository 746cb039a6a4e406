use ferrum_os::drivers::ata::{
    init, read, sector_to_words, words_to_sector, ATARegisters, Bus, BusError, Command, Drive, IdentifyNext,
    IdentifyRead, IdentifyStage, Setup28, Status, UDMA,
};

fn identify_words() -> Vec<u16> {
    let mut w = vec![0u16; 256];
    w[60] = 0x5678;
    w[61] = 0x0012;
    w[83] = 1 << 10;
    w[88] = 0x0407;
    w[100] = 1;
    w[101] = 2;
    w[102] = 3;
    w[103] = 0;
    w
}

#[test]
fn register_layout() {
    let r = ATARegisters::new(0x1F0, 0x3F6);
    assert_eq!(r.data_register, 0x1F0);
    assert_eq!(r.error_register, 0x1F1);
    assert_eq!(r.sector_count_register, 0x1F2);
    assert_eq!(r.lba0_register, 0x1F3);
    assert_eq!(r.lba2_register, 0x1F5);
    assert_eq!(r.drive_register, 0x1F6);
    assert_eq!(r.command_register, 0x1F7);
    assert_eq!(r.control_register, 0x3F6);
    assert_eq!(r.drive_blockess_register, 0x3F7);
}

#[test]
fn command_and_status_values() {
    assert_eq!(Command::Read.value(), 0x20);
    assert_eq!(Command::Write.value(), 0x30);
    assert_eq!(Command::CacheFlush.value(), 0xE7);
    assert_eq!(Command::Identify.value(), 0xEC);
    assert_eq!(Command::MasterDriveSelector.value(), 0xA0);
    assert_eq!(Command::SlaveDriveSelector.value(), 0xB0);
    assert!(Status::BSY.is_set(0x80));
    assert!(!Status::BSY.is_set(0x7F));
    assert!(Status::DRQ.is_set(0x08));
    assert!(Status::ERR.is_set(0x01));
    assert!(!Status::RDY.is_set(0x01));
    assert!(Drive::Slave.to_bool());
    assert!(!Drive::Master.to_bool());
}

#[test]
fn udma_mode_is_lowest_set_bit() {
    assert_eq!(UDMA::from_ibf(0x0100).mode, 0);
    assert_eq!(UDMA::from_ibf(0x2000).mode, 5);
    assert_eq!(UDMA::from_ibf(0x8000).mode, 7);
    assert_eq!(UDMA::from_ibf(0x0C3F).mode, 2);
}

#[test]
fn buses_before_identify() {
    let (master, slave) = init();
    assert_eq!((master.id, master.io_base, master.ctrl_base, master.irq), (0, 0x1F0, 0x3F6, 14));
    assert_eq!((slave.id, slave.io_base, slave.ctrl_base, slave.irq), (1, 0x170, 0x376, 15));
    assert_eq!(master.read(0, 512), Err(BusError::NotInitMembers));
    assert_eq!(master.get_block(4096), 0);
}

#[test]
fn identify_results() {
    let mut bus = Bus::new(0, 0x1F0, 0x3F6, 14);
    bus.apply_identify(Drive::Slave, &identify_words());
    assert_eq!(bus.slave, Some(true));
    assert_eq!(bus.udma, Some(UDMA { mode: 2 }));
    assert_eq!(bus.lba28_adr_sectors, Some(0x0012_5678));
    assert_eq!(bus.lba48_supported, Some(true));
    assert_eq!(bus.lba48_adr_sectors, Some(0x0000_0003_0002_0001));
    assert_eq!(bus.get_block(0x0024_ACF0), 2);
}

#[test]
fn identify_without_lba48() {
    let mut bus = Bus::new(0, 0x1F0, 0x3F6, 14);
    let mut w = identify_words();
    w[83] = 0;
    bus.apply_identify(Drive::Master, &w);
    assert_eq!(bus.lba48_supported, Some(false));
    assert_eq!(bus.lba48_adr_sectors, None);
    assert_eq!(bus.slave, Some(false));
}

#[test]
fn lba28_register_values() {
    let mut bus = Bus::new(0, 0x1F0, 0x3F6, 14);
    bus.apply_identify(Drive::Master, &identify_words());
    assert_eq!(
        bus.setup28(0x0ABC_DEF1),
        Ok(Setup28 { drive: 0xEA, sector_count: 1, lba0: 0xF1, lba1: 0xDE, lba2: 0xBC })
    );
    bus.apply_identify(Drive::Slave, &identify_words());
    assert_eq!(bus.setup28(0x1234_5678).unwrap().drive, 0xF2);
    assert_eq!(bus.read(5, 100), Err(BusError::InvalidBufferSize));
    assert_eq!(bus.read(5, 512).unwrap().lba0, 5);
}

#[test]
fn sector_words_round_trip() {
    let sector: Vec<u8> = (0..512u32).map(|i| (i * 7 % 256) as u8).collect();
    let words = sector_to_words(&sector);
    assert_eq!(words.len(), 256);
    assert_eq!(words[0], (sector[1] as u16) << 8 | sector[0] as u16);
    assert_eq!(words_to_sector(&words), sector);
}

#[test]
fn bus_list_read_and_write() {
    let (mut master, slave) = init();
    master.apply_identify(Drive::Master, &identify_words());
    let buses = vec![master, slave];
    assert_eq!(read(&buses, 2, 0, 512), Err(BusError::InvalidBusIdx));
    assert_eq!(read(&buses, 1, 0, 512), Err(BusError::NotInitMembers));
    assert_eq!(read(&buses, 0, 0, 10), Err(BusError::InvalidBufferSize));
    assert!(read(&buses, 0, 0, 512).is_ok());
    let data = vec![0xABu8; 512];
    assert!(matches!(ferrum_os::drivers::ata::write(&buses, 5, 0, &data), Err(BusError::InvalidBusIdx)));
    assert!(matches!(ferrum_os::drivers::ata::write(&buses, 0, 0, &data[..3]), Err(BusError::InvalidBufferSize)));
    assert!(matches!(ferrum_os::drivers::ata::write(&buses, 1, 0, &data), Err(BusError::NotInitMembers)));
    let (setup, words) = ferrum_os::drivers::ata::write(&buses, 0, 9, &data).ok().unwrap();
    assert_eq!(setup.lba0, 9);
    assert_eq!(words, vec![0xABABu16; 256]);
}

#[test]
fn identify_exchange_steps() {
    let mut bus = Bus::new(0, 0x1F0, 0x3F6, 14);
    bus.begin_identify(Drive::Master);
    assert_eq!(bus.slave, Some(false));
    assert_eq!(bus.identify_step(Drive::Master, IdentifyStage::Probe, IdentifyRead::AltStatus(0)), IdentifyNext::Failed(BusError::NoDrive));
    assert_eq!(bus.identify_step(Drive::Master, IdentifyStage::Probe, IdentifyRead::AltStatus(0x50)), IdentifyNext::Read(IdentifyStage::WaitNotBusy));
    assert_eq!(bus.identify_step(Drive::Master, IdentifyStage::WaitNotBusy, IdentifyRead::Status(0x80)), IdentifyNext::Read(IdentifyStage::WaitNotBusy));
    assert_eq!(bus.identify_step(Drive::Master, IdentifyStage::WaitNotBusy, IdentifyRead::Status(0x50)), IdentifyNext::Read(IdentifyStage::Signature));
    assert_eq!(bus.identify_step(Drive::Master, IdentifyStage::Signature, IdentifyRead::Signature(0x14, 0xEB)), IdentifyNext::Failed(BusError::DriveNotAta));
    assert_eq!(bus.identify_step(Drive::Master, IdentifyStage::Signature, IdentifyRead::Signature(0, 0)), IdentifyNext::Read(IdentifyStage::WaitData));
    assert_eq!(bus.identify_step(Drive::Master, IdentifyStage::WaitData, IdentifyRead::Status(0x50)), IdentifyNext::Read(IdentifyStage::WaitData));
    assert_eq!(bus.identify_step(Drive::Master, IdentifyStage::WaitData, IdentifyRead::Status(0x51)), IdentifyNext::Failed(BusError::UnableToRead));
    assert_eq!(bus.identify_step(Drive::Master, IdentifyStage::WaitData, IdentifyRead::Status(0x58)), IdentifyNext::Read(IdentifyStage::ReadWords));
    assert_eq!(bus.lba28_adr_sectors, None);
    let mut no_udma = identify_words();
    no_udma[88] = 0x0007;
    assert_eq!(bus.identify_step(Drive::Master, IdentifyStage::ReadWords, IdentifyRead::Words(no_udma)), IdentifyNext::Failed(BusError::DriveNotAta));
    assert_eq!(bus.identify_step(Drive::Master, IdentifyStage::ReadWords, IdentifyRead::Words(identify_words())), IdentifyNext::Identified);
    assert_eq!(bus.lba28_adr_sectors, Some(0x0012_5678));
    assert_eq!(bus.udma, Some(UDMA { mode: 2 }));
}
