use ferrum_os::drivers::acpi::hpet::{HPETRegisters, HPETTimerConfig, HPET};
use ferrum_os::drivers::acpi::madt::MADT;
use ferrum_os::drivers::acpi::rsdp::Rsdp;
use ferrum_os::drivers::acpi::rsdt::RSDT;
use ferrum_os::drivers::acpi::ACPISDTHeader;
use ferrum_os::drivers::apic::io_apic::{init as ioapic_init, IOAPICStruct, IoApicWrite};
use ferrum_os::drivers::apic::local_apic::{enabled_spurious_vector, LAPICReg, LocalAPIC};
use ferrum_os::drivers::mmio::{MmioWrite32, MmioWrite64};
use ferrum_os::interrupts::InterruptIndexAPIC;
use ferrum_os::timer::hpet::HPETTimer;
use ferrum_os::timer::lapic::{lapic_calibrate, lapic_calibrate_ticks, LAPICTimer, LAPICTimerDivideValue};
use ferrum_os::timer::Time;

fn header(sig: &[u8; 4], length: u32) -> Vec<u8> {
    let mut h = vec![0u8; 36];
    h[0..4].copy_from_slice(sig);
    h[4..8].copy_from_slice(&length.to_le_bytes());
    h
}

fn fix_checksum(t: &mut Vec<u8>, at: usize) {
    let s: u32 = t.iter().map(|&b| b as u32).sum();
    t[at] = ((256 - (s % 256)) % 256) as u8;
}

#[test]
fn rsdp_checksum_and_address() {
    let mut b = vec![0u8; 20];
    b[0..8].copy_from_slice(b"RSD PTR ");
    b[16..20].copy_from_slice(&0x000F_1234u32.to_le_bytes());
    fix_checksum(&mut b, 8);
    let r = Rsdp::new(&b);
    assert!(r.is_valid());
    assert_eq!(r.rsdt_address(), 0x000F_1234);
    b[9] = b[9].wrapping_add(1);
    assert!(!Rsdp::new(&b).is_valid());
}

#[test]
fn sdt_header_fields() {
    let mut t = header(b"APIC", 44);
    t[9] = 7;
    let h = ACPISDTHeader::new(&t);
    assert_eq!(h.length(), 44);
    assert!(h.has_signature(b"APIC"));
    assert!(!h.has_signature(b"HPET"));
    assert_eq!(h.get_sum(), b"APIC".iter().map(|&b| b as u32).sum::<u32>() + 44 + 7);
}

#[test]
fn rsdt_entries_and_checksum() {
    let mut t = header(b"RSDT", 36 + 8);
    t.extend_from_slice(&0x1000u32.to_le_bytes());
    t.extend_from_slice(&0x2345_6789u32.to_le_bytes());
    fix_checksum(&mut t, 9);
    let r = RSDT::new(&t);
    assert_eq!(r.entries(), &vec![0x1000u32, 0x2345_6789]);
    assert!(r.is_valid());
    t[9] = t[9].wrapping_add(3);
    assert!(!RSDT::new(&t).is_valid());
}

#[test]
fn rsdt_ignores_trailing_partial_entry() {
    let mut t = header(b"RSDT", 36 + 6);
    t.extend_from_slice(&[1, 0, 0, 0, 9, 9]);
    let r = RSDT::new(&t);
    assert_eq!(r.entries(), &vec![1u32]);
}

fn madt_with(records: &[Vec<u8>]) -> Vec<u8> {
    let body: usize = records.iter().map(|r| r.len()).sum();
    let mut t = header(b"APIC", (44 + body) as u32);
    t.extend_from_slice(&0xFEE0_0000u32.to_le_bytes());
    t.extend_from_slice(&1u32.to_le_bytes());
    for r in records {
        t.extend_from_slice(r);
    }
    // The walk over the records reads `length - 36` bytes from offset 44,
    // eight bytes past the table: memory there holds a record it skips.
    t.extend_from_slice(&[0x7F, 8, 0, 0, 0, 0, 0, 0]);
    t
}

#[test]
fn madt_finds_first_ioapic() {
    let local = vec![0u8, 8, 0, 0, 1, 0, 0, 0];
    let unknown = vec![9u8, 4, 0, 0];
    let mut io = vec![1u8, 12, 3, 0];
    io.extend_from_slice(&0xFEC0_0000u32.to_le_bytes());
    io.extend_from_slice(&0u32.to_le_bytes());
    let mut io2 = vec![1u8, 12, 4, 0];
    io2.extend_from_slice(&0xFEC1_0000u32.to_le_bytes());
    io2.extend_from_slice(&24u32.to_le_bytes());
    let t = madt_with(&[local, unknown, io, io2]);
    let m = MADT::new(&t);
    let io = m.get_ioapic().expect("an I/O APIC");
    assert_eq!(io.select_address(), 0xFEC0_0000);
    assert_eq!(io.window_address(), 0xFEC0_0010);
}

#[test]
fn madt_without_ioapic() {
    let local = vec![0u8, 8, 0, 0, 1, 0, 0, 0];
    let t = madt_with(&[local]);
    assert!(MADT::new(&t).get_ioapic().is_none());
}

#[test]
fn ioapic_routing_writes() {
    let io = IOAPICStruct::new(0, 0xFEC0_0000, 0);
    assert_eq!(io.set_red_tbl_vec(1, 34), IoApicWrite { register: 0x12, value: 34 });
    assert_eq!(
        ioapic_init(&io),
        vec![
            IoApicWrite { register: 0x14, value: 32 },
            IoApicWrite { register: 0x12, value: 34 },
            IoApicWrite { register: 0x34, value: 35 },
        ]
    );
}

#[test]
fn ioapic_mask_writes_only_when_needed() {
    let io = IOAPICStruct::new(0, 0xFEC0_0000, 0);
    assert_eq!(io.set_mask(3, true, 0x22), Some(IoApicWrite { register: 0x16, value: 0x1_0022 }));
    assert_eq!(io.set_mask(3, true, 0x1_0022), None);
    assert_eq!(io.set_mask(3, false, 0x1_0022), Some(IoApicWrite { register: 0x16, value: 0x22 }));
    assert_eq!(io.set_mask(3, false, 0x22), None);
    // Masking settles: after the write, asking again needs nothing.
    let w = io.set_mask(5, true, 0).unwrap();
    assert_eq!(io.set_mask(5, true, w.value), None);
}

#[test]
fn local_apic_from_msr() {
    let l = LocalAPIC::init(0xFEE0_0900);
    assert_eq!(l.register_address(LAPICReg::EOI), 0xFEE0_00B0);
    assert_eq!(l.register_address(LAPICReg::TimerLVT), 0xFEE0_0320);
    assert_eq!(l.set_eoi(), MmioWrite32 { address: 0xFEE0_00B0, value: 0 });
    assert_eq!(l.set_spurious_interrupt_vector(0x1FF), MmioWrite32 { address: 0xFEE0_00F0, value: 0x1FF });
    assert_eq!(l.write_register(LAPICReg::TimerICnt, 7), MmioWrite32 { address: 0xFEE0_0380, value: 7 });
    assert_eq!(enabled_spurious_vector(0x1000), 0x11FF);
}

#[test]
fn interrupt_vectors() {
    assert_eq!(InterruptIndexAPIC::Timer.as_u8(), 32);
    assert_eq!(InterruptIndexAPIC::LAPICTimer.as_u8(), 33);
    assert_eq!(InterruptIndexAPIC::Keyboard.as_u8(), 34);
    assert_eq!(InterruptIndexAPIC::HPET.as_u8(), 35);
    assert_eq!(InterruptIndexAPIC::AtaMaster.as_u32(), 36);
    assert_eq!(InterruptIndexAPIC::AtaSlave.as_u32(), 37);
    assert_eq!(InterruptIndexAPIC::Spurious.as_u32(), 0xFF);
}

fn hpet_table(address: u64) -> Vec<u8> {
    let mut t = header(b"HPET", 56);
    t.extend_from_slice(&0x8086_A201u32.to_le_bytes());
    t.extend_from_slice(&0u32.to_le_bytes());
    t.extend_from_slice(&address.to_le_bytes());
    t.push(0);
    t.extend_from_slice(&0x80u16.to_le_bytes());
    t.push(0);
    t
}

#[test]
fn hpet_register_writes() {
    let h = HPET::new(&hpet_table(0xFED0_0000));
    assert_eq!(h.register_address(HPETRegisters::MainCounterValue), 0xFED0_00F0);
    assert_eq!(h.enable(0b10), MmioWrite64 { address: 0xFED0_0010, value: 0b11 });
    assert_eq!(h.disable(0b11), MmioWrite64 { address: 0xFED0_0010, value: 0b10 });
    assert_eq!(h.set_timer_n_comparator(2, 99), MmioWrite64 { address: 0xFED0_0148, value: 99 });
    assert_eq!(h.get_timer_n_config(1).address(), 0xFED0_0120);
    assert_eq!(
        h.set_register(HPETRegisters::GeneralCapabilitiesID, 5),
        MmioWrite64 { address: 0xFED0_0000, value: 5 }
    );
}

#[test]
fn hpet_enable_then_disable_clears_only_bit_zero() {
    let h = HPET::new(&hpet_table(0x1000));
    let on = h.enable(0xF0).value;
    assert_eq!(on & 1, 1);
    assert_eq!(h.disable(on).value, 0xF0);
}

#[test]
fn hpet_comparator_config() {
    let c = HPETTimerConfig::new(0x2000);
    assert_eq!(c.set_interrupt_idx(0xFFFF_FFFF, 0x12).value, (0xFFFF_FFFF & !0x3E00) | (0x12 << 9));
    assert_eq!((c.set_interrupt_idx(0, 0x12).value >> 9) & 0x1F, 0x12);
    assert_eq!(c.enable_interrupt(1), MmioWrite64 { address: 0x2000, value: 0b101 });
    assert_eq!(c.disable_interrupt(0b111), MmioWrite64 { address: 0x2000, value: 0b011 });
}

#[test]
fn hpet_timer_period() {
    let t = HPETTimer::new(HPET::new(&hpet_table(0)), 0x0098_9680_0000_0000);
    assert_eq!(t.frequency(), Time::Femtoseconds(10_000_000));
}

#[test]
fn time_conversions() {
    assert_eq!(Time::Seconds(2).to_nanoseconds(), 2_000_000_000);
    assert_eq!(Time::Milliseconds(3).to_femtoseconds(), 3_000_000_000_000);
    assert_eq!(Time::Femtoseconds(2_500_000).to_nanoseconds(), 2);
    assert_eq!(Time::Microseconds(7).to_nanoseconds(), 7000);
    assert_eq!(Time::Nanoseconds(5).to_femtoseconds(), 5_000_000);
    // a nanosecond is a million femtoseconds
    let t = Time::Microseconds(11);
    assert_eq!(t.to_femtoseconds(), t.to_nanoseconds() * 1_000_000);
}

#[test]
fn lapic_timer_values() {
    assert_eq!(LAPICTimer::set_lvt(), 33);
    assert_eq!(LAPICTimer::set_periodic(33, true), 0x2_0021);
    assert_eq!(LAPICTimer::set_periodic(0x2_0021, false), 33);
    assert_eq!(LAPICTimer::set_active(33, false), 0x1_0021);
    assert_eq!(LAPICTimer::set_active(0x1_0021, true), 33);
    assert_eq!(LAPICTimer::set_divide(0xFF, LAPICTimerDivideValue::Div16), 0xFB);
    assert_eq!(LAPICTimer::set_divide(0, LAPICTimerDivideValue::Div1), 0b1011);
    assert_eq!(LAPICTimerDivideValue::Div32.code(), 0b1000);
}

#[test]
fn lapic_calibration() {
    assert_eq!(lapic_calibrate(0xFFFF_0000), 0xFFFF);
    assert_eq!(lapic_calibrate_ticks(0xFFFF_FFFF - 123_456), 123);
}
