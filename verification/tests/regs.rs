use arch::bytes::GuestWrite;
use arch::layout::Layout;
use arch::regs::boot_tables;
use arch::regs::gdt_entry;
use arch::regs::gdt_table;
use arch::regs::init_registers;
use arch::regs::segment_from_gdt;
use arch::regs::table_to_bytes;
use arch::regs::DescriptorTable;
use arch::regs::Segment;
use arch::BootProtocol;
use arch::EntryPoint;
use arch::GuestAddress;

fn bitwise_gdt_entry(flags: u16, base: u32, limit: u32) -> u64 {
    ((u64::from(base) & 0xff00_0000u64) << (56 - 24))
        | ((u64::from(flags) & 0x0000_f0ffu64) << 40)
        | ((u64::from(limit) & 0x000f_0000u64) << (48 - 16))
        | ((u64::from(base) & 0x00ff_ffffu64) << 16)
        | (u64::from(limit) & 0x0000_ffffu64)
}

fn flat_segment(selector: u16, kind: u8, db: u8, l: u8) -> Segment {
    Segment {
        base: 0,
        limit: 0xffff_ffff,
        selector,
        kind,
        present: 1,
        dpl: 0,
        db,
        s: 1,
        l,
        g: 1,
        avl: 0,
        unusable: 0,
    }
}

fn data_of(write: &GuestWrite) -> (u64, Vec<u8>) {
    (write.address.0, write.data.clone())
}

#[test]
fn gdt_entries_of_the_boot_tables() {
    assert_eq!(gdt_entry(0, 0, 0), 0);
    assert_eq!(gdt_entry(0xa09b, 0, 0xfffff), 0x00af_9b00_0000_ffff);
    assert_eq!(gdt_entry(0xc093, 0, 0xfffff), 0x00cf_9300_0000_ffff);
    assert_eq!(gdt_entry(0x808b, 0, 0xfffff), 0x008f_8b00_0000_ffff);
    assert_eq!(gdt_entry(0xc09b, 0, 0xffff_ffff), 0x00cf_9b00_0000_ffff);
    assert_eq!(gdt_entry(0x008b, 0, 0x67), 0x0000_8b00_0000_0067);
}

#[test]
fn gdt_entry_places_base_and_limit() {
    assert_eq!(gdt_entry(0, 0x1234_5678, 0), 0x1200_0034_5678_0000);
    assert_eq!(gdt_entry(0, 0xffff_ffff, 0), 0xff00_00ff_ffff_0000);
    assert_eq!(gdt_entry(0, 0, 0xffff_ffff), 0x000f_0000_0000_ffff);
    assert_eq!(gdt_entry(0xffff, 0, 0), 0x00f0_ff00_0000_0000);
}

#[test]
fn gdt_entry_agrees_with_the_bitwise_form() {
    let flags: Vec<u16> = vec![0, 1, 0x9b, 0xa09b, 0xc093, 0x808b, 0x0f00, 0xffff, 0x1234];
    let bases: Vec<u32> = vec![0, 1, 0xff, 0x1234_5678, 0xffff_ffff, 0x00ff_ffff, 0x0100_0000];
    let limits: Vec<u32> = vec![0, 0x67, 0xffff, 0x1_0000, 0xf_ffff, 0x10_0000, 0xffff_ffff];
    for f in &flags {
        for b in &bases {
            for l in &limits {
                assert_eq!(gdt_entry(*f, *b, *l), bitwise_gdt_entry(*f, *b, *l));
            }
        }
    }
}

#[test]
fn segments_of_the_linux_table() {
    let table = gdt_table(BootProtocol::LinuxBoot);
    assert_eq!(
        table,
        vec![0, 0x00af_9b00_0000_ffff, 0x00cf_9300_0000_ffff, 0x008f_8b00_0000_ffff]
    );
    assert_eq!(segment_from_gdt(table[1], 1), flat_segment(8, 0xb, 0, 1));
    assert_eq!(segment_from_gdt(table[2], 2), flat_segment(16, 0x3, 1, 0));
    assert_eq!(
        segment_from_gdt(table[3], 3),
        Segment {
            base: 0,
            limit: 0xffff_ffff,
            selector: 24,
            kind: 0xb,
            present: 1,
            dpl: 0,
            db: 0,
            s: 0,
            l: 0,
            g: 1,
            avl: 0,
            unusable: 0,
        }
    );
}

#[test]
fn segments_of_the_pvh_table() {
    let table = gdt_table(BootProtocol::PvhBoot);
    assert_eq!(
        table,
        vec![0, 0x00cf_9b00_0000_ffff, 0x00cf_9300_0000_ffff, 0x0000_8b00_0000_0067]
    );
    assert_eq!(segment_from_gdt(table[1], 1), flat_segment(8, 0xb, 1, 0));
    assert_eq!(segment_from_gdt(table[2], 2), flat_segment(16, 0x3, 1, 0));
    assert_eq!(
        segment_from_gdt(table[3], 3),
        Segment {
            base: 0,
            limit: 0x67,
            selector: 24,
            kind: 0xb,
            present: 1,
            dpl: 0,
            db: 0,
            s: 0,
            l: 0,
            g: 0,
            avl: 0,
            unusable: 0,
        }
    );
}

#[test]
fn a_segment_reads_base_limit_and_flags() {
    let segment = segment_from_gdt(gdt_entry(0x40f2, 0x1234_5678, 0x5_4321), 5);
    assert_eq!(segment.base, 0x1234_5678);
    assert_eq!(segment.limit, 0x5_4321);
    assert_eq!(segment.selector, 40);
    assert_eq!(segment.kind, 0x2);
    assert_eq!(segment.s, 1);
    assert_eq!(segment.dpl, 3);
    assert_eq!(segment.present, 1);
    assert_eq!(segment.avl, 0);
    assert_eq!(segment.l, 0);
    assert_eq!(segment.db, 1);
    assert_eq!(segment.g, 0);
    assert_eq!(segment.unusable, 0);
    assert_eq!(segment_from_gdt(0x0000_8b00_0000_0067, 255).selector, 2040);
    let null = segment_from_gdt(0, 0);
    assert_eq!(null.present, 0);
    assert_eq!(null.unusable, 1);
    assert_eq!(null.limit, 0);
    assert_eq!(null.selector, 0);
}

#[test]
fn registers_under_the_linux_protocol() {
    let boot = Layout::x86_64().boot;
    let entry = EntryPoint { entry_addr: GuestAddress(0x100_0000), protocol: BootProtocol::LinuxBoot };
    let registers = init_registers(&boot, entry);
    assert_eq!(registers.general.rip, 0x100_0000);
    assert_eq!(registers.general.rsp, 0x8ff0);
    assert_eq!(registers.general.rbp, 0x8ff0);
    assert_eq!(registers.general.rsi, 0x7000);
    assert_eq!(registers.general.rbx, 0);
    assert_eq!(registers.general.rflags, 0x2);
    let special = registers.special;
    assert_eq!(special.cs, flat_segment(8, 0xb, 0, 1));
    assert_eq!(special.ds, flat_segment(16, 0x3, 1, 0));
    assert_eq!(special.es, special.ds);
    assert_eq!(special.fs, special.ds);
    assert_eq!(special.gs, special.ds);
    assert_eq!(special.ss, special.ds);
    assert_eq!(special.tr.selector, 24);
    assert_eq!(special.gdt, DescriptorTable { base: 0x500, limit: 31 });
    assert_eq!(special.idt, DescriptorTable { base: 0x520, limit: 7 });
    assert_eq!(special.cr0, 0x8000_0001);
    assert_eq!(special.cr3, 0x9000);
    assert_eq!(special.cr4, 0x20);
    assert_eq!(special.efer, 0x500);
}

#[test]
fn registers_under_the_pvh_protocol() {
    let boot = Layout::x86_64().boot;
    let entry = EntryPoint { entry_addr: GuestAddress(0x123_4560), protocol: BootProtocol::PvhBoot };
    let registers = init_registers(&boot, entry);
    assert_eq!(registers.general.rip, 0x123_4560);
    assert_eq!(registers.general.rsp, 0);
    assert_eq!(registers.general.rbp, 0);
    assert_eq!(registers.general.rsi, 0);
    assert_eq!(registers.general.rbx, 0x7000);
    assert_eq!(registers.general.rflags, 0x2);
    let special = registers.special;
    assert_eq!(special.cs, flat_segment(8, 0xb, 1, 0));
    assert_eq!(special.ds, flat_segment(16, 0x3, 1, 0));
    assert_eq!(special.tr.limit, 0x67);
    assert_eq!(special.gdt, DescriptorTable { base: 0x500, limit: 31 });
    assert_eq!(special.idt, DescriptorTable { base: 0x520, limit: 7 });
    assert_eq!(special.cr0, 0x11);
    assert_eq!(special.cr3, 0);
    assert_eq!(special.cr4, 0);
    assert_eq!(special.efer, 0);
}

#[test]
fn registers_are_the_same_for_every_cpu() {
    let boot = Layout::x86_64().boot;
    let entry = EntryPoint { entry_addr: GuestAddress(0x10_0000), protocol: BootProtocol::LinuxBoot };
    assert_eq!(init_registers(&boot, entry), init_registers(&boot, entry));
}

#[test]
fn tables_are_spelled_least_significant_byte_first() {
    assert_eq!(table_to_bytes(&Vec::new()), Vec::<u8>::new());
    assert_eq!(
        table_to_bytes(&vec![0x0102_0304_0506_0708, 1]),
        vec![8, 7, 6, 5, 4, 3, 2, 1, 1, 0, 0, 0, 0, 0, 0, 0]
    );
}

#[test]
fn tables_under_the_linux_protocol() {
    let boot = Layout::x86_64().boot;
    let writes = boot_tables(&boot, BootProtocol::LinuxBoot);
    assert_eq!(writes.len(), 5);
    let mut gdt: Vec<u8> = vec![0; 8];
    gdt.extend_from_slice(&0x00af_9b00_0000_ffffu64.to_le_bytes());
    gdt.extend_from_slice(&0x00cf_9300_0000_ffffu64.to_le_bytes());
    gdt.extend_from_slice(&0x008f_8b00_0000_ffffu64.to_le_bytes());
    assert_eq!(data_of(&writes[0]), (0x500, gdt));
    assert_eq!(data_of(&writes[1]), (0x520, vec![0; 8]));
    assert_eq!(data_of(&writes[2]), (0x9000, vec![0x03, 0xa0, 0, 0, 0, 0, 0, 0]));
    assert_eq!(data_of(&writes[3]), (0xa000, vec![0x03, 0xb0, 0, 0, 0, 0, 0, 0]));
    assert_eq!(writes[4].address, GuestAddress(0xb000));
    assert_eq!(writes[4].data.len(), 4096);
    for i in 0..512u64 {
        let entry = (i << 21) + 0x83;
        let at = 8 * i as usize;
        assert_eq!(writes[4].data[at..at + 8], entry.to_le_bytes());
    }
}

#[test]
fn tables_under_the_pvh_protocol() {
    let boot = Layout::x86_64().boot;
    let writes = boot_tables(&boot, BootProtocol::PvhBoot);
    assert_eq!(writes.len(), 2);
    let mut gdt: Vec<u8> = vec![0; 8];
    gdt.extend_from_slice(&0x00cf_9b00_0000_ffffu64.to_le_bytes());
    gdt.extend_from_slice(&0x00cf_9300_0000_ffffu64.to_le_bytes());
    gdt.extend_from_slice(&0x0000_8b00_0000_0067u64.to_le_bytes());
    assert_eq!(data_of(&writes[0]), (0x500, gdt));
    assert_eq!(data_of(&writes[1]), (0x520, vec![0; 8]));
}
