//! The register state initializer for x86_64 guests: the registers with which
//! a virtual CPU starts, and the descriptor and page tables that they refer
//! to.
//!
//! Under the Linux boot protocol the CPU starts in 64-bit mode with paging on,
//! the first gigabyte mapped one to one. Under the PVH protocol it starts in
//! 32-bit protected mode with paging off.
use crate::address::GuestAddress;
use crate::bytes::le_bytes64;
use crate::bytes::push_u64;
use crate::bytes::writes_of;
use crate::bytes::GuestWrite;
use crate::layout::BootLayout;
use crate::BootProtocol;
use crate::EntryPoint;
use vstd::prelude::*;

verus! {

/// Protected mode enable, in control register 0.
pub const CR0_PE: u64 = 0x1;

/// Extension type, in control register 0.
pub const CR0_ET: u64 = 0x10;

/// Paging, in control register 0.
pub const CR0_PG: u64 = 0x8000_0000;

/// Physical address extension, in control register 4.
pub const CR4_PAE: u64 = 0x20;

/// Long mode enable, in the extended feature enable register.
pub const EFER_LME: u64 = 0x100;

/// Long mode active, in the extended feature enable register.
pub const EFER_LMA: u64 = 0x400;

/// The flags register at boot: only the bit that is always set.
pub const BOOT_RFLAGS: u64 = 0x2;

/// A page table entry that is present and writable.
pub const PAGE_PRESENT_WRITABLE: u64 = 0x03;

/// A page directory entry that is present, writable and maps 2 MiB.
pub const PAGE_PRESENT_WRITABLE_LARGE: u64 = 0x83;

/// A segment register.
#[derive(Clone, Copy, Debug, PartialEq, Eq, Structural)]
pub struct Segment {
    /// The address at which the segment starts.
    pub base: u64,
    /// The highest offset in the segment.
    pub limit: u32,
    /// The selector: the offset of the descriptor in its table.
    pub selector: u16,
    /// The type of the segment.
    pub kind: u8,
    /// Whether the segment is present.
    pub present: u8,
    /// The privilege level.
    pub dpl: u8,
    /// Whether operands are 32 bits wide by default.
    pub db: u8,
    /// Whether it is a code or data segment, and no system segment.
    pub s: u8,
    /// Whether it is a 64-bit code segment.
    pub l: u8,
    /// Whether the limit counts pages.
    pub g: u8,
    /// Free for system software.
    pub avl: u8,
    /// Whether the segment cannot be used.
    pub unusable: u8,
}

/// A descriptor table register.
#[derive(Clone, Copy, Debug, PartialEq, Eq, Structural)]
pub struct DescriptorTable {
    /// The address of the table.
    pub base: u64,
    /// The offset of the last byte of the table.
    pub limit: u16,
}

/// The general-purpose registers that are set at boot; the others are zero.
#[derive(Clone, Copy, Debug, PartialEq, Eq, Structural)]
pub struct GeneralRegisters {
    /// The instruction pointer.
    pub rip: u64,
    /// The stack pointer.
    pub rsp: u64,
    /// The frame pointer.
    pub rbp: u64,
    /// Under the Linux boot protocol, the address of the boot parameters.
    pub rsi: u64,
    /// Under the PVH protocol, the address of the start info.
    pub rbx: u64,
    /// The flags register.
    pub rflags: u64,
}

/// The registers that decide the mode in which the CPU runs.
#[derive(Clone, Copy, Debug, PartialEq, Eq, Structural)]
pub struct SpecialRegisters {
    /// The code segment.
    pub cs: Segment,
    /// The data segment.
    pub ds: Segment,
    /// The extra segment.
    pub es: Segment,
    /// The segment register fs.
    pub fs: Segment,
    /// The segment register gs.
    pub gs: Segment,
    /// The stack segment.
    pub ss: Segment,
    /// The task register.
    pub tr: Segment,
    /// The global descriptor table register.
    pub gdt: DescriptorTable,
    /// The interrupt descriptor table register.
    pub idt: DescriptorTable,
    /// Control register 0.
    pub cr0: u64,
    /// Control register 3: the address of the top page table.
    pub cr3: u64,
    /// Control register 4.
    pub cr4: u64,
    /// The extended feature enable register.
    pub efer: u64,
}

/// The registers with which a virtual CPU starts.
#[derive(Clone, Copy, Debug, PartialEq, Eq, Structural)]
pub struct RegisterFile {
    /// The general-purpose registers.
    pub general: GeneralRegisters,
    /// The mode-control registers.
    pub special: SpecialRegisters,
}

/// The descriptor with the given flags, base and limit. The low byte of the
/// flags holds type, `s`, privilege level and presence; the high four bits
/// hold `avl`, `l`, `db` and `g`. Of the limit the low 20 bits count.
pub open spec fn gdt_entry_of(flags: u16, base: u32, limit: u32) -> int {
    (limit % 0x1_0000) + (base % 0x100_0000) * 0x1_0000 + (flags % 0x100) * 0x100_0000_0000 + ((
    limit / 0x1_0000) % 0x10) * 0x1_0000_0000_0000 + (flags / 0x1000) * 0x10_0000_0000_0000 + (
    base / 0x100_0000) * 0x100_0000_0000_0000
}

/// The segment register that the descriptor with the given number in its
/// table loads.
pub open spec fn segment_of(entry: u64, index: u8) -> Segment {
    let g = (entry / 0x80_0000_0000_0000) % 2;
    let low_limit = (entry % 0x1_0000) + ((entry / 0x1_0000_0000_0000) % 0x10) * 0x1_0000;
    let present = (entry / 0x8000_0000_0000) % 2;
    Segment {
        base: ((entry / 0x1_0000) % 0x100_0000 + (entry / 0x100_0000_0000_0000) * 0x100_0000) as u64,
        limit: (if g == 0 {
            low_limit
        } else {
            low_limit * 0x1000 + 0xfff
        }) as u32,
        selector: (index * 8) as u16,
        kind: ((entry / 0x100_0000_0000) % 0x10) as u8,
        present: present as u8,
        dpl: ((entry / 0x2000_0000_0000) % 4) as u8,
        db: ((entry / 0x40_0000_0000_0000) % 2) as u8,
        s: ((entry / 0x1000_0000_0000) % 2) as u8,
        l: ((entry / 0x20_0000_0000_0000) % 2) as u8,
        g: g as u8,
        avl: ((entry / 0x10_0000_0000_0000) % 2) as u8,
        unusable: if present == 0 {
            1u8
        } else {
            0u8
        },
    }
}

/// The four descriptors of the boot descriptor table: the null descriptor,
/// code, data and task state.
pub open spec fn gdt_table_of(protocol: BootProtocol) -> Seq<u64> {
    match protocol {
        BootProtocol::LinuxBoot => seq![
            gdt_entry_of(0, 0, 0) as u64,
            gdt_entry_of(0xa09b, 0, 0xfffff) as u64,
            gdt_entry_of(0xc093, 0, 0xfffff) as u64,
            gdt_entry_of(0x808b, 0, 0xfffff) as u64,
        ],
        BootProtocol::PvhBoot => seq![
            gdt_entry_of(0, 0, 0) as u64,
            gdt_entry_of(0xc09b, 0, 0xffff_ffff) as u64,
            gdt_entry_of(0xc093, 0, 0xffff_ffff) as u64,
            gdt_entry_of(0x008b, 0, 0x67) as u64,
        ],
    }
}

/// The general-purpose registers at boot: execution starts at the entry
/// point; under the Linux protocol on the boot stack with the address of the
/// boot parameters in `rsi`, under the PVH protocol with the address of the
/// start info in `rbx`.
pub open spec fn general_registers_of(boot: BootLayout, entry: EntryPoint) -> GeneralRegisters {
    match entry.protocol {
        BootProtocol::LinuxBoot => GeneralRegisters {
            rip: entry.entry_addr.0,
            rsp: boot.boot_stack_pointer,
            rbp: boot.boot_stack_pointer,
            rsi: boot.boot_params_start,
            rbx: 0,
            rflags: BOOT_RFLAGS,
        },
        BootProtocol::PvhBoot => GeneralRegisters {
            rip: entry.entry_addr.0,
            rsp: 0,
            rbp: 0,
            rsi: 0,
            rbx: boot.boot_params_start,
            rflags: BOOT_RFLAGS,
        },
    }
}

/// The mode-control registers at boot: the segments that the boot descriptor
/// table describes, the addresses of the tables, and under the Linux protocol
/// long mode with paging through the boot page tables, under the PVH protocol
/// protected mode without paging.
pub open spec fn special_registers_of(boot: BootLayout, protocol: BootProtocol) -> SpecialRegisters {
    let table = gdt_table_of(protocol);
    let code = segment_of(table[1], 1);
    let data = segment_of(table[2], 2);
    let task = segment_of(table[3], 3);
    SpecialRegisters {
        cs: code,
        ds: data,
        es: data,
        fs: data,
        gs: data,
        ss: data,
        tr: task,
        gdt: DescriptorTable { base: boot.gdt_start, limit: 31 },
        idt: DescriptorTable { base: boot.idt_start, limit: 7 },
        cr0: match protocol {
            BootProtocol::LinuxBoot => (CR0_PE + CR0_PG) as u64,
            BootProtocol::PvhBoot => (CR0_PE + CR0_ET) as u64,
        },
        cr3: match protocol {
            BootProtocol::LinuxBoot => boot.page_tables_start,
            BootProtocol::PvhBoot => 0,
        },
        cr4: match protocol {
            BootProtocol::LinuxBoot => CR4_PAE,
            BootProtocol::PvhBoot => 0,
        },
        efer: match protocol {
            BootProtocol::LinuxBoot => (EFER_LME + EFER_LMA) as u64,
            BootProtocol::PvhBoot => 0,
        },
    }
}

/// The registers with which a virtual CPU starts at the entry point.
pub open spec fn registers_of(boot: BootLayout, entry: EntryPoint) -> RegisterFile {
    RegisterFile {
        general: general_registers_of(boot, entry),
        special: special_registers_of(boot, entry.protocol),
    }
}

/// The bytes of a table of 64-bit entries.
pub open spec fn table_bytes(entries: Seq<u64>) -> Seq<u8> {
    Seq::new(entries.len() * 8, |k: int| le_bytes64(entries[k / 8])[k % 8])
}

/// The page directory: 512 entries, the i-th mapping the 2 MiB at `i` times
/// 2 MiB.
pub open spec fn page_directory() -> Seq<u64> {
    Seq::new(512, |i: int| (i * 0x20_0000 + PAGE_PRESENT_WRITABLE_LARGE) as u64)
}

/// What is written to guest memory before the registers are loaded: the
/// descriptor tables, and under the Linux protocol the first entry of the top
/// page table, the first entry of the table below it, and the page directory.
pub open spec fn boot_tables_of(boot: BootLayout, protocol: BootProtocol) -> Seq<(u64, Seq<u8>)> {
    let tables = seq![
        (boot.gdt_start, table_bytes(gdt_table_of(protocol))),
        (boot.idt_start, table_bytes(seq![0u64])),
    ];
    match protocol {
        BootProtocol::LinuxBoot => tables + seq![
            (
                boot.page_tables_start,
                table_bytes(
                    seq![(boot.page_tables_start + 0x1000 + PAGE_PRESENT_WRITABLE) as u64],
                ),
            ),
            (
                (boot.page_tables_start + 0x1000) as u64,
                table_bytes(
                    seq![(boot.page_tables_start + 0x2000 + PAGE_PRESENT_WRITABLE) as u64],
                ),
            ),
            ((boot.page_tables_start + 0x2000) as u64, table_bytes(page_directory())),
        ],
        BootProtocol::PvhBoot => tables,
    }
}

/// Builds a descriptor from flags, base and limit.
pub fn gdt_entry(flags: u16, base: u32, limit: u32) -> (entry: u64)
    ensures
        entry == gdt_entry_of(flags, base, limit),
{
    let flags: u64 = flags as u64;
    let base: u64 = base as u64;
    let limit: u64 = limit as u64;
    (limit % 0x1_0000) + (base % 0x100_0000) * 0x1_0000 + (flags % 0x100) * 0x100_0000_0000 + ((
    limit / 0x1_0000) % 0x10) * 0x1_0000_0000_0000 + (flags / 0x1000) * 0x10_0000_0000_0000 + (
    base / 0x100_0000) * 0x100_0000_0000_0000
}

/// Reads a descriptor as the segment register that it loads.
pub fn segment_from_gdt(entry: u64, index: u8) -> (segment: Segment)
    ensures
        segment == segment_of(entry, index),
{
    let g: u64 = (entry / 0x80_0000_0000_0000) % 2;
    let low_limit: u64 = (entry % 0x1_0000) + ((entry / 0x1_0000_0000_0000) % 0x10) * 0x1_0000;
    let present: u64 = (entry / 0x8000_0000_0000) % 2;
    Segment {
        base: (entry / 0x1_0000) % 0x100_0000 + (entry / 0x100_0000_0000_0000) * 0x100_0000,
        limit: (if g == 0 {
            low_limit
        } else {
            low_limit * 0x1000 + 0xfff
        }) as u32,
        selector: index as u16 * 8,
        kind: ((entry / 0x100_0000_0000) % 0x10) as u8,
        present: present as u8,
        dpl: ((entry / 0x2000_0000_0000) % 4) as u8,
        db: ((entry / 0x40_0000_0000_0000) % 2) as u8,
        s: ((entry / 0x1000_0000_0000) % 2) as u8,
        l: ((entry / 0x20_0000_0000_0000) % 2) as u8,
        g: g as u8,
        avl: ((entry / 0x10_0000_0000_0000) % 2) as u8,
        unusable: if present == 0 {
            1
        } else {
            0
        },
    }
}

/// The boot descriptor table of a protocol.
pub fn gdt_table(protocol: BootProtocol) -> (table: Vec<u64>)
    ensures
        table@ == gdt_table_of(protocol),
{
    let mut table: Vec<u64> = Vec::new();
    table.push(gdt_entry(0, 0, 0));
    match protocol {
        BootProtocol::LinuxBoot => {
            table.push(gdt_entry(0xa09b, 0, 0xfffff));
            table.push(gdt_entry(0xc093, 0, 0xfffff));
            table.push(gdt_entry(0x808b, 0, 0xfffff));
        },
        BootProtocol::PvhBoot => {
            table.push(gdt_entry(0xc09b, 0, 0xffff_ffff));
            table.push(gdt_entry(0xc093, 0, 0xffff_ffff));
            table.push(gdt_entry(0x008b, 0, 0x67));
        },
    }
    assert(table@ =~= gdt_table_of(protocol));
    table
}

/// Computes the registers with which a virtual CPU starts at the entry point.
/// It only reads the layout, so it can be called once for each virtual CPU.
pub fn init_registers(boot: &BootLayout, entry: EntryPoint) -> (registers: RegisterFile)
    ensures
        registers == registers_of(*boot, entry),
{
    let general = match entry.protocol {
        BootProtocol::LinuxBoot => GeneralRegisters {
            rip: entry.entry_addr.raw_value(),
            rsp: boot.boot_stack_pointer,
            rbp: boot.boot_stack_pointer,
            rsi: boot.boot_params_start,
            rbx: 0,
            rflags: BOOT_RFLAGS,
        },
        BootProtocol::PvhBoot => GeneralRegisters {
            rip: entry.entry_addr.raw_value(),
            rsp: 0,
            rbp: 0,
            rsi: 0,
            rbx: boot.boot_params_start,
            rflags: BOOT_RFLAGS,
        },
    };
    let table = gdt_table(entry.protocol);
    let code = segment_from_gdt(table[1], 1);
    let data = segment_from_gdt(table[2], 2);
    let task = segment_from_gdt(table[3], 3);
    let (cr0, cr3, cr4, efer) = match entry.protocol {
        BootProtocol::LinuxBoot => (
            CR0_PE + CR0_PG,
            boot.page_tables_start,
            CR4_PAE,
            EFER_LME + EFER_LMA,
        ),
        BootProtocol::PvhBoot => (CR0_PE + CR0_ET, 0, 0, 0),
    };
    let special = SpecialRegisters {
        cs: code,
        ds: data,
        es: data,
        fs: data,
        gs: data,
        ss: data,
        tr: task,
        gdt: DescriptorTable { base: boot.gdt_start, limit: 31 },
        idt: DescriptorTable { base: boot.idt_start, limit: 7 },
        cr0,
        cr3,
        cr4,
        efer,
    };
    RegisterFile { general, special }
}

/// Spells out a table of 64-bit entries.
pub fn table_to_bytes(entries: &Vec<u64>) -> (bytes: Vec<u8>)
    ensures
        bytes@ == table_bytes(entries@),
{
    let mut bytes: Vec<u8> = Vec::new();
    let mut i: usize = 0;
    while i < entries.len()
        invariant
            i <= entries@.len(),
            bytes@ == table_bytes(entries@.subrange(0, i as int)),
        decreases entries@.len() - i,
    {
        let ghost before = bytes@;
        push_u64(&mut bytes, entries[i]);
        i += 1;
        assert(bytes@ =~= table_bytes(entries@.subrange(0, i as int))) by {
            let shorter = entries@.subrange(0, i - 1);
            let longer = entries@.subrange(0, i as int);
            assert(before.len() == 8 * (i - 1));
            assert(le_bytes64(entries@[i - 1]).len() == 8);
            assert forall|k: int| 0 <= k < 8 * i implies bytes@[k] == table_bytes(longer)[k] by {
                if k < 8 * (i - 1) {
                    assert(k / 8 < i - 1);
                    assert(shorter[k / 8] == longer[k / 8]);
                    assert(bytes@[k] == before[k]);
                } else {
                    assert(k / 8 == i - 1);
                    assert(k % 8 == k - 8 * (i - 1));
                }
            }
        }
    }
    assert(entries@.subrange(0, i as int) =~= entries@);
    bytes
}

/// The tables that must be in guest memory before a virtual CPU is started
/// with the registers of `init_registers`.
pub fn boot_tables(boot: &BootLayout, protocol: BootProtocol) -> (writes: Vec<GuestWrite>)
    requires
        boot.wf(),
    ensures
        writes_of(writes@) == boot_tables_of(*boot, protocol),
{
    let mut writes: Vec<GuestWrite> = Vec::new();
    let table = gdt_table(protocol);
    writes.push(GuestWrite { address: GuestAddress(boot.gdt_start), data: table_to_bytes(&table) });
    let mut idt: Vec<u64> = Vec::new();
    idt.push(0);
    assert(idt@ =~= seq![0u64]);
    writes.push(GuestWrite { address: GuestAddress(boot.idt_start), data: table_to_bytes(&idt) });
    match protocol {
        BootProtocol::LinuxBoot => {
            let second: u64 = boot.page_tables_start + 0x1000;
            let third: u64 = boot.page_tables_start + 0x2000;
            let mut top: Vec<u64> = Vec::new();
            top.push(second + PAGE_PRESENT_WRITABLE);
            assert(top@ =~= seq![(boot.page_tables_start + 0x1000 + PAGE_PRESENT_WRITABLE) as u64]);
            writes.push(
                GuestWrite {
                    address: GuestAddress(boot.page_tables_start),
                    data: table_to_bytes(&top),
                },
            );
            let mut middle: Vec<u64> = Vec::new();
            middle.push(third + PAGE_PRESENT_WRITABLE);
            assert(middle@ =~= seq![
                (boot.page_tables_start + 0x2000 + PAGE_PRESENT_WRITABLE) as u64,
            ]);
            writes.push(GuestWrite { address: GuestAddress(second), data: table_to_bytes(&middle) });
            let mut directory: Vec<u64> = Vec::new();
            let mut i: u64 = 0;
            while i < 512
                invariant
                    i <= 512,
                    directory@.len() == i,
                    forall|j: int| 0 <= j < i ==> directory@[j] == page_directory()[j],
                decreases 512 - i,
            {
                directory.push(i * 0x20_0000 + PAGE_PRESENT_WRITABLE_LARGE);
                i += 1;
            }
            assert(directory@ =~= page_directory());
            writes.push(
                GuestWrite { address: GuestAddress(third), data: table_to_bytes(&directory) },
            );
            assert(writes_of(writes@) =~= boot_tables_of(*boot, protocol));
        },
        BootProtocol::PvhBoot => {
            assert(writes_of(writes@) =~= boot_tables_of(*boot, protocol));
        },
    }
    writes
}

/// The mode in which the CPU starts. Under the Linux protocol: a present
/// 64-bit code segment over the whole address space, protected mode and
/// paging on, long mode enabled and active, and the top page table in `cr3`.
/// Under the PVH protocol: a present 32-bit code segment over 4 GiB, protected
/// mode on and paging off. Under both: flat data segments, and execution at
/// the entry point.
pub proof fn lemma_boot_mode(boot: BootLayout, entry: EntryPoint)
    ensures
        registers_of(boot, entry).general.rip == entry.entry_addr.0,
        ({
            let special = registers_of(boot, entry).special;
            &&& special.cs.present == 1 && special.cs.base == 0 && special.cs.limit == 0xffff_ffff
            &&& special.cs.selector == 8 && special.cs.kind == 0xb && special.cs.s == 1
            &&& special.ds.present == 1 && special.ds.base == 0 && special.ds.limit == 0xffff_ffff
            &&& special.ds.selector == 16 && special.ds.kind == 0x3 && special.ds.s == 1
            &&& special.tr.present == 1 && special.tr.selector == 24 && special.tr.kind == 0xb
            &&& special.tr.s == 0
            &&& special.gdt.base == boot.gdt_start && special.idt.base == boot.idt_start
            &&& entry.protocol == BootProtocol::LinuxBoot ==> {
                &&& special.cs.l == 1 && special.cs.db == 0
                &&& special.cr0 == 0x8000_0001 && special.cr4 == 0x20 && special.efer == 0x500
                &&& special.cr3 == boot.page_tables_start
            }
            &&& entry.protocol == BootProtocol::PvhBoot ==> {
                &&& special.cs.l == 0 && special.cs.db == 1
                &&& special.cr0 == 0x11 && special.cr4 == 0 && special.efer == 0
            }
        }),
{
    lemma_gdt_tables();
}

/// The descriptors of the boot descriptor tables, as numbers.
pub proof fn lemma_gdt_tables()
    ensures
        gdt_table_of(BootProtocol::LinuxBoot) == seq![
            0u64,
            0x00af_9b00_0000_ffffu64,
            0x00cf_9300_0000_ffffu64,
            0x008f_8b00_0000_ffffu64,
        ],
        gdt_table_of(BootProtocol::PvhBoot) == seq![
            0u64,
            0x00cf_9b00_0000_ffffu64,
            0x00cf_9300_0000_ffffu64,
            0x0000_8b00_0000_0067u64,
        ],
{
    assert(gdt_entry_of(0, 0, 0) == 0);
    assert(gdt_entry_of(0xa09b, 0, 0xfffff) == 0x00af_9b00_0000_ffff);
    assert(gdt_entry_of(0xc093, 0, 0xfffff) == 0x00cf_9300_0000_ffff);
    assert(gdt_entry_of(0x808b, 0, 0xfffff) == 0x008f_8b00_0000_ffff);
    assert(gdt_entry_of(0xc09b, 0, 0xffff_ffff) == 0x00cf_9b00_0000_ffff);
    assert(gdt_entry_of(0xc093, 0, 0xffff_ffff) == 0x00cf_9300_0000_ffff);
    assert(gdt_entry_of(0x008b, 0, 0x67) == 0x0000_8b00_0000_0067);
    assert(gdt_table_of(BootProtocol::LinuxBoot) =~= seq![
        0u64,
        0x00af_9b00_0000_ffffu64,
        0x00cf_9300_0000_ffffu64,
        0x008f_8b00_0000_ffffu64,
    ]);
    assert(gdt_table_of(BootProtocol::PvhBoot) =~= seq![
        0u64,
        0x00cf_9b00_0000_ffffu64,
        0x00cf_9300_0000_ffffu64,
        0x0000_8b00_0000_0067u64,
    ]);
}

} // verus!
