//! The boot-parameter blocks: what the guest kernel reads to learn where its
//! memory, its command line and its initial ramdisk are.
//!
//! Under the Linux boot protocol the block is the kernel's "zero page"; under
//! the PVH protocol it is the start info with its module list and memory map.
//! Both layouts are fixed by the kernel; numbers are little-endian.
use crate::bytes::le_bytes;
use crate::bytes::le_bytes16;
use crate::bytes::le_bytes64;
use crate::bytes::put;
use crate::bytes::store_u16;
use crate::bytes::store_u32;
use crate::bytes::store_u64;
use crate::bytes::store_u8;
use crate::bytes::zero_block;
use crate::bytes::zeros;
use crate::layout::BootLayout;
use crate::memory::MemoryRegion;
use crate::InitrdConfig;
use vstd::prelude::*;

verus! {

/// The size of a boot-parameter block in bytes.
pub const BOOT_PARAMS_BLOCK_SIZE: usize = 0x1000;

/// The largest number of memory regions that a block describes.
pub const MAX_REGION_ENTRIES: usize = 128;

/// The type of a memory map entry for usable memory, under both protocols.
pub const MEMORY_TYPE_RAM: u32 = 1;

/// Zero page: the high half of the ramdisk address.
pub const ZP_EXT_RAMDISK_IMAGE: usize = 0x0c0;

/// Zero page: the high half of the ramdisk size.
pub const ZP_EXT_RAMDISK_SIZE: usize = 0x0c4;

/// Zero page: the high half of the command line address.
pub const ZP_EXT_CMD_LINE_PTR: usize = 0x0c8;

/// Zero page: the number of memory map entries, one byte.
pub const ZP_E820_ENTRIES: usize = 0x1e8;

/// Zero page: the boot flag, two bytes.
pub const ZP_BOOT_FLAG: usize = 0x1fe;

/// Zero page: the header magic.
pub const ZP_HEADER: usize = 0x202;

/// Zero page: the type of the boot loader, one byte.
pub const ZP_TYPE_OF_LOADER: usize = 0x210;

/// Zero page: the low half of the ramdisk address.
pub const ZP_RAMDISK_IMAGE: usize = 0x218;

/// Zero page: the low half of the ramdisk size.
pub const ZP_RAMDISK_SIZE: usize = 0x21c;

/// Zero page: the low half of the command line address.
pub const ZP_CMD_LINE_PTR: usize = 0x228;

/// Zero page: the alignment that the kernel asks for.
pub const ZP_KERNEL_ALIGNMENT: usize = 0x230;

/// Zero page: the length of the command line.
pub const ZP_CMDLINE_SIZE: usize = 0x238;

/// Zero page: the memory map, entries of [`E820_ENTRY_SIZE`] bytes.
pub const ZP_E820_TABLE: usize = 0x2d0;

/// The size of a memory map entry of the zero page: address, length, type.
pub const E820_ENTRY_SIZE: usize = 20;

/// The value of the boot flag.
pub const KERNEL_BOOT_FLAG_MAGIC: u16 = 0xaa55;

/// The value of the header magic, "HdrS".
pub const KERNEL_HDR_MAGIC: u32 = 0x5372_6448;

/// The loader type of a boot loader without an assigned number.
pub const KERNEL_LOADER_OTHER: u8 = 0xff;

/// The alignment that is announced for the kernel.
pub const KERNEL_MIN_ALIGNMENT_BYTES: u32 = 0x0100_0000;

/// Start info: the magic number.
pub const PVH_MAGIC: usize = 0x00;

/// Start info: the version of the structure.
pub const PVH_VERSION: usize = 0x04;

/// Start info: the number of modules.
pub const PVH_NR_MODULES: usize = 0x0c;

/// Start info: the address of the module list.
pub const PVH_MODLIST_PADDR: usize = 0x10;

/// Start info: the address of the command line.
pub const PVH_CMDLINE_PADDR: usize = 0x18;

/// Start info: the address of the memory map.
pub const PVH_MEMMAP_PADDR: usize = 0x28;

/// Start info: the number of memory map entries.
pub const PVH_MEMMAP_ENTRIES: usize = 0x30;

/// The offset of the module list in the block.
pub const PVH_MODLIST: usize = 0x40;

/// The offset of the memory map in the block, entries of
/// [`PVH_MEMMAP_ENTRY_SIZE`] bytes.
pub const PVH_MEMMAP: usize = 0x80;

/// The size of a memory map entry of the start info: address, length, type,
/// and four bytes that are kept zero.
pub const PVH_MEMMAP_ENTRY_SIZE: usize = 24;

/// The value of the start info magic.
pub const PVH_START_MAGIC: u32 = 0x336e_c578;

/// The version of the start info structure that is written.
pub const PVH_START_VERSION: u32 = 1;

/// The low 32 bits of `x`.
pub open spec fn low32(x: u64) -> u32 {
    (x % 0x1_0000_0000) as u32
}

/// The high 32 bits of `x`.
pub open spec fn high32(x: u64) -> u32 {
    (x / 0x1_0000_0000) as u32
}

/// The block with one memory map entry for each region, the i-th at offset
/// `at + i * stride`: the address and the length of the region, eight bytes
/// each, and the type of usable memory.
pub open spec fn put_regions(
    block: Seq<u8>,
    regions: Seq<MemoryRegion>,
    at: int,
    stride: int,
) -> Seq<u8>
    decreases regions.len(),
{
    if regions.len() == 0 {
        block
    } else {
        let entry = at + (regions.len() - 1) * stride;
        let region = regions.last();
        put(
            put(
                put(
                    put_regions(block, regions.drop_last(), at, stride),
                    entry,
                    le_bytes64(region.start.0),
                ),
                entry + 8,
                le_bytes64(region.size),
            ),
            entry + 16,
            le_bytes(MEMORY_TYPE_RAM),
        )
    }
}

/// The address of the initial ramdisk, or 0 if there is none.
pub open spec fn initrd_address_or_zero(initrd: Option<InitrdConfig>) -> u64 {
    match initrd {
        Some(config) => config.address.0,
        None => 0,
    }
}

/// The size of the initial ramdisk, or 0 if there is none.
pub open spec fn initrd_size_or_zero(initrd: Option<InitrdConfig>) -> u64 {
    match initrd {
        Some(config) => config.size as u64,
        None => 0,
    }
}

/// The zero page: all zero but for the boot flag, the header magic, the
/// loader type, the kernel alignment, the address and the size of the initial
/// ramdisk, the address and the length of the command line, and the memory
/// map with its number of entries.
pub open spec fn linux_boot_params_of(
    boot: BootLayout,
    regions: Seq<MemoryRegion>,
    cmdline_size: u32,
    initrd: Option<InitrdConfig>,
) -> Seq<u8> {
    let ramdisk = initrd_address_or_zero(initrd);
    let ramdisk_size = initrd_size_or_zero(initrd);
    let b0 = zeros(BOOT_PARAMS_BLOCK_SIZE as nat);
    let b1 = put(b0, ZP_BOOT_FLAG as int, le_bytes16(KERNEL_BOOT_FLAG_MAGIC));
    let b2 = put(b1, ZP_HEADER as int, le_bytes(KERNEL_HDR_MAGIC));
    let b3 = put(b2, ZP_TYPE_OF_LOADER as int, seq![KERNEL_LOADER_OTHER]);
    let b4 = put(b3, ZP_KERNEL_ALIGNMENT as int, le_bytes(KERNEL_MIN_ALIGNMENT_BYTES));
    let b5 = put(b4, ZP_CMD_LINE_PTR as int, le_bytes(low32(boot.cmdline_start)));
    let b6 = put(b5, ZP_EXT_CMD_LINE_PTR as int, le_bytes(high32(boot.cmdline_start)));
    let b7 = put(b6, ZP_CMDLINE_SIZE as int, le_bytes(cmdline_size));
    let b8 = put(b7, ZP_RAMDISK_IMAGE as int, le_bytes(low32(ramdisk)));
    let b9 = put(b8, ZP_EXT_RAMDISK_IMAGE as int, le_bytes(high32(ramdisk)));
    let b10 = put(b9, ZP_RAMDISK_SIZE as int, le_bytes(low32(ramdisk_size)));
    let b11 = put(b10, ZP_EXT_RAMDISK_SIZE as int, le_bytes(high32(ramdisk_size)));
    let b12 = put(b11, ZP_E820_ENTRIES as int, seq![regions.len() as u8]);
    put_regions(b12, regions, ZP_E820_TABLE as int, E820_ENTRY_SIZE as int)
}

/// The start info block: all zero but for the magic, the version, the address
/// of the command line, the memory map with its address and its number of
/// entries, and, if there is an initial ramdisk, the module list of one
/// entry, with its address and the count 1.
pub open spec fn pvh_start_info_of(
    boot: BootLayout,
    regions: Seq<MemoryRegion>,
    initrd: Option<InitrdConfig>,
) -> Seq<u8> {
    let b0 = zeros(BOOT_PARAMS_BLOCK_SIZE as nat);
    let b1 = put(b0, PVH_MAGIC as int, le_bytes(PVH_START_MAGIC));
    let b2 = put(b1, PVH_VERSION as int, le_bytes(PVH_START_VERSION));
    let b3 = put(b2, PVH_CMDLINE_PADDR as int, le_bytes64(boot.cmdline_start));
    let b4 = put(
        b3,
        PVH_MEMMAP_PADDR as int,
        le_bytes64((boot.boot_params_start + PVH_MEMMAP) as u64),
    );
    let b5 = put(b4, PVH_MEMMAP_ENTRIES as int, le_bytes(regions.len() as u32));
    let b6 = match initrd {
        Some(config) => {
            let m0 = put(b5, PVH_NR_MODULES as int, le_bytes(1));
            let m1 = put(
                m0,
                PVH_MODLIST_PADDR as int,
                le_bytes64((boot.boot_params_start + PVH_MODLIST) as u64),
            );
            let m2 = put(m1, PVH_MODLIST as int, le_bytes64(config.address.0));
            put(m2, PVH_MODLIST + 8, le_bytes64(config.size as u64))
        },
        None => b5,
    };
    put_regions(b6, regions, PVH_MEMMAP as int, PVH_MEMMAP_ENTRY_SIZE as int)
}

/// Writes one memory map entry for each region.
fn store_regions(block: &mut Vec<u8>, regions: &Vec<MemoryRegion>, at: usize, stride: usize)
    requires
        old(block)@.len() == BOOT_PARAMS_BLOCK_SIZE,
        regions@.len() <= MAX_REGION_ENTRIES,
        20 <= stride <= 24,
        at <= 0x2d0,
    ensures
        final(block)@ == put_regions(old(block)@, regions@, at as int, stride as int),
{
    let mut i: usize = 0;
    let mut entry: usize = at;
    assert(regions@.subrange(0, 0) =~= Seq::<MemoryRegion>::empty());
    while i < regions.len()
        invariant
            i <= regions@.len() <= MAX_REGION_ENTRIES,
            20 <= stride <= 24,
            at <= 0x2d0,
            entry == at + i * stride,
            block@.len() == BOOT_PARAMS_BLOCK_SIZE,
            block@ == put_regions(old(block)@, regions@.subrange(0, i as int), at as int, stride as int),
        decreases regions@.len() - i,
    {
        assert(i * stride + stride == (i + 1) * stride && i * stride <= 127 * 24) by (nonlinear_arith)
            requires
                i < 128,
                stride <= 24,
        ;
        let region = regions[i];
        let ghost shorter = regions@.subrange(0, i as int);
        let ghost longer = regions@.subrange(0, i + 1);
        assert(longer.drop_last() =~= shorter);
        assert(longer.last() == region);
        store_u64(block, entry, region.start.raw_value());
        store_u64(block, entry + 8, region.size);
        store_u32(block, entry + 16, MEMORY_TYPE_RAM);
        entry = entry + stride;
        i += 1;
    }
    assert(regions@.subrange(0, i as int) =~= regions@);
}

/// Builds the zero page of the Linux boot protocol. `cmdline_size` is the
/// length of the command line with the zero byte that ends it.
pub fn linux_boot_params(
    boot: &BootLayout,
    regions: &Vec<MemoryRegion>,
    cmdline_size: u32,
    initrd: Option<InitrdConfig>,
) -> (block: Vec<u8>)
    requires
        regions@.len() <= MAX_REGION_ENTRIES,
    ensures
        block@ == linux_boot_params_of(*boot, regions@, cmdline_size, initrd),
{
    let (ramdisk, ramdisk_size): (u64, u64) = match initrd {
        Some(config) => (config.address.raw_value(), config.size as u64),
        None => (0, 0),
    };
    let mut block = zero_block(BOOT_PARAMS_BLOCK_SIZE);
    store_u16(&mut block, ZP_BOOT_FLAG, KERNEL_BOOT_FLAG_MAGIC);
    store_u32(&mut block, ZP_HEADER, KERNEL_HDR_MAGIC);
    store_u8(&mut block, ZP_TYPE_OF_LOADER, KERNEL_LOADER_OTHER);
    store_u32(&mut block, ZP_KERNEL_ALIGNMENT, KERNEL_MIN_ALIGNMENT_BYTES);
    store_u32(&mut block, ZP_CMD_LINE_PTR, (boot.cmdline_start % 0x1_0000_0000) as u32);
    store_u32(&mut block, ZP_EXT_CMD_LINE_PTR, (boot.cmdline_start / 0x1_0000_0000) as u32);
    store_u32(&mut block, ZP_CMDLINE_SIZE, cmdline_size);
    store_u32(&mut block, ZP_RAMDISK_IMAGE, (ramdisk % 0x1_0000_0000) as u32);
    store_u32(&mut block, ZP_EXT_RAMDISK_IMAGE, (ramdisk / 0x1_0000_0000) as u32);
    store_u32(&mut block, ZP_RAMDISK_SIZE, (ramdisk_size % 0x1_0000_0000) as u32);
    store_u32(&mut block, ZP_EXT_RAMDISK_SIZE, (ramdisk_size / 0x1_0000_0000) as u32);
    store_u8(&mut block, ZP_E820_ENTRIES, regions.len() as u8);
    store_regions(&mut block, regions, ZP_E820_TABLE, E820_ENTRY_SIZE);
    block
}

/// Builds the start info block of the PVH protocol.
pub fn pvh_start_info(
    boot: &BootLayout,
    regions: &Vec<MemoryRegion>,
    initrd: Option<InitrdConfig>,
) -> (block: Vec<u8>)
    requires
        boot.wf(),
        regions@.len() <= MAX_REGION_ENTRIES,
    ensures
        block@ == pvh_start_info_of(*boot, regions@, initrd),
{
    let mut block = zero_block(BOOT_PARAMS_BLOCK_SIZE);
    store_u32(&mut block, PVH_MAGIC, PVH_START_MAGIC);
    store_u32(&mut block, PVH_VERSION, PVH_START_VERSION);
    store_u64(&mut block, PVH_CMDLINE_PADDR, boot.cmdline_start);
    store_u64(&mut block, PVH_MEMMAP_PADDR, boot.boot_params_start + PVH_MEMMAP as u64);
    store_u32(&mut block, PVH_MEMMAP_ENTRIES, regions.len() as u32);
    match initrd {
        Some(config) => {
            store_u32(&mut block, PVH_NR_MODULES, 1);
            store_u64(&mut block, PVH_MODLIST_PADDR, boot.boot_params_start + PVH_MODLIST as u64);
            store_u64(&mut block, PVH_MODLIST, config.address.raw_value());
            store_u64(&mut block, PVH_MODLIST + 8, config.size as u64);
        },
        None => {},
    }
    store_regions(&mut block, regions, PVH_MEMMAP, PVH_MEMMAP_ENTRY_SIZE);
    block
}

/// Writing the memory map leaves the length of the block as it is.
pub proof fn lemma_put_regions_len(
    block: Seq<u8>,
    regions: Seq<MemoryRegion>,
    at: int,
    stride: int,
)
    ensures
        put_regions(block, regions, at, stride).len() == block.len(),
    decreases regions.len(),
{
    if regions.len() > 0 {
        lemma_put_regions_len(block, regions.drop_last(), at, stride);
    }
}

/// Both blocks are one page long.
#[verifier::rlimit(40)]
pub proof fn lemma_block_len(
    boot: BootLayout,
    regions: Seq<MemoryRegion>,
    cmdline_size: u32,
    initrd: Option<InitrdConfig>,
)
    ensures
        linux_boot_params_of(boot, regions, cmdline_size, initrd).len() == BOOT_PARAMS_BLOCK_SIZE,
        pvh_start_info_of(boot, regions, initrd).len() == BOOT_PARAMS_BLOCK_SIZE,
{
    let ramdisk = initrd_address_or_zero(initrd);
    let ramdisk_size = initrd_size_or_zero(initrd);
    let b0 = zeros(BOOT_PARAMS_BLOCK_SIZE as nat);
    let b1 = put(b0, ZP_BOOT_FLAG as int, le_bytes16(KERNEL_BOOT_FLAG_MAGIC));
    let b2 = put(b1, ZP_HEADER as int, le_bytes(KERNEL_HDR_MAGIC));
    let b3 = put(b2, ZP_TYPE_OF_LOADER as int, seq![KERNEL_LOADER_OTHER]);
    let b4 = put(b3, ZP_KERNEL_ALIGNMENT as int, le_bytes(KERNEL_MIN_ALIGNMENT_BYTES));
    let b5 = put(b4, ZP_CMD_LINE_PTR as int, le_bytes(low32(boot.cmdline_start)));
    let b6 = put(b5, ZP_EXT_CMD_LINE_PTR as int, le_bytes(high32(boot.cmdline_start)));
    let b7 = put(b6, ZP_CMDLINE_SIZE as int, le_bytes(cmdline_size));
    let b8 = put(b7, ZP_RAMDISK_IMAGE as int, le_bytes(low32(ramdisk)));
    let b9 = put(b8, ZP_EXT_RAMDISK_IMAGE as int, le_bytes(high32(ramdisk)));
    let b10 = put(b9, ZP_RAMDISK_SIZE as int, le_bytes(low32(ramdisk_size)));
    let b11 = put(b10, ZP_EXT_RAMDISK_SIZE as int, le_bytes(high32(ramdisk_size)));
    let b12 = put(b11, ZP_E820_ENTRIES as int, seq![regions.len() as u8]);
    lemma_put_regions_len(b12, regions, ZP_E820_TABLE as int, E820_ENTRY_SIZE as int);
    let info1 = put(b0, PVH_MAGIC as int, le_bytes(PVH_START_MAGIC));
    let info2 = put(info1, PVH_VERSION as int, le_bytes(PVH_START_VERSION));
    let info3 = put(info2, PVH_CMDLINE_PADDR as int, le_bytes64(boot.cmdline_start));
    let info4 = put(
        info3,
        PVH_MEMMAP_PADDR as int,
        le_bytes64((boot.boot_params_start + PVH_MEMMAP) as u64),
    );
    let info5 = put(info4, PVH_MEMMAP_ENTRIES as int, le_bytes(regions.len() as u32));
    let info6 = match initrd {
        Some(config) => {
            let m0 = put(info5, PVH_NR_MODULES as int, le_bytes(1));
            let m1 = put(
                m0,
                PVH_MODLIST_PADDR as int,
                le_bytes64((boot.boot_params_start + PVH_MODLIST) as u64),
            );
            let m2 = put(m1, PVH_MODLIST as int, le_bytes64(config.address.0));
            put(m2, PVH_MODLIST + 8, le_bytes64(config.size as u64))
        },
        None => info5,
    };
    lemma_put_regions_len(info6, regions, PVH_MEMMAP as int, PVH_MEMMAP_ENTRY_SIZE as int);
}

/// The `len` bytes of the block from offset `at`.
pub open spec fn field(block: Seq<u8>, at: int, len: int) -> Seq<u8> {
    block.subrange(at, at + len)
}

/// The i-th memory map entry, at offset `entry`, holds the i-th region.
pub open spec fn entry_holds(block: Seq<u8>, entry: int, region: MemoryRegion) -> bool {
    &&& field(block, entry, 8) == le_bytes64(region.start.0)
    &&& field(block, entry + 8, 8) == le_bytes64(region.size)
    &&& field(block, entry + 16, 4) == le_bytes(MEMORY_TYPE_RAM)
}

/// Writing the memory map leaves the bytes before it as they are.
pub proof fn lemma_put_regions_keeps(
    block: Seq<u8>,
    regions: Seq<MemoryRegion>,
    at: int,
    stride: int,
    i: int,
)
    requires
        0 <= i < at,
        0 <= stride,
        i < block.len(),
    ensures
        put_regions(block, regions, at, stride)[i] == block[i],
    decreases regions.len(),
{
    lemma_put_regions_len(block, regions, at, stride);
    if regions.len() > 0 {
        lemma_put_regions_len(block, regions.drop_last(), at, stride);
        lemma_put_regions_keeps(block, regions.drop_last(), at, stride, i);
        assert(0 <= (regions.len() - 1) * stride) by (nonlinear_arith)
            requires
                regions.len() >= 1,
                stride >= 0,
        ;
    }
}

/// An entry of three fields, written at `entry`, reads back field by field.
proof fn lemma_entry_reads_back(
    before: Seq<u8>,
    entry: int,
    first: Seq<u8>,
    second: Seq<u8>,
    third: Seq<u8>,
)
    requires
        first.len() == 8,
        second.len() == 8,
        third.len() == 4,
        0 <= entry,
        entry + 20 <= before.len(),
    ensures
        ({
            let after = put(put(put(before, entry, first), entry + 8, second), entry + 16, third);
            &&& field(after, entry, 8) == first
            &&& field(after, entry + 8, 8) == second
            &&& field(after, entry + 16, 4) == third
        }),
{
    let after = put(put(put(before, entry, first), entry + 8, second), entry + 16, third);
    assert(field(after, entry, 8) =~= first);
    assert(field(after, entry + 8, 8) =~= second);
    assert(field(after, entry + 16, 4) =~= third);
}

/// An entry written at `entry` leaves every field that ends at or below
/// `entry` as it is.
proof fn lemma_entry_keeps(
    before: Seq<u8>,
    entry: int,
    first: Seq<u8>,
    second: Seq<u8>,
    third: Seq<u8>,
    at: int,
    len: int,
)
    requires
        0 <= at,
        0 <= len,
        at + len <= entry,
        entry <= before.len(),
    ensures
        field(
            put(put(put(before, entry, first), entry + 8, second), entry + 16, third),
            at,
            len,
        ) == field(before, at, len),
{
    let after = put(put(put(before, entry, first), entry + 8, second), entry + 16, third);
    assert(field(after, at, len) =~= field(before, at, len));
}

/// Every entry of the memory map reads back as the region it was written for:
/// no entry is written over by another.
pub proof fn lemma_put_regions_reads_back(
    block: Seq<u8>,
    regions: Seq<MemoryRegion>,
    at: int,
    stride: int,
    i: int,
)
    requires
        0 <= at,
        20 <= stride,
        at + regions.len() * stride <= block.len(),
        0 <= i < regions.len(),
    ensures
        entry_holds(put_regions(block, regions, at, stride), at + i * stride, regions[i]),
    decreases regions.len(),
{
    let shorter = regions.drop_last();
    let last = regions.len() - 1;
    let before = put_regions(block, shorter, at, stride);
    let entry = at + last * stride;
    let first = le_bytes64(regions.last().start.0);
    let second = le_bytes64(regions.last().size);
    let third = le_bytes(MEMORY_TYPE_RAM);
    lemma_put_regions_len(block, shorter, at, stride);
    assert(0 <= i * stride && last * stride + stride == regions.len() * stride && (i < last ==> i
        * stride + stride <= last * stride)) by (nonlinear_arith)
        requires
            0 <= i <= last,
            last + 1 == regions.len(),
            stride >= 20,
    ;
    assert(first.len() == 8 && second.len() == 8 && third.len() == 4);
    if i == last {
        lemma_entry_reads_back(before, entry, first, second, third);
    } else {
        assert(shorter.len() * stride == last * stride);
        lemma_put_regions_reads_back(block, shorter, at, stride, i);
        assert(shorter[i] == regions[i]);
        let here = at + i * stride;
        lemma_entry_keeps(before, entry, first, second, third, here, 8);
        lemma_entry_keeps(before, entry, first, second, third, here + 8, 8);
        lemma_entry_keeps(before, entry, first, second, third, here + 16, 4);
    }
}

/// Every field of the zero page reads back as it was written: no field is
/// written over by another, and the i-th entry of the memory map holds the
/// i-th region.
#[verifier::rlimit(40)]
pub proof fn lemma_zero_page_reads_back(
    boot: BootLayout,
    regions: Seq<MemoryRegion>,
    cmdline_size: u32,
    initrd: Option<InitrdConfig>,
)
    requires
        regions.len() <= MAX_REGION_ENTRIES,
    ensures
        ({
            let block = linux_boot_params_of(boot, regions, cmdline_size, initrd);
            &&& block.len() == BOOT_PARAMS_BLOCK_SIZE
            &&& field(block, ZP_BOOT_FLAG as int, 2) == le_bytes16(KERNEL_BOOT_FLAG_MAGIC)
            &&& field(block, ZP_HEADER as int, 4) == le_bytes(KERNEL_HDR_MAGIC)
            &&& block[ZP_TYPE_OF_LOADER as int] == KERNEL_LOADER_OTHER
            &&& field(block, ZP_KERNEL_ALIGNMENT as int, 4) == le_bytes(KERNEL_MIN_ALIGNMENT_BYTES)
            &&& field(block, ZP_CMD_LINE_PTR as int, 4) == le_bytes(low32(boot.cmdline_start))
            &&& field(block, ZP_EXT_CMD_LINE_PTR as int, 4) == le_bytes(high32(boot.cmdline_start))
            &&& field(block, ZP_CMDLINE_SIZE as int, 4) == le_bytes(cmdline_size)
            &&& field(block, ZP_RAMDISK_IMAGE as int, 4) == le_bytes(
                low32(initrd_address_or_zero(initrd)),
            )
            &&& field(block, ZP_EXT_RAMDISK_IMAGE as int, 4) == le_bytes(
                high32(initrd_address_or_zero(initrd)),
            )
            &&& field(block, ZP_RAMDISK_SIZE as int, 4) == le_bytes(
                low32(initrd_size_or_zero(initrd)),
            )
            &&& field(block, ZP_EXT_RAMDISK_SIZE as int, 4) == le_bytes(
                high32(initrd_size_or_zero(initrd)),
            )
            &&& block[ZP_E820_ENTRIES as int] == regions.len()
            &&& forall|i: int|
                0 <= i < regions.len() ==> entry_holds(
                    block,
                    ZP_E820_TABLE + i * E820_ENTRY_SIZE,
                    #[trigger] regions[i],
                )
        }),
{
    let ramdisk = initrd_address_or_zero(initrd);
    let ramdisk_size = initrd_size_or_zero(initrd);
    let b0 = zeros(BOOT_PARAMS_BLOCK_SIZE as nat);
    let b1 = put(b0, ZP_BOOT_FLAG as int, le_bytes16(KERNEL_BOOT_FLAG_MAGIC));
    let b2 = put(b1, ZP_HEADER as int, le_bytes(KERNEL_HDR_MAGIC));
    let b3 = put(b2, ZP_TYPE_OF_LOADER as int, seq![KERNEL_LOADER_OTHER]);
    let b4 = put(b3, ZP_KERNEL_ALIGNMENT as int, le_bytes(KERNEL_MIN_ALIGNMENT_BYTES));
    let b5 = put(b4, ZP_CMD_LINE_PTR as int, le_bytes(low32(boot.cmdline_start)));
    let b6 = put(b5, ZP_EXT_CMD_LINE_PTR as int, le_bytes(high32(boot.cmdline_start)));
    let b7 = put(b6, ZP_CMDLINE_SIZE as int, le_bytes(cmdline_size));
    let b8 = put(b7, ZP_RAMDISK_IMAGE as int, le_bytes(low32(ramdisk)));
    let b9 = put(b8, ZP_EXT_RAMDISK_IMAGE as int, le_bytes(high32(ramdisk)));
    let b10 = put(b9, ZP_RAMDISK_SIZE as int, le_bytes(low32(ramdisk_size)));
    let b11 = put(b10, ZP_EXT_RAMDISK_SIZE as int, le_bytes(high32(ramdisk_size)));
    let header = put(b11, ZP_E820_ENTRIES as int, seq![regions.len() as u8]);
    let at = ZP_E820_TABLE as int;
    let stride = E820_ENTRY_SIZE as int;
    let block = put_regions(header, regions, at, stride);
    lemma_put_regions_len(header, regions, at, stride);
    assert forall|i: int| 0 <= i < at implies block[i] == header[i] by {
        lemma_put_regions_keeps(header, regions, at, stride, i);
    }
    assert(field(block, ZP_BOOT_FLAG as int, 2) =~= le_bytes16(KERNEL_BOOT_FLAG_MAGIC));
    assert(field(block, ZP_HEADER as int, 4) =~= le_bytes(KERNEL_HDR_MAGIC));
    assert(field(block, ZP_KERNEL_ALIGNMENT as int, 4) =~= le_bytes(KERNEL_MIN_ALIGNMENT_BYTES));
    assert(field(block, ZP_CMD_LINE_PTR as int, 4) =~= le_bytes(low32(boot.cmdline_start)));
    assert(field(block, ZP_EXT_CMD_LINE_PTR as int, 4) =~= le_bytes(high32(boot.cmdline_start)));
    assert(field(block, ZP_CMDLINE_SIZE as int, 4) =~= le_bytes(cmdline_size));
    assert(field(block, ZP_RAMDISK_IMAGE as int, 4) =~= le_bytes(low32(ramdisk)));
    assert(field(block, ZP_EXT_RAMDISK_IMAGE as int, 4) =~= le_bytes(high32(ramdisk)));
    assert(field(block, ZP_RAMDISK_SIZE as int, 4) =~= le_bytes(low32(ramdisk_size)));
    assert(field(block, ZP_EXT_RAMDISK_SIZE as int, 4) =~= le_bytes(high32(ramdisk_size)));
    assert forall|i: int| 0 <= i < regions.len() implies entry_holds(
        block,
        ZP_E820_TABLE + i * E820_ENTRY_SIZE,
        #[trigger] regions[i],
    ) by {
        assert(at + regions.len() * stride <= header.len());
        lemma_put_regions_reads_back(header, regions, at, stride, i);
    }
}

/// Every field of the start info block reads back as it was written: no field
/// is written over by another, and the i-th entry of the memory map holds the
/// i-th region.
#[verifier::rlimit(40)]
pub proof fn lemma_start_info_reads_back(
    boot: BootLayout,
    regions: Seq<MemoryRegion>,
    initrd: Option<InitrdConfig>,
)
    requires
        regions.len() <= MAX_REGION_ENTRIES,
    ensures
        ({
            let block = pvh_start_info_of(boot, regions, initrd);
            &&& block.len() == BOOT_PARAMS_BLOCK_SIZE
            &&& field(block, PVH_MAGIC as int, 4) == le_bytes(PVH_START_MAGIC)
            &&& field(block, PVH_VERSION as int, 4) == le_bytes(PVH_START_VERSION)
            &&& field(block, PVH_CMDLINE_PADDR as int, 8) == le_bytes64(boot.cmdline_start)
            &&& field(block, PVH_MEMMAP_PADDR as int, 8) == le_bytes64(
                (boot.boot_params_start + PVH_MEMMAP) as u64,
            )
            &&& field(block, PVH_MEMMAP_ENTRIES as int, 4) == le_bytes(regions.len() as u32)
            &&& match initrd {
                Some(config) => {
                    &&& field(block, PVH_NR_MODULES as int, 4) == le_bytes(1)
                    &&& field(block, PVH_MODLIST_PADDR as int, 8) == le_bytes64(
                        (boot.boot_params_start + PVH_MODLIST) as u64,
                    )
                    &&& field(block, PVH_MODLIST as int, 8) == le_bytes64(config.address.0)
                    &&& field(block, PVH_MODLIST + 8, 8) == le_bytes64(config.size as u64)
                },
                None => {
                    &&& field(block, PVH_NR_MODULES as int, 4) == le_bytes(0)
                    &&& field(block, PVH_MODLIST_PADDR as int, 8) == le_bytes64(0)
                },
            }
            &&& forall|i: int|
                0 <= i < regions.len() ==> entry_holds(
                    block,
                    PVH_MEMMAP + i * PVH_MEMMAP_ENTRY_SIZE,
                    #[trigger] regions[i],
                )
        }),
{
    let b0 = zeros(BOOT_PARAMS_BLOCK_SIZE as nat);
    let b1 = put(b0, PVH_MAGIC as int, le_bytes(PVH_START_MAGIC));
    let b2 = put(b1, PVH_VERSION as int, le_bytes(PVH_START_VERSION));
    let b3 = put(b2, PVH_CMDLINE_PADDR as int, le_bytes64(boot.cmdline_start));
    let b4 = put(
        b3,
        PVH_MEMMAP_PADDR as int,
        le_bytes64((boot.boot_params_start + PVH_MEMMAP) as u64),
    );
    let b5 = put(b4, PVH_MEMMAP_ENTRIES as int, le_bytes(regions.len() as u32));
    let header = match initrd {
        Some(config) => {
            let m0 = put(b5, PVH_NR_MODULES as int, le_bytes(1));
            let m1 = put(
                m0,
                PVH_MODLIST_PADDR as int,
                le_bytes64((boot.boot_params_start + PVH_MODLIST) as u64),
            );
            let m2 = put(m1, PVH_MODLIST as int, le_bytes64(config.address.0));
            put(m2, PVH_MODLIST + 8, le_bytes64(config.size as u64))
        },
        None => b5,
    };
    let at = PVH_MEMMAP as int;
    let stride = PVH_MEMMAP_ENTRY_SIZE as int;
    let block = put_regions(header, regions, at, stride);
    lemma_put_regions_len(header, regions, at, stride);
    assert forall|i: int| 0 <= i < at implies block[i] == header[i] by {
        lemma_put_regions_keeps(header, regions, at, stride, i);
    }
    assert(le_bytes64(boot.cmdline_start).len() == 8);
    assert(field(block, PVH_MAGIC as int, 4) =~= le_bytes(PVH_START_MAGIC));
    assert(field(block, PVH_VERSION as int, 4) =~= le_bytes(PVH_START_VERSION));
    assert(field(block, PVH_CMDLINE_PADDR as int, 8) =~= le_bytes64(boot.cmdline_start));
    assert(field(block, PVH_MEMMAP_PADDR as int, 8) =~= le_bytes64(
        (boot.boot_params_start + PVH_MEMMAP) as u64,
    ));
    assert(field(block, PVH_MEMMAP_ENTRIES as int, 4) =~= le_bytes(regions.len() as u32));
    match initrd {
        Some(config) => {
            assert(field(block, PVH_NR_MODULES as int, 4) =~= le_bytes(1));
            assert(field(block, PVH_MODLIST_PADDR as int, 8) =~= le_bytes64(
                (boot.boot_params_start + PVH_MODLIST) as u64,
            ));
            assert(field(block, PVH_MODLIST as int, 8) =~= le_bytes64(config.address.0));
            assert(field(block, PVH_MODLIST + 8, 8) =~= le_bytes64(config.size as u64));
        },
        None => {
            assert(field(block, PVH_NR_MODULES as int, 4) =~= le_bytes(0));
            assert(field(block, PVH_MODLIST_PADDR as int, 8) =~= le_bytes64(0));
        },
    }
    assert forall|i: int| 0 <= i < regions.len() implies entry_holds(
        block,
        PVH_MEMMAP + i * PVH_MEMMAP_ENTRY_SIZE,
        #[trigger] regions[i],
    ) by {
        assert(at + regions.len() * stride <= header.len());
        lemma_put_regions_reads_back(header, regions, at, stride, i);
    }
}

} // verus!
