//! The layout of an architecture: where guest memory, the boot structures and
//! the device resources lie. A layout is made once and only read afterwards.
use vstd::prelude::*;

verus! {

/// Where guest memory may lie in the guest-physical address space.
#[derive(Clone, Copy, Debug, PartialEq, Eq, Structural)]
pub struct MemoryMap {
    /// The unit of memory sizes, in bytes.
    pub page_size: u64,
    /// The address at which guest memory starts.
    pub ram_start: u64,
    /// The first address of the reserved hole.
    pub hole_start: u64,
    /// The length of the reserved hole in bytes; zero if the architecture has
    /// none.
    pub hole_size: u64,
    /// The largest amount of guest memory that can be addressed.
    pub max_size: u64,
}

impl MemoryMap {
    /// The architecture reserves a range of addresses inside guest memory.
    pub open spec fn has_hole(&self) -> bool {
        self.hole_size > 0
    }

    /// The first address past the reserved hole.
    pub open spec fn hole_end(&self) -> int {
        self.hole_start + self.hole_size
    }

    /// Memory starts below the hole, and the largest memory, laid round the
    /// hole, still ends inside the 64-bit address space.
    pub open spec fn wf(&self) -> bool {
        &&& self.page_size > 0
        &&& self.has_hole() ==> self.ram_start < self.hole_start
        &&& self.hole_start + self.hole_size <= u64::MAX
        &&& self.ram_start + self.max_size + self.hole_size <= u64::MAX
    }

    /// Tells whether the map is well formed.
    pub fn is_valid(&self) -> (ok: bool)
        ensures
            ok == self.wf(),
    {
        self.page_size > 0 && (self.hole_size == 0 || self.ram_start < self.hole_start)
            && self.hole_size <= u64::MAX - self.hole_start && self.max_size <= u64::MAX
            - self.ram_start && self.hole_size <= u64::MAX - self.ram_start - self.max_size
    }
}

/// Where the initial ramdisk goes.
#[derive(Clone, Copy, Debug, PartialEq, Eq, Structural)]
pub enum InitrdPolicy {
    /// Right after the kernel image, rounded up to the alignment.
    AfterKernel,
    /// At the top of the highest region, rounded down to the alignment.
    TopOfMemory,
}

/// The first address of the MMIO range of the x86_64 platform.
pub const MMIO_MEM_START: u64 = 0xE000_0000;

/// The length of the MMIO range of the x86_64 platform.
pub const MMIO_MEM_SIZE: u64 = 0x1000_0000;

/// The lowest interrupt line that devices of the x86_64 platform get.
pub const IRQ_BASE: u32 = 5;

/// The highest interrupt line that devices of the x86_64 platform get.
pub const IRQ_MAX: u32 = 23;

/// The longest command line of the x86_64 platform, in bytes.
pub const CMDLINE_MAX_SIZE: usize = 0x1_0000;

/// The room that the global descriptor table takes: four entries.
pub const GDT_SIZE: u64 = 32;

/// The room that the interrupt descriptor table takes: one entry.
pub const IDT_SIZE: u64 = 8;

/// The room that the page tables take: three tables of one page each.
pub const PAGE_TABLES_SIZE: u64 = 0x3000;

/// The least room that a boot-parameter block needs.
pub const BOOT_PARAMS_MIN_SIZE: u64 = 0x1000;

/// Where the boot structures lie. From low to high addresses: the
/// descriptor tables, the boot-parameter block, the boot stack, the page
/// tables, the command line, the kernel image.
#[derive(Clone, Copy, Debug, PartialEq, Eq, Structural)]
pub struct BootLayout {
    /// The address of the global descriptor table.
    pub gdt_start: u64,
    /// The address of the interrupt descriptor table.
    pub idt_start: u64,
    /// The address of the boot-parameter block.
    pub boot_params_start: u64,
    /// The room kept for the boot-parameter block, in bytes.
    pub boot_params_size: u64,
    /// The address at which the command line is written.
    pub cmdline_start: u64,
    /// The longest command line that is accepted, in bytes.
    pub cmdline_max_size: usize,
    /// The address at which the kernel image is loaded.
    pub kernel_start: u64,
    /// Where the initial ramdisk goes.
    pub initrd_policy: InitrdPolicy,
    /// The alignment of the initial ramdisk's address, in bytes.
    pub initrd_align: u64,
    /// The initial stack pointer under the Linux boot protocol.
    pub boot_stack_pointer: u64,
    /// The address of the first of the three page tables.
    pub page_tables_start: u64,
}

impl BootLayout {
    /// The first address past the room of the boot-parameter block.
    pub open spec fn boot_params_end(&self) -> int {
        self.boot_params_start + self.boot_params_size
    }

    /// The first address past the room of the command line, which holds the
    /// longest command line and the zero byte that ends it.
    pub open spec fn cmdline_end(&self) -> int {
        self.cmdline_start + self.cmdline_max_size + 1
    }

    /// The structures follow each other without sharing an address, the
    /// boot-parameter block has the room it needs, the page tables start on a
    /// page boundary, the length of a command line fits in 32 bits, and the
    /// alignment is positive.
    pub open spec fn wf(&self) -> bool {
        &&& self.initrd_align > 0
        &&& self.gdt_start + GDT_SIZE <= self.idt_start
        &&& self.idt_start + IDT_SIZE <= self.boot_params_start
        &&& self.boot_params_size >= BOOT_PARAMS_MIN_SIZE
        &&& self.boot_params_end() <= self.boot_stack_pointer
        &&& self.boot_stack_pointer <= self.page_tables_start
        &&& self.page_tables_start % 0x1000 == 0
        &&& self.page_tables_start + PAGE_TABLES_SIZE <= self.cmdline_start
        &&& self.cmdline_max_size < u32::MAX
        &&& self.cmdline_end() <= self.kernel_start
    }

    /// Tells whether the boot layout is well formed.
    pub fn is_valid(&self) -> (ok: bool)
        ensures
            ok == self.wf(),
    {
        self.initrd_align > 0 && self.gdt_start <= self.idt_start && GDT_SIZE <= self.idt_start
            - self.gdt_start && self.idt_start <= self.boot_params_start && IDT_SIZE
            <= self.boot_params_start - self.idt_start && self.boot_params_size
            >= BOOT_PARAMS_MIN_SIZE && self.boot_params_start <= self.boot_stack_pointer
            && self.boot_params_size <= self.boot_stack_pointer - self.boot_params_start
            && self.boot_stack_pointer <= self.page_tables_start && self.page_tables_start
            % 0x1000 == 0 && self.page_tables_start <= self.cmdline_start && PAGE_TABLES_SIZE
            <= self.cmdline_start - self.page_tables_start && self.cmdline_start
            <= self.kernel_start && self.cmdline_max_size < 0xffff_ffff
            && (self.cmdline_max_size as u64) < self.kernel_start
            - self.cmdline_start
    }
}

/// The address range and the interrupt lines that devices draw from.
#[derive(Clone, Debug)]
pub struct DevicePool {
    /// The first address of the MMIO range.
    pub mmio_mem_start: u64,
    /// The length of the MMIO range in bytes.
    pub mmio_mem_size: u64,
    /// The length of the window that each device gets, in bytes.
    pub mmio_slot_size: u64,
    /// The lowest interrupt line of the pool.
    pub irq_base: u32,
    /// The highest interrupt line of the pool.
    pub irq_max: u32,
    /// Lines that the platform keeps for itself and never hands to a device.
    pub reserved_irqs: Vec<u32>,
}

impl DevicePool {
    /// The first address past the MMIO range.
    pub open spec fn mmio_mem_end(&self) -> int {
        self.mmio_mem_start + self.mmio_mem_size
    }

    /// The line belongs to the pool and the platform does not keep it.
    pub open spec fn is_free(&self, line: int) -> bool {
        self.irq_base <= line <= self.irq_max && !self.reserved_irqs@.contains(line as u32)
    }

    /// Windows have a length, the MMIO range ends inside the address space,
    /// and the interrupt pool has a lowest and a highest line.
    pub open spec fn wf(&self) -> bool {
        &&& self.mmio_slot_size > 0
        &&& self.mmio_mem_end() <= u64::MAX
        &&& self.irq_base <= self.irq_max
    }

    /// Tells whether the pool is well formed.
    pub fn is_valid(&self) -> (ok: bool)
        ensures
            ok == self.wf(),
    {
        self.mmio_slot_size > 0 && self.mmio_mem_size <= u64::MAX - self.mmio_mem_start
            && self.irq_base <= self.irq_max
    }

    /// Tells whether the platform keeps the line for itself.
    pub fn is_reserved(&self, line: u32) -> (reserved: bool)
        ensures
            reserved == self.reserved_irqs@.contains(line),
    {
        let mut i: usize = 0;
        while i < self.reserved_irqs.len()
            invariant
                i <= self.reserved_irqs@.len(),
                forall|j: int| 0 <= j < i ==> self.reserved_irqs@[j] != line,
            decreases self.reserved_irqs@.len() - i,
        {
            if self.reserved_irqs[i] == line {
                return true;
            }
            i += 1;
        }
        false
    }
}

/// The layout of one architecture.
#[derive(Clone, Debug)]
pub struct Layout {
    /// Where guest memory may lie.
    pub memory: MemoryMap,
    /// Where the boot structures lie.
    pub boot: BootLayout,
    /// What devices draw from.
    pub devices: DevicePool,
}

/// The boot structures lie in guest memory: memory starts at or below the
/// lowest of them, and a reserved hole lies above the kernel's load address.
pub open spec fn boot_in_memory(memory: MemoryMap, boot: BootLayout) -> bool {
    &&& memory.wf()
    &&& boot.wf()
    &&& memory.ram_start <= boot.gdt_start
    &&& memory.has_hole() ==> boot.kernel_start < memory.hole_start
}

impl Layout {
    /// The parts are well formed, the boot structures lie in guest memory,
    /// and the MMIO range lies inside the reserved hole or below guest
    /// memory.
    pub open spec fn wf(&self) -> bool {
        &&& boot_in_memory(self.memory, self.boot)
        &&& self.devices.wf()
        &&& {
            ||| self.devices.mmio_mem_end() <= self.memory.ram_start
            ||| self.memory.hole_start <= self.devices.mmio_mem_start
                && self.devices.mmio_mem_end() <= self.memory.hole_end()
        }
    }

    /// Tells whether the layout is well formed.
    pub fn is_valid(&self) -> (ok: bool)
        ensures
            ok == self.wf(),
    {
        if !(self.memory.is_valid() && self.boot.is_valid() && self.devices.is_valid()) {
            return false;
        }
        let mmio_end: u64 = self.devices.mmio_mem_start + self.devices.mmio_mem_size;
        let hole_end: u64 = self.memory.hole_start + self.memory.hole_size;
        self.memory.ram_start <= self.boot.gdt_start && (self.memory.hole_size == 0
            || self.boot.kernel_start < self.memory.hole_start) && (mmio_end
            <= self.memory.ram_start || (self.memory.hole_start <= self.devices.mmio_mem_start
            && mmio_end <= hole_end))
    }

    /// The layout of the x86_64 platform.
    ///
    /// Guest memory starts at address 0 and may hold up to 1 TiB. The 256 MiB
    /// from 3584 MiB to 3840 MiB are reserved and hold the MMIO range, cut
    /// into windows of 4 KiB. The descriptor tables lie at 0x500 and 0x520,
    /// the boot-parameter block is the page at 0x7000, the boot stack starts
    /// at 0x8ff0, the page tables are the three pages from 0x9000, the
    /// command line goes to 0x20000 and may be 64 KiB long, the kernel is
    /// loaded at 1 MiB and the initial ramdisk follows it at the next
    /// multiple of 64. Devices get the interrupt lines 5 to 23.
    pub fn x86_64() -> (layout: Layout)
        ensures
            layout.wf(),
            layout.memory == (MemoryMap {
                page_size: 0x1000,
                ram_start: 0,
                hole_start: MMIO_MEM_START,
                hole_size: MMIO_MEM_SIZE,
                max_size: 0x100_0000_0000,
            }),
            layout.boot == (BootLayout {
                gdt_start: 0x500,
                idt_start: 0x520,
                boot_params_start: 0x7000,
                boot_params_size: 0x1000,
                cmdline_start: 0x2_0000,
                cmdline_max_size: CMDLINE_MAX_SIZE,
                kernel_start: 0x10_0000,
                initrd_policy: InitrdPolicy::AfterKernel,
                initrd_align: 64,
                boot_stack_pointer: 0x8ff0,
                page_tables_start: 0x9000,
            }),
            layout.devices.mmio_mem_start == MMIO_MEM_START,
            layout.devices.mmio_mem_size == MMIO_MEM_SIZE,
            layout.devices.mmio_slot_size == 0x1000,
            layout.devices.irq_base == IRQ_BASE,
            layout.devices.irq_max == IRQ_MAX,
            layout.devices.reserved_irqs@ == Seq::<u32>::empty(),
    {
        Layout {
            memory: MemoryMap {
                page_size: 0x1000,
                ram_start: 0,
                hole_start: MMIO_MEM_START,
                hole_size: MMIO_MEM_SIZE,
                max_size: 0x100_0000_0000,
            },
            boot: BootLayout {
                gdt_start: 0x500,
                idt_start: 0x520,
                boot_params_start: 0x7000,
                boot_params_size: 0x1000,
                cmdline_start: 0x2_0000,
                cmdline_max_size: CMDLINE_MAX_SIZE,
                kernel_start: 0x10_0000,
                initrd_policy: InitrdPolicy::AfterKernel,
                initrd_align: 64,
                boot_stack_pointer: 0x8ff0,
                page_tables_start: 0x9000,
            },
            devices: DevicePool {
                mmio_mem_start: MMIO_MEM_START,
                mmio_mem_size: MMIO_MEM_SIZE,
                mmio_slot_size: 0x1000,
                irq_base: IRQ_BASE,
                irq_max: IRQ_MAX,
                reserved_irqs: Vec::new(),
            },
        }
    }
}

} // verus!
