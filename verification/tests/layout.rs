use arch::layout::BootLayout;
use arch::layout::InitrdPolicy;
use arch::layout::Layout;
use arch::layout::MemoryMap;

fn x86_boot() -> BootLayout {
    BootLayout {
        gdt_start: 0x500,
        idt_start: 0x520,
        boot_params_start: 0x7000,
        boot_params_size: 0x1000,
        cmdline_start: 0x2_0000,
        cmdline_max_size: 0x1_0000,
        kernel_start: 0x10_0000,
        initrd_policy: InitrdPolicy::AfterKernel,
        initrd_align: 64,
        boot_stack_pointer: 0x8ff0,
        page_tables_start: 0x9000,
    }
}

#[test]
fn the_x86_64_layout() {
    let layout = Layout::x86_64();
    assert!(layout.is_valid());
    assert_eq!(
        layout.memory,
        MemoryMap {
            page_size: 4096,
            ram_start: 0,
            hole_start: 3584 << 20,
            hole_size: 256 << 20,
            max_size: 1 << 40,
        }
    );
    assert_eq!(layout.memory.hole_start + layout.memory.hole_size, 3840 << 20);
    assert_eq!(layout.boot, x86_boot());
    assert_eq!(layout.devices.mmio_mem_start, 0xE000_0000);
    assert_eq!(layout.devices.mmio_mem_size, 0x1000_0000);
    assert_eq!(layout.devices.mmio_slot_size, 0x1000);
    assert_eq!(layout.devices.irq_base, 5);
    assert_eq!(layout.devices.irq_max, 23);
    assert!(layout.devices.reserved_irqs.is_empty());
    assert_eq!(layout.memory.page_size, arch::PAGE_SIZE as u64);
}

#[test]
fn boot_structures_must_follow_each_other() {
    assert!(x86_boot().is_valid());
    let mut boot = x86_boot();
    boot.idt_start = 0x510;
    assert!(!boot.is_valid());
    let mut boot = x86_boot();
    boot.boot_params_start = 0x528;
    assert!(boot.is_valid());
    boot.boot_params_start = 0x527;
    assert!(!boot.is_valid());
    let mut boot = x86_boot();
    boot.boot_params_size = 0xfff;
    assert!(!boot.is_valid());
    let mut boot = x86_boot();
    boot.boot_stack_pointer = 0x7fff;
    assert!(!boot.is_valid());
    let mut boot = x86_boot();
    boot.page_tables_start = 0x9008;
    assert!(!boot.is_valid());
    let mut boot = x86_boot();
    boot.page_tables_start = 0x1_e000;
    assert!(!boot.is_valid());
    let mut boot = x86_boot();
    boot.cmdline_max_size = 0xe_0000;
    assert!(!boot.is_valid());
    boot.cmdline_max_size = 0xd_ffff;
    assert!(boot.is_valid());
    let mut boot = x86_boot();
    boot.initrd_align = 0;
    assert!(!boot.is_valid());
    let mut boot = x86_boot();
    boot.gdt_start = u64::MAX;
    assert!(!boot.is_valid());
}

#[test]
fn the_parts_of_a_layout_must_agree() {
    let mut layout = Layout::x86_64();
    layout.memory.ram_start = 0x1000;
    assert!(!layout.is_valid());
    let mut layout = Layout::x86_64();
    layout.boot.kernel_start = 0xE000_0000;
    assert!(!layout.is_valid());
    let mut layout = Layout::x86_64();
    layout.devices.mmio_mem_start = 0xD000_0000;
    assert!(!layout.is_valid());
    let mut layout = Layout::x86_64();
    layout.devices.mmio_mem_size = 0x1000_1000;
    assert!(!layout.is_valid());
    let mut layout = Layout::x86_64();
    layout.devices.mmio_mem_size = 0x1000;
    assert!(layout.is_valid());
    let mut layout = Layout::x86_64();
    layout.memory.page_size = 0;
    assert!(!layout.is_valid());
    let mut layout = Layout::x86_64();
    layout.devices.irq_base = 24;
    assert!(!layout.is_valid());
}

#[test]
fn an_mmio_range_below_memory() {
    let mut layout = Layout::x86_64();
    layout.memory = MemoryMap {
        page_size: 4096,
        ram_start: 0x8000_0000,
        hole_start: 0,
        hole_size: 0,
        max_size: 1022 << 30,
    };
    layout.boot = BootLayout {
        gdt_start: 0x8000_0500,
        idt_start: 0x8000_0520,
        boot_params_start: 0x8000_7000,
        boot_params_size: 0x1000,
        cmdline_start: 0x8002_0000,
        cmdline_max_size: 2048,
        kernel_start: 0x8010_0000,
        initrd_policy: InitrdPolicy::TopOfMemory,
        initrd_align: 4096,
        boot_stack_pointer: 0x8000_8ff0,
        page_tables_start: 0x8000_9000,
    };
    layout.devices.mmio_mem_start = 0x4000_0000;
    layout.devices.mmio_mem_size = 0x4000_0000;
    assert!(layout.is_valid());
    layout.devices.mmio_mem_size = 0x4000_1000;
    assert!(!layout.is_valid());
}

#[test]
fn the_constants_of_the_x86_64_layout() {
    let layout = Layout::x86_64();
    assert_eq!(arch::MMIO_MEM_START, 3584 << 20);
    assert_eq!(arch::MMIO_MEM_SIZE, 256 << 20);
    assert_eq!(arch::IRQ_BASE, 5);
    assert_eq!(arch::IRQ_MAX, 23);
    assert_eq!(arch::CMDLINE_MAX_SIZE, 65536);
    assert_eq!(layout.devices.mmio_mem_start, arch::MMIO_MEM_START);
    assert_eq!(layout.devices.mmio_mem_size, arch::MMIO_MEM_SIZE);
    assert_eq!(layout.devices.irq_base, arch::IRQ_BASE);
    assert_eq!(layout.devices.irq_max, arch::IRQ_MAX);
    assert_eq!(layout.boot.cmdline_max_size, arch::CMDLINE_MAX_SIZE);
    assert_eq!(arch::get_kernel_start(&layout.boot), 0x10_0000);
    assert!(arch::arch_memory_regions(&layout.memory, 4096).is_ok());
}
