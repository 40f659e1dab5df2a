use arch::layout::BootLayout;
use arch::layout::InitrdPolicy;
use arch::layout::Layout;
use arch::memory::arch_memory_regions;
use arch::memory::MemoryRegion;
use arch::placement::cmdline_load_addr;
use arch::placement::get_kernel_start;
use arch::placement::initrd_load_addr;
use arch::placement::kernel_load_addr;
use arch::placement::place_images;
use arch::placement::ImagePlacement;
use arch::Error;
use arch::GuestAddress;
use arch::InitrdConfig;

const MIB: u64 = 1 << 20;

fn regions_of(size: u64) -> Vec<MemoryRegion> {
    arch_memory_regions(&Layout::x86_64().memory, size).unwrap()
}

fn top_of_memory() -> BootLayout {
    let mut boot = Layout::x86_64().boot;
    boot.initrd_policy = InitrdPolicy::TopOfMemory;
    boot.initrd_align = 4096;
    boot
}

#[test]
fn kernel_goes_to_the_fixed_address() {
    let boot = Layout::x86_64().boot;
    assert_eq!(get_kernel_start(&boot), 0x10_0000);
    assert_eq!(
        kernel_load_addr(&boot, &regions_of(128 * MIB), 8 * MIB),
        Ok(GuestAddress(0x10_0000))
    );
    assert_eq!(
        kernel_load_addr(&boot, &regions_of(128 * MIB), 0),
        Ok(GuestAddress(0x10_0000))
    );
}

#[test]
fn kernel_may_fill_the_region_to_its_end() {
    let boot = Layout::x86_64().boot;
    let regions = regions_of(128 * MIB);
    assert_eq!(kernel_load_addr(&boot, &regions, 127 * MIB), Ok(GuestAddress(0x10_0000)));
    assert_eq!(kernel_load_addr(&boot, &regions, 127 * MIB + 1), Err(Error::KernelTooLarge));
}

#[test]
fn kernel_does_not_cross_into_the_hole() {
    let boot = Layout::x86_64().boot;
    let regions = regions_of(4096 * MIB);
    assert_eq!(kernel_load_addr(&boot, &regions, 3583 * MIB), Ok(GuestAddress(0x10_0000)));
    assert_eq!(kernel_load_addr(&boot, &regions, 3583 * MIB + 1), Err(Error::KernelTooLarge));
    assert_eq!(kernel_load_addr(&boot, &regions, 3584 * MIB), Err(Error::KernelTooLarge));
}

#[test]
fn kernel_needs_its_address_in_the_first_region() {
    let boot = Layout::x86_64().boot;
    assert_eq!(kernel_load_addr(&boot, &regions_of(MIB / 2), 1), Err(Error::KernelTooLarge));
    assert_eq!(kernel_load_addr(&boot, &regions_of(MIB / 2), 0), Err(Error::KernelTooLarge));
    assert_eq!(kernel_load_addr(&boot, &Vec::new(), 1), Err(Error::KernelTooLarge));
    let above = vec![MemoryRegion { start: GuestAddress(0x20_0000), size: 128 * MIB }];
    assert_eq!(kernel_load_addr(&boot, &above, 1), Err(Error::KernelTooLarge));
}

#[test]
fn kernel_size_that_wraps_is_refused() {
    let boot = Layout::x86_64().boot;
    assert_eq!(
        kernel_load_addr(&boot, &regions_of(128 * MIB), u64::MAX),
        Err(Error::KernelTooLarge)
    );
    let wrapping = vec![MemoryRegion { start: GuestAddress(0), size: u64::MAX }];
    assert_eq!(kernel_load_addr(&boot, &wrapping, 8 * MIB), Ok(GuestAddress(0x10_0000)));
    let beyond = vec![MemoryRegion { start: GuestAddress(1), size: u64::MAX }];
    assert_eq!(kernel_load_addr(&boot, &beyond, 8 * MIB), Err(Error::KernelTooLarge));
}

#[test]
fn every_kernel_smaller_than_the_room_above_its_address_is_placed() {
    let boot = Layout::x86_64().boot;
    let regions = regions_of(16 * MIB);
    let mut size: u64 = 0;
    while size <= 15 * MIB {
        assert_eq!(kernel_load_addr(&boot, &regions, size), Ok(GuestAddress(0x10_0000)));
        assert!(0x10_0000 + size <= regions[0].start.0 + regions[0].size);
        size += 64 * 1024 + 1;
    }
}

#[test]
fn initrd_follows_the_kernel_at_a_multiple_of_64() {
    let boot = Layout::x86_64().boot;
    let regions = regions_of(128 * MIB);
    assert_eq!(
        initrd_load_addr(&boot, &regions, 8 * MIB, 2 << 20),
        Ok(InitrdConfig { address: GuestAddress(0x90_0000), size: 2 << 20 })
    );
    assert_eq!(
        initrd_load_addr(&boot, &regions, 8 * MIB + 1, 2 << 20),
        Ok(InitrdConfig { address: GuestAddress(0x90_0040), size: 2 << 20 })
    );
    assert_eq!(
        initrd_load_addr(&boot, &regions, 8 * MIB + 63, 16),
        Ok(InitrdConfig { address: GuestAddress(0x90_0040), size: 16 })
    );
    assert_eq!(
        initrd_load_addr(&boot, &regions, 8 * MIB + 64, 0),
        Ok(InitrdConfig { address: GuestAddress(0x90_0040), size: 0 })
    );
}

#[test]
fn initrd_must_fit_above_the_kernel() {
    let boot = Layout::x86_64().boot;
    let regions = regions_of(128 * MIB);
    assert_eq!(
        initrd_load_addr(&boot, &regions, 8 * MIB, (119 * MIB) as usize),
        Ok(InitrdConfig { address: GuestAddress(0x90_0000), size: (119 * MIB) as usize })
    );
    assert_eq!(
        initrd_load_addr(&boot, &regions, 8 * MIB, (119 * MIB + 1) as usize),
        Err(Error::InitrdTooLarge)
    );
    assert_eq!(
        initrd_load_addr(&boot, &regions, 8 * MIB, (128 * MIB) as usize),
        Err(Error::InitrdTooLarge)
    );
    assert_eq!(
        initrd_load_addr(&boot, &regions, 127 * MIB - 1, 1),
        Err(Error::InitrdTooLarge)
    );
}

#[test]
fn initrd_of_a_kernel_that_does_not_fit() {
    let boot = Layout::x86_64().boot;
    assert_eq!(
        initrd_load_addr(&boot, &regions_of(128 * MIB), 128 * MIB, 1),
        Err(Error::KernelTooLarge)
    );
}

#[test]
fn initrd_at_the_top_of_memory() {
    let boot = top_of_memory();
    assert!(boot.is_valid());
    let regions = regions_of(128 * MIB);
    assert_eq!(
        initrd_load_addr(&boot, &regions, 8 * MIB, 2 << 20),
        Ok(InitrdConfig { address: GuestAddress(0x7e0_0000), size: 2 << 20 })
    );
    assert_eq!(
        initrd_load_addr(&boot, &regions, 8 * MIB, (2 << 20) + 1),
        Ok(InitrdConfig { address: GuestAddress(0x7df_f000), size: (2 << 20) + 1 })
    );
    assert_eq!(
        initrd_load_addr(&boot, &regions, 8 * MIB, (119 * MIB) as usize),
        Ok(InitrdConfig { address: GuestAddress(0x90_0000), size: (119 * MIB) as usize })
    );
    assert_eq!(
        initrd_load_addr(&boot, &regions, 8 * MIB, (119 * MIB + 1) as usize),
        Err(Error::InitrdTooLarge)
    );
    assert_eq!(
        initrd_load_addr(&boot, &regions, 8 * MIB, (129 * MIB) as usize),
        Err(Error::InitrdTooLarge)
    );
}

#[test]
fn initrd_at_the_top_of_the_highest_region() {
    let boot = top_of_memory();
    let regions = regions_of(4096 * MIB);
    assert_eq!(
        initrd_load_addr(&boot, &regions, 8 * MIB, 2 << 20),
        Ok(InitrdConfig { address: GuestAddress(4352 * MIB - 2 * MIB), size: 2 << 20 })
    );
    assert_eq!(
        initrd_load_addr(&boot, &regions, 8 * MIB, (512 * MIB) as usize),
        Ok(InitrdConfig { address: GuestAddress(3840 * MIB), size: (512 * MIB) as usize })
    );
    assert_eq!(
        initrd_load_addr(&boot, &regions, 8 * MIB, (512 * MIB + 1) as usize),
        Err(Error::InitrdTooLarge)
    );
}

#[test]
fn place_images_with_and_without_initrd() {
    let boot = Layout::x86_64().boot;
    let regions = regions_of(128 * MIB);
    assert_eq!(
        place_images(&boot, &regions, 8 * MIB, None),
        Ok(ImagePlacement { kernel_start: GuestAddress(0x10_0000), initrd: None })
    );
    assert_eq!(
        place_images(&boot, &regions, 8 * MIB, Some(2 << 20)),
        Ok(ImagePlacement {
            kernel_start: GuestAddress(0x10_0000),
            initrd: Some(InitrdConfig { address: GuestAddress(0x90_0000), size: 2 << 20 }),
        })
    );
    assert_eq!(place_images(&boot, &regions, 128 * MIB, None), Err(Error::KernelTooLarge));
    assert_eq!(
        place_images(&boot, &regions, 128 * MIB, Some(1 << 30)),
        Err(Error::KernelTooLarge)
    );
    assert_eq!(
        place_images(&boot, &regions, 8 * MIB, Some(1 << 30)),
        Err(Error::InitrdTooLarge)
    );
}

#[test]
fn command_line_of_the_largest_length_is_accepted() {
    let boot = Layout::x86_64().boot;
    assert_eq!(boot.cmdline_max_size, 0x1_0000);
    let longest = vec![b'a'; boot.cmdline_max_size];
    assert_eq!(cmdline_load_addr(&boot, &longest), Ok(GuestAddress(0x2_0000)));
    let too_long = vec![b'a'; boot.cmdline_max_size + 1];
    assert_eq!(cmdline_load_addr(&boot, &too_long), Err(Error::CmdlineTooLarge));
}

#[test]
fn command_line_address() {
    let boot = Layout::x86_64().boot;
    assert_eq!(cmdline_load_addr(&boot, b"console=ttyS0"), Ok(GuestAddress(0x2_0000)));
    assert_eq!(cmdline_load_addr(&boot, b""), Ok(GuestAddress(0x2_0000)));
}
