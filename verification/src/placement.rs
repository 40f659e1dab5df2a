//! Kernel and initial ramdisk placement: where the images and the command line
//! go in the planned regions.
use crate::address::GuestAddress;
use crate::error::Error;
use crate::layout::BootLayout;
use crate::layout::InitrdPolicy;
use crate::layout::GDT_SIZE;
use crate::layout::IDT_SIZE;
use crate::layout::PAGE_TABLES_SIZE;
use crate::layout::Layout;
use crate::memory::planned_regions;
use crate::memory::valid_memory_size;
use crate::memory::MemoryRegion;
use crate::InitrdConfig;
use vstd::prelude::*;

verus! {

/// Where the images of a guest were placed.
#[derive(Clone, Copy, Debug, PartialEq, Eq, Structural)]
pub struct ImagePlacement {
    /// The load address of the kernel image.
    pub kernel_start: GuestAddress,
    /// The place of the initial ramdisk, if there is one.
    pub initrd: Option<InitrdConfig>,
}

/// The least multiple of `align` that is not below `x`.
pub open spec fn align_up(x: int, align: int) -> int {
    if x % align == 0 {
        x
    } else {
        x - x % align + align
    }
}

/// The greatest multiple of `align` that is not above `x`.
pub open spec fn align_down(x: int, align: int) -> int {
    x - x % align
}

/// The first address past a kernel image of the given size.
pub open spec fn kernel_end(boot: BootLayout, kernel_size: u64) -> int {
    boot.kernel_start + kernel_size
}

/// The kernel image lies wholly inside the first region, which ends inside
/// the address space.
pub open spec fn kernel_fits(
    boot: BootLayout,
    regions: Seq<MemoryRegion>,
    kernel_size: u64,
) -> bool {
    &&& regions.len() > 0
    &&& regions[0].end() <= u64::MAX
    &&& regions[0].start.0 <= boot.kernel_start
    &&& kernel_end(boot, kernel_size) <= regions[0].end()
}

/// The address that the layout's policy gives the initial ramdisk.
pub open spec fn initrd_address(
    boot: BootLayout,
    regions: Seq<MemoryRegion>,
    kernel_size: u64,
    initrd_size: usize,
) -> int {
    match boot.initrd_policy {
        InitrdPolicy::AfterKernel => align_up(
            kernel_end(boot, kernel_size),
            boot.initrd_align as int,
        ),
        InitrdPolicy::TopOfMemory => align_down(
            regions.last().end() - initrd_size,
            boot.initrd_align as int,
        ),
    }
}

/// The initial ramdisk, at the address that the policy gives it, lies wholly
/// inside its target region, which ends inside the address space, and above
/// the kernel image.
pub open spec fn initrd_fits(
    boot: BootLayout,
    regions: Seq<MemoryRegion>,
    kernel_size: u64,
    initrd_size: usize,
) -> bool {
    let address = initrd_address(boot, regions, kernel_size, initrd_size);
    match boot.initrd_policy {
        InitrdPolicy::AfterKernel => address + initrd_size <= regions[0].end(),
        InitrdPolicy::TopOfMemory => {
            &&& regions.last().end() <= u64::MAX
            &&& initrd_size <= regions.last().size
            &&& regions.last().start.0 <= address
            &&& regions.len() == 1 ==> kernel_end(boot, kernel_size) <= address
        },
    }
}

/// The address at which the kernel image is loaded.
pub fn get_kernel_start(boot: &BootLayout) -> (start: u64)
    ensures
        start == boot.kernel_start,
{
    boot.kernel_start
}

/// Rounds `x` up to a multiple of `align`; `None` if that leaves the address
/// space.
fn round_up(x: u64, align: u64) -> (r: Option<u64>)
    requires
        align > 0,
    ensures
        match r {
            Some(a) => a == align_up(x as int, align as int),
            None => align_up(x as int, align as int) > u64::MAX,
        },
{
    let rest: u64 = x % align;
    assert(rest <= x) by (nonlinear_arith)
        requires
            rest == x % align,
            align > 0,
    ;
    if rest == 0 {
        Some(x)
    } else {
        match GuestAddress(x - rest).checked_add(align) {
            Some(a) => Some(a.raw_value()),
            None => None,
        }
    }
}

/// Checks that the kernel image fits in the first region and gives its load
/// address.
///
/// Fails with [`Error::KernelTooLarge`] exactly when the image, loaded at the
/// layout's kernel address, does not lie wholly inside the first region.
pub fn kernel_load_addr(boot: &BootLayout, regions: &Vec<MemoryRegion>, kernel_size: u64) -> (r:
    Result<GuestAddress, Error>)
    ensures
        match r {
            Ok(a) => kernel_fits(*boot, regions@, kernel_size) && a.0 == boot.kernel_start,
            Err(e) => e == Error::KernelTooLarge && !kernel_fits(*boot, regions@, kernel_size),
        },
{
    if regions.len() == 0 {
        return Err(Error::KernelTooLarge);
    }
    let first = regions[0];
    let start = GuestAddress(boot.kernel_start);
    match (first.start.checked_add(first.size), start.checked_add(kernel_size)) {
        (Some(region_end), Some(image_end)) => {
            if first.start.raw_value() <= boot.kernel_start && image_end.raw_value()
                <= region_end.raw_value() {
                Ok(start)
            } else {
                Err(Error::KernelTooLarge)
            }
        },
        _ => Err(Error::KernelTooLarge),
    }
}

/// Finds the load address of an initial ramdisk of the given size, for a
/// kernel image of the given size.
///
/// Fails with [`Error::KernelTooLarge`] exactly when the kernel image does not
/// fit, and otherwise with [`Error::InitrdTooLarge`] exactly when the ramdisk,
/// at the address that the layout's policy gives it, does not fit in its
/// target region or would reach down into the kernel image.
pub fn initrd_load_addr(
    boot: &BootLayout,
    regions: &Vec<MemoryRegion>,
    kernel_size: u64,
    initrd_size: usize,
) -> (r: Result<InitrdConfig, Error>)
    requires
        boot.wf(),
    ensures
        match r {
            Ok(initrd) => {
                &&& kernel_fits(*boot, regions@, kernel_size)
                &&& initrd_fits(*boot, regions@, kernel_size, initrd_size)
                &&& initrd.address.0 == initrd_address(
                    *boot,
                    regions@,
                    kernel_size,
                    initrd_size,
                )
                &&& initrd.size == initrd_size
            },
            Err(e) => if kernel_fits(*boot, regions@, kernel_size) {
                e == Error::InitrdTooLarge && !initrd_fits(
                    *boot,
                    regions@,
                    kernel_size,
                    initrd_size,
                )
            } else {
                e == Error::KernelTooLarge
            },
        },
{
    match kernel_load_addr(boot, regions, kernel_size) {
        Err(e) => {
            return Err(e);
        },
        Ok(_) => {},
    }
    let size: u64 = initrd_size as u64;
    let image_end: u64 = boot.kernel_start + kernel_size;
    match boot.initrd_policy {
        InitrdPolicy::AfterKernel => {
            let first = regions[0];
            let region_end: u64 = first.start.raw_value() + first.size;
            match round_up(image_end, boot.initrd_align) {
                Some(address) => {
                    if address <= region_end && size <= region_end - address {
                        Ok(InitrdConfig { address: GuestAddress(address), size: initrd_size })
                    } else {
                        Err(Error::InitrdTooLarge)
                    }
                },
                None => Err(Error::InitrdTooLarge),
            }
        },
        InitrdPolicy::TopOfMemory => {
            let last = regions[regions.len() - 1];
            match last.start.checked_add(last.size) {
                Some(region_end) => {
                    if size > last.size {
                        return Err(Error::InitrdTooLarge);
                    }
                    let top: u64 = region_end.raw_value() - size;
                    assert(top % boot.initrd_align <= top) by (nonlinear_arith)
                        requires
                            boot.initrd_align > 0,
                    ;
                    let address: u64 = top - top % boot.initrd_align;
                    if last.start.raw_value() <= address && (regions.len() > 1 || image_end
                        <= address) {
                        Ok(InitrdConfig { address: GuestAddress(address), size: initrd_size })
                    } else {
                        Err(Error::InitrdTooLarge)
                    }
                },
                None => Err(Error::InitrdTooLarge),
            }
        },
    }
}

/// What placing the images gives: the kernel at the layout's kernel address
/// and the initial ramdisk, if there is one, where the layout's policy puts
/// it; [`Error::KernelTooLarge`] if the kernel does not fit, else
/// [`Error::InitrdTooLarge`] if the ramdisk does not.
pub open spec fn placement(
    boot: BootLayout,
    regions: Seq<MemoryRegion>,
    kernel_size: u64,
    initrd_size: Option<usize>,
) -> Result<ImagePlacement, Error> {
    if !kernel_fits(boot, regions, kernel_size) {
        Err(Error::KernelTooLarge)
    } else {
        match initrd_size {
            None => Ok(ImagePlacement { kernel_start: GuestAddress(boot.kernel_start), initrd: None }),
            Some(size) => if initrd_fits(boot, regions, kernel_size, size) {
                Ok(
                    ImagePlacement {
                        kernel_start: GuestAddress(boot.kernel_start),
                        initrd: Some(
                            InitrdConfig {
                                address: GuestAddress(
                                    initrd_address(boot, regions, kernel_size, size) as u64,
                                ),
                                size,
                            },
                        ),
                    },
                )
            } else {
                Err(Error::InitrdTooLarge)
            },
        }
    }
}

/// Places the kernel image and, if there is one, the initial ramdisk.
pub fn place_images(
    boot: &BootLayout,
    regions: &Vec<MemoryRegion>,
    kernel_size: u64,
    initrd_size: Option<usize>,
) -> (r: Result<ImagePlacement, Error>)
    requires
        boot.wf(),
    ensures
        r == placement(*boot, regions@, kernel_size, initrd_size),
{
    match initrd_size {
        None => {
            match kernel_load_addr(boot, regions, kernel_size) {
                Ok(kernel_start) => Ok(ImagePlacement { kernel_start, initrd: None }),
                Err(e) => Err(e),
            }
        },
        Some(size) => {
            match initrd_load_addr(boot, regions, kernel_size, size) {
                Ok(initrd) => Ok(
                    ImagePlacement {
                        kernel_start: GuestAddress(boot.kernel_start),
                        initrd: Some(initrd),
                    },
                ),
                Err(e) => Err(e),
            }
        },
    }
}

/// Checks the length of the command line and gives the address at which it is
/// to be written.
///
/// Fails with [`Error::CmdlineTooLarge`] exactly when the command line is
/// longer than the layout allows.
pub fn cmdline_load_addr(boot: &BootLayout, cmdline: &[u8]) -> (r: Result<GuestAddress, Error>)
    ensures
        match r {
            Ok(a) => cmdline@.len() <= boot.cmdline_max_size && a.0 == boot.cmdline_start,
            Err(e) => e == Error::CmdlineTooLarge && cmdline@.len() > boot.cmdline_max_size,
        },
{
    if cmdline.len() > boot.cmdline_max_size {
        Err(Error::CmdlineTooLarge)
    } else {
        Ok(GuestAddress(boot.cmdline_start))
    }
}

/// A kernel image that is smaller than the first planned region, and no
/// larger than what the region has left above the kernel's load address, is
/// placed: it ends at or below the end of the first region and shares no
/// address with the reserved hole.
pub proof fn lemma_kernel_in_first_region(layout: Layout, memory_size: u64, kernel_size: u64)
    requires
        layout.wf(),
        valid_memory_size(layout.memory, memory_size),
        kernel_size < planned_regions(layout.memory, memory_size)[0].size,
        layout.boot.kernel_start + kernel_size <= planned_regions(
            layout.memory,
            memory_size,
        )[0].end(),
    ensures
        placement(
            layout.boot,
            planned_regions(layout.memory, memory_size),
            kernel_size,
            None,
        ) == Ok::<ImagePlacement, Error>(
            ImagePlacement { kernel_start: GuestAddress(layout.boot.kernel_start), initrd: None },
        ),
        kernel_end(layout.boot, kernel_size) <= planned_regions(
            layout.memory,
            memory_size,
        )[0].end(),
        layout.memory.has_hole() ==> kernel_end(layout.boot, kernel_size)
            <= layout.memory.hole_start,
{
}

/// What is written to guest memory shares no address: the descriptor tables,
/// the boot-parameter block, the page tables, the command line, the kernel
/// image and the initial ramdisk follow each other, and all of them lie in
/// planned regions.
pub proof fn lemma_placement_disjoint(
    layout: Layout,
    memory_size: u64,
    kernel_size: u64,
    initrd_size: usize,
)
    requires
        layout.wf(),
        valid_memory_size(layout.memory, memory_size),
        kernel_fits(layout.boot, planned_regions(layout.memory, memory_size), kernel_size),
        initrd_fits(
            layout.boot,
            planned_regions(layout.memory, memory_size),
            kernel_size,
            initrd_size,
        ),
    ensures
        ({
            let regions = planned_regions(layout.memory, memory_size);
            let initrd = initrd_address(layout.boot, regions, kernel_size, initrd_size);
            &&& regions[0].start.0 <= layout.boot.gdt_start
            &&& layout.boot.gdt_start + GDT_SIZE <= layout.boot.idt_start
            &&& layout.boot.idt_start + IDT_SIZE <= layout.boot.boot_params_start
            &&& layout.boot.boot_params_end() <= layout.boot.page_tables_start
            &&& layout.boot.page_tables_start + PAGE_TABLES_SIZE <= layout.boot.cmdline_start
            &&& layout.boot.cmdline_end() <= layout.boot.kernel_start
            &&& kernel_end(layout.boot, kernel_size) <= regions[0].end()
            &&& kernel_end(layout.boot, kernel_size) <= initrd
            &&& exists|i: int|
                0 <= i < regions.len() && (#[trigger] regions[i]).start.0 <= initrd && initrd
                    + initrd_size <= regions[i].end()
        }),
{
    let regions = planned_regions(layout.memory, memory_size);
    let initrd = initrd_address(layout.boot, regions, kernel_size, initrd_size);
    let align = layout.boot.initrd_align as int;
    match layout.boot.initrd_policy {
        InitrdPolicy::AfterKernel => {
            lemma_align_up(kernel_end(layout.boot, kernel_size), align);
            assert(regions[0].start.0 <= initrd && initrd + initrd_size <= regions[0].end());
        },
        InitrdPolicy::TopOfMemory => {
            lemma_align_down(regions.last().end() - initrd_size, align);
            let last = regions.len() - 1;
            assert(regions[last].start.0 <= initrd && initrd + initrd_size <= regions[last].end());
        },
    }
}

/// Rounding up gives a multiple of the alignment, at or above the number and
/// less than one alignment away.
pub proof fn lemma_align_up(x: int, align: int)
    requires
        align > 0,
    ensures
        x <= align_up(x, align) < x + align,
        align_up(x, align) % align == 0,
{
    assert(0 <= x % align < align) by (nonlinear_arith)
        requires
            align > 0,
    ;
    vstd::arithmetic::div_mod::lemma_fundamental_div_mod(x, align);
    if x % align != 0 {
        let q = x / align;
        assert(x - x % align + align == (q + 1) * align) by (nonlinear_arith)
            requires
                x == align * q + x % align,
        ;
        vstd::arithmetic::div_mod::lemma_mod_multiples_basic(q + 1, align);
    }
}

/// Rounding down gives a multiple of the alignment, at or below the number
/// and less than one alignment away.
pub proof fn lemma_align_down(x: int, align: int)
    requires
        align > 0,
    ensures
        x - align < align_down(x, align) <= x,
        align_down(x, align) % align == 0,
{
    assert(0 <= x % align < align) by (nonlinear_arith)
        requires
            align > 0,
    ;
    vstd::arithmetic::div_mod::lemma_fundamental_div_mod(x, align);
    let q = x / align;
    assert(x - x % align == q * align) by (nonlinear_arith)
        requires
            x == align * q + x % align,
    ;
    vstd::arithmetic::div_mod::lemma_mod_multiples_basic(q, align);
}

} // verus!
