//! The boot protocol configurator: one pass from a layout and the images of a
//! guest to everything that has to be written before its first instruction.
//!
//! The pass goes through five stages, each a type of its own:
//! [`BootConfigurator`], [`RegionsPlanned`], [`ImagesPlaced`],
//! [`BootParamsWritten`] and [`RegistersReady`]. A step takes the stage it
//! starts from by value, so a pass cannot be repeated or go on after a step
//! has failed. The configurator itself touches no guest memory: it lists what
//! is to be written, in order, and the caller writes it. After a failure the
//! caller tears the guest down; nothing is taken back.
use crate::address::GuestAddress;
use crate::bootparams::linux_boot_params;
use crate::bootparams::linux_boot_params_of;
use crate::bootparams::pvh_start_info;
use crate::bootparams::pvh_start_info_of;
use crate::bootparams::MAX_REGION_ENTRIES;
use crate::bytes::writes_of;
use crate::bytes::GuestWrite;
use crate::error::Error;
use crate::layout::boot_in_memory;
use crate::layout::BootLayout;
use crate::layout::Layout;
use crate::layout::MemoryMap;
use crate::memory::arch_memory_regions;
use crate::memory::lemma_planned_regions_partition;
use crate::memory::planned_regions;
use crate::memory::valid_memory_size;
use crate::memory::MemoryRegion;
use crate::placement::cmdline_load_addr;
use crate::placement::place_images;
use crate::placement::placement;
use crate::placement::ImagePlacement;
use crate::regs::boot_tables;
use crate::regs::boot_tables_of;
use crate::regs::init_registers;
use crate::regs::registers_of;
use crate::regs::RegisterFile;
use crate::BootProtocol;
use crate::EntryPoint;
use vstd::prelude::*;

verus! {

/// What the configurator has to know of a kernel image.
#[derive(Clone, Copy, Debug, PartialEq, Eq, Structural)]
pub struct KernelImage {
    /// The size of the image in guest memory, in bytes.
    pub size: u64,
    /// Whether the image can be started under the Linux boot protocol.
    pub linux_boot: bool,
    /// The entry address that the image announces for the PVH protocol, if it
    /// announces one.
    pub pvh_entry: Option<GuestAddress>,
}

/// The protocol under which the image is started: PVH if it announces a PVH
/// entry, else the Linux boot protocol if it supports that.
pub open spec fn protocol_of(kernel: KernelImage) -> Option<BootProtocol> {
    if kernel.pvh_entry.is_some() {
        Some(BootProtocol::PvhBoot)
    } else if kernel.linux_boot {
        Some(BootProtocol::LinuxBoot)
    } else {
        None
    }
}

/// Where execution starts: under PVH at the address that the image
/// announces, under the Linux boot protocol at the kernel's load address.
pub open spec fn entry_point_of(boot: BootLayout, kernel: KernelImage) -> EntryPoint {
    match kernel.pvh_entry {
        Some(entry_addr) => EntryPoint { entry_addr, protocol: BootProtocol::PvhBoot },
        None => EntryPoint {
            entry_addr: GuestAddress(boot.kernel_start),
            protocol: BootProtocol::LinuxBoot,
        },
    }
}

/// What placing the images of a guest gives: the first of the failures below
/// that applies, else the placement.
///
/// - [`Error::UnsupportedBootProtocol`]: the image supports no protocol.
/// - [`Error::KernelTooLarge`], [`Error::InitrdTooLarge`]: as `placement` says.
/// - [`Error::CmdlineTooLarge`]: the command line is longer than allowed.
pub open spec fn images_outcome(
    boot: BootLayout,
    regions: Seq<MemoryRegion>,
    kernel: KernelImage,
    initrd_size: Option<usize>,
    cmdline: Seq<u8>,
) -> Result<ImagePlacement, Error> {
    if protocol_of(kernel).is_none() {
        Err(Error::UnsupportedBootProtocol)
    } else {
        match placement(boot, regions, kernel.size, initrd_size) {
            Err(e) => Err(e),
            Ok(placed) => if cmdline.len() > boot.cmdline_max_size {
                Err(Error::CmdlineTooLarge)
            } else {
                Ok(placed)
            },
        }
    }
}

/// The boot-parameter block of a protocol.
pub open spec fn boot_params_of(
    boot: BootLayout,
    protocol: BootProtocol,
    regions: Seq<MemoryRegion>,
    cmdline_size: u32,
    placed: ImagePlacement,
) -> Seq<u8> {
    match protocol {
        BootProtocol::LinuxBoot => linux_boot_params_of(boot, regions, cmdline_size, placed.initrd),
        BootProtocol::PvhBoot => pvh_start_info_of(boot, regions, placed.initrd),
    }
}

/// The state of a pass once the regions are planned.
pub struct PlannedView {
    /// Where guest memory may lie.
    pub memory: MemoryMap,
    /// Where the boot structures lie.
    pub boot: BootLayout,
    /// The planned regions.
    pub regions: Seq<MemoryRegion>,
}

/// The state of a pass once the images are placed.
pub struct PlacedView {
    /// Where the boot structures lie.
    pub boot: BootLayout,
    /// The planned regions.
    pub regions: Seq<MemoryRegion>,
    /// Where execution starts, and under which protocol.
    pub entry_point: EntryPoint,
    /// Where the images go.
    pub placed: ImagePlacement,
    /// The length of the command line with the zero byte that ends it.
    pub cmdline_size: u32,
    /// What is to be written to guest memory, in order.
    pub writes: Seq<(u64, Seq<u8>)>,
}

/// Everything that a pass has decided.
pub struct BootSetup {
    /// The planned regions.
    pub regions: Seq<MemoryRegion>,
    /// Where execution starts, and under which protocol.
    pub entry_point: EntryPoint,
    /// Where the images go.
    pub placed: ImagePlacement,
    /// The registers with which the first virtual CPU starts.
    pub registers: RegisterFile,
    /// What is to be written to guest memory, in order, before the registers
    /// are loaded.
    pub writes: Seq<(u64, Seq<u8>)>,
}

/// The state after placing the images: the command line, ended by a zero
/// byte, is to be written at its address.
pub open spec fn placed_view(
    boot: BootLayout,
    regions: Seq<MemoryRegion>,
    kernel: KernelImage,
    placed: ImagePlacement,
    cmdline: Seq<u8>,
) -> PlacedView {
    PlacedView {
        boot,
        regions,
        entry_point: entry_point_of(boot, kernel),
        placed,
        cmdline_size: (cmdline.len() + 1) as u32,
        writes: seq![(boot.cmdline_start, cmdline.push(0u8))],
    }
}

/// The state after writing the boot parameters: the block of the protocol is
/// to be written at its address, after what was to be written before.
pub open spec fn with_boot_params(view: PlacedView) -> PlacedView {
    PlacedView {
        writes: view.writes.push(
            (
                view.boot.boot_params_start,
                boot_params_of(
                    view.boot,
                    view.entry_point.protocol,
                    view.regions,
                    view.cmdline_size,
                    view.placed,
                ),
            ),
        ),
        ..view
    }
}

/// The state after initializing the registers: the tables of the protocol are
/// to be written after what was to be written before, and the registers are
/// those with which a virtual CPU starts at the entry point.
pub open spec fn with_registers(view: PlacedView) -> BootSetup {
    BootSetup {
        regions: view.regions,
        entry_point: view.entry_point,
        placed: view.placed,
        registers: registers_of(view.boot, view.entry_point),
        writes: view.writes + boot_tables_of(view.boot, view.entry_point.protocol),
    }
}

/// What a whole pass gives: the failure of the first step that fails, else
/// what the last step has decided.
pub open spec fn boot_outcome(
    memory: MemoryMap,
    boot: BootLayout,
    memory_size: u64,
    kernel: KernelImage,
    initrd_size: Option<usize>,
    cmdline: Seq<u8>,
) -> Result<BootSetup, Error> {
    if !valid_memory_size(memory, memory_size) {
        Err(Error::InvalidMemorySize)
    } else {
        let regions = planned_regions(memory, memory_size);
        match images_outcome(boot, regions, kernel, initrd_size, cmdline) {
            Err(e) => Err(e),
            Ok(placed) => Ok(
                with_registers(
                    with_boot_params(placed_view(boot, regions, kernel, placed, cmdline)),
                ),
            ),
        }
    }
}

/// The first stage: nothing is decided yet.
pub struct BootConfigurator {
    memory: MemoryMap,
    boot: BootLayout,
}

/// The second stage: the regions of guest memory are planned.
pub struct RegionsPlanned {
    memory: MemoryMap,
    boot: BootLayout,
    regions: Vec<MemoryRegion>,
}

/// The third stage: the images are placed and the command line is accepted.
pub struct ImagesPlaced {
    boot: BootLayout,
    regions: Vec<MemoryRegion>,
    entry_point: EntryPoint,
    placed: ImagePlacement,
    cmdline_size: u32,
    writes: Vec<GuestWrite>,
}

/// The fourth stage: the boot-parameter block is made.
pub struct BootParamsWritten {
    boot: BootLayout,
    regions: Vec<MemoryRegion>,
    entry_point: EntryPoint,
    placed: ImagePlacement,
    cmdline_size: u32,
    writes: Vec<GuestWrite>,
}

/// The last stage: the registers of the first virtual CPU are computed.
pub struct RegistersReady {
    regions: Vec<MemoryRegion>,
    entry_point: EntryPoint,
    placed: ImagePlacement,
    registers: RegisterFile,
    writes: Vec<GuestWrite>,
}

impl BootConfigurator {
    #[verifier::type_invariant]
    spec fn well_formed(self) -> bool {
        boot_in_memory(self.memory, self.boot)
    }
}

impl RegionsPlanned {
    #[verifier::type_invariant]
    spec fn well_formed(self) -> bool {
        boot_in_memory(self.memory, self.boot) && self.regions@.len() <= MAX_REGION_ENTRIES
    }
}

impl ImagesPlaced {
    #[verifier::type_invariant]
    spec fn well_formed(self) -> bool {
        self.boot.wf() && self.regions@.len() <= MAX_REGION_ENTRIES
    }
}

impl BootParamsWritten {
    #[verifier::type_invariant]
    spec fn well_formed(self) -> bool {
        self.boot.wf()
    }
}

impl View for BootConfigurator {
    type V = (MemoryMap, BootLayout);

    closed spec fn view(&self) -> (MemoryMap, BootLayout) {
        (self.memory, self.boot)
    }
}

impl View for RegionsPlanned {
    type V = PlannedView;

    closed spec fn view(&self) -> PlannedView {
        PlannedView { memory: self.memory, boot: self.boot, regions: self.regions@ }
    }
}

impl View for ImagesPlaced {
    type V = PlacedView;

    closed spec fn view(&self) -> PlacedView {
        PlacedView {
            boot: self.boot,
            regions: self.regions@,
            entry_point: self.entry_point,
            placed: self.placed,
            cmdline_size: self.cmdline_size,
            writes: writes_of(self.writes@),
        }
    }
}

impl View for BootParamsWritten {
    type V = PlacedView;

    closed spec fn view(&self) -> PlacedView {
        PlacedView {
            boot: self.boot,
            regions: self.regions@,
            entry_point: self.entry_point,
            placed: self.placed,
            cmdline_size: self.cmdline_size,
            writes: writes_of(self.writes@),
        }
    }
}

impl View for RegistersReady {
    type V = BootSetup;

    closed spec fn view(&self) -> BootSetup {
        BootSetup {
            regions: self.regions@,
            entry_point: self.entry_point,
            placed: self.placed,
            registers: self.registers,
            writes: writes_of(self.writes@),
        }
    }
}

/// The command line with the zero byte that ends it.
fn with_nul(cmdline: &[u8]) -> (bytes: Vec<u8>)
    ensures
        bytes@ == cmdline@.push(0u8),
{
    let mut bytes: Vec<u8> = Vec::new();
    let mut i: usize = 0;
    while i < cmdline.len()
        invariant
            i <= cmdline@.len(),
            bytes@ == cmdline@.subrange(0, i as int),
        decreases cmdline@.len() - i,
    {
        bytes.push(cmdline[i]);
        i += 1;
        assert(bytes@ =~= cmdline@.subrange(0, i as int));
    }
    bytes.push(0u8);
    assert(bytes@ =~= cmdline@.push(0u8));
    bytes
}

impl BootConfigurator {
    /// Starts a pass for a layout.
    pub fn new(layout: &Layout) -> (start: BootConfigurator)
        requires
            layout.wf(),
        ensures
            start@ == (layout.memory, layout.boot),
    {
        BootConfigurator { memory: layout.memory, boot: layout.boot }
    }

    /// Plans the regions of guest memory.
    ///
    /// Fails with [`Error::InvalidMemorySize`] exactly when the size is zero,
    /// not a whole number of pages, or above the architecture's maximum.
    pub fn plan_regions(self, memory_size: u64) -> (r: Result<RegionsPlanned, Error>)
        ensures
            match r {
                Ok(next) => valid_memory_size(self@.0, memory_size) && next@ == (PlannedView {
                    memory: self@.0,
                    boot: self@.1,
                    regions: planned_regions(self@.0, memory_size),
                }),
                Err(e) => e == Error::InvalidMemorySize && !valid_memory_size(self@.0, memory_size),
            },
    {
        proof {
            use_type_invariant(&self);
            if valid_memory_size(self.memory, memory_size) {
                lemma_planned_regions_partition(self.memory, memory_size);
            }
        }
        match arch_memory_regions(&self.memory, memory_size) {
            Ok(regions) => Ok(RegionsPlanned { memory: self.memory, boot: self.boot, regions }),
            Err(e) => Err(e),
        }
    }
}

impl RegionsPlanned {
    /// The planned regions.
    pub fn regions(&self) -> (regions: &Vec<MemoryRegion>)
        ensures
            regions@ == self@.regions,
    {
        &self.regions
    }

    /// Chooses the boot protocol, places the kernel image and the initial
    /// ramdisk, and accepts the command line.
    pub fn place_images(
        self,
        kernel: &KernelImage,
        initrd_size: Option<usize>,
        cmdline: &[u8],
    ) -> (r: Result<ImagesPlaced, Error>)
        ensures
            match r {
                Ok(next) => images_outcome(self@.boot, self@.regions, *kernel, initrd_size, cmdline@)
                    == Ok::<ImagePlacement, Error>(next@.placed) && next@ == placed_view(
                    self@.boot,
                    self@.regions,
                    *kernel,
                    next@.placed,
                    cmdline@,
                ),
                Err(e) => images_outcome(self@.boot, self@.regions, *kernel, initrd_size, cmdline@)
                    == Err::<ImagePlacement, Error>(e),
            },
    {
        proof {
            use_type_invariant(&self);
        }
        let entry_point = match kernel.pvh_entry {
            Some(entry_addr) => EntryPoint { entry_addr, protocol: BootProtocol::PvhBoot },
            None => {
                if !kernel.linux_boot {
                    return Err(Error::UnsupportedBootProtocol);
                }
                EntryPoint {
                    entry_addr: GuestAddress(self.boot.kernel_start),
                    protocol: BootProtocol::LinuxBoot,
                }
            },
        };
        let placed = match place_images(&self.boot, &self.regions, kernel.size, initrd_size) {
            Ok(placed) => placed,
            Err(e) => {
                return Err(e);
            },
        };
        let address = match cmdline_load_addr(&self.boot, cmdline) {
            Ok(address) => address,
            Err(e) => {
                return Err(e);
            },
        };
        let mut writes: Vec<GuestWrite> = Vec::new();
        writes.push(GuestWrite { address, data: with_nul(cmdline) });
        let next = ImagesPlaced {
            boot: self.boot,
            regions: self.regions,
            entry_point,
            placed,
            cmdline_size: (cmdline.len() + 1) as u32,
            writes,
        };
        assert(next@.writes =~= seq![(self@.boot.cmdline_start, cmdline@.push(0u8))]);
        Ok(next)
    }
}

impl ImagesPlaced {
    /// Makes the boot-parameter block of the chosen protocol.
    pub fn write_boot_params(self) -> (next: BootParamsWritten)
        ensures
            next@ == with_boot_params(self@),
    {
        proof {
            use_type_invariant(&self);
        }
        let block = match self.entry_point.protocol {
            BootProtocol::LinuxBoot => linux_boot_params(
                &self.boot,
                &self.regions,
                self.cmdline_size,
                self.placed.initrd,
            ),
            BootProtocol::PvhBoot => pvh_start_info(&self.boot, &self.regions, self.placed.initrd),
        };
        let mut writes = self.writes;
        let ghost before = writes@;
        writes.push(GuestWrite { address: GuestAddress(self.boot.boot_params_start), data: block });
        assert(writes_of(writes@) =~= writes_of(before).push(
            (
                self.boot.boot_params_start,
                boot_params_of(
                    self.boot,
                    self.entry_point.protocol,
                    self.regions@,
                    self.cmdline_size,
                    self.placed,
                ),
            ),
        ));
        BootParamsWritten {
            boot: self.boot,
            regions: self.regions,
            entry_point: self.entry_point,
            placed: self.placed,
            cmdline_size: self.cmdline_size,
            writes,
        }
    }
}

impl BootParamsWritten {
    /// Makes the tables that the registers refer to and computes the
    /// registers of the first virtual CPU. The tables come last in what is to
    /// be written: they must be in guest memory before the registers are
    /// loaded.
    pub fn init_registers(self) -> (next: RegistersReady)
        ensures
            next@ == with_registers(self@),
    {
        proof {
            use_type_invariant(&self);
        }
        let mut tables = boot_tables(&self.boot, self.entry_point.protocol);
        let registers = init_registers(&self.boot, self.entry_point);
        let mut writes = self.writes;
        let ghost before = writes@;
        let ghost added = tables@;
        writes.append(&mut tables);
        assert(writes_of(writes@) =~= writes_of(before) + writes_of(added));
        RegistersReady {
            regions: self.regions,
            entry_point: self.entry_point,
            placed: self.placed,
            registers,
            writes,
        }
    }
}

impl RegistersReady {
    /// The planned regions.
    pub fn regions(&self) -> (regions: &Vec<MemoryRegion>)
        ensures
            regions@ == self@.regions,
    {
        &self.regions
    }

    /// Where execution starts, and under which protocol.
    pub fn entry_point(&self) -> (entry_point: EntryPoint)
        ensures
            entry_point == self@.entry_point,
    {
        self.entry_point
    }

    /// Where the images go.
    pub fn placement(&self) -> (placed: ImagePlacement)
        ensures
            placed == self@.placed,
    {
        self.placed
    }

    /// The registers with which the first virtual CPU starts.
    pub fn registers(&self) -> (registers: RegisterFile)
        ensures
            registers == self@.registers,
    {
        self.registers
    }

    /// What is to be written to guest memory, in order, before the registers
    /// are loaded.
    pub fn writes(&self) -> (writes: &Vec<GuestWrite>)
        ensures
            writes_of(writes@) == self@.writes,
    {
        &self.writes
    }

    /// Ends the pass, once the caller has written guest memory and loaded the
    /// registers. `accepted` tells whether the virtualization facility took
    /// the registers.
    ///
    /// Fails with [`Error::RegisterSetupFailure`] exactly when it did not.
    pub fn finish(self, accepted: bool) -> (r: Result<EntryPoint, Error>)
        ensures
            r == (if accepted {
                Ok::<EntryPoint, Error>(self@.entry_point)
            } else {
                Err::<EntryPoint, Error>(Error::RegisterSetupFailure)
            }),
    {
        if accepted {
            Ok(self.entry_point)
        } else {
            Err(Error::RegisterSetupFailure)
        }
    }
}

/// Runs a whole pass: plans the regions, places the images, makes the
/// boot-parameter block and computes the registers.
pub fn configure_system(
    layout: &Layout,
    memory_size: u64,
    kernel: &KernelImage,
    initrd_size: Option<usize>,
    cmdline: &[u8],
) -> (r: Result<RegistersReady, Error>)
    requires
        layout.wf(),
    ensures
        match r {
            Ok(ready) => boot_outcome(
                layout.memory,
                layout.boot,
                memory_size,
                *kernel,
                initrd_size,
                cmdline@,
            ) == Ok::<BootSetup, Error>(ready@),
            Err(e) => boot_outcome(
                layout.memory,
                layout.boot,
                memory_size,
                *kernel,
                initrd_size,
                cmdline@,
            ) == Err::<BootSetup, Error>(e),
        },
{
    let planned = match BootConfigurator::new(layout).plan_regions(memory_size) {
        Ok(planned) => planned,
        Err(e) => {
            return Err(e);
        },
    };
    let placed = match planned.place_images(kernel, initrd_size, cmdline) {
        Ok(placed) => placed,
        Err(e) => {
            return Err(e);
        },
    };
    Ok(placed.write_boot_params().init_registers())
}

/// The writes are those of a pass under the given protocol, by address and
/// length: the command line, the boot-parameter block, the two descriptor
/// tables and, under the Linux boot protocol, the three page tables.
pub open spec fn writes_shaped(
    writes: Seq<(u64, Seq<u8>)>,
    boot: BootLayout,
    protocol: BootProtocol,
    cmdline_len: int,
) -> bool {
    &&& writes.len() == (if protocol == BootProtocol::LinuxBoot {
        7int
    } else {
        4int
    })
    &&& writes[0].0 == boot.cmdline_start && writes[0].1.len() == cmdline_len + 1
    &&& writes[1].0 == boot.boot_params_start && writes[1].1.len() == 0x1000
    &&& writes[2].0 == boot.gdt_start && writes[2].1.len() == 32
    &&& writes[3].0 == boot.idt_start && writes[3].1.len() == 8
    &&& protocol == BootProtocol::LinuxBoot ==> {
        &&& writes[4].0 == boot.page_tables_start && writes[4].1.len() == 8
        &&& writes[5].0 == boot.page_tables_start + 0x1000 && writes[5].1.len() == 8
        &&& writes[6].0 == boot.page_tables_start + 0x2000 && writes[6].1.len() == 0x1000
    }
}

/// The write lies in the range from `low` up to, and without, `high`.
pub open spec fn write_within(write: (u64, Seq<u8>), low: int, high: int) -> bool {
    low <= write.0 && write.0 + write.1.len() <= high
}

/// The two writes share no address.
pub open spec fn writes_apart(a: (u64, Seq<u8>), b: (u64, Seq<u8>)) -> bool {
    a.0 + a.1.len() <= b.0 || b.0 + b.1.len() <= a.0
}

/// What a pass decides has the writes of its protocol.
#[verifier::rlimit(40)]
pub proof fn lemma_writes_shaped(
    layout: Layout,
    memory_size: u64,
    kernel: KernelImage,
    initrd_size: Option<usize>,
    cmdline: Seq<u8>,
)
    requires
        layout.wf(),
        boot_outcome(layout.memory, layout.boot, memory_size, kernel, initrd_size, cmdline).is_ok(),
    ensures
        writes_shaped(
            boot_outcome(
                layout.memory,
                layout.boot,
                memory_size,
                kernel,
                initrd_size,
                cmdline,
            ).unwrap().writes,
            layout.boot,
            protocol_of(kernel).unwrap(),
            cmdline.len() as int,
        ),
        cmdline.len() <= layout.boot.cmdline_max_size,
{
    let boot = layout.boot;
    let regions = planned_regions(layout.memory, memory_size);
    let placed = images_outcome(boot, regions, kernel, initrd_size, cmdline).unwrap();
    let view = with_boot_params(placed_view(boot, regions, kernel, placed, cmdline));
    let protocol = view.entry_point.protocol;
    let tables = boot_tables_of(boot, protocol);
    let writes = view.writes + tables;
    crate::bootparams::lemma_block_len(boot, regions, view.cmdline_size, placed.initrd);
    lemma_tables_shaped(boot, protocol);
    assert(view.writes.len() == 2);
    assert(writes[0] == view.writes[0]);
    assert(writes[1] == view.writes[1]);
    assert(writes[2] == tables[0]);
    assert(writes[3] == tables[1]);
    if protocol == BootProtocol::LinuxBoot {
        assert(writes[4] == tables[2]);
        assert(writes[5] == tables[3]);
        assert(writes[6] == tables[4]);
    }
}

/// The tables of a protocol, by address and length.
proof fn lemma_tables_shaped(boot: BootLayout, protocol: BootProtocol)
    ensures
        ({
            let tables = boot_tables_of(boot, protocol);
            &&& tables.len() == (if protocol == BootProtocol::LinuxBoot {
                5int
            } else {
                2int
            })
            &&& tables[0].0 == boot.gdt_start && tables[0].1.len() == 32
            &&& tables[1].0 == boot.idt_start && tables[1].1.len() == 8
            &&& protocol == BootProtocol::LinuxBoot ==> {
                &&& tables[2].0 == boot.page_tables_start && tables[2].1.len() == 8
                &&& tables[3].0 == (boot.page_tables_start + 0x1000) as u64 && tables[3].1.len()
                    == 8
                &&& tables[4].0 == (boot.page_tables_start + 0x2000) as u64 && tables[4].1.len()
                    == 0x1000
            }
        }),
{
}

/// Writes of the shape of a pass lie between the lowest boot structure and
/// the kernel's load address, and no two of them share an address.
pub proof fn lemma_shaped_writes_apart(
    writes: Seq<(u64, Seq<u8>)>,
    boot: BootLayout,
    protocol: BootProtocol,
    cmdline_len: int,
)
    requires
        boot.wf(),
        0 <= cmdline_len <= boot.cmdline_max_size,
        writes_shaped(writes, boot, protocol, cmdline_len),
    ensures
        forall|i: int|
            0 <= i < writes.len() ==> write_within(
                #[trigger] writes[i],
                boot.gdt_start as int,
                boot.kernel_start as int,
            ),
        forall|i: int, j: int|
            0 <= i < j < writes.len() ==> writes_apart(#[trigger] writes[i], #[trigger] writes[j]),
{
}

/// What a pass writes stays clear of the images and of itself: every write
/// lies in the first region below the kernel's load address, no two writes
/// share an address, the kernel image lies in the first region, and an
/// initial ramdisk starts at or above the end of the kernel image.
pub proof fn lemma_writes_clear_of_images(
    layout: Layout,
    memory_size: u64,
    kernel: KernelImage,
    initrd_size: Option<usize>,
    cmdline: Seq<u8>,
)
    requires
        layout.wf(),
        boot_outcome(layout.memory, layout.boot, memory_size, kernel, initrd_size, cmdline).is_ok(),
    ensures
        ({
            let setup = boot_outcome(
                layout.memory,
                layout.boot,
                memory_size,
                kernel,
                initrd_size,
                cmdline,
            ).unwrap();
            let first = setup.regions[0];
            &&& forall|i: int|
                0 <= i < setup.writes.len() ==> write_within(
                    #[trigger] setup.writes[i],
                    first.start.0 as int,
                    layout.boot.kernel_start as int,
                )
            &&& forall|i: int, j: int|
                0 <= i < j < setup.writes.len() ==> writes_apart(
                    #[trigger] setup.writes[i],
                    #[trigger] setup.writes[j],
                )
            &&& first.start.0 <= layout.boot.kernel_start
            &&& layout.boot.kernel_start + kernel.size <= first.end()
            &&& setup.placed.initrd matches Some(initrd) ==> layout.boot.kernel_start + kernel.size
                <= initrd.address.0
        }),
{
    let setup = boot_outcome(
        layout.memory,
        layout.boot,
        memory_size,
        kernel,
        initrd_size,
        cmdline,
    ).unwrap();
    lemma_writes_shaped(layout, memory_size, kernel, initrd_size, cmdline);
    lemma_shaped_writes_apart(
        setup.writes,
        layout.boot,
        protocol_of(kernel).unwrap(),
        cmdline.len() as int,
    );
    lemma_images_apart(layout, memory_size, kernel.size, initrd_size);
}

/// A kernel image that was placed lies in the first planned region, which
/// starts at or below the lowest boot structure, and an initial ramdisk that
/// was placed with it starts at or above its end.
proof fn lemma_images_apart(
    layout: Layout,
    memory_size: u64,
    kernel_size: u64,
    initrd_size: Option<usize>,
)
    requires
        layout.wf(),
        valid_memory_size(layout.memory, memory_size),
        placement(
            layout.boot,
            planned_regions(layout.memory, memory_size),
            kernel_size,
            initrd_size,
        ).is_ok(),
    ensures
        ({
            let regions = planned_regions(layout.memory, memory_size);
            let placed = placement(layout.boot, regions, kernel_size, initrd_size).unwrap();
            &&& regions[0].start.0 <= layout.boot.gdt_start
            &&& layout.boot.kernel_start + kernel_size <= regions[0].end()
            &&& placed.initrd matches Some(initrd) ==> layout.boot.kernel_start + kernel_size
                <= initrd.address.0
        }),
{
    let boot = layout.boot;
    let regions = planned_regions(layout.memory, memory_size);
    lemma_planned_regions_partition(layout.memory, memory_size);
    if let Some(size) = initrd_size {
        assert(crate::placement::initrd_fits(boot, regions, kernel_size, size));
        match boot.initrd_policy {
            crate::layout::InitrdPolicy::AfterKernel => {
                crate::placement::lemma_align_up(
                    boot.kernel_start + kernel_size,
                    boot.initrd_align as int,
                );
            },
            crate::layout::InitrdPolicy::TopOfMemory => {
                crate::placement::lemma_align_down(
                    regions.last().end() - size,
                    boot.initrd_align as int,
                );
            },
        }
    }
}

} // verus!
