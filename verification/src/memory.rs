//! The memory layout planner: from a requested amount of guest memory to the
//! regions of guest-physical addresses that hold it.
use crate::address::GuestAddress;
use crate::error::Error;
use crate::layout::Layout;
use crate::layout::MemoryMap;
use vstd::prelude::*;

verus! {

/// A range of guest-physical addresses backed by memory.
#[derive(Clone, Copy, Debug, PartialEq, Eq, Structural)]
pub struct MemoryRegion {
    /// The first address of the region.
    pub start: GuestAddress,
    /// The length of the region in bytes.
    pub size: u64,
}

impl MemoryRegion {
    /// The first address past the region.
    pub open spec fn end(&self) -> int {
        self.start.0 + self.size
    }

    /// The region and the range `[start, start + len)` share an address.
    pub open spec fn overlaps(&self, start: int, len: int) -> bool {
        self.start.0 < start + len && start < self.end() && 0 < len && 0 < self.size
    }
}

/// The sizes that the planner accepts: positive, a whole number of pages, and
/// within what the architecture can address.
pub open spec fn valid_memory_size(map: MemoryMap, size: u64) -> bool {
    size > 0 && size % map.page_size == 0 && size <= map.max_size
}

/// Memory of this size, laid out from the start of memory, would run into the
/// reserved hole. Memory that ends exactly where the hole begins does not.
pub open spec fn reaches_hole(map: MemoryMap, size: u64) -> bool {
    map.has_hole() && map.ram_start + size > map.hole_start
}

/// The regions that hold `size` bytes of guest memory: one region from the
/// start of memory, or, where that would run into the reserved hole, one up to
/// the hole and one from its end with the rest.
pub open spec fn planned_regions(map: MemoryMap, size: u64) -> Seq<MemoryRegion> {
    if reaches_hole(map, size) {
        seq![
            MemoryRegion {
                start: GuestAddress(map.ram_start),
                size: (map.hole_start - map.ram_start) as u64,
            },
            MemoryRegion {
                start: GuestAddress(map.hole_end() as u64),
                size: (size - (map.hole_start - map.ram_start)) as u64,
            },
        ]
    } else {
        seq![MemoryRegion { start: GuestAddress(map.ram_start), size }]
    }
}

/// The regions are not empty, end inside the address space, and come in
/// ascending order without sharing an address.
pub open spec fn regions_ordered(regions: Seq<MemoryRegion>) -> bool {
    &&& forall|i: int|
        0 <= i < regions.len() ==> (#[trigger] regions[i]).size > 0 && regions[i].end()
            <= u64::MAX
    &&& forall|i: int, j: int|
        0 <= i < j < regions.len() ==> (#[trigger] regions[i]).end() <= (
        #[trigger] regions[j]).start.0
}

/// The number of bytes in all the regions together.
pub open spec fn total_size(regions: Seq<MemoryRegion>) -> int
    decreases regions.len(),
{
    if regions.len() == 0 {
        0
    } else {
        total_size(regions.drop_last()) + regions.last().size
    }
}

/// Plans the regions of guest memory for a requested size.
///
/// Fails with [`Error::InvalidMemorySize`] exactly when the size is zero, not a
/// whole number of pages, or above the architecture's maximum.
pub fn arch_memory_regions(map: &MemoryMap, size: u64) -> (r: Result<Vec<MemoryRegion>, Error>)
    requires
        map.wf(),
    ensures
        match r {
            Ok(regions) => valid_memory_size(*map, size) && regions@ == planned_regions(
                *map,
                size,
            ),
            Err(e) => e == Error::InvalidMemorySize && !valid_memory_size(*map, size),
        },
{
    if size == 0 || size % map.page_size != 0 || size > map.max_size {
        return Err(Error::InvalidMemorySize);
    }
    let mut regions: Vec<MemoryRegion> = Vec::new();
    if map.hole_size > 0 && size > map.hole_start - map.ram_start {
        let below: u64 = map.hole_start - map.ram_start;
        regions.push(MemoryRegion { start: GuestAddress(map.ram_start), size: below });
        regions.push(
            MemoryRegion {
                start: GuestAddress(map.hole_start + map.hole_size),
                size: size - below,
            },
        );
    } else {
        regions.push(MemoryRegion { start: GuestAddress(map.ram_start), size });
    }
    assert(regions@ =~= planned_regions(*map, size));
    Ok(regions)
}

/// The planned regions of an accepted size are in ascending order and share no
/// address, hold exactly the requested number of bytes, and stay clear of the
/// reserved hole.
pub proof fn lemma_planned_regions_partition(map: MemoryMap, size: u64)
    requires
        map.wf(),
        valid_memory_size(map, size),
    ensures
        regions_ordered(planned_regions(map, size)),
        total_size(planned_regions(map, size)) == size,
        1 <= planned_regions(map, size).len() <= 2,
        planned_regions(map, size).len() == 2 <==> reaches_hole(map, size),
        forall|i: int|
            0 <= i < planned_regions(map, size).len() ==> !(#[trigger] planned_regions(
                map,
                size,
            )[i]).overlaps(map.hole_start as int, map.hole_size as int),
{
    let regions = planned_regions(map, size);
    if regions.len() == 2 {
        assert(regions.drop_last() =~= seq![regions[0]]);
        assert(regions.drop_last().drop_last() =~= Seq::<MemoryRegion>::empty());
        assert(total_size(regions.drop_last().drop_last()) == 0);
        assert(total_size(regions.drop_last()) == regions[0].size);
    } else {
        assert(regions.drop_last() =~= Seq::<MemoryRegion>::empty());
        assert(total_size(regions.drop_last()) == 0);
    }
}

/// The planned regions of an accepted size share no address with the MMIO
/// range.
pub proof fn lemma_planned_regions_clear_of_mmio(layout: Layout, size: u64)
    requires
        layout.wf(),
        valid_memory_size(layout.memory, size),
    ensures
        forall|i: int|
            0 <= i < planned_regions(layout.memory, size).len() ==> !(#[trigger] planned_regions(
                layout.memory,
                size,
            )[i]).overlaps(
                layout.devices.mmio_mem_start as int,
                layout.devices.mmio_mem_size as int,
            ),
{
    lemma_planned_regions_partition(layout.memory, size);
}

} // verus!
