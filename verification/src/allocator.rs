//! The MMIO and interrupt allocator: hands each attached device a window of
//! the MMIO range and, where the device raises interrupts, an interrupt line.
//!
//! Windows are handed out in ascending address order and lines in ascending
//! order, leaving out the lines that the platform keeps for itself. Nothing is
//! handed out twice and nothing is taken back before everything is released,
//! so the same sequence of attachments always gets the same resources.
use crate::address::GuestAddress;
use crate::error::Error;
use crate::layout::DevicePool;
use crate::DeviceType;
use vstd::prelude::*;

verus! {

/// A range of guest-physical addresses that belongs to one device.
#[derive(Clone, Copy, Debug, PartialEq, Eq, Structural)]
pub struct MmioWindow {
    /// The first address of the window.
    pub start: GuestAddress,
    /// The length of the window in bytes.
    pub size: u64,
}

impl MmioWindow {
    /// The first address past the window.
    pub open spec fn end(&self) -> int {
        self.start.0 + self.size
    }
}

/// What one device was given.
#[derive(Clone, Copy, Debug, PartialEq, Eq, Structural)]
pub struct Allocation {
    /// The device that holds the resources.
    pub device: DeviceType,
    /// The device's window of the MMIO range.
    pub window: MmioWindow,
    /// The device's interrupt line, if it raises interrupts.
    pub irq: Option<u32>,
}

/// Devices of this type raise interrupts: all but the boot timer.
pub open spec fn needs_irq(device: DeviceType) -> bool {
    device !is BootTimer
}

/// The window with the given number, counted from 0 at the start of the MMIO
/// range.
pub open spec fn window_at(pool: DevicePool, index: int) -> MmioWindow {
    MmioWindow {
        start: GuestAddress((pool.mmio_mem_start + index * pool.mmio_slot_size) as u64),
        size: pool.mmio_slot_size,
    }
}

/// The lowest free line that is not below `from`; one past the highest line
/// of the pool if there is none.
pub open spec fn next_free(pool: DevicePool, from: int) -> int
    decreases pool.irq_max + 1 - from,
{
    if from > pool.irq_max {
        pool.irq_max + 1
    } else if pool.is_free(from) {
        from
    } else {
        next_free(pool, from + 1)
    }
}

/// The number of free lines below `bound`.
pub open spec fn free_lines_below(pool: DevicePool, bound: int) -> nat
    decreases bound - pool.irq_base,
{
    if bound <= pool.irq_base {
        0
    } else if pool.is_free(bound - 1) {
        free_lines_below(pool, bound - 1) + 1
    } else {
        free_lines_below(pool, bound - 1)
    }
}

/// The number of lines of the pool below `bound` that the platform keeps.
pub open spec fn reserved_lines_below(pool: DevicePool, bound: int) -> nat
    decreases bound - pool.irq_base,
{
    if bound <= pool.irq_base {
        0
    } else if pool.reserved_irqs@.contains((bound - 1) as u32) {
        reserved_lines_below(pool, bound - 1) + 1
    } else {
        reserved_lines_below(pool, bound - 1)
    }
}

/// The number of lines that devices can get.
pub open spec fn pool_size(pool: DevicePool) -> nat {
    free_lines_below(pool, pool.irq_max + 1)
}

/// The number of allocations that hold an interrupt line.
pub open spec fn lines_held(allocations: Seq<Allocation>) -> nat
    decreases allocations.len(),
{
    if allocations.len() == 0 {
        0
    } else if allocations.last().irq.is_some() {
        lines_held(allocations.drop_last()) + 1
    } else {
        lines_held(allocations.drop_last())
    }
}

/// The first allocation that the device holds, if it holds one.
pub open spec fn first_binding(allocations: Seq<Allocation>, device: DeviceType) -> Option<
    Allocation,
>
    decreases allocations.len(),
{
    if allocations.len() == 0 {
        None
    } else {
        match first_binding(allocations.drop_last(), device) {
            Some(found) => Some(found),
            None => if allocations.last().device == device {
                Some(allocations.last())
            } else {
                None
            },
        }
    }
}

/// The allocator of one guest.
pub struct ResourceAllocator {
    pool: DevicePool,
    allocations: Vec<Allocation>,
    next_window: u64,
    next_irq: u64,
}

impl ResourceAllocator {
    /// The pool that the allocator draws from.
    pub closed spec fn pool(&self) -> DevicePool {
        self.pool
    }

    /// What was handed out so far, in the order of the requests.
    pub closed spec fn allocations(&self) -> Seq<Allocation> {
        self.allocations@
    }

    /// The line from which the search for the next free line starts.
    pub closed spec fn next_irq(&self) -> int {
        self.next_irq as int
    }

    /// The window that the next device would get lies inside the MMIO range.
    pub open spec fn window_available(&self) -> bool {
        (self.allocations().len() + 1) * self.pool().mmio_slot_size <= self.pool().mmio_mem_size
    }

    /// A free line is left.
    pub open spec fn irq_available(&self) -> bool {
        next_free(self.pool(), self.next_irq()) <= self.pool().irq_max
    }

    /// The pools can serve a device of this type.
    pub open spec fn can_allocate(&self, device: DeviceType) -> bool {
        self.window_available() && (needs_irq(device) ==> self.irq_available())
    }

    /// What a device of this type would be given next.
    pub open spec fn next_allocation(&self, device: DeviceType) -> Allocation {
        Allocation {
            device,
            window: window_at(self.pool(), self.allocations().len() as int),
            irq: if needs_irq(device) {
                Some(next_free(self.pool(), self.next_irq()) as u32)
            } else {
                None
            },
        }
    }

    /// The state that every allocator is in: the i-th allocation holds the
    /// i-th window, which lies inside the MMIO range; exactly the devices that
    /// raise interrupts hold a line; every line held is a free line of the
    /// pool below the search position, a later allocation holds a higher
    /// line, and no free line below the search position was left out.
    pub open spec fn wf(&self) -> bool {
        let pool = self.pool();
        let allocations = self.allocations();
        &&& pool.wf()
        &&& pool.irq_base <= self.next_irq() <= pool.irq_max + 1
        &&& allocations.len() * pool.mmio_slot_size <= pool.mmio_mem_size
        &&& forall|i: int|
            0 <= i < allocations.len() ==> (#[trigger] allocations[i]).window == window_at(pool, i)
                && (allocations[i].irq.is_some() <==> needs_irq(allocations[i].device))
        &&& forall|i: int|
            0 <= i < allocations.len() ==> ((#[trigger] allocations[i]).irq matches Some(line)
                ==> pool.is_free(line as int) && line < self.next_irq())
        &&& forall|i: int, j: int|
            0 <= i < j < allocations.len() ==> ((#[trigger] allocations[i]).irq matches Some(
                low,
            ) ==> ((#[trigger] allocations[j]).irq matches Some(high) ==> low < high))
        &&& lines_held(allocations) == free_lines_below(pool, self.next_irq())
        &&& self.cursor_at_next_window()
    }

    /// The running address that the allocator keeps is the start of the next
    /// window.
    pub closed spec fn cursor_at_next_window(&self) -> bool {
        self.next_window == self.pool.mmio_mem_start + self.allocations@.len()
            * self.pool.mmio_slot_size
    }

    /// An allocator that has handed out nothing yet.
    pub fn new(pool: DevicePool) -> (allocator: ResourceAllocator)
        requires
            pool.wf(),
        ensures
            allocator.wf(),
            allocator.pool() == pool,
            allocator.allocations() == Seq::<Allocation>::empty(),
            allocator.next_irq() == pool.irq_base,
    {
        let next_window = pool.mmio_mem_start;
        let next_irq = pool.irq_base as u64;
        let allocator = ResourceAllocator {
            pool,
            allocations: Vec::new(),
            next_window,
            next_irq,
        };
        assert(allocator.allocations@.len() * allocator.pool.mmio_slot_size == 0) by (nonlinear_arith)
            requires
                allocator.allocations@.len() == 0,
        ;
        allocator
    }

    /// Gives a device its window and, if it raises interrupts, its line.
    ///
    /// Fails with [`Error::ResourceExhausted`] exactly when no window is left
    /// in the MMIO range, or the device raises interrupts and no free line is
    /// left; the allocator is then unchanged.
    pub fn allocate(&mut self, device: DeviceType) -> (r: Result<Allocation, Error>)
        requires
            old(self).wf(),
        ensures
            final(self).wf(),
            final(self).pool() == old(self).pool(),
            match r {
                Ok(allocation) => {
                    &&& old(self).can_allocate(device)
                    &&& allocation == old(self).next_allocation(device)
                    &&& final(self).allocations() == old(self).allocations().push(allocation)
                    &&& final(self).next_irq() == (if needs_irq(device) {
                        next_free(old(self).pool(), old(self).next_irq()) + 1
                    } else {
                        old(self).next_irq()
                    })
                },
                Err(e) => {
                    &&& e == Error::ResourceExhausted
                    &&& !old(self).can_allocate(device)
                    &&& final(self).allocations() == old(self).allocations()
                    &&& final(self).next_irq() == old(self).next_irq()
                },
            },
    {
        let count = self.allocations.len();
        let slot = self.pool.mmio_slot_size;
        let range_end: u64 = self.pool.mmio_mem_start + self.pool.mmio_mem_size;
        proof {
            lemma_next_slot(count as int, slot as int);
        }
        if slot > range_end - self.next_window {
            return Err(Error::ResourceExhausted);
        }
        let wants_line = match device {
            DeviceType::BootTimer => false,
            _ => true,
        };
        let mut line: u64 = self.next_irq;
        if wants_line {
            while line <= self.pool.irq_max as u64 && self.pool.is_reserved(line as u32)
                invariant
                    self.pool.wf(),
                    self.next_irq <= line <= self.pool.irq_max + 1,
                    self.pool.irq_base <= self.next_irq,
                    next_free(self.pool, line as int) == next_free(self.pool, self.next_irq as int),
                    free_lines_below(self.pool, line as int) == free_lines_below(
                        self.pool,
                        self.next_irq as int,
                    ),
                    forall|l: int| self.next_irq <= l < line ==> !self.pool.is_free(l),
                decreases self.pool.irq_max + 1 - line,
            {
                line += 1;
            }
            if line > self.pool.irq_max as u64 {
                return Err(Error::ResourceExhausted);
            }
        }
        let allocation = Allocation {
            device,
            window: MmioWindow { start: GuestAddress(self.next_window), size: slot },
            irq: if wants_line {
                Some(line as u32)
            } else {
                None
            },
        };
        proof {
            let before = self.allocations@;
            let after = before.push(allocation);
            assert(after.drop_last() =~= before);
            assert forall|i: int| 0 <= i < after.len() implies (#[trigger] after[i]).window
                == window_at(self.pool, i) && (after[i].irq.is_some() <==> needs_irq(
                after[i].device,
            )) by {
                if i < before.len() {
                    assert(after[i] == before[i]);
                }
            }
            assert forall|i: int| 0 <= i < after.len() implies ((#[trigger] after[i]).irq matches Some(
                l,
            ) ==> self.pool.is_free(l as int) && l < (if wants_line {
                line + 1
            } else {
                self.next_irq as int
            })) by {
                if i < before.len() {
                    assert(after[i] == before[i]);
                }
            }
            assert forall|i: int, j: int| 0 <= i < j < after.len() implies ((
            #[trigger] after[i]).irq matches Some(low) ==> ((#[trigger] after[j]).irq matches Some(
                high,
            ) ==> low < high)) by {
                assert(after[i] == before[i]);
                if j < before.len() {
                    assert(after[j] == before[j]);
                }
            }
        }
        self.allocations.push(allocation);
        self.next_window = self.next_window + slot;
        if wants_line {
            self.next_irq = line + 1;
        }
        Ok(allocation)
    }

    /// Gives everything back: the allocator is as it was when it was made.
    pub fn release_all(&mut self)
        requires
            old(self).wf(),
        ensures
            final(self).wf(),
            final(self).pool() == old(self).pool(),
            final(self).allocations() == Seq::<Allocation>::empty(),
            final(self).next_irq() == old(self).pool().irq_base,
    {
        self.allocations.clear();
        self.next_window = self.pool.mmio_mem_start;
        self.next_irq = self.pool.irq_base as u64;
        assert(self.allocations@.len() * self.pool.mmio_slot_size == 0) by (nonlinear_arith)
            requires
                self.allocations@.len() == 0,
        ;
    }

    /// What the device was given: its first allocation, if it has one.
    pub fn binding_of(&self, device: DeviceType) -> (found: Option<Allocation>)
        ensures
            found == first_binding(self.allocations(), device),
    {
        let mut i: usize = 0;
        assert(self.allocations@.subrange(0, 0) =~= Seq::<Allocation>::empty());
        while i < self.allocations.len()
            invariant
                i <= self.allocations@.len(),
                first_binding(self.allocations@.subrange(0, i as int), device).is_none(),
            decreases self.allocations@.len() - i,
        {
            let ghost longer = self.allocations@.subrange(0, i + 1);
            assert(longer.drop_last() =~= self.allocations@.subrange(0, i as int));
            if self.allocations[i].device == device {
                proof {
                    lemma_first_binding_stays(self.allocations@, device, i + 1);
                }
                return Some(self.allocations[i]);
            }
            i += 1;
        }
        assert(self.allocations@.subrange(0, i as int) =~= self.allocations@);
        None
    }

    /// What was handed out so far, in the order of the requests.
    pub fn bindings(&self) -> (bindings: &Vec<Allocation>)
        ensures
            bindings@ == self.allocations(),
    {
        &self.allocations
    }
}

/// Two allocations never share an address: the earlier one's window ends at
/// or below the start of the later one's, and both lie inside the MMIO range.
pub proof fn lemma_windows_disjoint(allocator: ResourceAllocator, i: int, j: int)
    requires
        allocator.wf(),
        0 <= i < j < allocator.allocations().len(),
    ensures
        allocator.allocations()[i].window.end() <= allocator.allocations()[j].window.start.0,
        allocator.pool().mmio_mem_start <= allocator.allocations()[i].window.start.0,
        allocator.allocations()[j].window.end() <= allocator.pool().mmio_mem_end(),
{
    let slot = allocator.pool().mmio_slot_size as int;
    let count = allocator.allocations().len() as int;
    assert(allocator.allocations()[i].window == window_at(allocator.pool(), i));
    assert(allocator.allocations()[j].window == window_at(allocator.pool(), j));
    assert(0 <= i * slot && i * slot + slot <= j * slot && j * slot + slot <= count * slot)
        by (nonlinear_arith)
        requires
            0 <= i < j < count,
            slot > 0,
    ;
}

/// Two allocations never share an interrupt line: of two that hold one, the
/// later holds the higher, and both lines are free lines of the pool.
pub proof fn lemma_irqs_ascending(allocator: ResourceAllocator, i: int, j: int)
    requires
        allocator.wf(),
        0 <= i < j < allocator.allocations().len(),
        allocator.allocations()[i].irq.is_some(),
        allocator.allocations()[j].irq.is_some(),
    ensures
        allocator.allocations()[i].irq.unwrap() < allocator.allocations()[j].irq.unwrap(),
        allocator.pool().is_free(allocator.allocations()[i].irq.unwrap() as int),
        allocator.pool().is_free(allocator.allocations()[j].irq.unwrap() as int),
{
}

/// No line between `from` and the next free line is free, so the number of
/// free lines below both is the same.
pub proof fn lemma_next_free(pool: DevicePool, from: int)
    requires
        pool.irq_base <= from <= pool.irq_max + 1,
    ensures
        from <= next_free(pool, from) <= pool.irq_max + 1,
        next_free(pool, from) <= pool.irq_max ==> pool.is_free(next_free(pool, from)),
        free_lines_below(pool, next_free(pool, from)) == free_lines_below(pool, from),
    decreases pool.irq_max + 1 - from,
{
    if from <= pool.irq_max && !pool.is_free(from) {
        lemma_next_free(pool, from + 1);
    }
}

/// The pool holds as many free lines as it has lines, less those that the
/// platform keeps.
pub proof fn lemma_pool_size(pool: DevicePool)
    requires
        pool.wf(),
    ensures
        pool_size(pool) + reserved_lines_below(pool, pool.irq_max + 1) == pool.irq_max
            - pool.irq_base + 1,
{
    lemma_lines_below(pool, pool.irq_max + 1);
}

/// Of the lines of the pool below `bound`, each is free or kept.
proof fn lemma_lines_below(pool: DevicePool, bound: int)
    requires
        pool.irq_base <= bound <= pool.irq_max + 1,
    ensures
        free_lines_below(pool, bound) + reserved_lines_below(pool, bound) == bound
            - pool.irq_base,
    decreases bound - pool.irq_base,
{
    if bound > pool.irq_base {
        lemma_lines_below(pool, bound - 1);
    }
}

/// The allocator never holds more lines than the pool has, and once no free
/// line is left it holds them all: devices that raise interrupts can be
/// attached until as many hold a line as the pool has free lines, and the next
/// one is refused.
pub proof fn lemma_pool_exhausted(allocator: ResourceAllocator)
    requires
        allocator.wf(),
    ensures
        lines_held(allocator.allocations()) <= pool_size(allocator.pool()),
        !allocator.irq_available() <==> lines_held(allocator.allocations()) == pool_size(
            allocator.pool(),
        ),
{
    let pool = allocator.pool();
    lemma_next_free(pool, allocator.next_irq());
    lemma_free_lines_monotonic(pool, allocator.next_irq(), pool.irq_max + 1);
    let next = next_free(pool, allocator.next_irq());
    if next <= pool.irq_max {
        lemma_free_lines_monotonic(pool, next + 1, pool.irq_max + 1);
    }
}

/// A higher bound has at least as many free lines below it.
proof fn lemma_free_lines_monotonic(pool: DevicePool, low: int, high: int)
    requires
        low <= high,
    ensures
        free_lines_below(pool, low) <= free_lines_below(pool, high),
    decreases high - low,
{
    if low < high {
        lemma_free_lines_monotonic(pool, low, high - 1);
    }
}

/// A binding found among the first `n` allocations is the binding among all.
proof fn lemma_first_binding_stays(allocations: Seq<Allocation>, device: DeviceType, n: int)
    requires
        0 <= n <= allocations.len(),
        first_binding(allocations.subrange(0, n), device).is_some(),
    ensures
        first_binding(allocations, device) == first_binding(allocations.subrange(0, n), device),
    decreases allocations.len() - n,
{
    if n < allocations.len() {
        let longer = allocations.subrange(0, n + 1);
        assert(longer.drop_last() =~= allocations.subrange(0, n));
        lemma_first_binding_stays(allocations, device, n + 1);
    } else {
        assert(allocations.subrange(0, n) =~= allocations);
    }
}

/// `(count + 1) * slot` is `count * slot + slot`.
proof fn lemma_next_slot(count: int, slot: int)
    ensures
        (count + 1) * slot == count * slot + slot,
{
    assert((count + 1) * slot == count * slot + slot) by (nonlinear_arith);
}

} // verus!
