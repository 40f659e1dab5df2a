use arch::allocator::Allocation;
use arch::allocator::MmioWindow;
use arch::allocator::ResourceAllocator;
use arch::layout::DevicePool;
use arch::layout::Layout;
use arch::DeviceType;
use arch::Error;
use arch::GuestAddress;

fn window(start: u64) -> MmioWindow {
    MmioWindow { start: GuestAddress(start), size: 0x1000 }
}

fn small_pool(reserved: Vec<u32>) -> DevicePool {
    DevicePool {
        mmio_mem_start: 0x4000_0000,
        mmio_mem_size: 0x1_0000,
        mmio_slot_size: 0x1000,
        irq_base: 5,
        irq_max: 9,
        reserved_irqs: reserved,
    }
}

#[test]
fn first_devices_get_the_first_windows_and_lines() {
    let mut allocator = ResourceAllocator::new(Layout::x86_64().devices);
    assert_eq!(
        allocator.allocate(DeviceType::Virtio(0)),
        Ok(Allocation { device: DeviceType::Virtio(0), window: window(0xE000_0000), irq: Some(5) })
    );
    assert_eq!(
        allocator.allocate(DeviceType::Virtio(1)),
        Ok(Allocation { device: DeviceType::Virtio(1), window: window(0xE000_1000), irq: Some(6) })
    );
    assert_eq!(
        allocator.allocate(DeviceType::Serial),
        Ok(Allocation { device: DeviceType::Serial, window: window(0xE000_2000), irq: Some(7) })
    );
    assert_eq!(
        allocator.allocate(DeviceType::Rtc),
        Ok(Allocation { device: DeviceType::Rtc, window: window(0xE000_3000), irq: Some(8) })
    );
}

#[test]
fn the_boot_timer_gets_a_window_and_no_line() {
    let mut allocator = ResourceAllocator::new(Layout::x86_64().devices);
    assert_eq!(
        allocator.allocate(DeviceType::BootTimer),
        Ok(Allocation { device: DeviceType::BootTimer, window: window(0xE000_0000), irq: None })
    );
    assert_eq!(
        allocator.allocate(DeviceType::Virtio(0)),
        Ok(Allocation { device: DeviceType::Virtio(0), window: window(0xE000_1000), irq: Some(5) })
    );
}

#[test]
fn windows_and_lines_are_disjoint_and_ascending() {
    let mut allocator = ResourceAllocator::new(Layout::x86_64().devices);
    let mut got: Vec<Allocation> = Vec::new();
    for id in 0..19u32 {
        got.push(allocator.allocate(DeviceType::Virtio(id)).unwrap());
    }
    for i in 0..got.len() {
        assert_eq!(got[i].window.start.0, 0xE000_0000 + 0x1000 * i as u64);
        assert_eq!(got[i].irq, Some(5 + i as u32));
        for j in (i + 1)..got.len() {
            assert!(got[i].window.start.0 + got[i].window.size <= got[j].window.start.0);
            assert!(got[i].irq.unwrap() < got[j].irq.unwrap());
        }
    }
    assert_eq!(allocator.bindings(), &got);
}

#[test]
fn the_line_pool_runs_out_after_its_size() {
    let pool = Layout::x86_64().devices;
    let pool_size = pool.irq_max - pool.irq_base + 1;
    assert_eq!(pool_size, 19);
    let mut allocator = ResourceAllocator::new(pool);
    for id in 0..pool_size {
        assert!(allocator.allocate(DeviceType::Virtio(id)).is_ok());
    }
    assert_eq!(allocator.allocate(DeviceType::Virtio(99)), Err(Error::ResourceExhausted));
    assert_eq!(allocator.allocate(DeviceType::Serial), Err(Error::ResourceExhausted));
    assert_eq!(allocator.bindings().len(), 19);
    assert_eq!(
        allocator.allocate(DeviceType::BootTimer),
        Ok(Allocation { device: DeviceType::BootTimer, window: window(0xE001_3000), irq: None })
    );
}

#[test]
fn reserved_lines_are_left_out() {
    let pool = small_pool(vec![6, 8]);
    assert!(pool.is_valid());
    assert!(pool.is_reserved(6));
    assert!(pool.is_reserved(8));
    assert!(!pool.is_reserved(7));
    let mut allocator = ResourceAllocator::new(pool);
    assert_eq!(allocator.allocate(DeviceType::Virtio(0)).unwrap().irq, Some(5));
    assert_eq!(allocator.allocate(DeviceType::Virtio(1)).unwrap().irq, Some(7));
    assert_eq!(allocator.allocate(DeviceType::Virtio(2)).unwrap().irq, Some(9));
    assert_eq!(allocator.allocate(DeviceType::Virtio(3)), Err(Error::ResourceExhausted));
    assert_eq!(allocator.bindings().len(), 3);
}

#[test]
fn reserved_lines_at_the_ends_of_the_pool() {
    let mut allocator = ResourceAllocator::new(small_pool(vec![5, 9, 9, 100, 0]));
    assert_eq!(allocator.allocate(DeviceType::Virtio(0)).unwrap().irq, Some(6));
    assert_eq!(allocator.allocate(DeviceType::Virtio(1)).unwrap().irq, Some(7));
    assert_eq!(allocator.allocate(DeviceType::Virtio(2)).unwrap().irq, Some(8));
    assert_eq!(allocator.allocate(DeviceType::Virtio(3)), Err(Error::ResourceExhausted));
}

#[test]
fn a_pool_with_every_line_reserved() {
    let mut allocator = ResourceAllocator::new(small_pool(vec![5, 6, 7, 8, 9]));
    assert_eq!(allocator.allocate(DeviceType::Virtio(0)), Err(Error::ResourceExhausted));
    assert!(allocator.allocate(DeviceType::BootTimer).is_ok());
}

#[test]
fn the_mmio_range_runs_out() {
    let mut pool = small_pool(Vec::new());
    pool.mmio_mem_size = 0x2800;
    pool.irq_max = 100;
    let mut allocator = ResourceAllocator::new(pool);
    assert_eq!(
        allocator.allocate(DeviceType::Virtio(0)).unwrap().window,
        MmioWindow { start: GuestAddress(0x4000_0000), size: 0x1000 }
    );
    assert_eq!(
        allocator.allocate(DeviceType::BootTimer).unwrap().window,
        MmioWindow { start: GuestAddress(0x4000_1000), size: 0x1000 }
    );
    assert_eq!(allocator.allocate(DeviceType::Virtio(1)), Err(Error::ResourceExhausted));
    assert_eq!(allocator.allocate(DeviceType::BootTimer), Err(Error::ResourceExhausted));
    assert_eq!(allocator.bindings().len(), 2);
}

#[test]
fn a_failed_request_leaves_the_allocator_as_it_was() {
    let mut allocator = ResourceAllocator::new(small_pool(vec![6, 7, 8, 9]));
    assert_eq!(allocator.allocate(DeviceType::Virtio(0)).unwrap().irq, Some(5));
    let before = allocator.bindings().clone();
    assert_eq!(allocator.allocate(DeviceType::Virtio(1)), Err(Error::ResourceExhausted));
    assert_eq!(allocator.bindings(), &before);
    assert_eq!(
        allocator.allocate(DeviceType::BootTimer).unwrap().window.start,
        GuestAddress(0x4000_1000)
    );
}

#[test]
fn release_all_starts_over() {
    let mut allocator = ResourceAllocator::new(Layout::x86_64().devices);
    let first = allocator.allocate(DeviceType::Virtio(0)).unwrap();
    let second = allocator.allocate(DeviceType::Virtio(1)).unwrap();
    allocator.release_all();
    assert!(allocator.bindings().is_empty());
    assert_eq!(allocator.allocate(DeviceType::Virtio(0)), Ok(first));
    assert_eq!(allocator.allocate(DeviceType::Virtio(1)), Ok(second));
}

#[test]
fn the_same_requests_get_the_same_resources() {
    let requests = vec![
        DeviceType::Virtio(3),
        DeviceType::BootTimer,
        DeviceType::Serial,
        DeviceType::Virtio(1),
        DeviceType::Rtc,
    ];
    let mut one = ResourceAllocator::new(small_pool(vec![7]));
    let mut two = ResourceAllocator::new(small_pool(vec![7]));
    for device in &requests {
        assert_eq!(one.allocate(*device), two.allocate(*device));
    }
    assert_eq!(one.bindings(), two.bindings());
    let lines: Vec<Option<u32>> = one.bindings().iter().map(|a| a.irq).collect();
    assert_eq!(lines, vec![Some(5), None, Some(6), Some(8), Some(9)]);
}

#[test]
fn pool_validity() {
    assert!(Layout::x86_64().devices.is_valid());
    let mut pool = small_pool(Vec::new());
    pool.mmio_slot_size = 0;
    assert!(!pool.is_valid());
    let mut pool = small_pool(Vec::new());
    pool.irq_base = 10;
    assert!(!pool.is_valid());
    let mut pool = small_pool(Vec::new());
    pool.mmio_mem_start = u64::MAX;
    assert!(!pool.is_valid());
}

#[test]
fn a_device_is_found_by_its_type() {
    let mut allocator = ResourceAllocator::new(Layout::x86_64().devices);
    assert_eq!(allocator.binding_of(DeviceType::Virtio(0)), None);
    let timer = allocator.allocate(DeviceType::BootTimer).unwrap();
    let first = allocator.allocate(DeviceType::Virtio(7)).unwrap();
    let second = allocator.allocate(DeviceType::Virtio(8)).unwrap();
    let again = allocator.allocate(DeviceType::Virtio(7)).unwrap();
    assert_ne!(first, again);
    assert_eq!(allocator.binding_of(DeviceType::BootTimer), Some(timer));
    assert_eq!(allocator.binding_of(DeviceType::Virtio(7)), Some(first));
    assert_eq!(allocator.binding_of(DeviceType::Virtio(8)), Some(second));
    assert_eq!(allocator.binding_of(DeviceType::Virtio(9)), None);
    assert_eq!(allocator.binding_of(DeviceType::Serial), None);
    allocator.release_all();
    assert_eq!(allocator.binding_of(DeviceType::Virtio(7)), None);
}
