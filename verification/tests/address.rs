use arch::GuestAddress;
use vm_memory::Address;

#[test]
fn checked_add_adds() {
    assert_eq!(GuestAddress(5).checked_add(7), Some(GuestAddress(12)));
    assert_eq!(GuestAddress(0).checked_add(0), Some(GuestAddress(0)));
    assert_eq!(GuestAddress(0x1000).checked_add(0), Some(GuestAddress(0x1000)));
    assert_eq!(
        GuestAddress(u64::MAX - 1).checked_add(1),
        Some(GuestAddress(u64::MAX))
    );
}

#[test]
fn checked_add_refuses_to_wrap() {
    assert_eq!(GuestAddress(u64::MAX).checked_add(1), None);
    assert_eq!(GuestAddress(1).checked_add(u64::MAX), None);
    assert_eq!(GuestAddress(u64::MAX).checked_add(u64::MAX), None);
}

#[test]
fn checked_add_agrees_with_vm_memory() {
    let cases: Vec<(u64, u64)> = vec![
        (0, 0),
        (5, 7),
        (0x10_0000, 0x80_0000),
        (u64::MAX, 0),
        (u64::MAX, 1),
        (u64::MAX / 2 + 1, u64::MAX / 2 + 1),
    ];
    for (base, offset) in cases {
        let ours = GuestAddress(base).checked_add(offset).map(|a| a.raw_value());
        let theirs = vm_memory::GuestAddress(base)
            .checked_add(offset)
            .map(|a| a.raw_value());
        assert_eq!(ours, theirs);
    }
}

#[test]
fn new_and_raw_value() {
    assert_eq!(GuestAddress::new(42).raw_value(), 42);
    assert_eq!(GuestAddress::new(42), GuestAddress(42));
    assert_eq!(arch::PAGE_SIZE, 4096);
}
