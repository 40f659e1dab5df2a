//! The failures that boot configuration and resource allocation can report.
use vstd::prelude::*;

verus! {

/// Every failure is local and deterministic: the same inputs fail the same way.
#[derive(Clone, Copy, Debug, PartialEq, Eq, Structural)]
pub enum Error {
    /// The requested guest memory size is zero, not page aligned, or larger
    /// than the architecture can address.
    InvalidMemorySize,
    /// The kernel image does not fit in the region that holds its load address.
    KernelTooLarge,
    /// The initial ramdisk does not fit in what is left of its target region.
    InitrdTooLarge,
    /// The kernel command line is longer than the layout allows.
    CmdlineTooLarge,
    /// The kernel image supports no boot protocol known here.
    UnsupportedBootProtocol,
    /// The virtualization facility rejected a register write.
    RegisterSetupFailure,
    /// The MMIO address pool or the interrupt line pool is used up.
    ResourceExhausted,
    /// The bytes are not the encoding of any device type known here.
    UnknownDeviceVariant,
}

} // verus!
