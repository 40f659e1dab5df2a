//! Platform boot and memory-layout support for a microVM: guest memory
//! planning, image placement, device resource allocation and the device type
//! registry.
use vstd::prelude::*;

pub mod address;
pub mod allocator;
pub mod boot;
pub mod bootparams;
pub mod bytes;
pub mod error;
pub mod layout;
pub mod memory;
pub mod placement;
pub mod registry;
pub mod regs;

pub use address::GuestAddress;
pub use boot::configure_system;
pub use error::Error;
pub use layout::CMDLINE_MAX_SIZE;
pub use layout::IRQ_BASE;
pub use layout::IRQ_MAX;
pub use layout::MMIO_MEM_SIZE;
pub use layout::MMIO_MEM_START;
pub use memory::arch_memory_regions;
pub use placement::get_kernel_start;
pub use placement::initrd_load_addr;

verus! {

/// Default (smallest) memory page size for the supported architectures.
pub const PAGE_SIZE: usize = 4096;

/// Types of devices that can get attached to this platform.
#[derive(Clone, Copy, Debug, PartialEq, Eq, Hash, Structural)]
pub enum DeviceType {
    /// Device Type: Virtio.
    Virtio(u32),
    /// Device Type: Serial.
    Serial,
    /// Device Type: RTC.
    Rtc,
    /// Device Type: BootTimer.
    BootTimer,
}

/// Type for passing information about the initrd in the guest memory.
#[derive(Clone, Copy, Debug, PartialEq, Eq, Structural)]
pub struct InitrdConfig {
    /// Load address of initrd in guest memory
    pub address: GuestAddress,
    /// Size of initrd in guest memory
    pub size: usize,
}

/// Supported boot protocols.
#[derive(Clone, Copy, Debug, PartialEq, Eq, Structural)]
pub enum BootProtocol {
    /// Linux 64-bit boot protocol
    LinuxBoot,
    /// PVH boot protocol (x86/HVM direct boot ABI)
    PvhBoot,
}

/// Specifies the entry point address where the guest must start
/// executing code, as well as which boot protocol is to be used
/// to configure the guest initial state.
#[derive(Clone, Copy, Debug, PartialEq, Eq, Structural)]
pub struct EntryPoint {
    /// Address in guest memory where the guest must start execution
    pub entry_addr: GuestAddress,
    /// Specifies which boot protocol to use
    pub protocol: BootProtocol,
}

/// The character of a decimal digit.
pub open spec fn digit_char(digit: int) -> char {
    if digit == 0 {
        '0'
    } else if digit == 1 {
        '1'
    } else if digit == 2 {
        '2'
    } else if digit == 3 {
        '3'
    } else if digit == 4 {
        '4'
    } else if digit == 5 {
        '5'
    } else if digit == 6 {
        '6'
    } else if digit == 7 {
        '7'
    } else if digit == 8 {
        '8'
    } else {
        '9'
    }
}

/// The decimal digits of a number, without leading zeros.
pub open spec fn decimal_text(n: nat) -> Seq<char>
    decreases n,
{
    if n < 10 {
        seq![digit_char(n as int)]
    } else {
        decimal_text(n / 10).push(digit_char((n % 10) as int))
    }
}

/// Appends the decimal digits of a number.
fn append_decimal(text: &mut String, n: u32)
    ensures
        final(text)@ == old(text)@ + decimal_text(n as nat),
    decreases n,
{
    if n >= 10 {
        append_decimal(text, n / 10);
    }
    let digit: u32 = n % 10;
    proof {
        reveal_strlit("0");
        reveal_strlit("1");
        reveal_strlit("2");
        reveal_strlit("3");
        reveal_strlit("4");
        reveal_strlit("5");
        reveal_strlit("6");
        reveal_strlit("7");
        reveal_strlit("8");
        reveal_strlit("9");
    }
    let literal: &str = if digit == 0 {
        "0"
    } else if digit == 1 {
        "1"
    } else if digit == 2 {
        "2"
    } else if digit == 3 {
        "3"
    } else if digit == 4 {
        "4"
    } else if digit == 5 {
        "5"
    } else if digit == 6 {
        "6"
    } else if digit == 7 {
        "7"
    } else if digit == 8 {
        "8"
    } else {
        "9"
    };
    assert(literal@ =~= seq![digit_char(digit as int)]);
    text.append(literal);
    assert(text@ =~= old(text)@ + decimal_text(n as nat));
}

impl DeviceType {
    /// The device type as text: the name of the variant, followed for a
    /// virtio device by its number in parentheses.
    pub open spec fn text(self) -> Seq<char> {
        match self {
            DeviceType::Virtio(id) => "Virtio("@ + decimal_text(id as nat) + ")"@,
            DeviceType::Serial => "Serial"@,
            DeviceType::Rtc => "Rtc"@,
            DeviceType::BootTimer => "BootTimer"@,
        }
    }

    /// Writes the device type as text.
    pub fn to_string(&self) -> (text: String)
        ensures
            text@ == self.text(),
    {
        match self {
            DeviceType::Virtio(id) => {
                let mut text = String::from_str("Virtio(");
                append_decimal(&mut text, *id);
                text.append(")");
                text
            },
            DeviceType::Serial => String::from_str("Serial"),
            DeviceType::Rtc => String::from_str("Rtc"),
            DeviceType::BootTimer => String::from_str("BootTimer"),
        }
    }
}

impl BootProtocol {
    /// The name of the protocol.
    pub open spec fn text(self) -> Seq<char> {
        match self {
            BootProtocol::LinuxBoot => "Linux 64-bit boot protocol"@,
            BootProtocol::PvhBoot => "PVH boot protocol"@,
        }
    }

    /// Writes the name of the protocol.
    pub fn to_string(&self) -> (text: String)
        ensures
            text@ == self.text(),
    {
        match self {
            BootProtocol::LinuxBoot => String::from_str("Linux 64-bit boot protocol"),
            BootProtocol::PvhBoot => String::from_str("PVH boot protocol"),
        }
    }
}

} // verus!
