//! The device type registry: the binary encoding under which a device type is
//! kept in a snapshot.
//!
//! A device type is written as its tag, a 32-bit little-endian number, followed
//! by the fields of the variant, each a 32-bit little-endian number. Tags are
//! handed out in declaration order and never reused, so bytes written by an
//! earlier revision of the registry keep their meaning. A tag that this
//! revision does not know is reported as [`Error::UnknownDeviceVariant`].
use crate::bytes::le_bytes;
use crate::bytes::le_value;
use crate::bytes::lemma_le_round_trip;
use crate::bytes::push_u32;
use crate::bytes::read_u32;
use crate::DeviceType;
use crate::Error;
use vstd::prelude::*;

verus! {

impl DeviceType {
    /// The tag that stands for the variant on the wire.
    pub open spec fn tag(self) -> u32 {
        match self {
            DeviceType::Virtio(_) => 0,
            DeviceType::Serial => 1,
            DeviceType::Rtc => 2,
            DeviceType::BootTimer => 3,
        }
    }

    /// The encoding of a device type: its tag, then its fields.
    pub open spec fn wire(self) -> Seq<u8> {
        match self {
            DeviceType::Virtio(id) => le_bytes(0) + le_bytes(id),
            _ => le_bytes(self.tag()),
        }
    }

    /// Encodes the device type. The same value always gives the same bytes.
    pub fn encode(&self) -> (bytes: Vec<u8>)
        ensures
            bytes@ == self.wire(),
    {
        let mut bytes: Vec<u8> = Vec::new();
        match self {
            DeviceType::Virtio(id) => {
                push_u32(&mut bytes, 0);
                push_u32(&mut bytes, *id);
            },
            DeviceType::Serial => {
                push_u32(&mut bytes, 1);
            },
            DeviceType::Rtc => {
                push_u32(&mut bytes, 2);
            },
            DeviceType::BootTimer => {
                push_u32(&mut bytes, 3);
            },
        }
        bytes
    }

    /// Decodes a device type. Succeeds exactly on the encodings of the device
    /// types known here, and gives back the value that was encoded; any other
    /// byte sequence, such as one that a later revision wrote for a variant
    /// added since, is reported as unknown.
    pub fn decode(bytes: &[u8]) -> (r: Result<DeviceType, Error>)
        ensures
            forall|d: DeviceType| bytes@ == #[trigger] d.wire() ==> r == Ok::<DeviceType, Error>(d),
            r matches Ok(d) ==> bytes@ == d.wire(),
            r matches Err(e) ==> e == Error::UnknownDeviceVariant,
    {
        proof {
            assert forall|d: DeviceType| bytes@ == #[trigger] d.wire() implies (bytes@.len() == 4
                || bytes@.len() == 8) && le_value(bytes@) == d.tag() && (d matches DeviceType::Virtio(
                id,
            ) ==> bytes@.len() == 8 && le_value(bytes@.subrange(4, 8)) == id) && (
            d !is Virtio ==> bytes@.len() == 4) by {
                lemma_le_round_trip(d.tag(), bytes@);
                if let DeviceType::Virtio(id) = d {
                    lemma_le_round_trip(id, bytes@);
                    assert(bytes@.subrange(4, 8) =~= le_bytes(id));
                }
            }
        }
        if bytes.len() == 4 {
            let tag = read_u32(bytes, 0);
            proof {
                lemma_le_round_trip(0, bytes@);
                assert(bytes@.subrange(0, 4) =~= bytes@);
            }
            if tag == 1 {
                Ok(DeviceType::Serial)
            } else if tag == 2 {
                Ok(DeviceType::Rtc)
            } else if tag == 3 {
                Ok(DeviceType::BootTimer)
            } else {
                Err(Error::UnknownDeviceVariant)
            }
        } else if bytes.len() == 8 {
            let tag = read_u32(bytes, 0);
            let id = read_u32(bytes, 4);
            proof {
                lemma_le_round_trip(0, bytes@.subrange(0, 4));
                lemma_le_round_trip(0, bytes@.subrange(4, 8));
                assert(le_value(bytes@.subrange(0, 4)) == le_value(bytes@));
            }
            if tag == 0 {
                assert(bytes@ =~= le_bytes(0) + le_bytes(id));
                Ok(DeviceType::Virtio(id))
            } else {
                Err(Error::UnknownDeviceVariant)
            }
        } else {
            Err(Error::UnknownDeviceVariant)
        }
    }
}

/// Two device types with the same encoding are the same device type.
pub proof fn lemma_wire_injective(a: DeviceType, b: DeviceType)
    requires
        a.wire() == b.wire(),
    ensures
        a == b,
{
    lemma_le_round_trip(a.tag(), a.wire());
    lemma_le_round_trip(b.tag(), a.wire());
    if let DeviceType::Virtio(x) = a {
        if let DeviceType::Virtio(y) = b {
            lemma_le_round_trip(x, a.wire());
            lemma_le_round_trip(y, a.wire());
            assert(a.wire().subrange(4, 8) =~= le_bytes(x));
            assert(b.wire().subrange(4, 8) =~= le_bytes(y));
        }
    }
}

} // verus!
