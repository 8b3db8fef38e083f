//! What a chassis connection computes before it talks to the driver.

use vstd::prelude::*;

verus! {

/// Number of devices that a device mask has a bit for.
pub const MASKED_DEVICES: u8 = 32;

/// The mask that selects device `device` alone: bit `device`, if the mask
/// has such a bit.
pub fn device_mask(device: u8) -> (mask: Option<u32>)
    ensures
        mask is Some <==> device < MASKED_DEVICES,
        mask matches Some(m) ==> m == 1u32 << (device as u32),
{
    if device < MASKED_DEVICES {
        let shift = device as u32;
        Some(1u32 << shift)
    } else {
        None
    }
}

/// The mask of one device has exactly that device's bit set, so the masks
/// of two devices never overlap.
pub proof fn lemma_device_masks_are_disjoint(one: u8, other: u8)
    requires
        one < MASKED_DEVICES,
        other < MASKED_DEVICES,
        one != other,
    ensures
        (1u32 << (one as u32)) != 0,
        (1u32 << (one as u32)) & (1u32 << (other as u32)) == 0,
{
    let a = one as u32;
    let b = other as u32;
    assert((1u32 << a) != 0 && (1u32 << a) & (1u32 << b) == 0) by (bit_vector)
        requires
            a < 32,
            b < 32,
            a != b,
    ;
}

/// Whether a device has to be switched to configuration mode before it is
/// set up: it has to when its firmware status shows the operation bit.
pub fn needs_config_mode(firmware_status: u32, operation_mode: u32) -> (needed: bool)
    ensures
        needed == (firmware_status & operation_mode != 0),
{
    firmware_status & operation_mode != 0
}

} // verus!
