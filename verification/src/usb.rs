//! USB presence of the probe. This build has no USB enumeration, so no
//! device is ever reported present.

use vstd::prelude::*;

verus! {

/// Whether a USB device with this vendor and product id is present. Without
/// USB enumeration in the build it never claims one.
pub fn usb_device_present(vid: u16, pid: u16) -> (present: bool)
    ensures
        !present,
{
    false
}

} // verus!
