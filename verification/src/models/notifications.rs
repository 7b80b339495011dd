//! Push-notification payloads.
use vstd::prelude::*;

verus! {

/// A device token to register for push notifications.
pub struct DeviceTokenPayload {
    pub token: String,
    pub platform: String,
}

} // verus!
