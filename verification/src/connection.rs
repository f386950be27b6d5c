//! What a Bluetooth connection reports: its status, and how it fails.

use crate::text::{decimal, display_i32};
use vstd::prelude::*;

verus! {

/// The code with which the Bluetooth shim reports success.
pub const OK: i32 = 0;

/// The code with which the Bluetooth shim reports that it knows no such device.
pub const ERR_DEVICE_NOT_FOUND: i32 = 1;

/// Whether a connection is up.
#[derive(Debug, Clone, Copy, PartialEq, Eq, Structural)]
pub enum ConnectionStatus {
    Connected,
    Disconnected,
}

/// A code of the Bluetooth shim that says that an operation failed.
#[derive(Debug, Clone, Copy, PartialEq, Eq, Structural)]
pub struct IOBluetoothError {
    pub code: i32,
}

impl IOBluetoothError {
    /// The error in words.
    pub fn message(&self) -> (text: String)
        ensures
            text@ == "IOBluetooth error code "@ + decimal(self.code as int),
    {
        "IOBluetooth error code ".to_owned().concat(display_i32(self.code).as_str())
    }
}

/// Why a connection could not be made or used.
#[derive(Debug, Clone, Copy, PartialEq, Eq, Structural)]
pub enum ConnectionError {
    /// There is no such device, or it does not offer the wanted service.
    DeviceNotFound,
    /// Data could not be written.
    WriteError { source: IOBluetoothError },
    /// The shim failed in another way.
    Other { source: IOBluetoothError },
}

/// What a failure code of the shim means while services are listed or a channel is opened.
pub open spec fn failure(code: i32) -> ConnectionError {
    if code == ERR_DEVICE_NOT_FOUND {
        ConnectionError::DeviceNotFound
    } else {
        ConnectionError::Other { source: IOBluetoothError { code } }
    }
}

impl ConnectionError {
    /// The error for a failure code of the shim.
    pub fn from_code(code: i32) -> (error: ConnectionError)
        ensures
            error == failure(code),
            code == 1 ==> error == ConnectionError::DeviceNotFound,
            code != 1 ==> error == (ConnectionError::Other { source: IOBluetoothError { code } }),
    {
        if code == ERR_DEVICE_NOT_FOUND {
            ConnectionError::DeviceNotFound
        } else {
            ConnectionError::Other { source: IOBluetoothError { code } }
        }
    }
}

/// A failure is that the device was not found if and only if the code is the one for that, and any
/// other failure carries its code.
pub proof fn law_failures_carry_their_code(code: i32)
    ensures
        failure(code) is DeviceNotFound <==> code == 1,
        code != 1 ==> failure(code) == (ConnectionError::Other {
            source: IOBluetoothError { code },
        }),
{
}

/// Different codes are different errors: an error tells which code the shim gave.
pub proof fn law_failures_are_told_apart(a: i32, b: i32)
    requires
        failure(a) == failure(b),
    ensures
        a == b,
{
}

} // verus!
