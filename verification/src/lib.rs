//! Device selection and RFCOMM connection logic for headphones that are reached over Bluetooth.

pub mod bytes;
pub mod channels;
pub mod connection;
pub mod device_selection;
pub mod devices;
pub mod mac_address;
pub mod platform;
pub mod rfcomm;
pub mod services;
pub mod text;

pub use channels::SendOutcome;
pub use connection::{ConnectionError, ConnectionStatus, IOBluetoothError, ERR_DEVICE_NOT_FOUND, OK};
pub use device_selection::{
    Action, DeviceRow, DeviceSelectionModel, Labels, Message, PairedDevice, Refresh, SelectionView,
    StatusLabel,
};
pub use devices::{ConnectionDescriptor, DeviceReport, DeviceSet};
pub use mac_address::{MacAddress, MacSet};
pub use platform::{
    run_with_main_run_loop, PlatformConnectionBackends, RunLoopAction, RunLoopEvent,
};
pub use rfcomm::{
    CallbackContext, IOBluetoothRfcommBackend, IOBluetoothRfcommConnection, OpenRequest,
    PendingConnection, WriteRequest, PACKET_QUEUE_LIMIT,
};
pub use services::{RfcommServiceSelectionStrategy, RfcommServices, ServiceReport};
