//! Server-side model of a Bluetooth Low Energy GATT application as the BlueZ
//! daemon expects to find it on the bus: value buffers with offset reads and
//! writes, object paths for services, characteristics and descriptors, the
//! property snapshot of each node, and the index of everything registered.

pub mod advertisement;
pub mod application;
pub mod characteristic;
pub mod decimal;
pub mod descriptor;
pub mod device;
pub mod error;
pub mod flags;
pub mod ident;
pub mod path;
pub mod property;
pub mod service;
pub mod text;
pub mod tree;
pub mod value;
