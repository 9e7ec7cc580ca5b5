//! A session for sending ICMP echo requests to several hosts at once and
//! reading back one typed record per host.
//!
//! The packet work is done by an engine behind the [`EchoEngine`] trait; this
//! crate owns everything around it: option encoding, host-name validation,
//! error translation, and the decoding of the engine's per-host records.

pub mod error;
pub mod family;
pub mod item;
pub mod options;
pub mod session;
pub mod wire;

pub use error::{PingError, PingResult};
pub use family::{AddrFamily, FamilyCodes};
pub use item::{Field, PingItem, PingItemView};
pub use session::{EchoEngine, EngineCall, EngineRequest, Ping, PingIter, Request};
pub use options::{OptionSet, PingOption};
pub use wire::ByteOrder;




