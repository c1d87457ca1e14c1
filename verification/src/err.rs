//! Error kinds surfaced by the firmware core.

use vstd::prelude::*;

verus! {

/// Every fault the core distinguishes.
///
/// `BusIo` stands for a peripheral fault, the `Store*` kinds mirror the
/// key/value store's failures, `ProtocolFraming` is an unexpected byte
/// pattern on the command channel and `QueueOverflow` a full render queue.
#[derive(Clone, Copy, Debug, PartialEq, Eq, Structural)]
pub enum FxError {
    BusIo,
    StoreKeyNotFound,
    StoreFull,
    StoreInvalidLength,
    ProtocolFraming,
    QueueOverflow,
}

} // verus!
