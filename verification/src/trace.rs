//! Device traces: the timeline of bus events that a capture produced.

use vstd::prelude::*;

use crate::text::hex_u16;

verus! {

/// The kind of a traced event.
#[derive(Debug, Clone, Copy, PartialEq, Eq, Structural)]
pub enum EventType {
    MmioRead,
    MmioWrite,
}

/// One traced event.
#[derive(Debug, Clone)]
pub struct TraceEvent {
    pub timestamp_ns: u64,
    pub channel: String,
    pub event_type: EventType,
    pub address: u64,
    pub value: Option<u64>,
}

/// A captured trace of one device.
#[derive(Debug, Clone)]
pub struct DeviceTrace {
    pub source: String,
    pub device_name: String,
    pub events: Vec<TraceEvent>,
}

/// The channel name of a bus address: `BUS_` and four lower-case hex digits.
pub open spec fn bus_channel(address: u16) -> Seq<char> {
    "BUS_"@ + hex_u16(address)
}

} // verus!
