//! Messages that travel between actors.
use crate::octets;
use crate::protocol::{ActrId, ActrIdView};
use bytes::Bytes;
use vstd::prelude::*;

verus! {

/// An inbound request.
#[derive(Debug)]
pub struct RpcEnvelope {
    pub request_id: String,
    pub route_key: String,
    pub payload: Option<Bytes>,
}

/// Contents of an [`RpcEnvelope`].
pub struct RpcEnvelopeView {
    pub request_id: Seq<char>,
    pub route_key: Seq<char>,
    pub payload: Option<Seq<u8>>,
}

impl View for RpcEnvelope {
    type V = RpcEnvelopeView;

    open spec fn view(&self) -> RpcEnvelopeView {
        RpcEnvelopeView {
            request_id: self.request_id@,
            route_key: self.route_key@,
            payload: match self.payload {
                Some(b) => Some(octets::content(b)),
                None => None,
            },
        }
    }
}

/// One entry of a chunk's metadata.
#[derive(Debug)]
pub struct MetadataEntry {
    pub key: String,
    pub value: String,
}

impl View for MetadataEntry {
    type V = (Seq<char>, Seq<char>);

    open spec fn view(&self) -> (Seq<char>, Seq<char>) {
        (self.key@, self.value@)
    }
}

/// A chunk of a stream.
#[derive(Debug)]
pub struct DataChunk {
    pub stream_id: String,
    pub sequence: u64,
    pub payload: Bytes,
    pub metadata: Vec<MetadataEntry>,
    pub timestamp_ms: Option<i64>,
}

/// Contents of a [`DataChunk`].
pub struct DataChunkView {
    pub stream_id: Seq<char>,
    pub sequence: u64,
    pub payload: Seq<u8>,
    pub metadata: Seq<(Seq<char>, Seq<char>)>,
    pub timestamp_ms: Option<i64>,
}

impl View for DataChunk {
    type V = DataChunkView;

    open spec fn view(&self) -> DataChunkView {
        DataChunkView {
            stream_id: self.stream_id@,
            sequence: self.sequence,
            payload: octets::content(self.payload),
            metadata: Seq::new(self.metadata@.len(), |i: int| self.metadata@[i]@),
            timestamp_ms: self.timestamp_ms,
        }
    }
}

/// How a payload is carried.
#[derive(Debug, Clone, Copy, PartialEq, Eq, Structural)]
pub enum PayloadType {
    RpcReliable,
    RpcSignal,
    StreamReliable,
    StreamLatencyFirst,
    MediaRtp,
}

/// Where a message goes.
#[derive(Debug)]
pub enum Dest {
    /// The host itself.
    Host,
    /// The workload beside the sender.
    Workload,
    /// Another actor.
    Peer(ActrId),
}

/// Contents of a [`Dest`].
pub enum DestView {
    Host,
    Workload,
    Peer(ActrIdView),
}

impl View for Dest {
    type V = DestView;

    open spec fn view(&self) -> DestView {
        match *self {
            Dest::Host => DestView::Host,
            Dest::Workload => DestView::Workload,
            Dest::Peer(id) => DestView::Peer(id@),
        }
    }
}

/// What a guest may ask about the call that it serves.
#[derive(Debug)]
pub struct InvocationContext {
    pub self_id: ActrId,
    pub caller_id: Option<ActrId>,
    pub request_id: String,
}

} // verus!
