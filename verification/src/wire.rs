//! The protocol's enumerated fields and error taxonomy: channels, actions,
//! their stable wire names, and the request/response records that travel as
//! one line each.

use vstd::prelude::*;

verus! {

/// A named topic of a request/response exchange with the child tool.
#[derive(Clone, Copy, Debug, PartialEq, Eq, Structural)]
pub enum Channel {
    ProcessControlRequest,
    ProcessControlReply,
    GraphicsRequest,
    GraphicsReply,
    Heartbeat,
    TrickleUp,
    TrickleDown,
    AppStatus,
}

/// How many channels exist; the dedup cache holds one slot per channel.
pub const CHANNEL_COUNT: usize = 8;

impl Channel {
    /// A stable index for each channel, used to key the dedup cache.
    pub open spec fn index_spec(self) -> int {
        match self {
            Channel::ProcessControlRequest => 0,
            Channel::ProcessControlReply => 1,
            Channel::GraphicsRequest => 2,
            Channel::GraphicsReply => 3,
            Channel::Heartbeat => 4,
            Channel::TrickleUp => 5,
            Channel::TrickleDown => 6,
            Channel::AppStatus => 7,
        }
    }

    pub proof fn lemma_index_bounds(c: Channel)
        ensures
            0 <= c.index_spec() < CHANNEL_COUNT,
    {
    }

    /// Each channel has its own slot: distinct channels, distinct indices.
    pub proof fn lemma_index_injective(c1: Channel, c2: Channel)
        requires
            c1 != c2,
        ensures
            c1.index_spec() != c2.index_spec(),
    {
    }

    pub fn index(&self) -> (i: usize)
        ensures
            i as int == self.index_spec(),
            i < CHANNEL_COUNT,
    {
        match self {
            Channel::ProcessControlRequest => 0,
            Channel::ProcessControlReply => 1,
            Channel::GraphicsRequest => 2,
            Channel::GraphicsReply => 3,
            Channel::Heartbeat => 4,
            Channel::TrickleUp => 5,
            Channel::TrickleDown => 6,
            Channel::AppStatus => 7,
        }
    }

    /// The channel's name on the wire, as UTF-8 bytes.
    pub open spec fn wire_name(self) -> Seq<u8> {
        match self {
            Channel::ProcessControlRequest => seq![
                'p' as u8, 'r' as u8, 'o' as u8, 'c' as u8, 'e' as u8, 's' as u8, 's' as u8, '_' as u8, 'c' as u8, 'o' as u8, 'n' as u8, 't' as u8, 'r' as u8,
                'o' as u8, 'l' as u8, '_' as u8, 'r' as u8, 'e' as u8, 'q' as u8, 'u' as u8, 'e' as u8, 's' as u8, 't' as u8,
            ],
            Channel::ProcessControlReply => seq![
                'p' as u8, 'r' as u8, 'o' as u8, 'c' as u8, 'e' as u8, 's' as u8, 's' as u8, '_' as u8, 'c' as u8, 'o' as u8, 'n' as u8, 't' as u8, 'r' as u8,
                'o' as u8, 'l' as u8, '_' as u8, 'r' as u8, 'e' as u8, 'p' as u8, 'l' as u8, 'y' as u8,
            ],
            Channel::GraphicsRequest => seq![
                'g' as u8, 'r' as u8, 'a' as u8, 'p' as u8, 'h' as u8, 'i' as u8, 'c' as u8, 's' as u8, '_' as u8, 'r' as u8, 'e' as u8, 'q' as u8, 'u' as u8,
                'e' as u8, 's' as u8, 't' as u8,
            ],
            Channel::GraphicsReply => seq![
                'g' as u8, 'r' as u8, 'a' as u8, 'p' as u8, 'h' as u8, 'i' as u8, 'c' as u8, 's' as u8, '_' as u8, 'r' as u8, 'e' as u8, 'p' as u8, 'l' as u8,
                'y' as u8,
            ],
            Channel::Heartbeat => seq!['h' as u8, 'e' as u8, 'a' as u8, 'r' as u8, 't' as u8, 'b' as u8, 'e' as u8, 'a' as u8, 't' as u8],
            Channel::TrickleUp => seq![
                't' as u8, 'r' as u8, 'i' as u8, 'c' as u8, 'k' as u8, 'l' as u8, 'e' as u8, '_' as u8, 'u' as u8, 'p' as u8,
            ],
            Channel::TrickleDown => seq![
                't' as u8, 'r' as u8, 'i' as u8, 'c' as u8, 'k' as u8, 'l' as u8, 'e' as u8, '_' as u8, 'd' as u8, 'o' as u8, 'w' as u8, 'n' as u8,
            ],
            Channel::AppStatus => seq![
                'a' as u8, 'p' as u8, 'p' as u8, '_' as u8, 's' as u8, 't' as u8, 'a' as u8, 't' as u8, 'u' as u8, 's' as u8,
            ],
        }
    }

    /// The wire name as owned bytes.
    pub fn wire_name_bytes(&self) -> (r: Vec<u8>)
        ensures
            r@ == self.wire_name(),
    {
        let r: Vec<u8> = match self {
            Channel::ProcessControlRequest => vec![
                'p' as u8, 'r' as u8, 'o' as u8, 'c' as u8, 'e' as u8, 's' as u8, 's' as u8, '_' as u8, 'c' as u8, 'o' as u8, 'n' as u8, 't' as u8, 'r' as u8,
                'o' as u8, 'l' as u8, '_' as u8, 'r' as u8, 'e' as u8, 'q' as u8, 'u' as u8, 'e' as u8, 's' as u8, 't' as u8,
            ],
            Channel::ProcessControlReply => vec![
                'p' as u8, 'r' as u8, 'o' as u8, 'c' as u8, 'e' as u8, 's' as u8, 's' as u8, '_' as u8, 'c' as u8, 'o' as u8, 'n' as u8, 't' as u8, 'r' as u8,
                'o' as u8, 'l' as u8, '_' as u8, 'r' as u8, 'e' as u8, 'p' as u8, 'l' as u8, 'y' as u8,
            ],
            Channel::GraphicsRequest => vec![
                'g' as u8, 'r' as u8, 'a' as u8, 'p' as u8, 'h' as u8, 'i' as u8, 'c' as u8, 's' as u8, '_' as u8, 'r' as u8, 'e' as u8, 'q' as u8, 'u' as u8,
                'e' as u8, 's' as u8, 't' as u8,
            ],
            Channel::GraphicsReply => vec![
                'g' as u8, 'r' as u8, 'a' as u8, 'p' as u8, 'h' as u8, 'i' as u8, 'c' as u8, 's' as u8, '_' as u8, 'r' as u8, 'e' as u8, 'p' as u8, 'l' as u8,
                'y' as u8,
            ],
            Channel::Heartbeat => vec!['h' as u8, 'e' as u8, 'a' as u8, 'r' as u8, 't' as u8, 'b' as u8, 'e' as u8, 'a' as u8, 't' as u8],
            Channel::TrickleUp => vec![
                't' as u8, 'r' as u8, 'i' as u8, 'c' as u8, 'k' as u8, 'l' as u8, 'e' as u8, '_' as u8, 'u' as u8, 'p' as u8,
            ],
            Channel::TrickleDown => vec![
                't' as u8, 'r' as u8, 'i' as u8, 'c' as u8, 'k' as u8, 'l' as u8, 'e' as u8, '_' as u8, 'd' as u8, 'o' as u8, 'w' as u8, 'n' as u8,
            ],
            Channel::AppStatus => vec![
                'a' as u8, 'p' as u8, 'p' as u8, '_' as u8, 's' as u8, 't' as u8, 'a' as u8, 't' as u8, 'u' as u8, 's' as u8,
            ],
        };
        proof {
            assert(r@ =~= self.wire_name());
        }
        r
    }
}

/// The operation requested of the transport for one channel.
#[derive(Clone, Copy, Debug, PartialEq, Eq, Structural)]
pub enum Action {
    View,
    Receive,
    Send,
    Delete,
}

impl Action {
    /// The action's name on the wire, as UTF-8 bytes.
    pub open spec fn wire_name(self) -> Seq<u8> {
        match self {
            Action::View => seq!['v' as u8, 'i' as u8, 'e' as u8, 'w' as u8],
            Action::Receive => seq!['r' as u8, 'e' as u8, 'c' as u8, 'e' as u8, 'i' as u8, 'v' as u8, 'e' as u8],
            Action::Send => seq!['s' as u8, 'e' as u8, 'n' as u8, 'd' as u8],
            Action::Delete => seq!['d' as u8, 'e' as u8, 'l' as u8, 'e' as u8, 't' as u8, 'e' as u8],
        }
    }

    /// The wire name as owned bytes.
    pub fn wire_name_bytes(&self) -> (r: Vec<u8>)
        ensures
            r@ == self.wire_name(),
    {
        let r: Vec<u8> = match self {
            Action::View => vec!['v' as u8, 'i' as u8, 'e' as u8, 'w' as u8],
            Action::Receive => vec!['r' as u8, 'e' as u8, 'c' as u8, 'e' as u8, 'i' as u8, 'v' as u8, 'e' as u8],
            Action::Send => vec!['s' as u8, 'e' as u8, 'n' as u8, 'd' as u8],
            Action::Delete => vec!['d' as u8, 'e' as u8, 'l' as u8, 'e' as u8, 't' as u8, 'e' as u8],
        };
        proof {
            assert(r@ =~= self.wire_name());
        }
        r
    }
}

/// What can go wrong between a request and a decoded reply.
#[derive(Clone, Copy, Debug, PartialEq, Eq, Structural)]
pub enum ManagerError {
    /// No response line could be obtained: the stream closed or reading failed.
    NullError,
    /// A line was obtained but could not be decoded as the expected structure,
    /// in either the primary line encoding or the embedded markup encoding.
    ConvertError,
    /// Reserved for future communication faults; nothing in this core emits it.
    ReadError,
}

/// One outbound request: exactly one such request produces exactly one
/// response, synchronously.
#[derive(Clone, Debug, PartialEq, Eq)]
pub struct ToolRequest {
    pub action: Action,
    pub channel: Channel,
    pub payload: Option<Vec<u8>>,
}

/// One inbound response. Absence of `data` is a valid, meaningful outcome
/// ("nothing new"), not an error.
#[derive(Clone, Debug, PartialEq, Eq)]
pub struct ToolResponse {
    pub ok: Option<bool>,
    pub error_msg: Option<Vec<u8>>,
    pub data: Option<Vec<u8>>,
}

/// The mathematical shape of a response: the same three fields with byte
/// strings abstracted to sequences.
pub struct ResponseModel {
    pub ok: Option<bool>,
    pub error_msg: Option<Seq<u8>>,
    pub data: Option<Seq<u8>>,
}

impl ToolResponse {
    pub open spec fn model(self) -> ResponseModel {
        ResponseModel {
            ok: self.ok,
            error_msg: match self.error_msg {
                Some(v) => Some(v@),
                None => None,
            },
            data: match self.data {
                Some(v) => Some(v@),
                None => None,
            },
        }
    }
}

} // verus!
