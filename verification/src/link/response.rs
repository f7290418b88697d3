//! The sensor's responses as messages of the serial bus.
use vstd::prelude::*;
use crate::link::bus_message::BusMessage;
use crate::link::convertion::{decode_response, encode_data, is_object_complete};
use crate::link::event::Event;
use crate::link::messages_enums;
use crate::link::wire::{
    WireField, WireMessage, frame_buffer_bytes, wire_frame, wire_payload,
};

verus! {

/// The largest frame of a response: its longest postcard payload and the framing.
pub const MAX_RESPONSE_SIZE: usize = Response::POSTCARD_MAX_SIZE + 2;

/// A response sent back by the sensor over the bus.
#[derive(Debug, PartialEq, Eq, Structural, Clone, Copy)]
pub enum Response {
    /// The request was carried out (named `Ok` in the wire protocol's description).
    Ack,
    Error,
    Eventinfo(Event),
    CurrentTime(u64),
}

impl Response {
    /// The longest postcard payload of a response.
    pub const POSTCARD_MAX_SIZE: usize = 11;
}

/// The same response as a link message.
pub open spec fn as_message(r: Response) -> messages_enums::Response {
    match r {
        Response::Ack => messages_enums::Response::Ack,
        Response::Error => messages_enums::Response::Error,
        Response::Eventinfo(e) => messages_enums::Response::Eventinfo(e),
        Response::CurrentTime(t) => messages_enums::Response::CurrentTime(t),
    }
}

/// The same response as a bus message.
pub open spec fn from_message(r: messages_enums::Response) -> Response {
    match r {
        messages_enums::Response::Ack => Response::Ack,
        messages_enums::Response::Error => Response::Error,
        messages_enums::Response::Eventinfo(e) => Response::Eventinfo(e),
        messages_enums::Response::CurrentTime(t) => Response::CurrentTime(t),
    }
}

impl Response {
    fn to_message(self) -> (r: messages_enums::Response)
        ensures
            r == as_message(self),
    {
        match self {
            Response::Ack => messages_enums::Response::Ack,
            Response::Error => messages_enums::Response::Error,
            Response::Eventinfo(e) => messages_enums::Response::Eventinfo(e),
            Response::CurrentTime(t) => messages_enums::Response::CurrentTime(t),
        }
    }

    fn from_message(r: messages_enums::Response) -> (s: Self)
        ensures
            s == from_message(r),
    {
        match r {
            messages_enums::Response::Ack => Response::Ack,
            messages_enums::Response::Error => Response::Error,
            messages_enums::Response::Eventinfo(e) => Response::Eventinfo(e),
            messages_enums::Response::CurrentTime(t) => Response::CurrentTime(t),
        }
    }
}

impl WireMessage for Response {
    open spec fn wire_fields(&self) -> Seq<WireField> {
        as_message(*self).wire_fields()
    }

    open spec fn parse_wire(payload: Seq<u8>) -> Option<Self> {
        match messages_enums::Response::parse_wire(payload) {
            Some(m) => Some(from_message(m)),
            None => None,
        }
    }

    fn fields(&self) -> (r: Vec<WireField>) {
        self.to_message().fields()
    }

    fn parse(payload: &[u8]) -> (r: Option<Self>) {
        let r = match messages_enums::Response::parse(payload) {
            Some(m) => Some(Self::from_message(m)),
            None => None,
        };
        proof {
            assert forall|m: Self| payload@ == wire_payload(#[trigger] m.wire_fields()) implies r
                == Some(m) by {
                assert(payload@ == wire_payload(as_message(m).wire_fields()));
            }
        }
        r
    }

    open spec fn postcard_max_size() -> nat {
        Response::POSTCARD_MAX_SIZE as nat
    }

    proof fn lemma_fields_size(&self) {
        as_message(*self).lemma_fields_size();
    }
}

impl BusMessage<MAX_RESPONSE_SIZE> for Response {
    fn is_message_complete(data: &[u8]) -> (r: bool) {
        let n = data.len();
        if n == 0 {
            false
        } else {
            data[n - 1] == 0x00u8
        }
    }

    fn decode(data: &mut [u8]) -> (r: Option<Self>) {
        let ghost before = data@;
        let r = match decode_response(data) {
            Some(m) => Some(Self::from_message(m)),
            None => None,
        };
        proof {
            assert forall|m: Self|
                before == #[trigger] wire_frame(m.wire_fields()) && wire_payload(
                    m.wire_fields(),
                ).len() <= 253 implies r == Some(m) by {
                assert(before == wire_frame(as_message(m).wire_fields()));
            }
        }
        r
    }

    fn decode_request_if_complete(data: &mut [u8]) -> (r: Option<Self>) {
        if is_object_complete(data) {
            Self::decode(data)
        } else {
            None
        }
    }

    fn encode_message(&self) -> (r: Result<heapless::Vec<u8, MAX_RESPONSE_SIZE>, ()>)
        ensures
            r is Ok,
            r matches Ok(v) ==> frame_buffer_bytes(v) == wire_frame(self.wire_fields()),
    {
        encode_data(self.to_message())
    }
}

/// A bus response is written as the link response of the same variant: `Ok` (here
/// `Ack`) as `[1, 1, 0]`, `Error` as `[2, 1, 0]`, an event and a time behind the places
/// 2 and 3.
pub proof fn lemma_bus_response_wire_format()
    ensures
        wire_frame(Response::Ack.wire_fields()) == seq![1u8, 1u8, 0u8],
        wire_frame(Response::Error.wire_fields()) == seq![2u8, 1u8, 0u8],
        forall|e: Event|
            #[trigger] Response::Eventinfo(e).wire_fields()
                == messages_enums::Response::Eventinfo(e).wire_fields(),
        forall|t: u64|
            #[trigger] Response::CurrentTime(t).wire_fields()
                == messages_enums::Response::CurrentTime(t).wire_fields(),
{
    messages_enums::lemma_link_response_wire_format();
}

} // verus!
