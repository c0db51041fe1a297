//! The message envelope: a closed tagged union over the payload kinds that
//! cross the bus, with checked conversion back to each concrete kind.

use vstd::prelude::*;
use crate::irc_parser::Message;
use crate::irc_parser::MessageView;

verus! {

/// Why a bus operation failed.
#[derive(Debug, Clone, Copy, PartialEq, Eq, Structural)]
pub enum BusError {
    /// A non-suspending lookup found no entity under the name.
    NotFound,
    /// The envelope's tag does not match the requested payload type.
    TypeMismatch,
    /// A broadcast receiver fell behind and lost messages.
    Lagged,
    /// Every counterpart sender or receiver is gone.
    Closed,
}

/// Mathematical value of an envelope: the payload together with its tag.
#[verifier::ext_equal]
pub ghost enum EnvelopeView {
    Text(Seq<char>),
    Irc(MessageView),
}

/// The closed set of payload kinds the bus carries. Recovering a payload is a
/// checked operation that fails on every tag but the matching one.
#[derive(Debug)]
pub enum BusMessageTypeEnum {
    String(String),
    IrcMessage(Message),
}

impl View for BusMessageTypeEnum {
    type V = EnvelopeView;

    open spec fn view(&self) -> EnvelopeView {
        match self {
            BusMessageTypeEnum::String(s) => EnvelopeView::Text(s@),
            BusMessageTypeEnum::IrcMessage(m) => EnvelopeView::Irc(m@),
        }
    }
}

impl Clone for BusMessageTypeEnum {
    fn clone(&self) -> (res: Self)
        ensures
            res@ == self@,
    {
        match self {
            BusMessageTypeEnum::String(s) => BusMessageTypeEnum::String(s.clone()),
            BusMessageTypeEnum::IrcMessage(m) => BusMessageTypeEnum::IrcMessage(m.clone()),
        }
    }
}

/// A payload type the bus can carry: wrapping it in an envelope is total and
/// keeps the payload's value.
pub trait BusMessageTrait: Sized {
    /// The envelope value that wrapping this payload produces.
    spec fn bus_view(self) -> EnvelopeView;

    /// Wraps the payload; always succeeds.
    fn as_bus_message(self) -> (e: BusMessageTypeEnum)
        ensures
            e@ == self.bus_view(),
    ;
}

impl BusMessageTrait for String {
    open spec fn bus_view(self) -> EnvelopeView {
        EnvelopeView::Text(self@)
    }

    fn as_bus_message(self) -> (e: BusMessageTypeEnum) {
        BusMessageTypeEnum::String(self)
    }
}

impl BusMessageTrait for Message {
    open spec fn bus_view(self) -> EnvelopeView {
        EnvelopeView::Irc(self@)
    }

    fn as_bus_message(self) -> (e: BusMessageTypeEnum) {
        BusMessageTypeEnum::IrcMessage(self)
    }
}

impl From<String> for BusMessageTypeEnum {
    fn from(s: String) -> (r: BusMessageTypeEnum) {
        BusMessageTypeEnum::String(s)
    }
}

impl vstd::std_specs::convert::FromSpecImpl<String> for BusMessageTypeEnum {
    open spec fn obeys_from_spec() -> bool {
        true
    }

    open spec fn from_spec(s: String) -> BusMessageTypeEnum {
        BusMessageTypeEnum::String(s)
    }
}

impl From<Message> for BusMessageTypeEnum {
    fn from(m: Message) -> (r: BusMessageTypeEnum) {
        BusMessageTypeEnum::IrcMessage(m)
    }
}

impl vstd::std_specs::convert::FromSpecImpl<Message> for BusMessageTypeEnum {
    open spec fn obeys_from_spec() -> bool {
        true
    }

    open spec fn from_spec(m: Message) -> BusMessageTypeEnum {
        BusMessageTypeEnum::IrcMessage(m)
    }
}

/// Unwrapping an envelope at the text tag: the payload under the matching tag,
/// `TypeMismatch` under every other.
pub open spec fn unwrap_text(e: EnvelopeView) -> Result<Seq<char>, BusError> {
    match e {
        EnvelopeView::Text(s) => Ok(s),
        _ => Err(BusError::TypeMismatch),
    }
}

/// Unwrapping an envelope at the protocol-message tag.
pub open spec fn unwrap_irc(e: EnvelopeView) -> Result<MessageView, BusError> {
    match e {
        EnvelopeView::Irc(m) => Ok(m),
        _ => Err(BusError::TypeMismatch),
    }
}

impl BusMessageTypeEnum {
    /// The text payload, by value, if this envelope holds one; `TypeMismatch`
    /// otherwise.
    pub fn try_into_string(self) -> (r: Result<String, BusError>)
        ensures
            match self {
                BusMessageTypeEnum::String(s) => r == Ok::<String, BusError>(s),
                _ => r == Err::<String, BusError>(BusError::TypeMismatch),
            },
            match r {
                Ok(s) => unwrap_text(self@) == Ok::<Seq<char>, BusError>(s@),
                Err(e) => unwrap_text(self@) == Err::<Seq<char>, BusError>(e),
            },
    {
        match self {
            BusMessageTypeEnum::String(s) => Ok(s),
            _ => Err(BusError::TypeMismatch),
        }
    }

    /// The protocol-message payload, by value, if this envelope holds one;
    /// `TypeMismatch` otherwise.
    pub fn try_into_irc_message(self) -> (r: Result<Message, BusError>)
        ensures
            match self {
                BusMessageTypeEnum::IrcMessage(m) => r == Ok::<Message, BusError>(m),
                _ => r == Err::<Message, BusError>(BusError::TypeMismatch),
            },
            match r {
                Ok(m) => unwrap_irc(self@) == Ok::<MessageView, BusError>(m@),
                Err(e) => unwrap_irc(self@) == Err::<MessageView, BusError>(e),
            },
    {
        match self {
            BusMessageTypeEnum::IrcMessage(m) => Ok(m),
            _ => Err(BusError::TypeMismatch),
        }
    }
}

/// Round trip: unwrapping a wrapped text payload gives the payload back,
/// for every payload value.
pub proof fn lemma_wrap_unwrap_text(s: Seq<char>)
    ensures
        unwrap_text(EnvelopeView::Text(s)) == Ok::<Seq<char>, BusError>(s),
{
}

/// Round trip: unwrapping a wrapped protocol message gives the message back,
/// for every message value.
pub proof fn lemma_wrap_unwrap_irc(m: MessageView)
    ensures
        unwrap_irc(EnvelopeView::Irc(m)) == Ok::<MessageView, BusError>(m),
{
}

/// Type safety: unwrapping at the text tag fails with `TypeMismatch`, and with
/// nothing else, on every envelope that does not hold text.
pub proof fn lemma_unwrap_text_mismatch(e: EnvelopeView)
    requires
        !(e is Text),
    ensures
        unwrap_text(e) == Err::<Seq<char>, BusError>(BusError::TypeMismatch),
{
}

/// Type safety: unwrapping at the protocol-message tag fails with
/// `TypeMismatch`, and with nothing else, on every envelope that does not hold
/// a protocol message.
pub proof fn lemma_unwrap_irc_mismatch(e: EnvelopeView)
    requires
        !(e is Irc),
    ensures
        unwrap_irc(e) == Err::<MessageView, BusError>(BusError::TypeMismatch),
{
}

} // verus!
