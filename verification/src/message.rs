//! Normalized messages and their classification.
//!
//! The upstream normalizer turns each incoming or outgoing event into a
//! `ProcessedMessage` carrying a structured kind tag. Classification decides
//! from that tag — never from the rendered text — whether the message is user
//! content worth embedding or protocol noise to skip.

use vstd::prelude::*;

verus! {

/// Whether a message was sent by us or received from the other side.
#[derive(Clone, Copy, Debug)]
pub enum Direction {
    To,
    From,
}

impl Direction {
    /// The direction as the store records it.
    pub fn to_string(&self) -> (r: String)
        ensures
            r@ == direction_text(*self),
    {
        match self {
            Direction::To => String::from_str("to"),
            Direction::From => String::from_str("from"),
        }
    }
}

/// The text a direction is recorded as.
pub open spec fn direction_text(d: Direction) -> Seq<char> {
    match d {
        Direction::To => "to"@,
        Direction::From => "from"@,
    }
}

/// The structured kind tag the normalizer sets on every message. Exactly one
/// kind is user text; every other kind is system or protocol signaling.
#[derive(Clone, Copy, Debug)]
pub enum MessageKind {
    /// A rendered user message body.
    UserText,
    /// The conversation thread could not be resolved for the event.
    ThreadResolutionFailure,
    /// A null message, for example a deletion marker.
    DeletedMarker,
    /// A call signal.
    CallSignal,
    /// A typing indicator.
    TypingIndicator,
    /// A delivery receipt.
    DeliveryReceipt,
    /// A read receipt.
    ReadReceipt,
    /// A receipt of any other type.
    OtherReceipt,
    /// A reaction to an earlier message.
    Reaction,
    /// A story update.
    StoryUpdate,
    /// An identity-signature message.
    PniSignature,
    /// A data message that carried no usable content.
    EmptyDataMessage,
    /// The normalizer itself failed to render the event.
    FormattingFailure,
}

/// A message as the normalizer hands it to the pipeline: the kind tag, the
/// rendered body, and the metadata carried unchanged into every record made
/// from it.
pub struct ProcessedMessage {
    pub kind: MessageKind,
    pub direction: Option<Direction>,
    pub contact: Option<String>,
    pub sender: Option<String>,
    pub group: Option<String>,
    pub body: Option<String>,
    pub attachments: Option<Vec<String>>,
}

/// An intermediate rendering of one event, before attachment handling.
pub struct MessageEverything {
    pub kind: MessageKind,
    pub direction: Option<Direction>,
    pub receiver: Option<String>,
    pub sender: Option<String>,
    pub group: Option<String>,
    pub body: Option<String>,
}

impl MessageEverything {
    /// An empty rendering with nothing known of the event.
    pub fn default() -> (r: MessageEverything)
        ensures
            r.kind is FormattingFailure,
            r.direction is None,
            r.receiver is None,
            r.sender is None,
            r.group is None,
            r.body is None,
    {
        MessageEverything {
            kind: MessageKind::FormattingFailure,
            direction: None,
            receiver: None,
            sender: None,
            group: None,
            body: None,
        }
    }

    /// A rendering that records only that normalization failed, with the
    /// failure text as body.
    pub fn error(error: String) -> (r: MessageEverything)
        ensures
            r.kind is FormattingFailure,
            r.direction is None,
            r.receiver is None,
            r.sender is None,
            r.group is None,
            r.body == Some(error),
    {
        MessageEverything {
            kind: MessageKind::FormattingFailure,
            direction: None,
            receiver: None,
            sender: None,
            group: None,
            body: Some(error),
        }
    }
}

/// Why a message was excluded from embedding.
#[derive(Clone, Copy, Debug)]
pub enum NoiseReason {
    /// The kind tag marks system or protocol signaling.
    SystemSignal(MessageKind),
    /// The message carries no body at all.
    AbsentBody,
    /// The message's body is the empty string.
    EmptyBody,
}

/// The classifier's verdict on one message.
#[derive(Clone, Copy, Debug)]
pub enum Classification {
    /// The message should be chunked, embedded and stored.
    Content,
    /// The message is excluded; nothing further happens to it.
    Noise(NoiseReason),
}

/// What `classify` decides: a message is content exactly when its kind is
/// user text and it carries a non-empty body.
pub open spec fn spec_classify(kind: MessageKind, body: Option<Seq<char>>) -> Classification {
    if !(kind is UserText) {
        Classification::Noise(NoiseReason::SystemSignal(kind))
    } else if body is None {
        Classification::Noise(NoiseReason::AbsentBody)
    } else if body->0.len() == 0 {
        Classification::Noise(NoiseReason::EmptyBody)
    } else {
        Classification::Content
    }
}

/// The body's view, when there is one.
pub open spec fn body_view(msg: ProcessedMessage) -> Option<Seq<char>> {
    match msg.body {
        Some(b) => Some(b@),
        None => None,
    }
}

/// Decide whether `msg` is content to embed or noise to skip, from the kind
/// tag and the presence of a body alone.
pub fn classify(msg: &ProcessedMessage) -> (r: Classification)
    ensures
        r == spec_classify(msg.kind, body_view(*msg)),
        r is Content <==> (msg.kind is UserText && msg.body is Some && body_view(
            *msg,
        )->0.len() > 0),
{
    match msg.kind {
        MessageKind::UserText => match &msg.body {
            Some(b) => {
                if b.as_str().unicode_len() > 0 {
                    Classification::Content
                } else {
                    Classification::Noise(NoiseReason::EmptyBody)
                }
            },
            None => Classification::Noise(NoiseReason::AbsentBody),
        },
        _ => Classification::Noise(NoiseReason::SystemSignal(msg.kind)),
    }
}

/// Classification is total: one message maps to exactly one verdict, and a
/// message without a non-empty body is never content.
pub proof fn law_classification_total(kind: MessageKind, body: Option<Seq<char>>)
    ensures
        spec_classify(kind, body) is Content || spec_classify(kind, body) is Noise,
        !(spec_classify(kind, body) is Content && spec_classify(kind, body) is Noise),
        (body is None || body->0.len() == 0) ==> spec_classify(kind, body) is Noise,
{
}

} // verus!
