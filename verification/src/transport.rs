//! The push-event transport's frame handling and the shape of the events it
//! yields: envelope acknowledgement, liveness replies, event routing, and
//! the assembly and suppression rules for presentation events. The socket
//! itself is the host's job; the decisions here are total on plain values.

use vstd::prelude::*;
use crate::text::{opt_or_empty, opt_str_is, str_eq};

verus! {

/// An attached file as the platform describes it.
pub struct SlackFile {
    pub mimetype: Option<String>,
    pub url_private_download: Option<String>,
    pub url_private: Option<String>,
    pub thumb_480: Option<String>,
    pub thumb_360: Option<String>,
    pub name: Option<String>,
}

/// The target of a reaction event.
pub struct SlackReactionItem {
    pub channel: Option<String>,
    pub ts: Option<String>,
}

/// A decoded platform event.
pub struct SlackEvent {
    pub event_type: Option<String>,
    pub channel: Option<String>,
    pub user: Option<String>,
    pub text: Option<String>,
    pub ts: Option<String>,
    pub thread_ts: Option<String>,
    pub files: Option<Vec<SlackFile>>,
    pub reaction: Option<String>,
    pub item: Option<SlackReactionItem>,
}

/// The payload of a push envelope.
pub struct SocketModePayload {
    pub event: Option<SlackEvent>,
}

/// A decoded push envelope.
pub struct SocketModeMessage {
    pub msg_type: Option<String>,
    pub envelope_id: Option<String>,
    pub payload: Option<SocketModePayload>,
}

/// One inbound occurrence on the transport, as the host observed it.
pub enum InboundFrame {
    /// A text frame that decoded into an envelope.
    Envelope(SocketModeMessage),
    /// A text frame that did not decode; it is skipped.
    Undecodable,
    /// A liveness probe carrying its payload.
    Ping(Vec<u8>),
    /// An orderly close frame.
    Close,
    /// A read error on the stream.
    ReadError,
    /// The stream ended.
    Ended,
    /// Any other frame kind; it is skipped.
    Other,
}

/// What the transport loop does with one inbound occurrence.
pub struct FrameDecision {
    /// Answer a liveness probe with this payload.
    pub pong: Option<Vec<u8>>,
    /// Acknowledge the envelope with this id, before any other work.
    pub ack: Option<String>,
    /// Hand this event to the enrichment pipeline.
    pub event: Option<SlackEvent>,
    /// Leave the loop.
    pub exit: bool,
}

/// Whether an envelope belongs to the events feed.
pub open spec fn spec_is_events_api(m: SocketModeMessage) -> bool {
    match m.msg_type {
        Some(t) => t@ == "events_api"@,
        None => false,
    }
}

/// The event an envelope hands to the pipeline: only events-feed envelopes
/// carry one.
pub open spec fn spec_envelope_event(m: SocketModeMessage) -> Option<SlackEvent> {
    if spec_is_events_api(m) {
        match m.payload {
            Some(p) => p.event,
            None => None,
        }
    } else {
        None
    }
}

/// The transport's decision for each inbound occurrence.
pub open spec fn spec_transport_step(f: InboundFrame) -> FrameDecision {
    match f {
        InboundFrame::Envelope(m) => FrameDecision {
            pong: None,
            ack: m.envelope_id,
            event: spec_envelope_event(m),
            exit: false,
        },
        InboundFrame::Undecodable => FrameDecision {
            pong: None,
            ack: None,
            event: None,
            exit: false,
        },
        InboundFrame::Ping(data) => FrameDecision {
            pong: Some(data),
            ack: None,
            event: None,
            exit: false,
        },
        InboundFrame::Close => FrameDecision { pong: None, ack: None, event: None, exit: true },
        InboundFrame::ReadError => FrameDecision {
            pong: None,
            ack: None,
            event: None,
            exit: true,
        },
        InboundFrame::Ended => FrameDecision { pong: None, ack: None, event: None, exit: true },
        InboundFrame::Other => FrameDecision { pong: None, ack: None, event: None, exit: false },
    }
}

/// Decide what to do with one inbound occurrence: answer probes, always
/// acknowledge an envelope that asks for it, hand events-feed events on,
/// and leave the loop on close, error or end of stream.
pub fn transport_step(frame: InboundFrame) -> (d: FrameDecision)
    ensures
        d == spec_transport_step(frame),
{
    match frame {
        InboundFrame::Envelope(m) => {
            let is_events = crate::text::opt_str_eq(&m.msg_type, "events_api");
            let SocketModeMessage { msg_type: _, envelope_id, payload } = m;
            let event = if is_events {
                match payload {
                    Some(p) => p.event,
                    None => None,
                }
            } else {
                None
            };
            FrameDecision { pong: None, ack: envelope_id, event, exit: false }
        },
        InboundFrame::Undecodable => FrameDecision {
            pong: None,
            ack: None,
            event: None,
            exit: false,
        },
        InboundFrame::Ping(data) => FrameDecision {
            pong: Some(data),
            ack: None,
            event: None,
            exit: false,
        },
        InboundFrame::Close => FrameDecision { pong: None, ack: None, event: None, exit: true },
        InboundFrame::ReadError => FrameDecision {
            pong: None,
            ack: None,
            event: None,
            exit: true,
        },
        InboundFrame::Ended => FrameDecision { pong: None, ack: None, event: None, exit: true },
        InboundFrame::Other => FrameDecision { pong: None, ack: None, event: None, exit: false },
    }
}

/// Whether the event is a reaction being added or removed, with a known
/// target channel.
pub open spec fn spec_is_reaction(e: SlackEvent) -> bool {
    &&& (opt_str_is(e.event_type, "reaction_added"@) || opt_str_is(e.event_type, "reaction_removed"@))
    &&& (match e.item {
        Some(it) => it.channel is Some,
        None => false,
    })
}

/// Whether the event is a channel message with a known channel.
pub open spec fn spec_is_message(e: SlackEvent) -> bool {
    opt_str_is(e.event_type, "message"@) && e.channel is Some
}

/// The reaction target's channel.
pub open spec fn spec_item_channel(e: SlackEvent) -> Seq<char> {
    match e.item {
        Some(it) => opt_or_empty(it.channel),
        None => Seq::empty(),
    }
}

/// The reaction target's timestamp.
pub open spec fn spec_item_ts(e: SlackEvent) -> Seq<char> {
    match e.item {
        Some(it) => opt_or_empty(it.ts),
        None => Seq::empty(),
    }
}

/// How an event is routed by the pipeline.
pub enum EventClass {
    /// A reaction on a message in `channel`.
    Reaction { added: bool, channel: String, reaction: String, user_id: String, message_ts: String },
    /// A message posted to `channel`.
    ChannelMessage {
        channel: String,
        user_id: String,
        text: String,
        ts: Option<String>,
        thread_ts: Option<String>,
        files: Vec<SlackFile>,
    },
    /// Anything else; it is dropped with no side effect.
    Ignored,
}

/// The three routed event types are pairwise distinct strings.
proof fn lemma_event_type_literals()
    ensures
        "message"@ != "reaction_added"@,
        "message"@ != "reaction_removed"@,
{
    reveal_strlit("message");
    reveal_strlit("reaction_added");
    reveal_strlit("reaction_removed");
    assert("message"@.len() == 7);
    assert("reaction_added"@.len() == 14);
    assert("reaction_removed"@.len() == 16);
}

/// Route one event: reactions and channel messages go on, everything else
/// is ignored.
pub fn classify_event(event: SlackEvent) -> (c: EventClass)
    ensures
        spec_is_reaction(event) ==> (c matches EventClass::Reaction {
            added,
            channel,
            reaction,
            user_id,
            message_ts,
        } && added == opt_str_is(event.event_type, "reaction_added"@)
            && channel@ == spec_item_channel(event)
            && reaction@ == opt_or_empty(event.reaction)
            && user_id@ == opt_or_empty(event.user)
            && message_ts@ == spec_item_ts(event)),
        !spec_is_reaction(event) && spec_is_message(event) ==> (match c {
            EventClass::ChannelMessage { channel, user_id, text, ts, thread_ts, files } => ({
                &&& channel@ == opt_or_empty(event.channel)
                &&& user_id@ == opt_or_empty(event.user)
                &&& text@ == opt_or_empty(event.text)
                &&& ts == event.ts
                &&& thread_ts == event.thread_ts
                &&& (match event.files {
                    Some(fs) => files == fs,
                    None => files@.len() == 0,
                })
            }),
            _ => false,
        }),
        !spec_is_reaction(event) && !spec_is_message(event) ==> c is Ignored,
{
    proof {
        lemma_event_type_literals();
    }
    let is_added = crate::text::opt_str_eq(&event.event_type, "reaction_added");
    let is_removed = crate::text::opt_str_eq(&event.event_type, "reaction_removed");
    if is_added || is_removed {
        let user = event.user;
        let reaction = event.reaction;
        let item = event.item;
        match item {
            Some(it) => {
                let SlackReactionItem { channel, ts } = it;
                match channel {
                    Some(ch) => {
                        EventClass::Reaction {
                            added: is_added,
                            channel: ch,
                            reaction: crate::text::str_or_empty(&reaction),
                            user_id: crate::text::str_or_empty(&user),
                            message_ts: crate::text::str_or_empty(&ts),
                        }
                    },
                    None => EventClass::Ignored,
                }
            },
            None => EventClass::Ignored,
        }
    } else {
        let is_message = crate::text::opt_str_eq(&event.event_type, "message");
        if is_message {
            let channel = event.channel;
            let user = event.user;
            let text = event.text;
            let ts = event.ts;
            let thread_ts = event.thread_ts;
            let files = event.files;
            match channel {
                Some(ch) => EventClass::ChannelMessage {
                    channel: ch,
                    user_id: crate::text::str_or_empty(&user),
                    text: crate::text::str_or_empty(&text),
                    ts,
                    thread_ts,
                    files: match files {
                        Some(fs) => fs,
                        None => Vec::new(),
                    },
                },
                None => EventClass::Ignored,
            }
        } else {
            EventClass::Ignored
        }
    }
}

/// Whether a message is a thread reply whose parent must be looked up: it
/// carries a thread timestamp different from its own timestamp.
pub fn thread_parent_needed(thread_ts: &Option<String>, ts: &Option<String>) -> (r: bool)
    ensures
        r == (match *thread_ts {
            Some(t) => match *ts {
                Some(own) => t@ != own@,
                None => true,
            },
            None => false,
        }),
{
    match thread_ts {
        Some(t) => match ts {
            Some(own) => !str_eq(t.as_str(), own.as_str()),
            None => true,
        },
        None => false,
    }
}

/// An inline image ready for presentation.
pub struct ImageData {
    pub data_url: String,
    pub name: Option<String>,
}

/// A fully enriched message, ready for the presentation surface.
pub struct SlackMessage {
    pub text: String,
    pub user: String,
    pub user_icon: String,
    pub channel: Option<String>,
    pub timestamp: Option<String>,
    pub queue_action: Option<String>,
    pub thread_ts: Option<String>,
    pub reply_to_user: Option<String>,
    pub reply_to_text: Option<String>,
    pub images: Option<Vec<ImageData>>,
}

/// A reaction, ready for the presentation surface.
pub struct SlackReactionEvent {
    pub action: String,
    pub reaction: String,
    pub user: String,
    pub channel: String,
    pub message_ts: String,
}

/// Assemble the presentation message, or suppress it: a message whose
/// resolved text is empty and whose image list is empty is never emitted;
/// one with only an image is.
pub fn build_message_event(
    text: String,
    user_name: String,
    user_icon: String,
    channel: String,
    timestamp: Option<String>,
    thread_ts: Option<String>,
    reply_to_user: Option<String>,
    reply_to_text: Option<String>,
    images: Vec<ImageData>,
) -> (r: Option<SlackMessage>)
    ensures
        r is Some <==> (text@.len() > 0 || images@.len() > 0),
        r matches Some(m) ==> (m.text == text && m.user == user_name && m.user_icon == user_icon
            && opt_str_is(m.channel, channel@) && m.timestamp == timestamp
            && opt_str_is(m.queue_action, "addToQueue"@) && m.thread_ts == thread_ts
            && m.reply_to_user == reply_to_user && m.reply_to_text == reply_to_text
            && (images@.len() == 0 ==> m.images is None)
            && (images@.len() > 0 ==> m.images == Some(images))),
{
    let has_text = !text.as_str().is_empty();
    let has_images = images.len() > 0;
    if !has_text && !has_images {
        return None;
    }
    Some(SlackMessage {
        text,
        user: user_name,
        user_icon,
        channel: Some(channel),
        timestamp,
        queue_action: Some("addToQueue".to_owned()),
        thread_ts,
        reply_to_user,
        reply_to_text,
        images: if has_images {
            Some(images)
        } else {
            None
        },
    })
}

/// Assemble the presentation reaction: the action names whether the
/// reaction was added or removed.
pub fn build_reaction_event(
    added: bool,
    reaction: String,
    user_name: String,
    channel: String,
    message_ts: String,
) -> (r: SlackReactionEvent)
    ensures
        added ==> r.action@ == "added"@,
        !added ==> r.action@ == "removed"@,
        r.reaction == reaction,
        r.user == user_name,
        r.channel == channel,
        r.message_ts == message_ts,
{
    SlackReactionEvent {
        action: if added {
            "added".to_owned()
        } else {
            "removed".to_owned()
        },
        reaction,
        user: user_name,
        channel,
        message_ts,
    }
}

} // verus!
