//! Named channels, the registry that routes inbound messages to them, and the
//! one-shot capability that answers an inbound call.
use vstd::prelude::*;
use crate::codec::{CodecTypes, MethodCall};
use crate::standard_codec::{decode_method_call, method_call_of};
use crate::text::str_eq;

verus! {

/// The capability to answer one inbound call. It cannot be copied or cloned:
/// answering moves it, so one capability answers at most once.
#[derive(Debug)]
pub struct FlutterPlatformMessageResponseHandle {
    id: u64,
}

impl View for FlutterPlatformMessageResponseHandle {
    type V = u64;

    closed spec fn view(&self) -> u64 {
        self.id
    }
}

impl FlutterPlatformMessageResponseHandle {
    pub(crate) fn new(id: u64) -> (r: Self)
        ensures
            r@ == id,
    {
        FlutterPlatformMessageResponseHandle { id }
    }

    /// The number that identifies the pending call this handle answers.
    pub fn id(&self) -> (r: u64)
        ensures
            r == self@,
    {
        self.id
    }
}

pub open spec fn handle_id(h: Option<FlutterPlatformMessageResponseHandle>) -> Option<u64> {
    match h {
        Some(h) => Some(h@),
        None => None,
    }
}

/// A message on a named channel, with the capability to answer it if the
/// sender waits for an answer.
#[derive(Debug)]
pub struct PlatformMessage {
    pub channel: String,
    pub message: Vec<u8>,
    pub response_handle: Option<FlutterPlatformMessageResponseHandle>,
}

/// A named endpoint bound to one codec, with or without a handler attached.
#[derive(Debug)]
pub struct Channel {
    name: String,
    codec: CodecTypes,
    handler_attached: bool,
}

pub struct ChannelModel {
    pub name: Seq<char>,
    pub codec: CodecTypes,
    pub handler_attached: bool,
}

impl View for Channel {
    type V = ChannelModel;

    closed spec fn view(&self) -> ChannelModel {
        ChannelModel { name: self.name@, codec: self.codec, handler_attached: self.handler_attached }
    }
}

impl Channel {
    /// A channel without a handler.
    pub fn new(name: String, codec: CodecTypes) -> (r: Channel)
        ensures
            r@ == (ChannelModel { name: name@, codec, handler_attached: false }),
    {
        Channel { name, codec, handler_attached: false }
    }

    pub fn name(&self) -> (r: &String)
        ensures
            r@ == self@.name,
    {
        &self.name
    }

    pub fn codec(&self) -> (r: CodecTypes)
        ensures
            r == self@.codec,
    {
        self.codec
    }

    pub fn has_handler(&self) -> (r: bool)
        ensures
            r == self@.handler_attached,
    {
        self.handler_attached
    }

    /// Attaches a handler (`true`) or detaches it (`false`).
    pub fn set_handler(&mut self, attached: bool)
        ensures
            final(self)@ == (ChannelModel { handler_attached: attached, ..old(self)@ }),
    {
        self.handler_attached = attached;
    }
}

/// Why an inbound message reached no handler. In each case no answer is sent.
#[derive(Debug, Clone, Copy, PartialEq, Eq, Structural)]
pub enum DropReason {
    /// No channel of that name is registered.
    UnknownChannel,
    /// The channel is registered but has no handler attached.
    NoHandler,
    /// The payload is no method call under the channel's codec.
    DecodeFailure,
}

/// Where an inbound message goes.
#[derive(Debug)]
pub enum Inbound {
    /// A decoded call for the handler of a standard-codec channel.
    Call {
        channel: String,
        call: MethodCall,
        response_handle: Option<FlutterPlatformMessageResponseHandle>,
    },
    /// A call for the handler of a JSON channel, still to be decoded.
    JsonCall {
        channel: String,
        payload: Vec<u8>,
        response_handle: Option<FlutterPlatformMessageResponseHandle>,
    },
    /// The message reaches no handler; the capability is handed back unused.
    Dropped { reason: DropReason, response_handle: Option<FlutterPlatformMessageResponseHandle> },
}

pub struct MessageModel {
    pub channel: Seq<char>,
    pub message: Seq<u8>,
    pub response_handle: Option<u64>,
}

impl View for PlatformMessage {
    type V = MessageModel;

    open spec fn view(&self) -> MessageModel {
        MessageModel {
            channel: self.channel@,
            message: self.message@,
            response_handle: handle_id(self.response_handle),
        }
    }
}

/// `r` drops the message for `reason` and hands back the capability `h`.
pub open spec fn is_dropped(r: Inbound, reason: DropReason, h: Option<u64>) -> bool {
    match r {
        Inbound::Dropped { reason: x, response_handle } => x == reason && handle_id(response_handle)
            == h,
        _ => false,
    }
}

/// `r` is where the message `m` goes once it has reached the channel `c`.
pub open spec fn routed(c: ChannelModel, m: MessageModel, r: Inbound) -> bool {
    if !c.handler_attached {
        is_dropped(r, DropReason::NoHandler, m.response_handle)
    } else if c.codec == CodecTypes::JsonMessageCodec {
        match r {
            Inbound::JsonCall { channel, payload, response_handle } => channel@ == m.channel
                && payload@ == m.message && handle_id(response_handle) == m.response_handle,
            _ => false,
        }
    } else {
        match method_call_of(m.message) {
            None => is_dropped(r, DropReason::DecodeFailure, m.response_handle),
            Some((method, args)) => match r {
                Inbound::Call { channel, call, response_handle } => channel@ == m.channel
                    && call.method@ == method && call.args@ == args && handle_id(response_handle)
                    == m.response_handle,
                _ => false,
            },
        }
    }
}

/// The views of a sequence of channels.
pub open spec fn channel_views(s: Seq<Channel>) -> Seq<ChannelModel> {
    s.map_values(|c: Channel| c@)
}

/// The channels by name; no two share a name.
#[derive(Debug)]
pub struct ChannelRegistry {
    channels: Vec<Channel>,
}

pub open spec fn names_unique(s: Seq<ChannelModel>) -> bool {
    forall|i: int, j: int| 0 <= i < j < s.len() ==> s[i].name != s[j].name
}

pub open spec fn has_name(s: Seq<ChannelModel>, name: Seq<char>) -> bool {
    exists|i: int| 0 <= i < s.len() && s[i].name == name
}

impl View for ChannelRegistry {
    type V = Seq<ChannelModel>;

    closed spec fn view(&self) -> Seq<ChannelModel> {
        self.channels@.map_values(|c: Channel| c@)
    }
}

impl ChannelRegistry {
    pub open spec fn wf(&self) -> bool {
        names_unique(self@)
    }

    pub fn new() -> (r: ChannelRegistry)
        ensures
            r@ == Seq::<ChannelModel>::empty(),
            r.wf(),
    {
        let r = ChannelRegistry { channels: Vec::new() };
        assert(r@ =~= Seq::<ChannelModel>::empty());
        r
    }

    pub fn len(&self) -> (r: usize)
        ensures
            r == self@.len(),
    {
        self.channels.len()
    }

    /// The position of the channel called `name`, if one is registered.
    pub fn find(&self, name: &str) -> (r: Option<usize>)
        requires
            self.wf(),
        ensures
            r is None <==> !has_name(self@, name@),
            r matches Some(i) ==> i < self@.len() && self@[i as int].name == name@,
    {
        let mut i: usize = 0;
        while i < self.channels.len()
            invariant
                i <= self@.len(),
                self@.len() == self.channels@.len(),
                forall|j: int| 0 <= j < i ==> self@[j].name != name@,
            decreases self.channels@.len() - i,
        {
            assert(self@[i as int] == self.channels@[i as int]@);
            if str_eq(self.channels[i].name.as_str(), name) {
                return Some(i);
            }
            i = i + 1;
        }
        None
    }

    /// The channel at position `i`.
    pub fn channel(&self, i: usize) -> (r: &Channel)
        requires
            i < self@.len(),
        ensures
            r@ == self@[i as int],
    {
        &self.channels[i]
    }

    /// Whether a channel called `name` is registered.
    pub fn contains(&self, name: &str) -> (r: bool)
        requires
            self.wf(),
        ensures
            r == has_name(self@, name@),
    {
        self.find(name).is_some()
    }

    /// Adds `channel`, whose name must be free: two channels of one name are
    /// a programming error.
    pub fn register(&mut self, channel: Channel)
        requires
            old(self).wf(),
            !has_name(old(self)@, channel@.name),
        ensures
            final(self).wf(),
            final(self)@ == old(self)@.push(channel@),
    {
        let ghost before = self@;
        let ghost m = channel@;
        self.channels.push(channel);
        assert(self@ =~= before.push(m));
    }

    /// Attaches or detaches the handler of the channel called `name`; `false`
    /// when no such channel is registered.
    pub fn set_handler(&mut self, name: &str, attached: bool) -> (r: bool)
        requires
            old(self).wf(),
        ensures
            final(self).wf(),
            r == has_name(old(self)@, name@),
            r ==> exists|i: int|
                0 <= i < old(self)@.len() && old(self)@[i].name == name@ && final(self)@
                    == old(self)@.update(i, ChannelModel { handler_attached: attached, ..old(self)@[i] }),
            !r ==> final(self)@ == old(self)@,
    {
        match self.find(name) {
            None => false,
            Some(i) => {
                let ghost before = self@;
                let mut c = self.channels.remove(i);
                c.set_handler(attached);
                let ghost cm = c@;
                self.channels.insert(i, c);
                assert(self@ =~= before.update(i as int, cm));
                true
            },
        }
    }

    /// Routes an inbound message: to the handler of its channel, or nowhere,
    /// with the reason. A standard-codec call is decoded here.
    pub fn handle(&self, msg: PlatformMessage) -> (r: Inbound)
        requires
            self.wf(),
        ensures
            !has_name(self@, msg.channel@) ==> is_dropped(
                r,
                DropReason::UnknownChannel,
                handle_id(msg.response_handle),
            ),
            forall|i: int|
                0 <= i < self@.len() && self@[i].name == msg.channel@ ==> routed(
                    #[trigger] self@[i],
                    msg@,
                    r,
                ),
    {
        let ghost m = msg@;
        let PlatformMessage { channel, message, response_handle } = msg;
        match self.find(channel.as_str()) {
            None => Inbound::Dropped { reason: DropReason::UnknownChannel, response_handle },
            Some(i) => {
                let c = &self.channels[i];
                assert(self@[i as int] == c@);
                if !c.handler_attached {
                    Inbound::Dropped { reason: DropReason::NoHandler, response_handle }
                } else {
                    match c.codec {
                        CodecTypes::JsonMessageCodec => Inbound::JsonCall {
                            channel,
                            payload: message,
                            response_handle,
                        },
                        CodecTypes::StandardMessageCodec => match decode_method_call(
                            message.as_slice(),
                        ) {
                            None => Inbound::Dropped {
                                reason: DropReason::DecodeFailure,
                                response_handle,
                            },
                            Some(call) => Inbound::Call { channel, call, response_handle },
                        },
                    }
                }
            },
        }
    }
}

} // verus!
