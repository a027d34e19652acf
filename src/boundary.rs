//! The send side of the engine boundary. Every send requires the platform
//! thread: a send from another thread is a programming error. Each inbound
//! call that waits for an answer gets a fresh capability, and the ledger of pending calls lets each one be answered once.
use vstd::prelude::*;
use crate::channel::{FlutterPlatformMessageResponseHandle, PlatformMessage, handle_id};
use crate::codec::{MethodCall, MethodCallResult};
use crate::standard_codec::{
    call_bytes, encode_error_envelope, encode_method_call, encode_result, encode_success_envelope,
    error_bytes, result_bytes, result_fits, success_bytes,
};
use crate::value::{Value, ValueModel};
use crate::wire::fits;

verus! {

/// Why an answer was refused.
#[derive(Debug, Clone, Copy, PartialEq, Eq, Structural)]
pub enum ResponseError {
    /// The capability answers no pending call: it was answered already, or
    /// was never issued here.
    StaleResponseHandle,
}

/// `after` holds what `before` holds, but `id`.
pub open spec fn without(before: Seq<u64>, after: Seq<u64>, id: u64) -> bool {
    forall|k: u64| #[trigger] after.contains(k) <==> (before.contains(k) && k != id)
}

/// The numbers of the capabilities in `replies`.
pub open spec fn reply_ids(replies: Seq<(FlutterPlatformMessageResponseHandle, Vec<u8>)>) -> Seq<u64> {
    replies.map_values(|r: (FlutterPlatformMessageResponseHandle, Vec<u8>)| r.0@)
}

/// The answers that `replies` send, in order.
pub open spec fn reply_outgoing(replies: Seq<(FlutterPlatformMessageResponseHandle, Vec<u8>)>) -> Seq<
    OutgoingModel,
> {
    replies.map_values(
        |r: (FlutterPlatformMessageResponseHandle, Vec<u8>)| OutgoingModel::Response(r.0@, r.1@),
    )
}

/// What goes out to the engine, in order.
#[derive(Debug)]
pub enum Outgoing {
    Message { channel: String, payload: Vec<u8> },
    Response { handle: u64, payload: Vec<u8> },
}

pub enum OutgoingModel {
    Message(Seq<char>, Seq<u8>),
    Response(u64, Seq<u8>),
}

impl View for Outgoing {
    type V = OutgoingModel;

    open spec fn view(&self) -> OutgoingModel {
        match self {
            Outgoing::Message { channel, payload } => OutgoingModel::Message(channel@, payload@),
            Outgoing::Response { handle, payload } => OutgoingModel::Response(*handle, payload@),
        }
    }
}

pub struct EngineBoundary {
    platform_thread: u64,
    issued: u64,
    pending: Vec<u64>,
    answered: Ghost<Set<u64>>,
    answers_sent: u64,
    outgoing: Vec<Outgoing>,
}

impl EngineBoundary {
    /// The thread that may send into the engine.
    pub closed spec fn platform_thread(&self) -> u64 {
        self.platform_thread
    }

    /// How many capabilities were issued (they are numbered from 0).
    pub closed spec fn issued(&self) -> nat {
        self.issued as nat
    }

    /// The capabilities issued and not answered yet.
    pub closed spec fn pending(&self) -> Seq<u64> {
        self.pending@
    }

    /// The capabilities answered so far.
    pub closed spec fn answered(&self) -> Set<u64> {
        self.answered@
    }

    /// How many answers went out.
    pub closed spec fn answers_sent(&self) -> nat {
        self.answers_sent as nat
    }

    /// What waits to go out to the engine.
    pub closed spec fn outgoing(&self) -> Seq<OutgoingModel> {
        self.outgoing@.map_values(|o: Outgoing| o@)
    }

    pub closed spec fn wf(&self) -> bool {
        &&& self.pending@.no_duplicates()
        &&& forall|i: int| 0 <= i < self.pending@.len() ==> self.pending@[i] < self.issued
        &&& forall|id: u64| #[trigger] self.answered@.contains(id) ==> id < self.issued
        &&& forall|id: u64| #[trigger]
            self.answered@.contains(id) ==> !self.pending@.contains(id)
        &&& forall|id: u64|
            id < self.issued ==> #[trigger] self.pending@.contains(id) || self.answered@.contains(
                id,
            )
        &&& self.issued == self.pending@.len() + self.answers_sent
    }

    pub fn new(platform_thread: u64) -> (r: EngineBoundary)
        ensures
            r.wf(),
            r.platform_thread() == platform_thread,
            r.issued() == 0,
            r.pending().len() == 0,
            r.answered().is_empty(),
            r.answers_sent() == 0,
            r.outgoing().len() == 0,
    {
        EngineBoundary {
            platform_thread,
            issued: 0,
            pending: Vec::new(),
            answered: Ghost(Set::empty()),
            answers_sent: 0,
            outgoing: Vec::new(),
        }
    }

    /// Whether `current` is the platform thread.
    pub fn is_platform_thread(&self, current: u64) -> (r: bool)
        ensures
            r == (current == self.platform_thread()),
    {
        current == self.platform_thread
    }

    /// Takes in a message from the engine. Where the sender waits for an
    /// answer, the message carries a fresh capability, which is then pending.
    /// `None` once every capability number has been issued.
    pub fn receive(&mut self, channel: String, message: Vec<u8>, wants_response: bool) -> (r: Option<
        PlatformMessage,
    >)
        requires
            old(self).wf(),
        ensures
            final(self).wf(),
            final(self).platform_thread() == old(self).platform_thread(),
            final(self).answered() == old(self).answered(),
            final(self).answers_sent() == old(self).answers_sent(),
            final(self).outgoing() == old(self).outgoing(),
            r is None <==> wants_response && old(self).issued() == u64::MAX,
            r is None ==> final(self).issued() == old(self).issued() && final(self).pending()
                == old(self).pending(),
            r matches Some(m) ==> m.channel@ == channel@ && m.message@ == message@,
            r matches Some(m) ==> if wants_response {
                &&& handle_id(m.response_handle) == Some(old(self).issued() as u64)
                &&& final(self).issued() == old(self).issued() + 1
                &&& final(self).pending() == old(self).pending().push(old(self).issued() as u64)
            } else {
                &&& m.response_handle is None
                &&& final(self).issued() == old(self).issued()
                &&& final(self).pending() == old(self).pending()
            },
    {
        if !wants_response {
            return Some(PlatformMessage { channel, message, response_handle: None });
        }
        if self.issued == u64::MAX {
            return None;
        }
        let id = self.issued;
        proof {
            assert(!self.pending@.contains(id));
        }
        self.pending.push(id);
        self.issued = self.issued + 1;
        proof {
            assert forall|k: u64| k < self.issued implies #[trigger] self.pending@.contains(k)
                || self.answered@.contains(k) by {
                if k == id {
                    assert(self.pending@[self.pending@.len() - 1] == id);
                } else {
                    if old(self).pending@.contains(k) {
                        let j = choose|j: int|
                            0 <= j < old(self).pending@.len() && old(self).pending@[j] == k;
                        assert(self.pending@[j] == k);
                    }
                }
            }
            assert forall|k: u64| #[trigger] self.answered@.contains(k) implies !self.pending@.contains(k) by {
                if self.pending@.contains(k) {
                    let j = choose|j: int| 0 <= j < self.pending@.len() && self.pending@[j] == k;
                    if j < old(self).pending@.len() {
                        assert(old(self).pending@[j] == k);
                    }
                }
            }
        }
        let h = FlutterPlatformMessageResponseHandle::new(id);
        Some(PlatformMessage { channel, message, response_handle: Some(h) })
    }

    /// Sends a message on `channel`.
    pub fn send_platform_message(&mut self, current: u64, channel: String, payload: Vec<u8>)
        requires
            old(self).wf(),
            current == old(self).platform_thread(),
        ensures
            final(self).wf(),
            final(self).platform_thread() == old(self).platform_thread(),
            final(self).issued() == old(self).issued(),
            final(self).pending() == old(self).pending(),
            final(self).answered() == old(self).answered(),
            final(self).answers_sent() == old(self).answers_sent(),
            final(self).outgoing() == old(self).outgoing().push(
                OutgoingModel::Message(channel@, payload@),
            ),
    {
        let ghost before = self.outgoing();
        let o = Outgoing::Message { channel, payload };
        let ghost om = o@;
        self.outgoing.push(o);
        assert(self.outgoing() =~= before.push(om));
    }

    /// Whether the capability numbered `id` waits for an answer.
    pub fn is_pending(&self, id: u64) -> (r: bool)
        ensures
            r == self.pending().contains(id),
    {
        let mut i: usize = 0;
        while i < self.pending.len()
            invariant
                i <= self.pending@.len(),
                forall|j: int| 0 <= j < i ==> self.pending@[j] != id,
            decreases self.pending@.len() - i,
        {
            if self.pending[i] == id {
                return true;
            }
            i = i + 1;
        }
        false
    }

    /// Answers the pending call of `handle` with `payload`, consuming the
    /// capability. A capability that answers no pending call is refused and
    /// nothing is sent.
    pub fn send_platform_message_response(
        &mut self,
        current: u64,
        handle: FlutterPlatformMessageResponseHandle,
        payload: Vec<u8>,
    ) -> (r: Result<(), ResponseError>)
        requires
            old(self).wf(),
            current == old(self).platform_thread(),
        ensures
            final(self).wf(),
            final(self).platform_thread() == old(self).platform_thread(),
            final(self).issued() == old(self).issued(),
            r is Ok <==> old(self).pending().contains(handle@),
            r is Err ==> {
                &&& r == Err::<(), ResponseError>(ResponseError::StaleResponseHandle)
                &&& final(self).pending() == old(self).pending()
                &&& final(self).answered() == old(self).answered()
                &&& final(self).answers_sent() == old(self).answers_sent()
                &&& final(self).outgoing() == old(self).outgoing()
            },
            r is Ok ==> {
                &&& without(old(self).pending(), final(self).pending(), handle@)
                &&& final(self).pending().len() + 1 == old(self).pending().len()
                &&& final(self).answered() == old(self).answered().insert(handle@)
                &&& final(self).answers_sent() == old(self).answers_sent() + 1
                &&& final(self).outgoing() == old(self).outgoing().push(
                    OutgoingModel::Response(handle@, payload@),
                )
            },
    {
        let id = handle.id();
        let mut i: usize = 0;
        while i < self.pending.len() && self.pending[i] != id
            invariant
                i <= self.pending@.len(),
                forall|j: int| 0 <= j < i ==> self.pending@[j] != id,
            decreases self.pending@.len() - i,
        {
            i = i + 1;
        }
        if i == self.pending.len() {
            return Err(ResponseError::StaleResponseHandle);
        }
        let ghost old_pending = self.pending@;
        let ghost before = self.outgoing();
        self.pending.remove(i);
        proof {
            assert(old_pending[i as int] == id);
            assert(self.pending@ =~= old_pending.remove(i as int));
            assert forall|k: u64| #[trigger] self.pending@.contains(k) <==> (old_pending.contains(
                k,
            ) && k != id) by {
                if self.pending@.contains(k) {
                    let j = choose|j: int| 0 <= j < self.pending@.len() && self.pending@[j] == k;
                    if j < i {
                        assert(old_pending[j] == k);
                    } else {
                        assert(old_pending[j + 1] == k);
                    }
                }
                if old_pending.contains(k) && k != id {
                    let j = choose|j: int| 0 <= j < old_pending.len() && old_pending[j] == k;
                    if j < i {
                        assert(self.pending@[j] == k);
                    } else {
                        assert(j != i);
                        assert(self.pending@[j - 1] == k);
                    }
                }
            }
        }
        self.answered = Ghost(self.answered@.insert(id));
        self.answers_sent = self.answers_sent + 1;
        let o = Outgoing::Response { handle: id, payload };
        let ghost om = o@;
        self.outgoing.push(o);
        assert(self.outgoing() =~= before.push(om));
        Ok(())
    }

    /// Answers the call behind `handle`, if it still holds a capability, with
    /// the standard-codec envelope of `result`. The capability is always taken
    /// out of `handle`, so it cannot answer twice.
    pub fn send_method_call_response(
        &mut self,
        current: u64,
        handle: &mut Option<FlutterPlatformMessageResponseHandle>,
        result: &MethodCallResult,
    ) -> (r: Result<(), ResponseError>)
        requires
            old(self).wf(),
            current == old(self).platform_thread(),
            result_fits(result@),
        ensures
            final(self).wf(),
            final(self).platform_thread() == old(self).platform_thread(),
            final(self).issued() == old(self).issued(),
            (*final(handle)) is None,
            r is Err || (*old(handle)) is None ==> {
                &&& final(self).pending() == old(self).pending()
                &&& final(self).answered() == old(self).answered()
                &&& final(self).answers_sent() == old(self).answers_sent()
                &&& final(self).outgoing() == old(self).outgoing()
            },
            match *old(handle) {
                Some(h) => {
                    &&& r is Ok <==> old(self).pending().contains(h@)
                    &&& r is Err ==> r == Err::<(), ResponseError>(
                        ResponseError::StaleResponseHandle,
                    )
                    &&& r is Ok ==> {
                        &&& without(old(self).pending(), final(self).pending(), h@)
                        &&& final(self).pending().len() + 1 == old(self).pending().len()
                        &&& final(self).answered() == old(self).answered().insert(h@)
                        &&& final(self).answers_sent() == old(self).answers_sent() + 1
                        &&& final(self).outgoing() == old(self).outgoing().push(
                            OutgoingModel::Response(h@, result_bytes(result@)),
                        )
                    }
                },
                None => r is Ok,
            },
    {
        match handle.take() {
            None => Ok(()),
            Some(h) => {
                let payload = encode_result(result);
                self.send_platform_message_response(current, h, payload)
            },
        }
    }

    /// Answers each call in `replies`, in order, with its bytes. Where the
    /// capabilities are all pending and no two are the same, every one is
    /// answered exactly once: as many answers go out as there are replies.
    pub fn answer_calls(
        &mut self,
        current: u64,
        replies: Vec<(FlutterPlatformMessageResponseHandle, Vec<u8>)>,
    ) -> (r: usize)
        requires
            old(self).wf(),
            current == old(self).platform_thread(),
        ensures
            final(self).wf(),
            final(self).platform_thread() == old(self).platform_thread(),
            final(self).issued() == old(self).issued(),
            final(self).answers_sent() == old(self).answers_sent() + r,
            r <= replies@.len(),
            ({
                let ids = reply_ids(replies@);
                (ids.no_duplicates() && forall|k: int|
                    0 <= k < ids.len() ==> old(self).pending().contains(#[trigger] ids[k])) ==> {
                    &&& r == replies@.len()
                    &&& final(self).outgoing() == old(self).outgoing() + reply_outgoing(replies@)
                    &&& forall|id: u64| #[trigger]
                        final(self).pending().contains(id) <==> (old(self).pending().contains(id)
                            && !ids.contains(id))
                    &&& forall|k: int|
                        0 <= k < ids.len() ==> final(self).answered().contains(#[trigger] ids[k])
                }
            }),
    {
        let ghost ids = reply_ids(replies@);
        let ghost all = replies@;
        let ghost good = ids.no_duplicates() && forall|k: int|
            0 <= k < ids.len() ==> old(self).pending().contains(#[trigger] ids[k]);
        let ghost start_out = self.outgoing();
        let ghost start_pending = self.pending();
        let mut rest = replies;
        let mut count: usize = 0;
        let mut i: usize = 0;
        let n = rest.len();
        while rest.len() > 0
            invariant
                self.wf(),
                current == self.platform_thread(),
                self.platform_thread() == old(self).platform_thread(),
                self.issued() == old(self).issued(),
                n == all.len(),
                i + rest@.len() == n,
                rest@ == all.skip(i as int),
                count <= i,
                self.answers_sent() == old(self).answers_sent() + count,
                ids == reply_ids(all),
                start_pending == old(self).pending(),
                start_out == old(self).outgoing(),
                good == (ids.no_duplicates() && forall|k: int|
                    0 <= k < ids.len() ==> old(self).pending().contains(#[trigger] ids[k])),
                good ==> {
                    &&& count == i
                    &&& self.outgoing() == start_out + reply_outgoing(all.take(i as int))
                    &&& forall|id: u64| #[trigger]
                        self.pending().contains(id) <==> (start_pending.contains(id)
                            && !ids.take(i as int).contains(id))
                    &&& forall|k: int|
                        0 <= k < i ==> self.answered().contains(#[trigger] ids[k])
                },
            decreases rest@.len(),
        {
            let ghost before_pending = self.pending();
            let ghost before_out = self.outgoing();
            let ghost before_answered = self.answered();
            let ghost rest_before = rest@;
            let (h, bytes) = rest.remove(0);
            let ghost hid = h@;
            let ghost bv = bytes@;
            proof {
                assert(rest_before[0] == all[i as int]);
                assert(ids[i as int] == hid);
                assert(rest@ =~= all.skip(i + 1));
                if good {
                    assert(!ids.take(i as int).contains(hid)) by {
                        if ids.take(i as int).contains(hid) {
                            let j = choose|j: int| 0 <= j < i && #[trigger] ids.take(i as int)[j] == hid;
                            assert(ids[j] == ids[i as int]);
                        }
                    }
                    assert(start_pending.contains(ids[i as int]));
                    assert(before_pending.contains(hid));
                }
            }
            let res = self.send_platform_message_response(current, h, bytes);
            if res.is_ok() {
                count = count + 1;
            }
            proof {
                if good {
                    assert(all.take(i + 1) =~= all.take(i as int).push(all[i as int]));
                    assert(reply_outgoing(all.take(i + 1)) =~= reply_outgoing(all.take(i as int)).push(
                        OutgoingModel::Response(hid, bv),
                    ));
                    assert(self.outgoing() =~= start_out + reply_outgoing(all.take(i + 1)));
                    assert(ids.take(i + 1) =~= ids.take(i as int).push(hid));
                    assert forall|id: u64| #[trigger]
                        self.pending().contains(id) <==> (start_pending.contains(id)
                            && !ids.take(i + 1).contains(id)) by {
                        assert(res is Ok);
                        assert(self.pending().contains(id) == (before_pending.contains(id) && id
                            != hid));
                        assert(before_pending.contains(id) == (start_pending.contains(id)
                            && !ids.take(i as int).contains(id)));
                        assert(ids.take(i + 1)[i as int] == hid);
                        if ids.take(i + 1).contains(id) && id != hid {
                            let j = choose|j: int| 0 <= j < i + 1 && #[trigger] ids.take(i + 1)[j] == id;
                            assert(ids.take(i as int)[j] == id);
                        }
                        if ids.take(i as int).contains(id) {
                            let j = choose|j: int| 0 <= j < i && #[trigger] ids.take(i as int)[j] == id;
                            assert(ids.take(i + 1)[j] == id);
                        }
                    }
                    assert forall|k: int| 0 <= k < i + 1 implies self.answered().contains(
                        #[trigger] ids[k],
                    ) by {
                        if k < i {
                            assert(before_answered.contains(ids[k]));
                        }
                    }
                }
            }
            i = i + 1;
        }
        proof {
            assert(all.take(n as int) =~= all);
            assert(ids.take(n as int) =~= ids);
        }
        count
    }

    /// Sends a value on `channel`, standard-encoded.
    pub fn send(&mut self, current: u64, channel: String, value: &Value)
        requires
            old(self).wf(),
            current == old(self).platform_thread(),
            fits(value@),
        ensures
            final(self).wf(),
            final(self).platform_thread() == old(self).platform_thread(),
            final(self).issued() == old(self).issued(),
            final(self).pending() == old(self).pending(),
            final(self).answers_sent() == old(self).answers_sent(),
            final(self).outgoing() == old(self).outgoing().push(
                OutgoingModel::Message(channel@, crate::wire::enc(value@, 0)),
            ),
    {
        let payload = crate::standard_codec::encode_message(value);
        self.send_platform_message(current, channel, payload)
    }

    /// Calls a method on the other side over `channel`, standard-encoded;
    /// any answer comes back later as an inbound call.
    pub fn invoke_method(&mut self, current: u64, channel: String, call: &MethodCall)
        requires
            old(self).wf(),
            current == old(self).platform_thread(),
            fits(ValueModel::Str(call.method@)),
            fits(call.args@),
        ensures
            final(self).wf(),
            final(self).platform_thread() == old(self).platform_thread(),
            final(self).issued() == old(self).issued(),
            final(self).pending() == old(self).pending(),
            final(self).answers_sent() == old(self).answers_sent(),
            final(self).outgoing() == old(self).outgoing().push(
                OutgoingModel::Message(channel@, call_bytes(call.method@, call.args@)),
            ),
    {
        let payload = encode_method_call(call);
        self.send_platform_message(current, channel, payload)
    }

    /// Pushes one success event of a stream on `channel`.
    pub fn send_success_event(&mut self, current: u64, channel: String, data: &Value)
        requires
            old(self).wf(),
            current == old(self).platform_thread(),
            fits(data@),
        ensures
            final(self).wf(),
            final(self).platform_thread() == old(self).platform_thread(),
            final(self).issued() == old(self).issued(),
            final(self).pending() == old(self).pending(),
            final(self).answers_sent() == old(self).answers_sent(),
            final(self).outgoing() == old(self).outgoing().push(
                OutgoingModel::Message(channel@, success_bytes(data@)),
            ),
    {
        let payload = encode_success_envelope(data);
        self.send_platform_message(current, channel, payload)
    }

    /// Pushes one error event of a stream on `channel`.
    pub fn send_error_event(
        &mut self,
        current: u64,
        channel: String,
        code: &String,
        message: &String,
        data: &Value,
    )
        requires
            old(self).wf(),
            current == old(self).platform_thread(),
            fits(ValueModel::Str(code@)),
            fits(ValueModel::Str(message@)),
            fits(data@),
        ensures
            final(self).wf(),
            final(self).platform_thread() == old(self).platform_thread(),
            final(self).issued() == old(self).issued(),
            final(self).pending() == old(self).pending(),
            final(self).answers_sent() == old(self).answers_sent(),
            final(self).outgoing() == old(self).outgoing().push(
                OutgoingModel::Message(channel@, error_bytes(code@, message@, data@)),
            ),
    {
        let payload = encode_error_envelope(code, message, data);
        self.send_platform_message(current, channel, payload)
    }

    /// Hands over everything that waits to go out, oldest first.
    pub fn take_outgoing(&mut self) -> (r: Vec<Outgoing>)
        requires
            old(self).wf(),
        ensures
            final(self).wf(),
            r@.map_values(|o: Outgoing| o@) == old(self).outgoing(),
            final(self).outgoing().len() == 0,
            final(self).platform_thread() == old(self).platform_thread(),
            final(self).issued() == old(self).issued(),
            final(self).pending() == old(self).pending(),
            final(self).answered() == old(self).answered(),
            final(self).answers_sent() == old(self).answers_sent(),
    {
        let mut r: Vec<Outgoing> = Vec::new();
        r.append(&mut self.outgoing);
        assert(self.outgoing() =~= Seq::<OutgoingModel>::empty());
        assert(r@ =~= old(self).outgoing@);
        r
    }

    /// How many calls wait for an answer.
    pub fn pending_count(&self) -> (r: usize)
        ensures
            r == self.pending().len(),
    {
        self.pending.len()
    }

    /// How many answers went out.
    pub fn answers_sent_count(&self) -> (r: u64)
        ensures
            r == self.answers_sent(),
    {
        self.answers_sent
    }

    /// Once no call is pending, every capability that was issued has been
    /// answered, and exactly as many answers went out as capabilities were
    /// issued.
    pub proof fn lemma_exactly_once(&self)
        requires
            self.wf(),
            self.pending().len() == 0,
        ensures
            self.answers_sent() == self.issued(),
            forall|id: u64| id < self.issued() ==> #[trigger] self.answered().contains(id),
    {
        assert forall|id: u64| id < self.issued() implies #[trigger] self.answered().contains(id) by {
            assert(!self.pending@.contains(id));
        }
    }

    /// A capability that has been answered is no longer pending, so it cannot
    /// answer again.
    pub proof fn lemma_answered_not_pending(&self, id: u64)
        requires
            self.wf(),
            self.answered().contains(id),
        ensures
            !self.pending().contains(id),
    {
    }
}

} // verus!
