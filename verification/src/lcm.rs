//! The client: which subscriptions are live, and what each answer of the bus
//! means.
//!
//! The client never talks to the bus itself. Its caller does, and hands in
//! what the bus answered: the handle that creating the bus gave, the token
//! that a registration gave, the status that a call returned. The client
//! keeps the registry and decides.
//!
//! Where an operation has something to say before the bus is asked and
//! something after, it is two functions: `publish` gives the frame to send and
//! `published` reads the answer, `unsubscribe` forgets the subscription and
//! `unsubscribed` reads the answer.

use std::sync::Arc;
use vstd::prelude::*;
use vstd::string::StringSliceAdditionalSpecFns;
use vstd::utf8::encode_utf8;
use crate::error::{DecodeError, LcmError};
use crate::message::{decode_with_hash, encode_with_hash, Message};
use crate::message::{spec_decode_with_hash, spec_encode_with_hash};

verus! {

/// One handler bound to one channel of the bus.
///
/// The token is the name that the bus gave to the registration. The handler
/// takes the raw bytes of a message; it is opaque to the client.
pub struct LcmSubscription<H> {
    subscription: usize,
    handler: H,
}

impl<H> LcmSubscription<H> {
    /// The token of the registration.
    pub closed spec fn spec_token(&self) -> usize {
        self.subscription
    }

    /// The handler of the registration.
    pub closed spec fn spec_handler(&self) -> H {
        self.handler
    }

    /// The token of the registration.
    #[verifier::when_used_as_spec(spec_token)]
    pub fn token(&self) -> (token: usize)
        ensures
            token == self.spec_token(),
    {
        self.subscription
    }

    /// The handler of the registration.
    pub fn handler(&self) -> (handler: &H)
        ensures
            *handler == self.spec_handler(),
    {
        &self.handler
    }
}

/// A second owner of a shared subscription.
///
/// Trusted: this is `Arc::clone`. Its documentation says that it makes
/// another pointer to the same allocation, so what the new pointer points to
/// is what the old one points to.
#[verifier::external_body]
fn share<H>(subscription: &Arc<LcmSubscription<H>>) -> (shared: Arc<LcmSubscription<H>>)
    ensures
        shared == *subscription,
{
    Arc::clone(subscription)
}

/// A client of the bus.
///
/// Its view is the registry: a finite map from the token of each live
/// subscription to its handler.
pub struct Lcm<H> {
    lcm: usize,
    subscriptions: Vec<Arc<LcmSubscription<H>>>,
}

impl<H> View for Lcm<H> {
    type V = Map<usize, H>;

    closed spec fn view(&self) -> Map<usize, H> {
        registry(self.subscriptions@)
    }
}

/// Whether one of `subscriptions` has the token `token`.
spec fn holds<H>(subscriptions: Seq<Arc<LcmSubscription<H>>>, token: usize) -> bool {
    exists|i: int| 0 <= i < subscriptions.len() && subscriptions[i].subscription == token
}

/// The place of the subscription with the token `token`.
spec fn place<H>(subscriptions: Seq<Arc<LcmSubscription<H>>>, token: usize) -> int {
    choose|i: int| 0 <= i < subscriptions.len() && subscriptions[i].subscription == token
}

/// No two of `subscriptions` share a token, and no token is null.
spec fn distinct<H>(subscriptions: Seq<Arc<LcmSubscription<H>>>) -> bool {
    &&& forall|i: int| 0 <= i < subscriptions.len() ==> subscriptions[i].subscription != 0
    &&& forall|i: int, j: int|
        0 <= i < j < subscriptions.len() ==> subscriptions[i].subscription
            != subscriptions[j].subscription
}

/// The map from token to handler that `subscriptions` stand for.
spec fn registry<H>(subscriptions: Seq<Arc<LcmSubscription<H>>>) -> Map<usize, H> {
    Map::new(
        |token: usize| holds(subscriptions, token),
        |token: usize| subscriptions[place(subscriptions, token)].handler,
    )
}

impl<H> Lcm<H> {
    #[verifier::type_invariant]
    spec fn well_formed(&self) -> bool {
        &&& self.lcm != 0
        &&& distinct(self.subscriptions@)
    }

    /// The handle of the bus that this client owns.
    pub closed spec fn spec_transport(&self) -> usize {
        self.lcm
    }

    /// A client for the bus behind `handle`, with no subscriptions.
    ///
    /// `handle` is what creating the bus gave: null where that failed, and
    /// then there is no client.
    pub fn new(handle: usize) -> (r: Result<Lcm<H>, LcmError>)
        ensures
            handle == 0 ==> r == Err::<Lcm<H>, LcmError>(LcmError::FailedToInitialize),
            handle != 0 ==> r is Ok && r->Ok_0.spec_transport() == handle && r->Ok_0@ == Map::<
                usize,
                H,
            >::empty(),
    {
        if handle == 0 {
            Err(LcmError::FailedToInitialize)
        } else {
            let client = Lcm { lcm: handle, subscriptions: Vec::new() };
            assert(client@ =~= Map::<usize, H>::empty());
            Ok(client)
        }
    }

    /// The handle of the bus that this client owns. It is never null.
    #[verifier::when_used_as_spec(spec_transport)]
    pub fn transport(&self) -> (handle: usize)
        ensures
            handle == self.spec_transport(),
            handle != 0,
    {
        proof {
            use_type_invariant(self);
        }
        self.lcm
    }

    /// The number of live subscriptions.
    pub fn subscription_count(&self) -> (count: usize)
        ensures
            self@.dom().finite(),
            count == self@.len(),
    {
        proof {
            use_type_invariant(self);
            lemma_registry_len(self.subscriptions@);
        }
        self.subscriptions.len()
    }

    /// The place of the subscription with the token `token`, if it is live.
    fn find(&self, token: usize) -> (found: Option<usize>)
        ensures
            match found {
                Some(i) => i < self.subscriptions@.len() && self.subscriptions@[i as int].subscription
                    == token,
                None => !holds(self.subscriptions@, token),
            },
    {
        let mut i: usize = 0;
        while i < self.subscriptions.len()
            invariant
                i <= self.subscriptions@.len(),
                forall|k: int| 0 <= k < i ==> self.subscriptions@[k].subscription != token,
            decreases self.subscriptions@.len() - i,
        {
            if self.subscriptions[i].subscription == token {
                return Some(i);
            }
            i += 1;
        }
        None
    }

    /// Records the registration that the bus answered with `token`.
    ///
    /// `token` is what registering a channel with the bus gave. A null token
    /// means that the bus refused; a token that a live subscription already
    /// has cannot name a second one. In both cases nothing is recorded.
    /// Otherwise the subscription is live from now on, and the caller shares
    /// it with the registry.
    pub fn subscribe(&mut self, token: usize, handler: H) -> (r: Result<
        Arc<LcmSubscription<H>>,
        LcmError,
    >)
        ensures
            final(self).spec_transport() == old(self).spec_transport(),
            token == 0 || old(self)@.dom().contains(token) ==> r == Err::<
                Arc<LcmSubscription<H>>,
                LcmError,
            >(LcmError::FailedToSubscribe) && final(self)@ == old(self)@,
            token != 0 && !old(self)@.dom().contains(token) ==> r is Ok && r->Ok_0.spec_token()
                == token && r->Ok_0.spec_handler() == handler && final(self)@ == old(self)@.insert(
                token,
                handler,
            ),
    {
        proof {
            use_type_invariant(&*self);
        }
        if token == 0 {
            return Err(LcmError::FailedToSubscribe);
        }
        if self.find(token).is_some() {
            return Err(LcmError::FailedToSubscribe);
        }
        let subscription = Arc::new(LcmSubscription { subscription: token, handler });
        let shared = share(&subscription);
        proof {
            lemma_registry_push(self.subscriptions@, shared);
        }
        let mut subscriptions: Vec<Arc<LcmSubscription<H>>> = Vec::new();
        std::mem::swap(&mut subscriptions, &mut self.subscriptions);
        subscriptions.push(shared);
        self.subscriptions = subscriptions;
        Ok(subscription)
    }

    /// The live subscription with the token `token`.
    ///
    /// This is the lookup that the bus's callback makes when a message
    /// arrives for a registration: only a live subscription is handed out.
    pub fn dispatch(&self, token: usize) -> (r: Option<Arc<LcmSubscription<H>>>)
        ensures
            !self@.dom().contains(token) ==> r is None,
            self@.dom().contains(token) ==> r is Some && r->Some_0.spec_token() == token
                && r->Some_0.spec_handler() == self@[token],
    {
        proof {
            use_type_invariant(self);
        }
        match self.find(token) {
            Some(i) => Some(share(&self.subscriptions[i])),
            None => None,
        }
    }

    /// Forgets the subscription that `handler` names, and gives the token
    /// whose registration is then to be removed from the bus.
    ///
    /// The registry forgets first, the bus second: from here on no lookup
    /// finds the subscription, whatever the bus goes on to say about the
    /// token. No other subscription is touched.
    pub fn unsubscribe(&mut self, handler: Arc<LcmSubscription<H>>) -> (token: usize)
        ensures
            token == handler.spec_token(),
            final(self).spec_transport() == old(self).spec_transport(),
            final(self)@ == old(self)@.remove(token),
    {
        proof {
            use_type_invariant(&*self);
        }
        let token = handler.subscription;
        match self.find(token) {
            Some(i) => {
                proof {
                    lemma_registry_remove(self.subscriptions@, i as int);
                }
                let mut subscriptions: Vec<Arc<LcmSubscription<H>>> = Vec::new();
                std::mem::swap(&mut subscriptions, &mut self.subscriptions);
                let _ = subscriptions.remove(i);
                self.subscriptions = subscriptions;
            },
            None => {
                assert(self@ =~= self@.remove(token));
            },
        }
        token
    }

    /// What the bus's answer to the removal of a token means: zero says that
    /// the bus knew the token and has removed it.
    pub fn unsubscribed(&self, status: i32) -> (r: Result<(), LcmError>)
        ensures
            status == 0 ==> r == Ok::<(), LcmError>(()),
            status != 0 ==> r == Err::<(), LcmError>(LcmError::FailedToUnsubscribe),
    {
        if status == 0 {
            Ok(())
        } else {
            Err(LcmError::FailedToUnsubscribe)
        }
    }

    /// The frame to hand to the bus for `message`.
    ///
    /// The bus takes the length of a frame as an unsigned 32-bit number. A
    /// frame that is longer cannot be sent and is refused here.
    pub fn publish<M: Message>(&self, message: &M) -> (r: Result<Vec<u8>, LcmError>)
        ensures
            spec_encode_with_hash::<M>(message@).len() <= u32::MAX ==> r is Ok && r->Ok_0@
                == spec_encode_with_hash::<M>(message@),
            spec_encode_with_hash::<M>(message@).len() > u32::MAX ==> r == Err::<
                Vec<u8>,
                LcmError,
            >(LcmError::FailedToPublish),
    {
        let frame = encode_with_hash(message);
        if frame.len() > u32::MAX as usize {
            Err(LcmError::FailedToPublish)
        } else {
            Ok(frame)
        }
    }

    /// What the bus's answer to a frame means: zero is success.
    pub fn published(&self, status: i32) -> (r: Result<(), LcmError>)
        ensures
            status == 0 ==> r == Ok::<(), LcmError>(()),
            status != 0 ==> r == Err::<(), LcmError>(LcmError::FailedToPublish),
    {
        if status == 0 {
            Ok(())
        } else {
            Err(LcmError::FailedToPublish)
        }
    }

    /// What the bus's answer to waiting for one message means: zero says
    /// that one message was handled.
    pub fn handle(&self, status: i32) -> (r: Result<(), LcmError>)
        ensures
            status == 0 ==> r == Ok::<(), LcmError>(()),
            status != 0 ==> r == Err::<(), LcmError>(LcmError::InternalError),
    {
        if status == 0 {
            Ok(())
        } else {
            Err(LcmError::InternalError)
        }
    }

    /// What the bus's answer to waiting for one message within a time limit
    /// means: a positive status says that one message was handled, zero that
    /// the time ran out, a negative one that the bus failed.
    pub fn handle_timeout(&self, status: i32) -> (r: Result<(), LcmError>)
        ensures
            status > 0 ==> r == Ok::<(), LcmError>(()),
            status == 0 ==> r == Err::<(), LcmError>(LcmError::Timeout),
            status < 0 ==> r == Err::<(), LcmError>(LcmError::InternalError),
    {
        if status < 0 {
            Err(LcmError::InternalError)
        } else if status == 0 {
            Err(LcmError::Timeout)
        } else {
            Ok(())
        }
    }

    /// The token and the capacity to hand to the bus so that it queues up to
    /// `num_messages` undelivered messages for the subscription.
    ///
    /// The bus takes the capacity as a signed 32-bit number; a larger request
    /// asks for the largest capacity that the bus can be told.
    pub fn subscription_set_queue_capacity(
        &self,
        handler: Arc<LcmSubscription<H>>,
        num_messages: usize,
    ) -> (r: (usize, i32))
        ensures
            r.0 == handler.spec_token(),
            num_messages <= i32::MAX ==> r.1 == num_messages,
            num_messages > i32::MAX ==> r.1 == i32::MAX,
    {
        let capacity: i32 = if num_messages > i32::MAX as usize {
            i32::MAX
        } else {
            num_messages as i32
        };
        (handler.subscription, capacity)
    }
}

/// Whether `channel` can name a channel of the bus. The bus takes a name as
/// a string that a zero byte closes, so the name itself holds none.
pub open spec fn valid_channel(channel: Seq<char>) -> bool {
    !encode_utf8(channel).contains(0u8)
}

/// The name of `channel` as the bus takes it: its UTF-8 bytes and a closing
/// zero byte. A name that holds a zero byte has no such form.
pub fn channel_name(channel: &str) -> (r: Option<Vec<u8>>)
    ensures
        match r {
            Some(name) => valid_channel(channel@) && name@ == encode_utf8(channel@).push(0u8),
            None => !valid_channel(channel@),
        },
{
    let bytes: &[u8] = channel.as_bytes();
    let mut name: Vec<u8> = Vec::new();
    let mut i: usize = 0;
    while i < bytes.len()
        invariant
            bytes@ == encode_utf8(channel@),
            i <= bytes@.len(),
            name@ == bytes@.subrange(0, i as int),
            forall|k: int| 0 <= k < i ==> bytes@[k] != 0,
        decreases bytes@.len() - i,
    {
        if bytes[i] == 0 {
            assert(bytes@[i as int] == 0u8);
            return None;
        }
        name.push(bytes[i]);
        assert(name@ =~= bytes@.subrange(0, i + 1));
        i += 1;
    }
    assert(name@ =~= bytes@);
    name.push(0);
    Some(name)
}

/// The number of undelivered messages that the bus queues for a subscription
/// whose capacity was never set.
pub const DEFAULT_QUEUE_CAPACITY: usize = 30;

/// The whole milliseconds in a duration of `secs` seconds and `subsec_nanos`
/// nanoseconds.
pub open spec fn spec_timeout_millis(secs: u64, subsec_nanos: u32) -> int {
    secs * 1000 + subsec_nanos / 1_000_000
}

/// The time limit to hand to the bus for a duration of `secs` seconds and
/// `subsec_nanos` nanoseconds: its whole milliseconds.
///
/// The bus takes the limit as a signed 32-bit number; a longer duration asks
/// for the longest wait that the bus can be told.
pub fn timeout_millis(secs: u64, subsec_nanos: u32) -> (millis: i32)
    ensures
        spec_timeout_millis(secs, subsec_nanos) <= i32::MAX ==> millis == spec_timeout_millis(
            secs,
            subsec_nanos,
        ),
        spec_timeout_millis(secs, subsec_nanos) > i32::MAX ==> millis == i32::MAX,
{
    let rest: u64 = (subsec_nanos / 1_000_000) as u64;
    if secs > (i32::MAX as u64) / 1000 {
        i32::MAX
    } else {
        let total: u64 = secs * 1000 + rest;
        if total > i32::MAX as u64 {
            i32::MAX
        } else {
            total as i32
        }
    }
}

/// Reads `frame` as a message of type `M` and hands the message to
/// `callback`.
///
/// A frame that does not decode is answered with the reason, and then
/// `callback` is not called: one bad frame on the wire is no failure of the
/// client.
pub fn decode_and_invoke<M: Message, F: FnOnce(M)>(frame: &[u8], callback: F) -> (r: Result<
    (),
    DecodeError,
>)
    requires
        forall|message: M| call_requires(callback, (message,)),
    ensures
        match r {
            Ok(_) => exists|message: M|
                spec_decode_with_hash::<M>(frame@) == Ok::<M::V, DecodeError>(message@)
                    && call_ensures(callback, (message,), ()),
            Err(e) => spec_decode_with_hash::<M>(frame@) == Err::<M::V, DecodeError>(e),
        },
{
    match decode_with_hash::<M>(frame) {
        Ok(message) => {
            callback(message);
            Ok(())
        },
        Err(e) => Err(e),
    }
}

/// A call that changed the registry.
pub enum Change<H> {
    /// A subscription was recorded.
    Subscribed { token: usize, handler: H },
    /// A subscription was forgotten.
    Unsubscribed { token: usize },
}

/// The registry after one change.
pub open spec fn apply<H>(registry: Map<usize, H>, change: Change<H>) -> Map<usize, H> {
    match change {
        Change::Subscribed { token, handler } => registry.insert(token, handler),
        Change::Unsubscribed { token } => registry.remove(token),
    }
}

/// The registry of a new client after `changes`, oldest first.
pub open spec fn replay<H>(changes: Seq<Change<H>>) -> Map<usize, H>
    decreases changes.len(),
{
    if changes.len() == 0 {
        Map::empty()
    } else {
        apply(replay(changes.drop_last()), changes.last())
    }
}

/// Every change in `changes` is one that a client and its bus can go through:
/// a subscription is recorded under a token that is not null and not live at
/// that moment, and the subscription that is forgotten is live at that moment.
pub open spec fn orderly<H>(changes: Seq<Change<H>>) -> bool
    decreases changes.len(),
{
    changes.len() == 0 || (orderly(changes.drop_last()) && match changes.last() {
        Change::Subscribed { token, .. } => token != 0 && !replay(
            changes.drop_last(),
        ).dom().contains(token),
        Change::Unsubscribed { token } => replay(changes.drop_last()).dom().contains(token),
    })
}

/// How many of `changes` recorded a subscription.
pub open spec fn subscribed<H>(changes: Seq<Change<H>>) -> nat
    decreases changes.len(),
{
    if changes.len() == 0 {
        0
    } else {
        subscribed(changes.drop_last()) + if changes.last() is Subscribed {
            1nat
        } else {
            0nat
        }
    }
}

/// How many of `changes` forgot a subscription.
pub open spec fn unsubscribed<H>(changes: Seq<Change<H>>) -> nat
    decreases changes.len(),
{
    if changes.len() == 0 {
        0
    } else {
        unsubscribed(changes.drop_last()) + if changes.last() is Unsubscribed {
            1nat
        } else {
            0nat
        }
    }
}

/// The number of live subscriptions is the number of subscriptions that were
/// recorded less the number of those that were forgotten, whatever the order
/// in which that happened.
pub proof fn lemma_live_count<H>(changes: Seq<Change<H>>)
    requires
        orderly(changes),
    ensures
        replay(changes).dom().finite(),
        unsubscribed(changes) <= subscribed(changes),
        replay(changes).len() == subscribed(changes) - unsubscribed(changes),
    decreases changes.len(),
{
    if changes.len() > 0 {
        lemma_live_count(changes.drop_last());
    }
}

/// Once a subscription is forgotten, no lookup finds its token again, however
/// many other subscriptions come and go, until the bus hands out the same
/// token for a new registration.
pub proof fn lemma_unsubscribed_stays_out<H>(
    before: Seq<Change<H>>,
    token: usize,
    after: Seq<Change<H>>,
)
    requires
        forall|i: int|
            0 <= i < after.len() ==> !(#[trigger] after[i] matches Change::Subscribed {
                token: other,
                ..
            } && other == token),
    ensures
        !replay(before.push(Change::Unsubscribed { token }) + after).dom().contains(token),
    decreases after.len(),
{
    let gone = before.push(Change::Unsubscribed { token });
    if after.len() == 0 {
        assert(gone + after =~= gone);
        assert(gone.drop_last() =~= before);
    } else {
        lemma_unsubscribed_stays_out(before, token, after.drop_last());
        assert((gone + after).drop_last() =~= gone + after.drop_last());
        assert((gone + after).last() == after.last());
    }
}

/// With distinct tokens, there are as many live tokens as subscriptions.
proof fn lemma_registry_len<H>(subscriptions: Seq<Arc<LcmSubscription<H>>>)
    requires
        distinct(subscriptions),
    ensures
        registry(subscriptions).dom().finite(),
        registry(subscriptions).dom().len() == subscriptions.len(),
    decreases subscriptions.len(),
{
    if subscriptions.len() == 0 {
        assert(registry(subscriptions).dom() =~= Set::<usize>::empty());
    } else {
        let rest = subscriptions.drop_last();
        let last = subscriptions.last();
        lemma_registry_len(rest);
        assert(subscriptions =~= rest.push(last));
        lemma_registry_push(rest, last);
    }
}

/// Taking one subscription out takes its token out of the registry.
proof fn lemma_registry_remove<H>(subscriptions: Seq<Arc<LcmSubscription<H>>>, at: int)
    requires
        distinct(subscriptions),
        0 <= at < subscriptions.len(),
    ensures
        distinct(subscriptions.remove(at)),
        registry(subscriptions.remove(at)) == registry(subscriptions).remove(
            subscriptions[at].subscription,
        ),
{
    let after = subscriptions.remove(at);
    let gone = subscriptions[at].subscription;
    assert forall|token: usize| holds(after, token) <==> (holds(subscriptions, token) && token
        != gone) by {
        if holds(after, token) {
            let i = place(after, token);
            let k = if i < at { i } else { i + 1 };
            assert(subscriptions[k].subscription == token);
        }
        if holds(subscriptions, token) && token != gone {
            let k = place(subscriptions, token);
            let i = if k < at { k } else { k - 1 };
            assert(after[i].subscription == token);
        }
    }
    assert forall|token: usize| holds(after, token) implies #[trigger] registry(after)[token]
        == registry(subscriptions)[token] by {
        let i = place(after, token);
        let k = if i < at { i } else { i + 1 };
        assert(subscriptions[k].subscription == token);
        assert(place(subscriptions, token) == k);
    }
    assert(registry(after) =~= registry(subscriptions).remove(gone));
}

/// Adding a subscription with a fresh token adds one entry to the registry.
proof fn lemma_registry_push<H>(
    subscriptions: Seq<Arc<LcmSubscription<H>>>,
    added: Arc<LcmSubscription<H>>,
)
    requires
        distinct(subscriptions),
        added.subscription != 0,
        !holds(subscriptions, added.subscription),
    ensures
        distinct(subscriptions.push(added)),
        registry(subscriptions.push(added)) == registry(subscriptions).insert(
            added.subscription,
            added.handler,
        ),
{
    let after = subscriptions.push(added);
    let n = subscriptions.len() as int;
    assert(after[n] == added);
    assert forall|token: usize| holds(after, token) <==> (holds(subscriptions, token) || token
        == added.subscription) by {
        if holds(after, token) {
            let i = place(after, token);
            if i < n {
                assert(subscriptions[i].subscription == token);
            }
        }
        if holds(subscriptions, token) {
            let i = place(subscriptions, token);
            assert(after[i].subscription == token);
        }
    }
    assert forall|token: usize| holds(after, token) implies #[trigger] registry(after)[token] == (
    if token == added.subscription {
        added.handler
    } else {
        registry(subscriptions)[token]
    }) by {
        let i = place(after, token);
        if token == added.subscription {
            assert(i == n);
        } else {
            let j = place(subscriptions, token);
            assert(after[j].subscription == token);
            assert(i == j);
        }
    }
    assert(registry(after) =~= registry(subscriptions).insert(added.subscription, added.handler));
}

} // verus!
