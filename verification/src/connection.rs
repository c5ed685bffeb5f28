//! Connection handles, the shared connection state they own, and the event
//! bridge the native runtime invokes.
//!
//! The native runtime and the process's shared connection states are modelled
//! explicitly by [`XpcHost`]: one slot per connection, holding the strong
//! reference count of the handles, the optional delegate, and the ordered log
//! of native calls issued for that connection. A handle is an index into the
//! host; clones of a handle share its slot, which is what makes delegate
//! assignment through one clone visible through every other. The foreign
//! event callback registered at construction holds only the non-owning
//! [`XPCConnectionWeak`] back-reference; it never keeps a slot alive, and
//! resolving it fails cleanly once the last strong handle is gone.
//!
//! What the native runtime itself decides — whether creation returns a null
//! handle, whether an envelope can be allocated, what a blocking reply
//! carries — enters these functions as explicit arguments, and every
//! contract states what holds for each possible answer.

use vstd::prelude::*;

use crate::codec::Value;
use crate::codec::deep;
use crate::envelope::Envelope;
use crate::envelope::build_message_dictionary;
use crate::envelope::is_message_envelope_for;
use crate::envelope::retrieve_r_data;
use crate::envelope::retrieve_spec;
use crate::error::ConnectionError;
use crate::options::ConnectionOptions;
use crate::utils::NSOperatingSystemVersion;

verus! {

/// Implemented by application code to receive decoded events. The default
/// ignores the event, so implementors opt in only to what they care about.
pub trait XPCConnectionDelegate {
    /// Called once, in order, for each event delivered on the connection.
    fn handle_event(&self, event: &Value) {
    }
}

/// One native call issued for a connection, in the order the wrapper issued
/// them. The wrapper never reorders, buffers or coalesces.
#[derive(Debug, PartialEq, Eq)]
pub enum NativeCall {
    Activate,
    Resume,
    Suspend,
    Cancel,
    SendMessage(Envelope),
    SendMessageWithReplySync(Envelope),
    Release,
}

/// The shared state of one connection: how many strong handles own it, the
/// delegate, the native handle it wraps, the option bits it was created
/// with, and the log of native calls issued for it.
pub struct ConnectionSlot<D> {
    pub strong: usize,
    pub delegate: Option<D>,
    pub native: u64,
    pub native_flags: u64,
    pub calls: Vec<NativeCall>,
}

/// The process-wide picture: every connection's shared state, plus the host
/// operating-system version, computed once and never changed.
pub struct XpcHost<D: XPCConnectionDelegate> {
    pub slots: Vec<ConnectionSlot<D>>,
    pub version: NSOperatingSystemVersion,
}

/// A strong, reference-counted handle to one connection's shared state.
/// Cloning goes through `clone_handle`, which takes the extra strong
/// reference on the shared state.
#[derive(Debug, PartialEq, Eq, Structural)]
pub struct XPCConnection {
    pub id: usize,
}

/// The non-owning back-reference the foreign event callback carries. It can
/// be resolved to a strong handle only while the state is still alive; it
/// never keeps the state alive itself.
#[derive(Clone, Copy, Debug, PartialEq, Eq, Structural)]
pub struct XPCConnectionWeak {
    pub id: usize,
}

/// What one foreign callback invocation did with its event.
#[derive(Debug, PartialEq, Eq)]
pub enum EventOutcome {
    /// The decoded value was forwarded to the registered delegate.
    Delivered(Value),
    /// No delegate is registered; the event was silently dropped.
    DroppedNoDelegate,
    /// The payload did not decode; the event was dropped, never a crash.
    DecodeFailed,
    /// The connection state was already destroyed; the back-reference could
    /// not be resolved and the event was discarded.
    DiscardedDeadConnection,
}

impl<D: XPCConnectionDelegate> XpcHost<D> {
    /// Whether the connection state `id` still exists and is owned by at
    /// least one strong handle.
    pub open spec fn live(self, id: int) -> bool {
        0 <= id < self.slots@.len() && self.slots@[id].strong > 0
    }

    /// Strong reference count of slot `id`.
    pub open spec fn strong_of(self, id: int) -> usize {
        self.slots@[id].strong
    }

    /// Delegate of slot `id`.
    pub open spec fn delegate_of(self, id: int) -> Option<D> {
        self.slots@[id].delegate
    }

    /// The delegate that event delivery uses when reached through handle
    /// `c` — the slot's delegate, whatever clone `c` is.
    pub open spec fn delegate_seen_by(self, c: XPCConnection) -> Option<D> {
        if 0 <= c.id < self.slots@.len() {
            self.slots@[c.id as int].delegate
        } else {
            None
        }
    }

    /// Everything outside slot `id` is as in `pre`.
    pub open spec fn unchanged_except(self, pre: Self, id: int) -> bool {
        &&& self.version == pre.version
        &&& self.slots@.len() == pre.slots@.len()
        &&& forall|k: int|
            0 <= k < pre.slots@.len() && k != id ==> self.slots@[k] == pre.slots@[k]
    }

    /// A fresh host with no connections, caching the version computed once
    /// for the process's life.
    pub fn new(version: NSOperatingSystemVersion) -> (r: Self)
        ensures
            r.slots@.len() == 0,
            r.version == version,
    {
        XpcHost { slots: Vec::new(), version }
    }
}

/// Slot `id`'s fields other than `calls` are as in `pre`, and one call was
/// appended to its log; nothing else changed.
pub open spec fn appended_frame<D: XPCConnectionDelegate>(
    pre: XpcHost<D>,
    post: XpcHost<D>,
    id: int,
) -> bool {
    &&& 0 <= id < pre.slots@.len()
    &&& post.unchanged_except(pre, id)
    &&& post.slots@[id].strong == pre.slots@[id].strong
    &&& post.slots@[id].delegate == pre.slots@[id].delegate
    &&& post.slots@[id].native == pre.slots@[id].native
    &&& post.slots@[id].native_flags == pre.slots@[id].native_flags
    &&& post.slots@[id].calls@.len() == pre.slots@[id].calls@.len() + 1
    &&& post.slots@[id].calls@.subrange(0, pre.slots@[id].calls@.len() as int) == pre.slots@[
        id
    ].calls@
}

/// Exactly `call` was appended to slot `id`'s log; nothing else changed.
pub open spec fn appended_call<D: XPCConnectionDelegate>(
    pre: XpcHost<D>,
    post: XpcHost<D>,
    id: int,
    call: NativeCall,
) -> bool {
    &&& appended_frame(pre, post, id)
    &&& post.slots@[id].calls@.last() == call
}

/// A fire-and-forget send of `v` was appended to slot `id`'s log; nothing
/// else changed.
pub open spec fn appended_send<D: XPCConnectionDelegate>(
    pre: XpcHost<D>,
    post: XpcHost<D>,
    id: int,
    v: Value,
) -> bool {
    &&& appended_frame(pre, post, id)
    &&& (post.slots@[id].calls@.last() matches NativeCall::SendMessage(env)
        && is_message_envelope_for(env, v))
}

/// A blocking send of `v` was appended to slot `id`'s log; nothing else
/// changed.
pub open spec fn appended_send_with_reply<D: XPCConnectionDelegate>(
    pre: XpcHost<D>,
    post: XpcHost<D>,
    id: int,
    v: Value,
) -> bool {
    &&& appended_frame(pre, post, id)
    &&& (post.slots@[id].calls@.last() matches NativeCall::SendMessageWithReplySync(env)
        && is_message_envelope_for(env, v))
}

/// `post` extends `pre` with one fresh connection state: one strong handle,
/// no delegate, wrapping `native`, created with the bits `flags`, no native
/// calls issued yet. The foreign event callback registered for it carries
/// the back-reference to the new slot (see `XPCConnection::downgrade`).
pub open spec fn freshly_created<D: XPCConnectionDelegate>(
    pre: XpcHost<D>,
    post: XpcHost<D>,
    c: XPCConnection,
    native: u64,
    flags: u64,
) -> bool {
    &&& c.id == pre.slots@.len()
    &&& post.version == pre.version
    &&& post.slots@.len() == pre.slots@.len() + 1
    &&& forall|k: int| 0 <= k < pre.slots@.len() ==> post.slots@[k] == pre.slots@[k]
    &&& post.slots@[c.id as int].strong == 1
    &&& post.slots@[c.id as int].delegate is None
    &&& post.slots@[c.id as int].native == native
    &&& post.slots@[c.id as int].native_flags == flags
    &&& post.slots@[c.id as int].calls@.len() == 0
}

impl XPCConnection {
    /// Allocates the shared state for a connection wrapping `native` and
    /// registers the foreign event callback with the native runtime; the
    /// callback carries only the non-owning back-reference to the new slot.
    fn finish_setup<D: XPCConnectionDelegate>(
        native: u64,
        native_flags: u64,
        host: &mut XpcHost<D>,
    ) -> (c: XPCConnection)
        ensures
            freshly_created(*old(host), *final(host), c, native, native_flags),
            final(host).live(c.id as int),
    {
        let id = host.slots.len();
        host.slots.push(
            ConnectionSlot {
                strong: 1,
                delegate: None,
                native,
                native_flags,
                calls: Vec::new(),
            },
        );
        XPCConnection { id }
    }

    /// Creates an anonymous connection bound to the local service name `n`.
    /// `native_handle` is what the native creation primitive returned:
    /// `None` stands for a null handle and yields `CreationFailed` with the
    /// name, never a panic and never a usable handle; `Some` always yields a
    /// fresh connection.
    pub fn create<D: XPCConnectionDelegate>(
        n: &str,
        native_handle: Option<u64>,
        host: &mut XpcHost<D>,
    ) -> (r: Result<XPCConnection, ConnectionError>)
        ensures
            match r {
                Ok(c) => native_handle matches Some(h) && freshly_created(
                    *old(host),
                    *final(host),
                    c,
                    h,
                    0,
                ),
                Err(e) => native_handle is None && e.is_creation_failed_for(n@) && *final(host)
                    == *old(host),
            },
    {
        match native_handle {
            Some(h) => Ok(XPCConnection::finish_setup(h, 0, host)),
            None => Err(ConnectionError::CreationFailed(n.to_owned())),
        }
    }

    /// Creates a connection bound to the system-registered service name `n`
    /// with the given option bits. The bits that reach the native primitive
    /// are `options.effective_bits()`: PRIVILEGED is a no-op under LISTENER.
    /// Failure behaves exactly as in `create`.
    pub fn create_mach_service<D: XPCConnectionDelegate>(
        n: &str,
        options: ConnectionOptions,
        native_handle: Option<u64>,
        host: &mut XpcHost<D>,
    ) -> (r: Result<XPCConnection, ConnectionError>)
        ensures
            match r {
                Ok(c) => native_handle matches Some(h) && freshly_created(
                    *old(host),
                    *final(host),
                    c,
                    h,
                    options.effective_bits(),
                ),
                Err(e) => native_handle is None && e.is_creation_failed_for(n@) && *final(host)
                    == *old(host),
            },
    {
        let flags = options.to_effective_bits();
        match native_handle {
            Some(h) => Ok(XPCConnection::finish_setup(h, flags, host)),
            None => Err(ConnectionError::CreationFailed(n.to_owned())),
        }
    }

    /// Wraps an already-valid foreign handle, as when a listener receives an
    /// inbound connection. This path never fails.
    pub fn from_native<D: XPCConnectionDelegate>(handle: u64, host: &mut XpcHost<D>) -> (c:
        XPCConnection)
        ensures
            freshly_created(*old(host), *final(host), c, handle, 0),
            final(host).live(c.id as int),
    {
        XPCConnection::finish_setup(handle, 0, host)
    }

    /// One more strong handle to the same connection state.
    pub fn clone_handle<D: XPCConnectionDelegate>(&self, host: &mut XpcHost<D>) -> (c:
        XPCConnection)
        requires
            old(host).live(self.id as int),
            old(host).strong_of(self.id as int) < usize::MAX,
        ensures
            c.id == self.id,
            final(host).unchanged_except(*old(host), self.id as int),
            final(host).strong_of(self.id as int) == old(host).strong_of(self.id as int) + 1,
            final(host).slots@[self.id as int].delegate == old(host).slots@[self.id as int].delegate,
            final(host).slots@[self.id as int].native == old(host).slots@[self.id as int].native,
            final(host).slots@[self.id as int].native_flags == old(host).slots@[
                self.id as int
            ].native_flags,
            final(host).slots@[self.id as int].calls@ == old(host).slots@[self.id as int].calls@,
    {
        let s = host.slots[self.id].strong;
        host.slots[self.id].strong = s + 1;
        XPCConnection { id: self.id }
    }

    /// The non-owning back-reference to this connection's state: what the
    /// registered foreign callback carries. It never keeps the state alive.
    pub fn downgrade(&self) -> (w: XPCConnectionWeak)
        ensures
            w.id == self.id,
    {
        XPCConnectionWeak { id: self.id }
    }

    /// Gives up this strong handle. When the last one goes, the shared state
    /// is destroyed: the delegate is dropped, the native handle is released,
    /// and the registered callback's back-reference stops resolving.
    pub fn drop_handle<D: XPCConnectionDelegate>(self, host: &mut XpcHost<D>)
        requires
            old(host).live(self.id as int),
        ensures
            final(host).unchanged_except(*old(host), self.id as int),
            final(host).strong_of(self.id as int) == old(host).strong_of(self.id as int) - 1,
            final(host).slots@[self.id as int].native == old(host).slots@[self.id as int].native,
            final(host).slots@[self.id as int].native_flags == old(host).slots@[
                self.id as int
            ].native_flags,
            old(host).strong_of(self.id as int) > 1 ==> {
                &&& final(host).slots@[self.id as int].delegate == old(host).slots@[
                    self.id as int
                ].delegate
                &&& final(host).slots@[self.id as int].calls@ == old(host).slots@[
                    self.id as int
                ].calls@
            },
            old(host).strong_of(self.id as int) == 1 ==> {
                &&& !final(host).live(self.id as int)
                &&& final(host).slots@[self.id as int].delegate is None
                &&& final(host).slots@[self.id as int].calls@.len() == old(host).slots@[
                    self.id as int
                ].calls@.len() + 1
                &&& final(host).slots@[self.id as int].calls@.subrange(
                    0,
                    old(host).slots@[self.id as int].calls@.len() as int,
                ) == old(host).slots@[self.id as int].calls@
                &&& final(host).slots@[self.id as int].calls@.last() == NativeCall::Release
            },
    {
        let s = host.slots[self.id].strong;
        host.slots[self.id].strong = s - 1;
        if s == 1 {
            host.slots[self.id].delegate = None;
            let ghost pre_calls = host.slots@[self.id as int].calls@;
            host.slots[self.id].calls.push(NativeCall::Release);
            proof {
                assert(host.slots@[self.id as int].calls@.subrange(0, pre_calls.len() as int)
                    =~= pre_calls);
            }
        }
    }

    /// Registers (or replaces) the delegate. The assignment lands in the
    /// shared state, so it is seen by event delivery through every clone of
    /// this handle, whichever clone's registration triggers it.
    pub fn set_delegate<D: XPCConnectionDelegate>(&self, delegate: D, host: &mut XpcHost<D>)
        requires
            old(host).live(self.id as int),
        ensures
            final(host).unchanged_except(*old(host), self.id as int),
            final(host).strong_of(self.id as int) == old(host).strong_of(self.id as int),
            final(host).slots@[self.id as int].native == old(host).slots@[self.id as int].native,
            final(host).slots@[self.id as int].native_flags == old(host).slots@[
                self.id as int
            ].native_flags,
            final(host).slots@[self.id as int].calls@ == old(host).slots@[self.id as int].calls@,
            forall|c: XPCConnection|
                c.id == self.id ==> final(host).delegate_seen_by(c) == Some(delegate),
    {
        host.slots[self.id].delegate = Some(delegate);
    }

    /// Transitions the connection from configured to live. Exactly one of
    /// two equivalent native primitives is issued, picked by the cached host
    /// version: the newer activation primitive when available, else the
    /// resume-based fallback.
    pub fn activate<D: XPCConnectionDelegate>(&self, host: &mut XpcHost<D>)
        requires
            old(host).live(self.id as int),
        ensures
            appended_call(
                *old(host),
                *final(host),
                self.id as int,
                if old(host).version.at_least_spec((10, 12), (10, 0)) {
                    NativeCall::Activate
                } else {
                    NativeCall::Resume
                },
            ),
    {
        let ghost pre_calls = host.slots@[self.id as int].calls@;
        let use_activate = host.version.at_least((10, 12), (10, 0));
        if use_activate {
            host.slots[self.id].calls.push(NativeCall::Activate);
        } else {
            host.slots[self.id].calls.push(NativeCall::Resume);
        }
        proof {
            assert(host.slots@[self.id as int].calls@.subrange(0, pre_calls.len() as int)
                =~= pre_calls);
        }
    }

    /// Unpauses event delivery; passthrough to the native primitive.
    pub fn resume<D: XPCConnectionDelegate>(&self, host: &mut XpcHost<D>)
        requires
            old(host).live(self.id as int),
        ensures
            appended_call(*old(host), *final(host), self.id as int, NativeCall::Resume),
    {
        let ghost pre_calls = host.slots@[self.id as int].calls@;
        host.slots[self.id].calls.push(NativeCall::Resume);
        proof {
            assert(host.slots@[self.id as int].calls@.subrange(0, pre_calls.len() as int)
                =~= pre_calls);
        }
    }

    /// Pauses event delivery; passthrough to the native primitive, which
    /// requires symmetric nesting with `resume`.
    pub fn suspend<D: XPCConnectionDelegate>(&self, host: &mut XpcHost<D>)
        requires
            old(host).live(self.id as int),
        ensures
            appended_call(*old(host), *final(host), self.id as int, NativeCall::Suspend),
    {
        let ghost pre_calls = host.slots@[self.id as int].calls@;
        host.slots[self.id].calls.push(NativeCall::Suspend);
        proof {
            assert(host.slots@[self.id as int].calls@.subrange(0, pre_calls.len() as int)
                =~= pre_calls);
        }
    }

    /// Requests teardown. It does not wait: events already in flight may
    /// still arrive after it returns, plus the native runtime's own final
    /// cancellation notice.
    pub fn cancel<D: XPCConnectionDelegate>(&self, host: &mut XpcHost<D>)
        requires
            old(host).live(self.id as int),
        ensures
            appended_call(*old(host), *final(host), self.id as int, NativeCall::Cancel),
    {
        let ghost pre_calls = host.slots@[self.id as int].calls@;
        host.slots[self.id].calls.push(NativeCall::Cancel);
        proof {
            assert(host.slots@[self.id as int].calls@.subrange(0, pre_calls.len() as int)
                =~= pre_calls);
        }
    }

    /// Encodes `message` into an envelope and submits it fire-and-forget.
    /// `alloc_ok` is whether the native runtime could allocate the envelope
    /// object: when it could not, the result is `AllocationFailed` and the
    /// connection is left entirely unaffected — send failures are per-call,
    /// never connection-fatal. Encoding itself never fails for a `Value`.
    pub fn send_message<D: XPCConnectionDelegate>(
        &self,
        message: &Value,
        alloc_ok: bool,
        host: &mut XpcHost<D>,
    ) -> (r: Result<(), ConnectionError>)
        requires
            old(host).live(self.id as int),
        ensures
            !alloc_ok ==> (r matches Err(e) && e == ConnectionError::AllocationFailed && (*final(host)) == (*old(host))),
            alloc_ok ==> r is Ok && appended_send(*old(host), *final(host), self.id as int, *message),
    {
        let dictionary = build_message_dictionary(message);
        if !alloc_ok {
            return Err(ConnectionError::AllocationFailed);
        }
        let ghost pre_calls = host.slots@[self.id as int].calls@;
        host.slots[self.id].calls.push(NativeCall::SendMessage(dictionary));
        proof {
            assert(host.slots@[self.id as int].calls@.subrange(0, pre_calls.len() as int)
                =~= pre_calls);
        }
        Ok(())
    }

    /// As `send_message`, but parks the calling thread until the native
    /// runtime resolves `reply`: either the peer's reply envelope or the
    /// error object it delivers when the transport fails (a canceled peer, an
    /// interrupted connection). Either way the wait ends and a result is
    /// returned — a reply without a well-formed payload field, the error
    /// objects included, yields `DecodingFailed`, never a hang and never a
    /// panic. Must not be called from within the delegate's own event
    /// dispatch when delivery is single-threaded.
    pub fn send_message_with_reply<D: XPCConnectionDelegate>(
        &self,
        message: &Value,
        alloc_ok: bool,
        reply: Envelope,
        host: &mut XpcHost<D>,
    ) -> (r: Result<Value, ConnectionError>)
        requires
            old(host).live(self.id as int),
        ensures
            !alloc_ok ==> (r matches Err(e) && e == ConnectionError::AllocationFailed && (*final(host)) == (*old(host))),
            alloc_ok ==> appended_send_with_reply(
                *old(host),
                *final(host),
                self.id as int,
                *message,
            ) && (match retrieve_spec(reply) {
                Some(m) => r matches Ok(w) && deep(w) == m,
                None => r matches Err(e) && e == ConnectionError::DecodingFailed,
            }),
    {
        let dictionary = build_message_dictionary(message);
        if !alloc_ok {
            return Err(ConnectionError::AllocationFailed);
        }
        let ghost pre_calls = host.slots@[self.id as int].calls@;
        host.slots[self.id].calls.push(NativeCall::SendMessageWithReplySync(dictionary));
        proof {
            assert(host.slots@[self.id as int].calls@.subrange(0, pre_calls.len() as int)
                =~= pre_calls);
        }
        match retrieve_r_data(&reply) {
            Ok(v) => Ok(v),
            Err(_) => Err(ConnectionError::DecodingFailed),
        }
    }

    /// Forwards one decoded event to the registered delegate, if any; with
    /// no delegate the event is silently dropped, never an error.
    pub fn handle_event<D: XPCConnectionDelegate>(&self, event: Value, host: &XpcHost<D>) -> (r:
        EventOutcome)
        requires
            host.live(self.id as int),
        ensures
            r == (match host.delegate_of(self.id as int) {
                Some(d) => EventOutcome::Delivered(event),
                None => EventOutcome::DroppedNoDelegate,
            }),
    {
        match &host.slots[self.id].delegate {
            Some(d) => {
                d.handle_event(&event);
                EventOutcome::Delivered(event)
            },
            None => EventOutcome::DroppedNoDelegate,
        }
    }
}

impl XPCConnectionWeak {
    /// Attempts to resolve this back-reference to a new strong handle.
    /// While the state is alive it succeeds and takes one more strong
    /// reference; once the last strong handle is gone it fails cleanly,
    /// changing nothing — it never resurrects and never keeps the state
    /// alive.
    pub fn upgrade<D: XPCConnectionDelegate>(&self, host: &mut XpcHost<D>) -> (r: Option<
        XPCConnection,
    >)
        requires
            old(host).live(self.id as int) ==> old(host).strong_of(self.id as int) < usize::MAX,
        ensures
            !old(host).live(self.id as int) ==> r is None && *final(host) == *old(host),
            old(host).live(self.id as int) ==> {
                &&& r matches Some(c) && c.id == self.id
                &&& final(host).unchanged_except(*old(host), self.id as int)
                &&& final(host).strong_of(self.id as int) == old(host).strong_of(self.id as int)
                    + 1
                &&& final(host).slots@[self.id as int].delegate == old(host).slots@[
                    self.id as int
                ].delegate
                &&& final(host).slots@[self.id as int].native == old(host).slots@[
                    self.id as int
                ].native
                &&& final(host).slots@[self.id as int].native_flags == old(host).slots@[
                    self.id as int
                ].native_flags
                &&& final(host).slots@[self.id as int].calls@ == old(host).slots@[
                    self.id as int
                ].calls@
            },
    {
        if self.id >= host.slots.len() {
            return None;
        }
        let s = host.slots[self.id].strong;
        if s == 0 {
            return None;
        }
        host.slots[self.id].strong = s + 1;
        Some(XPCConnection { id: self.id })
    }
}

/// The foreign-callable event bridge: what the native runtime invokes, on
/// its own delivery threads, with the registered back-reference and an
/// opaque payload. It first tries to resolve the back-reference: if the
/// connection state is already destroyed — the expected race between
/// teardown and in-flight delivery — the event is discarded cleanly, with
/// nothing touched. Otherwise the payload is decoded and forwarded to the
/// delegate, if one is set. The temporary strong reference the real bridge
/// takes while dispatching is released before it returns, so the host is
/// left exactly as found, which is what the shared borrow states.
pub fn main_xpc_event_handler<D: XPCConnectionDelegate>(
    connection: &XPCConnectionWeak,
    os_event: &Envelope,
    host: &XpcHost<D>,
) -> (r: EventOutcome)
    ensures
        !host.live(connection.id as int) ==> r == EventOutcome::DiscardedDeadConnection,
        host.live(connection.id as int) ==> (match retrieve_spec(*os_event) {
            Some(m) => (match host.delegate_of(connection.id as int) {
                Some(d) => r matches EventOutcome::Delivered(w) && deep(w) == m,
                None => r == EventOutcome::DroppedNoDelegate,
            }),
            None => r == EventOutcome::DecodeFailed,
        }),
{
    if connection.id >= host.slots.len() {
        return EventOutcome::DiscardedDeadConnection;
    }
    if host.slots[connection.id].strong == 0 {
        return EventOutcome::DiscardedDeadConnection;
    }
    let conn = XPCConnection { id: connection.id };
    match retrieve_r_data(os_event) {
        Ok(event) => conn.handle_event(event, host),
        Err(_) => EventOutcome::DecodeFailed,
    }
}

} // verus!
