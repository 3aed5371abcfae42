//! The session dispatcher: the handle table, the handle counter, and the
//! routing of decoded commands to engine instances.
//!
//! One `Session` lives per established connection. It owns the table of live
//! handles and the monotonic counter that issues them; both start empty/zero
//! whenever a connection is (re)acquired, so handles are not stable across
//! reconnects. The dispatcher decides what each command does to the table
//! and which engine call or response the surrounding loop must perform; the
//! engine instances themselves are opaque and live with that loop.
//!
//! A command that references an absent handle is a contract violation by the
//! remote peer. The policy chosen here: the dispatcher reports it as a
//! session-terminating error rather than answering the peer, consistent with
//! never trusting a peer that violates the protocol.

use vstd::prelude::*;

verus! {

/// A game piece handed to an engine's input queue, reduced to its identity.
#[derive(Clone, Copy, Debug, PartialEq, Eq, Structural)]
pub enum Piece {
    I,
    O,
    T,
    L,
    J,
    S,
    Z,
}

/// One decoded request. Commands are stateless values decoded fresh from
/// each frame. `Launch` also carries an options and an evaluator value on
/// the wire; both are opaque configuration blobs that the dispatcher never
/// reads, so the loop that decodes the frame keeps them and hands them to
/// the engine it starts.
#[derive(Clone, Copy, Debug, PartialEq, Eq, Structural)]
pub enum Command {
    Launch,
    Drop { handle: u32 },
    RequestNextMove { handle: u32, incoming: u32 },
    PollNextMove { handle: u32 },
    BlockNextMove { handle: u32 },
    AddNextPiece { handle: u32, piece: Piece },
    DefaultOptions,
    DefaultEvaluator,
}

/// What the surrounding loop must do after a command was dispatched: start
/// or release the engine under a handle, forward a call to the engine the
/// handle addresses, or answer with a freshly constructed default value.
/// `StartEngine` also tells the loop to respond with the new handle.
#[derive(Clone, Copy, Debug, PartialEq, Eq, Structural)]
pub enum Action {
    StartEngine { handle: u32 },
    ReleaseEngine { handle: u32 },
    ForwardMoveRequest { handle: u32, incoming: u32 },
    ForwardPoll { handle: u32 },
    ForwardBlock { handle: u32 },
    ForwardPiece { handle: u32, piece: Piece },
    RespondDefaultOptions,
    RespondDefaultEvaluator,
}

/// A protocol violation by the remote peer, fatal to the session.
#[derive(Clone, Copy, Debug, PartialEq, Eq, Structural)]
pub enum SessionError {
    UnknownHandle(u32),
}

/// Fixed delay, in seconds, before device acquisition is re-attempted after
/// a failed attempt or a lost connection: the one deliberate wait in the
/// bridge, so that device enumeration does not busy-loop.
pub const RECONNECT_DELAY_SECS: u64 = 5;

/// The two states of the bridge's outer loop: waiting for the device, or
/// running a session over an established connection.
#[derive(Clone, Copy, Debug, PartialEq, Eq, Structural)]
pub enum LinkState {
    Disconnected,
    Connected,
}

/// What the outer loop observed: the outcome of a device-acquisition
/// attempt while disconnected, or a session-fatal condition while connected.
/// A hard (non-timeout) transport error and a payload that does not decode
/// into a known command are both fatal to the session, not to the process.
#[derive(Clone, Copy, Debug, PartialEq, Eq, Structural)]
pub enum LinkEvent {
    AcquisitionSucceeded,
    AcquisitionFailed,
    HardTransportError,
    MalformedPayload,
    ProtocolViolation,
}

/// What the outer loop must do after a transition: start a fresh session
/// over the new connection, release the connection and every live handle
/// with it, or wait the fixed delay before trying to acquire again.
#[derive(Clone, Copy, Debug, PartialEq, Eq, Structural)]
pub enum LinkAction {
    StartSession,
    ReleaseConnection,
    RetryAfterDelay(u64),
}

/// Whether an event can be observed in a state: acquisition outcomes happen
/// only while disconnected, session-fatal conditions only while connected.
pub open spec fn spec_event_fits(state: LinkState, event: LinkEvent) -> bool {
    match event {
        LinkEvent::AcquisitionSucceeded => state == LinkState::Disconnected,
        LinkEvent::AcquisitionFailed => state == LinkState::Disconnected,
        LinkEvent::HardTransportError => state == LinkState::Connected,
        LinkEvent::MalformedPayload => state == LinkState::Connected,
        LinkEvent::ProtocolViolation => state == LinkState::Connected,
    }
}

/// One transition of the outer state machine. Successful acquisition enters
/// the connected state and starts a fresh session (handle table empty,
/// counter zero); a failed attempt stays disconnected and waits the fixed
/// delay; any session-fatal condition drops back to disconnected, releasing
/// the connection and discarding every live handle, after which acquisition
/// is retried.
pub fn link_transition(state: LinkState, event: LinkEvent) -> (r: (LinkState, LinkAction))
    requires
        spec_event_fits(state, event),
    ensures
        r == (match event {
            LinkEvent::AcquisitionSucceeded => (LinkState::Connected, LinkAction::StartSession),
            LinkEvent::AcquisitionFailed => (
                LinkState::Disconnected,
                LinkAction::RetryAfterDelay(RECONNECT_DELAY_SECS),
            ),
            LinkEvent::HardTransportError => (
                LinkState::Disconnected,
                LinkAction::ReleaseConnection,
            ),
            LinkEvent::MalformedPayload => (LinkState::Disconnected, LinkAction::ReleaseConnection),
            LinkEvent::ProtocolViolation => (
                LinkState::Disconnected,
                LinkAction::ReleaseConnection,
            ),
        }),
{
    match event {
        LinkEvent::AcquisitionSucceeded => (LinkState::Connected, LinkAction::StartSession),
        LinkEvent::AcquisitionFailed => (
            LinkState::Disconnected,
            LinkAction::RetryAfterDelay(RECONNECT_DELAY_SECS),
        ),
        LinkEvent::HardTransportError => (LinkState::Disconnected, LinkAction::ReleaseConnection),
        LinkEvent::MalformedPayload => (LinkState::Disconnected, LinkAction::ReleaseConnection),
        LinkEvent::ProtocolViolation => (LinkState::Disconnected, LinkAction::ReleaseConnection),
    }
}

/// The handle issued after the given counter value: the counter increments
/// once per launch, wrapping on overflow.
pub open spec fn spec_next_handle(counter: u32) -> u32 {
    if counter == u32::MAX {
        0
    } else {
        (counter + 1) as u32
    }
}

/// The handles that `n` consecutive launches issue, starting from the given
/// counter value.
pub open spec fn spec_launched_handles(counter: u32, n: nat) -> Seq<u32>
    decreases n,
{
    if n == 0 {
        Seq::empty()
    } else {
        seq![spec_next_handle(counter)] + spec_launched_handles(
            spec_next_handle(counter),
            (n - 1) as nat,
        )
    }
}

/// Handle lifecycle law: within one connection's lifetime, as long as the
/// counter does not wrap, `n` launches issue the handles
/// `counter + 1, counter + 2, ...` — monotonically increasing and pairwise
/// distinct. A fresh session starts the counter at zero, so the first handle
/// after a (re)connect is always 1.
pub proof fn lemma_launched_handles_distinct(counter: u32, n: nat)
    requires
        counter + n <= u32::MAX,
    ensures
        spec_launched_handles(counter, n).len() == n,
        forall|i: int|
            0 <= i < n ==> #[trigger] spec_launched_handles(counter, n)[i] == counter + i + 1,
        spec_launched_handles(counter, n).no_duplicates(),
    decreases n,
{
    if n > 0 {
        let h = spec_next_handle(counter);
        let rest = spec_launched_handles(h, (n - 1) as nat);
        lemma_launched_handles_distinct(h, (n - 1) as nat);
        let s = spec_launched_handles(counter, n);
        assert(s[0] == h);
        assert forall|i: int| 0 < i < n implies #[trigger] s[i] == counter + i + 1 by {
            assert(s[i] == rest[i - 1]);
        }
    }
}

/// The handle table and counter of one live session.
pub struct Session {
    counter: u32,
    handles: Vec<u32>,
}

impl Session {
    /// Well-formedness: each live handle appears in the table once. Holds of
    /// a fresh session and is preserved by every operation.
    pub closed spec fn wf(self) -> bool {
        self.handles@.no_duplicates()
    }

    /// The counter's current value: the handle most recently issued, zero
    /// when none was.
    pub closed spec fn spec_counter(self) -> u32 {
        self.counter
    }

    /// The set of live handles.
    pub closed spec fn spec_handles(self) -> Set<u32> {
        self.handles@.to_set()
    }

    /// Every live handle was issued by the counter: while the counter has
    /// not wrapped, handles lie between 1 and the counter, so the next
    /// handle issued is always absent from the table. Holds of a fresh
    /// session and is preserved by every operation until the counter wraps.
    pub open spec fn handles_bounded(self) -> bool {
        forall|h: u32| self.spec_handles().contains(h) ==> 1 <= h <= self.spec_counter()
    }

    /// A fresh session, as (re)initialized on entering the connected state:
    /// no live handles, counter at zero.
    pub fn new() -> (s: Session)
        ensures
            s.wf(),
            s.spec_counter() == 0,
            s.spec_handles() == Set::<u32>::empty(),
            s.handles_bounded(),
    {
        let s = Session { counter: 0, handles: Vec::new() };
        proof {
            assert(s.spec_handles() =~= Set::<u32>::empty());
        }
        s
    }

    /// Whether a handle is live: present from the moment its launch response
    /// is produced until a drop removes it or the session ends.
    pub fn contains_handle(&self, handle: u32) -> (r: bool)
        ensures
            r == self.spec_handles().contains(handle),
    {
        let mut i: usize = 0;
        while i < self.handles.len()
            invariant
                i <= self.handles@.len(),
                forall|j: int| 0 <= j < i ==> self.handles@[j] != handle,
            decreases self.handles@.len() - i,
        {
            if self.handles[i] == handle {
                proof {
                    assert(self.handles@.contains(handle));
                }
                return true;
            }
            i = i + 1;
        }
        proof {
            assert(!self.handles@.contains(handle));
        }
        false
    }

    /// Issues the next handle and inserts it into the table. The counter
    /// increments once per launch, wrapping on overflow; if the wrapped
    /// counter reaches a handle that is still live, that entry is taken over,
    /// as a map insertion under an existing key would be.
    pub fn launch(&mut self) -> (h: u32)
        requires
            old(self).wf(),
        ensures
            final(self).wf(),
            h == spec_next_handle(old(self).spec_counter()),
            final(self).spec_counter() == h,
            final(self).spec_handles() == old(self).spec_handles().insert(h),
            old(self).handles_bounded() && old(self).spec_counter() < u32::MAX ==> {
                &&& !old(self).spec_handles().contains(h)
                &&& final(self).handles_bounded()
            },
    {
        let h: u32 = if self.counter == u32::MAX {
            0
        } else {
            self.counter + 1
        };
        self.counter = h;
        let ghost before = self.handles@;
        if !self.contains_handle(h) {
            self.handles.push(h);
            proof {
                assert forall|p: int, q: int|
                    0 <= p < q < self.handles@.len() implies self.handles@[p]
                    != self.handles@[q] by {
                    if q < before.len() {
                        assert(self.handles@[p] == before[p] && self.handles@[q] == before[q]);
                    } else {
                        assert(self.handles@[q] == h && self.handles@[p] == before[p]);
                        assert(before.contains(before[p]));
                    }
                }
                assert(self.spec_handles() =~= old(self).spec_handles().insert(h)) by {
                    assert forall|x: u32| self.handles@.contains(x) implies before.contains(x) || x
                        == h by {
                        let j = choose|j: int|
                            0 <= j < self.handles@.len() && self.handles@[j] == x;
                        if j < before.len() {
                            assert(before[j] == x);
                        }
                    }
                    assert forall|x: u32| before.contains(x) implies self.handles@.contains(x) by {
                        let j = choose|j: int| 0 <= j < before.len() && before[j] == x;
                        assert(self.handles@[j] == x);
                    }
                    assert(self.handles@[before.len() as int] == h);
                }
            }
        } else {
            proof {
                assert(self.spec_handles() =~= old(self).spec_handles().insert(h));
            }
        }
        h
    }

    /// Removes a handle from the table; a no-op when it is absent. The
    /// counter is unaffected, so a dropped handle's value is never reissued
    /// before the counter wraps.
    pub fn drop_handle(&mut self, handle: u32)
        requires
            old(self).wf(),
        ensures
            final(self).wf(),
            final(self).spec_counter() == old(self).spec_counter(),
            final(self).spec_handles() == old(self).spec_handles().remove(handle),
            old(self).handles_bounded() ==> final(self).handles_bounded(),
    {
        let mut i: usize = 0;
        while i < self.handles.len()
            invariant
                *self == *old(self),
                old(self).wf(),
                i <= self.handles@.len(),
                forall|j: int| 0 <= j < i ==> self.handles@[j] != handle,
            decreases self.handles@.len() - i,
        {
            if self.handles[i] == handle {
                let ghost before = self.handles@;
                self.handles.remove(i);
                proof {
                    before.remove_ensures(i as int);
                    let after = self.handles@;
                    assert forall|p: int, q: int| 0 <= p < q < after.len() implies after[p]
                        != after[q] by {
                        let p0: int = if p < i { p } else { p + 1 };
                        let q0: int = if q < i { q } else { q + 1 };
                        assert(after[p] == before[p0] && after[q] == before[q0]);
                        assert(before[p0] != before[q0]);
                    }
                    assert forall|x: u32|
                        self.spec_handles().contains(x) == old(self).spec_handles().remove(
                            handle,
                        ).contains(x) by {
                        assert(self.spec_handles().contains(x) == after.contains(x));
                        assert(old(self).spec_handles().contains(x) == before.contains(x));
                        if after.contains(x) {
                            let p = choose|p: int| 0 <= p < after.len() && after[p] == x;
                            let p0: int = if p < i { p } else { p + 1 };
                            assert(before[p0] == x);
                            assert(before[p0] != before[i as int]);
                            assert(before.contains(x) && x != handle);
                        }
                        if before.contains(x) && x != handle {
                            let j = choose|j: int| 0 <= j < before.len() && before[j] == x;
                            if j < i {
                                assert(after[j] == x);
                            } else {
                                assert(after[j - 1] == x);
                            }
                            assert(after.contains(x));
                        }
                    }
                    assert(self.spec_handles() =~= old(self).spec_handles().remove(handle));
                }
                return ;
            }
            i = i + 1;
        }
        proof {
            assert(!self.handles@.contains(handle));
            assert forall|x: u32|
                self.spec_handles().contains(x) == old(self).spec_handles().remove(handle).contains(
                    x,
                ) by {
                assert(self.spec_handles().contains(x) == self.handles@.contains(x));
            }
            assert(self.spec_handles() =~= old(self).spec_handles().remove(handle));
        }
    }

    /// Executes one decoded command against the session: updates the handle
    /// table and says which engine call or response the surrounding loop owes.
    /// A command that references an absent handle yields a session-terminating
    /// error and leaves the session unchanged.
    pub fn dispatch(&mut self, cmd: Command) -> (r: Result<Action, SessionError>)
        requires
            old(self).wf(),
        ensures
            final(self).wf(),
            old(self).handles_bounded() && (cmd is Launch ==> old(self).spec_counter()
                < u32::MAX) ==> final(self).handles_bounded(),
            match cmd {
                Command::Launch => {
                    &&& r == Ok::<Action, SessionError>(
                        Action::StartEngine {
                            handle: spec_next_handle(old(self).spec_counter()),
                        },
                    )
                    &&& final(self).spec_counter() == spec_next_handle(old(self).spec_counter())
                    &&& final(self).spec_handles() == old(self).spec_handles().insert(
                        spec_next_handle(old(self).spec_counter()),
                    )
                },
                Command::Drop { handle } => {
                    &&& r == Ok::<Action, SessionError>(Action::ReleaseEngine { handle })
                    &&& final(self).spec_counter() == old(self).spec_counter()
                    &&& final(self).spec_handles() == old(self).spec_handles().remove(handle)
                },
                Command::RequestNextMove { handle, incoming } => {
                    &&& *final(self) == *old(self)
                    &&& r == (if old(self).spec_handles().contains(handle) {
                        Ok::<Action, SessionError>(Action::ForwardMoveRequest { handle, incoming })
                    } else {
                        Err::<Action, SessionError>(SessionError::UnknownHandle(handle))
                    })
                },
                Command::PollNextMove { handle } => {
                    &&& *final(self) == *old(self)
                    &&& r == (if old(self).spec_handles().contains(handle) {
                        Ok::<Action, SessionError>(Action::ForwardPoll { handle })
                    } else {
                        Err::<Action, SessionError>(SessionError::UnknownHandle(handle))
                    })
                },
                Command::BlockNextMove { handle } => {
                    &&& *final(self) == *old(self)
                    &&& r == (if old(self).spec_handles().contains(handle) {
                        Ok::<Action, SessionError>(Action::ForwardBlock { handle })
                    } else {
                        Err::<Action, SessionError>(SessionError::UnknownHandle(handle))
                    })
                },
                Command::AddNextPiece { handle, piece } => {
                    &&& *final(self) == *old(self)
                    &&& r == (if old(self).spec_handles().contains(handle) {
                        Ok::<Action, SessionError>(Action::ForwardPiece { handle, piece })
                    } else {
                        Err::<Action, SessionError>(SessionError::UnknownHandle(handle))
                    })
                },
                Command::DefaultOptions => {
                    &&& *final(self) == *old(self)
                    &&& r == Ok::<Action, SessionError>(Action::RespondDefaultOptions)
                },
                Command::DefaultEvaluator => {
                    &&& *final(self) == *old(self)
                    &&& r == Ok::<Action, SessionError>(Action::RespondDefaultEvaluator)
                },
            },
    {
        match cmd {
            Command::Launch => {
                let h = self.launch();
                Ok(Action::StartEngine { handle: h })
            },
            Command::Drop { handle } => {
                self.drop_handle(handle);
                Ok(Action::ReleaseEngine { handle })
            },
            Command::RequestNextMove { handle, incoming } => {
                if self.contains_handle(handle) {
                    Ok(Action::ForwardMoveRequest { handle, incoming })
                } else {
                    Err(SessionError::UnknownHandle(handle))
                }
            },
            Command::PollNextMove { handle } => {
                if self.contains_handle(handle) {
                    Ok(Action::ForwardPoll { handle })
                } else {
                    Err(SessionError::UnknownHandle(handle))
                }
            },
            Command::BlockNextMove { handle } => {
                if self.contains_handle(handle) {
                    Ok(Action::ForwardBlock { handle })
                } else {
                    Err(SessionError::UnknownHandle(handle))
                }
            },
            Command::AddNextPiece { handle, piece } => {
                if self.contains_handle(handle) {
                    Ok(Action::ForwardPiece { handle, piece })
                } else {
                    Err(SessionError::UnknownHandle(handle))
                }
            },
            Command::DefaultOptions => Ok(Action::RespondDefaultOptions),
            Command::DefaultEvaluator => Ok(Action::RespondDefaultEvaluator),
        }
    }
}

} // verus!
