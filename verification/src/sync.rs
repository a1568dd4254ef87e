//! The synchronisation state machine.
//!
//! The caller talks to the remote node and reports what happened; this
//! module keeps the state and says what to do next. The wallet goes online
//! only through a handshake that succeeded. A poll that fails leaves the
//! wallet online with the error recorded and is tried again at the next
//! tick. A poll that is under way when the wallet goes offline may still end
//! and be merged in full.

use vstd::prelude::*;

use crate::ledger::{larger, overwrite, Balance};
use crate::wallet::Wallet;

verus! {

/// Whether the wallet follows a remote node.
#[derive(Clone, Copy, Debug, PartialEq, Eq, Structural)]
pub enum SyncMode {
    Offline,
    Online,
}

/// Where the state machine stands.
#[derive(Clone, Copy, Debug, PartialEq, Eq, Structural)]
pub enum SyncPhase {
    /// Offline.
    Disabled,
    /// Offline, with a handshake under way.
    Connecting,
    /// Online, and the last poll went well.
    Synced,
    /// Online, and the last poll failed.
    Degraded,
}

/// Why the remote node gave no answer.
#[derive(Clone, Copy, Debug, PartialEq, Eq, Structural)]
pub enum NetworkError {
    /// The node could not be reached.
    Unreachable,
    /// The node did not answer in time.
    Timeout,
    /// The node refused the wallet's address. Trying again will not help.
    Rejected,
}

/// What the caller reports.
#[derive(Debug)]
pub enum SyncEvent {
    /// Online mode was asked for, with the node's endpoint.
    Enable(String),
    /// The handshake succeeded; the node stands at this height.
    HandshakeSucceeded { height: u64 },
    /// The handshake failed.
    HandshakeFailed(NetworkError),
    /// The polling interval has passed.
    Tick,
    /// A poll succeeded; the node stands at this height.
    PollSucceeded { height: u64 },
    /// A poll failed.
    PollFailed(NetworkError),
    /// Offline mode was asked for.
    Disable,
}

/// What the caller is asked to do.
#[derive(Clone, Copy, Debug, PartialEq, Eq, Structural)]
pub enum SyncAction {
    /// Nothing.
    Idle,
    /// Try a handshake with the endpoint in [`SyncState::pending_endpoint`].
    Handshake,
    /// Ask the node for its height and for this wallet's balances and
    /// nonce, each call with a timeout.
    Poll,
    /// Merge what the poll brought into the ledger and persist.
    Merge,
    /// Tell the operator of the error.
    Report(NetworkError),
}

/// An event as a mathematical value.
pub enum SyncEventView {
    Enable(Seq<char>),
    HandshakeSucceeded { height: u64 },
    HandshakeFailed(NetworkError),
    Tick,
    PollSucceeded { height: u64 },
    PollFailed(NetworkError),
    Disable,
}

impl View for SyncEvent {
    type V = SyncEventView;

    open spec fn view(&self) -> SyncEventView {
        match *self {
            SyncEvent::Enable(endpoint) => SyncEventView::Enable(endpoint@),
            SyncEvent::HandshakeSucceeded { height } => SyncEventView::HandshakeSucceeded { height },
            SyncEvent::HandshakeFailed(error) => SyncEventView::HandshakeFailed(error),
            SyncEvent::Tick => SyncEventView::Tick,
            SyncEvent::PollSucceeded { height } => SyncEventView::PollSucceeded { height },
            SyncEvent::PollFailed(error) => SyncEventView::PollFailed(error),
            SyncEvent::Disable => SyncEventView::Disable,
        }
    }
}

/// The synchronisation state as a mathematical value.
pub struct SyncView {
    pub phase: SyncPhase,
    /// The endpoint in use, or the one that a handshake is trying.
    pub endpoint: Option<Seq<char>>,
    pub last_known_height: u64,
    pub last_sync_error: Option<NetworkError>,
    /// Whether a poll was asked for and has not ended yet.
    pub polling: bool,
}

impl SyncView {
    /// Online in the two synced phases, offline otherwise.
    pub open spec fn mode(self) -> SyncMode {
        match self.phase {
            SyncPhase::Synced | SyncPhase::Degraded => SyncMode::Online,
            _ => SyncMode::Offline,
        }
    }

    /// The endpoint of the node that the wallet follows: present exactly
    /// when the wallet is online.
    pub open spec fn daemon_endpoint(self) -> Option<Seq<char>> {
        if self.mode() == SyncMode::Online {
            self.endpoint
        } else {
            None
        }
    }

    /// Whether the state is one that the machine can be in: an endpoint is
    /// held exactly while connecting or online.
    pub open spec fn wf(self) -> bool {
        (self.phase == SyncPhase::Disabled) <==> self.endpoint is None
    }
}

/// The state in which every wallet starts: offline, nothing known.
pub open spec fn initial() -> SyncView {
    SyncView {
        phase: SyncPhase::Disabled,
        endpoint: None,
        last_known_height: 0,
        last_sync_error: None,
        polling: false,
    }
}

/// The state after an event, and the action that the event calls for.
pub open spec fn transition(state: SyncView, event: SyncEventView) -> (SyncView, SyncAction) {
    match event {
        SyncEventView::Enable(endpoint) => if state.phase == SyncPhase::Disabled {
            (
                SyncView { phase: SyncPhase::Connecting, endpoint: Some(endpoint), ..state },
                SyncAction::Handshake,
            )
        } else {
            (state, SyncAction::Idle)
        },
        SyncEventView::HandshakeSucceeded { height } => if state.phase == SyncPhase::Connecting {
            (
                SyncView {
                    phase: SyncPhase::Synced,
                    last_known_height: height,
                    last_sync_error: None,
                    polling: true,
                    ..state
                },
                SyncAction::Poll,
            )
        } else {
            (state, SyncAction::Idle)
        },
        SyncEventView::HandshakeFailed(error) => if state.phase == SyncPhase::Connecting {
            (
                SyncView {
                    phase: SyncPhase::Disabled,
                    endpoint: None,
                    last_sync_error: Some(error),
                    ..state
                },
                SyncAction::Report(error),
            )
        } else {
            (state, SyncAction::Idle)
        },
        SyncEventView::Tick => if state.mode() == SyncMode::Online && !state.polling {
            (SyncView { polling: true, ..state }, SyncAction::Poll)
        } else {
            (state, SyncAction::Idle)
        },
        SyncEventView::PollSucceeded { height } => if !state.polling {
            (state, SyncAction::Idle)
        } else if state.mode() == SyncMode::Online {
            (
                SyncView {
                    phase: SyncPhase::Synced,
                    last_known_height: height,
                    last_sync_error: None,
                    polling: false,
                    ..state
                },
                SyncAction::Merge,
            )
        } else {
            (SyncView { last_known_height: height, polling: false, ..state }, SyncAction::Merge)
        },
        SyncEventView::PollFailed(error) => if !state.polling {
            (state, SyncAction::Idle)
        } else if state.mode() == SyncMode::Online {
            (
                SyncView {
                    phase: SyncPhase::Degraded,
                    last_sync_error: Some(error),
                    polling: false,
                    ..state
                },
                if error == NetworkError::Rejected {
                    SyncAction::Report(error)
                } else {
                    SyncAction::Idle
                },
            )
        } else {
            (SyncView { polling: false, ..state }, SyncAction::Idle)
        },
        SyncEventView::Disable => (
            SyncView { phase: SyncPhase::Disabled, endpoint: None, ..state },
            SyncAction::Idle,
        ),
    }
}

/// Every event keeps the state one that the machine can be in.
pub proof fn lemma_transition_wf(state: SyncView, event: SyncEventView)
    requires
        state.wf(),
    ensures
        transition(state, event).0.wf(),
        transition(state, event).0.mode() == SyncMode::Online <==> transition(
            state,
            event,
        ).0.daemon_endpoint() is Some,
{
}

/// The wallet goes online only through a handshake that succeeded.
pub proof fn lemma_online_by_handshake(state: SyncView, event: SyncEventView)
    requires
        state.mode() == SyncMode::Offline,
        transition(state, event).0.mode() == SyncMode::Online,
    ensures
        state.phase == SyncPhase::Connecting,
        event is HandshakeSucceeded,
{
}

/// A poll that fails does not take the wallet offline and does not touch
/// what was last known: the height and the endpoint stay, and the error is
/// on record.
pub proof fn lemma_failed_poll_keeps_state(state: SyncView, error: NetworkError)
    requires
        state.polling,
    ensures
        transition(state, SyncEventView::PollFailed(error)).0.mode() == state.mode(),
        transition(state, SyncEventView::PollFailed(error)).0.endpoint == state.endpoint,
        transition(state, SyncEventView::PollFailed(error)).0.last_known_height
            == state.last_known_height,
        state.mode() == SyncMode::Online ==> transition(
            state,
            SyncEventView::PollFailed(error),
        ).0.last_sync_error == Some(error),
{
}

/// A merge is asked for only when a poll that was under way has succeeded,
/// and a poll only while none is under way.
pub proof fn lemma_one_poll_at_a_time(state: SyncView, event: SyncEventView)
    ensures
        transition(state, event).1 == SyncAction::Merge ==> state.polling && event is PollSucceeded,
        transition(state, event).1 == SyncAction::Poll ==> !state.polling || event
            is HandshakeSucceeded,
        transition(state, event).1 == SyncAction::Poll ==> transition(state, event).0.polling,
{
}

/// The synchronisation state of a wallet.
#[derive(Debug)]
pub struct SyncState {
    phase: SyncPhase,
    endpoint: Option<String>,
    last_known_height: u64,
    last_sync_error: Option<NetworkError>,
    polling: bool,
}

impl View for SyncState {
    type V = SyncView;

    closed spec fn view(&self) -> SyncView {
        SyncView {
            phase: self.phase,
            endpoint: match self.endpoint {
                Some(endpoint) => Some(endpoint@),
                None => None,
            },
            last_known_height: self.last_known_height,
            last_sync_error: self.last_sync_error,
            polling: self.polling,
        }
    }
}

impl SyncState {
    /// The state in which every wallet starts: offline, nothing known.
    pub fn new() -> (state: SyncState)
        ensures
            state@ == initial(),
            state@.wf(),
    {
        SyncState {
            phase: SyncPhase::Disabled,
            endpoint: None,
            last_known_height: 0,
            last_sync_error: None,
            polling: false,
        }
    }

    /// Whether the wallet follows a remote node.
    pub fn mode(&self) -> (mode: SyncMode)
        ensures
            mode == self@.mode(),
    {
        match self.phase {
            SyncPhase::Synced | SyncPhase::Degraded => SyncMode::Online,
            _ => SyncMode::Offline,
        }
    }

    /// Where the state machine stands.
    pub fn phase(&self) -> (phase: SyncPhase)
        ensures
            phase == self@.phase,
    {
        self.phase
    }

    /// The endpoint of the node that the wallet follows, while it is online.
    pub fn daemon_endpoint(&self) -> (endpoint: Option<&String>)
        ensures
            match endpoint {
                Some(text) => self@.daemon_endpoint() == Some(text@),
                None => self@.daemon_endpoint() is None,
            },
    {
        match self.phase {
            SyncPhase::Synced | SyncPhase::Degraded => self.endpoint.as_ref(),
            _ => None,
        }
    }

    /// The endpoint that a handshake is to try, while one is under way.
    pub fn pending_endpoint(&self) -> (endpoint: Option<&String>)
        ensures
            match endpoint {
                Some(text) => self@.phase == SyncPhase::Connecting && self@.endpoint == Some(text@),
                None => self@.phase != SyncPhase::Connecting || self@.endpoint is None,
            },
    {
        match self.phase {
            SyncPhase::Connecting => self.endpoint.as_ref(),
            _ => None,
        }
    }

    /// The height that the remote node last reported.
    pub fn last_known_height(&self) -> (height: u64)
        ensures
            height == self@.last_known_height,
    {
        self.last_known_height
    }

    /// The error of the last handshake or poll that failed, until a poll
    /// goes well again.
    pub fn last_sync_error(&self) -> (error: Option<NetworkError>)
        ensures
            error == self@.last_sync_error,
    {
        self.last_sync_error
    }

    /// Takes an event and says what to do next. The new state and the
    /// action are those of [`transition`].
    pub fn step(&mut self, event: SyncEvent) -> (action: SyncAction)
        ensures
            (final(self)@, action) == transition(old(self)@, event@),
    {
        let online = match self.phase {
            SyncPhase::Synced | SyncPhase::Degraded => true,
            _ => false,
        };
        match event {
            SyncEvent::Enable(endpoint) => {
                match self.phase {
                    SyncPhase::Disabled => {
                        self.phase = SyncPhase::Connecting;
                        self.endpoint = Some(endpoint);
                        SyncAction::Handshake
                    },
                    _ => SyncAction::Idle,
                }
            },
            SyncEvent::HandshakeSucceeded { height } => {
                match self.phase {
                    SyncPhase::Connecting => {
                        self.phase = SyncPhase::Synced;
                        self.last_known_height = height;
                        self.last_sync_error = None;
                        self.polling = true;
                        SyncAction::Poll
                    },
                    _ => SyncAction::Idle,
                }
            },
            SyncEvent::HandshakeFailed(error) => {
                match self.phase {
                    SyncPhase::Connecting => {
                        self.phase = SyncPhase::Disabled;
                        self.endpoint = None;
                        self.last_sync_error = Some(error);
                        SyncAction::Report(error)
                    },
                    _ => SyncAction::Idle,
                }
            },
            SyncEvent::Tick => {
                if online && !self.polling {
                    self.polling = true;
                    SyncAction::Poll
                } else {
                    SyncAction::Idle
                }
            },
            SyncEvent::PollSucceeded { height } => {
                if !self.polling {
                    return SyncAction::Idle;
                }
                if online {
                    self.phase = SyncPhase::Synced;
                    self.last_sync_error = None;
                }
                self.last_known_height = height;
                self.polling = false;
                SyncAction::Merge
            },
            SyncEvent::PollFailed(error) => {
                if !self.polling {
                    return SyncAction::Idle;
                }
                self.polling = false;
                if !online {
                    return SyncAction::Idle;
                }
                self.phase = SyncPhase::Degraded;
                self.last_sync_error = Some(error);
                match error {
                    NetworkError::Rejected => SyncAction::Report(error),
                    _ => SyncAction::Idle,
                }
            },
            SyncEvent::Disable => {
                self.phase = SyncPhase::Disabled;
                self.endpoint = None;
                SyncAction::Idle
            },
        }
    }

    /// Takes the answer of a poll that went well: the event goes through the
    /// state machine, and where that calls for a merge, the answer is merged
    /// into the wallet's ledger in one piece. The result says whether it
    /// was, and so whether the store is to be written anew.
    pub fn poll_succeeded(
        &mut self,
        wallet: &mut Wallet,
        reported: &Vec<Balance>,
        remote_nonce: u64,
        height: u64,
    ) -> (merged: bool)
        requires
            old(wallet).wf(),
        ensures
            final(wallet).wf(),
            final(self)@ == transition(old(self)@, SyncEventView::PollSucceeded { height }).0,
            merged == old(self)@.polling,
            final(wallet).spec_key() == old(wallet).spec_key(),
            final(wallet).spec_salt() == old(wallet).spec_salt(),
            final(wallet).spec_params() == old(wallet).spec_params(),
            final(wallet).spec_state().spec_keypair() == old(wallet).spec_state().spec_keypair(),
            final(wallet).spec_ledger()@.history == old(wallet).spec_ledger()@.history,
            merged ==> {
                &&& final(wallet).spec_ledger()@.balances == overwrite(
                    old(wallet).spec_ledger()@.balances,
                    reported@,
                )
                &&& final(wallet).spec_ledger()@.nonce == larger(
                    old(wallet).spec_ledger()@.nonce,
                    remote_nonce as nat,
                )
                &&& final(wallet).spec_ledger()@.height == height
            },
            !merged ==> final(wallet).spec_ledger()@ == old(wallet).spec_ledger()@,
    {
        match self.step(SyncEvent::PollSucceeded { height }) {
            SyncAction::Merge => {
                wallet.merge_remote(reported, remote_nonce, height);
                true
            },
            _ => false,
        }
    }
}

} // verus!
