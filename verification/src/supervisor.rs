//! Decisions of the supervisor that ties the collector, the peers and the
//! signalling together: when the collection loop runs, how events are
//! routed, and what the front end's state becomes.

use vstd::prelude::*;
use vstd::string::*;
use crate::collector::CollectorMessage;
use crate::keyed_table::KeyedTable;
use crate::offsets::GlobalState;

verus! {

/// The kinds of signalling message, without their payloads.
#[derive(Clone, Copy, Debug, PartialEq, Eq)]
pub enum SignalKind {
    Answer,
    Offer,
    IceCandidate,
    NewPeer,
    PeerLeft,
    NewLocalPeer,
    LocalOffer,
    Data,
}

/// Where the signalling switch delivers messages for a client; `L` is the
/// sender of a local websocket.
#[derive(Debug)]
pub enum WsRouteInfo<L> {
    /// Over the external server's link.
    External,
    /// To a websocket of the local server.
    Local(L),
}

/// Keeps the switch table current with what the external server announces:
/// a new peer is routed over the external link, a peer that left is
/// dropped; other messages leave the table alone.
pub fn note_external_signal<L>(table: &mut KeyedTable<WsRouteInfo<L>>, from: String, kind: SignalKind)
    ensures
        kind == SignalKind::NewPeer ==> final(table).view() == old(table).view().insert(
            from@,
            WsRouteInfo::External,
        ),
        kind == SignalKind::PeerLeft ==> final(table).view() == old(table).view().remove(from@),
        kind != SignalKind::NewPeer && kind != SignalKind::PeerLeft ==> final(table).view() == old(
            table,
        ).view(),
{
    match kind {
        SignalKind::NewPeer => {
            table.insert(from, WsRouteInfo::External);
        },
        SignalKind::PeerLeft => {
            let _ = table.remove(from.as_str());
        },
        _ => {},
    }
}

/// What the supervisor does with a signalling event from a client.
#[derive(Clone, Copy, Debug, PartialEq, Eq)]
pub enum PeerAction {
    /// Open a peer connection for a client of the external server.
    AddExternalPeer,
    /// Open a peer connection for a client of the local server.
    AddLocalPeer,
    /// Close the client's peer connection.
    DropPeer,
    /// Hand the message to the client's peer connection.
    Forward,
}

/// The action for each kind of signalling event.
pub open spec fn peer_action(kind: SignalKind) -> PeerAction {
    match kind {
        SignalKind::NewPeer => PeerAction::AddExternalPeer,
        SignalKind::NewLocalPeer => PeerAction::AddLocalPeer,
        SignalKind::PeerLeft => PeerAction::DropPeer,
        _ => PeerAction::Forward,
    }
}

/// Only a departing peer is dropped; offers, answers and ICE candidates
/// are handed to the client's peer connection, and a new client of either
/// server gets one opened.
pub proof fn law_only_departure_drops_peer(kind: SignalKind)
    ensures
        peer_action(kind) == PeerAction::DropPeer <==> kind == SignalKind::PeerLeft,
        kind == SignalKind::Answer || kind == SignalKind::Offer || kind == SignalKind::IceCandidate
            ==> peer_action(kind) == PeerAction::Forward,
        kind == SignalKind::NewPeer ==> peer_action(kind) == PeerAction::AddExternalPeer,
        kind == SignalKind::NewLocalPeer ==> peer_action(kind) == PeerAction::AddLocalPeer,
{
}

/// What a collector message leads to at the front end.
#[derive(Debug)]
pub enum FrontendUpdate<T> {
    /// Show the location and broadcast it to the peers.
    Location(T),
    /// Show a tracker error.
    TrackerError(String),
    /// Nothing to show; the state may have changed.
    StateOnly,
}

/// Whether the collection loop runs, and whether a game process is
/// attached. The loop only runs while attached.
#[derive(Debug)]
pub struct CollectorLifecycle {
    attached: bool,
    running: bool,
}

impl CollectorLifecycle {
    #[verifier::type_invariant]
    closed spec fn inv(self) -> bool {
        self.running ==> self.attached
    }

    /// Whether a game process is attached.
    pub closed spec fn is_attached(self) -> bool {
        self.attached
    }

    /// Whether the collection loop runs.
    pub closed spec fn is_running(self) -> bool {
        self.running
    }

    /// Nothing attached, no loop.
    pub fn new() -> (r: Self)
        ensures
            !r.is_attached(),
            !r.is_running(),
    {
        CollectorLifecycle { attached: false, running: false }
    }

    /// Whether a game process is attached.
    pub fn attached(&self) -> (r: bool)
        ensures
            r == self.is_attached(),
    {
        self.attached
    }

    /// Whether the collection loop runs; it only runs while attached.
    pub fn running(&self) -> (r: bool)
        ensures
            r == self.is_running(),
            r ==> self.is_attached(),
    {
        proof {
            use_type_invariant(self);
        }
        self.running
    }

    /// Starts the loop when a process is attached and no loop runs yet; true
    /// when the caller must spawn it. A second start never spawns a second
    /// loop.
    pub fn try_start(&mut self) -> (r: bool)
        ensures
            r == (old(self).is_attached() && !old(self).is_running()),
            final(self).is_attached() == old(self).is_attached(),
            final(self).is_running() == (old(self).is_running() || r),
            final(self).is_running() ==> final(self).is_attached(),
    {
        proof {
            use_type_invariant(&*self);
        }
        if self.attached && !self.running {
            self.running = true;
            true
        } else {
            false
        }
    }

    /// Stops the loop; true when one was running and must be cancelled.
    pub fn try_stop(&mut self) -> (r: bool)
        ensures
            r == old(self).is_running(),
            !final(self).is_running(),
            final(self).is_attached() == old(self).is_attached(),
    {
        let was = self.running;
        self.running = false;
        was
    }

    /// Records a successful attach and starts the loop; true when the loop
    /// must be spawned.
    pub fn on_attached(&mut self) -> (r: bool)
        ensures
            final(self).is_attached(),
            final(self).is_running(),
            r == !old(self).is_running(),
    {
        self.attached = true;
        self.try_start()
    }

    /// Detaches from the process, stopping the loop; true when a running
    /// loop must be cancelled.
    pub fn detach(&mut self) -> (r: bool)
        ensures
            !final(self).is_attached(),
            !final(self).is_running(),
            r == old(self).is_running(),
    {
        let was = self.try_stop();
        self.attached = false;
        was
    }

    /// Handles a signalling event: says what to do with the peer and
    /// whether a collection loop must now be spawned (a new client of
    /// either server starts it when a process is attached).
    pub fn on_peer_signal(&mut self, kind: SignalKind) -> (r: (PeerAction, bool))
        ensures
            r.0 == peer_action(kind),
            (kind == SignalKind::NewPeer || kind == SignalKind::NewLocalPeer) ==> r.1 == (old(
                self,
            ).is_attached() && !old(self).is_running()) && final(self).is_running() == (old(
                self,
            ).is_running() || r.1),
            !(kind == SignalKind::NewPeer || kind == SignalKind::NewLocalPeer) ==> !r.1
                && final(self).is_running() == old(self).is_running(),
            final(self).is_attached() == old(self).is_attached(),
    {
        match kind {
            SignalKind::NewPeer => (PeerAction::AddExternalPeer, self.try_start()),
            SignalKind::NewLocalPeer => (PeerAction::AddLocalPeer, self.try_start()),
            SignalKind::PeerLeft => (PeerAction::DropPeer, false),
            _ => (PeerAction::Forward, false),
        }
    }

    /// Applies a collector message: a location goes to the front end and
    /// the peers, an error to the front end, a vanished process detaches
    /// (and the front end shows it detached), a found method is recorded.
    /// The second result is true when a running loop must be cancelled.
    pub fn on_collector_message<T>(&mut self, state: &mut GlobalState, msg: CollectorMessage<T>) -> (r: (
        FrontendUpdate<T>,
        bool,
    ))
        ensures
            msg matches CollectorMessage::Data(loc) ==> r.0 == FrontendUpdate::Location(loc) && !r.1
                && *final(state) == *old(state) && final(self).is_running() == old(self).is_running()
                && final(self).is_attached() == old(self).is_attached(),
            msg matches CollectorMessage::TemporalError(e) ==> r.0 == FrontendUpdate::<T>::TrackerError(e)
                && !r.1 && *final(state) == *old(state) && final(self).is_running() == old(
                self,
            ).is_running() && final(self).is_attached() == old(self).is_attached(),
            msg is Terminated ==> r.0 == FrontendUpdate::<T>::StateOnly && r.1 == old(self).is_running()
                && !final(self).is_attached() && !final(self).is_running() && *final(state)
                == (GlobalState { proc_state: 0, ..*old(state) }),
            msg matches CollectorMessage::OffsetFound(name) ==> r.0 == FrontendUpdate::<T>::StateOnly
                && !r.1 && *final(state) == (GlobalState { active_offset_name: Some(name), ..*old(state) })
                && final(self).is_running() == old(self).is_running() && final(self).is_attached()
                == old(self).is_attached(),
    {
        match msg {
            CollectorMessage::Data(loc) => (FrontendUpdate::Location(loc), false),
            CollectorMessage::TemporalError(e) => (FrontendUpdate::TrackerError(e), false),
            CollectorMessage::Terminated => {
                let cancel = self.detach();
                state.proc_state = 0;
                (FrontendUpdate::StateOnly, cancel)
            },
            CollectorMessage::OffsetFound(name) => {
                state.active_offset_name = Some(name);
                (FrontendUpdate::StateOnly, false)
            },
        }
    }
}

/// Records the outcome of attaching to the game: on success the loop starts
/// and the front end shows the process attached. The result is true when
/// the loop must be spawned.
pub fn apply_attach_result(
    life: &mut CollectorLifecycle,
    state: &mut GlobalState,
    result: &Result<(), String>,
) -> (r: bool)
    ensures
        result is Ok ==> final(life).is_attached() && final(life).is_running() && r == !old(
            life,
        ).is_running() && *final(state) == (GlobalState { proc_state: 1, ..*old(state) }),
        result is Err ==> !r && *final(state) == *old(state) && final(life).is_attached() == old(
            life,
        ).is_attached() && final(life).is_running() == old(life).is_running(),
{
    match result {
        Ok(()) => {
            let start = life.on_attached();
            state.proc_state = 1;
            start
        },
        Err(_) => false,
    }
}

/// Records the outcome of (re)starting the local signalling server: its
/// address while it listens, nothing when it failed.
pub fn apply_server_start(state: &mut GlobalState, result: Result<String, String>)
    ensures
        result matches Ok(addr) ==> *final(state) == (GlobalState {
            server_state: 1,
            connection_url: Some(addr),
            ..*old(state)
        }),
        result is Err ==> *final(state) == (GlobalState {
            server_state: 0,
            connection_url: None,
            ..*old(state)
        }),
{
    match result {
        Ok(addr) => {
            state.server_state = 1;
            state.connection_url = Some(addr);
        },
        Err(_) => {
            state.server_state = 0;
            state.connection_url = None;
        },
    }
}

/// Records the outcome of connecting to the external server for room
/// `code`: the code while connected, nothing after a failure. The result is
/// what the requester is answered.
pub fn apply_external_connect(state: &mut GlobalState, code: String, result: Result<(), String>) -> (r:
    Result<String, String>)
    ensures
        result is Ok ==> r == Ok::<String, String>(code) && *final(state) == (GlobalState {
            external_connection_code: Some(code),
            ..*old(state)
        }),
        result matches Err(e) ==> r == Err::<String, String>(e) && *final(state) == (GlobalState {
            external_connection_code: None,
            ..*old(state)
        }),
{
    match result {
        Ok(()) => {
            state.external_connection_code = Some(code.clone());
            Ok(code)
        },
        Err(e) => {
            state.external_connection_code = None;
            Err(e)
        },
    }
}

/// Records that the external session ended: no room code is shown.
pub fn apply_external_session_end(state: &mut GlobalState)
    ensures
        *final(state) == (GlobalState { external_connection_code: None, ..*old(state) }),
{
    state.external_connection_code = None;
}

/// What the peer manager does with a signal from a client it knows.
#[derive(Clone, Copy, Debug, PartialEq, Eq)]
pub enum PeerSignalAction {
    /// Set the client's answer as the remote description.
    SetRemoteDescription,
    /// Add the client's ICE candidate.
    AddIceCandidate,
    /// A kind a client must not send: ignored with a warning.
    Ignore,
}

/// The error text for a signal from a client without a peer connection.
pub open spec fn unknown_peer_text(id: Seq<char>) -> Seq<char> {
    "Received signal for non-existent peer: "@ + id
}

/// Decides on a signal from client `from`: an error when no peer
/// connection exists for it, else by kind.
pub fn peer_signal_action<P>(peers: &KeyedTable<P>, from: &str, kind: SignalKind) -> (r: Result<
    PeerSignalAction,
    String,
>)
    ensures
        !peers.view().contains_key(from@) ==> (r matches Err(m) && m@ == unknown_peer_text(from@)),
        peers.view().contains_key(from@) ==> r == Ok::<PeerSignalAction, String>(
            match kind {
                SignalKind::Answer => PeerSignalAction::SetRemoteDescription,
                SignalKind::IceCandidate => PeerSignalAction::AddIceCandidate,
                _ => PeerSignalAction::Ignore,
            },
        ),
{
    if !peers.contains_key(from) {
        let mut m = String::from_str("Received signal for non-existent peer: ");
        m.append(from);
        return Err(m);
    }
    match kind {
        SignalKind::Answer => Ok(PeerSignalAction::SetRemoteDescription),
        SignalKind::IceCandidate => Ok(PeerSignalAction::AddIceCandidate),
        _ => Ok(PeerSignalAction::Ignore),
    }
}

/// Opening a channel with `count` open: whether the ticker starts, and the
/// new count (the counter wraps as an atomic does).
pub open spec fn open_step(count: usize) -> (bool, usize) {
    (count == 0, if count == usize::MAX { 0 } else { (count + 1) as usize })
}

/// Closing a channel with `count` open: whether the ticker stops, and the
/// new count.
pub open spec fn close_step(count: usize) -> (bool, usize) {
    (count == 1, if count == 0 { usize::MAX } else { (count - 1) as usize })
}

/// Counts the open data channels of the local peers; the location ticker
/// runs while at least one is open.
#[derive(Debug)]
pub struct ClientCounter {
    pub count: usize,
}

impl ClientCounter {
    /// No channel open.
    pub fn new() -> (r: Self)
        ensures
            r.count == 0,
    {
        ClientCounter { count: 0 }
    }

    /// A channel opened; true when it is the first, so the ticker starts.
    pub fn on_open(&mut self) -> (r: bool)
        ensures
            (r, final(self).count) == open_step(old(self).count),
    {
        let old = self.count;
        self.count = self.count.wrapping_add(1);
        old == 0
    }

    /// A channel closed; true when it was the last, so the ticker stops.
    pub fn on_close(&mut self) -> (r: bool)
        ensures
            (r, final(self).count) == close_step(old(self).count),
    {
        let old = self.count;
        self.count = self.count.wrapping_sub(1);
        old == 1
    }
}

/// The ticker starts with the first open channel and stops with the last:
/// a channel that opens and closes again leaves the count as it was, and
/// signals a start exactly when it signals a stop, which is when no other
/// channel is open.
pub proof fn law_ticker_follows_clients(n: usize)
    requires
        n < usize::MAX,
    ensures
        close_step(open_step(n).1).1 == n,
        open_step(n).0 == close_step(open_step(n).1).0,
        open_step(n).0 == (n == 0),
{
}

/// Channels open minus channels closed over `events` (`true` an open,
/// `false` a close).
pub open spec fn open_balance(events: Seq<bool>) -> int
    decreases events.len(),
{
    if events.len() == 0 {
        0
    } else {
        open_balance(events.drop_last()) + if events.last() {
            1int
        } else {
            -1int
        }
    }
}

/// The count and whether the ticker runs after `events` from a new
/// counter: the ticker starts when an open signals a start and stops when a
/// close signals a stop.
pub open spec fn counter_after(events: Seq<bool>) -> (usize, bool)
    decreases events.len(),
{
    if events.len() == 0 {
        (0, false)
    } else {
        let prev = counter_after(events.drop_last());
        if events.last() {
            let step = open_step(prev.0);
            (step.1, prev.1 || step.0)
        } else {
            let step = close_step(prev.0);
            (step.1, prev.1 && !step.0)
        }
    }
}

/// Over any run of opens and closes in which no channel closes before it
/// opened (no prefix has more closes than opens) and fewer than
/// `usize::MAX` channels are open at once, the count is the number of open
/// channels, and the ticker runs exactly while one is open: it starts on
/// the 0 to 1 step and stops on the 1 to 0 step.
pub proof fn law_ticker_over_run(events: Seq<bool>)
    requires
        forall|k: int| 0 <= k <= events.len() ==> 0 <= #[trigger] open_balance(events.take(k)) < usize::MAX,
    ensures
        counter_after(events).0 == open_balance(events),
        counter_after(events).1 == (open_balance(events) > 0),
    decreases events.len(),
{
    assert(events.take(events.len() as int) =~= events);
    if events.len() > 0 {
        let prev = events.drop_last();
        assert forall|k: int| 0 <= k <= prev.len() implies 0 <= #[trigger] open_balance(prev.take(k)) < usize::MAX by {
            assert(prev.take(k) =~= events.take(k));
        }
        law_ticker_over_run(prev);
        assert(prev.take(prev.len() as int) =~= prev);
    }
}

} // verus!
