//! Decisions of the Wi-Fi station task: when to wait for a disconnect, when
//! to configure and start the radio, when to connect, and when to back off.
//! The task performs each action and reports its outcome as an event.
use vstd::prelude::*;

verus! {

/// Pause after the link dropped and after a failed connect, in milliseconds.
pub const RECONNECT_PAUSE_MS: u64 = 5000;

/// How many access points a scan lists at most.
pub const SCAN_LIMIT: usize = 10;

/// Where the station task stands.
#[derive(Clone, Copy, Debug, PartialEq, Eq, Structural)]
pub enum LinkPhase {
    /// Asking whether the station is connected.
    AwaitState,
    /// Connected; waiting for the disconnect event.
    AwaitDisconnect,
    /// Pausing after a disconnect.
    Cooldown,
    /// Asking whether the radio is started.
    AwaitStarted,
    /// Setting the client configuration.
    Configuring,
    /// Starting the radio.
    Starting,
    /// Scanning for access points.
    Scanning,
    /// Connecting to the access point.
    Connecting,
    /// Pausing after a failed connect.
    Backoff,
}

/// What the task is to do next.
#[derive(Clone, Copy, Debug, PartialEq, Eq, Structural)]
pub enum LinkAction {
    QueryState,
    WaitForDisconnect,
    Sleep(u64),
    QueryStarted,
    Configure,
    StartRadio,
    Scan(usize),
    Connect,
}

/// The outcome of an action.
#[derive(Clone, Copy, Debug, PartialEq, Eq, Structural)]
pub enum LinkEvent {
    /// Whether the station is connected.
    State(bool),
    /// The station disconnected.
    Disconnected,
    /// A pause ended.
    Slept,
    /// Whether the radio reports that it is started (an error counts as not).
    Started(bool),
    /// Configuring, starting or scanning succeeded.
    Done,
    /// Whether connecting succeeded.
    Connected(bool),
}

/// The action that a phase asks for.
pub open spec fn link_action(p: LinkPhase) -> LinkAction {
    match p {
        LinkPhase::AwaitState => LinkAction::QueryState,
        LinkPhase::AwaitDisconnect => LinkAction::WaitForDisconnect,
        LinkPhase::Cooldown => LinkAction::Sleep(RECONNECT_PAUSE_MS),
        LinkPhase::AwaitStarted => LinkAction::QueryStarted,
        LinkPhase::Configuring => LinkAction::Configure,
        LinkPhase::Starting => LinkAction::StartRadio,
        LinkPhase::Scanning => LinkAction::Scan(SCAN_LIMIT),
        LinkPhase::Connecting => LinkAction::Connect,
        LinkPhase::Backoff => LinkAction::Sleep(RECONNECT_PAUSE_MS),
    }
}

/// The phase after an event; an event that does not answer the phase's
/// action leaves the phase as it is.
pub open spec fn link_next(p: LinkPhase, e: LinkEvent) -> LinkPhase {
    match (p, e) {
        (LinkPhase::AwaitState, LinkEvent::State(true)) => LinkPhase::AwaitDisconnect,
        (LinkPhase::AwaitState, LinkEvent::State(false)) => LinkPhase::AwaitStarted,
        (LinkPhase::AwaitDisconnect, LinkEvent::Disconnected) => LinkPhase::Cooldown,
        (LinkPhase::Cooldown, LinkEvent::Slept) => LinkPhase::AwaitStarted,
        (LinkPhase::AwaitStarted, LinkEvent::Started(true)) => LinkPhase::Connecting,
        (LinkPhase::AwaitStarted, LinkEvent::Started(false)) => LinkPhase::Configuring,
        (LinkPhase::Configuring, LinkEvent::Done) => LinkPhase::Starting,
        (LinkPhase::Starting, LinkEvent::Done) => LinkPhase::Scanning,
        (LinkPhase::Scanning, LinkEvent::Done) => LinkPhase::Connecting,
        (LinkPhase::Connecting, LinkEvent::Connected(true)) => LinkPhase::AwaitState,
        (LinkPhase::Connecting, LinkEvent::Connected(false)) => LinkPhase::Backoff,
        (LinkPhase::Backoff, LinkEvent::Slept) => LinkPhase::AwaitState,
        _ => p,
    }
}

/// The station task's state.
pub struct LinkSupervisor {
    phase: LinkPhase,
}

impl LinkSupervisor {
    /// The current phase.
    pub closed spec fn spec_phase(&self) -> LinkPhase {
        self.phase
    }

    /// A task that starts by asking for the station state.
    pub fn new() -> (r: Self)
        ensures
            r.spec_phase() == LinkPhase::AwaitState,
    {
        LinkSupervisor { phase: LinkPhase::AwaitState }
    }

    /// The current phase.
    pub fn phase(&self) -> (r: LinkPhase)
        ensures
            r == self.spec_phase(),
    {
        self.phase
    }

    /// The action that the current phase asks for.
    pub fn action(&self) -> (r: LinkAction)
        ensures
            r == link_action(self.spec_phase()),
    {
        match self.phase {
            LinkPhase::AwaitState => LinkAction::QueryState,
            LinkPhase::AwaitDisconnect => LinkAction::WaitForDisconnect,
            LinkPhase::Cooldown => LinkAction::Sleep(RECONNECT_PAUSE_MS),
            LinkPhase::AwaitStarted => LinkAction::QueryStarted,
            LinkPhase::Configuring => LinkAction::Configure,
            LinkPhase::Starting => LinkAction::StartRadio,
            LinkPhase::Scanning => LinkAction::Scan(SCAN_LIMIT),
            LinkPhase::Connecting => LinkAction::Connect,
            LinkPhase::Backoff => LinkAction::Sleep(RECONNECT_PAUSE_MS),
        }
    }

    /// Take in the outcome of the last action; returns the next action.
    pub fn step(&mut self, e: LinkEvent) -> (r: LinkAction)
        ensures
            final(self).spec_phase() == link_next(old(self).spec_phase(), e),
            r == link_action(final(self).spec_phase()),
    {
        let next = match (self.phase, e) {
            (LinkPhase::AwaitState, LinkEvent::State(true)) => LinkPhase::AwaitDisconnect,
            (LinkPhase::AwaitState, LinkEvent::State(false)) => LinkPhase::AwaitStarted,
            (LinkPhase::AwaitDisconnect, LinkEvent::Disconnected) => LinkPhase::Cooldown,
            (LinkPhase::Cooldown, LinkEvent::Slept) => LinkPhase::AwaitStarted,
            (LinkPhase::AwaitStarted, LinkEvent::Started(true)) => LinkPhase::Connecting,
            (LinkPhase::AwaitStarted, LinkEvent::Started(false)) => LinkPhase::Configuring,
            (LinkPhase::Configuring, LinkEvent::Done) => LinkPhase::Starting,
            (LinkPhase::Starting, LinkEvent::Done) => LinkPhase::Scanning,
            (LinkPhase::Scanning, LinkEvent::Done) => LinkPhase::Connecting,
            (LinkPhase::Connecting, LinkEvent::Connected(true)) => LinkPhase::AwaitState,
            (LinkPhase::Connecting, LinkEvent::Connected(false)) => LinkPhase::Backoff,
            (LinkPhase::Backoff, LinkEvent::Slept) => LinkPhase::AwaitState,
            (p, _) => p,
        };
        self.phase = next;
        self.action()
    }
}

/// The station connects only once the radio is known to be started: the
/// `Connect` action follows a report that the radio is started, or the end
/// of the configure, start and scan sequence.
pub proof fn lemma_connect_only_when_started(p: LinkPhase, e: LinkEvent)
    ensures
        link_action(link_next(p, e)) == LinkAction::Connect && p != LinkPhase::Connecting ==> (p
            == LinkPhase::AwaitStarted && e == LinkEvent::Started(true)) || (p == LinkPhase::Scanning && e
            == LinkEvent::Done),
{
}

/// A radio that is not started is configured, started and scanned, in this
/// order, before a connect.
pub proof fn lemma_unstarted_radio_is_brought_up()
    ensures
        link_next(LinkPhase::AwaitStarted, LinkEvent::Started(false)) == LinkPhase::Configuring,
        link_next(LinkPhase::Configuring, LinkEvent::Done) == LinkPhase::Starting,
        link_next(LinkPhase::Starting, LinkEvent::Done) == LinkPhase::Scanning,
        link_next(LinkPhase::Scanning, LinkEvent::Done) == LinkPhase::Connecting,
{
}

/// After a failed connect and after a disconnect the task pauses for
/// `RECONNECT_PAUSE_MS` before anything else; after a failed connect it
/// then starts over by asking for the station state.
pub proof fn lemma_pause_after_failure()
    ensures
        link_action(link_next(LinkPhase::Connecting, LinkEvent::Connected(false))) == LinkAction::Sleep(
            RECONNECT_PAUSE_MS,
        ),
        link_next(LinkPhase::Backoff, LinkEvent::Slept) == LinkPhase::AwaitState,
        link_action(link_next(LinkPhase::AwaitDisconnect, LinkEvent::Disconnected)) == LinkAction::Sleep(
            RECONNECT_PAUSE_MS,
        ),
        link_next(LinkPhase::Cooldown, LinkEvent::Slept) == LinkPhase::AwaitStarted,
{
}

/// Whether event `e` answers the action that phase `p` asks for (any state
/// of the station, any started flag, any connect outcome).
pub open spec fn link_answers(p: LinkPhase, e: LinkEvent) -> bool {
    match p {
        LinkPhase::AwaitState => e is State,
        LinkPhase::AwaitDisconnect => e == LinkEvent::Disconnected,
        LinkPhase::Cooldown | LinkPhase::Backoff => e == LinkEvent::Slept,
        LinkPhase::AwaitStarted => e is Started,
        LinkPhase::Configuring | LinkPhase::Starting | LinkPhase::Scanning => e == LinkEvent::Done,
        LinkPhase::Connecting => e is Connected,
    }
}

/// Whether every event of `es`, from phase `p` on, answers the action asked for.
pub open spec fn answered_run(p: LinkPhase, es: Seq<LinkEvent>) -> bool
    decreases es.len(),
{
    es.len() == 0 || (link_answers(p, es[0]) && answered_run(link_next(p, es[0]), es.drop_first()))
}

/// Whether the task, from phase `p` on and taking in `es`, reaches the
/// phase in which it asks to connect.
pub open spec fn reaches_connect(p: LinkPhase, es: Seq<LinkEvent>) -> bool
    decreases es.len(),
{
    p == LinkPhase::Connecting || (es.len() > 0 && reaches_connect(link_next(p, es[0]), es.drop_first()))
}

/// The most answered steps from a phase to the connect request.
pub open spec fn steps_to_connect(p: LinkPhase) -> nat {
    match p {
        LinkPhase::Connecting => 0,
        LinkPhase::Scanning => 1,
        LinkPhase::Starting => 2,
        LinkPhase::Configuring => 3,
        LinkPhase::AwaitStarted => 4,
        LinkPhase::Cooldown => 5,
        LinkPhase::AwaitDisconnect => 6,
        LinkPhase::AwaitState => 7,
        LinkPhase::Backoff => 8,
    }
}

/// The task asks to connect again, whatever the station state, the started
/// flag and the connect outcomes: from any phase, as soon as its actions
/// have been answered `steps_to_connect` times (at most 8). In particular
/// after a failed connect (`Backoff`) and after a disconnect (`Cooldown`).
pub proof fn lemma_connect_asked_again(p: LinkPhase, es: Seq<LinkEvent>)
    requires
        answered_run(p, es),
        es.len() >= steps_to_connect(p),
    ensures
        reaches_connect(p, es),
        steps_to_connect(p) <= 8,
    decreases es.len(),
{
    if p != LinkPhase::Connecting {
        let q = link_next(p, es[0]);
        assert(steps_to_connect(q) < steps_to_connect(p));
        lemma_connect_asked_again(q, es.drop_first());
    }
}

/// The seed of the network stack: two random words, the first as the high
/// half.
pub fn random_seed(high: u32, low: u32) -> (r: u64)
    ensures
        r == high as nat * 0x1_0000_0000 + low as nat,
{
    let r = (high as u64) << 32u64 | low as u64;
    assert(((high as u64) << 32u64 | low as u64) == high as nat * 0x1_0000_0000 + low as nat) by (bit_vector);
    r
}

} // verus!
