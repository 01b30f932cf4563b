//! Decisions of the task that serves the results page: wait for the link,
//! wait for an address, then accept one client at a time on port 80, read
//! its request and answer it, with a pause before each accept. The task
//! performs each action and reports its outcome as an event.
use vstd::prelude::*;
use crate::http::{has_header_end, ReadNext, RequestBuffer, REQUEST_CAPACITY};

verus! {

/// Pause between two checks of the link or of the address, in milliseconds.
pub const POLL_PAUSE_MS: u64 = 500;

/// Pause before each accept, in milliseconds.
pub const ACCEPT_PAUSE_MS: u64 = 1000;

/// The port that the page is served on.
pub const HTTP_PORT: u16 = 80;

/// How long a client connection may stay idle, in seconds.
pub const SOCKET_TIMEOUT_SECS: u64 = 10;

/// Where the server task stands.
#[derive(Clone, Copy, Debug, PartialEq, Eq, Structural)]
pub enum ServerPhase {
    /// Asking whether the link is up.
    CheckLink,
    /// Pausing before asking again about the link.
    LinkPause,
    /// Asking whether an address has been assigned.
    CheckAddress,
    /// Pausing before asking again about the address.
    AddressPause,
    /// Pausing before the next accept.
    AcceptPause,
    /// Waiting for a client.
    Accepting,
    /// Reading the client's request.
    Reading,
    /// Sending the page.
    Responding,
}

/// What the task is to do next.
#[derive(Clone, Copy, Debug, PartialEq, Eq, Structural)]
pub enum ServerAction {
    CheckLink,
    CheckAddress,
    Sleep(u64),
    /// Open a socket with this idle timeout and accept a client on this port.
    Accept { port: u16, timeout_secs: u64 },
    /// Read into at most this many bytes.
    Read(usize),
    /// Send the results page and flush.
    Respond,
}

/// The outcome of an action.
pub enum ServerEvent {
    /// Whether the link is up.
    Link(bool),
    /// Whether an address has been assigned.
    Address(bool),
    /// A pause ended.
    Slept,
    /// Whether a client was accepted.
    Accepted(bool),
    /// The outcome of a read: `None` if it failed, else the bytes read.
    Read(Option<Vec<u8>>),
    /// The response was sent (or sending it failed) and flushed.
    Responded,
}

/// The action that a phase asks for; a read asks for the free space of the
/// request buffer.
pub open spec fn server_action(p: ServerPhase, received: nat) -> ServerAction {
    match p {
        ServerPhase::CheckLink => ServerAction::CheckLink,
        ServerPhase::LinkPause => ServerAction::Sleep(POLL_PAUSE_MS),
        ServerPhase::CheckAddress => ServerAction::CheckAddress,
        ServerPhase::AddressPause => ServerAction::Sleep(POLL_PAUSE_MS),
        ServerPhase::AcceptPause => ServerAction::Sleep(ACCEPT_PAUSE_MS),
        ServerPhase::Accepting => ServerAction::Accept { port: HTTP_PORT, timeout_secs: SOCKET_TIMEOUT_SECS },
        ServerPhase::Reading => ServerAction::Read((REQUEST_CAPACITY - received) as usize),
        ServerPhase::Responding => ServerAction::Respond,
    }
}

/// The phase after an event other than a read; an event that does not
/// answer the phase's action leaves the phase as it is.
pub open spec fn server_next(p: ServerPhase, e: ServerEvent) -> ServerPhase {
    match (p, e) {
        (ServerPhase::CheckLink, ServerEvent::Link(true)) => ServerPhase::CheckAddress,
        (ServerPhase::CheckLink, ServerEvent::Link(false)) => ServerPhase::LinkPause,
        (ServerPhase::LinkPause, ServerEvent::Slept) => ServerPhase::CheckLink,
        (ServerPhase::CheckAddress, ServerEvent::Address(true)) => ServerPhase::AcceptPause,
        (ServerPhase::CheckAddress, ServerEvent::Address(false)) => ServerPhase::AddressPause,
        (ServerPhase::AddressPause, ServerEvent::Slept) => ServerPhase::CheckAddress,
        (ServerPhase::AcceptPause, ServerEvent::Slept) => ServerPhase::Accepting,
        (ServerPhase::Accepting, ServerEvent::Accepted(true)) => ServerPhase::Reading,
        (ServerPhase::Accepting, ServerEvent::Accepted(false)) => ServerPhase::AcceptPause,
        (ServerPhase::Responding, ServerEvent::Responded) => ServerPhase::AcceptPause,
        _ => p,
    }
}

/// Whether one step of the server can go from phase `p` to `q` on event
/// `e`: a read moves only the reading phase, which either goes on or turns
/// to responding; any other event follows `server_next`.
pub open spec fn server_phase_step(p: ServerPhase, e: ServerEvent, q: ServerPhase) -> bool {
    match e {
        ServerEvent::Read(_) => if p == ServerPhase::Reading {
            q == ServerPhase::Reading || q == ServerPhase::Responding
        } else {
            q == p
        },
        _ => q == server_next(p, e),
    }
}

/// A run of the server: the phases it went through, `ps[i + 1]` after event
/// `es[i]`, starting from the first phase.
pub open spec fn server_trace(ps: Seq<ServerPhase>, es: Seq<ServerEvent>) -> bool {
    &&& ps.len() == es.len() + 1
    &&& ps[0] == ServerPhase::CheckLink
    &&& forall|i: int| 0 <= i < es.len() ==> #[trigger] server_phase_step(ps[i], es[i], ps[i + 1])
}

/// Phases of the wait for the link.
pub open spec fn linking(p: ServerPhase) -> bool {
    p == ServerPhase::CheckLink || p == ServerPhase::LinkPause
}

/// Phases of serving clients.
pub open spec fn serving(p: ServerPhase) -> bool {
    p == ServerPhase::AcceptPause || p == ServerPhase::Accepting || p == ServerPhase::Reading || p
        == ServerPhase::Responding
}

/// Before step `k` of the run, the link was found up.
pub open spec fn link_seen(ps: Seq<ServerPhase>, es: Seq<ServerEvent>, k: int) -> bool {
    exists|i: int| 0 <= i < k && #[trigger] ps[i] == ServerPhase::CheckLink && es[i] == ServerEvent::Link(true)
}

/// Before step `k` of the run, the link was found up and after that an
/// address was found assigned.
pub open spec fn address_seen_after_link(ps: Seq<ServerPhase>, es: Seq<ServerEvent>, k: int) -> bool {
    exists|i: int, j: int|
        #![trigger ps[i], ps[j]]
        0 <= i < j < k && ps[i] == ServerPhase::CheckLink && es[i] == ServerEvent::Link(true) && ps[j]
            == ServerPhase::CheckAddress && es[j] == ServerEvent::Address(true)
}

proof fn lemma_phase_groups(p: ServerPhase, e: ServerEvent, q: ServerPhase)
    requires
        server_phase_step(p, e, q),
    ensures
        linking(p) && !linking(q) ==> p == ServerPhase::CheckLink && e == ServerEvent::Link(true),
        !linking(p) ==> !linking(q),
        !serving(p) && serving(q) ==> p == ServerPhase::CheckAddress && e == ServerEvent::Address(true),
        serving(p) ==> serving(q),
{
}

proof fn lemma_trace_prefix(ps: Seq<ServerPhase>, es: Seq<ServerEvent>, k: int)
    requires
        server_trace(ps, es),
        0 <= k < ps.len(),
    ensures
        !linking(ps[k]) ==> link_seen(ps, es, k),
        serving(ps[k]) ==> address_seen_after_link(ps, es, k),
    decreases k,
{
    if k > 0 {
        lemma_trace_prefix(ps, es, k - 1);
        let j = k - 1;
        assert(server_phase_step(ps[j], es[j], ps[j + 1]));
        assert(j + 1 == k);
        lemma_phase_groups(ps[k - 1], es[k - 1], ps[k]);
        if !linking(ps[k]) {
            if linking(ps[k - 1]) {
                assert(ps[k - 1] == ServerPhase::CheckLink && es[k - 1] == ServerEvent::Link(true));
            } else {
                let i = choose|i: int| 0 <= i < k - 1 && #[trigger] ps[i] == ServerPhase::CheckLink && es[i]
                    == ServerEvent::Link(true);
                assert(ps[i] == ServerPhase::CheckLink);
            }
        }
        if serving(ps[k]) {
            if !serving(ps[k - 1]) {
                assert(!linking(ps[k - 1]));
                let i = choose|i: int| 0 <= i < k - 1 && #[trigger] ps[i] == ServerPhase::CheckLink && es[i]
                    == ServerEvent::Link(true);
                assert(ps[i] == ServerPhase::CheckLink && ps[k - 1] == ServerPhase::CheckAddress);
            } else {
                let (i, j) = choose|i: int, j: int|
                    #![trigger ps[i], ps[j]]
                    0 <= i < j < k - 1 && ps[i] == ServerPhase::CheckLink && es[i] == ServerEvent::Link(true)
                        && ps[j] == ServerPhase::CheckAddress && es[j] == ServerEvent::Address(true);
                assert(ps[i] == ServerPhase::CheckLink && ps[j] == ServerPhase::CheckAddress);
            }
        }
    }
}

/// Over a whole run, no client is accepted, read or answered before the
/// link was found up and, after that, an address was found assigned.
pub proof fn lemma_no_accept_before_link_and_address(ps: Seq<ServerPhase>, es: Seq<ServerEvent>, k: int)
    requires
        server_trace(ps, es),
        0 <= k < ps.len(),
        serving(ps[k]),
    ensures
        address_seen_after_link(ps, es, k),
{
    lemma_trace_prefix(ps, es, k);
}

/// The server task's state: its phase and the request read so far.
pub struct ServerSupervisor {
    phase: ServerPhase,
    request: RequestBuffer,
}

impl ServerSupervisor {
    /// The current phase.
    pub closed spec fn spec_phase(&self) -> ServerPhase {
        self.phase
    }

    /// The bytes of the current request received so far.
    pub closed spec fn spec_request(&self) -> Seq<u8> {
        self.request.received()
    }

    /// A task that starts by asking whether the link is up.
    pub fn new() -> (r: Self)
        ensures
            r.spec_phase() == ServerPhase::CheckLink,
            r.spec_request() == Seq::<u8>::empty(),
            r.spec_request().len() <= REQUEST_CAPACITY,
    {
        ServerSupervisor { phase: ServerPhase::CheckLink, request: RequestBuffer::new() }
    }

    /// The current phase.
    pub fn phase(&self) -> (r: ServerPhase)
        ensures
            r == self.spec_phase(),
    {
        self.phase
    }

    /// The request received so far.
    pub fn request(&self) -> (r: &Vec<u8>)
        ensures
            r@ == self.spec_request(),
            r@.len() <= REQUEST_CAPACITY,
    {
        self.request.bytes()
    }

    /// The action that the current phase asks for.
    pub fn action(&self) -> (r: ServerAction)
        ensures
            r == server_action(self.spec_phase(), self.spec_request().len()),
            self.spec_request().len() <= REQUEST_CAPACITY,
    {
        let space = self.request.space();
        match self.phase {
            ServerPhase::CheckLink => ServerAction::CheckLink,
            ServerPhase::LinkPause => ServerAction::Sleep(POLL_PAUSE_MS),
            ServerPhase::CheckAddress => ServerAction::CheckAddress,
            ServerPhase::AddressPause => ServerAction::Sleep(POLL_PAUSE_MS),
            ServerPhase::AcceptPause => ServerAction::Sleep(ACCEPT_PAUSE_MS),
            ServerPhase::Accepting => ServerAction::Accept { port: HTTP_PORT, timeout_secs: SOCKET_TIMEOUT_SECS },
            ServerPhase::Reading => ServerAction::Read(space),
            ServerPhase::Responding => ServerAction::Respond,
        }
    }

    /// Take in the outcome of the last action; returns the next action.
    /// A read that was asked for is taken into the request buffer: reading
    /// goes on while the header has not ended, the client has not closed and
    /// the read did not fail; then the page is sent. A newly accepted client
    /// starts with an empty request.
    pub fn step(&mut self, e: ServerEvent) -> (r: ServerAction)
        requires
            old(self).spec_phase() == ServerPhase::Reading ==> (e matches ServerEvent::Read(Some(c)) ==> old(
                self,
            ).spec_request().len() + c@.len() <= REQUEST_CAPACITY),
        ensures
            final(self).spec_request().len() <= REQUEST_CAPACITY,
            server_phase_step(old(self).spec_phase(), e, final(self).spec_phase()),
            r == server_action(final(self).spec_phase(), final(self).spec_request().len()),
            match e {
                ServerEvent::Read(chunk) => if old(self).spec_phase() == ServerPhase::Reading {
                    match chunk {
                        None => {
                            &&& final(self).spec_phase() == ServerPhase::Responding
                            &&& final(self).spec_request() == old(self).spec_request()
                        },
                        Some(c) => {
                            &&& final(self).spec_request() == old(self).spec_request() + c@
                            &&& final(self).spec_phase() == if c@.len() == 0 || has_header_end(
                                final(self).spec_request(),
                            ) {
                                ServerPhase::Responding
                            } else {
                                ServerPhase::Reading
                            }
                        },
                    }
                } else {
                    &&& final(self).spec_phase() == old(self).spec_phase()
                    &&& final(self).spec_request() == old(self).spec_request()
                },
                _ => {
                    &&& final(self).spec_phase() == server_next(old(self).spec_phase(), e)
                    &&& final(self).spec_request() == if final(self).spec_phase() == ServerPhase::Reading
                        && old(self).spec_phase() == ServerPhase::Accepting {
                        Seq::<u8>::empty()
                    } else {
                        old(self).spec_request()
                    }
                },
            },
    {
        match e {
            ServerEvent::Read(chunk) => {
                if self.phase == ServerPhase::Reading {
                    let next = match &chunk {
                        None => self.request.on_read(None),
                        Some(c) => self.request.on_read(Some(c.as_slice())),
                    };
                    match next {
                        ReadNext::ReadMore(_) => {},
                        ReadNext::Stop(_) => {
                            self.phase = ServerPhase::Responding;
                        },
                    }
                }
            },
            _ => {
                let next = match (self.phase, e) {
                    (ServerPhase::CheckLink, ServerEvent::Link(true)) => ServerPhase::CheckAddress,
                    (ServerPhase::CheckLink, ServerEvent::Link(false)) => ServerPhase::LinkPause,
                    (ServerPhase::LinkPause, ServerEvent::Slept) => ServerPhase::CheckLink,
                    (ServerPhase::CheckAddress, ServerEvent::Address(true)) => ServerPhase::AcceptPause,
                    (ServerPhase::CheckAddress, ServerEvent::Address(false)) => ServerPhase::AddressPause,
                    (ServerPhase::AddressPause, ServerEvent::Slept) => ServerPhase::CheckAddress,
                    (ServerPhase::AcceptPause, ServerEvent::Slept) => ServerPhase::Accepting,
                    (ServerPhase::Accepting, ServerEvent::Accepted(true)) => ServerPhase::Reading,
                    (ServerPhase::Accepting, ServerEvent::Accepted(false)) => ServerPhase::AcceptPause,
                    (ServerPhase::Responding, ServerEvent::Responded) => ServerPhase::AcceptPause,
                    (p, _) => p,
                };
                if next == ServerPhase::Reading && self.phase == ServerPhase::Accepting {
                    self.request = RequestBuffer::new();
                }
                self.phase = next;
            },
        }
        self.action()
    }
}

/// The server accepts clients only once the link is up and an address is
/// assigned: the pause that leads to the first accept is entered from an
/// address check that succeeded, and afterwards only after a failed accept or
/// a response.
pub proof fn lemma_accept_pause_entered(p: ServerPhase, e: ServerEvent)
    ensures
        server_next(p, e) == ServerPhase::AcceptPause && p != ServerPhase::AcceptPause ==> (p
            == ServerPhase::CheckAddress && e == ServerEvent::Address(true)) || (p == ServerPhase::Accepting
            && e == ServerEvent::Accepted(false)) || (p == ServerPhase::Responding && e == ServerEvent::Responded),
{
}

/// Every accept, the first one and each after a failed accept or a
/// response, comes after an `ACCEPT_PAUSE_MS` pause.
pub proof fn lemma_pause_before_accept(p: ServerPhase, e: ServerEvent, received: nat)
    ensures
        server_next(p, e) == ServerPhase::Accepting && p != ServerPhase::Accepting ==> p
            == ServerPhase::AcceptPause && e == ServerEvent::Slept,
        server_action(ServerPhase::AcceptPause, received) == ServerAction::Sleep(ACCEPT_PAUSE_MS),
{
}

} // verus!
