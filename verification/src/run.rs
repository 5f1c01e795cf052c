//! The run loop: its configuration, what it does on each event of a
//! connection, and how long it waits before it connects again.
use crate::text::opt_text;
use vstd::arithmetic::power2::{lemma2_to64, lemma_pow2_unfold, pow2};
use vstd::prelude::*;

verus! {

/// How the agent is to run.
pub struct RunConfig {
    pub portal_url: String,
    pub cert_path: Option<String>,
    pub key_path: Option<String>,
    pub ca_path: Option<String>,
    pub rcon_addr: String,
    pub rcon_password: String,
    pub heartbeat_secs: u64,
    /// Dev mode: plain ws:// with an X-Dev-Server-Id header instead of mTLS.
    pub dev_server_id: Option<String>,
}

/// What is missing in a configuration, if something is.
pub open spec fn missing(portal_url: Seq<char>, rcon_password: Seq<char>) -> Option<Seq<char>> {
    if portal_url.len() == 0 {
        Some("PORTAL_AGENT_URL is required"@)
    } else if rcon_password.len() == 0 {
        Some("RCON_PASSWORD is required (start the CS2 server with -usercon)"@)
    } else {
        None
    }
}

impl RunConfig {
    /// Why the agent cannot run with this configuration, if it cannot.
    pub fn startup_refusal(&self) -> (reason: Option<String>)
        ensures
            opt_text(reason) == missing(self.portal_url@, self.rcon_password@),
    {
        if self.portal_url.as_str().is_empty() {
            Some("PORTAL_AGENT_URL is required".to_owned())
        } else if self.rcon_password.as_str().is_empty() {
            Some("RCON_PASSWORD is required (start the CS2 server with -usercon)".to_owned())
        } else {
            None
        }
    }
}

/// The longest backoff, in seconds, before the jitter is added.
pub const MAX_BACKOFF_SECS: u64 = 60;

/// The backoff between connections.
pub struct Backoff {
    secs: u64,
}

impl View for Backoff {
    type V = int;

    /// The backoff after the next failure, in seconds.
    closed spec fn view(&self) -> int {
        self.secs as int
    }
}

/// The backoff that a connection's end leads to: it starts over where the
/// portal closed the connection.
pub open spec fn backoff_base(backoff: int, closed: bool) -> int {
    if closed {
        1
    } else {
        backoff
    }
}

/// The backoff doubles each time, up to its bound.
pub open spec fn doubled(backoff: int) -> int {
    if backoff * 2 < MAX_BACKOFF_SECS {
        backoff * 2
    } else {
        MAX_BACKOFF_SECS as int
    }
}

/// `Rng::random_range` of `rand` on the thread's generator: a number of the
/// range `0..=limit`, which one is left to chance. The range is never empty.
#[verifier::external_body]
fn random_up_to(limit: u64) -> (r: u64)
    ensures
        r <= limit,
{
    rand::Rng::random_range(&mut rand::rng(), 0..=limit)
}

impl Backoff {
    #[verifier::type_invariant]
    spec fn in_bounds(self) -> bool {
        1 <= self.secs <= MAX_BACKOFF_SECS
    }

    /// The backoff of an agent that has not connected yet.
    pub fn new() -> (b: Backoff)
        ensures
            b@ == 1,
    {
        Backoff { secs: 1 }
    }

    /// The most jitter that may be added to the wait after a connection's end.
    pub fn max_jitter(&self, closed: bool) -> (limit: u64)
        ensures
            limit == backoff_base(self@, closed),
            1 <= limit <= MAX_BACKOFF_SECS,
    {
        proof {
            use_type_invariant(&*self);
        }
        if closed {
            1
        } else {
            self.secs
        }
    }

    /// How long to wait after a connection's end, in seconds, with this jitter.
    /// `closed` says that the portal closed the connection; it failed otherwise.
    pub fn pause(&mut self, closed: bool, jitter: u64) -> (wait: u64)
        requires
            jitter <= backoff_base(old(self)@, closed),
        ensures
            wait == backoff_base(old(self)@, closed) + jitter,
            final(self)@ == doubled(backoff_base(old(self)@, closed)),
            1 <= wait <= 2 * MAX_BACKOFF_SECS,
    {
        let base = self.max_jitter(closed);
        self.secs = if base * 2 < MAX_BACKOFF_SECS {
            base * 2
        } else {
            MAX_BACKOFF_SECS
        };
        base + jitter
    }

    /// How long to wait after a connection's end, in seconds, with a jitter
    /// left to chance.
    pub fn reconnect_wait(&mut self, closed: bool) -> (wait: u64)
        ensures
            backoff_base(old(self)@, closed) <= wait <= 2 * backoff_base(old(self)@, closed),
            final(self)@ == doubled(backoff_base(old(self)@, closed)),
            1 <= wait <= 2 * MAX_BACKOFF_SECS,
    {
        let limit = self.max_jitter(closed);
        let jitter = random_up_to(limit);
        self.pause(closed, jitter)
    }
}

/// The backoff after `n` failures in a row, from `backoff` on.
pub open spec fn after_failures(backoff: int, n: nat) -> int
    decreases n,
{
    if n == 0 {
        backoff
    } else {
        doubled(backoff_base(after_failures(backoff, (n - 1) as nat), false))
    }
}

/// The backoff of a fresh agent doubles with each failure until it reaches its
/// bound, where it stays.
pub proof fn law_backoff_doubles_up_to_its_bound(n: nat)
    ensures
        after_failures(1, n) == if pow2(n) < MAX_BACKOFF_SECS {
            pow2(n) as int
        } else {
            MAX_BACKOFF_SECS as int
        },
    decreases n,
{
    lemma2_to64();
    if n > 0 {
        law_backoff_doubles_up_to_its_bound((n - 1) as nat);
        lemma_pow2_unfold(n);
    }
}

/// However often connections end, and however, the backoff stays within its
/// bounds.
pub proof fn law_backoff_stays_in_bounds(backoff: int, closed: bool)
    requires
        1 <= backoff <= MAX_BACKOFF_SECS,
    ensures
        1 <= doubled(backoff_base(backoff, closed)) <= MAX_BACKOFF_SECS,
{
}

/// A connection that the portal closed starts the backoff over: what happened
/// before is forgotten.
pub proof fn law_closed_connection_resets_the_backoff(a: int, b: int)
    ensures
        backoff_base(a, true) == backoff_base(b, true),
        backoff_base(a, true) == 1,
        doubled(backoff_base(a, true)) == 2,
{
}

/// What happens on a connection to the portal.
pub enum LinkEvent {
    /// The next heartbeat is due.
    HeartbeatDue,
    /// A text message came.
    Text(String),
    /// A ping came.
    Ping(Vec<u8>),
    /// A close message came, or the stream ended.
    Closed,
    /// Another message came.
    Other,
    /// Reading failed.
    ReadFailed,
}

/// What the agent does on a connection to the portal.
pub enum LinkAction {
    /// Ask the server and send a heartbeat.
    Heartbeat,
    /// Handle this command frame and send the answer.
    Handle(String),
    /// Answer the ping.
    Pong(Vec<u8>),
    /// Leave the connection as one that the portal closed.
    Finish,
    /// Wait for the next event.
    Wait,
    /// Leave the connection as one that failed.
    Fail,
}

/// What an event holds.
pub enum LinkEventView {
    HeartbeatDue,
    Text(Seq<char>),
    Ping(Seq<u8>),
    Closed,
    Other,
    ReadFailed,
}

/// What an action holds.
pub enum LinkActionView {
    Heartbeat,
    Handle(Seq<char>),
    Pong(Seq<u8>),
    Finish,
    Wait,
    Fail,
}

impl View for LinkEvent {
    type V = LinkEventView;

    open spec fn view(&self) -> LinkEventView {
        match self {
            LinkEvent::HeartbeatDue => LinkEventView::HeartbeatDue,
            LinkEvent::Text(text) => LinkEventView::Text(text@),
            LinkEvent::Ping(payload) => LinkEventView::Ping(payload@),
            LinkEvent::Closed => LinkEventView::Closed,
            LinkEvent::Other => LinkEventView::Other,
            LinkEvent::ReadFailed => LinkEventView::ReadFailed,
        }
    }
}

impl View for LinkAction {
    type V = LinkActionView;

    open spec fn view(&self) -> LinkActionView {
        match self {
            LinkAction::Heartbeat => LinkActionView::Heartbeat,
            LinkAction::Handle(text) => LinkActionView::Handle(text@),
            LinkAction::Pong(payload) => LinkActionView::Pong(payload@),
            LinkAction::Finish => LinkActionView::Finish,
            LinkAction::Wait => LinkActionView::Wait,
            LinkAction::Fail => LinkActionView::Fail,
        }
    }
}

/// What the agent does on an event of the connection.
pub open spec fn reaction(event: LinkEventView) -> LinkActionView {
    match event {
        LinkEventView::HeartbeatDue => LinkActionView::Heartbeat,
        LinkEventView::Text(text) => LinkActionView::Handle(text),
        LinkEventView::Ping(payload) => LinkActionView::Pong(payload),
        LinkEventView::Closed => LinkActionView::Finish,
        LinkEventView::Other => LinkActionView::Wait,
        LinkEventView::ReadFailed => LinkActionView::Fail,
    }
}

/// Decides what to do on an event of the connection.
pub fn on_event(event: LinkEvent) -> (action: LinkAction)
    ensures
        action@ == reaction(event@),
{
    match event {
        LinkEvent::HeartbeatDue => LinkAction::Heartbeat,
        LinkEvent::Text(text) => LinkAction::Handle(text),
        LinkEvent::Ping(payload) => LinkAction::Pong(payload),
        LinkEvent::Closed => LinkAction::Finish,
        LinkEvent::Other => LinkAction::Wait,
        LinkEvent::ReadFailed => LinkAction::Fail,
    }
}

/// What the agent sends on a connection.
#[derive(Clone, Copy, PartialEq, Eq, Structural)]
pub enum Outgoing {
    Heartbeat,
    Reply,
    Pong,
}

/// How the agent goes on once it has sent something.
#[derive(Clone, Copy, PartialEq, Eq, Structural, Debug)]
pub enum AfterSend {
    /// Leave the connection as one that the portal closed.
    Finish,
    /// Count the heartbeat and wait for the next event.
    CountHeartbeat,
    /// Wait for the next event.
    Wait,
}

/// Decides how to go on once something has been sent, or could not be: a
/// heartbeat or an answer that cannot be delivered means that the connection
/// is gone, a pong is sent on a best effort.
pub fn after_send(sent: Outgoing, delivered: bool) -> (next: AfterSend)
    ensures
        next == AfterSend::Finish <==> !delivered && sent != Outgoing::Pong,
        next == AfterSend::CountHeartbeat <==> delivered && sent == Outgoing::Heartbeat,
{
    match sent {
        Outgoing::Pong => AfterSend::Wait,
        Outgoing::Heartbeat => if delivered {
            AfterSend::CountHeartbeat
        } else {
            AfterSend::Finish
        },
        Outgoing::Reply => if delivered {
            AfterSend::Wait
        } else {
            AfterSend::Finish
        },
    }
}

/// The agent runs exactly where it has a URL and a password, whatever these
/// are, and says which one is missing, the URL first.
pub proof fn law_url_and_password_are_all_it_takes(url: Seq<char>, password: Seq<char>)
    ensures
        missing(url, password) is None <==> url.len() > 0 && password.len() > 0,
        url.len() == 0 ==> missing(url, password) == Some("PORTAL_AGENT_URL is required"@),
        url.len() > 0 && password.len() == 0 ==> missing(url, password) == Some(
            "RCON_PASSWORD is required (start the CS2 server with -usercon)"@,
        ),
{
}

/// A failed connection waits for the present backoff, a closed one for a
/// second; the next backoff is twice that, and a minute where twice that is
/// more.
pub proof fn law_next_backoff_is_twice_the_present(backoff: int)
    ensures
        backoff_base(backoff, false) == backoff,
        backoff_base(backoff, true) == 1,
        2 * backoff <= 60 ==> doubled(backoff) == 2 * backoff,
        2 * backoff >= 60 ==> doubled(backoff) == 60,
{
}

/// Each event has its own reaction, with the message or the payload that came,
/// unchanged.
pub proof fn law_reactions_hand_on_what_came(text: Seq<char>, payload: Seq<u8>)
    ensures
        reaction(LinkEventView::HeartbeatDue) == LinkActionView::Heartbeat,
        reaction(LinkEventView::Text(text)) == LinkActionView::Handle(text),
        reaction(LinkEventView::Ping(payload)) == LinkActionView::Pong(payload),
        reaction(LinkEventView::Closed) == LinkActionView::Finish,
        reaction(LinkEventView::Other) == LinkActionView::Wait,
        reaction(LinkEventView::ReadFailed) == LinkActionView::Fail,
{
}

/// What an event or an action holds is its own text or payload.
pub proof fn law_events_and_actions_keep_their_contents(event: LinkEvent, action: LinkAction)
    ensures
        event matches LinkEvent::HeartbeatDue ==> event@ == LinkEventView::HeartbeatDue,
        event matches LinkEvent::Text(text) ==> event@ == LinkEventView::Text(text@),
        event matches LinkEvent::Ping(payload) ==> event@ == LinkEventView::Ping(payload@),
        event matches LinkEvent::Closed ==> event@ == LinkEventView::Closed,
        event matches LinkEvent::Other ==> event@ == LinkEventView::Other,
        event matches LinkEvent::ReadFailed ==> event@ == LinkEventView::ReadFailed,
        action matches LinkAction::Heartbeat ==> action@ == LinkActionView::Heartbeat,
        action matches LinkAction::Handle(text) ==> action@ == LinkActionView::Handle(text@),
        action matches LinkAction::Pong(payload) ==> action@ == LinkActionView::Pong(payload@),
        action matches LinkAction::Finish ==> action@ == LinkActionView::Finish,
        action matches LinkAction::Wait ==> action@ == LinkActionView::Wait,
        action matches LinkAction::Fail ==> action@ == LinkActionView::Fail,
{
}

} // verus!
