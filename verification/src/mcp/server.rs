//! When the server runs, and where it listens.

use crate::text::{begins, copy_of, decimal, decimal_text, ends, occurs, texts};
use vstd::prelude::*;

verus! {

/// The port that the server prefers.
pub const FIRST_PORT: u16 = 8765;

/// How many ports, from the preferred one upward, it tries.
pub const PORT_COUNT: usize = 21;

/// What the frontend shows of the server.
#[derive(Debug)]
pub struct McpStatus {
    pub running: bool,
    pub port: Option<u16>,
    pub url: Option<String>,
}

impl McpStatus {
    /// The status of a server that listens on `port`.
    pub open spec fn shows_running(self, port: u16) -> bool {
        self.running && self.port == Some(port) && self.url is Some && self.url->0@ == url_text(
            port,
        )
    }

    /// The status of a server that does not run.
    pub open spec fn shows_stopped(self) -> bool {
        !self.running && self.port is None && self.url is None
    }
}

/// Where a server on `port` is reached.
pub open spec fn url_text(port: u16) -> Seq<char> {
    "http://127.0.0.1:"@ + decimal(port as nat) + "/mcp"@
}

/// Where a server on `port` is reached.
pub fn server_url(port: u16) -> (r: String)
    ensures
        r@ == url_text(port),
{
    let mut out = copy_of("http://127.0.0.1:");
    out.push_str(decimal_text(port as u64).as_str());
    out.push_str("/mcp");
    out
}

/// The hosts that a server on `port` answers.
pub open spec fn host_texts(port: u16) -> Seq<Seq<char>> {
    seq![
        "localhost"@,
        "127.0.0.1"@,
        "::1"@,
        "127.0.0.1:"@ + decimal(port as nat),
        "localhost:"@ + decimal(port as nat),
        "[::1]:"@ + decimal(port as nat),
    ]
}

/// The hosts that a server on `port` answers: this machine only, with the port or
/// without.
pub fn allowed_hosts(port: u16) -> (r: Vec<String>)
    ensures
        texts(r@) == host_texts(port),
{
    let digits = decimal_text(port as u64);
    let mut by_number = copy_of("127.0.0.1:");
    by_number.push_str(digits.as_str());
    let mut by_name = copy_of("localhost:");
    by_name.push_str(digits.as_str());
    let mut by_v6 = copy_of("[::1]:");
    by_v6.push_str(digits.as_str());
    let mut out: Vec<String> = Vec::new();
    out.push(copy_of("localhost"));
    out.push(copy_of("127.0.0.1"));
    out.push(copy_of("::1"));
    out.push(by_number);
    out.push(by_name);
    out.push(by_v6);
    assert(texts(out@) =~= host_texts(port));
    out
}

/// The first port at or after the `i`th that could be bound, and the preferred one
/// where none could. `free[i]` says whether the port `i` above the preferred one
/// could be bound.
pub open spec fn chosen_port(free: Seq<bool>, i: int) -> int
    decreases free.len() - i,
{
    if i < 0 || i >= free.len() {
        8765
    } else if free[i] {
        8765 + i
    } else {
        chosen_port(free, i + 1)
    }
}

/// The port to listen on, given which of the ports from the preferred one upward
/// could be bound. Trying may stop at the first that could.
pub fn pick_free_mcp_port(free: &Vec<bool>) -> (r: u16)
    requires
        free@.len() <= PORT_COUNT,
    ensures
        r == chosen_port(free@, 0),
        8765 <= r <= 8785,
{
    for i in 0..free.len()
        invariant
            free@.len() <= PORT_COUNT,
            chosen_port(free@, 0) == chosen_port(free@, i as int),
    {
        if free[i] {
            return FIRST_PORT + i as u16;
        }
    }
    FIRST_PORT
}

/// Whether the server runs, and on which port.
#[derive(Debug)]
pub struct McpServerState {
    port: Option<u16>,
}

/// What a request to switch the server calls for.
#[derive(Debug, Clone, Copy, PartialEq, Eq, Structural)]
pub enum ServerStep {
    /// Bind a port and serve.
    Start,
    /// Cancel what serves.
    Stop,
    /// Nothing: it already is as wanted.
    Keep,
}

impl View for McpServerState {
    type V = Option<u16>;

    closed spec fn view(&self) -> Option<u16> {
        self.port
    }
}

impl McpServerState {
    /// A server that does not run.
    pub fn new() -> (r: Self)
        ensures
            r@ is None,
    {
        McpServerState { port: None }
    }

    /// What the frontend shows.
    pub fn snapshot(&self) -> (r: McpStatus)
        ensures
            match self@ {
                Some(port) => r.shows_running(port),
                None => r.shows_stopped(),
            },
    {
        match self.port {
            Some(port) => McpStatus {
                running: true,
                port: Some(port),
                url: Some(server_url(port)),
            },
            None => McpStatus { running: false, port: None, url: None },
        }
    }

    /// What a request to start calls for: nothing where the server runs.
    pub fn on_start(&self) -> (r: ServerStep)
        ensures
            r == (if self@ is Some {
                ServerStep::Keep
            } else {
                ServerStep::Start
            }),
    {
        if self.port.is_some() {
            ServerStep::Keep
        } else {
            ServerStep::Start
        }
    }

    /// What the switch in the frontend calls for.
    pub fn on_toggle(&self) -> (r: ServerStep)
        ensures
            r == (if self@ is Some {
                ServerStep::Stop
            } else {
                ServerStep::Start
            }),
    {
        if self.port.is_some() {
            ServerStep::Stop
        } else {
            ServerStep::Start
        }
    }

    /// The server listens on `port` now.
    pub fn started(&mut self, port: u16)
        ensures
            final(self)@ == Some(port),
    {
        self.port = Some(port);
    }

    /// Stop: gives the port whose server is to be cancelled, where one runs.
    pub fn stop(&mut self) -> (r: Option<u16>)
        ensures
            r == old(self)@,
            final(self)@ is None,
    {
        let was = self.port;
        self.port = None;
        was
    }
}

// ---------------------------------------------------------------------------
// Where the server is
// ---------------------------------------------------------------------------

/// The server listens on the first port from the preferred one upward that is free, and on
/// the preferred one where none is.
pub proof fn the_first_free_port_is_taken(free: Seq<bool>, i: int)
    requires
        0 <= i <= free.len(),
        forall|j: int| 0 <= j < i ==> !#[trigger] free[j],
    ensures
        i < free.len() && free[i] ==> chosen_port(free, 0) == FIRST_PORT + i,
        i == free.len() ==> chosen_port(free, 0) == FIRST_PORT,
{
    ports_in_use_are_passed(free, 0, i);
}

proof fn ports_in_use_are_passed(free: Seq<bool>, from: int, i: int)
    requires
        0 <= from <= i <= free.len(),
        forall|j: int| 0 <= j < i ==> !#[trigger] free[j],
    ensures
        chosen_port(free, from) == chosen_port(free, i),
    decreases i - from,
{
    if from < i {
        assert(!free[from]);
        ports_in_use_are_passed(free, from + 1, i);
    }
}

/// The server is reached on this machine, at its port.
pub proof fn the_server_is_on_this_machine(port: u16)
    ensures
        begins(url_text(port), "http://127.0.0.1:"@),
        occurs(url_text(port), decimal(port as nat)),
        ends(url_text(port), "/mcp"@),
{
    broadcast use crate::text::group_parts;

    let head = "http://127.0.0.1:"@ + decimal(port as nat);
    let all = head + "/mcp"@;
    assert(all.subrange(all.len() - "/mcp"@.len(), all.len() as int) =~= "/mcp"@);
}

/// The server answers this machine by each of its three names, with the port or without,
/// and no other host.
pub proof fn only_this_machine_is_answered(port: u16, host: Seq<char>)
    ensures
        host_texts(port).contains(host) <==> host == "localhost"@ || host == "127.0.0.1"@ || host
            == "::1"@ || host == "localhost:"@ + decimal(port as nat) || host == "127.0.0.1:"@
            + decimal(port as nat) || host == "[::1]:"@ + decimal(port as nat),
{
    let hosts = host_texts(port);
    assert(hosts[0] == "localhost"@ && hosts[1] == "127.0.0.1"@ && hosts[2] == "::1"@);
    assert(hosts[3] == "127.0.0.1:"@ + decimal(port as nat));
    assert(hosts[4] == "localhost:"@ + decimal(port as nat));
    assert(hosts[5] == "[::1]:"@ + decimal(port as nat));
}

/// A status shows one port at most, and with it where the server is reached; a server that
/// does not run shows neither.
pub proof fn a_status_shows_one_port(s: McpStatus, port: u16, other: u16)
    ensures
        s.shows_running(port) ==> s.running && s.port == Some(port) && (s.url matches Some(u)
            && occurs(u@, decimal(port as nat))),
        s.shows_running(port) && s.shows_running(other) ==> port == other,
        s.shows_running(port) ==> !s.shows_stopped(),
        s.shows_stopped() ==> !s.running && s.port is None && s.url is None,
{
    broadcast use crate::text::group_parts;

}

} // verus!
