//! Plex sign-in and server selection: the PIN response and server resources
//! as the library reads them, choosing the best reachable connection of a
//! server, and the decision step of the probe rounds.
//!
//! The HTTP exchanges with plex.tv and the connection probes themselves run in
//! the application shell, which hands the results to these functions.

use vstd::prelude::*;
use crate::plex::error::PlexError;
use crate::text::{chars_of, infix_of, is_infix, owned};

verus! {

/// The PIN plex.tv hands out for the sign-in flow.
#[derive(Debug, Clone, PartialEq)]
pub struct PinResponse {
    pub id: i64,
    pub code: String,
    pub auth_token: Option<String>,
}

/// A device on the user's account, with the ways to reach it.
#[derive(Debug, Clone, PartialEq)]
pub struct PlexResource {
    pub name: String,
    pub provides: String,
    pub connections: Vec<PlexConnection>,
}

/// One way to reach a server.
#[derive(Debug, Clone, PartialEq)]
pub struct PlexConnection {
    pub uri: String,
    pub local: bool,
    pub relay: bool,
}

impl Default for PlexConnection {
    fn default() -> (r: Self)
        ensures
            r.uri@ == Seq::<char>::empty(),
            !r.local,
            !r.relay,
    {
        PlexConnection { uri: String::new(), local: false, relay: false }
    }
}

/// Number of probe rounds before settling for a relay or remote connection.
pub const PROBE_ROUNDS: usize = 2;

/// Delay between probe rounds, in milliseconds.
pub const PROBE_RETRY_DELAY_MS: u64 = 600;

/// How good a connection is: local direct beats remote direct beats relay.
pub open spec fn connection_rank(c: PlexConnection) -> int {
    if c.relay {
        0
    } else if c.local {
        2
    } else {
        1
    }
}

/// A reachable connection worth stopping for: local and not relayed.
pub open spec fn preferred(c: PlexConnection) -> bool {
    c.local && !c.relay
}

/// Connection `i` answered the probe (a missing result counts as no answer).
pub open spec fn answered(reachable: Seq<bool>, i: int) -> bool {
    0 <= i < reachable.len() && reachable[i]
}

/// `i` is the first reachable connection of the highest rank among the
/// reachable ones.
pub open spec fn is_best(conns: Seq<PlexConnection>, reachable: Seq<bool>, i: int) -> bool {
    &&& 0 <= i < conns.len()
    &&& answered(reachable, i)
    &&& forall|j: int|
        0 <= j < conns.len() && answered(reachable, j) ==> connection_rank(#[trigger] conns[j])
            <= connection_rank(conns[i])
    &&& forall|j: int|
        0 <= j < i && answered(reachable, j) ==> connection_rank(#[trigger] conns[j])
            < connection_rank(conns[i])
}

/// Some connection answered.
pub open spec fn any_answered(conns: Seq<PlexConnection>, reachable: Seq<bool>) -> bool {
    exists|j: int| 0 <= j < conns.len() && #[trigger] answered(reachable, j)
}

/// The best answering connection, if any answered.
pub open spec fn best_of(conns: Seq<PlexConnection>, reachable: Seq<bool>) -> Option<int> {
    if any_answered(conns, reachable) {
        Some(choose|i: int| is_best(conns, reachable, i))
    } else {
        None
    }
}

/// At most one connection is the best.
pub proof fn lemma_best_unique(conns: Seq<PlexConnection>, reachable: Seq<bool>, i: int, j: int)
    requires
        is_best(conns, reachable, i),
        is_best(conns, reachable, j),
    ensures
        i == j,
{
    if i < j {
        assert(connection_rank(conns[i]) < connection_rank(conns[j]));
        assert(connection_rank(conns[j]) <= connection_rank(conns[i]));
    } else if j < i {
        assert(connection_rank(conns[j]) < connection_rank(conns[i]));
        assert(connection_rank(conns[i]) <= connection_rank(conns[j]));
    }
}

/// The connection `pick_best` found is `best_of`.
proof fn lemma_best_of(conns: Seq<PlexConnection>, reachable: Seq<bool>, i: int)
    requires
        is_best(conns, reachable, i),
    ensures
        best_of(conns, reachable) == Some(i),
{
    assert(answered(reachable, i));
    assert(any_answered(conns, reachable));
    let c = choose|k: int| is_best(conns, reachable, k);
    lemma_best_unique(conns, reachable, c, i);
}

/// A local, non-relay connection: the fast path; relay and remote are only a
/// fallback.
pub fn is_preferred(conn: &PlexConnection) -> (r: bool)
    ensures
        r == preferred(*conn),
{
    conn.local && !conn.relay
}

/// The rank of a connection, at run time.
fn rank(conn: &PlexConnection) -> (r: u8)
    ensures
        r == connection_rank(*conn),
{
    if conn.relay {
        0
    } else if conn.local {
        2
    } else {
        1
    }
}

/// Pick the best reachable connection from a round of probe results: local
/// non-relay first, then any non-relay, then relay; among equals the first
/// listed. Returns its index, or `None` when nothing answered.
pub fn pick_best(connections: &[PlexConnection], reachable: &[bool]) -> (r: Option<usize>)
    ensures
        match r {
            Some(i) => is_best(connections@, reachable@, i as int) && best_of(
                connections@,
                reachable@,
            ) == Some(i as int),
            None => !any_answered(connections@, reachable@) && best_of(connections@, reachable@)
                is None,
        },
{
    let mut best: Option<usize> = None;
    let mut i: usize = 0;
    while i < connections.len()
        invariant
            i <= connections@.len(),
            match best {
                Some(b) => b < i && answered(reachable@, b as int) && (forall|j: int|
                    0 <= j < i && answered(reachable@, j) ==> connection_rank(
                        #[trigger] connections@[j],
                    ) <= connection_rank(connections@[b as int])) && (forall|j: int|
                    0 <= j < b && answered(reachable@, j) ==> connection_rank(
                        #[trigger] connections@[j],
                    ) < connection_rank(connections@[b as int])),
                None => forall|j: int| 0 <= j < i ==> !#[trigger] answered(reachable@, j),
            },
        decreases connections.len() - i,
    {
        if i < reachable.len() && reachable[i] {
            match best {
                None => {
                    best = Some(i);
                },
                Some(b) => {
                    if rank(&connections[i]) > rank(&connections[b]) {
                        best = Some(i);
                    }
                },
            }
        }
        i = i + 1;
    }
    proof {
        match best {
            Some(b) => lemma_best_of(connections@, reachable@, b as int),
            None => {},
        }
    }
    best
}

/// Some listed connection is preferred.
pub open spec fn has_preferred(conns: Seq<PlexConnection>) -> bool {
    exists|j: int| 0 <= j < conns.len() && preferred(#[trigger] conns[j])
}

/// What to do after a probe round.
#[derive(Debug, Clone, Copy, PartialEq, Eq, Structural)]
pub enum ProbeStep {
    /// Use the connection at this index.
    Use(usize),
    /// Wait and probe again.
    Retry,
    /// Nothing answered in the last round.
    GiveUp,
}

/// The decision after probe round `round` (counting from zero): the best
/// answering connection is taken when it is preferred, when the server lists
/// no preferred connection at all, or in the last round; otherwise probe
/// again, since a local connection often needs a moment after launch. With no
/// answer the last round gives up.
pub open spec fn probe_step_spec(conns: Seq<PlexConnection>, reachable: Seq<bool>, round: nat) -> ProbeStep {
    let last = round + 1 >= PROBE_ROUNDS;
    match best_of(conns, reachable) {
        Some(i) => if preferred(conns[i]) || !has_preferred(conns) || last {
            ProbeStep::Use(i as usize)
        } else {
            ProbeStep::Retry
        },
        None => if last {
            ProbeStep::GiveUp
        } else {
            ProbeStep::Retry
        },
    }
}

/// Decide what to do after a probe round, from the round's results. The last
/// round never asks for another.
pub fn probe_step(connections: &[PlexConnection], reachable: &[bool], round: usize) -> (r: ProbeStep)
    ensures
        r == probe_step_spec(connections@, reachable@, round as nat),
        round + 1 >= PROBE_ROUNDS ==> r != ProbeStep::Retry,
        r matches ProbeStep::Use(i) ==> is_best(connections@, reachable@, i as int),
{
    let best = pick_best(connections, reachable);
    let mut has_local = false;
    let mut k: usize = 0;
    while k < connections.len()
        invariant
            k <= connections@.len(),
            has_local == exists|j: int| 0 <= j < k && preferred(#[trigger] connections@[j]),
        decreases connections.len() - k,
    {
        if is_preferred(&connections[k]) {
            has_local = true;
        }
        k = k + 1;
    }
    let last = round >= PROBE_ROUNDS - 1;
    match best {
        Some(i) => {
            if is_preferred(&connections[i]) || !has_local || last {
                ProbeStep::Use(i)
            } else {
                ProbeStep::Retry
            }
        },
        None => {
            if last {
                ProbeStep::GiveUp
            } else {
                ProbeStep::Retry
            }
        },
    }
}

/// A resource that is a media server (its `provides` list mentions `server`).
pub open spec fn is_server(r: PlexResource) -> bool {
    is_infix("server"@, r.provides@)
}

/// The resources that are media servers, in order.
pub open spec fn servers_of(s: Seq<PlexResource>) -> Seq<PlexResource>
    decreases s.len(),
{
    if s.len() == 0 {
        s
    } else if is_server(s.last()) {
        servers_of(s.drop_last()).push(s.last())
    } else {
        servers_of(s.drop_last())
    }
}

/// Keep only the resources that are media servers.
pub fn filter_servers(resources: Vec<PlexResource>) -> (r: Vec<PlexResource>)
    ensures
        r@ == servers_of(resources@),
{
    let ghost orig = resources@;
    let mut rest = resources;
    let mut out: Vec<PlexResource> = Vec::new();
    let ghost mut k: int = 0;
    assert(orig.subrange(0, 0) =~= Seq::<PlexResource>::empty());
    let needle = chars_of("server");
    while rest.len() > 0
        invariant
            0 <= k <= orig.len(),
            rest@ == orig.skip(k),
            out@ == servers_of(orig.subrange(0, k)),
            needle@ == "server"@,
        decreases rest.len(),
    {
        let r = rest.remove(0);
        let ghost pre = orig.subrange(0, k);
        let ghost nxt = orig.subrange(0, k + 1);
        assert(nxt.drop_last() =~= pre);
        assert(nxt.last() == r);
        let hay = chars_of(r.provides.as_str());
        if infix_of(&needle, &hay) {
            out.push(r);
        }
        proof {
            k = k + 1;
        }
        assert(rest@ =~= orig.skip(k));
    }
    assert(orig.subrange(0, k) =~= orig);
    out
}

/// The sign-in page URL for a PIN.
pub open spec fn pin_auth_url_spec(client_id: Seq<char>, code: Seq<char>) -> Seq<char> {
    "https://app.plex.tv/auth#?clientID="@ + client_id + "&code="@ + code
        + "&context%5Bdevice%5D%5Bproduct%5D=Reel&context%5Bdevice%5D%5Blayout%5D=desktop&context%5Bdevice%5D%5Bplatform%5D=Linux"@
}

/// Build the plex.tv sign-in URL the user opens to approve PIN `code`.
pub fn pin_auth_url(client_id: &str, code: &str) -> (r: String)
    ensures
        r@ == pin_auth_url_spec(client_id@, code@),
{
    let mut s = String::new();
    s.append("https://app.plex.tv/auth#?clientID=");
    s.append(client_id);
    s.append("&code=");
    s.append(code);
    s.append(
        "&context%5Bdevice%5D%5Bproduct%5D=Reel&context%5Bdevice%5D%5Blayout%5D=desktop&context%5Bdevice%5D%5Bplatform%5D=Linux",
    );
    assert(s@ =~= pin_auth_url_spec(client_id@, code@));
    s
}

/// Number of times plex.tv is polled for the token (five minutes at one poll
/// a second).
pub const POLL_ATTEMPTS: usize = 300;

/// The token a polled PIN carries, when it carries a non-empty one.
pub open spec fn pin_token_spec(pin: PinResponse) -> Option<Seq<char>> {
    match pin.auth_token {
        Some(t) => if t@.len() > 0 {
            Some(t@)
        } else {
            None
        },
        None => None,
    }
}

/// The token of a polled PIN: `Some` once the user has approved the sign-in.
pub fn pin_token(pin: &PinResponse) -> (r: Option<String>)
    ensures
        match r {
            Some(t) => pin_token_spec(*pin) == Some(t@),
            None => pin_token_spec(*pin) is None,
        },
{
    match &pin.auth_token {
        Some(t) => {
            if t.as_str().unicode_len() == 0 {
                None
            } else {
                Some(t.clone())
            }
        },
        None => None,
    }
}

/// The headers of a plex.tv request: JSON answers, the product identity, and
/// the client identifier.
pub open spec fn auth_headers_spec(client_id: Seq<char>) -> Seq<(Seq<char>, Seq<char>)> {
    seq![
        ("Accept"@, "application/json"@),
        ("X-Plex-Product"@, "Reel"@),
        ("X-Plex-Version"@, "0.1.0"@),
        ("X-Plex-Platform"@, "Linux"@),
        ("X-Plex-Device"@, "PC"@),
        ("X-Plex-Provides"@, "player"@),
        ("X-Plex-Client-Identifier"@, client_id),
    ]
}

/// The headers sent to plex.tv, as `(name, value)` pairs; a value the HTTP
/// layer cannot carry is left out there.
pub fn auth_headers(client_id: &str) -> (r: Vec<(String, String)>)
    ensures
        r@.map_values(|p: (String, String)| (p.0@, p.1@)) == auth_headers_spec(client_id@),
{
    let mut v: Vec<(String, String)> = Vec::new();
    v.push((owned("Accept"), owned("application/json")));
    v.push((owned("X-Plex-Product"), owned("Reel")));
    v.push((owned("X-Plex-Version"), owned("0.1.0")));
    v.push((owned("X-Plex-Platform"), owned("Linux")));
    v.push((owned("X-Plex-Device"), owned("PC")));
    v.push((owned("X-Plex-Provides"), owned("player")));
    v.push((owned("X-Plex-Client-Identifier"), owned(client_id)));
    assert(v@.map_values(|p: (String, String)| (p.0@, p.1@)) =~= auth_headers_spec(client_id@));
    v
}

/// The error when plex.tv refuses to create a PIN.
pub fn pin_request_error(status: u16) -> (r: PlexError)
    ensures
        r matches PlexError::Server { status: s, message } && s == status && message@
            == "Failed to create PIN"@,
{
    PlexError::Server { status, message: owned("Failed to create PIN") }
}

/// The error when plex.tv refuses to list the account's resources.
pub fn discover_error(status: u16) -> (r: PlexError)
    ensures
        r matches PlexError::Server { status: s, message } && s == status && message@
            == "Failed to discover servers"@,
{
    PlexError::Server { status, message: owned("Failed to discover servers") }
}

/// The error once every PIN poll went by without a token.
pub fn pin_timeout() -> (r: PlexError)
    ensures
        r matches PlexError::Server { status, message } && status == 408 && message@
            == "Authentication timed out. Please try again."@,
{
    PlexError::Server { status: 408, message: owned("Authentication timed out. Please try again.") }
}

} // verus!
