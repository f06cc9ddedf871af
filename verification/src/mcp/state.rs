//! Runtime state of the MCP server: the running server's handle and the
//! auth token.
//!
//! The token lives in a file in the app's data directory so that it
//! survives restarts; reading and writing that file is the caller's, this
//! module decides which token is in force. Requests are checked against the
//! token in force at the time, so regenerating rotates it at once (any MCP
//! client then needs the new token).

use vstd::prelude::*;
use rand::Rng;
use rand::rngs::ThreadRng;
use tokio::sync::oneshot::Sender;
use crate::text::{digit_char, trim};
use crate::mcp::server::{
    RequestBody, RpcStep, BodyModel, StepModel, authorized, bearer_token_admits, header_model, rpc_step,
    unauthorized_reply,
};

verus! {

#[verifier::external_type_specification]
#[verifier::external_body]
#[verifier::reject_recursive_types(T)]
pub struct ExSender<T>(Sender<T>);

#[verifier::external_type_specification]
#[verifier::external_body]
pub struct ExThreadRng(ThreadRng);

/// The handle of a running server: its port and the channel that asks it
/// to shut down.
pub struct RunningServer {
    pub port: u16,
    pub shutdown_tx: Option<Sender<()>>,
}

/// The server state: the running server, if any, and the token in force.
pub struct McpServerState {
    running: Option<RunningServer>,
    token: String,
}

/// The view of an [`McpServerState`].
pub struct StateModel {
    pub running: Option<RunningServer>,
    pub token: Seq<char>,
}

impl View for McpServerState {
    type V = StateModel;

    closed spec fn view(&self) -> StateModel {
        StateModel { running: self.running, token: self.token@ }
    }
}

/// Number of characters of a token.
pub const TOKEN_LEN: usize = 32;

/// The `i`-th character of `0123456789abcdef`.
pub open spec fn hex_char(i: nat) -> char {
    if i < 10 {
        digit_char(i)
    } else {
        (('a' as nat) + (i - 10)) as char
    }
}

/// A lower-case hexadecimal digit.
pub open spec fn is_hex_char(c: char) -> bool {
    exists|i: nat| i < 16 && hex_char(i) == c
}

/// A well-formed token: 32 lower-case hexadecimal digits (128 bits).
pub open spec fn is_token(t: Seq<char>) -> bool {
    t.len() == TOKEN_LEN && forall|i: int| 0 <= i < t.len() ==> is_hex_char(#[trigger] t[i])
}

/// The token stored in the token file: its contents without surrounding
/// white space, unless that leaves nothing.
pub open spec fn stored_token(contents: Option<Seq<char>>) -> Option<Seq<char>> {
    match contents {
        Some(c) => if crate::text::trimmed(c).len() > 0 {
            Some(crate::text::trimmed(c))
        } else {
            None
        },
        None => None,
    }
}

/// `rand::thread_rng`: the thread's random generator.
#[verifier::external_body]
fn thread_rng() -> ThreadRng {
    rand::thread_rng()
}

/// `Rng::gen_range(0..bound)`: a random index below `bound`; `gen_range`
/// samples uniformly from the half-open range and panics on an empty one.
#[verifier::external_body]
fn random_below(rng: &mut ThreadRng, bound: usize) -> (i: usize)
    requires
        bound > 0,
    ensures
        i < bound,
{
    rng.gen_range(0..bound)
}

fn hex_digit(i: usize) -> (c: char)
    requires
        i < 16,
    ensures
        c == hex_char(i as nat),
        is_hex_char(c),
{
    let b: u8 = if i < 10 { 48u8 + (i as u8) } else { 97u8 + ((i - 10) as u8) };
    let c = b as char;
    assert(hex_char(i as nat) == c);
    c
}

/// A fresh random token of 32 lower-case hexadecimal digits.
pub fn generate_token() -> (t: String)
    ensures
        is_token(t@),
{
    let mut rng = thread_rng();
    let mut t = String::new();
    let mut k: usize = 0;
    while k < TOKEN_LEN
        invariant
            k <= TOKEN_LEN,
            t@.len() == k,
            forall|i: int| 0 <= i < k ==> is_hex_char(#[trigger] t@[i]),
        decreases TOKEN_LEN - k,
    {
        let i = random_below(&mut rng, 16);
        crate::text::push_char(&mut t, hex_digit(i));
        k = k + 1;
    }
    t
}

/// The token in force at start-up, given the contents of the token file
/// (`None` where it is missing or unreadable): the stored token, or a
/// fresh one. The flag says that the token is fresh and is to be written
/// back.
pub fn load_or_generate_token(contents: Option<&str>) -> (r: (String, bool))
    ensures
        match contents {
            Some(c) => stored_token(Some(c@)),
            None => stored_token(None),
        } matches Some(t) ==> r.0@ == t && !r.1,
        match contents {
            Some(c) => stored_token(Some(c@)),
            None => stored_token(None),
        } is None ==> is_token(r.0@) && r.1,
{
    if let Some(c) = contents {
        let t = trim(c);
        if t.unicode_len() > 0 {
            return (t, false);
        }
    }
    (generate_token(), true)
}

impl McpServerState {
    /// A stopped server with the token `token`.
    pub fn new(token: String) -> (s: Self)
        ensures
            s@.running is None,
            s@.token == token@,
    {
        McpServerState { running: None, token }
    }

    /// The token in force.
    pub fn token(&self) -> (t: String)
        ensures
            t@ == self@.token,
    {
        self.token.clone()
    }

    /// Replaces the token with a fresh one and returns it.
    pub fn regenerate_token(&mut self) -> (t: String)
        ensures
            is_token(t@),
            final(self)@.token == t@,
            final(self)@.running == old(self)@.running,
    {
        let new_token = generate_token();
        self.token = new_token.clone();
        new_token
    }

    /// Handles a request to the MCP endpoint against the token in force now,
    /// so that a regenerated token takes effect at once.
    pub fn handle_request(&self, authorization: Option<&str>, body: RequestBody) -> (r: RpcStep)
        ensures
            r@ == rpc_step(header_model(authorization), self@.token, body@),
    {
        crate::mcp::server::handle_jsonrpc(authorization, self.token.as_str(), body)
    }

    /// Whether a server is running.
    pub fn is_running(&self) -> (b: bool)
        ensures
            b == self@.running is Some,
    {
        self.running.is_some()
    }

    /// The port of the running server, if any.
    pub fn port(&self) -> (p: Option<u16>)
        ensures
            p == port_of(self@),
    {
        match &self.running {
            Some(r) => Some(r.port),
            None => None,
        }
    }

    /// Installs a running server's handle. Refused where one is already
    /// installed (callers stop it first); the refused handle is dropped,
    /// which closes its shutdown channel.
    pub fn set_running(&mut self, running: RunningServer) -> (r: Result<(), String>)
        ensures
            old(self)@.running is Some <==> r is Err,
            r is Ok ==> final(self)@ == set_model(old(self)@, running),
            r matches Err(msg) ==> msg@ == "MCP server is already running"@ && final(self)@ == old(self)@,
    {
        if self.running.is_some() {
            return Err("MCP server is already running".to_string());
        }
        self.running = Some(running);
        Ok(())
    }

    /// Removes the running server's handle and returns it.
    pub fn take_running(&mut self) -> (r: Option<RunningServer>)
        ensures
            r == old(self)@.running,
            final(self)@ == take_model(old(self)@),
    {
        self.running.take()
    }
}

/// The port of the running server of `s`, if any.
pub open spec fn port_of(s: StateModel) -> Option<u16> {
    match s.running {
        Some(r) => Some(r.port),
        None => None,
    }
}

/// The state after installing `r`.
pub open spec fn set_model(s: StateModel, r: RunningServer) -> StateModel {
    StateModel { running: Some(r), token: s.token }
}

/// The state after removing the running server.
pub open spec fn take_model(s: StateModel) -> StateModel {
    StateModel { running: None, token: s.token }
}

/// Installing a handle on a stopped server and removing it again gives back
/// that handle and the state as it was; the token is untouched throughout.
pub proof fn take_undoes_set(s: StateModel, r: RunningServer)
    requires
        s.running is None,
    ensures
        take_model(set_model(s, r)) == s,
        set_model(s, r).running == Some(r),
        port_of(set_model(s, r)) == Some(r.port),
        set_model(s, r).token == s.token,
{
}

/// A state reports a port exactly when a server is running.
pub proof fn port_iff_running(s: StateModel)
    ensures
        port_of(s) is Some <==> s.running is Some,
        port_of(take_model(s)) is None,
{
}


/// A token as the server generates it, once written to the token file, is
/// read back unchanged at the next start: it survives restarts.
pub proof fn persisted_token_survives_restart(t: Seq<char>)
    requires
        is_token(t),
    ensures
        stored_token(Some(t)) == Some(t),
{
    reveal(crate::text::trimmed);
    assert forall|i: int| 0 <= i < t.len() implies !crate::text::is_white_space(#[trigger] t[i]) by {
        assert(is_hex_char(t[i]));
        let k = choose|k: nat| k < 16 && hex_char(k) == t[i];
    }
    assert(!crate::text::is_white_space(t[0]));
    let a = choose|a: int|
        0 <= a < t.len() && !crate::text::is_white_space(t[a]) && forall|k: int|
            0 <= k < a ==> crate::text::is_white_space(#[trigger] t[k]);
    let b = choose|b: int|
        0 <= b < t.len() && !crate::text::is_white_space(t[b]) && forall|k: int|
            b < k < t.len() ==> crate::text::is_white_space(#[trigger] t[k]);
    assert(!crate::text::is_white_space(t[t.len() - 1]));
    assert(a == 0) by {
        if a > 0 {
            assert(crate::text::is_white_space(t[0]));
        }
    }
    assert(b == t.len() - 1) by {
        if b < t.len() - 1 {
            assert(crate::text::is_white_space(t[t.len() - 1]));
        }
    }
    assert(t.subrange(0, t.len() as int) =~= t);
    assert(crate::text::trimmed(t) == t);
}


/// Regenerating rotates the token: once the state holds a fresh token, a
/// request carrying the previous one is refused, whatever its body, and one
/// carrying the new token is let through.
pub proof fn rotation_refuses_previous_token(before: StateModel, after: StateModel, body: BodyModel)
    requires
        is_token(after.token),
        after.token != before.token,
    ensures
        rpc_step(Some("Bearer "@ + before.token), after.token, body) == StepModel::Reply(unauthorized_reply()),
        authorized(Some("Bearer "@ + after.token), after.token),
{
    bearer_token_admits(before.token, after.token);
    bearer_token_admits(after.token, after.token);
}

} // verus!
