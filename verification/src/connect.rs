//! The decisions made while connecting tunnels, possibly through a chain of jump
//! tunnels, and while changing a running tunnel's forwards.
use vstd::prelude::*;

use crate::text::{concat_text, decimal, decimal_text};

verus! {

/// The chain of tunnels a connection needs: the requested tunnel first, then the jump
/// tunnel it goes through, then that one's jump tunnel, and so on, up to the first that
/// is connected already or has no jump tunnel. No tunnel occurs twice.
pub struct JumpChain {
    chain: Vec<u128>,
}

/// How a step of walking the jump chain ended.
#[derive(Clone, Copy, Debug, PartialEq, Eq, Structural)]
pub enum ChainStep {
    /// The current tunnel's jump tunnel joined the chain; look it up next.
    Extended,
    /// The chain is complete.
    Complete,
}

impl JumpChain {
    /// The tunnels of the chain, the requested one first.
    pub closed spec fn hops(&self) -> Seq<u128> {
        self.chain@
    }

    /// The chain is not empty and holds no tunnel twice.
    pub closed spec fn wf(&self) -> bool {
        self.chain@.len() >= 1 && self.chain@.no_duplicates()
    }

    /// The chain of a request to connect `id`, before anything is looked up.
    pub fn new(id: u128) -> (walk: JumpChain)
        ensures
            walk.wf(),
            walk.hops() == seq![id],
    {
        let mut chain = Vec::new();
        chain.push(id);
        assert(chain@ =~= seq![id]);
        JumpChain { chain }
    }

    /// The tunnel looked at now: the last one of the chain.
    pub fn current(&self) -> (id: u128)
        requires
            self.wf(),
        ensures
            id == self.hops().last(),
    {
        self.chain[self.chain.len() - 1]
    }

    /// Takes in the current tunnel's jump tunnel (`jump`, and whether it is connected).
    /// An unconnected jump tunnel joins the chain, unless it is in it already: then the
    /// chain has a cycle, which is refused. Otherwise the chain is complete.
    pub fn advance(&mut self, jump: Option<u128>, jump_connected: bool) -> (step: Result<ChainStep, String>)
        requires
            old(self).wf(),
        ensures
            final(self).wf(),
            jump is None || jump_connected ==> step == Ok::<ChainStep, String>(ChainStep::Complete)
                && final(self).hops() == old(self).hops(),
            jump is Some && !jump_connected && old(self).hops().contains(jump.unwrap()) ==> (step matches Err(msg)
                && msg@ == "jump tunnel chain has a cycle"@) && final(self).hops() == old(self).hops(),
            jump is Some && !jump_connected && !old(self).hops().contains(jump.unwrap()) ==> step == Ok::<
                ChainStep,
                String,
            >(ChainStep::Extended) && final(self).hops() == old(self).hops().push(jump.unwrap()),
    {
        if jump.is_some() && !jump_connected {
            let j = jump.unwrap();
            let n = self.chain.len();
                for i in 0..n
                    invariant
                        n == self.chain@.len(),
                        self.chain@ == old(self).chain@,
                        self.chain@.len() >= 1,
                        self.chain@.no_duplicates(),
                        jump == Some(j),
                        !jump_connected,
                        forall|k: int| 0 <= k < i ==> self.chain@[k] != j,
                {
                    if self.chain[i] == j {
                        assert(self.chain@[i as int] == j);
                        assert(old(self).hops().contains(j));
                        return Err("jump tunnel chain has a cycle".to_owned());
                    }
                }
                assert(!self.chain@.contains(j));
                let ghost before = self.chain@;
                self.chain.push(j);
                assert forall|a: int, b: int| 0 <= a < b < self.chain@.len() implies self.chain@[a] != self.chain@[b] by {
                    if b < n {
                        assert(before[a] != before[b]);
                    }
                }
                return Ok(ChainStep::Extended);
        }
        Ok(ChainStep::Complete)
    }

    /// The order to connect the chain in: the outermost jump tunnel first, the requested
    /// tunnel last.
    pub fn connect_order(&self) -> (order: Vec<u128>)
        requires
            self.wf(),
        ensures
            order@ == self.hops().reverse(),
    {
        let n = self.chain.len();
        let mut order: Vec<u128> = Vec::new();
        let mut k: usize = n;
        while k > 0
            invariant
                n == self.chain@.len(),
                k <= n,
                order@ == self.chain@.subrange(k as int, n as int).reverse(),
            decreases k,
        {
            k = k - 1;
            order.push(self.chain[k]);
            assert(self.chain@.subrange(k as int, n as int).reverse() =~= self.chain@.subrange(k + 1, n as int).reverse().push(
                self.chain@[k as int],
            ));
        }
        assert(self.chain@.subrange(0, n as int) =~= self.chain@);
        order
    }
}

/// What to do next while waiting for a jump tunnel's session.
#[derive(Debug, PartialEq, Eq)]
pub enum WaitStep {
    /// The session is authenticated: go on to the next hop.
    Ready,
    /// Poll again after a pause.
    KeepWaiting,
    /// Give up with this error.
    GiveUp(String),
}

/// One poll of waiting for a just-connected hop's SSH session: ready once the session
/// exists; failing fast if the hop stopped running; failing once the deadline passed.
pub fn session_wait_step(has_session: bool, still_running: bool, deadline_passed: bool) -> (step: WaitStep)
    ensures
        has_session ==> step == WaitStep::Ready,
        !has_session && !still_running ==> (step matches WaitStep::GiveUp(msg)
            && msg@ == "jump tunnel disconnected before it finished connecting"@),
        !has_session && still_running && deadline_passed ==> (step matches WaitStep::GiveUp(msg)
            && msg@ == "timed out waiting for jump tunnel to connect"@),
        !has_session && still_running && !deadline_passed ==> step == WaitStep::KeepWaiting,
{
    if has_session {
        WaitStep::Ready
    } else if !still_running {
        WaitStep::GiveUp("jump tunnel disconnected before it finished connecting".to_owned())
    } else if deadline_passed {
        WaitStep::GiveUp("timed out waiting for jump tunnel to connect".to_owned())
    } else {
        WaitStep::KeepWaiting
    }
}

/// The result of sending a forward change to a tunnel's task: the task's own answer,
/// where the tunnel runs, the command reached the task and the task answered; else
/// success (the change applies on the next connect).
pub fn forward_command_outcome(running: bool, delivered: bool, answer: Option<Result<(), String>>) -> (outcome: Result<(), String>)
    ensures
        outcome == (match answer {
            Some(r) if running && delivered => r,
            _ => Ok(()),
        }),
{
    if !running || !delivered {
        return Ok(());
    }
    match answer {
        Some(r) => r,
        None => Ok(()),
    }
}

/// The route of a tunnel's SSH connection: direct, or through the jump tunnel's session.
/// A tunnel cannot jump through itself.
pub fn jump_route(tunnel_id: u128, jump_tunnel_id: Option<u128>) -> (route: Result<Option<u128>, String>)
    ensures
        match jump_tunnel_id {
            Some(j) if j == tunnel_id => route matches Err(msg) && msg@ == "tunnel cannot jump through itself"@,
            _ => route == Ok::<Option<u128>, String>(jump_tunnel_id),
        },
{
    match jump_tunnel_id {
        Some(j) if j == tunnel_id => Err("tunnel cannot jump through itself".to_owned()),
        _ => Ok(jump_tunnel_id),
    }
}

/// The session of the jump tunnel to connect through, which must be connected (`None`
/// where it is not).
pub fn jump_session<H>(session: Option<H>) -> (found: Result<H, String>)
    ensures
        match session {
            Some(h) => found matches Ok(g) && g == h,
            None => found matches Err(msg) && msg@ == "jump tunnel is not connected"@,
        },
{
    match session {
        Some(h) => Ok(h),
        None => Err("jump tunnel is not connected".to_owned()),
    }
}

/// What comes of an authentication that the server answered: an error unless it
/// accepted.
pub fn authentication_outcome(accepted: bool) -> (outcome: Result<(), String>)
    ensures
        accepted ==> outcome is Ok,
        !accepted ==> (outcome matches Err(msg) && msg@ == "authentication failed"@),
{
    if accepted {
        Ok(())
    } else {
        Err("authentication failed".to_owned())
    }
}

/// The password to authenticate with: the stored secret, which must exist.
pub fn password_to_send(secret: Option<String>) -> (password: Result<String, String>)
    ensures
        match secret {
            Some(s) => password matches Ok(p) && p@ == s@,
            None => password matches Err(msg) && msg@ == "no password stored for this tunnel"@,
        },
{
    match secret {
        Some(s) => Ok(s),
        None => Err("no password stored for this tunnel".to_owned()),
    }
}

/// `text` followed by the decimal port, `": "` and `detail`.
pub open spec fn port_message(text: Seq<char>, port: u16, detail: Seq<char>) -> Seq<char> {
    text + decimal_text(port as nat) + ": "@ + detail
}

fn message_with_port(text: &str, port: u16, detail: &str) -> (msg: String)
    ensures
        msg@ == port_message(text@, port, detail@),
{
    let port_text = decimal(port);
    let a = concat_text(text, port_text.as_str());
    let b = concat_text(a.as_str(), ": ");
    concat_text(b.as_str(), detail)
}

/// The error a tunnel reports when its local SOCKS port cannot be bound.
pub fn socks_bind_error(port: u16, detail: &str) -> (msg: String)
    ensures
        msg@ == port_message("failed to bind local SOCKS port "@, port, detail@),
{
    message_with_port("failed to bind local SOCKS port ", port, detail)
}

/// The error a tunnel reports when a forward's local port cannot be bound.
pub fn forward_bind_error(port: u16, detail: &str) -> (msg: String)
    ensures
        msg@ == port_message("failed to bind local forward port "@, port, detail@),
{
    message_with_port("failed to bind local forward port ", port, detail)
}

/// The failures among connection results, each as `name: error`.
pub open spec fn failure_lines(results: Seq<(Seq<char>, Result<(), Seq<char>>)>) -> Seq<Seq<char>>
    decreases results.len(),
{
    if results.len() == 0 {
        Seq::empty()
    } else {
        let rest = failure_lines(results.drop_last());
        match results.last().1 {
            Err(e) => rest.push(results.last().0 + ": "@ + e),
            Ok(_) => rest,
        }
    }
}

/// `parts` joined with `sep` between each two.
pub open spec fn joined(parts: Seq<Seq<char>>, sep: Seq<char>) -> Seq<char>
    decreases parts.len(),
{
    if parts.len() == 0 {
        Seq::empty()
    } else if parts.len() == 1 {
        parts[0]
    } else {
        joined(parts.drop_last(), sep) + sep + parts.last()
    }
}

/// The view of one tunnel's connection result.
pub open spec fn result_view(r: (String, Result<(), String>)) -> (Seq<char>, Result<(), Seq<char>>) {
    (r.0@, match r.1 {
        Ok(u) => Ok(u),
        Err(e) => Err(e@),
    })
}

/// The outcome of connecting every tunnel: success when each connected, else one error
/// that lists every failure as `name: error`, separated by `; `.
pub fn connect_all_outcome(results: &Vec<(String, Result<(), String>)>) -> (outcome: Result<(), String>)
    ensures
        ({
            let lines = failure_lines(results@.map_values(|r: (String, Result<(), String>)| result_view(r)));
            if lines.len() == 0 {
                outcome is Ok
            } else {
                outcome matches Err(msg) && msg@ == joined(lines, "; "@)
            }
        }),
{
    let ghost all = results@.map_values(|r: (String, Result<(), String>)| result_view(r));
    let mut text = String::new();
    let mut count: usize = 0;
    let n = results.len();
    for i in 0..n
        invariant
            n == results@.len(),
            all == results@.map_values(|r: (String, Result<(), String>)| result_view(r)),
            count == failure_lines(all.take(i as int)).len(),
            count <= i,
            text@ == joined(failure_lines(all.take(i as int)), "; "@),
    {
        assert(all.take(i + 1).drop_last() =~= all.take(i as int));
        match &results[i].1 {
            Err(e) => {
                let line_start = concat_text(results[i].0.as_str(), ": ");
                let line = concat_text(line_start.as_str(), e.as_str());
                let ghost prev_lines = failure_lines(all.take(i as int));
                assert(all[i as int] == result_view(results@[i as int]));
                assert(line@ == all[i as int].0 + ": "@ + e@);
                assert(failure_lines(all.take(i + 1)) == prev_lines.push(line@));
                assert(prev_lines.push(line@).drop_last() =~= prev_lines);
                if count > 0 {
                    let with_sep = concat_text(text.as_str(), "; ");
                    text = concat_text(with_sep.as_str(), line.as_str());
                } else {
                    text = line;
                }
                count = count + 1;
            },
            Ok(_) => {},
        }
    }
    assert(all.take(n as int) =~= all);
    if count == 0 {
        Ok(())
    } else {
        Err(text)
    }
}

/// Agent authentication: which of the agent's identities to offer next. `is_public_key`
/// tells, for each identity the agent listed, whether it is a public key (only those are
/// offered); `from` is the first index not yet considered (0 at the start, then one past
/// the identity that the server just refused). An agent with no identity at all is an
/// error of its own; once no public key is left, the server accepted none.
pub fn agent_next_try(is_public_key: &Vec<bool>, from: usize) -> (next: Result<usize, String>)
    requires
        from <= is_public_key.len(),
    ensures
        is_public_key.len() == 0 ==> (next matches Err(m) && m@ == "ssh-agent has no loaded identities"@),
        is_public_key.len() > 0 ==> match next {
            Ok(i) => from <= i < is_public_key.len() && is_public_key[i as int]
                && forall|j: int| from <= j < i ==> !is_public_key[j],
            Err(m) => m@ == "ssh-agent did not have a key accepted by the server"@
                && forall|j: int| from <= j < is_public_key.len() ==> !is_public_key[j],
        },
{
    if is_public_key.len() == 0 {
        return Err("ssh-agent has no loaded identities".to_string());
    }
    let mut i = from;
    while i < is_public_key.len()
        invariant
            from <= i <= is_public_key.len(),
            forall|j: int| from <= j < i ==> !is_public_key[j],
        decreases is_public_key.len() - i,
    {
        if is_public_key[i] {
            return Ok(i);
        }
        i = i + 1;
    }
    Err("ssh-agent did not have a key accepted by the server".to_string())
}

} // verus!
