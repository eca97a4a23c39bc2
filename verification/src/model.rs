//! Tunnels, their port forwards and how they authenticate.
use vstd::prelude::*;

use crate::ids::{new_id, no_randomness_message};
use crate::text::same_text;

verus! {

/// How a tunnel authenticates to its SSH server.
#[derive(Debug)]
pub enum AuthMethod {
    Password,
    PrivateKey { path: String },
    Agent,
}

/// The value of an `AuthMethod`.
pub enum AuthSpec {
    Password,
    PrivateKey { path: Seq<char> },
    Agent,
}

impl View for AuthMethod {
    type V = AuthSpec;

    open spec fn view(&self) -> AuthSpec {
        match self {
            AuthMethod::Password => AuthSpec::Password,
            AuthMethod::PrivateKey { path } => AuthSpec::PrivateKey { path: path@ },
            AuthMethod::Agent => AuthSpec::Agent,
        }
    }
}

/// The text stored for each kind of authentication.
pub open spec fn auth_kind_text(a: AuthSpec) -> Seq<char> {
    match a {
        AuthSpec::Password => "password"@,
        AuthSpec::PrivateKey { .. } => "private_key"@,
        AuthSpec::Agent => "agent"@,
    }
}

/// The key path stored beside the kind: only a private key has one.
pub open spec fn auth_key_path(a: AuthSpec) -> Option<Seq<char>> {
    match a {
        AuthSpec::PrivateKey { path } => Some(path),
        _ => None,
    }
}

/// The authentication read back from a stored kind and key path. An unknown kind
/// reads as a password, and a private key without a stored path has the empty path.
pub open spec fn auth_from_stored(kind: Seq<char>, key_path: Option<Seq<char>>) -> AuthSpec {
    if kind == "private_key"@ {
        AuthSpec::PrivateKey {
            path: match key_path {
                Some(p) => p,
                None => Seq::empty(),
            },
        }
    } else if kind == "agent"@ {
        AuthSpec::Agent
    } else {
        AuthSpec::Password
    }
}

pub open spec fn option_text(s: Option<String>) -> Option<Seq<char>> {
    match s {
        Some(t) => Some(t@),
        None => None,
    }
}

impl Clone for AuthMethod {
    fn clone(&self) -> (copy: Self)
        ensures
            copy@ == self@,
    {
        match self {
            AuthMethod::Password => AuthMethod::Password,
            AuthMethod::PrivateKey { path } => AuthMethod::PrivateKey { path: path.clone() },
            AuthMethod::Agent => AuthMethod::Agent,
        }
    }
}

impl AuthMethod {
    /// The kind as it is stored.
    pub fn kind(&self) -> (kind: &'static str)
        ensures
            kind@ == auth_kind_text(self@),
    {
        match self {
            AuthMethod::Password => "password",
            AuthMethod::PrivateKey { .. } => "private_key",
            AuthMethod::Agent => "agent",
        }
    }

    /// The private key's path, for the private-key kind only.
    pub fn key_path(&self) -> (path: Option<&str>)
        ensures
            match path {
                Some(p) => auth_key_path(self@) == Some(p@),
                None => auth_key_path(self@) is None,
            },
    {
        match self {
            AuthMethod::PrivateKey { path } => Some(path.as_str()),
            _ => None,
        }
    }

    /// Reads an authentication back from its stored kind and key path.
    pub fn from_row(kind: &str, key_path: Option<String>) -> (auth: AuthMethod)
        ensures
            auth@ == auth_from_stored(kind@, option_text(key_path)),
    {
        if same_text(kind, "private_key") {
            let path = match key_path {
                Some(p) => p,
                None => String::new(),
            };
            AuthMethod::PrivateKey { path }
        } else if same_text(kind, "agent") {
            AuthMethod::Agent
        } else {
            AuthMethod::Password
        }
    }
}

/// Storing an authentication as its kind and key path and reading it back gives the
/// same authentication.
pub proof fn lemma_auth_round_trip(a: AuthSpec)
    ensures
        auth_from_stored(auth_kind_text(a), auth_key_path(a)) == a,
{
    reveal_strlit("password");
    reveal_strlit("private_key");
    reveal_strlit("agent");
    assert("password"@[1] != "private_key"@[1]);
    assert("password"@ != "private_key"@);
    assert("password"@[0] != "agent"@[0]);
    assert("password"@ != "agent"@);
    assert("agent"@ != "private_key"@);
}

/// A static local port forward of a tunnel: `local_port` on this machine reaches
/// `remote_host:remote_port` through the tunnel's SSH session.
#[derive(Debug)]
pub struct PortForward {
    pub id: u128,
    pub tunnel_id: u128,
    pub remote_host: String,
    pub remote_port: u16,
    pub local_port: u16,
}

/// The value of a `PortForward`.
pub struct ForwardSpec {
    pub id: u128,
    pub tunnel_id: u128,
    pub remote_host: Seq<char>,
    pub remote_port: u16,
    pub local_port: u16,
}

impl View for PortForward {
    type V = ForwardSpec;

    open spec fn view(&self) -> ForwardSpec {
        ForwardSpec {
            id: self.id,
            tunnel_id: self.tunnel_id,
            remote_host: self.remote_host@,
            remote_port: self.remote_port,
            local_port: self.local_port,
        }
    }
}

impl Clone for PortForward {
    fn clone(&self) -> (copy: Self)
        ensures
            copy@ == self@,
    {
        PortForward {
            id: self.id,
            tunnel_id: self.tunnel_id,
            remote_host: self.remote_host.clone(),
            remote_port: self.remote_port,
            local_port: self.local_port,
        }
    }
}

/// The values of a list of forwards.
pub open spec fn forward_views(fs: Seq<PortForward>) -> Seq<ForwardSpec> {
    fs.map_values(|f: PortForward| f@)
}

/// What the user enters for a port forward.
#[derive(Debug)]
pub struct PortForwardInput {
    pub remote_host: String,
    pub remote_port: u16,
    pub local_port: u16,
}

/// A configured SSH tunnel.
#[derive(Debug)]
pub struct Tunnel {
    pub id: u128,
    pub name: String,
    pub host: String,
    pub port: u16,
    pub username: String,
    pub auth: AuthMethod,
    pub local_socks_port: u16,
    pub auto_connect: bool,
    pub forwards: Vec<PortForward>,
    pub jump_tunnel_id: Option<u128>,
    pub socks_enabled: bool,
}

/// The value of a `Tunnel`.
pub struct TunnelSpec {
    pub id: u128,
    pub name: Seq<char>,
    pub host: Seq<char>,
    pub port: u16,
    pub username: Seq<char>,
    pub auth: AuthSpec,
    pub local_socks_port: u16,
    pub auto_connect: bool,
    pub forwards: Seq<ForwardSpec>,
    pub jump_tunnel_id: Option<u128>,
    pub socks_enabled: bool,
}

impl View for Tunnel {
    type V = TunnelSpec;

    open spec fn view(&self) -> TunnelSpec {
        TunnelSpec {
            id: self.id,
            name: self.name@,
            host: self.host@,
            port: self.port,
            username: self.username@,
            auth: self.auth@,
            local_socks_port: self.local_socks_port,
            auto_connect: self.auto_connect,
            forwards: forward_views(self.forwards@),
            jump_tunnel_id: self.jump_tunnel_id,
            socks_enabled: self.socks_enabled,
        }
    }
}

impl TunnelSpec {
    /// The same tunnel with `forwards` as its port forwards.
    pub open spec fn with_forwards(self, forwards: Seq<ForwardSpec>) -> TunnelSpec {
        TunnelSpec { forwards, ..self }
    }
}

/// What the user enters for a tunnel.
#[derive(Debug)]
pub struct TunnelInput {
    pub name: String,
    pub host: String,
    pub port: u16,
    pub username: String,
    pub auth: AuthMethod,
    pub local_socks_port: u16,
    pub auto_connect: bool,
    pub jump_tunnel_id: Option<u128>,
    pub socks_enabled: bool,
}

/// The tunnel with identifier `id` that `input` describes, before any forward is added.
pub open spec fn tunnel_from_input(id: u128, input: TunnelInput) -> TunnelSpec {
    TunnelSpec {
        id,
        name: input.name@,
        host: input.host@,
        port: input.port,
        username: input.username@,
        auth: input.auth@,
        local_socks_port: input.local_socks_port,
        auto_connect: input.auto_connect,
        forwards: Seq::empty(),
        jump_tunnel_id: input.jump_tunnel_id,
        socks_enabled: input.socks_enabled,
    }
}

/// The forward with identifier `id` of tunnel `tunnel_id` that `input` describes.
pub open spec fn forward_from_input(id: u128, tunnel_id: u128, input: PortForwardInput) -> ForwardSpec {
    ForwardSpec {
        id,
        tunnel_id,
        remote_host: input.remote_host@,
        remote_port: input.remote_port,
        local_port: input.local_port,
    }
}

impl Tunnel {
    /// The tunnel `input` describes, under the identifier `id`, with no forwards.
    pub fn from_input(id: u128, input: TunnelInput) -> (tunnel: Tunnel)
        ensures
            tunnel@ == tunnel_from_input(id, input),
    {
        let tunnel = Tunnel {
            id,
            name: input.name,
            host: input.host,
            port: input.port,
            username: input.username,
            auth: input.auth,
            local_socks_port: input.local_socks_port,
            auto_connect: input.auto_connect,
            forwards: Vec::new(),
            jump_tunnel_id: input.jump_tunnel_id,
            socks_enabled: input.socks_enabled,
        };
        assert(forward_views(tunnel.forwards@) =~= Seq::<ForwardSpec>::empty());
        tunnel
    }

    /// A new tunnel from `input`, under a fresh random identifier; an error where no
    /// random identifier can be drawn.
    pub fn create(input: TunnelInput) -> (tunnel: Result<Tunnel, String>)
        ensures
            match tunnel {
                Ok(t) => t@ == tunnel_from_input(t.id, input) && t.id != 0,
                Err(m) => m@ == no_randomness_message(),
            },
    {
        match new_id() {
            Ok(id) => Ok(Tunnel::from_input(id, input)),
            Err(m) => Err(m),
        }
    }
}

impl PortForward {
    /// The forward `input` describes, for tunnel `tunnel_id`, under identifier `id`.
    pub fn from_input(id: u128, tunnel_id: u128, input: PortForwardInput) -> (forward: PortForward)
        ensures
            forward@ == forward_from_input(id, tunnel_id, input),
    {
        PortForward {
            id,
            tunnel_id,
            remote_host: input.remote_host,
            remote_port: input.remote_port,
            local_port: input.local_port,
        }
    }

    /// A new forward of tunnel `tunnel_id` from `input`, under a fresh random identifier;
    /// an error where no random identifier can be drawn.
    pub fn create(tunnel_id: u128, input: PortForwardInput) -> (forward: Result<PortForward, String>)
        ensures
            match forward {
                Ok(f) => f@ == forward_from_input(f.id, tunnel_id, input) && f.id != 0,
                Err(m) => m@ == no_randomness_message(),
            },
    {
        match new_id() {
            Ok(id) => Ok(PortForward::from_input(id, tunnel_id, input)),
            Err(m) => Err(m),
        }
    }

    /// The forward `id` edited with `input`: it keeps its identifier and its tunnel.
    /// Editing a forward that does not exist is refused.
    pub fn edited(id: u128, existing: Option<PortForward>, input: PortForwardInput) -> (edited: Result<PortForward, String>)
        ensures
            match existing {
                Some(e) => edited matches Ok(f) && f@ == forward_from_input(id, e.tunnel_id, input),
                None => edited matches Err(msg) && msg@ == "port forward not found"@,
            },
    {
        match existing {
            Some(e) => Ok(PortForward::from_input(id, e.tunnel_id, input)),
            None => Err("port forward not found".to_owned()),
        }
    }
}

/// The forwards of `fs` that belong to tunnel `tunnel_id`, in their order.
pub open spec fn forwards_of(fs: Seq<ForwardSpec>, tunnel_id: u128) -> Seq<ForwardSpec>
    decreases fs.len(),
{
    if fs.len() == 0 {
        Seq::empty()
    } else {
        let rest = forwards_of(fs.drop_last(), tunnel_id);
        if fs.last().tunnel_id == tunnel_id {
            rest.push(fs.last())
        } else {
            rest
        }
    }
}

/// The forwards of `forwards` that belong to tunnel `tunnel_id`, in their order.
pub fn forwards_for(forwards: &Vec<PortForward>, tunnel_id: u128) -> (mine: Vec<PortForward>)
    ensures
        forward_views(mine@) == forwards_of(forward_views(forwards@), tunnel_id),
        forward_views(mine@) == forward_views(forwards@).filter(of_tunnel(tunnel_id)),
        forall|j: int| 0 <= j < forwards@.len() && forwards@[j].tunnel_id == tunnel_id
            ==> #[trigger] forward_views(mine@).contains(forwards@[j]@),
        forall|j: int| 0 <= j < mine@.len() ==> #[trigger] mine@[j].tunnel_id == tunnel_id,
{
    proof {
        lemma_forwards_of_filters(forward_views(forwards@), tunnel_id);
    }
    let mut mine: Vec<PortForward> = Vec::new();
    let n = forwards.len();
    let ghost all = forward_views(forwards@);
    for i in 0..n
        invariant
            n == forwards@.len(),
            all == forward_views(forwards@),
            forward_views(mine@) == forwards_of(all.take(i as int), tunnel_id),
    {
        assert(all.take(i + 1).drop_last() == all.take(i as int));
        if forwards[i].tunnel_id == tunnel_id {
            let f = forwards[i].clone();
            mine.push(f);
            assert(forward_views(mine@) =~= forward_views(mine@.drop_last()).push(f@));
        }
    }
    assert(all.take(n as int) == all);
    proof {
        assert forall|j: int| 0 <= j < mine@.len() implies #[trigger] mine@[j].tunnel_id == tunnel_id by {
            assert(forward_views(mine@)[j] == mine@[j]@);
        }
        assert forall|j: int| 0 <= j < forwards@.len() && forwards@[j].tunnel_id == tunnel_id
            implies #[trigger] forward_views(mine@).contains(forwards@[j]@) by {
            assert(all[j] == forwards@[j]@);
        }
    }
    mine
}

/// Whether a forward belongs to tunnel `tunnel_id`.
pub open spec fn of_tunnel(tunnel_id: u128) -> spec_fn(ForwardSpec) -> bool {
    |f: ForwardSpec| f.tunnel_id == tunnel_id
}

/// The forwards of a tunnel are exactly the forwards that name it, in their order: the
/// list keeps every forward of the tunnel and nothing else.
pub proof fn lemma_forwards_of_filters(fs: Seq<ForwardSpec>, tunnel_id: u128)
    ensures
        forwards_of(fs, tunnel_id) == fs.filter(of_tunnel(tunnel_id)),
        forall|j: int| 0 <= j < fs.len() && fs[j].tunnel_id == tunnel_id ==> #[trigger] forwards_of(fs, tunnel_id).contains(fs[j]),
        forall|j: int| 0 <= j < forwards_of(fs, tunnel_id).len() ==> #[trigger] forwards_of(fs, tunnel_id)[j].tunnel_id == tunnel_id,
        forwards_of(fs, tunnel_id).len() <= fs.len(),
    decreases fs.len(),
{
    let p = of_tunnel(tunnel_id);
    if fs.len() > 0 {
        let rest = fs.drop_last();
        lemma_forwards_of_filters(rest, tunnel_id);
        assert(rest.push(fs.last()) =~= fs);
        rest.lemma_filter_push(fs.last(), p);
    } else {
        assert(fs.filter(p) =~= fs) by {
            reveal(Seq::filter);
        }
    }
    assert forall|j: int| 0 <= j < fs.len() && fs[j].tunnel_id == tunnel_id implies #[trigger] forwards_of(fs, tunnel_id).contains(fs[j]) by {
        fs.lemma_filter_contains(p, j);
    }
    assert forall|j: int| 0 <= j < forwards_of(fs, tunnel_id).len() implies #[trigger] forwards_of(fs, tunnel_id)[j].tunnel_id == tunnel_id by {
        fs.lemma_filter_pred(p, j);
    }
    fs.lemma_filter_len(p);
}

/// Gives each tunnel of `tunnels` the forwards of `forwards` that belong to it.
pub fn attach_forwards(tunnels: &mut Vec<Tunnel>, forwards: &Vec<PortForward>)
    ensures
        final(tunnels)@.len() == old(tunnels)@.len(),
        forall|i: int|
            0 <= i < old(tunnels)@.len() ==> #[trigger] final(tunnels)@[i]@ == old(tunnels)@[i]@.with_forwards(
                forwards_of(forward_views(forwards@), old(tunnels)@[i].id),
            ),
        forall|i: int|
            0 <= i < old(tunnels)@.len() ==> #[trigger] final(tunnels)@[i]@ == old(tunnels)@[i]@.with_forwards(
                forward_views(forwards@).filter(of_tunnel(old(tunnels)@[i].id)),
            ),
{
    proof {
        assert forall|t: u128| #[trigger] forwards_of(forward_views(forwards@), t) == forward_views(forwards@).filter(of_tunnel(t)) by {
            lemma_forwards_of_filters(forward_views(forwards@), t);
        }
    }
    let n = tunnels.len();
    for i in 0..n
        invariant
            n == old(tunnels)@.len(),
            tunnels@.len() == n,
            forall|j: int|
                0 <= j < i ==> #[trigger] tunnels@[j]@ == old(tunnels)@[j]@.with_forwards(
                    forwards_of(forward_views(forwards@), old(tunnels)@[j].id),
                ),
            forall|j: int| i <= j < n ==> #[trigger] tunnels@[j] == old(tunnels)@[j],
    {
        let mine = forwards_for(forwards, tunnels[i].id);
        tunnels[i].forwards = mine;
    }
}

} // verus!
