//! The stored form of tunnels and port forwards: the values of one database row each.
use vstd::prelude::*;

use crate::ids::{read_uuid, uuid_parse, uuid_text, write_uuid};
use crate::model::{
    auth_from_stored, auth_key_path, auth_kind_text, lemma_auth_round_trip, option_text,
    AuthMethod, ForwardSpec, PortForward, Tunnel, TunnelSpec,
};

verus! {

/// One row of the `tunnels` table, column by column.
#[derive(Debug)]
pub struct TunnelRow {
    pub id: String,
    pub name: String,
    pub host: String,
    pub port: u16,
    pub username: String,
    pub auth_kind: String,
    pub auth_key_path: Option<String>,
    pub local_socks_port: u16,
    pub auto_connect: bool,
    pub jump_tunnel_id: Option<String>,
    pub socks_enabled: bool,
}

/// One row of the `port_forwards` table, column by column.
#[derive(Debug)]
pub struct ForwardRow {
    pub id: String,
    pub tunnel_id: String,
    pub remote_host: String,
    pub remote_port: u16,
    pub local_port: u16,
}

/// The identifier read from a stored identifier: an unreadable one reads as the nil UUID.
pub open spec fn stored_id(text: Seq<char>) -> u128 {
    match uuid_parse(text) {
        Some(id) => id,
        None => 0,
    }
}

/// The jump tunnel read from a stored jump identifier: an unreadable one reads as none.
pub open spec fn stored_jump(text: Option<Seq<char>>) -> Option<u128> {
    match text {
        Some(t) => uuid_parse(t),
        None => None,
    }
}

/// The tunnel read back from a row, before its forwards are attached.
pub open spec fn tunnel_of_row(row: TunnelRow) -> TunnelSpec {
    TunnelSpec {
        id: stored_id(row.id@),
        name: row.name@,
        host: row.host@,
        port: row.port,
        username: row.username@,
        auth: auth_from_stored(row.auth_kind@, option_text(row.auth_key_path)),
        local_socks_port: row.local_socks_port,
        auto_connect: row.auto_connect,
        forwards: Seq::empty(),
        jump_tunnel_id: stored_jump(option_text(row.jump_tunnel_id)),
        socks_enabled: row.socks_enabled,
    }
}

/// The forward read back from a row.
pub open spec fn forward_of_row(row: ForwardRow) -> ForwardSpec {
    ForwardSpec {
        id: stored_id(row.id@),
        tunnel_id: stored_id(row.tunnel_id@),
        remote_host: row.remote_host@,
        remote_port: row.remote_port,
        local_port: row.local_port,
    }
}

/// Reads a tunnel back from its row; its forwards are attached separately.
pub fn row_to_tunnel(row: TunnelRow) -> (tunnel: Tunnel)
    ensures
        tunnel@ == tunnel_of_row(row),
{
    let id = match read_uuid(row.id.as_str()) {
        Some(id) => id,
        None => 0,
    };
    let jump_tunnel_id = match &row.jump_tunnel_id {
        Some(text) => read_uuid(text.as_str()),
        None => None,
    };
    let auth = AuthMethod::from_row(row.auth_kind.as_str(), row.auth_key_path);
    let tunnel = Tunnel {
        id,
        name: row.name,
        host: row.host,
        port: row.port,
        username: row.username,
        auth,
        local_socks_port: row.local_socks_port,
        auto_connect: row.auto_connect,
        forwards: Vec::new(),
        jump_tunnel_id,
        socks_enabled: row.socks_enabled,
    };
    assert(tunnel@.forwards =~= Seq::<ForwardSpec>::empty());
    tunnel
}

/// Reads a forward back from its row.
pub fn row_to_forward(row: ForwardRow) -> (forward: PortForward)
    ensures
        forward@ == forward_of_row(row),
{
    let id = match read_uuid(row.id.as_str()) {
        Some(id) => id,
        None => 0,
    };
    let tunnel_id = match read_uuid(row.tunnel_id.as_str()) {
        Some(id) => id,
        None => 0,
    };
    PortForward {
        id,
        tunnel_id,
        remote_host: row.remote_host,
        remote_port: row.remote_port,
        local_port: row.local_port,
    }
}

/// The row a tunnel is stored as. Reading the row back gives the same tunnel, its
/// forwards aside (they are stored in rows of their own).
pub fn tunnel_to_row(t: &Tunnel) -> (row: TunnelRow)
    ensures
        row.id@ == uuid_text(t.id),
        row.name@ == t.name@,
        row.host@ == t.host@,
        row.port == t.port,
        row.username@ == t.username@,
        row.auth_kind@ == auth_kind_text(t.auth@),
        option_text(row.auth_key_path) == auth_key_path(t.auth@),
        row.local_socks_port == t.local_socks_port,
        row.auto_connect == t.auto_connect,
        match t.jump_tunnel_id {
            Some(j) => row.jump_tunnel_id matches Some(text) && text@ == uuid_text(j),
            None => row.jump_tunnel_id is None,
        },
        row.socks_enabled == t.socks_enabled,
        tunnel_of_row(row) == t@.with_forwards(Seq::empty()),
{
    let jump_tunnel_id = match t.jump_tunnel_id {
        Some(j) => Some(write_uuid(j)),
        None => None,
    };
    let auth_key_path = match t.auth.key_path() {
        Some(p) => Some(p.to_owned()),
        None => None,
    };
    let row = TunnelRow {
        id: write_uuid(t.id),
        name: t.name.clone(),
        host: t.host.clone(),
        port: t.port,
        username: t.username.clone(),
        auth_kind: t.auth.kind().to_owned(),
        auth_key_path,
        local_socks_port: t.local_socks_port,
        auto_connect: t.auto_connect,
        jump_tunnel_id,
        socks_enabled: t.socks_enabled,
    };
    proof {
        lemma_auth_round_trip(t.auth@);
        assert(tunnel_of_row(row) =~= t@.with_forwards(Seq::empty()));
    }
    row
}

/// The row a forward is stored as. Reading the row back gives the same forward.
pub fn forward_to_row(f: &PortForward) -> (row: ForwardRow)
    ensures
        row.id@ == uuid_text(f.id),
        row.tunnel_id@ == uuid_text(f.tunnel_id),
        row.remote_host@ == f.remote_host@,
        row.remote_port == f.remote_port,
        row.local_port == f.local_port,
        forward_of_row(row) == f@,
{
    ForwardRow {
        id: write_uuid(f.id),
        tunnel_id: write_uuid(f.tunnel_id),
        remote_host: f.remote_host.clone(),
        remote_port: f.remote_port,
        local_port: f.local_port,
    }
}

/// The stored text of an identifier, as the database keys rows by it.
pub fn id_key(id: u128) -> (key: String)
    ensures
        key@ == uuid_text(id),
        uuid_parse(key@) == Some(id),
{
    write_uuid(id)
}

} // verus!
