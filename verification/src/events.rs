//! Tunnel status and the events the user interface is told of.
use vstd::prelude::*;

verus! {

/// The connection state of a tunnel.
#[derive(Clone, Copy, Debug, PartialEq, Eq, Structural)]
pub enum TunnelStatus {
    Disconnected,
    Connecting,
    Connected,
    Error,
}

/// A tunnel changed state; `message` says why where there is something to say.
#[derive(Debug)]
pub struct StatusEvent {
    pub tunnel_id: u128,
    pub status: TunnelStatus,
    pub message: Option<String>,
}

/// A server presented a key never seen before; the user is asked to confirm it.
#[derive(Debug)]
pub struct HostKeyPending {
    pub request_id: u128,
    pub tunnel_id: u128,
    pub host: String,
    pub port: u16,
    pub fingerprint: String,
    pub algorithm: String,
}

/// A running tunnel's traffic totals and uptime.
#[derive(Debug, Clone, Copy)]
pub struct StatsEvent {
    pub tunnel_id: u128,
    pub bytes_up: u64,
    pub bytes_down: u64,
    pub uptime_secs: u64,
}

/// The body of the notification a status change shows: none while connecting; for an
/// error, its message or a generic one.
pub open spec fn notification_text(status: TunnelStatus, message: Option<Seq<char>>) -> Option<Seq<char>> {
    match status {
        TunnelStatus::Connected => Some("Connected"@),
        TunnelStatus::Disconnected => Some("Disconnected"@),
        TunnelStatus::Error => Some(
            match message {
                Some(m) => m,
                None => "Connection error"@,
            },
        ),
        TunnelStatus::Connecting => None,
    }
}

/// The body of the notification to show for a status change, if any: none when
/// notifications are off.
pub fn status_notification(notifications_enabled: bool, status: TunnelStatus, message: Option<String>) -> (body: Option<String>)
    ensures
        match body {
            Some(b) => notifications_enabled && notification_text(status, crate::model::option_text(message)) == Some(b@),
            None => !notifications_enabled || notification_text(status, crate::model::option_text(message)) is None,
        },
{
    if !notifications_enabled {
        return None;
    }
    match status {
        TunnelStatus::Connected => Some("Connected".to_owned()),
        TunnelStatus::Disconnected => Some("Disconnected".to_owned()),
        TunnelStatus::Error => match message {
            Some(m) => Some(m),
            None => Some("Connection error".to_owned()),
        },
        TunnelStatus::Connecting => None,
    }
}

} // verus!
