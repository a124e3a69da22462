//! Events that observation hooks report.
use crate::protocol::{ActrId, ActrIdView};
use crate::time::Interval;
use crate::wasm::host::HookEntry;
use vstd::prelude::*;

verus! {

/// State of a peer connection.
#[derive(Debug, Clone, Copy, PartialEq, Eq, Structural)]
pub enum WebRtcPeerStatus {
    Idle,
    Connecting,
    Connected,
    Recovering,
}

/// Something happened to the connection to a peer.
#[derive(Debug)]
pub struct PeerEvent {
    pub peer: ActrId,
    pub relayed: Option<bool>,
    pub status: Option<WebRtcPeerStatus>,
}

/// Contents of a [`PeerEvent`].
pub struct PeerEventView {
    pub peer: ActrIdView,
    pub relayed: Option<bool>,
    pub status: Option<WebRtcPeerStatus>,
}

impl View for PeerEvent {
    type V = PeerEventView;

    open spec fn view(&self) -> PeerEventView {
        PeerEventView { peer: self.peer@, relayed: self.relayed, status: self.status }
    }
}

/// A point in time, as its distance from the Unix epoch.
#[derive(Debug, Clone, Copy)]
pub struct WallTime {
    /// Whether the point lies before the epoch.
    pub before_epoch: bool,
    /// The distance from the epoch.
    pub distance: Interval,
}

/// The actor's credential changed or is about to.
#[derive(Debug, Clone, Copy)]
pub struct CredentialEvent {
    pub new_expiry: WallTime,
}

/// The mailbox is filling up.
#[derive(Debug, Clone, Copy)]
pub struct BackpressureEvent {
    pub queue_len: usize,
    pub threshold: usize,
}

/// An event that a packaged workload may observe.
#[derive(Debug)]
pub enum PackageHookEvent {
    SignalingConnecting,
    SignalingConnected,
    SignalingDisconnected,
    WebSocketConnecting(PeerEvent),
    WebSocketConnected(PeerEvent),
    WebSocketDisconnected(PeerEvent),
    WebRtcConnecting(PeerEvent),
    WebRtcConnected(PeerEvent),
    WebRtcDisconnected(PeerEvent),
    CredentialRenewed(CredentialEvent),
    CredentialExpiring(CredentialEvent),
    MailboxBackpressure(BackpressureEvent),
}

impl PackageHookEvent {
    /// The guest hook that observes this event.
    pub open spec fn observer(self) -> HookEntry {
        match self {
            PackageHookEvent::SignalingConnecting => HookEntry::SignalingConnecting,
            PackageHookEvent::SignalingConnected => HookEntry::SignalingConnected,
            PackageHookEvent::SignalingDisconnected => HookEntry::SignalingDisconnected,
            PackageHookEvent::WebSocketConnecting(_) => HookEntry::WebSocketConnecting,
            PackageHookEvent::WebSocketConnected(_) => HookEntry::WebSocketConnected,
            PackageHookEvent::WebSocketDisconnected(_) => HookEntry::WebSocketDisconnected,
            PackageHookEvent::WebRtcConnecting(_) => HookEntry::WebRtcConnecting,
            PackageHookEvent::WebRtcConnected(_) => HookEntry::WebRtcConnected,
            PackageHookEvent::WebRtcDisconnected(_) => HookEntry::WebRtcDisconnected,
            PackageHookEvent::CredentialRenewed(_) => HookEntry::CredentialRenewed,
            PackageHookEvent::CredentialExpiring(_) => HookEntry::CredentialExpiring,
            PackageHookEvent::MailboxBackpressure(_) => HookEntry::MailboxBackpressure,
        }
    }

    /// The guest hook that observes this event.
    pub fn entry(&self) -> (r: HookEntry)
        ensures
            r == self.observer(),
    {
        match self {
            PackageHookEvent::SignalingConnecting => HookEntry::SignalingConnecting,
            PackageHookEvent::SignalingConnected => HookEntry::SignalingConnected,
            PackageHookEvent::SignalingDisconnected => HookEntry::SignalingDisconnected,
            PackageHookEvent::WebSocketConnecting(_) => HookEntry::WebSocketConnecting,
            PackageHookEvent::WebSocketConnected(_) => HookEntry::WebSocketConnected,
            PackageHookEvent::WebSocketDisconnected(_) => HookEntry::WebSocketDisconnected,
            PackageHookEvent::WebRtcConnecting(_) => HookEntry::WebRtcConnecting,
            PackageHookEvent::WebRtcConnected(_) => HookEntry::WebRtcConnected,
            PackageHookEvent::WebRtcDisconnected(_) => HookEntry::WebRtcDisconnected,
            PackageHookEvent::CredentialRenewed(_) => HookEntry::CredentialRenewed,
            PackageHookEvent::CredentialExpiring(_) => HookEntry::CredentialExpiring,
            PackageHookEvent::MailboxBackpressure(_) => HookEntry::MailboxBackpressure,
        }
    }
}

/// Every event is observed by the guest function that bears its name.
pub proof fn events_reach_the_hook_of_their_name(event: PackageHookEvent)
    ensures
        event.observer().export() == (match event {
            PackageHookEvent::SignalingConnecting => "on_signaling_connecting"@,
            PackageHookEvent::SignalingConnected => "on_signaling_connected"@,
            PackageHookEvent::SignalingDisconnected => "on_signaling_disconnected"@,
            PackageHookEvent::WebSocketConnecting(_) => "on_websocket_connecting"@,
            PackageHookEvent::WebSocketConnected(_) => "on_websocket_connected"@,
            PackageHookEvent::WebSocketDisconnected(_) => "on_websocket_disconnected"@,
            PackageHookEvent::WebRtcConnecting(_) => "on_webrtc_connecting"@,
            PackageHookEvent::WebRtcConnected(_) => "on_webrtc_connected"@,
            PackageHookEvent::WebRtcDisconnected(_) => "on_webrtc_disconnected"@,
            PackageHookEvent::CredentialRenewed(_) => "on_credential_renewed"@,
            PackageHookEvent::CredentialExpiring(_) => "on_credential_expiring"@,
            PackageHookEvent::MailboxBackpressure(_) => "on_mailbox_backpressure"@,
        }),
{
}

} // verus!
