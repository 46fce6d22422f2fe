//! The decisions of the gossip transport. The network stack reports events
//! (peers that appear or disappear, frames from the topic, messages that local
//! components hand in) and performs the actions decided here.
use crate::codec::{concat_text, CodecError};
use crate::message::{Message, MessageType};
use crate::status_message::{decode_status, encode_status, StatusMessage, StatusType};
use vstd::prelude::*;

verus! {

broadcast use vstd::seq_lib::group_seq_properties;

/// The text that opens the description of a JOIN that discovery caused.
pub const DISCOVERED_PREFIX: &'static str = "transporter:: mDNS discovered a new peer: ";

/// The text that opens the description of a LEAVE that discovery caused.
pub const EXPIRED_PREFIX: &'static str = "transporter:: mDNS expired a new peer: ";

/// Something the network stack or a local component reports to the transport.
pub enum TransportEvent {
    /// Discovery found these peers.
    PeersDiscovered(Vec<String>),
    /// Discovery lost these peers.
    PeersExpired(Vec<String>),
    /// A frame arrived on the topic from the peer `source`.
    FrameReceived { source: String, data: Vec<u8> },
    /// A local component handed in a message.
    Outgoing(Message),
}

/// Something the transport does in response.
pub enum TransportAction {
    /// Send the message on the outbound channel.
    Deliver(Message),
    /// Make the peer an explicit recipient of broadcasts.
    AddExplicitPeer(String),
    /// Stop treating the peer as an explicit recipient.
    RemoveExplicitPeer(String),
    /// Publish the bytes on the topic.
    Publish(Vec<u8>),
    /// A STATUS payload that did not decode was dropped.
    Reject(CodecError),
}

/// The model of a transport action.
pub enum ActionView {
    Deliver((MessageType, Seq<char>, Seq<u8>)),
    AddExplicitPeer(Seq<char>),
    RemoveExplicitPeer(Seq<char>),
    Publish(Seq<u8>),
    Reject(CodecError),
}

impl View for TransportAction {
    type V = ActionView;

    open spec fn view(&self) -> ActionView {
        match self {
            TransportAction::Deliver(m) => ActionView::Deliver(m@),
            TransportAction::AddExplicitPeer(p) => ActionView::AddExplicitPeer(p@),
            TransportAction::RemoveExplicitPeer(p) => ActionView::RemoveExplicitPeer(p@),
            TransportAction::Publish(b) => ActionView::Publish(b@),
            TransportAction::Reject(e) => ActionView::Reject(*e),
        }
    }
}

pub open spec fn actions_view(actions: Seq<TransportAction>) -> Seq<ActionView> {
    actions.map_values(|a: TransportAction| a@)
}

pub open spec fn ids_view(ids: Seq<String>) -> Seq<Seq<char>> {
    ids.map_values(|s: String| s@)
}

/// The STATUS message that announces `peer`: a JOIN when `joined`, a LEAVE
/// otherwise.
pub open spec fn announcement(peer: Seq<char>, joined: bool) -> (MessageType, Seq<char>, Seq<u8>) {
    if joined {
        (
            MessageType::STATUS,
            peer,
            encode_status((StatusType::JOIN, DISCOVERED_PREFIX@ + peer)),
        )
    } else {
        (
            MessageType::STATUS,
            peer,
            encode_status((StatusType::LEAVE, EXPIRED_PREFIX@ + peer)),
        )
    }
}

/// For each peer in order: announce it, then add it to (when `joined`) or
/// remove it from the explicit recipients.
pub open spec fn membership_actions(peers: Seq<Seq<char>>, joined: bool) -> Seq<ActionView>
    decreases peers.len(),
{
    if peers.len() == 0 {
        Seq::empty()
    } else {
        let p = peers.last();
        membership_actions(peers.drop_last(), joined) + seq![
            ActionView::Deliver(announcement(p, joined)),
            if joined {
                ActionView::AddExplicitPeer(p)
            } else {
                ActionView::RemoveExplicitPeer(p)
            },
        ]
    }
}

/// What the transport does on `event` while `connected` peers are connected.
/// A frame from the topic is delivered as a DATA message from its source.
pub open spec fn transport_actions(event: TransportEvent, connected: nat) -> Seq<ActionView> {
    match event {
        TransportEvent::PeersDiscovered(peers) => membership_actions(ids_view(peers@), true),
        TransportEvent::PeersExpired(peers) => membership_actions(ids_view(peers@), false),
        TransportEvent::FrameReceived { source, data } => seq![
            ActionView::Deliver((MessageType::DATA, source@, data@)),
        ],
        TransportEvent::Outgoing(m) => outgoing_actions(m@, connected),
    }
}

/// What the transport does with the message `m` that a local component handed
/// in: a STATUS message is decoded and goes no further; a DATA message is
/// published, but only while some peer is connected.
pub open spec fn outgoing_actions(m: (MessageType, Seq<char>, Seq<u8>), connected: nat) -> Seq<
    ActionView,
> {
    if m.0 == MessageType::STATUS {
        match decode_status(m.2) {
            Ok(_) => Seq::empty(),
            Err(e) => seq![ActionView::Reject(e)],
        }
    } else if connected > 0 {
        seq![ActionView::Publish(m.2)]
    } else {
        Seq::empty()
    }
}

/// The actions for discovering (`joined`) or losing each of `peers`.
fn announce_peers(peers: Vec<String>, joined: bool) -> (r: Vec<TransportAction>)
    ensures
        actions_view(r@) == membership_actions(ids_view(peers@), joined),
{
    let ghost ids = ids_view(peers@);
    let mut out: Vec<TransportAction> = Vec::new();
    let mut i: usize = 0;
    assert(ids.take(0) =~= Seq::<Seq<char>>::empty());
    while i < peers.len()
        invariant
            0 <= i <= peers@.len(),
            ids == ids_view(peers@),
            actions_view(out@) == membership_actions(ids.take(i as int), joined),
        decreases peers@.len() - i,
    {
        let peer = &peers[i];
        let ghost before = out@;
        let message = if joined {
            Message::new_status(
                peer.clone(),
                StatusMessage::new_join(concat_text(DISCOVERED_PREFIX, peer.as_str())),
            )
        } else {
            Message::new_status(
                peer.clone(),
                StatusMessage::new_leave(concat_text(EXPIRED_PREFIX, peer.as_str())),
            )
        };
        out.push(TransportAction::Deliver(message));
        if joined {
            out.push(TransportAction::AddExplicitPeer(peer.clone()));
        } else {
            out.push(TransportAction::RemoveExplicitPeer(peer.clone()));
        }
        proof {
            let next = ids.take(i + 1);
            assert(next.drop_last() =~= ids.take(i as int));
            assert(next.last() == peer@);
            assert(actions_view(out@) =~= actions_view(before) + seq![
                ActionView::Deliver(announcement(peer@, joined)),
                if joined {
                    ActionView::AddExplicitPeer(peer@)
                } else {
                    ActionView::RemoveExplicitPeer(peer@)
                },
            ]);
        }
        i = i + 1;
    }
    assert(ids.take(peers@.len() as int) =~= ids);
    out
}

/// Decides what the transport does on `event` while `connected_peers` peers
/// are connected.
pub fn transport_reaction(event: TransportEvent, connected_peers: usize) -> (r: Vec<
    TransportAction,
>)
    ensures
        actions_view(r@) == transport_actions(event, connected_peers as nat),
{
    match event {
        TransportEvent::PeersDiscovered(peers) => announce_peers(peers, true),
        TransportEvent::PeersExpired(peers) => announce_peers(peers, false),
        TransportEvent::FrameReceived { source, data } => {
            let mut out: Vec<TransportAction> = Vec::new();
            out.push(TransportAction::Deliver(Message::new(MessageType::DATA, source, data)));
            assert(actions_view(out@) =~= transport_actions(event, connected_peers as nat));
            out
        },
        TransportEvent::Outgoing(m) => {
            let mut out: Vec<TransportAction> = Vec::new();
            if m.message_type == MessageType::STATUS {
                match StatusMessage::decode(m.data.clone()) {
                    Ok(_) => {},
                    Err(e) => {
                        out.push(TransportAction::Reject(e));
                    },
                }
            } else if connected_peers > 0 {
                out.push(TransportAction::Publish(m.data));
            }
            assert(actions_view(out@) =~= transport_actions(event, connected_peers as nat));
            out
        },
    }
}

} // verus!
