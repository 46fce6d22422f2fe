//! The orchestrator: it owns the membership tree and decides, for each message
//! that the transport delivers, what is forwarded, how membership changes and
//! whether a greeting is broadcast.
use crate::codec::{concat_text, push_all, CodecError};
use crate::data_message::{encode_data, DataMessage, DataType};
use crate::message::{Message, MessageType};
use crate::node::Node;
use crate::status_message::{decode_status, lemma_status_round_trip, StatusMessage, StatusType};
use crate::transport::{
    announcement, membership_actions, outgoing_actions, ActionView, DISCOVERED_PREFIX,
};
use vstd::prelude::*;
use vstd::utf8::*;

verus! {

/// The declared role of a core. It is advisory and changes no behaviour.
#[derive(Debug, Clone, Copy, PartialEq, Eq, Structural)]
pub enum Mode {
    Leader,
    Follower,
    Dynamic,
}

#[derive(Debug, Clone, Copy, PartialEq, Eq, Structural)]
pub struct Config {
    pub mode: Mode,
}

impl Config {
    pub fn new(mode: Mode) -> (r: Self)
        ensures
            r.mode == mode,
    {
        Self { mode }
    }

    pub fn leader() -> (r: Self)
        ensures
            r.mode == Mode::Leader,
    {
        Self::new(Mode::Leader)
    }

    pub fn follower() -> (r: Self)
        ensures
            r.mode == Mode::Follower,
    {
        Self::new(Mode::Follower)
    }

    pub fn dynamic() -> (r: Self)
        ensures
            r.mode == Mode::Dynamic,
    {
        Self::new(Mode::Dynamic)
    }
}

/// The text that opens every greeting; the local identifier follows it.
pub const GREETING_PREFIX: &'static str = "Hello from ";

/// The text of the greeting that the peer `local` broadcasts.
pub open spec fn greeting_text(local: Seq<char>) -> Seq<char> {
    GREETING_PREFIX@ + local
}

/// The payload of that greeting: a SYSTEM data message that carries the text.
pub open spec fn greeting_payload(local: Seq<char>) -> Seq<u8> {
    encode_data((DataType::SYSTEM, encode_utf8(greeting_text(local))))
}

/// The greeting message itself, sent in the name of `local`.
pub open spec fn greeting_message(local: Seq<char>) -> (MessageType, Seq<char>, Seq<u8>) {
    (MessageType::DATA, local, greeting_payload(local))
}

/// Whether `m` is a STATUS message whose payload decodes.
pub open spec fn is_status(m: (MessageType, Seq<char>, Seq<u8>)) -> bool {
    m.0 == MessageType::STATUS && decode_status(m.2) is Ok
}

/// Whether `m` is a STATUS message that announces that its peer joined.
pub open spec fn is_join(m: (MessageType, Seq<char>, Seq<u8>)) -> bool {
    m.0 == MessageType::STATUS && (decode_status(m.2) matches Ok((StatusType::JOIN, _)))
}

/// The membership after `m`: a joining peer is added; nothing else changes it.
pub open spec fn next_members(members: Set<Seq<char>>, m: (MessageType, Seq<char>, Seq<u8>)) -> Set<
    Seq<char>,
> {
    if is_join(m) {
        members.insert(m.1)
    } else {
        members
    }
}

/// The greeting that `m` causes: one for every STATUS message after which
/// membership is not empty, none otherwise.
pub open spec fn greeting_after(
    members: Set<Seq<char>>,
    local: Seq<char>,
    m: (MessageType, Seq<char>, Seq<u8>),
) -> Option<(MessageType, Seq<char>, Seq<u8>)> {
    if is_status(m) && next_members(members, m).len() > 0 {
        Some(greeting_message(local))
    } else {
        None
    }
}

/// The error met in decoding the payload of a STATUS message, if any.
pub open spec fn status_error(m: (MessageType, Seq<char>, Seq<u8>)) -> Option<CodecError> {
    if m.0 == MessageType::STATUS {
        match decode_status(m.2) {
            Ok(_) => None,
            Err(e) => Some(e),
        }
    } else {
        None
    }
}

/// What the orchestrator does with one message.
pub struct Reaction {
    /// The message itself, for the external publisher.
    pub forward: Message,
    /// A greeting for the transport to broadcast.
    pub greeting: Option<Message>,
    /// Why a STATUS payload was dropped.
    pub error: Option<CodecError>,
}

/// A core: its configuration and its membership tree, rooted at the local
/// identifier.
pub struct Core {
    config: Config,
    node: Node,
    node_id: String,
}

impl Core {
    /// The tree is well formed and rooted at the local identifier.
    pub closed spec fn wf(&self) -> bool {
        self.node.wf() && self.node.id@ == self.node_id@
    }

    /// The identifiers of the known peers.
    pub closed spec fn members(&self) -> Set<Seq<char>> {
        self.node.members()
    }

    /// The local peer identifier.
    pub closed spec fn local_id(&self) -> Seq<char> {
        self.node_id@
    }

    pub closed spec fn mode(&self) -> Mode {
        self.config.mode
    }

    /// A core for the peer `node_id`, with no known peers.
    pub fn new(config: Config, node_id: String) -> (r: Self)
        ensures
            r.wf(),
            r.local_id() == node_id@,
            r.mode() == config.mode,
            r.members() == Set::<Seq<char>>::empty(),
    {
        let node = Node::new(node_id.clone());
        Core { config, node, node_id }
    }

    pub fn config(&self) -> (r: Config)
        ensures
            r.mode == self.mode(),
    {
        self.config
    }

    /// A copy of the membership tree.
    pub fn node(&self) -> (r: Node)
        requires
            self.wf(),
        ensures
            r.wf(),
            r.id@ == self.local_id(),
            r.members() == self.members(),
    {
        self.node.snapshot()
    }

    pub fn get_node_id(&self) -> (r: String)
        ensures
            r@ == self.local_id(),
    {
        self.node_id.clone()
    }

    /// The greeting payload that this core broadcasts.
    fn greeting_payload(&self) -> (r: Vec<u8>)
        ensures
            r@ == greeting_payload(self.local_id()),
    {
        let text = concat_text(GREETING_PREFIX, self.node_id.as_str());
        let mut bytes: Vec<u8> = Vec::new();
        push_all(&mut bytes, text.as_str().as_bytes());
        assert(bytes@ =~= encode_utf8(greeting_text(self.local_id())));
        DataMessage::new(DataType::SYSTEM, bytes).encode()
    }

    /// Handles one message from the transport: the message is forwarded
    /// unchanged; a STATUS message that announces a join adds its peer; every
    /// STATUS message after which some peer is known causes a greeting. A
    /// STATUS payload that does not decode is dropped and its error reported.
    pub fn handle_message(&mut self, message: Message) -> (r: Reaction)
        requires
            old(self).wf(),
        ensures
            final(self).wf(),
            final(self).local_id() == old(self).local_id(),
            final(self).mode() == old(self).mode(),
            final(self).members() == next_members(old(self).members(), message@),
            r.forward@ == message@,
            r.greeting matches Some(g) ==> Some(g@) == greeting_after(
                old(self).members(),
                old(self).local_id(),
                message@,
            ),
            r.greeting is None ==> greeting_after(
                old(self).members(),
                old(self).local_id(),
                message@,
            ) is None,
            r.error == status_error(message@),
    {
        if message.message_type != MessageType::STATUS {
            return Reaction { forward: message, greeting: None, error: None };
        }
        let status = match StatusMessage::decode(message.data.clone()) {
            Ok(s) => s,
            Err(e) => {
                return Reaction { forward: message, greeting: None, error: Some(e) };
            },
        };
        if status.status_type == StatusType::JOIN && !self.node.has_child(message.peer_id.clone()) {
            self.node.add_child(message.peer_id.clone());
        }
        assert(self.members() =~= next_members(old(self).members(), message@));
        let greeting = if self.node.len() > 0 {
            let payload = self.greeting_payload();
            Some(Message::new_data(self.node_id.clone(), payload))
        } else {
            None
        };
        Reaction { forward: message, greeting, error: None }
    }
}

/// A JOIN for a peer that is not yet known adds it and causes exactly one
/// greeting, sent in the name of the local peer as a SYSTEM data message.
pub proof fn lemma_join_of_new_peer_greets(
    members: Set<Seq<char>>,
    local: Seq<char>,
    m: (MessageType, Seq<char>, Seq<u8>),
)
    requires
        members.finite(),
        is_join(m),
        !members.contains(m.1),
    ensures
        next_members(members, m) == members.insert(m.1),
        next_members(members, m).len() == members.len() + 1,
        greeting_after(members, local, m) == Some(greeting_message(local)),
        greeting_message(local).0 == MessageType::DATA,
        greeting_message(local).1 == local,
        greeting_message(local).2 == encode_data(
            (DataType::SYSTEM, encode_utf8(greeting_text(local))),
        ),
{
    assert(members.insert(m.1).contains(m.1));
}

/// A JOIN for a peer that is already known leaves membership as it is and
/// still causes a greeting.
pub proof fn lemma_duplicate_join_greets(
    members: Set<Seq<char>>,
    local: Seq<char>,
    m: (MessageType, Seq<char>, Seq<u8>),
)
    requires
        members.finite(),
        is_join(m),
        members.contains(m.1),
    ensures
        next_members(members, m) == members,
        next_members(members, m).len() == members.len(),
        greeting_after(members, local, m) == Some(greeting_message(local)),
{
    assert(members.insert(m.1) =~= members);
}

/// No message causes a greeting while membership stays empty: a LEAVE, a DATA
/// message or an undecodable STATUS message reaching a core that knows no peer
/// is forwarded and nothing is broadcast.
pub proof fn lemma_no_greeting_without_members(
    members: Set<Seq<char>>,
    local: Seq<char>,
    m: (MessageType, Seq<char>, Seq<u8>),
)
    requires
        members.finite(),
        next_members(members, m).len() == 0,
    ensures
        greeting_after(members, local, m) is None,
{
}

/// A core that knows no peer stays empty and silent on every message that is
/// not a JOIN.
pub proof fn lemma_empty_core_ignores_non_join(
    local: Seq<char>,
    m: (MessageType, Seq<char>, Seq<u8>),
)
    requires
        !is_join(m),
    ensures
        next_members(Set::empty(), m) == Set::<Seq<char>>::empty(),
        greeting_after(Set::empty(), local, m) is None,
{
}

/// When discovery finds a peer that a core does not know, the transport
/// announces it as a JOIN and makes it an explicit recipient; handling that
/// announcement makes the peer a member and yields a greeting, which the
/// transport publishes on the topic once some peer is connected.
pub proof fn lemma_discovery_leads_to_published_greeting(
    members: Set<Seq<char>>,
    local: Seq<char>,
    peer: Seq<char>,
    connected: nat,
)
    requires
        members.finite(),
        !members.contains(peer),
        connected > 0,
        encode_utf8(DISCOVERED_PREFIX@ + peer).len() <= usize::MAX,
    ensures
        membership_actions(seq![peer], true) == seq![
            ActionView::Deliver(announcement(peer, true)),
            ActionView::AddExplicitPeer(peer),
        ],
        next_members(members, announcement(peer, true)) == members.insert(peer),
        next_members(members, announcement(peer, true)).len() == members.len() + 1,
        greeting_after(members, local, announcement(peer, true)) == Some(greeting_message(local)),
        outgoing_actions(greeting_message(local), connected) == seq![
            ActionView::Publish(greeting_payload(local)),
        ],
{
    lemma_status_round_trip((StatusType::JOIN, DISCOVERED_PREFIX@ + peer));
    assert(seq![peer].drop_last() =~= Seq::<Seq<char>>::empty());
    assert(membership_actions(Seq::<Seq<char>>::empty(), true) == Seq::<ActionView>::empty());
    assert(seq![peer].last() == peer);
    assert(membership_actions(seq![peer], true) =~= seq![
        ActionView::Deliver(announcement(peer, true)),
        ActionView::AddExplicitPeer(peer),
    ]);
    lemma_join_of_new_peer_greets(members, local, announcement(peer, true));
}

} // verus!
