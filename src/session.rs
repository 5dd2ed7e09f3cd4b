//! One connection's lifecycle: the name handshake, relaying in both
//! directions while active, and a teardown that runs exactly once.
use vstd::prelude::*;
use crate::hub::{Hub, bounded_push, lemma_capacity_positive, take_post};
use crate::registry::{Registry, claim_post, release_post};

verus! {

/// How far each subscriber may lag before it starts losing messages.
pub const HUB_CAPACITY: usize = 100;

/// The state every session shares: claimed names and the broadcast hub.
pub struct Chat {
    pub registry: Registry,
    pub hub: Hub,
}

impl Chat {
    pub open spec fn wf(self) -> bool {
        self.registry.wf() && self.hub.wf()
    }

    /// No names claimed, no subscribers, nothing published.
    pub fn new(capacity: usize) -> (r: Chat)
        requires
            capacity > 0,
        ensures
            r.wf(),
            r.registry.claimed() == Set::<Seq<char>>::empty(),
            r.hub.capacity() == capacity,
            r.hub.log() == Seq::<String>::empty(),
            forall|j: int| !r.hub.subscribed(j),
    {
        Chat { registry: Registry::new(), hub: Hub::new(capacity) }
    }
}

/// One read from the connection.
pub enum Frame {
    /// A text frame.
    Text(String),
    /// A frame of another kind (binary, ping, ...).
    Other,
    /// The connection closed or failed.
    Closed,
}

/// Where a session stands. A session that is finishing goes straight to
/// `Closed` inside `finish`, so that state is never observed.
#[derive(Clone)]
pub enum Session {
    /// Waiting for the first text frame, which names the user.
    Handshaking,
    /// Named `name`, reading the hub through subscription `sub`.
    Active { name: String, sub: usize },
    Closed,
}

/// The outcome of one handshake step.
pub enum Handshake {
    /// Nothing usable yet: read another frame.
    Waiting,
    /// The name was claimed and the join announced.
    Joined,
    /// The name is taken: send this notice, then close.
    Rejected(String),
    /// The connection ended before a name came.
    Closed,
}

pub open spec fn joined_text(name: Seq<char>) -> Seq<char> {
    name + " has joined."@
}

pub open spec fn left_text(name: Seq<char>) -> Seq<char> {
    name + " left"@
}

pub open spec fn relay_text(name: Seq<char>, text: Seq<char>) -> Seq<char> {
    name + ": "@ + text
}

pub open spec fn taken_text(name: Seq<char>) -> Seq<char> {
    "Username `"@ + name + "` is already taken"@
}

/// `h1` is `h0` after one message reading `text` was published; every
/// subscriber live in both received it.
pub open spec fn announced(h0: Hub, text: Seq<char>, h1: Hub) -> bool {
    &&& h1.wf()
    &&& h1.capacity() == h0.capacity()
    &&& h1.log().len() == h0.log().len() + 1
    &&& h1.log().drop_last() == h0.log()
    &&& h1.log().last()@ == text
    &&& forall|j: int|
        h0.subscribed(j) && h1.subscribed(j) ==> #[trigger] h1.pending(j) == bounded_push(
            h0.pending(j),
            h1.log().last(),
            h0.capacity(),
        )
}

/// Live subscriptions other than `sub` are the same in `h0` and `h1`.
pub open spec fn others_kept(h0: Hub, sub: int, h1: Hub) -> bool {
    forall|j: int| j != sub ==> #[trigger] h1.subscribed(j) == h0.subscribed(j)
}

/// Live subscriptions are the same in `h0` and `h1`.
pub open spec fn same_subscribers(h0: Hub, h1: Hub) -> bool {
    forall|j: int| #[trigger] h1.subscribed(j) == h0.subscribed(j)
}

/// `c1` is `c0` after `name` was claimed, subscription `sub` opened and the
/// join announced to everyone, the newcomer included.
pub open spec fn joined_post(c0: Chat, name: Seq<char>, sub: usize, c1: Chat) -> bool {
    &&& c1.wf()
    &&& claim_post(c0.registry, name, true, c1.registry)
    &&& announced(c0.hub, joined_text(name), c1.hub)
    &&& !c0.hub.subscribed(sub as int)
    &&& c1.hub.subscribed(sub as int)
    &&& c1.hub.pending(sub as int) == seq![c1.hub.log().last()]
    &&& c1.hub.joined_at(sub as int) == c0.hub.log().len()
    &&& others_kept(c0.hub, sub as int, c1.hub)
}

/// What one handshake step on `frame` does.
pub open spec fn handshake_post(c0: Chat, frame: Frame, r: Handshake, s1: Session, c1: Chat) -> bool {
    match frame {
        Frame::Other => r is Waiting && s1 is Handshaking && c1 == c0,
        Frame::Closed => r is Closed && s1 is Closed && c1 == c0,
        Frame::Text(name) => if c0.registry.claimed().contains(name@) {
            &&& r matches Handshake::Rejected(notice) && notice@ == taken_text(name@)
            &&& s1 is Closed
            &&& c1 == c0
        } else {
            &&& r is Joined
            &&& s1 matches Session::Active { name: n, sub } && n == name && joined_post(c0, name@, sub, c1)
        },
    }
}

/// What relaying one inbound `frame` of session `s` does.
pub open spec fn relay_post(s: Session, c0: Chat, frame: Frame, keep: bool, c1: Chat) -> bool {
    &&& c1.wf()
    &&& keep == (s is Active && !(frame is Closed))
    &&& match s {
        Session::Active { name, .. } => match frame {
            Frame::Text(text) => {
                &&& c1.registry == c0.registry
                &&& announced(c0.hub, relay_text(name@, text@), c1.hub)
                &&& same_subscribers(c0.hub, c1.hub)
            },
            _ => c1 == c0,
        },
        _ => c1 == c0,
    }
}

/// What `finish` does to a session and the shared state.
pub open spec fn finish_post(s0: Session, c0: Chat, s1: Session, c1: Chat) -> bool {
    &&& s1 is Closed
    &&& c1.wf()
    &&& match s0 {
        Session::Active { name, sub } => {
            &&& release_post(c0.registry, name@, c1.registry)
            &&& announced(c0.hub, left_text(name@), c1.hub)
            &&& !c1.hub.subscribed(sub as int)
            &&& others_kept(c0.hub, sub as int, c1.hub)
        },
        _ => c1 == c0,
    }
}

fn joined_message(name: &String) -> (r: String)
    ensures
        r@ == joined_text(name@),
{
    let mut s = name.clone();
    s.append(" has joined.");
    s
}

fn left_message(name: &String) -> (r: String)
    ensures
        r@ == left_text(name@),
{
    let mut s = name.clone();
    s.append(" left");
    s
}

fn relay_message(name: &String, text: &String) -> (r: String)
    ensures
        r@ == relay_text(name@, text@),
{
    let mut s = name.clone();
    s.append(": ");
    s.append(text.as_str());
    s
}

fn taken_message(name: &String) -> (r: String)
    ensures
        r@ == taken_text(name@),
{
    let mut s = "Username `".to_owned();
    s.append(name.as_str());
    s.append("` is already taken");
    s
}

impl Session {
    pub fn new() -> (r: Session)
        ensures
            r is Handshaking,
    {
        Session::Handshaking
    }

    /// Handles one frame read while waiting for a name. The first text frame
    /// is the name, taken verbatim (the empty name is accepted like any
    /// other). Frames of other kinds are skipped.
    pub fn handshake(&mut self, chat: &mut Chat, frame: Frame) -> (r: Handshake)
        requires
            *old(self) is Handshaking,
            old(chat).wf(),
        ensures
            final(chat).wf(),
            handshake_post(*old(chat), frame, r, *final(self), *final(chat)),
    {
        match frame {
            Frame::Other => Handshake::Waiting,
            Frame::Closed => {
                *self = Session::Closed;
                Handshake::Closed
            },
            Frame::Text(name) => {
                let ghost c0 = *chat;
                if !chat.registry.try_claim(name.clone()) {
                    *self = Session::Closed;
                    return Handshake::Rejected(taken_message(&name));
                }
                let sub = chat.hub.subscribe();
                let ghost h1 = chat.hub;
                chat.hub.publish(joined_message(&name));
                assert(chat.hub.log().last() == chat.hub.log()[h1.log().len() as int]);
                proof {
                    lemma_capacity_positive(chat.hub);
                }
                assert(chat.hub.pending(sub as int) =~= seq![chat.hub.log().last()]);
                assert(chat.hub.log().drop_last() =~= c0.hub.log());
                *self = Session::Active { name, sub };
                Handshake::Joined
            },
        }
    }

    /// Handles one frame read while active: a text frame is published as
    /// `<name>: <text>`, other frames are skipped. Answers whether the
    /// inbound side should keep reading.
    pub fn relay(&self, chat: &mut Chat, frame: Frame) -> (keep: bool)
        requires
            old(chat).wf(),
        ensures
            relay_post(*self, *old(chat), frame, keep, *final(chat)),
    {
        match self {
            Session::Active { name, .. } => match frame {
                Frame::Text(text) => {
                    let ghost h0 = chat.hub;
                    chat.hub.publish(relay_message(name, &text));
                    assert(chat.hub.log().drop_last() =~= h0.log());
                    true
                },
                Frame::Other => true,
                Frame::Closed => false,
            },
            _ => false,
        }
    }

    /// The next message the outbound side should write, if one is waiting.
    pub fn next_outbound(&self, chat: &mut Chat) -> (r: Option<String>)
        requires
            old(chat).wf(),
        ensures
            final(chat).wf(),
            match *self {
                Session::Active { sub, .. } => {
                    &&& final(chat).registry == old(chat).registry
                    &&& take_post(old(chat).hub, sub as int, r, final(chat).hub)
                },
                _ => r is None && *final(chat) == *old(chat),
            },
    {
        match self {
            Session::Active { sub, .. } => chat.hub.take_next(*sub),
            _ => None,
        }
    }

    /// Ends the session: once active, it leaves the hub, announces
    /// `<name> left` and releases the name. Finishing a session that never
    /// got a name, or finishing again, does nothing but mark it closed.
    pub fn finish(&mut self, chat: &mut Chat)
        requires
            old(chat).wf(),
        ensures
            finish_post(*old(self), *old(chat), *final(self), *final(chat)),
    {
        if let Session::Active { name, sub } = self {
            let ghost h0 = chat.hub;
            chat.hub.unsubscribe(*sub);
            chat.hub.publish(left_message(name));
            assert(chat.hub.log().drop_last() =~= h0.log());
            chat.registry.release(name);
        }
        *self = Session::Closed;
    }
}

/// Teardown happens once: when both forwarding sides end and the session is
/// finished twice, the second call changes nothing, so an active session
/// announces its leave exactly once and releases its name exactly once.
pub proof fn lemma_teardown_once(s0: Session, c0: Chat, s1: Session, c1: Chat, s2: Session, c2: Chat)
    requires
        finish_post(s0, c0, s1, c1),
        finish_post(s1, c1, s2, c2),
    ensures
        s2 is Closed,
        c2 == c1,
        s0 matches Session::Active { name, sub } ==> {
            &&& c2.hub.log().drop_last() == c0.hub.log()
            &&& c2.hub.log().last()@ == left_text(name@)
            &&& c2.registry.claimed() == c0.registry.claimed().remove(name@)
            &&& !c2.hub.subscribed(sub as int)
        },
{
}

} // verus!
