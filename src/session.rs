//! The session: listener registry, connection phases, handshake and frame dispatch.
//!
//! The session decides; its caller does the transport work. On connect the caller
//! sends each line the session hands out and reports whether the send went through.
//! While joined the caller hands in each inbound frame and carries out the actions
//! that come back, in order: sends, and calls of the listeners of one kind, one after
//! the other in the order in which they were added.
use vstd::prelude::*;

use crate::lines::{
    handshake_lines, pong_line, spec_handshake_lines, spec_lines, spec_pass_line, spec_pong_line,
    split_lines, strip_cr,
};
use crate::parser::{parse_msg, ping_prefix, spec_parse, MessageModel, Msg};
use crate::text::{first_occurrence, lacks, lemma_split_first_char, occurs_at, split_first};

verus! {

/// The phases of a session, in the order in which it goes through them.
#[derive(Clone, Copy, Debug, PartialEq, Eq, Structural)]
pub enum Phase {
    Disconnected,
    Handshaking,
    Joined,
    Closing,
    Closed,
}

/// Why a session stopped.
#[derive(Clone, Copy, Debug, PartialEq, Eq, Structural)]
pub enum SessionError {
    /// A send or a read on the transport failed.
    Transport,
}

/// A frame from the transport.
#[derive(Debug, Clone, PartialEq, Eq)]
pub enum Frame {
    Text(String),
    Ping(Vec<u8>),
    Pong(Vec<u8>),
    Binary(Vec<u8>),
    Close,
    /// Reading the next frame failed.
    ReadError,
}

/// What the caller does next while the session is joined.
#[derive(Debug, Clone, PartialEq, Eq)]
pub enum Action {
    /// Send this line as a text frame.
    Send(String),
    /// Send a transport pong with this payload.
    Pong(Vec<u8>),
    /// Send a close frame; a failure is ignored.
    Close,
    /// Call every chat message listener with this message.
    PrivMsg(Msg),
    /// Call every join listener with this message.
    Join(Msg),
    /// Call every part listener with this message.
    Part(Msg),
}

/// An action over sequences.
pub enum ActionModel {
    Send(Seq<char>),
    Pong(Seq<u8>),
    Close,
    PrivMsg(MessageModel),
    Join(MessageModel),
    Part(MessageModel),
}

impl View for Action {
    type V = ActionModel;

    open spec fn view(&self) -> ActionModel {
        match self {
            Action::Send(l) => ActionModel::Send(l@),
            Action::Pong(d) => ActionModel::Pong(d@),
            Action::Close => ActionModel::Close,
            Action::PrivMsg(m) => ActionModel::PrivMsg(m@),
            Action::Join(m) => ActionModel::Join(m@),
            Action::Part(m) => ActionModel::Part(m@),
        }
    }
}

/// What the caller does next while the session connects.
#[derive(Debug, Clone, PartialEq, Eq)]
pub enum ConnectAction {
    /// Send this handshake line, then report whether that went through.
    Send(String),
    /// The handshake is done; the session is joined.
    Connected,
    /// The handshake stopped; the session is disconnected.
    Failed(SessionError),
}

/// A connect action over sequences.
pub enum ConnectModel {
    Send(Seq<char>),
    Connected,
    Failed(SessionError),
}

impl View for ConnectAction {
    type V = ConnectModel;

    open spec fn view(&self) -> ConnectModel {
        match self {
            ConnectAction::Send(l) => ConnectModel::Send(l@),
            ConnectAction::Connected => ConnectModel::Connected,
            ConnectAction::Failed(e) => ConnectModel::Failed(*e),
        }
    }
}

/// The views of a sequence of actions.
pub open spec fn action_views(s: Seq<Action>) -> Seq<ActionModel> {
    s.map_values(|a: Action| a@)
}

/// What one decoded line asks for: a pong for a ping, the listeners of its kind for
/// a chat message, a join or a part, and nothing for any other line.
pub open spec fn route(m: MessageModel) -> Seq<ActionModel> {
    match m {
        MessageModel::Ping { server_name } => seq![ActionModel::Send(spec_pong_line(server_name))],
        MessageModel::PrivMsg { .. } => seq![ActionModel::PrivMsg(m)],
        MessageModel::Join { .. } => seq![ActionModel::Join(m)],
        MessageModel::Part { .. } => seq![ActionModel::Part(m)],
        MessageModel::Other { .. } => Seq::empty(),
    }
}

/// What a sequence of lines asks for, line after line.
pub open spec fn lines_actions(ls: Seq<Seq<char>>) -> Seq<ActionModel>
    decreases ls.len(),
{
    if ls.len() == 0 {
        Seq::empty()
    } else {
        lines_actions(ls.drop_last()) + route(spec_parse(ls.last()))
    }
}

/// What a text frame asks for.
pub open spec fn text_actions(t: Seq<char>) -> Seq<ActionModel> {
    lines_actions(spec_lines(t))
}

/// One step of the handshake: `sent` is the index of the line whose send was just
/// reported. A failure disconnects; after the last line the session is joined;
/// otherwise the next line goes out. Gives the phase, the index of the line in
/// flight and the action.
pub open spec fn connect_step(lines: Seq<Seq<char>>, sent: int, ok: bool) -> (Phase, int, ConnectModel) {
    if !ok {
        (Phase::Disconnected, sent, ConnectModel::Failed(SessionError::Transport))
    } else if sent + 1 >= lines.len() {
        (Phase::Joined, sent + 1, ConnectModel::Connected)
    } else {
        (Phase::Handshaking, sent + 1, ConnectModel::Send(lines[sent + 1]))
    }
}

/// The actions for one decoded line.
fn route_msg(m: Msg) -> (r: Vec<Action>)
    ensures
        action_views(r@) == route(m@),
{
    let r = match m {
        Msg::Ping { server_name } => vec![Action::Send(pong_line(server_name.as_str()))],
        Msg::PrivMsg { nick, canonical_nick, msg, channel, tags } => vec![
            Action::PrivMsg(Msg::PrivMsg { nick, canonical_nick, msg, channel, tags }),
        ],
        Msg::Join { nick, canonical_nick, channel } => vec![
            Action::Join(Msg::Join { nick, canonical_nick, channel }),
        ],
        Msg::Part { nick, canonical_nick, channel } => vec![
            Action::Part(Msg::Part { nick, canonical_nick, channel }),
        ],
        Msg::Other { .. } => Vec::new(),
    };
    assert(action_views(r@) =~= route(m@));
    r
}

/// The actions for a text frame: each line decoded and routed, in order.
pub fn text_frame_actions(text: &str) -> (r: Vec<Action>)
    ensures
        action_views(r@) == text_actions(text@),
{
    let lines = split_lines(text);
    let ghost ls = lines@.map_values(|l: String| l@);
    let mut r: Vec<Action> = Vec::new();
    let mut k: usize = 0;
    assert(ls.take(0) =~= Seq::<Seq<char>>::empty());
    assert(action_views(r@) =~= Seq::empty());
    while k < lines.len()
        invariant
            k <= lines.len(),
            ls == lines@.map_values(|l: String| l@),
            ls == spec_lines(text@),
            action_views(r@) == lines_actions(ls.take(k as int)),
        decreases lines.len() - k,
    {
        let m = parse_msg(lines[k].as_str());
        let mut more = route_msg(m);
        let ghost before = r@;
        let ghost added = more@;
        r.append(&mut more);
        assert(ls.take(k + 1).drop_last() =~= ls.take(k as int));
        assert(action_views(before + added) =~= action_views(before) + action_views(added));
        k = k + 1;
    }
    assert(ls.take(lines.len() as int) =~= ls);
    r
}

/// A chat session: its channel and nick, the listeners of each kind in the order in
/// which they were added, and its phase.
pub struct Client<P, J> {
    channel: String,
    nick: String,
    on_priv_msg: Vec<P>,
    on_join: Vec<J>,
    on_part: Vec<J>,
    phase: Phase,
    handshake: Vec<String>,
    sent: usize,
}

impl<P, J> Client<P, J> {
    /// The channel.
    pub closed spec fn spec_channel(&self) -> Seq<char> {
        self.channel@
    }

    /// The bot's nick.
    pub closed spec fn spec_nick(&self) -> Seq<char> {
        self.nick@
    }

    /// The chat message listeners, in the order in which they were added.
    pub closed spec fn spec_priv_msg_listeners(&self) -> Seq<P> {
        self.on_priv_msg@
    }

    /// The join listeners, in the order in which they were added.
    pub closed spec fn spec_join_listeners(&self) -> Seq<J> {
        self.on_join@
    }

    /// The part listeners, in the order in which they were added.
    pub closed spec fn spec_part_listeners(&self) -> Seq<J> {
        self.on_part@
    }

    /// The phase.
    pub closed spec fn spec_phase(&self) -> Phase {
        self.phase
    }

    /// The handshake lines, once connecting has begun.
    pub closed spec fn spec_handshake(&self) -> Seq<Seq<char>> {
        self.handshake@.map_values(|l: String| l@)
    }

    /// The index of the handshake line in flight.
    pub closed spec fn spec_sent(&self) -> int {
        self.sent as int
    }

    /// While handshaking, the four lines are known and one of them is in flight.
    pub closed spec fn wf(&self) -> bool {
        self.phase == Phase::Handshaking ==> self.handshake@.len() == 4 && self.sent < 4
    }

    /// A disconnected session for a channel and a nick, with no listeners.
    pub fn new(channel: String, nick: String) -> (r: Self)
        ensures
            r.wf(),
            r.spec_channel() == channel@,
            r.spec_nick() == nick@,
            r.spec_priv_msg_listeners().len() == 0,
            r.spec_join_listeners().len() == 0,
            r.spec_part_listeners().len() == 0,
            r.spec_phase() == Phase::Disconnected,
    {
        Client {
            channel,
            nick,
            on_priv_msg: Vec::new(),
            on_join: Vec::new(),
            on_part: Vec::new(),
            phase: Phase::Disconnected,
            handshake: Vec::new(),
            sent: 0,
        }
    }

    /// Adds a chat message listener after those already there.
    pub fn add_priv_msg_listener(&mut self, listener: P)
        requires
            old(self).wf(),
        ensures
            final(self).wf(),
            final(self).spec_priv_msg_listeners() == old(self).spec_priv_msg_listeners().push(
                listener,
            ),
            final(self).spec_join_listeners() == old(self).spec_join_listeners(),
            final(self).spec_part_listeners() == old(self).spec_part_listeners(),
            final(self).spec_phase() == old(self).spec_phase(),
            final(self).spec_channel() == old(self).spec_channel(),
            final(self).spec_nick() == old(self).spec_nick(),
    {
        self.on_priv_msg.push(listener);
    }

    /// Adds a join listener after those already there.
    pub fn add_join_listener(&mut self, listener: J)
        requires
            old(self).wf(),
        ensures
            final(self).wf(),
            final(self).spec_join_listeners() == old(self).spec_join_listeners().push(listener),
            final(self).spec_priv_msg_listeners() == old(self).spec_priv_msg_listeners(),
            final(self).spec_part_listeners() == old(self).spec_part_listeners(),
            final(self).spec_phase() == old(self).spec_phase(),
            final(self).spec_channel() == old(self).spec_channel(),
            final(self).spec_nick() == old(self).spec_nick(),
    {
        self.on_join.push(listener);
    }

    /// Adds a part listener after those already there.
    pub fn add_part_listener(&mut self, listener: J)
        requires
            old(self).wf(),
        ensures
            final(self).wf(),
            final(self).spec_part_listeners() == old(self).spec_part_listeners().push(listener),
            final(self).spec_priv_msg_listeners() == old(self).spec_priv_msg_listeners(),
            final(self).spec_join_listeners() == old(self).spec_join_listeners(),
            final(self).spec_phase() == old(self).spec_phase(),
            final(self).spec_channel() == old(self).spec_channel(),
            final(self).spec_nick() == old(self).spec_nick(),
    {
        self.on_part.push(listener);
    }

    /// The chat message listeners, in the order in which they were added.
    pub fn priv_msg_listeners(&self) -> (r: &Vec<P>)
        ensures
            r@ == self.spec_priv_msg_listeners(),
    {
        &self.on_priv_msg
    }

    /// The join listeners, in the order in which they were added.
    pub fn join_listeners(&self) -> (r: &Vec<J>)
        ensures
            r@ == self.spec_join_listeners(),
    {
        &self.on_join
    }

    /// The part listeners, in the order in which they were added.
    pub fn part_listeners(&self) -> (r: &Vec<J>)
        ensures
            r@ == self.spec_part_listeners(),
    {
        &self.on_part
    }

    /// The channel.
    pub fn channel(&self) -> (r: &String)
        ensures
            r@ == self.spec_channel(),
    {
        &self.channel
    }

    /// The bot's nick.
    pub fn nick(&self) -> (r: &String)
        ensures
            r@ == self.spec_nick(),
    {
        &self.nick
    }

    /// The phase.
    pub fn phase(&self) -> (r: Phase)
        ensures
            r == self.spec_phase(),
    {
        self.phase
    }

    /// Starts connecting with a token: the session is handshaking and hands out the
    /// first handshake line to send.
    pub fn begin_connect(&mut self, token: &str) -> (r: ConnectAction)
        requires
            old(self).wf(),
            old(self).spec_phase() == Phase::Disconnected,
        ensures
            final(self).wf(),
            final(self).spec_phase() == Phase::Handshaking,
            final(self).spec_handshake() == spec_handshake_lines(
                token@,
                old(self).spec_nick(),
                old(self).spec_channel(),
            ),
            final(self).spec_sent() == 0,
            r@ == ConnectModel::Send(final(self).spec_handshake()[0]),
            final(self).spec_priv_msg_listeners() == old(self).spec_priv_msg_listeners(),
            final(self).spec_join_listeners() == old(self).spec_join_listeners(),
            final(self).spec_part_listeners() == old(self).spec_part_listeners(),
            final(self).spec_channel() == old(self).spec_channel(),
            final(self).spec_nick() == old(self).spec_nick(),
    {
        let lines = handshake_lines(token, self.nick.as_str(), self.channel.as_str());
        let first = lines[0].clone();
        self.handshake = lines;
        self.sent = 0;
        self.phase = Phase::Handshaking;
        assert(self.spec_handshake() =~= spec_handshake_lines(token@, self.nick@, self.channel@));
        ConnectAction::Send(first)
    }

    /// Takes the outcome of sending the handshake line in flight and decides what
    /// comes next.
    pub fn handshake_event(&mut self, sent_ok: bool) -> (r: ConnectAction)
        requires
            old(self).wf(),
            old(self).spec_phase() == Phase::Handshaking,
        ensures
            final(self).wf(),
            (final(self).spec_phase(), final(self).spec_sent(), r@) == connect_step(
                old(self).spec_handshake(),
                old(self).spec_sent(),
                sent_ok,
            ),
            final(self).spec_handshake() == old(self).spec_handshake(),
            final(self).spec_priv_msg_listeners() == old(self).spec_priv_msg_listeners(),
            final(self).spec_join_listeners() == old(self).spec_join_listeners(),
            final(self).spec_part_listeners() == old(self).spec_part_listeners(),
            final(self).spec_channel() == old(self).spec_channel(),
            final(self).spec_nick() == old(self).spec_nick(),
    {
        if !sent_ok {
            self.phase = Phase::Disconnected;
            return ConnectAction::Failed(SessionError::Transport);
        }
        self.sent = self.sent + 1;
        if self.sent >= self.handshake.len() {
            self.phase = Phase::Joined;
            ConnectAction::Connected
        } else {
            ConnectAction::Send(self.handshake[self.sent].clone())
        }
    }

    /// Takes one inbound frame of a joined session and gives the actions it asks
    /// for: those of each of its lines for a text frame, a pong with the same payload
    /// for a transport ping, a close for a close frame or a failed read (the session
    /// is then closing), and nothing for a pong or a binary frame.
    pub fn handle_frame(&mut self, frame: Frame) -> (r: Vec<Action>)
        requires
            old(self).wf(),
            old(self).spec_phase() == Phase::Joined,
        ensures
            final(self).wf(),
            match frame {
                Frame::Text(t) => action_views(r@) == text_actions(t@)
                    && final(self).spec_phase() == Phase::Joined,
                Frame::Ping(d) => action_views(r@) == seq![ActionModel::Pong(d@)]
                    && final(self).spec_phase() == Phase::Joined,
                Frame::Pong(_) | Frame::Binary(_) => r@.len() == 0 && final(self).spec_phase()
                    == Phase::Joined,
                Frame::Close | Frame::ReadError => action_views(r@) == seq![ActionModel::Close]
                    && final(self).spec_phase() == Phase::Closing,
            },
            final(self).spec_priv_msg_listeners() == old(self).spec_priv_msg_listeners(),
            final(self).spec_join_listeners() == old(self).spec_join_listeners(),
            final(self).spec_part_listeners() == old(self).spec_part_listeners(),
            final(self).spec_channel() == old(self).spec_channel(),
            final(self).spec_nick() == old(self).spec_nick(),
    {
        let r = match frame {
            Frame::Text(t) => text_frame_actions(t.as_str()),
            Frame::Ping(d) => vec![Action::Pong(d)],
            Frame::Pong(_) => Vec::new(),
            Frame::Binary(_) => Vec::new(),
            Frame::Close => {
                self.phase = Phase::Closing;
                vec![Action::Close]
            },
            Frame::ReadError => {
                self.phase = Phase::Closing;
                vec![Action::Close]
            },
        };
        assert(frame is Ping ==> action_views(r@) =~= seq![ActionModel::Pong(frame->Ping_0@)]);
        assert((frame is Close || frame is ReadError) ==> action_views(r@) =~= seq![ActionModel::Close]);
        r
    }

    /// Ends a session that is joined or closing, once the transport is done with.
    pub fn finish(&mut self)
        requires
            old(self).wf(),
            old(self).spec_phase() == Phase::Joined || old(self).spec_phase() == Phase::Closing,
        ensures
            final(self).wf(),
            final(self).spec_phase() == Phase::Closed,
            final(self).spec_priv_msg_listeners() == old(self).spec_priv_msg_listeners(),
            final(self).spec_join_listeners() == old(self).spec_join_listeners(),
            final(self).spec_part_listeners() == old(self).spec_part_listeners(),
            final(self).spec_channel() == old(self).spec_channel(),
            final(self).spec_nick() == old(self).spec_nick(),
    {
        self.phase = Phase::Closed;
    }
}

/// A text without line breaks is one line.
proof fn lemma_single_line(t: Seq<char>)
    requires
        t.len() > 0,
        lacks(t, '\n'),
    ensures
        spec_lines(t) == seq![t],
{
    assert forall|i: int| !first_occurrence(t, seq!['\n'], i) by {
        if occurs_at(t, seq!['\n'], i) {
            assert(t.subrange(i, i + 1)[0] == t[i]);
        }
    }
}

/// One line asks for what its message asks for.
proof fn lemma_one_line_actions(l: Seq<char>)
    ensures
        lines_actions(seq![l]) == route(spec_parse(l)),
{
    assert(seq![l].drop_last() =~= Seq::<Seq<char>>::empty());
    assert(lines_actions(Seq::<Seq<char>>::empty()) == Seq::<ActionModel>::empty());
    assert(Seq::<ActionModel>::empty() + route(spec_parse(l)) =~= route(spec_parse(l)));
}

/// A text frame that holds one server ping asks for exactly one send, the pong with
/// the same server name, and calls no listener.
pub proof fn lemma_ping_frame(server_name: Seq<char>)
    requires
        lacks(server_name, '\n'),
    ensures
        text_actions(ping_prefix() + server_name) == seq![
            ActionModel::Send(spec_pong_line(server_name)),
        ],
{
    let t = ping_prefix() + server_name;
    assert(lacks(t, '\n'));
    lemma_single_line(t);
    assert(t.subrange(0, 6) =~= ping_prefix());
    assert(t.skip(6) =~= server_name);
    lemma_one_line_actions(t);
}

/// A text frame of two lines asks for what the first line asks for, then for what
/// the second asks for: dispatch follows the order of the lines.
pub proof fn lemma_two_line_frame(first: Seq<char>, second: Seq<char>)
    requires
        lacks(first, '\n'),
        lacks(second, '\n'),
        first.len() == 0 || first.last() != '\r',
        second.len() > 0,
    ensures
        spec_lines(first + seq!['\n'] + second) == seq![first, second],
        text_actions(first + seq!['\n'] + second) == route(spec_parse(first)) + route(
            spec_parse(second),
        ),
{
    let t = first + seq!['\n'] + second;
    lemma_split_first_char(first, '\n', second);
    lemma_single_line(second);
    assert(strip_cr(first) == first);
    assert(spec_lines(t) =~= seq![first] + seq![second]);
    let ls = seq![first, second];
    assert(ls.drop_last() =~= seq![first]);
    lemma_one_line_actions(first);
    assert(lines_actions(ls) == lines_actions(seq![first]) + route(spec_parse(second)));
}

/// After the capability request went out, a failed send of the password line leaves
/// the session disconnected with a transport error, and no further line is handed
/// out: the nick and join lines are never sent.
pub proof fn lemma_password_send_failure(token: Seq<char>, nick: Seq<char>, channel: Seq<char>)
    ensures
        connect_step(spec_handshake_lines(token, nick, channel), 0, true) == (
            Phase::Handshaking,
            1int,
            ConnectModel::Send(spec_pass_line(token)),
        ),
        connect_step(spec_handshake_lines(token, nick, channel), 1, false) == (
            Phase::Disconnected,
            1int,
            ConnectModel::Failed(SessionError::Transport),
        ),
{
}

} // verus!
