//! The client side of the protocol: the messages a client handle sends, and the
//! handshake state machine that the control loop runs on every inbound message.
use crate::connection::messages_view;
use crate::message::{strings_view, Command, CommandView, Message, MessageView};
use vstd::prelude::*;

verus! {

pub open spec fn nick_view(nick: Seq<char>) -> MessageView {
    MessageView { source: None, command: CommandView::Nick, target: Some(nick), parameters: seq![] }
}

pub open spec fn join_view(channel: Seq<char>) -> MessageView {
    MessageView {
        source: None,
        command: CommandView::Join,
        target: Some(channel),
        parameters: seq![],
    }
}

/// The registration message: `USER <ident> 0 * :<real name>`.
pub open spec fn user_view(ident: Seq<char>, real_name: Seq<char>) -> MessageView {
    MessageView {
        source: None,
        command: CommandView::Other("USER"@),
        target: None,
        parameters: seq![ident, "0"@, "*"@, real_name],
    }
}

/// The messages that register the connection: the user, then the nickname.
pub open spec fn authentication(nick: Seq<char>, ident: Seq<char>, real_name: Seq<char>) -> Seq<
    MessageView,
> {
    seq![user_view(ident, real_name), nick_view(nick)]
}

/// One join message per channel, in order.
pub open spec fn joins(channels: Seq<Seq<char>>) -> Seq<MessageView> {
    channels.map_values(|c: Seq<char>| join_view(c))
}

/// The answer to a rejected nickname: the rejected one with `_` appended. None
/// for any other message, or one that names no nickname.
pub open spec fn nick_retry(m: MessageView) -> Option<MessageView> {
    if m.command == CommandView::ErrNicknameInUse && m.parameters.len() > 0 {
        Some(nick_view(m.parameters[0] + "_"@))
    } else {
        None
    }
}

/// The messages that register the connection.
pub fn authenticate_messages(nick: String, ident: String, real_name: String) -> (ms: Vec<Message>)
    ensures
        messages_view(ms@) == authentication(nick@, ident@, real_name@),
{
    let ghost (n, i, r) = (nick@, ident@, real_name@);
    let mut parameters: Vec<String> = Vec::new();
    parameters.push(ident);
    parameters.push(String::from_str("0"));
    parameters.push(String::from_str("*"));
    parameters.push(real_name);
    let user = Message {
        source: None,
        command: Command::Other(String::from_str("USER")),
        target: None,
        parameters,
    };
    let mut ms: Vec<Message> = Vec::new();
    ms.push(user);
    ms.push(Message::nick(nick));
    proof {
        assert(strings_view(user.parameters@) =~= seq![i, "0"@, "*"@, r]);
        assert(messages_view(ms@) =~= authentication(n, i, r));
    }
    ms
}

/// One join message per channel.
pub fn join_messages(channels: &Vec<String>) -> (ms: Vec<Message>)
    ensures
        messages_view(ms@) == joins(strings_view(channels@)),
{
    let mut ms: Vec<Message> = Vec::new();
    for k in 0..channels.len()
        invariant
            ms@.len() == k,
            messages_view(ms@) == joins(strings_view(channels@)).take(k as int),
    {
        let c = channels[k].clone();
        let m = Message::join(c);
        ms.push(m);
        proof {
            assert(strings_view(channels@)[k as int] == c@);
            assert(ms@[k as int]@ == join_view(c@));
            assert(messages_view(ms@) =~= joins(strings_view(channels@)).take(k + 1 as int));
        }
    }
    proof {
        assert(joins(strings_view(channels@)).take(channels@.len() as int) =~= joins(
            strings_view(channels@),
        ));
    }
    ms
}

/// The new nickname to ask for after the server rejected one.
pub fn reply_nick_in_use(msg: &Message) -> (r: Option<Message>)
    ensures
        match r {
            Some(m) => nick_retry(msg@) == Some(m@),
            None => nick_retry(msg@) is None,
        },
{
    match msg.command {
        Command::ErrNicknameInUse => {},
        _ => {
            return None;
        },
    }
    if msg.parameters.len() == 0 {
        return None;
    }
    let mut nick = msg.parameters[0].clone();
    nick.append("_");
    Some(Message::nick(nick))
}

/// Progress of the connection handshake.
#[derive(Clone, Copy, Debug, PartialEq, Eq)]
pub enum HandshakeState {
    /// Nothing sent yet.
    Connecting,
    /// Registration sent; waiting for the welcome reply.
    Authenticating,
    /// Welcomed, and the channels were joined.
    Steady,
    /// The event stream ended.
    Terminated,
}

/// The state after an inbound message with the given command.
pub open spec fn next_state(s: HandshakeState, c: CommandView) -> HandshakeState {
    match c {
        CommandView::ErrNicknameInUse => HandshakeState::Authenticating,
        CommandView::RplWelcome => HandshakeState::Steady,
        _ => s,
    }
}

/// What the control loop sends in answer to an inbound message.
pub open spec fn replies(channels: Seq<Seq<char>>, m: MessageView) -> Seq<MessageView> {
    match m.command {
        CommandView::Ping => seq![m],
        CommandView::ErrNicknameInUse => match nick_retry(m) {
            Some(n) => seq![n],
            None => seq![],
        },
        CommandView::RplWelcome => joins(channels),
        _ => seq![],
    }
}

/// The handshake and keep-alive logic of one connection.
pub struct ControlLoop {
    pub nick: String,
    pub ident: String,
    pub real_name: String,
    pub channels: Vec<String>,
    pub state: HandshakeState,
}

impl ControlLoop {
    pub fn new(nick: String, ident: String, real_name: String, channels: Vec<String>) -> (c:
        ControlLoop)
        ensures
            c.nick == nick,
            c.ident == ident,
            c.real_name == real_name,
            c.channels == channels,
            c.state == HandshakeState::Connecting,
    {
        ControlLoop { nick, ident, real_name, channels, state: HandshakeState::Connecting }
    }

    /// Starts the handshake: the registration messages to send.
    pub fn start(&mut self) -> (ms: Vec<Message>)
        ensures
            messages_view(ms@) == authentication(old(self).nick@, old(self).ident@, old(self).real_name@),
            final(self).state == HandshakeState::Authenticating,
            final(self).channels == old(self).channels,
    {
        self.state = HandshakeState::Authenticating;
        authenticate_messages(self.nick.clone(), self.ident.clone(), self.real_name.clone())
    }

    /// Handles one inbound message: the messages to send in answer.
    pub fn on_event(&mut self, msg: &Message) -> (ms: Vec<Message>)
        ensures
            messages_view(ms@) == replies(strings_view(old(self).channels@), msg@),
            final(self).state == next_state(old(self).state, msg@.command),
            final(self).channels == old(self).channels,
    {
        match msg.command {
            Command::Ping => {
                let mut ms: Vec<Message> = Vec::new();
                ms.push(msg.duplicate());
                proof {
                    assert(messages_view(ms@) =~= seq![msg@]);
                }
                ms
            },
            Command::ErrNicknameInUse => {
                self.state = HandshakeState::Authenticating;
                let mut ms: Vec<Message> = Vec::new();
                match reply_nick_in_use(msg) {
                    Some(m) => {
                        ms.push(m);
                        proof {
                            assert(messages_view(ms@) =~= seq![m@]);
                        }
                    },
                    None => {
                        proof {
                            assert(messages_view(ms@) =~= Seq::<MessageView>::empty());
                        }
                    },
                }
                ms
            },
            Command::RplWelcome => {
                self.state = HandshakeState::Steady;
                join_messages(&self.channels)
            },
            _ => {
                let ms: Vec<Message> = Vec::new();
                proof {
                    assert(messages_view(ms@) =~= Seq::<MessageView>::empty());
                }
                ms
            },
        }
    }

    /// The event stream ended: the loop stops.
    pub fn on_stream_end(&mut self)
        ensures
            final(self).state == HandshakeState::Terminated,
            final(self).channels == old(self).channels,
    {
        self.state = HandshakeState::Terminated;
    }
}

} // verus!
