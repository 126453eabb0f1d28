use ircbot::client::{authenticate_messages, join_messages, reply_nick_in_use, ControlLoop, HandshakeState};
use ircbot::message::{encode_line, parse_line, Command, Message};

fn wire(ms: &[Message]) -> Vec<String> {
    ms.iter().map(|m| encode_line(m).unwrap()).collect()
}

fn control() -> ControlLoop {
    ControlLoop::new(
        "bot".to_string(),
        "botid".to_string(),
        "The Bot".to_string(),
        vec!["#a".to_string(), "#b".to_string()],
    )
}

#[test]
fn authenticate_sends_user_then_nick() {
    let ms = authenticate_messages("bot".to_string(), "botid".to_string(), "The Bot".to_string());
    assert_eq!(wire(&ms), vec!["USER botid 0 * :The Bot\r\n", "NICK bot\r\n"]);
}

#[test]
fn join_sends_one_per_channel() {
    let ms = join_messages(&vec!["#a".to_string(), "#b".to_string()]);
    assert_eq!(wire(&ms), vec!["JOIN #a\r\n", "JOIN #b\r\n"]);
    assert!(join_messages(&vec![]).is_empty());
}

#[test]
fn nick_in_use_appends_underscore() {
    let m = parse_line(":srv 433 * bot :Nickname is already in use").unwrap();
    let r = reply_nick_in_use(&m).unwrap();
    assert_eq!(encode_line(&r).unwrap(), "NICK bot_\r\n");
    let m = parse_line(":srv 433 *").unwrap();
    assert!(reply_nick_in_use(&m).is_none());
    let m = parse_line(":srv NOTICE * bot :x").unwrap();
    assert!(reply_nick_in_use(&m).is_none());
}

#[test]
fn handshake_runs_through_its_states() {
    let mut c = control();
    assert_eq!(c.state, HandshakeState::Connecting);
    let ms = c.start();
    assert_eq!(wire(&ms), vec!["USER botid 0 * :The Bot\r\n", "NICK bot\r\n"]);
    assert_eq!(c.state, HandshakeState::Authenticating);

    let ms = c.on_event(&parse_line(":srv 433 * bot :in use").unwrap());
    assert_eq!(wire(&ms), vec!["NICK bot_\r\n"]);
    assert_eq!(c.state, HandshakeState::Authenticating);

    let ms = c.on_event(&parse_line("PING :srv.example").unwrap());
    assert_eq!(wire(&ms), vec!["PONG srv.example\r\n"]);
    assert_eq!(c.state, HandshakeState::Authenticating);

    let ms = c.on_event(&parse_line(":srv 001 bot_ :Welcome").unwrap());
    assert_eq!(wire(&ms), vec!["JOIN #a\r\n", "JOIN #b\r\n"]);
    assert_eq!(c.state, HandshakeState::Steady);

    let ms = c.on_event(&parse_line(":x!y@z PRIVMSG #a :hello").unwrap());
    assert!(ms.is_empty());
    assert_eq!(c.state, HandshakeState::Steady);

    c.on_stream_end();
    assert_eq!(c.state, HandshakeState::Terminated);
}

#[test]
fn ping_reply_keeps_the_ping() {
    let mut c = control();
    let ping = parse_line(":srv PING a :b c").unwrap();
    let ms = c.on_event(&ping);
    assert_eq!(ms.len(), 1);
    assert_eq!(ms[0].command, Command::Ping);
    assert_eq!(ms[0].target.as_deref(), Some("a"));
    assert_eq!(wire(&ms), vec!["PONG a :b c\r\n"]);
}
