use ircbot::message::{encode_line, parse_line, Command, Message, ParseError, ProtocolError};

fn strings(v: &[&str]) -> Vec<String> {
    v.iter().map(|s| s.to_string()).collect()
}

#[test]
fn decode_privmsg_with_source() {
    let m = parse_line(":nick!ident@host PRIVMSG #chan :hello world").unwrap();
    assert_eq!(m.source.as_deref(), Some("nick!ident@host"));
    assert_eq!(m.command, Command::Privmsg);
    assert_eq!(m.target.as_deref(), Some("#chan"));
    assert_eq!(m.parameters, strings(&["hello world"]));
    let u = m.source_as_user().unwrap();
    assert_eq!(u.nick, "nick");
    assert_eq!(u.ident, "ident");
    assert_eq!(u.host, "host");
}

#[test]
fn decode_ping_trailing_parameter_is_promoted_to_target() {
    // The first parameter, trailing or not, becomes the target.
    let m = parse_line("PING :server.example").unwrap();
    assert_eq!(m.command, Command::Ping);
    assert_eq!(m.source, None);
    assert_eq!(m.target.as_deref(), Some("server.example"));
    assert!(m.parameters.is_empty());
}

#[test]
fn decode_without_parameters_has_no_target() {
    let m = parse_line("QUIT").unwrap();
    assert_eq!(m.command, Command::Other("QUIT".to_string()));
    assert_eq!(m.target, None);
    assert!(m.parameters.is_empty());
}

#[test]
fn decode_recognized_verbs() {
    assert_eq!(parse_line("NOTICE x").unwrap().command, Command::Notice);
    assert_eq!(parse_line(":srv 001 me :Welcome").unwrap().command, Command::RplWelcome);
    assert_eq!(parse_line(":srv 433 * me :in use").unwrap().command, Command::ErrNicknameInUse);
    // JOIN and NICK are not in the inbound table.
    assert_eq!(parse_line("JOIN #a").unwrap().command, Command::Other("JOIN".to_string()));
}

#[test]
fn decode_middle_parameters_and_repeated_spaces() {
    let m = parse_line(":srv  433   *  me :Nickname is already in use").unwrap();
    assert_eq!(m.source.as_deref(), Some("srv"));
    assert_eq!(m.target.as_deref(), Some("*"));
    assert_eq!(m.parameters, strings(&["me", "Nickname is already in use"]));
}

#[test]
fn decode_empty_trailing_parameter() {
    let m = parse_line("PRIVMSG #a :").unwrap();
    assert_eq!(m.target.as_deref(), Some("#a"));
    assert_eq!(m.parameters, strings(&[""]));
}

#[test]
fn decode_errors() {
    assert_eq!(parse_line("").unwrap_err(), ParseError::EmptyCommand);
    assert_eq!(parse_line(" PING").unwrap_err(), ParseError::EmptyCommand);
    assert_eq!(parse_line(":").unwrap_err(), ParseError::EmptySource);
    assert_eq!(parse_line(": PRIVMSG #a").unwrap_err(), ParseError::EmptySource);
    assert_eq!(parse_line(":src").unwrap_err(), ParseError::EmptyCommand);
    assert_eq!(parse_line(":src   ").unwrap_err(), ParseError::EmptyCommand);
}

#[test]
fn from_verb_refuses_empty() {
    assert_eq!(Command::from_verb("").unwrap_err(), ParseError::EmptyCommand);
    assert_eq!(Command::from_verb("PRIVMSG").unwrap(), Command::Privmsg);
    assert_eq!(Command::from_verb("WHO").unwrap(), Command::Other("WHO".to_string()));
}

#[test]
fn encode_privmsg() {
    let m = Message::privmsg("#chan".to_string(), "hi there".to_string());
    assert_eq!(encode_line(&m).unwrap(), "PRIVMSG #chan :hi there\r\n");
}

#[test]
fn encode_reply_only_commands_fail() {
    let m = Message::single_argument(Command::ErrNicknameInUse, "x".to_string());
    assert_eq!(encode_line(&m).unwrap_err(), ProtocolError::ReplyOnlyCommand);
    let m = Message::single_argument(Command::RplWelcome, "x".to_string());
    assert_eq!(encode_line(&m).unwrap_err(), ProtocolError::ReplyOnlyCommand);
    assert_eq!(Command::ErrNicknameInUse.verb().unwrap_err(), ProtocolError::ReplyOnlyCommand);
}

#[test]
fn encode_verbs() {
    assert_eq!(Command::Ping.verb().unwrap(), "PONG");
    assert_eq!(Command::Join.verb().unwrap(), "JOIN");
    assert_eq!(Command::Nick.verb().unwrap(), "NICK");
    assert_eq!(Command::Notice.verb().unwrap(), "NOTICE");
    assert_eq!(Command::Other("USER".to_string()).verb().unwrap(), "USER");
}

#[test]
fn encode_target_alone() {
    let m = Message::join("#a".to_string());
    assert_eq!(encode_line(&m).unwrap(), "JOIN #a\r\n");
    let m = Message::single_argument(Command::Other("TOPIC".to_string()), "a b".to_string());
    assert_eq!(encode_line(&m).unwrap(), "TOPIC :a b\r\n");
    let m = Message::single_argument(Command::Ping, "server.example".to_string());
    assert_eq!(encode_line(&m).unwrap(), "PONG server.example\r\n");
}

#[test]
fn encode_without_target() {
    let m = Message {
        source: None,
        command: Command::Other("USER".to_string()),
        target: None,
        parameters: strings(&["id", "0", "*", "Real Name"]),
    };
    assert_eq!(encode_line(&m).unwrap(), "USER id 0 * :Real Name\r\n");
    let m = Message { source: None, command: Command::Other("QUIT".to_string()), target: None, parameters: vec![] };
    assert_eq!(encode_line(&m).unwrap(), "QUIT\r\n");
}

#[test]
fn encode_ignores_source() {
    let m = parse_line(":a!b@c PRIVMSG #x :y z").unwrap();
    assert_eq!(encode_line(&m).unwrap(), "PRIVMSG #x :y z\r\n");
}

#[test]
fn round_trip_keeps_target_and_parameters() {
    let cases = vec![
        Message::privmsg("#chan".to_string(), "hi there".to_string()),
        Message::join("#a".to_string()),
        Message::single_argument(Command::Nick, "two words".to_string()),
        Message {
            source: None,
            command: Command::Other("MODE".to_string()),
            target: Some("#c".to_string()),
            parameters: strings(&["+o", "nick", ":last one: with colon"]),
        },
        Message { source: None, command: Command::Notice, target: Some("t".to_string()), parameters: strings(&[""]) },
    ];
    for m in cases {
        let line = encode_line(&m).unwrap();
        let body = line.strip_suffix("\r\n").unwrap();
        let d = parse_line(body).unwrap();
        assert_eq!(d.source, None);
        assert_eq!(d.target, m.target);
        assert_eq!(d.parameters, m.parameters);
    }
}

#[test]
fn source_as_user_needs_both_marks() {
    let m = parse_line(":server.example NOTICE * :hi").unwrap();
    assert!(m.source_as_user().is_none());
    let m = parse_line(":nick!ident NOTICE * :hi").unwrap();
    assert!(m.source_as_user().is_none());
    let m = parse_line("NOTICE * :hi").unwrap();
    assert!(m.source_as_user().is_none());
    let m = parse_line(":a@b!c@d NOTICE * :hi").unwrap();
    let u = m.source_as_user().unwrap();
    assert_eq!((u.nick.as_str(), u.ident.as_str(), u.host.as_str()), ("a@b", "c", "d"));
    let m = parse_line(":n!@ X").unwrap();
    let u = m.source_as_user().unwrap();
    assert_eq!((u.nick.as_str(), u.ident.as_str(), u.host.as_str()), ("n", "", ""));
}

#[test]
fn constructors() {
    let m = Message::nick("me".to_string());
    assert_eq!(m.command, Command::Nick);
    assert_eq!(m.target.as_deref(), Some("me"));
    assert!(m.parameters.is_empty());
    let m = Message::double_argument(Command::Notice, "t".to_string(), "a".to_string());
    assert_eq!(m.parameters, strings(&["a"]));
    let d = m.duplicate();
    assert_eq!(d.command, Command::Notice);
    assert_eq!(d.target.as_deref(), Some("t"));
    assert_eq!(d.parameters, strings(&["a"]));
}
