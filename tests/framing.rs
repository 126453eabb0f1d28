use bytes::BytesMut;
use ircbot::connection::{connection_outcome, process_buf, receive_step, ConnectionError, ReadEnd, ReadStep, WriteEnd};
use ircbot::frame::split_frames;
use ircbot::message::Command;

#[test]
fn split_keeps_partial_line() {
    let mut buf = BytesMut::from(&b"PING :a\r\nPRIVMSG #x :y\r\nNOT"[..]);
    let lines = split_frames(&mut buf);
    assert_eq!(lines, vec![b"PING :a".to_vec(), b"PRIVMSG #x :y".to_vec()]);
    assert_eq!(&buf[..], b"NOT");
}

#[test]
fn split_handles_bare_cr_and_empty_lines() {
    let mut buf = BytesMut::from(&b"a\r\r\n\r\nb\nc\r"[..]);
    let lines = split_frames(&mut buf);
    assert_eq!(lines, vec![b"a\r".to_vec(), b"".to_vec()]);
    assert_eq!(&buf[..], b"b\nc\r");
}

#[test]
fn split_empty_buffer() {
    let mut buf = BytesMut::new();
    assert!(split_frames(&mut buf).is_empty());
    assert!(buf.is_empty());
}

#[test]
fn bytewise_feeding_matches_one_chunk() {
    let input: &[u8] = b":a!b@c PRIVMSG #x :hi\r\nPING :s\r\n\r\npartial\r";
    let mut whole = BytesMut::from(input);
    let expected = split_frames(&mut whole);
    let mut buf = BytesMut::new();
    let mut got = Vec::new();
    for b in input {
        buf.extend_from_slice(&[*b]);
        got.extend(split_frames(&mut buf));
    }
    assert_eq!(got, expected);
    assert_eq!(&buf[..], &whole[..]);
}

#[test]
fn process_buf_skips_undecodable_lines() {
    let mut buf = BytesMut::from(&b"PING :a\r\n\r\n:\r\nNOTICE x :y\r\nrest"[..]);
    let msgs = process_buf(&mut buf);
    assert_eq!(msgs.len(), 2);
    assert_eq!(msgs[0].command, Command::Ping);
    assert_eq!(msgs[1].command, Command::Notice);
    assert_eq!(&buf[..], b"rest");
}

#[test]
fn process_buf_replaces_malformed_bytes() {
    let mut buf = BytesMut::from(&b"PRIVMSG #x :a\xffb\r\n"[..]);
    let msgs = process_buf(&mut buf);
    assert_eq!(msgs[0].parameters, vec!["a\u{FFFD}b".to_string()]);
}

#[test]
fn close_with_empty_buffer_is_clean() {
    let mut buf = BytesMut::new();
    match receive_step(&mut buf, 0) {
        ReadStep::End(end) => {
            assert_eq!(end, ReadEnd::PeerClosed);
            assert_eq!(connection_outcome(end, WriteEnd::Stopped), Ok(()));
        }
        ReadStep::Received(_) => panic!("expected the end of the read task"),
    }
}

#[test]
fn close_mid_line_is_fatal() {
    let mut buf = BytesMut::from(&b"PRIVMSG #x :unfinished"[..]);
    match receive_step(&mut buf, 0) {
        ReadStep::End(end) => {
            assert_eq!(end, ReadEnd::Failed(ConnectionError::TruncatedLine));
            assert_eq!(connection_outcome(end, WriteEnd::Stopped), Err(ConnectionError::TruncatedLine));
            assert_eq!(
                connection_outcome(end, WriteEnd::Failed(ConnectionError::Transport)),
                Err(ConnectionError::TruncatedLine)
            );
        }
        ReadStep::Received(_) => panic!("expected the end of the read task"),
    }
    assert_eq!(&buf[..], b"PRIVMSG #x :unfinished");
}

#[test]
fn write_failure_after_clean_close_is_fatal() {
    assert_eq!(
        connection_outcome(ReadEnd::PeerClosed, WriteEnd::Failed(ConnectionError::ReplyOnlyCommand)),
        Err(ConnectionError::ReplyOnlyCommand)
    );
}

#[test]
fn receive_step_decodes_new_lines() {
    let mut buf = BytesMut::from(&b"PING :a\r\nPI"[..]);
    match receive_step(&mut buf, 11) {
        ReadStep::Received(ms) => {
            assert_eq!(ms.len(), 1);
            assert_eq!(ms[0].target.as_deref(), Some("a"));
        }
        ReadStep::End(_) => panic!("expected messages"),
    }
    assert_eq!(&buf[..], b"PI");
}
