// The fan-out of decoded messages is tokio's broadcast channel, run by the
// application; this records the overflow behaviour it relies on.
use ircbot::message::Message;
use tokio::sync::broadcast;
use tokio::sync::broadcast::error::TryRecvError;

#[test]
fn lagging_subscriber_sees_overflow_then_oldest_retained() {
    let (tx, mut slow) = broadcast::channel::<Message>(16);
    let mut fast = tx.subscribe();
    for i in 0..20 {
        tx.send(Message::join(format!("#{}", i))).unwrap();
        assert_eq!(fast.try_recv().unwrap().target, Some(format!("#{}", i)));
    }
    match slow.try_recv() {
        Err(TryRecvError::Lagged(missed)) => assert_eq!(missed, 4),
        _ => panic!("expected an overflow indication"),
    }
    for i in 4..20 {
        assert_eq!(slow.try_recv().unwrap().target, Some(format!("#{}", i)));
    }
    assert!(matches!(slow.try_recv(), Err(TryRecvError::Empty)));
}
