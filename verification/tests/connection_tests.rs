use std::sync::mpsc;

use troll_invasion::connection::Receiver;
use troll_invasion::model::ServerMessage;

#[test]
fn try_recv_drains_queued_messages_in_order() {
    let (queue_in, queue_out) = mpsc::channel();
    queue_in.send(ServerMessage::GameStart).unwrap();
    queue_in
        .send(ServerMessage::Turn { nick: String::from("bob") })
        .unwrap();
    let receiver = Receiver::new(queue_out);
    assert_eq!(receiver.try_recv(), Some(ServerMessage::GameStart));
    assert_eq!(
        receiver.try_recv(),
        Some(ServerMessage::Turn { nick: String::from("bob") })
    );
    assert_eq!(receiver.try_recv(), None);
}

#[test]
fn try_recv_is_none_after_the_producer_is_gone() {
    let (queue_in, queue_out) = mpsc::channel::<ServerMessage>();
    drop(queue_in);
    let receiver = Receiver::new(queue_out);
    assert_eq!(receiver.try_recv(), None);
}
