use drakkar_vfx::client::{ClientMessage, ClientWorker, Received, WorkerAction, ASSET_DELAY_MS, IDLE_SLEEP_MS};

type Action = WorkerAction<&'static str, u32>;

fn recv(w: &mut ClientWorker<u32>, m: ClientMessage<&'static str, u32>, now: u64) -> Vec<Action> {
    w.receive(Received::Message(m), now)
}

#[test]
fn endpoint_joins_address_and_port() {
    let w: ClientWorker<u32> = ClientWorker::new("127.0.0.1".to_string(), 8080);
    assert_eq!(w.endpoint(), "127.0.0.1:8080");
    let w: ClientWorker<u32> = ClientWorker::new("localhost".to_string(), 0);
    assert_eq!(w.endpoint(), "localhost:0");
}

#[test]
fn commands_go_out_at_once() {
    let mut w = ClientWorker::new("h".to_string(), 1);
    assert!(matches!(recv(&mut w, ClientMessage::SendMessage("ping"), 0).as_slice(), [WorkerAction::SendMessage("ping")]));
    assert!(matches!(recv(&mut w, ClientMessage::SendRaw("x".to_string()), 0).as_slice(), [WorkerAction::SendRaw(s)] if s == "x"));
    assert!(matches!(w.receive(Received::<&str, u32>::Empty, 0).as_slice(), [WorkerAction::Sleep(n)] if *n == IDLE_SLEEP_MS));
    assert!(matches!(w.receive(Received::<&str, u32>::Closed, 0).as_slice(), [WorkerAction::Stop]));
}

#[test]
fn assets_are_batched_until_the_delay_passes() {
    let mut w = ClientWorker::new("h".to_string(), 1);
    assert!(recv(&mut w, ClientMessage::SendAsset(1), 1000).is_empty());
    assert!(recv(&mut w, ClientMessage::SendAsset(2), 1100).is_empty());
    assert_eq!(w.tick(1100 + ASSET_DELAY_MS - 1), None);
    assert_eq!(w.tick(1100 + ASSET_DELAY_MS), Some(2));
    assert_eq!(w.tick(5000), None);
}

#[test]
fn shutdown_sends_the_held_asset() {
    let mut w = ClientWorker::new("h".to_string(), 1);
    recv(&mut w, ClientMessage::SendAsset(5), 0);
    assert!(matches!(recv(&mut w, ClientMessage::Shutdown, 10).as_slice(), [WorkerAction::SendAsset(5), WorkerAction::Stop]));
    assert!(matches!(recv(&mut w, ClientMessage::Shutdown, 20).as_slice(), [WorkerAction::Stop]));
}
