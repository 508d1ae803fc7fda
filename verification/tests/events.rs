use ferrocopy::plugin::{LogPlugin, Plugin};
use ferrocopy::schedule::{ReportSystem, System};
use crossbeam_channel::bounded;
use ferrocopy::eventloop::{EventHandler, EventLoop, LogHandler, Step};
use ferrocopy::events::{broadcast_to, channel, CopyEvent, Received, SendOutcome};

#[test]
fn test_send_recv() {
    let (tx, rx) = channel(16);
    tx.send(CopyEvent::FileStarted { file: "test.txt".into(), total_bytes: 100 });
    match rx.recv().unwrap() {
        CopyEvent::FileStarted { file, total_bytes } => {
            assert_eq!(file, "test.txt");
            assert_eq!(total_bytes, 100);
        }
        _ => panic!("expected FileStarted"),
    }
}

#[test]
fn test_try_recv_empty() {
    let (_, rx) = channel(16);
    assert!(!matches!(rx.try_recv(), Received::Item(_)));
}

#[test]
fn test_finished_event() {
    let (tx, rx) = channel(16);
    tx.send(CopyEvent::Finished { total_files: 10, total_bytes: 1000, elapsed_ms: 500, errors: 0 });
    match rx.recv().unwrap() {
        CopyEvent::Finished { total_files, .. } => assert_eq!(total_files, 10),
        _ => panic!("expected Finished"),
    }
}

#[test]
fn test_log_handler() {
    let mut handler = LogHandler;
    handler.on_event(CopyEvent::Paused);
    handler.on_idle();
    handler.on_error("test error");
}

#[test]
fn try_recv_tells_empty_from_closed() {
    let (tx, rx) = channel(4);
    assert!(matches!(rx.try_recv(), Received::Empty));
    tx.send(CopyEvent::Resumed);
    assert!(matches!(rx.try_recv(), Received::Item(CopyEvent::Resumed)));
    drop(tx);
    assert!(matches!(rx.try_recv(), Received::Disconnected));
    assert!(rx.recv().is_err());
}

struct Counting {
    events: usize,
    idles: usize,
}

impl EventHandler for Counting {
    fn on_event(&mut self, _event: CopyEvent) {
        self.events += 1;
    }
    fn on_idle(&mut self) {
        self.idles += 1;
    }
}

#[test]
fn poll_steps_follow_the_channel() {
    let (tx, rx) = channel(4);
    let mut lp = EventLoop::new(Counting { events: 0, idles: 0 }, rx);
    tx.send(CopyEvent::CancelRequested);
    assert_eq!(lp.poll_once(), Step::Handled);
    assert_eq!(lp.poll_once(), Step::Idle);
    tx.send(CopyEvent::Paused);
    assert_eq!(lp.recv_once(), Step::Handled);
    drop(tx);
    assert_eq!(lp.poll_once(), Step::Closed);
    assert_eq!(lp.recv_once(), Step::Closed);
}

#[test]
fn dispatch_maps_each_receive_outcome() {
    let (_tx, rx) = channel(1);
    let mut lp = EventLoop::new(LogHandler, rx);
    assert_eq!(lp.dispatch(Received::Item(CopyEvent::Resumed)), Step::Handled);
    assert_eq!(lp.dispatch(Received::Empty), Step::Idle);
    assert_eq!(lp.dispatch(Received::Disconnected), Step::Closed);
}

#[test]
fn broadcast_reaches_every_subscriber() {
    let (tx1, rx1) = bounded::<u64>(8);
    let (tx2, rx2) = bounded::<u64>(8);
    let mut subs = vec![tx1, tx2];
    let outcomes = broadcast_to(&mut subs, &500);
    assert_eq!(outcomes, vec![SendOutcome::Sent, SendOutcome::Sent]);
    assert_eq!(subs.len(), 2);
    assert_eq!(rx1.try_recv().unwrap(), 500);
    assert_eq!(rx2.try_recv().unwrap(), 500);
}

#[test]
fn broadcast_keeps_full_and_drops_disconnected() {
    let (tx_full, rx_full) = bounded::<u64>(1);
    let (tx_gone, rx_gone) = bounded::<u64>(1);
    let (tx_ok, rx_ok) = bounded::<u64>(4);
    let mut subs = vec![tx_full, tx_gone, tx_ok];
    drop(rx_gone);
    assert_eq!(
        broadcast_to(&mut subs, &1),
        vec![SendOutcome::Sent, SendOutcome::Disconnected, SendOutcome::Sent]
    );
    assert_eq!(subs.len(), 2);
    assert_eq!(broadcast_to(&mut subs, &2), vec![SendOutcome::Full, SendOutcome::Sent]);
    assert_eq!(subs.len(), 2);
    assert_eq!(rx_full.try_recv().unwrap(), 1);
    assert!(rx_full.try_recv().is_err());
    assert_eq!(rx_ok.try_recv().unwrap(), 1);
    assert_eq!(rx_ok.try_recv().unwrap(), 2);
}

#[test]
fn broadcast_without_subscribers_does_nothing() {
    let mut subs: Vec<crossbeam_channel::Sender<u64>> = Vec::new();
    assert!(broadcast_to(&mut subs, &7).is_empty());
    assert!(subs.is_empty());
}

#[test]
fn named_plugins_and_systems() {
    assert_eq!(LogPlugin.name(), "log");
    assert_eq!(ReportSystem.name(), "report");
}
