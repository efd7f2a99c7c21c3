use maidsafe_utilities::worker::{AsyncEvent, AsyncWorker, SyncWrite, WorkerAction};
use std::sync::mpsc;

#[derive(Default)]
struct Recorder {
    writes: Vec<Vec<u8>>,
}

impl SyncWrite for Recorder {
    fn sync_write(&mut self, buf: &[u8]) -> std::io::Result<()> {
        self.writes.push(buf.to_vec());
        Ok(())
    }
}

struct Failing {
    attempts: usize,
}

impl SyncWrite for Failing {
    fn sync_write(&mut self, _buf: &[u8]) -> std::io::Result<()> {
        self.attempts += 1;
        Err(std::io::Error::new(std::io::ErrorKind::Other, "down"))
    }
}

/// Handles `event` and performs the action on `writer`, as the appender's
/// worker thread does; returns whether the worker goes on.
fn deliver<W: SyncWrite>(worker: &mut AsyncWorker, writer: &mut W, event: AsyncEvent) -> bool {
    match worker.handle(event) {
        WorkerAction::Write(bytes) => {
            let _ = writer.sync_write(&bytes);
            true
        }
        WorkerAction::Stop => false,
    }
}

fn log(s: &str) -> AsyncEvent {
    AsyncEvent::Log(s.as_bytes().to_vec())
}

#[test]
fn drain_writes_every_message_before_terminate() {
    let mut worker = AsyncWorker::new();
    let mut w = Recorder::default();
    let n = 5;
    for i in 0..n {
        assert!(deliver(&mut worker, &mut w, log(&format!("message {}", i))));
    }
    assert!(!deliver(&mut worker, &mut w, AsyncEvent::Terminate));
    assert_eq!(w.writes.len(), n);
    for i in 0..n {
        assert_eq!(w.writes[i], format!("message {}", i).into_bytes());
    }
}

#[test]
fn nothing_is_written_after_terminate() {
    let mut worker = AsyncWorker::new();
    let mut w = Recorder::default();
    assert!(deliver(&mut worker, &mut w, log("before")));
    assert!(!deliver(&mut worker, &mut w, AsyncEvent::Terminate));
    assert!(!deliver(&mut worker, &mut w, log("after")));
    assert_eq!(w.writes, vec![b"before".to_vec()]);
}

#[test]
fn handle_returns_shortened_bytes() {
    let mut worker = AsyncWorker::new();
    match worker.handle(log("W [m #FS#src/deep/file.rs#FE#:7] hi")) {
        WorkerAction::Write(bytes) => assert_eq!(bytes, b"W [m file.rs:7] hi".to_vec()),
        WorkerAction::Stop => panic!("a running worker writes a message"),
    }
    assert!(matches!(worker.handle(AsyncEvent::Terminate), WorkerAction::Stop));
    assert!(matches!(worker.handle(log("late")), WorkerAction::Stop));
}

#[test]
fn unmarked_message_is_written_unchanged() {
    let mut worker = AsyncWorker::new();
    let mut w = Recorder::default();
    let raw = vec![0u8, 200, 35, 70, 255];
    assert!(deliver(&mut worker, &mut w, AsyncEvent::Log(raw.clone())));
    assert_eq!(w.writes, vec![raw]);
}

#[test]
fn write_errors_do_not_stop_the_worker() {
    let mut worker = AsyncWorker::new();
    let mut w = Failing { attempts: 0 };
    assert!(deliver(&mut worker, &mut w, log("a")));
    assert!(deliver(&mut worker, &mut w, log("b")));
    assert!(!deliver(&mut worker, &mut w, AsyncEvent::Terminate));
    assert_eq!(w.attempts, 2);
}

#[test]
fn per_sender_order_through_one_channel() {
    let (tx, rx) = mpsc::channel::<AsyncEvent>();
    let tx_a = tx.clone();
    let tx_b = tx.clone();
    tx_a.send(log("a0")).unwrap();
    tx_b.send(log("b0")).unwrap();
    tx_b.send(log("b1")).unwrap();
    tx_a.send(log("a1")).unwrap();
    tx_a.send(log("a2")).unwrap();
    tx_b.send(log("b2")).unwrap();
    tx.send(AsyncEvent::Terminate).unwrap();
    let mut worker = AsyncWorker::new();
    let mut w = Recorder::default();
    for event in rx.iter() {
        if !deliver(&mut worker, &mut w, event) {
            break;
        }
    }
    let writes: Vec<String> = w
        .writes
        .iter()
        .map(|b| String::from_utf8(b.clone()).unwrap())
        .collect();
    assert_eq!(writes.len(), 6);
    let of = |p: &str| -> Vec<String> { writes.iter().filter(|w| w.starts_with(p)).cloned().collect() };
    assert_eq!(of("a"), vec!["a0", "a1", "a2"]);
    assert_eq!(of("b"), vec!["b0", "b1", "b2"]);
}
