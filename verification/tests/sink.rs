use bipbuf::sink::{connect, Action, Event, Phase, Step, Worker};

fn drain(worker: &mut Worker, sink: &mut Vec<u8>) -> (usize, usize) {
    let mut flushes = 0;
    let mut forwards = 0;
    let mut steps = 0;
    loop {
        steps += 1;
        assert!(steps < 1000);
        match worker.step() {
            Step::Again => {}
            Step::Forward(lease) => {
                forwards += 1;
                sink.extend_from_slice(&lease.view);
            }
            Step::Flush => flushes += 1,
            Step::Done => break,
        }
    }
    (forwards, flushes)
}

#[test]
fn worker_forwards_what_handles_wrote() {
    let mut buf = Vec::new();
    let (mut h, mut worker) = connect(100);
    assert_eq!(worker.phase(), Phase::Waiting);
    h.write(b"asdf");
    h.write(b"pqrs");
    drop(h);
    let (forwards, flushes) = drain(&mut worker, &mut buf);
    assert_eq!(buf, b"asdfpqrs");
    assert_eq!(forwards, 1);
    assert_eq!(flushes, 1);
    assert_eq!(worker.phase(), Phase::Finished);
    assert!(matches!(worker.step(), Step::Done));
}

#[test]
fn worker_steps_through_its_phases() {
    let (mut h, mut worker) = connect(10);
    h.write(b"ab");
    assert!(matches!(worker.step(), Step::Again));
    assert_eq!(worker.phase(), Phase::Draining);
    match worker.step() {
        Step::Forward(lease) => assert_eq!(lease.view, b"ab"),
        _ => panic!("a lease is due"),
    }
    assert_eq!(worker.phase(), Phase::Draining);
    assert!(matches!(worker.step(), Step::Again));
    assert_eq!(worker.phase(), Phase::Waiting);
    h.write(b"cd");
    drop(h);
    // the notification is met before the disconnection
    assert!(matches!(worker.step(), Step::Again));
    assert_eq!(worker.phase(), Phase::Draining);
    match worker.step() {
        Step::Forward(lease) => assert_eq!(lease.view, b"cd"),
        _ => panic!("a lease is due"),
    }
    assert!(matches!(worker.step(), Step::Again));
    assert_eq!(worker.phase(), Phase::Waiting);
    assert!(matches!(worker.step(), Step::Again));
    assert_eq!(worker.phase(), Phase::Closing);
    assert!(matches!(worker.step(), Step::Flush));
    assert_eq!(worker.phase(), Phase::Finished);
    assert!(matches!(worker.step(), Step::Done));
    assert_eq!(worker.phase(), Phase::Finished);
}

#[test]
fn worker_without_writes_flushes_once() {
    let mut buf = Vec::new();
    let (h, mut worker) = connect(4);
    drop(h);
    let (forwards, flushes) = drain(&mut worker, &mut buf);
    assert_eq!(buf, b"");
    assert_eq!(forwards, 0);
    assert_eq!(flushes, 1);
}

#[test]
fn handle_drops_what_does_not_fit() {
    let mut buf = Vec::new();
    let (mut h, mut worker) = connect(8);
    h.write(b"abcde");
    h.write(b"fghi");
    h.write(b"jkl");
    h.write(b"");
    drop(h);
    let (forwards, flushes) = drain(&mut worker, &mut buf);
    assert_eq!(buf, b"abcdejkl");
    assert_eq!(forwards, 1);
    assert_eq!(flushes, 1);
}

#[test]
fn cloned_handles_keep_the_worker_waiting() {
    let mut buf = Vec::new();
    let (mut h, mut worker) = connect(16);
    let mut other = h.clone();
    h.write(b"one");
    drop(h);
    assert!(matches!(worker.step(), Step::Again));
    assert_eq!(worker.phase(), Phase::Draining);
    match worker.step() {
        Step::Forward(lease) => buf.extend_from_slice(&lease.view),
        _ => panic!("a lease is due"),
    }
    assert!(matches!(worker.step(), Step::Again));
    assert_eq!(worker.phase(), Phase::Waiting);
    other.write(b"two");
    drop(other);
    let (forwards, flushes) = drain(&mut worker, &mut buf);
    assert_eq!(buf, b"onetwo");
    assert_eq!(forwards, 1);
    assert_eq!(flushes, 1);
}

#[test]
fn wrapped_data_reaches_the_sink_in_order() {
    let mut buf = Vec::new();
    let (mut h, mut worker) = connect(10);
    h.write(b"aaaaa");
    assert!(matches!(worker.step(), Step::Again));
    match worker.step() {
        Step::Forward(lease) => {
            h.write(b"bbbb");
            buf.extend_from_slice(&lease.view);
        }
        _ => panic!("a lease is due"),
    }
    h.write(b"cccc");
    drop(h);
    let (forwards, flushes) = drain(&mut worker, &mut buf);
    assert_eq!(buf, b"aaaaabbbbcccc");
    assert_eq!(forwards, 2);
    assert_eq!(flushes, 1);
}

#[test]
fn phase_follows_the_events() {
    let table = [
        (Phase::Waiting, Event::Notified, Phase::Draining, Action::Nothing),
        (Phase::Waiting, Event::Disconnected, Phase::Closing, Action::Nothing),
        (Phase::Waiting, Event::Lent, Phase::Waiting, Action::Nothing),
        (Phase::Waiting, Event::Empty, Phase::Waiting, Action::Nothing),
        (Phase::Draining, Event::Notified, Phase::Draining, Action::Nothing),
        (Phase::Draining, Event::Disconnected, Phase::Draining, Action::Nothing),
        (Phase::Draining, Event::Lent, Phase::Draining, Action::Forward),
        (Phase::Draining, Event::Empty, Phase::Waiting, Action::Nothing),
        (Phase::Closing, Event::Notified, Phase::Closing, Action::Nothing),
        (Phase::Closing, Event::Disconnected, Phase::Closing, Action::Nothing),
        (Phase::Closing, Event::Lent, Phase::Closing, Action::Forward),
        (Phase::Closing, Event::Empty, Phase::Finished, Action::Flush),
        (Phase::Finished, Event::Notified, Phase::Finished, Action::Nothing),
        (Phase::Finished, Event::Disconnected, Phase::Finished, Action::Nothing),
        (Phase::Finished, Event::Lent, Phase::Finished, Action::Nothing),
        (Phase::Finished, Event::Empty, Phase::Finished, Action::Nothing),
    ];
    for (phase, event, next, action) in table {
        assert_eq!(phase.advance(event), (next, action));
    }
}

#[test]
fn notifications_coalesce() {
    let (mut h, mut worker) = connect(10);
    h.write(b"a");
    h.write(b"b");
    h.write(b"c");
    assert!(matches!(worker.step(), Step::Again));
    assert_eq!(worker.phase(), Phase::Draining);
    match worker.step() {
        Step::Forward(lease) => assert_eq!(lease.view, b"abc"),
        _ => panic!("a lease is due"),
    }
    assert!(matches!(worker.step(), Step::Again));
    assert_eq!(worker.phase(), Phase::Waiting);
    drop(h);
    // one notification stood for the three writes: none is left
    assert!(matches!(worker.step(), Step::Again));
    assert_eq!(worker.phase(), Phase::Closing);
    assert!(matches!(worker.step(), Step::Flush));
}

#[test]
fn lease_is_released_whether_or_not_the_sink_took_it() {
    let mut buf = Vec::new();
    let (mut h, mut worker) = connect(8);
    h.write(b"abcdef");
    assert!(matches!(worker.step(), Step::Again));
    match worker.step() {
        // the sink fails: nothing is written, the lease is dropped all the same
        Step::Forward(lease) => assert_eq!(lease.view, b"abcdef"),
        _ => panic!("a lease is due"),
    }
    // the six bytes are free again
    h.write(b"ghijkl");
    drop(h);
    let (forwards, flushes) = drain(&mut worker, &mut buf);
    assert_eq!(buf, b"ghijkl");
    assert_eq!(forwards, 1);
    assert_eq!(flushes, 1);
}

#[test]
fn event_tells_what_a_wait_met() {
    assert_eq!(Event::of_wait(Ok(())), Event::Notified);
    assert_eq!(Event::of_wait(Err(crossbeam::channel::RecvError)), Event::Disconnected);
}

#[test]
fn event_tells_what_a_read_met() {
    let (mut reader, mut writer) = bipbuf::buffer::create(4);
    assert_eq!(Event::of_read(&reader.read()), Event::Empty);
    assert_eq!(Event::of_read(&None), Event::Empty);
    assert!(writer.try_write(b"ab"));
    assert_eq!(Event::of_read(&reader.read()), Event::Lent);
}
