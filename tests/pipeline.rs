use netboard::hotkey::{HotkeyMonitor, Verdict};
use netboard::protocol::{encode, InputEvent, EV_KEY};
use netboard::relay::{
    after_read_failure, is_event_node, on_datagram, replay_all, Delivery, ReadFailure, ReaderAction,
};

fn key(code: u16, value: i32) -> InputEvent {
    InputEvent { event_type: EV_KEY, code, value }
}

/// One capture step: the monitor sees the event, then it goes out as one datagram.
fn capture(monitor: &mut HotkeyMonitor, e: &InputEvent, wire: &mut Vec<Vec<u8>>) {
    assert_eq!(monitor.observe(e), Verdict::Forward);
    wire.push(encode(e));
}

/// Every way of interleaving `a` items of one source with `b` of another,
/// written as the sequence of sources that go next.
fn schedules(a: usize, b: usize) -> Vec<Vec<usize>> {
    if a == 0 && b == 0 {
        return vec![vec![]];
    }
    let mut out = Vec::new();
    if a > 0 {
        for mut s in schedules(a - 1, b) {
            s.insert(0, 0);
            out.push(s);
        }
    }
    if b > 0 {
        for mut s in schedules(a, b - 1) {
            s.insert(0, 1);
            out.push(s);
        }
    }
    out
}

#[test]
fn read_failures() {
    assert_eq!(after_read_failure(ReadFailure::NoDataYet), ReaderAction::SleepAndRetry);
    assert_eq!(after_read_failure(ReadFailure::Failed), ReaderAction::Stop);
}

#[test]
fn two_devices_keep_their_own_order() {
    let devices = [vec![key(30, 1), key(30, 0)], vec![key(48, 1), key(48, 0)]];
    let all = schedules(2, 2);
    assert_eq!(all.len(), 6);
    for schedule in all {
        let mut monitor = HotkeyMonitor::new();
        let mut wire = Vec::new();
        let mut next = [0usize, 0usize];
        for d in schedule {
            let e = devices[d][next[d]];
            next[d] += 1;
            capture(&mut monitor, &e, &mut wire);
        }
        let emitted = replay_all(&wire);
        assert_eq!(emitted.len(), 4);
        for (d, seq) in devices.iter().enumerate() {
            let code = seq[0].code;
            let mine: Vec<InputEvent> = emitted.iter().copied().filter(|e| e.code == code).collect();
            assert_eq!(&mine, &devices[d]);
        }
        assert!(!monitor.is_pressed(30));
        assert!(!monitor.is_pressed(48));
    }
}

#[test]
fn single_device_press_release_end_to_end() {
    let mut monitor = HotkeyMonitor::new();
    let mut wire = Vec::new();
    capture(&mut monitor, &key(30, 1), &mut wire);
    capture(&mut monitor, &key(30, 0), &mut wire);
    let emitted = replay_all(&wire);
    assert_eq!(emitted, vec![key(30, 1), key(30, 0)]);
    assert_eq!(emitted[0].event_type, EV_KEY);
    assert_eq!(emitted[0].code, 30);
    assert_eq!(emitted[0].value, 1);
    assert_eq!(emitted[1].value, 0);
}

#[test]
fn failed_device_leaves_the_other_flowing() {
    let opened: Vec<Result<Vec<InputEvent>, String>> = vec![
        Err(String::from("permission denied")),
        Ok(vec![key(48, 1), key(48, 0)]),
    ];
    let mut monitor = HotkeyMonitor::new();
    let mut wire = Vec::new();
    for device in opened.iter() {
        match device {
            Ok(events) => {
                for e in events {
                    capture(&mut monitor, e, &mut wire);
                }
                assert_eq!(after_read_failure(ReadFailure::Failed), ReaderAction::Stop);
            }
            Err(_) => {}
        }
    }
    assert_eq!(replay_all(&wire), vec![key(48, 1), key(48, 0)]);
}

#[test]
fn garbage_between_valid_datagrams() {
    let wire = vec![encode(&key(30, 1)), vec![0xDE, 0xAD, 0xBE], encode(&key(30, 0))];
    assert_eq!(on_datagram(&wire[1]), Delivery::Discard);
    assert_eq!(on_datagram(&wire[0]), Delivery::Emit(key(30, 1)));
    assert_eq!(replay_all(&wire), vec![key(30, 1), key(30, 0)]);
}

#[test]
fn empty_datagram_is_discarded() {
    assert_eq!(on_datagram(&[]), Delivery::Discard);
    assert_eq!(replay_all(&vec![vec![], vec![1, 2, 3, 4, 5, 6, 7]]), vec![]);
}

#[test]
fn event_nodes_are_recognised_by_name() {
    assert!(is_event_node("event0"));
    assert!(is_event_node("event12"));
    assert!(is_event_node("event"));
    assert!(!is_event_node("mouse0"));
    assert!(!is_event_node("even"));
    assert!(!is_event_node(""));
    assert!(!is_event_node("by-id"));
    assert!(!is_event_node("Event3"));
}
