//! Runs the scheduler model against the real timer facility, the way
//! the daemon shell does: an admitted task's timer fires after its
//! delay and hands the stored event to the output channel.

use std::sync::mpsc;
use std::sync::{Arc, Mutex};
use std::time::Duration;

use keyremap::key_buffer::{Action, Event};
use keyremap::key_scheduler::KeyScheduler;
use keyremap::keys::KeyCode;

#[test]
fn increasing_delays_arrive_in_nondecreasing_order() {
    let timer = timer::Timer::new();
    let ks = Arc::new(Mutex::new(KeyScheduler::new()));
    let (tx, rx) = mpsc::channel::<(i64, Event)>();

    let keys = [KeyCode::A, KeyCode::B, KeyCode::C, KeyCode::D, KeyCode::E];
    let mut guards = Vec::new();
    for (n, key) in keys.iter().enumerate() {
        // strictly increasing delays
        let delay: i64 = 10 + 70 * n as i64;
        let event = Event {
            key: *key,
            action: Action::Press,
        };
        let id = ks.lock().unwrap().schedule(event, delay).unwrap();
        let ks_c = Arc::clone(&ks);
        let tx_c = tx.clone();
        guards.push(timer.schedule_with_delay(
            chrono::Duration::milliseconds(delay),
            move || {
                if let Some(e) = ks_c.lock().unwrap().fire(id) {
                    let _ = tx_c.send((delay, e));
                }
            },
        ));
    }

    // drain the output in arrival order
    let mut arrived = Vec::new();
    for _ in 0..keys.len() {
        let got = rx.recv_timeout(Duration::from_secs(10)).unwrap();
        arrived.push(got);
    }
    assert_eq!(arrived.len(), 5);
    for w in arrived.windows(2) {
        assert!(w[0].0 <= w[1].0, "delays arrived out of order: {arrived:?}");
    }
    // every scheduled event came out exactly once
    for key in keys.iter() {
        let count = arrived.iter().filter(|(_, e)| e.key == *key).count();
        assert_eq!(count, 1, "event for {key:?} arrived {count} times");
    }
}

#[test]
fn zero_delay_fires_promptly() {
    let timer = timer::Timer::new();
    let ks = Arc::new(Mutex::new(KeyScheduler::new()));
    let (tx, rx) = mpsc::channel::<Event>();

    let event = Event {
        key: KeyCode::B,
        action: Action::Press,
    };
    let id = ks.lock().unwrap().schedule(event, 0).unwrap();
    let ks_c = Arc::clone(&ks);
    let _guard = timer.schedule_with_delay(chrono::Duration::milliseconds(0), move || {
        if let Some(e) = ks_c.lock().unwrap().fire(id) {
            let _ = tx.send(e);
        }
    });
    let received = rx.recv_timeout(Duration::from_secs(10)).unwrap();
    assert_eq!(received, event);
}
