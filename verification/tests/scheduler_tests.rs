use keyremap::key_buffer::{Action, Event};
use keyremap::key_scheduler::{CapacityExceeded, KeyScheduler};
use keyremap::keys::KeyCode;

fn ev(key: KeyCode, action: Action) -> Event {
    Event { key, action }
}

#[test]
fn ids_are_drawn_in_order() {
    let mut ks = KeyScheduler::new();
    assert_eq!(ks.schedule(ev(KeyCode::A, Action::Press), 10), Ok(0));
    assert_eq!(ks.schedule(ev(KeyCode::A, Action::Release), 20), Ok(1));
    assert_eq!(ks.schedule(ev(KeyCode::B, Action::Press), 0), Ok(2));
}

#[test]
fn fire_returns_the_stored_event_once() {
    let mut ks = KeyScheduler::new();
    let id = ks.schedule(ev(KeyCode::A, Action::Press), 10).unwrap();
    assert_eq!(ks.fire(id), Some(ev(KeyCode::A, Action::Press)));
    // the id is free again: a second expiry under it finds nothing
    assert_eq!(ks.fire(id), None);
    // an id never scheduled has nothing pending either
    assert_eq!(ks.fire(200), None);
}

#[test]
fn negative_and_zero_delays_are_admitted() {
    let mut ks = KeyScheduler::new();
    assert_eq!(ks.schedule(ev(KeyCode::C, Action::Release), -100), Ok(0));
    assert_eq!(ks.schedule(ev(KeyCode::B, Action::Press), 0), Ok(1));
    assert_eq!(ks.fire(0), Some(ev(KeyCode::C, Action::Release)));
    assert_eq!(ks.fire(1), Some(ev(KeyCode::B, Action::Press)));
}

#[test]
fn capacity_is_256_pending_tasks() {
    let mut ks = KeyScheduler::new();
    for i in 0..256u32 {
        let r = ks.schedule(
            ev(
                KeyCode::A,
                if i % 2 == 0 { Action::Press } else { Action::Release },
            ),
            50,
        );
        assert_eq!(r, Ok(i as u8));
    }
    // the 257th concurrently pending request fails fast, changing nothing
    let result = ks.schedule(ev(KeyCode::A, Action::Press), 0);
    assert_eq!(result, Err(CapacityExceeded));

    // after any pending task fires, the next schedule call succeeds;
    // the drawn id has wrapped back to 0, which is still occupied, so
    // the admission overwrites what was pending there
    assert_eq!(ks.fire(123), Some(ev(KeyCode::A, Action::Release)));
    assert_eq!(ks.schedule(ev(KeyCode::B, Action::Press), 0), Ok(0));
    assert_eq!(ks.fire(0), Some(ev(KeyCode::B, Action::Press)));
}

#[test]
fn id_collision_overwrites_the_pending_event() {
    // the id counter advances regardless of vacancy: after a full cycle
    // of draws, a fresh id lands on one still pending
    let mut ks = KeyScheduler::new();
    assert_eq!(ks.schedule(ev(KeyCode::A, Action::Press), 1000), Ok(0));
    for i in 1..256u32 {
        let id = ks.schedule(ev(KeyCode::B, Action::Press), 1000).unwrap();
        assert_eq!(id, i as u8);
        assert_eq!(ks.fire(id), Some(ev(KeyCode::B, Action::Press)));
    }
    // 256 draws later the counter is back at 0, which is still pending
    assert_eq!(ks.schedule(ev(KeyCode::C, Action::Press), 0), Ok(0));
    assert_eq!(ks.fire(0), Some(ev(KeyCode::C, Action::Press)));
    assert_eq!(ks.fire(0), None);
}

#[test]
fn batch_scheduling_continues_past_failures() {
    let mut ks = KeyScheduler::new();
    for _ in 0..255u32 {
        ks.schedule(ev(KeyCode::A, Action::Press), 50).unwrap();
    }
    // room for one: the first of the batch is admitted, the second is
    // dropped, and the batch is not aborted
    let batch = vec![
        (0i64, ev(KeyCode::B, Action::Press)),
        (5i64, ev(KeyCode::B, Action::Release)),
    ];
    let armed = ks.schedule_all(&batch);
    assert_eq!(armed, vec![(255u8, 0i64, ev(KeyCode::B, Action::Press))]);
}

#[test]
fn batch_scheduling_keeps_order_and_delays() {
    let mut ks = KeyScheduler::new();
    let batch = vec![
        (0i64, ev(KeyCode::LeftControl, Action::Press)),
        (500i64, ev(KeyCode::LeftControl, Action::Release)),
    ];
    let armed = ks.schedule_all(&batch);
    assert_eq!(
        armed,
        vec![
            (0u8, 0i64, ev(KeyCode::LeftControl, Action::Press)),
            (1u8, 500i64, ev(KeyCode::LeftControl, Action::Release)),
        ]
    );
    assert_eq!(ks.fire(0), Some(ev(KeyCode::LeftControl, Action::Press)));
    assert_eq!(ks.fire(1), Some(ev(KeyCode::LeftControl, Action::Release)));
}
