use keyremap::config::load_config;
use keyremap::key_buffer::{Action, Event, KeyBuffer, PushOutcome};
use keyremap::keys::KeyCode;

fn entries(pairs: &[(&str, &str)]) -> Vec<(String, String)> {
    pairs
        .iter()
        .map(|(k, v)| (k.to_string(), v.to_string()))
        .collect()
}

#[test]
fn chord_of_three_keys_expands_to_timed_macro() {
    let config = load_config(
        None,
        &entries(&[(
            "leftmeta + leftshift + F23",
            "leftctrl down + wait 500 + leftctrl up",
        )]),
    )
    .unwrap();
    let mut buf = KeyBuffer::new(config);

    // A bare key name requires both transitions, so the three presses
    // alone are not enough; the releases complete the chord.
    assert_eq!(buf.push(KeyCode::LeftMeta, Action::Press), PushOutcome::Buffered);
    assert_eq!(buf.push(KeyCode::LeftShift, Action::Press), PushOutcome::Buffered);
    assert_eq!(buf.push(KeyCode::F23, Action::Press), PushOutcome::Buffered);
    assert_eq!(buf.push(KeyCode::LeftMeta, Action::Release), PushOutcome::Buffered);
    assert_eq!(buf.push(KeyCode::LeftShift, Action::Release), PushOutcome::Buffered);
    let outcome = buf.push(KeyCode::F23, Action::Release);
    assert_eq!(
        outcome,
        PushOutcome::Matched(vec![
            (
                0,
                Event {
                    key: KeyCode::LeftControl,
                    action: Action::Press
                }
            ),
            (
                500,
                Event {
                    key: KeyCode::LeftControl,
                    action: Action::Release
                }
            ),
        ])
    );
    // the match consumed the whole buffer
    assert_eq!(buf.expire(), None);
}

#[test]
fn bare_key_combo_matches_on_release() {
    let config = load_config(None, &entries(&[("a", "b")])).unwrap();
    let mut buf = KeyBuffer::new(config);

    assert_eq!(buf.push(KeyCode::A, Action::Press), PushOutcome::Buffered);
    let outcome = buf.push(KeyCode::A, Action::Release);
    assert_eq!(
        outcome,
        PushOutcome::Matched(vec![
            (
                0,
                Event {
                    key: KeyCode::B,
                    action: Action::Press
                }
            ),
            (
                0,
                Event {
                    key: KeyCode::B,
                    action: Action::Release
                }
            ),
        ])
    );
}

#[test]
fn explicit_press_combo_matches_without_release() {
    let config = load_config(None, &entries(&[("n down", "b + c")])).unwrap();
    let mut buf = KeyBuffer::new(config);

    let outcome = buf.push(KeyCode::N, Action::Press);
    assert_eq!(
        outcome,
        PushOutcome::Matched(vec![
            (
                0,
                Event {
                    key: KeyCode::B,
                    action: Action::Press
                }
            ),
            (
                0,
                Event {
                    key: KeyCode::B,
                    action: Action::Release
                }
            ),
            (
                0,
                Event {
                    key: KeyCode::C,
                    action: Action::Press
                }
            ),
            (
                0,
                Event {
                    key: KeyCode::C,
                    action: Action::Release
                }
            ),
        ])
    );
}

#[test]
fn unrelated_events_do_not_match() {
    let config = load_config(None, &entries(&[("a", "b"), ("n down", "b + c")])).unwrap();
    let mut buf = KeyBuffer::new(config);

    // C is part of no combo: it bypasses the buffer entirely.
    assert_eq!(
        buf.push(KeyCode::C, Action::Press),
        PushOutcome::Passthrough(Event {
            key: KeyCode::C,
            action: Action::Press
        })
    );
    // A's release alone satisfies neither combo: it stays buffered.
    assert_eq!(buf.push(KeyCode::A, Action::Release), PushOutcome::Buffered);
    // and it is still there, waiting for its passthrough timer
    assert_eq!(
        buf.expire(),
        Some(Event {
            key: KeyCode::A,
            action: Action::Release
        })
    );
    assert_eq!(buf.expire(), None);
}

#[test]
fn earlier_combo_wins_on_overlap() {
    // pushing C's press satisfies both combos at once; the one declared
    // first wins, even though the later one is also satisfied
    let config = load_config(
        None,
        &entries(&[("a down + c down", "d"), ("c down", "e")]),
    )
    .unwrap();
    let mut buf = KeyBuffer::new(config);
    assert_eq!(buf.push(KeyCode::A, Action::Press), PushOutcome::Buffered);
    let outcome = buf.push(KeyCode::C, Action::Press);
    assert_eq!(
        outcome,
        PushOutcome::Matched(vec![
            (
                0,
                Event {
                    key: KeyCode::D,
                    action: Action::Press
                }
            ),
            (
                0,
                Event {
                    key: KeyCode::D,
                    action: Action::Release
                }
            ),
        ])
    );
}

#[test]
fn passthrough_drains_oldest_first() {
    let config = load_config(None, &entries(&[("a + b", "c")])).unwrap();
    let mut buf = KeyBuffer::new(config);
    assert_eq!(buf.push(KeyCode::A, Action::Press), PushOutcome::Buffered);
    assert_eq!(buf.push(KeyCode::B, Action::Press), PushOutcome::Buffered);
    // expiry always pops the front, whichever timer actually fired
    assert_eq!(
        buf.expire(),
        Some(Event {
            key: KeyCode::A,
            action: Action::Press
        })
    );
    assert_eq!(
        buf.expire(),
        Some(Event {
            key: KeyCode::B,
            action: Action::Press
        })
    );
    assert_eq!(buf.expire(), None);
}

#[test]
fn clear_cancels_everything() {
    let config = load_config(None, &entries(&[("a + b", "c")])).unwrap();
    let mut buf = KeyBuffer::new(config);
    assert_eq!(buf.push(KeyCode::A, Action::Press), PushOutcome::Buffered);
    assert_eq!(buf.push(KeyCode::B, Action::Release), PushOutcome::Buffered);
    buf.clear();
    assert_eq!(buf.expire(), None);
}

#[test]
fn debounce_delay_is_configurable() {
    let config = load_config(Some(25), &entries(&[("a", "b")])).unwrap();
    let buf = KeyBuffer::new(config);
    assert_eq!(buf.delay_ms(), 25);

    let config = load_config(None, &entries(&[("a", "b")])).unwrap();
    let buf = KeyBuffer::new(config);
    assert_eq!(buf.delay_ms(), 3);
}
