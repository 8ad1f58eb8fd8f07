use keyremap::config::config_processor::{action_to_events, get_action};
use keyremap::config::parser::{Expr, KeyExpr, WaitExpr};
use keyremap::config::load_config;
use keyremap::key_buffer::{Action, Event};
use keyremap::keys::KeyCode;

fn entries(pairs: &[(&str, &str)]) -> Vec<(String, String)> {
    pairs
        .iter()
        .map(|(k, v)| (k.to_string(), v.to_string()))
        .collect()
}

#[test]
fn test_config_parse() {
    let parsed_config = load_config(
        Some(5),
        &entries(&[
            (
                "leftmeta + leftshift  + F23",
                "leftctrl down + wait 500  + leftctrl up",
            ),
            ("a", "b"),
        ]),
    )
    .unwrap();

    assert_eq!(parsed_config.key_combinations.len(), 2);
    assert_eq!(parsed_config.delay_ms, Some(5));

    assert!(parsed_config.has_key(&Event {
        key: KeyCode::LeftShift,
        action: Action::Press
    }));
    assert!(parsed_config.has_key(&Event {
        key: KeyCode::LeftShift,
        action: Action::Release
    }));
    assert!(parsed_config.has_key(&Event {
        key: KeyCode::F23,
        action: Action::Press
    }));
    assert!(parsed_config.has_key(&Event {
        key: KeyCode::F23,
        action: Action::Release
    }));
    assert!(parsed_config.has_key(&Event {
        key: KeyCode::A,
        action: Action::Press
    }));
    assert!(parsed_config.has_key(&Event {
        key: KeyCode::A,
        action: Action::Release
    }));
    assert_eq!(
        parsed_config.has_key(&Event {
            key: KeyCode::F24,
            action: Action::Release
        }),
        false
    );
    println!("parsed {parsed_config:?}");
}

#[test]
fn test_config_processor() {
    let config = load_config(
        None,
        &entries(&[
            (
                "leftmeta + leftshift + F23",
                "leftctrl down + wait 500 + leftctrl up",
            ),
            ("a", "b"),
            ("n down", "b + c"),
        ]),
    )
    .unwrap();

    let deq = vec![
        Event { key: KeyCode::LeftMeta, action: Action::Press },
        Event { key: KeyCode::LeftShift, action: Action::Press },
        Event { key: KeyCode::F23, action: Action::Press },
        Event { key: KeyCode::LeftMeta, action: Action::Release },
        Event { key: KeyCode::LeftShift, action: Action::Release },
        Event { key: KeyCode::F23, action: Action::Release },
    ];
    let action = get_action(&deq, &config.key_combinations);
    assert_eq!(action.unwrap().len(), 3);

    let deq = vec![Event { key: KeyCode::LeftMeta, action: Action::Press }];
    let action = get_action(&deq, &config.key_combinations);
    assert!(action.is_none());

    let deq = vec![
        Event { key: KeyCode::A, action: Action::Press },
        Event { key: KeyCode::A, action: Action::Release },
    ];
    let action = get_action(&deq, &config.key_combinations);
    assert_eq!(action.unwrap().len(), 1);

    let deq = vec![Event { key: KeyCode::N, action: Action::Press }];
    let action = get_action(&deq, &config.key_combinations);
    assert_eq!(action.unwrap().len(), 2);

    // Some extra keys are present
    let deq = vec![
        Event { key: KeyCode::N, action: Action::Press },
        Event { key: KeyCode::A, action: Action::Release },
    ];
    let action = get_action(&deq, &config.key_combinations);
    assert_eq!(action.unwrap().len(), 2);

    // Some extra keys are present
    let deq = vec![
        Event { key: KeyCode::C, action: Action::Press },
        Event { key: KeyCode::A, action: Action::Release },
    ];
    let action = get_action(&deq, &config.key_combinations);
    assert!(action.is_none());
}

#[test]
fn test_action() {
    let combo = vec![Expr::Key(KeyExpr {
        key: KeyCode::A,
        action: Some(Action::Press),
    })];
    assert_eq!(
        action_to_events(&combo),
        vec![(
            0,
            Event {
                key: KeyCode::A,
                action: Action::Press
            }
        )]
    );
    let combo = vec![Expr::Key(KeyExpr {
        key: KeyCode::A,
        action: None,
    })];
    assert_eq!(
        action_to_events(&combo),
        vec![
            (
                0,
                Event {
                    key: KeyCode::A,
                    action: Action::Press
                }
            ),
            (
                0,
                Event {
                    key: KeyCode::A,
                    action: Action::Release
                }
            ),
        ]
    );

    let combo = vec![
        Expr::Key(KeyExpr {
            key: KeyCode::LeftControl,
            action: Some(Action::Press),
        }),
        Expr::Wait(WaitExpr { milliseconds: 500 }),
        Expr::Key(KeyExpr {
            key: KeyCode::LeftControl,
            action: Some(Action::Release),
        }),
    ];
    assert_eq!(
        action_to_events(&combo),
        vec![
            (
                0,
                Event {
                    key: KeyCode::LeftControl,
                    action: Action::Press
                }
            ),
            (
                500,
                Event {
                    key: KeyCode::LeftControl,
                    action: Action::Release
                }
            ),
        ]
    );
}

#[test]
fn expansion_delays_saturate() {
    let combo = vec![
        Expr::Wait(WaitExpr { milliseconds: i64::MAX as u64 }),
        Expr::Wait(WaitExpr { milliseconds: 5 }),
        Expr::Key(KeyExpr {
            key: KeyCode::A,
            action: Some(Action::Press),
        }),
    ];
    assert_eq!(
        action_to_events(&combo),
        vec![(
            i64::MAX,
            Event {
                key: KeyCode::A,
                action: Action::Press
            }
        )]
    );
}

#[test]
fn expansion_is_repeatable() {
    let combo = vec![
        Expr::Key(KeyExpr { key: KeyCode::B, action: None }),
        Expr::Wait(WaitExpr { milliseconds: 7 }),
        Expr::Key(KeyExpr { key: KeyCode::C, action: None }),
    ];
    let first = action_to_events(&combo);
    let second = action_to_events(&combo);
    assert_eq!(first, second);
    assert_eq!(first.len(), 4);
}

#[test]
fn load_config_rejects_bad_entries() {
    assert!(load_config(None, &entries(&[("nosuchkey", "b")])).is_err());
    assert!(load_config(None, &entries(&[("a", "nosuchkey")])).is_err());
    assert!(load_config(None, &entries(&[("a", "wait x")])).is_err());
    assert!(load_config(None, &entries(&[])).is_ok());
}
