use keyremap::config::parser::{parse_expr, to_u_key, Expr, KeyExpr, WaitExpr};
use keyremap::key_buffer::Action;
use keyremap::keys::KeyCode;

#[test]
fn test_parser() {
    let exprs = parse_expr("Down leftctrl + Wait 500 + up leftctrl + wait 200 +      esc").unwrap();
    assert_eq!(
        exprs,
        vec![
            Expr::Key(KeyExpr {
                key: KeyCode::LeftControl,
                action: Some(Action::Press),
            }),
            Expr::Wait(WaitExpr { milliseconds: 500 }),
            Expr::Key(KeyExpr {
                key: KeyCode::LeftControl,
                action: Some(Action::Release),
            }),
            Expr::Wait(WaitExpr { milliseconds: 200 }),
            Expr::Key(KeyExpr {
                key: KeyCode::Esc,
                action: None,
            }),
        ]
    );

    let exprs = parse_expr("wait 1000 + up a + down b + c").unwrap();
    assert_eq!(
        exprs,
        vec![
            Expr::Wait(WaitExpr { milliseconds: 1000 }),
            Expr::Key(KeyExpr {
                key: KeyCode::A,
                action: Some(Action::Release),
            }),
            Expr::Key(KeyExpr {
                key: KeyCode::B,
                action: Some(Action::Press),
            }),
            Expr::Key(KeyExpr {
                key: KeyCode::C,
                action: None,
            }),
        ]
    );

    let exprs = parse_expr("esc").unwrap();
    assert_eq!(
        exprs,
        vec![Expr::Key(KeyExpr {
            key: KeyCode::Esc,
            action: None,
        })]
    );

    let exprs = parse_expr("down leftshift").unwrap();
    assert_eq!(
        exprs,
        vec![Expr::Key(KeyExpr {
            key: KeyCode::LeftShift,
            action: Some(Action::Press),
        })]
    );

    let exprs = parse_expr("wait 100000").unwrap();
    assert_eq!(
        exprs,
        vec![Expr::Wait(WaitExpr {
            milliseconds: 100_000
        })]
    );

    let exprs = parse_expr("wait 50").unwrap();
    assert_eq!(exprs, vec![Expr::Wait(WaitExpr { milliseconds: 50 })]);

    let inp = "Down leftctrl + Wait 500 + up leftctrl + wait 200 +      esc";
    let exprs = parse_expr(inp).unwrap();
    for e in exprs {
        println!("Expressions {e:?}");
    }
}

#[test]
fn parse_expr_rejects_bad_input() {
    // an unknown key name
    assert!(parse_expr("notakey").is_err());
    // three space-separated words in one segment
    assert!(parse_expr("up down a").is_err());
    // a word that is neither wait nor a direction
    assert!(parse_expr("hold a").is_err());
    // wait without a number, and with a bad number
    assert!(parse_expr("wait").is_err());
    assert!(parse_expr("wait abc").is_err());
    assert!(parse_expr("wait 12a").is_err());
    // a wait value too large for 64 bits
    assert!(parse_expr("wait 99999999999999999999999").is_err());
    // an empty segment between separators
    assert!(parse_expr("a + + b").is_err());
    // an empty input is one empty segment
    assert!(parse_expr("").is_err());
    // two spaces make an empty middle word
    assert!(parse_expr("wait  50").is_err());
}

#[test]
fn parse_expr_accepts_edge_cases() {
    // the largest value that fits
    let exprs = parse_expr("wait 18446744073709551615").unwrap();
    assert_eq!(
        exprs,
        vec![Expr::Wait(WaitExpr {
            milliseconds: u64::MAX
        })]
    );
    // case-insensitive names, extra surrounding whitespace
    let exprs = parse_expr("  LEFTMETA  ").unwrap();
    assert_eq!(
        exprs,
        vec![Expr::Key(KeyExpr {
            key: KeyCode::LeftMeta,
            action: None,
        })]
    );
    // function keys above twelve have names too
    let exprs = parse_expr("F23").unwrap();
    assert_eq!(
        exprs,
        vec![Expr::Key(KeyExpr {
            key: KeyCode::F23,
            action: None,
        })]
    );
}

#[test]
fn to_u_key_names() {
    assert_eq!(to_u_key("a"), Ok(KeyCode::A));
    assert_eq!(to_u_key("9"), Ok(KeyCode::_9));
    assert_eq!(to_u_key("esc"), Ok(KeyCode::Esc));
    assert_eq!(to_u_key("escape"), Ok(KeyCode::Esc));
    assert_eq!(to_u_key("lctrl"), Ok(KeyCode::LeftControl));
    assert_eq!(to_u_key("leftctrl"), Ok(KeyCode::LeftControl));
    assert_eq!(to_u_key("rightwin"), Ok(KeyCode::RightMeta));
    assert_eq!(to_u_key("scrolllock"), Ok(KeyCode::ScrollLock));
    assert_eq!(to_u_key("f1"), Ok(KeyCode::F1));
    assert_eq!(to_u_key("f12"), Ok(KeyCode::F12));
    assert_eq!(to_u_key("f23"), Ok(KeyCode::F23));
    assert_eq!(to_u_key("f24"), Ok(KeyCode::F24));
    // names are matched as written: the parser lowers before looking up
    assert!(to_u_key("A").is_err());
    assert!(to_u_key("f0").is_err());
    assert!(to_u_key("f25").is_err());
    assert!(to_u_key("f01").is_err());
    assert!(to_u_key("").is_err());
    assert!(to_u_key("printscreen").is_err());
}

#[test]
fn action_from_str_names() {
    assert_eq!(Action::from_str("up"), Ok(Action::Release));
    assert_eq!(Action::from_str("down"), Ok(Action::Press));
    assert!(Action::from_str("sideways").is_err());
    assert!(Action::from_str("").is_err());
}
