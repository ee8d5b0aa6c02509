use watchbind::keybindings::{
    default_raw, get_bound, merge_raw, parse_raw, parse_str, Command, Key, MoveCursor, Operation,
    ParseError, SelectOperation,
};

#[test]
fn parse_single_words() {
    assert_eq!(Operation::from_str("exit").unwrap(), Operation::Exit);
    assert_eq!(Operation::from_str("reload").unwrap(), Operation::Reload);
    assert_eq!(
        Operation::from_str("first").unwrap(),
        Operation::MoveCursor(MoveCursor::First)
    );
    assert_eq!(
        Operation::from_str("last").unwrap(),
        Operation::MoveCursor(MoveCursor::Last)
    );
    assert_eq!(
        Operation::from_str("select").unwrap(),
        Operation::SelectLine(SelectOperation::Select)
    );
    assert_eq!(
        Operation::from_str("unselect").unwrap(),
        Operation::SelectLine(SelectOperation::Unselect)
    );
    assert_eq!(
        Operation::from_str("select-toggle").unwrap(),
        Operation::SelectLine(SelectOperation::Toggle)
    );
    assert_eq!(
        Operation::from_str("select-all").unwrap(),
        Operation::SelectLine(SelectOperation::SelectAll)
    );
    assert_eq!(
        Operation::from_str("unselect-all").unwrap(),
        Operation::SelectLine(SelectOperation::UnselectAll)
    );
}

#[test]
fn parse_down_up_default_to_one_step() {
    assert_eq!(
        Operation::from_str("down").unwrap(),
        Operation::MoveCursor(MoveCursor::Down(1))
    );
    assert_eq!(
        Operation::from_str("up").unwrap(),
        Operation::MoveCursor(MoveCursor::Up(1))
    );
}

#[test]
fn parse_down_up_with_steps() {
    assert_eq!(
        Operation::from_str("down 3").unwrap(),
        Operation::MoveCursor(MoveCursor::Down(3))
    );
    assert_eq!(
        Operation::from_str("up 42").unwrap(),
        Operation::MoveCursor(MoveCursor::Up(42))
    );
    assert_eq!(
        Operation::from_str("down +7").unwrap(),
        Operation::MoveCursor(MoveCursor::Down(7))
    );
    assert_eq!(
        Operation::from_str("  down \t 3  ").unwrap(),
        Operation::MoveCursor(MoveCursor::Down(3))
    );
    assert_eq!(
        Operation::from_str("down 0").unwrap(),
        Operation::MoveCursor(MoveCursor::Down(0))
    );
    assert_eq!(
        Operation::from_str("down 007").unwrap(),
        Operation::MoveCursor(MoveCursor::Down(7))
    );
}

#[test]
fn parse_bad_steps_is_malformed_operation() {
    assert_eq!(
        Operation::from_str("down x").unwrap_err(),
        ParseError::MalformedOperation {
            token: "x".to_string(),
            src: "down x".to_string(),
        }
    );
    assert_eq!(
        Operation::from_str("up -1").unwrap_err(),
        ParseError::MalformedOperation {
            token: "-1".to_string(),
            src: "up -1".to_string(),
        }
    );
    // a value too large for the machine is rejected, not wrapped
    assert!(Operation::from_str("down 99999999999999999999999999").is_err());
    // a bare sign is not a number
    assert!(Operation::from_str("down +").is_err());
}

#[test]
fn parse_unmatched_text_is_a_command() {
    assert_eq!(
        Operation::from_str("echo hello").unwrap(),
        Operation::Execute(Command {
            command: "echo hello".to_string(),
            background: false,
        })
    );
    assert_eq!(
        Operation::from_str("make build &").unwrap(),
        Operation::Execute(Command {
            command: "make build &".to_string(),
            background: true,
        })
    );
    // the detaching `&` must be trailing; trailing whitespace after it is fine
    assert_eq!(
        Operation::from_str("make build & ").unwrap(),
        Operation::Execute(Command {
            command: "make build & ".to_string(),
            background: true,
        })
    );
    assert_eq!(
        Operation::from_str("grep a&b log").unwrap(),
        Operation::Execute(Command {
            command: "grep a&b log".to_string(),
            background: false,
        })
    );
    // one unknown word is a command too
    assert_eq!(
        Operation::from_str("downtown").unwrap(),
        Operation::Execute(Command {
            command: "downtown".to_string(),
            background: false,
        })
    );
    // the empty string is an (empty) command
    assert_eq!(
        Operation::from_str("").unwrap(),
        Operation::Execute(Command {
            command: "".to_string(),
            background: false,
        })
    );
    // three tokens never match the grammar
    assert_eq!(
        Operation::from_str("down 3 4").unwrap(),
        Operation::Execute(Command {
            command: "down 3 4".to_string(),
            background: false,
        })
    );
}

#[test]
fn parse_is_pure() {
    for spec in ["exit", "down 3", "echo hi &", "down x", ""] {
        assert_eq!(Operation::from_str(spec), Operation::from_str(spec));
    }
}

#[test]
fn parse_str_splits_on_first_colon() {
    let (key, ops) = parse_str("q:exit").unwrap();
    assert_eq!(key, "q");
    assert_eq!(ops, vec!["exit".to_string()]);

    let (key, ops) = parse_str("space: select-toggle + down ").unwrap();
    assert_eq!(key, "space");
    assert_eq!(ops, vec!["select-toggle".to_string(), "down".to_string()]);

    // only the first colon separates: the rest belongs to the operations
    let (key, ops) = parse_str("x:echo a:b").unwrap();
    assert_eq!(key, "x");
    assert_eq!(ops, vec!["echo a:b".to_string()]);

    // an empty right-hand side is one empty operation string
    let (key, ops) = parse_str("q:").unwrap();
    assert_eq!(key, "q");
    assert_eq!(ops, vec!["".to_string()]);
}

#[test]
fn parse_str_without_colon_is_malformed_binding() {
    assert_eq!(
        parse_str("just text").unwrap_err(),
        ParseError::MalformedBinding {
            line: "just text".to_string(),
        }
    );
}

#[test]
fn parse_raw_resolves_key_names() {
    let raw = vec![
        ("q".to_string(), vec!["exit".to_string()]),
        ("esc".to_string(), vec!["unselect-all".to_string()]),
        ("f5".to_string(), vec!["reload".to_string()]),
        ("space".to_string(), vec!["select-toggle".to_string()]),
        ("pagedown".to_string(), vec!["down 10".to_string()]),
    ];
    let table = parse_raw(raw).unwrap();
    assert_eq!(table[0].0, Key::Char('q'));
    assert_eq!(table[1].0, Key::Esc);
    assert_eq!(table[2].0, Key::F(5));
    assert_eq!(table[3].0, Key::Char(' '));
    assert_eq!(table[4].0, Key::PageDown);
    assert_eq!(table[0].1, vec![Operation::Exit]);
    assert_eq!(
        table[4].1,
        vec![Operation::MoveCursor(MoveCursor::Down(10))]
    );
}

#[test]
fn parse_raw_rejects_unknown_key() {
    let raw = vec![("notakey".to_string(), vec!["exit".to_string()])];
    assert_eq!(
        parse_raw(raw).unwrap_err(),
        ParseError::UnknownKey {
            key: "notakey".to_string(),
        }
    );
}

#[test]
fn parse_raw_rejects_malformed_operation() {
    let raw = vec![("q".to_string(), vec!["down ten".to_string()])];
    assert_eq!(
        parse_raw(raw).unwrap_err(),
        ParseError::MalformedOperation {
            token: "ten".to_string(),
            src: "down ten".to_string(),
        }
    );
}

#[test]
fn merge_raw_prefers_new_bindings() {
    let old = vec![
        ("q".to_string(), vec!["exit".to_string()]),
        ("r".to_string(), vec!["reload".to_string()]),
    ];
    let new = vec![("q".to_string(), vec!["reload".to_string()])];
    let merged = merge_raw(new, old);
    let table = parse_raw(merged).unwrap();
    let ops = get_bound(&table, Key::Char('q')).unwrap();
    assert_eq!(*ops, vec![Operation::Reload]);
    let ops = get_bound(&table, Key::Char('r')).unwrap();
    assert_eq!(*ops, vec![Operation::Reload]);
    assert!(get_bound(&table, Key::Char('z')).is_none());
}

#[test]
fn default_raw_holds_the_builtin_bindings() {
    let raw = default_raw();
    assert_eq!(raw.len(), 11);
    assert_eq!(raw[0], ("q".to_string(), vec!["exit".to_string()]));
    assert_eq!(
        raw[2],
        (
            "space".to_string(),
            vec!["select-toggle".to_string(), "down".to_string()]
        )
    );
    let table = parse_raw(raw).unwrap();
    assert_eq!(
        *get_bound(&table, Key::Char('j')).unwrap(),
        vec![Operation::MoveCursor(MoveCursor::Down(1))]
    );
    assert_eq!(
        *get_bound(&table, Key::Char('G')).unwrap(),
        vec![Operation::MoveCursor(MoveCursor::Last)]
    );
    assert_eq!(
        *get_bound(&table, Key::Esc).unwrap(),
        vec![Operation::SelectLine(SelectOperation::UnselectAll)]
    );
}
