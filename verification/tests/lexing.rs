use libnm::lexer::lex;

#[test]
fn lexer() {
    assert_eq!(
        lex("(sin (a b c) c d e (1 2 3) abcdefg)").unwrap(),
        vec![
            "(", "sin", "(", "a", "b", "c", ")", "c", "d", "e", "(", "1", "2", "3", ")",
            "abcdefg", ")"
        ]
        .iter()
        .map(|s| String::from(*s))
        .collect::<Vec<String>>()
    );

    assert_eq!(
        lex("(sin\n\n \n(a b \n\nc) c d \n\n\n\ne (1 \n2 3) \nabcdefg)").unwrap(),
        vec![
            "(", "sin", "(", "a", "b", "c", ")", "c", "d", "e", "(", "1", "2", "3", ")",
            "abcdefg", ")"
        ]
        .iter()
        .map(|s| String::from(*s))
        .collect::<Vec<String>>()
    );

    assert_eq!(
        lex("5 4 3 2 1").unwrap(),
        vec!["5", "4", "3", "2", "1"]
            .iter()
            .map(|s| String::from(*s))
            .collect::<Vec<String>>()
    );

    assert_eq!(
        lex("5 4(())) 3 2 1").unwrap(),
        vec!["5", "4", "(", "(", ")", ")", ")", "3", "2", "1"]
            .iter()
            .map(|s| String::from(*s))
            .collect::<Vec<String>>()
    );
}

#[test]
fn lexer_token_classes() {
    assert_eq!(
        lex("12.5 12 <= == foo \"a b\" ^-").unwrap(),
        vec!["12.5", "12", "<=", "==", "foo", "\"a b\"", "^-"]
            .iter()
            .map(|s| String::from(*s))
            .collect::<Vec<String>>()
    );
    // A float literal is digits, a dot, digits; a trailing dot is not part
    // of the number and lexes nothing.
    assert_eq!(lex("1.2.3").unwrap_err().at, 3);
}

#[test]
fn lexer_rejects_unknown_characters() {
    let e = lex("(a # b)").unwrap_err();
    assert_eq!(e.at, 3);
    assert!(lex("\"unterminated").is_err());
    assert!(lex("").unwrap().is_empty());
}

#[test]
fn lexer_idempotent_on_own_output() {
    // Re-tokenizing the emitted tokens joined by single spaces yields the
    // same token sequence.
    for text in [
        "(sin (a b c) c d e (1 2 3) abcdefg)",
        "(let (x 4) (* x 2.5)) \"a b\" <= ^ nil",
        "5 4(())) 3 2 1",
    ] {
        let toks = lex(text).unwrap();
        let joined = toks.join(" ");
        assert_eq!(lex(&joined).unwrap(), toks);
    }
}
