use libnm::parser::{parse, ParseError};
use libnm::program::Item;

fn k_parse(s: &str) -> Option<u32> {
    s.parse::<f32>().ok().map(|f| f.to_bits())
}

fn toks(v: Vec<&str>) -> Vec<String> {
    v.iter().map(|s| String::from(*s)).collect()
}

fn parse_toks(v: Vec<&str>) -> Result<Item, ParseError> {
    let fp: fn(&str) -> Option<u32> = k_parse;
    parse(toks(v), &fp)
}

#[test]
fn nil_programs() {
    let prog = parse_toks(vec!["(", ")"]).unwrap();
    let open_close = match prog {
        Item::List(list_outer) => match list_outer.cdr().car() {
            Some(Item::List(list)) => list.cdr().car().is_none(),
            _ => false,
        },
        _ => false,
    };
    assert!(open_close);

    let prog2 = parse_toks(vec!["(", "nil", ")"]).unwrap();
    let nil = match prog2 {
        Item::List(list_outer) => match list_outer.cdr().car() {
            Some(Item::List(list)) => matches!(list.car(), Some(Item::Nil)),
            _ => false,
        },
        _ => false,
    };
    assert!(nil);

    let prog2 = parse_toks(vec!["(", "nil", "nil", ")"]).unwrap();
    let first_nil = match prog2 {
        Item::List(list_outer) => match list_outer.cdr().car() {
            Some(Item::List(list)) => matches!(list.car(), Some(Item::Nil)),
            _ => false,
        },
        _ => false,
    };
    assert!(first_nil);

    let prog3 = parse_toks(vec!["(", "nil", "(", "nil", ")", ")"]).unwrap();
    let nested_nil = match prog3 {
        Item::List(list_outer) => match list_outer.cdr().car() {
            Some(Item::List(list)) => {
                let first = matches!(list.car(), Some(Item::Nil));
                let second = matches!(list.cdr().car(), Some(Item::List(_)));
                first && second
            },
            _ => false,
        },
        _ => false,
    };
    assert!(nested_nil);
}

#[test]
fn number_programs() {
    let prog = parse_toks(vec!["(", "4.3", "(", "5", ")", ")"]).unwrap();
    let nested_numbers = match prog {
        Item::List(list_outer) => match list_outer.cdr().car() {
            Some(Item::List(list)) => {
                let first = match list.car() {
                    Some(Item::Float(bits)) => (f32::from_bits(*bits) - 4.3).abs() < 0.01,
                    _ => false,
                };
                let second = matches!(list.cdr().car(), Some(Item::List(_)));
                let third = match list.cdr().car() {
                    Some(Item::List(inner)) => matches!(inner.car(), Some(Item::Number(5))),
                    _ => false,
                };
                first && second && third
            },
            _ => false,
        },
        _ => false,
    };
    assert!(nested_numbers);

    let prog2 = parse_toks(vec!["(", "56.2", "43.8", ")"]).unwrap();
    let floats = match prog2 {
        Item::List(list_outer) => match list_outer.cdr().car() {
            Some(Item::List(list)) => {
                let first_match = match list.car() {
                    Some(Item::Float(bits)) => (56.2 - f32::from_bits(*bits)).abs() < 0.001,
                    _ => false,
                };
                let second_match = match list.cdr().car() {
                    Some(Item::Float(bits)) => (43.8 - f32::from_bits(*bits)).abs() < 0.001,
                    _ => false,
                };
                first_match && second_match
            },
            _ => false,
        },
        _ => false,
    };
    assert!(floats);
}

#[test]
fn parse_atoms() {
    let prog = parse_toks(vec!["true", "false", "nil", "\"hi\"", "x1", "-7"]).unwrap();
    match prog {
        Item::List(forms) => {
            let forms = forms.cdr();
            assert!(matches!(forms.car(), Some(Item::Boolean(true))));
            let forms = forms.cdr();
            assert!(matches!(forms.car(), Some(Item::Boolean(false))));
            let forms = forms.cdr();
            assert!(matches!(forms.car(), Some(Item::Nil)));
            let forms = forms.cdr();
            match forms.car() {
                Some(Item::String(s)) => assert_eq!(s.as_str(), "hi"),
                _ => panic!("expected a string"),
            }
            let forms = forms.cdr();
            match forms.car() {
                Some(Item::Identifier(s)) => assert_eq!(s.as_str(), "x1"),
                _ => panic!("expected an identifier"),
            }
            let forms = forms.cdr();
            assert!(matches!(forms.car(), Some(Item::Number(-7))));
        },
        _ => panic!("expected a list"),
    }
}

#[test]
fn parse_rejects_mismatched_parens() {
    assert!(matches!(
        parse_toks(vec!["(", "a"]),
        Err(ParseError::UnmatchedOpen)
    ));
    assert!(matches!(
        parse_toks(vec!["a", ")"]),
        Err(ParseError::UnmatchedClose)
    ));
    assert!(matches!(
        parse_toks(vec!["(", "(", ")"]),
        Err(ParseError::UnmatchedOpen)
    ));
    assert!(parse_toks(vec!["(", ")", ")"]).is_err());
}

#[test]
fn parse_int_range() {
    let prog = parse_toks(vec!["2147483647", "2147483648"]).unwrap();
    match prog {
        Item::List(forms) => {
            let forms = forms.cdr();
            assert!(matches!(forms.car(), Some(Item::Number(2147483647))));
            // Out of 32-bit range: not an integer literal, and being made of
            // digits it is no other class either, so it reads back as an
            // identifier.
            let forms = forms.cdr();
            match forms.car() {
                Some(Item::Identifier(s)) => assert_eq!(s.as_str(), "2147483648"),
                _ => panic!("expected an identifier"),
            }
        },
        _ => panic!("expected a list"),
    }
}
