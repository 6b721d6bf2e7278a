use std::num::IntErrorKind;
use typed_protocols::pin_entry::{parse_pin_entry, NumberError, PinEntryError};

fn parse(line: &str) -> Result<[u8; 4], PinEntryError> {
    parse_pin_entry(line.as_bytes())
}

/// What the standard library makes of the line, word by word.
fn by_std(line: &str) -> Result<[u8; 4], PinEntryError> {
    let entries = line
        .split_ascii_whitespace()
        .map(|n| n.parse::<u8>())
        .collect::<Result<Vec<_>, _>>();
    match entries {
        Ok(e) => {
            if e.len() == 4 && e.iter().all(|n| *n < 10) {
                Ok([e[0], e[1], e[2], e[3]])
            } else {
                Err(PinEntryError::InvalidPin)
            }
        }
        Err(err) => Err(PinEntryError::Number(match err.kind() {
            IntErrorKind::Empty => NumberError::Empty,
            IntErrorKind::InvalidDigit => NumberError::InvalidDigit,
            IntErrorKind::PosOverflow => NumberError::PosOverflow,
            _ => panic!("no other kind for u8"),
        })),
    }
}

fn same(a: &Result<[u8; 4], PinEntryError>, b: &Result<[u8; 4], PinEntryError>) -> bool {
    match (a, b) {
        (Ok(x), Ok(y)) => x == y,
        (Err(PinEntryError::InvalidPin), Err(PinEntryError::InvalidPin)) => true,
        (Err(PinEntryError::Number(x)), Err(PinEntryError::Number(y))) => {
            matches!(
                (x, y),
                (NumberError::Empty, NumberError::Empty)
                    | (NumberError::InvalidDigit, NumberError::InvalidDigit)
                    | (NumberError::PosOverflow, NumberError::PosOverflow)
            )
        }
        _ => false,
    }
}

#[test]
fn four_digits_make_a_pin() {
    assert!(matches!(parse("1 2 3 4"), Ok([1, 2, 3, 4])));
    assert!(matches!(parse("1 2 3 4\n"), Ok([1, 2, 3, 4])));
    assert!(matches!(parse("  0\t9  8\r\n7 "), Ok([0, 9, 8, 7])));
    assert!(matches!(parse("+1 02 003 4"), Ok([1, 2, 3, 4])));
}

#[test]
fn wrong_count_or_large_numbers_are_invalid_pins() {
    assert!(matches!(parse(""), Err(PinEntryError::InvalidPin)));
    assert!(matches!(parse("   \n"), Err(PinEntryError::InvalidPin)));
    assert!(matches!(parse("1 2 3"), Err(PinEntryError::InvalidPin)));
    assert!(matches!(parse("1 2 3 4 5"), Err(PinEntryError::InvalidPin)));
    assert!(matches!(parse("1 2 3 10"), Err(PinEntryError::InvalidPin)));
    assert!(matches!(parse("12"), Err(PinEntryError::InvalidPin)));
    assert!(matches!(parse("1234"), Err(PinEntryError::Number(NumberError::PosOverflow))));
}

#[test]
fn words_that_are_no_numbers_are_reported() {
    assert!(matches!(parse("a 2 3 4"), Err(PinEntryError::Number(NumberError::InvalidDigit))));
    assert!(matches!(parse("1 2 3 -4"), Err(PinEntryError::Number(NumberError::InvalidDigit))));
    assert!(matches!(parse("+ 1 2 3"), Err(PinEntryError::Number(NumberError::InvalidDigit))));
    assert!(matches!(parse("1 2 3 256"), Err(PinEntryError::Number(NumberError::PosOverflow))));
    assert!(matches!(parse("999a"), Err(PinEntryError::Number(NumberError::PosOverflow))));
    assert!(matches!(parse("25a6"), Err(PinEntryError::Number(NumberError::InvalidDigit))));
    assert!(matches!(parse("1 x 300"), Err(PinEntryError::Number(NumberError::InvalidDigit))));
    assert!(matches!(parse("1 300 x"), Err(PinEntryError::Number(NumberError::PosOverflow))));
    assert!(matches!(parse("1 2 3 4\u{b}"), Err(PinEntryError::Number(NumberError::InvalidDigit))));
}

#[test]
fn agrees_with_the_standard_parser() {
    let lines = [
        "1 2 3 4", "", " ", "1", "0 0 0 0", "9 9 9 9", "9 9 9 10", "255 1 2 3", "256 1 2 3",
        "+", "-", "+0 +0 +0 +0", "++1 2 3 4", "1 2 3 4 x", "x 1 2 3 4", "1\t2\n3\r4",
        "1\u{c}2 3 4", "00000000000000000001 2 3 4", "1000 x", "é 1 2 3", "12 3 4 5",
        "1 2 3 4 ", "  1 2 3 4", "-0 1 2 3", "0 1 2 3\u{b}", "300", "25 5", "255",
    ];
    for line in lines.iter() {
        assert!(same(&parse(line), &by_std(line)), "differs on {:?}", line);
    }
}

#[test]
fn messages_match_the_reported_errors() {
    assert_eq!(PinEntryError::InvalidPin.message(), "invalid pin");
    assert_eq!(
        PinEntryError::Number(NumberError::InvalidDigit).message(),
        "a".parse::<u8>().unwrap_err().to_string()
    );
    assert_eq!(
        PinEntryError::Number(NumberError::PosOverflow).message(),
        "256".parse::<u8>().unwrap_err().to_string()
    );
    assert_eq!(
        PinEntryError::Number(NumberError::Empty).message(),
        "".parse::<u8>().unwrap_err().to_string()
    );
}
