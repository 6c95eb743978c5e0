//! Terminal sizes as text.

use ht_core::cli::{parse_u16, NumberError, SizeError};
use ht_core::pty::Winsize;
use ht_core::text::decimal;
use ht_core::Size;

#[test]
fn a_size_is_columns_then_rows() {
    let size = Size::parse("120x40").unwrap();
    assert_eq!(size.cols(), 120);
    assert_eq!(size.rows(), 40);
    assert_eq!(size.winsize(), Winsize { ws_row: 40, ws_col: 120 });
    assert_eq!(size.to_string(), "120x40");

    let size: Size = "80x24".parse().unwrap();
    assert_eq!((size.cols(), size.rows()), (80, 24));
    assert_eq!(Size::parse("1x1").unwrap().to_string(), "1x1");
    assert_eq!(Size::parse("65535x65535").unwrap().cols(), 65535);
    assert_eq!(Size::parse("+80x+24").unwrap().to_string(), "80x24");
    assert_eq!(Size::parse("0080x024").unwrap().to_string(), "80x24");
    assert_eq!(Size::parse_bytes(b"7x9").unwrap().to_string(), "7x9");
}

#[test]
fn a_size_needs_its_separator() {
    for text in ["", "80", "80,24", "80X24", "eighty", "80 24"] {
        assert_eq!(Size::parse(text), Err(SizeError::Format), "{:?}", text);
        assert_eq!(
            SizeError::Format.message(text),
            format!("invalid size format: {}", text)
        );
    }
}

#[test]
fn columns_and_rows_are_numbers() {
    assert_eq!(Size::parse("x24"), Err(SizeError::Cols(NumberError::Empty)));
    assert_eq!(Size::parse("80x"), Err(SizeError::Rows(NumberError::Empty)));
    assert_eq!(Size::parse("x"), Err(SizeError::Cols(NumberError::Empty)));
    assert_eq!(Size::parse("8ax24"), Err(SizeError::Cols(NumberError::InvalidDigit)));
    assert_eq!(Size::parse("80x2 4"), Err(SizeError::Rows(NumberError::InvalidDigit)));
    assert_eq!(Size::parse("-80x24"), Err(SizeError::Cols(NumberError::InvalidDigit)));
    assert_eq!(Size::parse("+x24"), Err(SizeError::Cols(NumberError::InvalidDigit)));
    assert_eq!(Size::parse(" 80x24"), Err(SizeError::Cols(NumberError::InvalidDigit)));
    assert_eq!(Size::parse("80x24x1"), Err(SizeError::Rows(NumberError::InvalidDigit)));
    assert_eq!(Size::parse("65536x24"), Err(SizeError::Cols(NumberError::Overflow)));
    assert_eq!(Size::parse("80x99999"), Err(SizeError::Rows(NumberError::Overflow)));
    // columns are read first
    assert_eq!(Size::parse("ax99999"), Err(SizeError::Cols(NumberError::InvalidDigit)));
}

#[test]
fn both_dimensions_are_positive() {
    assert_eq!(Size::parse("0x24"), Err(SizeError::Zero));
    assert_eq!(Size::parse("80x0"), Err(SizeError::Zero));
    assert_eq!(Size::parse("0x0"), Err(SizeError::Zero));
    assert_eq!(Size::parse("+0x1"), Err(SizeError::Zero));
    assert!(Size::new(0, 24).is_none());
    assert!(Size::new(80, 0).is_none());
    let size = Size::new(80, 24).unwrap();
    assert_eq!((size.cols(), size.rows()), (80, 24));
    assert_eq!(SizeError::Zero.message("0x0"), "terminal size must be positive");
}

#[test]
fn number_failures_have_their_words() {
    assert_eq!(NumberError::Empty.message(), "cannot parse integer from empty string");
    assert_eq!(NumberError::InvalidDigit.message(), "invalid digit found in string");
    assert_eq!(NumberError::Overflow.message(), "number too large to fit in target type");
    assert_eq!(
        SizeError::Cols(NumberError::Empty).message("x1"),
        "cannot parse integer from empty string"
    );
    assert_eq!(
        SizeError::Rows(NumberError::Overflow).message("1x70000"),
        "number too large to fit in target type"
    );
}

/// The reader takes exactly what the standard reader of `u16` takes, and
/// fails in the same way.
#[test]
fn numbers_read_as_the_standard_library_reads_them() {
    let samples = [
        "", "0", "1", "9", "10", "65535", "65536", "99999", "100000", "0000", "00001",
        "000000065535", "000000065536", "+", "-", "+0", "+5", "-5", "-0", "++5", "+-5", "5+",
        "12a", "a12", "1 2", " 12", "12 ", "1_000", "0x10", "9999x", "99999x", "65535x",
        "65536x", "6553a6", "655360000000000000000000a", "٣", "１２", "1.5", "\n1",
    ];
    for text in samples {
        let expected = match text.parse::<u16>() {
            Ok(n) => Ok(n),
            Err(e) => Err(match e.kind() {
                std::num::IntErrorKind::Empty => NumberError::Empty,
                std::num::IntErrorKind::InvalidDigit => NumberError::InvalidDigit,
                std::num::IntErrorKind::PosOverflow => NumberError::Overflow,
                other => panic!("unexpected kind {:?} for {:?}", other, text),
            }),
        };
        assert_eq!(parse_u16(text.as_bytes()), expected, "{:?}", text);
        if let Err(e) = text.parse::<u16>() {
            assert_eq!(parse_u16(text.as_bytes()).unwrap_err().message(), e.to_string());
        }
    }
    for n in (0..=u16::MAX).step_by(257) {
        assert_eq!(parse_u16(n.to_string().as_bytes()), Ok(n));
    }
}

#[test]
fn sizes_read_back_as_written() {
    for (cols, rows) in [(1u16, 1u16), (80, 24), (120, 40), (65535, 1), (9, 65535), (100, 100)] {
        let size = Size::new(cols, rows).unwrap();
        let text = size.to_string();
        assert_eq!(text, format!("{}x{}", cols, rows));
        assert_eq!(Size::parse(&text), Ok(size));
    }
}

#[test]
fn decimal_text_is_the_usual_one() {
    for n in [0u64, 1, 9, 10, 11, 99, 100, 12345, 65535, 1_000_000, u64::MAX] {
        assert_eq!(decimal(n), n.to_string());
    }
}
