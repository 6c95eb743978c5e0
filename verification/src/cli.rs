//! Terminal size as given on the command line: `COLSxROWS`.

use vstd::prelude::*;
use vstd::string::{StringExecFns, StringSliceAdditionalSpecFns};
use vstd::utf8::{encode_utf8, is_ascii_chars, is_ascii_chars_encode_utf8};
use crate::pty::Winsize;
use crate::text::{decimal_text, digit_char, lemma_decimal_text_digits, push_decimal};

verus! {

/// The byte that separates columns from rows.
pub const SEPARATOR: u8 = 120;

/// The byte of an optional leading plus sign.
pub const PLUS: u8 = 43;

/// Why a run of bytes is not a 16-bit unsigned decimal number.
#[derive(Clone, Copy, Debug, PartialEq, Eq)]
pub enum NumberError {
    /// There is nothing to read.
    Empty,
    /// A byte is not a decimal digit, or a sign stands alone.
    InvalidDigit,
    /// The digits spell a number above 65535.
    Overflow,
}

/// Why a text is not a terminal size.
#[derive(Clone, Copy, Debug, PartialEq, Eq)]
pub enum SizeError {
    /// There is no `x` between columns and rows.
    Format,
    /// What stands before the first `x` is not a number.
    Cols(NumberError),
    /// What stands after the first `x` is not a number.
    Rows(NumberError),
    /// Columns or rows are zero.
    Zero,
}

pub open spec fn is_digit(c: u8) -> bool {
    48 <= c <= 57
}

/// The number that a run of decimal digits spells.
pub open spec fn decimal_value(digits: Seq<u8>) -> nat
    decreases digits.len(),
{
    if digits.len() == 0 {
        0
    } else {
        decimal_value(digits.drop_last()) * 10 + (digits.last() - 48) as nat
    }
}

/// The length of the run of decimal digits that `s` starts with.
pub open spec fn digit_run(s: Seq<u8>) -> int
    decreases s.len(),
{
    if s.len() == 0 || !is_digit(s[0]) {
        0
    } else {
        1 + digit_run(s.skip(1))
    }
}

/// What `src` reads as: an optional plus sign, then one or more decimal
/// digits and nothing else, spelling a number of at most 65535. A leading run
/// of digits that is already too large is an overflow, whatever follows it.
pub open spec fn parse_number(src: Seq<u8>) -> Result<u16, NumberError> {
    if src.len() == 0 {
        Err(NumberError::Empty)
    } else {
        let digits = if src[0] == PLUS {
            src.skip(1)
        } else {
            src
        };
        let lead = digits.take(digit_run(digits));
        if digits.len() == 0 {
            Err(NumberError::InvalidDigit)
        } else if decimal_value(lead) > 0xffff {
            Err(NumberError::Overflow)
        } else if lead.len() < digits.len() {
            Err(NumberError::InvalidDigit)
        } else {
            Ok(decimal_value(lead) as u16)
        }
    }
}

/// `i` is where the first separator of `s` stands.
pub open spec fn is_first_separator(s: Seq<u8>, i: int) -> bool {
    &&& 0 <= i < s.len()
    &&& s[i] == SEPARATOR
    &&& forall|j: int| 0 <= j < i ==> s[j] != SEPARATOR
}

/// What the bytes of a text read as: columns before the first `x`, rows
/// after it, both positive.
pub open spec fn parse_size(s: Seq<u8>) -> Result<Winsize, SizeError> {
    if !exists|i: int| is_first_separator(s, i) {
        Err(SizeError::Format)
    } else {
        let i = choose|i: int| is_first_separator(s, i);
        match parse_number(s.take(i)) {
            Err(e) => Err(SizeError::Cols(e)),
            Ok(cols) => match parse_number(s.skip(i + 1)) {
                Err(e) => Err(SizeError::Rows(e)),
                Ok(rows) => if cols == 0 || rows == 0 {
                    Err(SizeError::Zero)
                } else {
                    Ok(Winsize { ws_row: rows, ws_col: cols })
                },
            },
        }
    }
}

/// The text of a size: columns, `x`, rows, in decimal.
pub open spec fn size_text(size: Winsize) -> Seq<char> {
    decimal_text(size.ws_col as nat) + seq!['x'] + decimal_text(size.ws_row as nat)
}

/// The digit run of `s` lies within `s`, holds only digits, and ends at the
/// first byte that is none.
pub proof fn lemma_digit_run(s: Seq<u8>)
    ensures
        0 <= digit_run(s) <= s.len(),
        forall|j: int| 0 <= j < digit_run(s) ==> is_digit(#[trigger] s[j]),
        digit_run(s) < s.len() ==> !is_digit(s[digit_run(s)]),
    decreases s.len(),
{
    if s.len() == 0 || !is_digit(s[0]) {
    } else {
        let t = s.skip(1);
        lemma_digit_run(t);
        assert forall|j: int| 0 <= j < digit_run(s) implies is_digit(#[trigger] s[j]) by {
            if j > 0 {
                assert(s[j] == t[j - 1]);
            }
        }
    }
}

/// A position that follows only digits and holds none, or the end, is where
/// the digit run ends.
pub proof fn lemma_digit_run_is(s: Seq<u8>, k: int)
    requires
        0 <= k <= s.len(),
        forall|j: int| 0 <= j < k ==> is_digit(#[trigger] s[j]),
        k < s.len() ==> !is_digit(s[k]),
    ensures
        digit_run(s) == k,
{
    lemma_digit_run(s);
    let r = digit_run(s);
    if r < k {
        assert(is_digit(s[r]));
    } else if k < r {
        assert(is_digit(s[k]));
    }
}

/// Reading more digits never spells a smaller number.
pub proof fn lemma_decimal_value_grows(digits: Seq<u8>, j: int, k: int)
    requires
        0 <= j <= k <= digits.len(),
        forall|i: int| 0 <= i < k ==> is_digit(#[trigger] digits[i]),
    ensures
        decimal_value(digits.take(j)) <= decimal_value(digits.take(k)),
    decreases k - j,
{
    if j < k {
        lemma_decimal_value_grows(digits, j, k - 1);
        assert(digits.take(k).drop_last() =~= digits.take(k - 1));
        assert(is_digit(digits[k - 1]));
    }
}

/// There is at most one first separator.
pub proof fn lemma_first_separator_unique(s: Seq<u8>, i: int, j: int)
    requires
        is_first_separator(s, i),
        is_first_separator(s, j),
    ensures
        i == j,
{
}

/// Reads a 16-bit unsigned decimal number.
pub fn parse_u16(src: &[u8]) -> (r: Result<u16, NumberError>)
    ensures
        r == parse_number(src@),
{
    let len = src.len();
    if len == 0 {
        return Err(NumberError::Empty);
    }
    let start: usize = if src[0] == PLUS {
        1
    } else {
        0
    };
    let ghost digits = src@.skip(start as int);
    proof {
        assert(src@.skip(0) =~= src@);
        assert(digits == if src@[0] == PLUS {
            src@.skip(1)
        } else {
            src@
        });
    }
    if start == len {
        return Err(NumberError::InvalidDigit);
    }
    let mut acc: u32 = 0;
    let mut i: usize = start;
    proof {
        assert(digits.take(0) =~= Seq::<u8>::empty());
    }
    while i < len
        invariant
            0 < len,
            start <= i <= len == src@.len(),
            digits == src@.skip(start as int),
            digits == if src@[0] == PLUS {
                src@.skip(1)
            } else {
                src@
            },
            forall|j: int| 0 <= j < i - start ==> is_digit(#[trigger] digits[j]),
            acc == decimal_value(digits.take(i - start)),
            acc <= 0xffff,
        decreases len - i,
    {
        let c: u8 = src[i];
        let ghost at = i - start;
        assert(digits[at] == c);
        if c < 48 || c > 57 {
            proof {
                lemma_digit_run_is(digits, at);
            }
            return Err(NumberError::InvalidDigit);
        }
        let v: u32 = acc * 10 + (c - 48) as u32;
        proof {
            assert(digits.take(at + 1).drop_last() =~= digits.take(at));
            assert(v == decimal_value(digits.take(at + 1)));
        }
        if v > 0xffff {
            proof {
                lemma_digit_run(digits);
                let run = digit_run(digits);
                if run <= at {
                    assert(is_digit(digits[run]));
                }
                lemma_decimal_value_grows(digits, at + 1, run);
            }
            return Err(NumberError::Overflow);
        }
        acc = v;
        i = i + 1;
    }
    proof {
        lemma_digit_run_is(digits, digits.len() as int);
        assert(digits.take(digits.len() as int) =~= digits);
    }
    Ok(acc as u16)
}

/// A terminal size: columns and rows, both positive.
#[derive(Clone, Copy, Debug, PartialEq, Eq)]
pub struct Size(Winsize);

impl View for Size {
    type V = Winsize;

    closed spec fn view(&self) -> Winsize {
        self.0
    }
}

impl Size {
    #[verifier::type_invariant]
    spec fn positive(self) -> bool {
        self.0.valid()
    }

    /// The size of the given dimensions; none where one of them is zero.
    pub fn new(cols: u16, rows: u16) -> (size: Option<Size>)
        ensures
            size is Some <==> cols > 0 && rows > 0,
            size matches Some(s) ==> s@ == (Winsize { ws_row: rows, ws_col: cols }),
    {
        if cols == 0 || rows == 0 {
            None
        } else {
            Some(Size(Winsize { ws_row: rows, ws_col: cols }))
        }
    }

    /// Number of columns.
    pub fn cols(&self) -> (n: usize)
        ensures
            n == self@.ws_col,
            n > 0,
    {
        proof {
            use_type_invariant(self);
        }
        self.0.ws_col as usize
    }

    /// Number of rows.
    pub fn rows(&self) -> (n: usize)
        ensures
            n == self@.ws_row,
            n > 0,
    {
        proof {
            use_type_invariant(self);
        }
        self.0.ws_row as usize
    }

    /// The dimensions as the operating system takes them.
    pub fn winsize(&self) -> (w: Winsize)
        ensures
            w == self@,
            w.valid(),
    {
        proof {
            use_type_invariant(self);
        }
        self.0
    }

    /// Reads a size from the bytes of a text.
    pub fn parse_bytes(s: &[u8]) -> (r: Result<Size, SizeError>)
        ensures
            match r {
                Ok(size) => parse_size(s@) == Ok::<Winsize, SizeError>(size@),
                Err(e) => parse_size(s@) == Err::<Winsize, SizeError>(e),
            },
    {
        let len = s.len();
        let mut i: usize = 0;
        while i < len && s[i] != SEPARATOR
            invariant
                i <= len == s@.len(),
                forall|j: int| 0 <= j < i ==> s@[j] != SEPARATOR,
            decreases len - i,
        {
            i = i + 1;
        }
        if i == len {
            return Err(SizeError::Format);
        }
        proof {
            assert(is_first_separator(s@, i as int));
            let chosen = choose|k: int| is_first_separator(s@, k);
            lemma_first_separator_unique(s@, i as int, chosen);
            assert(s@.subrange(0, i as int) =~= s@.take(i as int));
            assert(s@.subrange(i + 1, len as int) =~= s@.skip(i + 1));
        }
        let cols = match parse_u16(vstd::slice::slice_subrange(s, 0, i)) {
            Ok(n) => n,
            Err(e) => {
                return Err(SizeError::Cols(e));
            },
        };
        let rows = match parse_u16(vstd::slice::slice_subrange(s, i + 1, len)) {
            Ok(n) => n,
            Err(e) => {
                return Err(SizeError::Rows(e));
            },
        };
        if cols == 0 || rows == 0 {
            Err(SizeError::Zero)
        } else {
            Ok(Size(Winsize { ws_row: rows, ws_col: cols }))
        }
    }

    /// Reads a size from a text of the form `COLSxROWS`.
    pub fn parse(s: &str) -> (r: Result<Size, SizeError>)
        ensures
            match r {
                Ok(size) => parse_size(s.spec_bytes()) == Ok::<Winsize, SizeError>(size@),
                Err(e) => parse_size(s.spec_bytes()) == Err::<Winsize, SizeError>(e),
            },
    {
        Size::parse_bytes(s.as_bytes())
    }

    /// The size as text: columns, `x`, rows.
    pub fn to_string(&self) -> (text: String)
        ensures
            text@ == size_text(self@),
    {
        proof {
            reveal_strlit("x");
        }
        let mut out = String::new();
        push_decimal(&mut out, self.0.ws_col as u64);
        out.append("x");
        push_decimal(&mut out, self.0.ws_row as u64);
        proof {
            assert("x"@ =~= seq!['x']);
            assert(out@ =~= size_text(self@));
        }
        out
    }
}

impl core::str::FromStr for Size {
    type Err = SizeError;

    fn from_str(s: &str) -> (r: Result<Size, SizeError>)
        ensures
            match r {
                Ok(size) => parse_size(s.spec_bytes()) == Ok::<Winsize, SizeError>(size@),
                Err(e) => parse_size(s.spec_bytes()) == Err::<Winsize, SizeError>(e),
            },
    {
        Size::parse(s)
    }
}

impl SizeError {
    /// What to tell the user who wrote `input`.
    pub fn message(&self, input: &str) -> (text: String)
        ensures
            text@ == match *self {
                SizeError::Format => "invalid size format: "@ + input@,
                SizeError::Cols(e) | SizeError::Rows(e) => e.spec_message(),
                SizeError::Zero => "terminal size must be positive"@,
            },
    {
        match self {
            SizeError::Format => {
                let mut out = String::from_str("invalid size format: ");
                out.append(input);
                out
            },
            SizeError::Cols(e) => e.message(),
            SizeError::Rows(e) => e.message(),
            SizeError::Zero => String::from_str("terminal size must be positive"),
        }
    }
}

impl NumberError {
    pub open spec fn spec_message(self) -> Seq<char> {
        match self {
            NumberError::Empty => "cannot parse integer from empty string"@,
            NumberError::InvalidDigit => "invalid digit found in string"@,
            NumberError::Overflow => "number too large to fit in target type"@,
        }
    }

    /// The words of this failure.
    pub fn message(&self) -> (text: String)
        ensures
            text@ == self.spec_message(),
    {
        match self {
            NumberError::Empty => String::from_str("cannot parse integer from empty string"),
            NumberError::InvalidDigit => String::from_str("invalid digit found in string"),
            NumberError::Overflow => String::from_str("number too large to fit in target type"),
        }
    }
}

/// The bytes of a text of ASCII characters.
pub open spec fn ascii_bytes(text: Seq<char>) -> Seq<u8> {
    Seq::new(text.len(), |i: int| text[i] as u8)
}

/// The decimal text of a number is made of digit bytes, and spells the
/// number.
pub proof fn lemma_decimal_bytes(n: nat)
    ensures
        ascii_bytes(decimal_text(n)).len() >= 1,
        forall|i: int|
            0 <= i < ascii_bytes(decimal_text(n)).len() ==> is_digit(
                #[trigger] ascii_bytes(decimal_text(n))[i],
            ),
        decimal_value(ascii_bytes(decimal_text(n))) == n,
    decreases n,
{
    let bytes = ascii_bytes(decimal_text(n));
    lemma_decimal_text_digits(n);
    assert(digit_char(n % 10) as u8 == 48 + n % 10);
    if n < 10 {
        assert(bytes.drop_last() =~= Seq::<u8>::empty());
        assert(bytes.last() == 48 + n);
        assert(decimal_value(bytes.drop_last()) == 0);
        assert(decimal_value(bytes) == decimal_value(bytes.drop_last()) * 10 + (bytes.last()
            - 48) as nat);
    } else {
        lemma_decimal_bytes(n / 10);
        let front = ascii_bytes(decimal_text(n / 10));
        assert(bytes.drop_last() =~= front);
        assert(bytes.last() == 48 + n % 10);
        assert(decimal_value(bytes) == decimal_value(front) * 10 + (bytes.last() - 48) as nat);
        assert forall|i: int| 0 <= i < bytes.len() implies is_digit(#[trigger] bytes[i]) by {
            if i < bytes.len() - 1 {
                assert(bytes[i] == front[i]);
            }
        }
    }
}

/// A number of at most 65535 reads back from its decimal text.
pub proof fn lemma_number_round_trip(n: u16)
    ensures
        parse_number(ascii_bytes(decimal_text(n as nat))) == Ok::<u16, NumberError>(n),
{
    let bytes = ascii_bytes(decimal_text(n as nat));
    lemma_decimal_bytes(n as nat);
    lemma_digit_run_is(bytes, bytes.len() as int);
    assert(is_digit(bytes[0]));
    assert(bytes.take(bytes.len() as int) =~= bytes);
}

/// A size reads back from its text: whatever `to_string` writes, `parse`
/// reads as the same size.
pub proof fn lemma_size_round_trip(size: Winsize)
    requires
        size.valid(),
    ensures
        is_ascii_chars(size_text(size)),
        parse_size(encode_utf8(size_text(size))) == Ok::<Winsize, SizeError>(size),
{
    let cols = decimal_text(size.ws_col as nat);
    let rows = decimal_text(size.ws_row as nat);
    let text = size_text(size);
    lemma_decimal_text_digits(size.ws_col as nat);
    lemma_decimal_text_digits(size.ws_row as nat);
    assert(is_ascii_chars(text)) by {
        assert forall|i: int| 0 <= i < text.len() implies '\0' <= #[trigger] text[i]
            <= '\u{7f}' by {
            if i < cols.len() {
                assert(text[i] == cols[i]);
            } else if i > cols.len() {
                assert(text[i] == rows[i - cols.len() - 1]);
            }
        }
    }
    is_ascii_chars_encode_utf8(text);
    let bytes = encode_utf8(text);
    assert(bytes =~= ascii_bytes(text));
    let at = cols.len() as int;
    lemma_decimal_bytes(size.ws_col as nat);
    lemma_decimal_bytes(size.ws_row as nat);
    assert(bytes.take(at) =~= ascii_bytes(cols));
    assert(bytes.skip(at + 1) =~= ascii_bytes(rows));
    assert(bytes[at] == SEPARATOR);
    assert(is_first_separator(bytes, at)) by {
        assert forall|j: int| 0 <= j < at implies bytes[j] != SEPARATOR by {
            assert(bytes[j] == ascii_bytes(cols)[j]);
            assert(is_digit(ascii_bytes(cols)[j]));
        }
    }
    let chosen = choose|i: int| is_first_separator(bytes, i);
    lemma_first_separator_unique(bytes, at, chosen);
    lemma_number_round_trip(size.ws_col);
    lemma_number_round_trip(size.ws_row);
}

} // verus!
