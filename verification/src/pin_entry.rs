use vstd::prelude::*;
use vstd::string::StringExecFns;

verus! {

/// The bytes that separate the words of a PIN entry: space, tab, line feed,
/// form feed and carriage return.
pub open spec fn is_ascii_whitespace(b: u8) -> bool {
    b == 0x20u8 || b == 0x09u8 || b == 0x0Au8 || b == 0x0Cu8 || b == 0x0Du8
}

/// The words of `s`, in order: its maximal runs of bytes that are not ASCII
/// whitespace.
pub open spec fn words(s: Seq<u8>) -> Seq<Seq<u8>>
    decreases s.len(),
{
    if s.len() == 0 {
        Seq::empty()
    } else {
        let init = s.drop_last();
        let b = s.last();
        if is_ascii_whitespace(b) {
            words(init)
        } else if init.len() > 0 && !is_ascii_whitespace(init.last()) {
            let w = words(init);
            w.update(w.len() - 1, w.last().push(b))
        } else {
            words(init).push(seq![b])
        }
    }
}

/// Why a word is not a number from 0 to 255.
pub enum NumberError {
    /// The word is empty.
    Empty,
    /// The word holds a byte that is not a decimal digit where one is due.
    InvalidDigit,
    /// The number is above 255.
    PosOverflow,
}

pub open spec fn is_digit(b: u8) -> bool {
    0x30u8 <= b <= 0x39u8
}

/// The number that the decimal digits `d` write, read from the left; the
/// first byte that is no digit, or the first digit that takes the number
/// above 255, is the error.
pub open spec fn digits_value(d: Seq<u8>) -> Result<u8, NumberError>
    decreases d.len(),
{
    if d.len() == 0 {
        Ok(0u8)
    } else {
        match digits_value(d.drop_last()) {
            Err(e) => Err(e),
            Ok(v) => {
                let c = d.last();
                if !is_digit(c) {
                    Err(NumberError::InvalidDigit)
                } else if v * 10 + (c - 0x30u8) > 255 {
                    Err(NumberError::PosOverflow)
                } else {
                    Ok((v * 10 + (c - 0x30u8)) as u8)
                }
            },
        }
    }
}

/// The value of a word read as a `u8`: decimal digits, after an optional `+`.
pub open spec fn word_value(w: Seq<u8>) -> Result<u8, NumberError> {
    if w.len() == 0 {
        Err(NumberError::Empty)
    } else if w.len() == 1 && (w[0] == 0x2Bu8 || w[0] == 0x2Du8) {
        Err(NumberError::InvalidDigit)
    } else if w[0] == 0x2Bu8 {
        digits_value(w.drop_first())
    } else {
        digits_value(w)
    }
}

/// The values of the words `ws` in order, or the error of the first word
/// that has none.
pub open spec fn word_values(ws: Seq<Seq<u8>>) -> Result<Seq<u8>, NumberError>
    decreases ws.len(),
{
    if ws.len() == 0 {
        Ok(Seq::empty())
    } else {
        match word_values(ws.drop_last()) {
            Err(e) => Err(e),
            Ok(vs) => match word_value(ws.last()) {
                Err(e) => Err(e),
                Ok(v) => Ok(vs.push(v)),
            },
        }
    }
}

/// Why a line is no PIN.
pub enum PinEntryError {
    /// A word of the line is not a number from 0 to 255.
    Number(NumberError),
    /// The numbers are not four digits from 0 to 9.
    InvalidPin,
}

/// The PIN that `line` gives: its words must all be numbers, and there must
/// be four of them, each below 10.
pub open spec fn pin_entry(line: Seq<u8>) -> Result<Seq<u8>, PinEntryError> {
    match word_values(words(line)) {
        Err(e) => Err(PinEntryError::Number(e)),
        Ok(vs) => if vs.len() == 4 && (forall|i: int| 0 <= i < 4 ==> #[trigger] vs[i] < 10) {
            Ok(vs)
        } else {
            Err(PinEntryError::InvalidPin)
        },
    }
}

/// A line gives a PIN only as the four numbers it holds, each below 10; a
/// line of four numbers of which one is 10 or more gives `InvalidPin`, and a
/// line of another count of numbers gives `InvalidPin` too.
pub proof fn lemma_pin_is_four_digits(line: Seq<u8>)
    ensures
        pin_entry(line) matches Ok(pin) ==> {
            &&& word_values(words(line)) == Ok::<Seq<u8>, NumberError>(pin)
            &&& pin.len() == 4
            &&& forall|i: int| 0 <= i < 4 ==> #[trigger] pin[i] < 10
        },
        word_values(words(line)) matches Ok(vs) ==> ((exists|i: int|
            0 <= i < vs.len() && #[trigger] vs[i] >= 10) || vs.len() != 4)
            ==> pin_entry(line) == Err::<Seq<u8>, PinEntryError>(PinEntryError::InvalidPin),
        word_values(words(line)) matches Ok(vs) ==> (vs.len() == 4 && (forall|i: int|
            0 <= i < 4 ==> #[trigger] vs[i] < 10)) ==> pin_entry(line) == Ok::<
            Seq<u8>,
            PinEntryError,
        >(vs),
{
}

proof fn lemma_digits_error_persists(d: Seq<u8>, j: int, e: NumberError)
    requires
        0 <= j <= d.len(),
        digits_value(d.take(j)) == Err::<u8, NumberError>(e),
    ensures
        digits_value(d) == Err::<u8, NumberError>(e),
    decreases d.len() - j,
{
    if j < d.len() {
        assert(d.take(j + 1).drop_last() =~= d.take(j));
        lemma_digits_error_persists(d, j + 1, e);
    } else {
        assert(d.take(j) =~= d);
    }
}

proof fn lemma_word_values_error_persists(ws: Seq<Seq<u8>>, j: int, e: NumberError)
    requires
        0 <= j <= ws.len(),
        word_values(ws.take(j)) == Err::<Seq<u8>, NumberError>(e),
    ensures
        word_values(ws) == Err::<Seq<u8>, NumberError>(e),
    decreases ws.len() - j,
{
    if j < ws.len() {
        assert(ws.take(j + 1).drop_last() =~= ws.take(j));
        lemma_word_values_error_persists(ws, j + 1, e);
    } else {
        assert(ws.take(j) =~= ws);
    }
}

/// The value of the word `line[a..b]`, as `word_value` says.
fn parse_word(line: &[u8], a: usize, b: usize) -> (r: Result<u8, NumberError>)
    requires
        a <= b <= line@.len(),
    ensures
        r == word_value(line@.subrange(a as int, b as int)),
{
    let ghost w = line@.subrange(a as int, b as int);
    if a == b {
        return Err(NumberError::Empty);
    }
    let first = line[a];
    assert(w.len() == b - a && w[0] == first);
    if b - a == 1 && (first == 0x2Bu8 || first == 0x2Du8) {
        return Err(NumberError::InvalidDigit);
    }
    let ds: usize = if first == 0x2Bu8 { a + 1 } else { a };
    let ghost d = line@.subrange(ds as int, b as int);
    assert(first == 0x2Bu8 ==> d =~= w.drop_first());
    assert(first != 0x2Bu8 ==> d =~= w);
    let mut v: u8 = 0;
    let mut j: usize = ds;
    assert(d.take(0) =~= Seq::<u8>::empty());
    assert(word_value(w) == digits_value(d));
    while j < b
        invariant
            ds <= j <= b <= line@.len(),
            d == line@.subrange(ds as int, b as int),
            word_value(line@.subrange(a as int, b as int)) == digits_value(d),
            digits_value(d.take(j - ds)) == Ok::<u8, NumberError>(v),
        decreases b - j,
    {
        let c = line[j];
        let ghost k: int = j - ds;
        assert(d.take(k + 1).drop_last() =~= d.take(k));
        assert(d.take(k + 1).last() == c);
        if c < 0x30u8 || c > 0x39u8 {
            proof {
                lemma_digits_error_persists(d, k + 1, NumberError::InvalidDigit);
            }
            return Err(NumberError::InvalidDigit);
        }
        let next: u16 = (v as u16) * 10 + ((c - 0x30u8) as u16);
        if next > 255 {
            proof {
                lemma_digits_error_persists(d, k + 1, NumberError::PosOverflow);
            }
            return Err(NumberError::PosOverflow);
        }
        v = next as u8;
        j = j + 1;
    }
    assert(d.take(b - ds) =~= d);
    Ok(v)
}

/// The start and end of each word of `line`, in order.
fn word_bounds(line: &[u8]) -> (r: Vec<(usize, usize)>)
    ensures
        r@.len() == words(line@).len(),
        forall|k: int| 0 <= k < r@.len() ==> (#[trigger] r@[k]).0 < r@[k].1 <= line@.len(),
        forall|k: int|
            0 <= k < r@.len() ==> line@.subrange(r@[k].0 as int, r@[k].1 as int) == #[trigger] words(
                line@,
            )[k],
{
    let mut bounds: Vec<(usize, usize)> = Vec::new();
    let mut in_word = false;
    let mut start: usize = 0;
    let mut i: usize = 0;
    assert(line@.take(0) =~= Seq::<u8>::empty());
    while i < line.len()
        invariant
            i <= line@.len(),
            in_word ==> start < i,
            in_word <==> (i > 0 && !is_ascii_whitespace(line@[i - 1])),
            words(line@.take(i as int)).len() == bounds@.len() + (if in_word {
                1int
            } else {
                0int
            }),
            forall|k: int| 0 <= k < bounds@.len() ==> (#[trigger] bounds@[k]).0 < bounds@[k].1 <= i,
            forall|k: int|
                0 <= k < bounds@.len() ==> line@.subrange(bounds@[k].0 as int, bounds@[k].1 as int)
                    == #[trigger] words(line@.take(i as int))[k],
            in_word ==> words(line@.take(i as int)).last() == line@.subrange(
                start as int,
                i as int,
            ),
        decreases line@.len() - i,
    {
        let b = line[i];
        let ghost prev = line@.take(i as int);
        let ghost next = line@.take(i + 1);
        assert(next.drop_last() =~= prev);
        assert(next.last() == b);
        if i > 0 {
            assert(prev.last() == line@[i - 1]);
        }
        let ws = b == 0x20u8 || b == 0x09u8 || b == 0x0Au8 || b == 0x0Cu8 || b == 0x0Du8;
        if ws {
            assert(words(next) == words(prev));
            if in_word {
                bounds.push((start, i));
                in_word = false;
            }
        } else {
            if !in_word {
                assert(words(next) == words(prev).push(seq![b]));
                start = i;
                in_word = true;
            } else {
                assert(words(next) == words(prev).update(
                    words(prev).len() - 1,
                    words(prev).last().push(b),
                ));
            }
            assert(line@.subrange(start as int, i + 1) =~= line@.subrange(
                start as int,
                i as int,
            ).push(b));
        }
        i = i + 1;
    }
    assert(line@.take(i as int) =~= line@);
    if in_word {
        bounds.push((start, i));
    }
    bounds
}

/// Reads a PIN from a line of input: the words of the line are read as
/// numbers, and the PIN is those numbers where there are four, each a digit
/// from 0 to 9. The first word that is no number gives the error; four
/// numbers that are not all digits, or more or fewer than four, give
/// `InvalidPin`.
pub fn parse_pin_entry(line: &[u8]) -> (r: Result<[u8; 4], PinEntryError>)
    ensures
        match r {
            Ok(pin) => pin_entry(line@) == Ok::<Seq<u8>, PinEntryError>(pin@),
            Err(e) => pin_entry(line@) == Err::<Seq<u8>, PinEntryError>(e),
        },
        r matches Ok(pin) ==> {
            &&& word_values(words(line@)) == Ok::<Seq<u8>, NumberError>(pin@)
            &&& forall|i: int| 0 <= i < 4 ==> #[trigger] pin@[i] < 10
        },
        word_values(words(line@)) matches Ok(vs) ==> (vs.len() == 4 && (forall|i: int|
            0 <= i < 4 ==> #[trigger] vs[i] < 10) <==> r is Ok),
        word_values(words(line@)) matches Err(e) ==> r == Err::<[u8; 4], PinEntryError>(
            PinEntryError::Number(e),
        ),
{
    let bounds = word_bounds(line);
    let ghost ws = words(line@);
    let mut values: Vec<u8> = Vec::new();
    let mut k: usize = 0;
    assert(ws.take(0) =~= Seq::<Seq<u8>>::empty());
    while k < bounds.len()
        invariant
            k <= bounds@.len() == ws.len(),
            ws == words(line@),
            forall|m: int|
                0 <= m < bounds@.len() ==> (#[trigger] bounds@[m]).0 < bounds@[m].1 <= line@.len(),
            forall|m: int|
                0 <= m < bounds@.len() ==> line@.subrange(bounds@[m].0 as int, bounds@[m].1 as int)
                    == #[trigger] words(line@)[m],
            word_values(ws.take(k as int)) == Ok::<Seq<u8>, NumberError>(values@),
        decreases bounds@.len() - k,
    {
        let (a, b) = bounds[k];
        let ghost w = ws[k as int];
        assert(ws.take(k + 1).drop_last() =~= ws.take(k as int));
        assert(ws.take(k + 1).last() == w);
        match parse_word(line, a, b) {
            Err(e) => {
                proof {
                    lemma_word_values_error_persists(ws, k + 1, e);
                }
                return Err(PinEntryError::Number(e));
            },
            Ok(v) => {
                values.push(v);
            },
        }
        k = k + 1;
    }
    assert(ws.take(k as int) =~= ws);
    if values.len() == 4 && values[0] < 10 && values[1] < 10 && values[2] < 10 && values[3] < 10 {
        let pin = [values[0], values[1], values[2], values[3]];
        assert(pin@ =~= values@);
        Ok(pin)
    } else {
        assert(!(values@.len() == 4 && (forall|i: int| 0 <= i < 4 ==> #[trigger] values@[i] < 10)))
            by {
            if values@.len() == 4 {
                assert(!(values@[0] < 10 && values@[1] < 10 && values@[2] < 10 && values@[3] < 10));
            }
        }
        Err(PinEntryError::InvalidPin)
    }
}

impl PinEntryError {
    /// The text that reports the error.
    pub fn message(&self) -> (s: String)
        ensures
            s@ == match self {
                PinEntryError::Number(NumberError::Empty) => "cannot parse integer from empty string"@,
                PinEntryError::Number(NumberError::InvalidDigit) => "invalid digit found in string"@,
                PinEntryError::Number(NumberError::PosOverflow) => "number too large to fit in target type"@,
                PinEntryError::InvalidPin => "invalid pin"@,
            },
    {
        match self {
            PinEntryError::Number(NumberError::Empty) => String::from_str(
                "cannot parse integer from empty string",
            ),
            PinEntryError::Number(NumberError::InvalidDigit) => String::from_str(
                "invalid digit found in string",
            ),
            PinEntryError::Number(NumberError::PosOverflow) => String::from_str(
                "number too large to fit in target type",
            ),
            PinEntryError::InvalidPin => String::from_str("invalid pin"),
        }
    }
}

} // verus!
