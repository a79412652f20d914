//! Reading a move from a line of text: the cell index as a decimal number,
//! and the words that end the program.
use vstd::prelude::*;

verus! {

/// Whether `c` has the Unicode `White_Space` property.
pub open spec fn is_white_space(c: char) -> bool {
    let u = c as u32;
    ||| 0x09 <= u <= 0x0d
    ||| u == 0x20
    ||| u == 0x85
    ||| u == 0xa0
    ||| u == 0x1680
    ||| 0x2000 <= u <= 0x200a
    ||| u == 0x2028
    ||| u == 0x2029
    ||| u == 0x202f
    ||| u == 0x205f
    ||| u == 0x3000
}

/// `s` without its leading white space.
pub open spec fn trim_start(s: Seq<char>) -> Seq<char>
    decreases s.len(),
{
    if s.len() > 0 && is_white_space(s[0]) {
        trim_start(s.drop_first())
    } else {
        s
    }
}

/// `s` without its trailing white space.
pub open spec fn trim_end(s: Seq<char>) -> Seq<char>
    decreases s.len(),
{
    if s.len() > 0 && is_white_space(s.last()) {
        trim_end(s.drop_last())
    } else {
        s
    }
}

/// `s` without white space at either end.
pub open spec fn trimmed(s: Seq<char>) -> Seq<char> {
    trim_end(trim_start(s))
}

/// Relies on `str::trim`: the slice without leading and trailing characters
/// of the Unicode `White_Space` property.
#[verifier::external_body]
fn trim<'a>(s: &'a str) -> (r: &'a str)
    ensures
        r@ == trimmed(s@),
{
    s.trim()
}

/// Why a text is not a number.
#[derive(Clone, Copy, Debug, PartialEq, Eq, Structural)]
pub enum NumberError {
    /// The text is empty.
    Empty,
    /// The text holds a character that is not a decimal digit, or only a sign.
    InvalidDigit,
    /// The number does not fit in a `usize`.
    PosOverflow,
}

/// Whether `c` is one of the decimal digits `0` to `9`.
pub open spec fn is_decimal_digit(c: char) -> bool {
    '0' <= c <= '9'
}

/// The value of the decimal digit `c`.
pub open spec fn digit_value(c: char) -> nat {
    (c as u32 - '0' as u32) as nat
}

/// Reads `d` as decimal digits from left to right; the first character that
/// is not a digit, or the first digit that takes the value past `usize::MAX`,
/// ends it with an error.
pub open spec fn digits_value(d: Seq<char>) -> Result<usize, NumberError>
    decreases d.len(),
{
    if d.len() == 0 {
        Ok(0)
    } else {
        match digits_value(d.drop_last()) {
            Err(e) => Err(e),
            Ok(v) => if !is_decimal_digit(d.last()) {
                Err(NumberError::InvalidDigit)
            } else if v * 10 + digit_value(d.last()) > usize::MAX {
                Err(NumberError::PosOverflow)
            } else {
                Ok((v * 10 + digit_value(d.last())) as usize)
            },
        }
    }
}

/// The unsigned decimal number that `s` spells, with an optional leading `+`.
pub open spec fn parse_decimal(s: Seq<char>) -> Result<usize, NumberError> {
    if s.len() == 0 {
        Err(NumberError::Empty)
    } else if s[0] == '+' {
        if s.len() == 1 {
            Err(NumberError::InvalidDigit)
        } else {
            digits_value(s.drop_first())
        }
    } else {
        digits_value(s)
    }
}

/// Once a prefix of `d` fails to read, all of `d` fails with the same error.
proof fn lemma_error_persists(d: Seq<char>, k: int, n: int)
    requires
        0 <= k <= n <= d.len(),
        digits_value(d.subrange(0, k)) is Err,
    ensures
        digits_value(d.subrange(0, n)) == digits_value(d.subrange(0, k)),
    decreases n - k,
{
    if n > k {
        lemma_error_persists(d, k, n - 1);
        assert(d.subrange(0, n).drop_last() =~= d.subrange(0, n - 1));
    }
}

/// Reads the characters of `s` from `start` on as decimal digits.
fn read_digits(s: &str, start: usize) -> (r: Result<usize, NumberError>)
    requires
        start <= s@.len(),
    ensures
        r == digits_value(s@.subrange(start as int, s@.len() as int)),
{
    let n = s.unicode_len();
    let ghost d = s@.subrange(start as int, n as int);
    let mut acc: usize = 0;
    let mut i: usize = start;
    assert(d.subrange(0, 0) =~= Seq::<char>::empty());
    while i < n
        invariant
            n == s@.len(),
            start <= i <= n,
            d == s@.subrange(start as int, n as int),
            digits_value(d.subrange(0, i - start)) == Ok::<usize, NumberError>(acc),
        decreases n - i,
    {
        let c = s.get_char(i);
        let ghost k = (i - start) as int;
        assert(d.subrange(0, k + 1).drop_last() =~= d.subrange(0, k));
        assert(d.subrange(0, k + 1).last() == c);
        if !('0' <= c && c <= '9') {
            proof {
                lemma_error_persists(d, k + 1, d.len() as int);
                assert(d.subrange(0, d.len() as int) =~= d);
            }
            return Err(NumberError::InvalidDigit);
        }
        let v = (c as u32 - '0' as u32) as usize;
        let next = match acc.checked_mul(10) {
            Some(m) => m.checked_add(v),
            None => None,
        };
        match next {
            Some(x) => {
                acc = x;
            },
            None => {
                proof {
                    lemma_error_persists(d, k + 1, d.len() as int);
                    assert(d.subrange(0, d.len() as int) =~= d);
                }
                return Err(NumberError::PosOverflow);
            },
        }
        i = i + 1;
    }
    assert(d.subrange(0, d.len() as int) =~= d);
    Ok(acc)
}

/// The unsigned decimal number that `s` spells, with an optional leading `+`
/// and no white space.
pub fn parse_index(s: &str) -> (r: Result<usize, NumberError>)
    ensures
        r == parse_decimal(s@),
{
    let n = s.unicode_len();
    if n == 0 {
        return Err(NumberError::Empty);
    }
    if s.get_char(0) == '+' {
        if n == 1 {
            return Err(NumberError::InvalidDigit);
        }
        assert(s@.drop_first() =~= s@.subrange(1, n as int));
        read_digits(s, 1)
    } else {
        assert(s@ =~= s@.subrange(0, n as int));
        read_digits(s, 0)
    }
}

/// The cell index that a line of input spells: a decimal number with white
/// space allowed around it.
pub fn get_number(input: String) -> (r: Result<usize, NumberError>)
    ensures
        r == parse_decimal(trimmed(input@)),
{
    parse_index(trim(input.as_str()))
}

/// Whether `a` and `b` hold the same characters.
fn same_text(a: &str, b: &str) -> (r: bool)
    ensures
        r == (a@ == b@),
{
    let n = a.unicode_len();
    if n != b.unicode_len() {
        return false;
    }
    let mut i: usize = 0;
    while i < n
        invariant
            n == a@.len(),
            n == b@.len(),
            i <= n,
            forall|j: int| 0 <= j < i ==> a@[j] == b@[j],
        decreases n - i,
    {
        if a.get_char(i) != b.get_char(i) {
            return false;
        }
        i = i + 1;
    }
    assert(a@ =~= b@);
    true
}

/// Whether a line of input asks to end the program: `quit` or `exit`, with
/// white space allowed around it.
pub fn is_exit_command(input: &str) -> (r: bool)
    ensures
        r == (trimmed(input@) == "quit"@ || trimmed(input@) == "exit"@),
{
    let word = trim(input);
    same_text(word, "quit") || same_text(word, "exit")
}

} // verus!
