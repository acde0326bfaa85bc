//! Text: decimal numerals, comparison, search and assembly.

use vstd::prelude::*;
use vstd::string::*;
use vstd::utf8::*;

verus! {

/// `String::push` appends one character.
pub assume_specification[ std::string::String::push ](s: &mut std::string::String, c: char)
    ensures
        final(s)@ == old(s)@.push(c),
;

/// An optional text by its characters.
pub open spec fn optional_chars(value: Option<String>) -> Option<Seq<char>> {
    match value {
        Some(chars) => Some(chars@),
        None => None,
    }
}

/// The characters of a text.
pub fn chars_of(text: &str) -> (result: Vec<char>)
    ensures
        result@ == text@,
{
    let mut result: Vec<char> = Vec::new();
    for c in iter: text.chars()
        invariant
            result@ == iter.seq().take(iter.index() as int),
            iter.seq() == text@,
    {
        result.push(c);
    }
    result
}

/// The length of a text in bytes of UTF-8.
pub open spec fn byte_length(chars: Seq<char>) -> nat {
    encode_utf8(chars).len()
}

/// Two texts one after the other have as many bytes as both together.
pub proof fn lemma_byte_length_concat(a: Seq<char>, b: Seq<char>)
    ensures
        byte_length(a + b) == byte_length(a) + byte_length(b),
    decreases a.len(),
{
    if a.len() == 0 {
        assert(a + b =~= b);
    } else {
        lemma_byte_length_concat(a.drop_first(), b);
        assert((a + b).drop_first() =~= a.drop_first() + b);
    }
}

/// The length of a text in bytes of UTF-8.
pub fn byte_len(text: &str) -> (result: usize)
    ensures
        result == byte_length(text@),
{
    text.as_bytes().len()
}

/// Whether two texts have the same characters.
pub fn same_text(a: &str, b: &str) -> (result: bool)
    ensures
        result == (a@ == b@),
{
    let left = a.as_bytes();
    let right = b.as_bytes();
    proof {
        encode_utf8_decode_utf8(a@);
        encode_utf8_decode_utf8(b@);
    }
    if left.len() != right.len() {
        return false;
    }
    let mut i: usize = 0;
    while i < left.len()
        invariant
            i <= left.len(),
            left@.len() == right@.len(),
            left@ == encode_utf8(a@),
            right@ == encode_utf8(b@),
            forall|k: int| 0 <= k < i ==> left@[k] == right@[k],
        decreases left.len() - i,
    {
        if left[i] != right[i] {
            return false;
        }
        i += 1;
    }
    assert(left@ =~= right@);
    true
}

/// The decimal digit of a value below ten.
pub open spec fn digit(value: int) -> char {
    (48 + value) as char
}

/// The decimal digits of a natural number, without leading zeros.
pub open spec fn digits(value: nat) -> Seq<char>
    decreases value,
{
    if value < 10 {
        seq![digit(value as int)]
    } else {
        digits(value / 10).push(digit((value % 10) as int))
    }
}

/// The decimal numeral of an integer.
pub open spec fn decimal(value: int) -> Seq<char> {
    if value < 0 {
        seq!['-'] + digits((-value) as nat)
    } else {
        digits(value as nat)
    }
}

/// The digits of a natural number have its value.
pub proof fn lemma_digits_value(value: nat)
    ensures
        digits(value).len() > 0,
        numeral_value(digits(value)) == value,
        forall|i: int| 0 <= i < digits(value).len() ==> is_digit(#[trigger] digits(value)[i]),
    decreases value,
{
    if value < 10 {
        assert(digits(value).drop_last() =~= Seq::<char>::empty());
        assert(numeral_value(Seq::<char>::empty()) == 0);
    } else {
        lemma_digits_value(value / 10);
        assert(digits(value).drop_last() =~= digits(value / 10));
    }
}

/// Different integers have different numerals.
pub proof fn lemma_decimal_injective(a: int, b: int)
    requires
        decimal(a) == decimal(b),
    ensures
        a == b,
{
    let x = (if a < 0 { -a } else { a }) as nat;
    let y = (if b < 0 { -b } else { b }) as nat;
    lemma_digits_value(x);
    lemma_digits_value(y);
    assert(is_digit(digits(x)[0]) && is_digit(digits(y)[0]));
    if a < 0 {
        assert(decimal(a)[0] == '-');
        assert(decimal(a).skip(1) =~= digits(x));
    }
    if b < 0 {
        assert(decimal(b)[0] == '-');
        assert(decimal(b).skip(1) =~= digits(y));
    }
}

/// Appends the decimal digits of a natural number.
fn push_digits(text: &mut String, value: u128)
    ensures
        final(text)@ == old(text)@ + digits(value as nat),
    decreases value,
{
    if value >= 10 {
        push_digits(text, value / 10);
    }
    let low: u8 = (value % 10) as u8;
    text.push((48 + low) as char);
}

/// The decimal numeral of an integer.
pub fn decimal_text(value: i128) -> (result: String)
    requires
        value > i128::MIN,
    ensures
        result@ == decimal(value as int),
{
    let mut text = String::new();
    if value < 0 {
        text.push('-');
        push_digits(&mut text, (-value) as u128);
    } else {
        push_digits(&mut text, value as u128);
    }
    text
}

/// Whether a character is a decimal digit.
pub open spec fn is_digit(c: char) -> bool {
    '0' <= c <= '9'
}

/// How many digits a text starts with.
pub open spec fn leading_digits(chars: Seq<char>) -> nat
    decreases chars.len(),
{
    if chars.len() > 0 && is_digit(chars[0]) {
        1 + leading_digits(chars.drop_first())
    } else {
        0
    }
}

/// The value of a sequence of digits.
pub open spec fn numeral_value(chars: Seq<char>) -> nat
    decreases chars.len(),
{
    if chars.len() == 0 {
        0
    } else {
        (numeral_value(chars.drop_last()) * 10 + (chars.last() as int - 48)) as nat
    }
}

/// Why a text is not the numeral of an unsigned 64-bit integer.
#[derive(Clone, Copy, PartialEq, Eq, Structural, Debug)]
pub enum NumeralFault {
    Empty,
    InvalidDigit,
    TooLarge,
}

impl NumeralFault {
    /// The fault in words.
    pub open spec fn words(self) -> Seq<char> {
        match self {
            NumeralFault::Empty => "cannot parse integer from empty string"@,
            NumeralFault::InvalidDigit => "invalid digit found in string"@,
            NumeralFault::TooLarge => "number too large to fit in target type"@,
        }
    }

    /// The fault in words.
    pub fn message(self) -> (result: String)
        ensures
            result@ == self.words(),
    {
        match self {
            NumeralFault::Empty => "cannot parse integer from empty string".to_owned(),
            NumeralFault::InvalidDigit => "invalid digit found in string".to_owned(),
            NumeralFault::TooLarge => "number too large to fit in target type".to_owned(),
        }
    }
}

/// A numeral without the plus sign that may stand before its first character.
pub open spec fn without_plus(chars: Seq<char>) -> Seq<char> {
    if chars.len() > 1 && chars[0] == '+' {
        chars.drop_first()
    } else {
        chars
    }
}

/// The unsigned integer that a text stands for. Digits that already exceed the
/// range are reported before a character behind them that is no digit.
pub open spec fn unsigned_numeral(chars: Seq<char>) -> Result<u64, NumeralFault> {
    let body = without_plus(chars);
    let run = body.take(leading_digits(body) as int);
    if chars.len() == 0 {
        Err(NumeralFault::Empty)
    } else if numeral_value(run) > u64::MAX {
        Err(NumeralFault::TooLarge)
    } else if run.len() < body.len() {
        Err(NumeralFault::InvalidDigit)
    } else {
        Ok(numeral_value(run) as u64)
    }
}

/// The run of leading digits is where the first other character stands.
pub proof fn lemma_leading_digits(chars: Seq<char>, count: int)
    requires
        0 <= count <= chars.len(),
        forall|k: int| 0 <= k < count ==> is_digit(#[trigger] chars[k]),
    ensures
        leading_digits(chars) >= count,
        leading_digits(chars) <= chars.len(),
        count == chars.len() || !is_digit(chars[count]) ==> leading_digits(chars) == count,
        forall|k: int| 0 <= k < leading_digits(chars) ==> is_digit(#[trigger] chars[k]),
    decreases chars.len(),
{
    if chars.len() > 0 && is_digit(chars[0]) {
        let rest = chars.drop_first();
        assert forall|k: int| 0 <= k < count - 1 implies is_digit(#[trigger] rest[k]) by {
            assert(is_digit(chars[k + 1]));
        }
        lemma_leading_digits(
            rest,
            if count > 0 {
                count - 1
            } else {
                0
            },
        );
        assert forall|k: int| 0 <= k < leading_digits(chars) implies is_digit(#[trigger] chars[k]) by {
            if k > 0 {
                assert(is_digit(rest[k - 1]));
            }
        }
    }
}

/// A longer run of digits is worth at least as much.
pub proof fn lemma_value_grows(chars: Seq<char>, count: int)
    requires
        0 <= count <= chars.len(),
        forall|k: int| 0 <= k < chars.len() ==> is_digit(#[trigger] chars[k]),
    ensures
        numeral_value(chars.take(count)) <= numeral_value(chars),
    decreases chars.len(),
{
    if count < chars.len() {
        let shorter = chars.drop_last();
        assert forall|k: int| 0 <= k < shorter.len() implies is_digit(#[trigger] shorter[k]) by {
            assert(is_digit(chars[k]));
        }
        lemma_value_grows(shorter, count);
        assert(shorter.take(count) =~= chars.take(count));
        assert(is_digit(chars[chars.len() - 1]));
    } else {
        assert(chars.take(count) =~= chars);
    }
}

/// The numeral of an integer is read as that integer.
pub proof fn law_numerals_are_read_back(value: u64)
    ensures
        unsigned_numeral(decimal(value as int)) == Ok::<u64, NumeralFault>(value),
{
    let chars = digits(value as nat);
    lemma_digits_value(value as nat);
    assert(is_digit(chars[0]));
    assert(without_plus(chars) == chars);
    lemma_leading_digits(chars, chars.len() as int);
    assert(chars.take(chars.len() as int) =~= chars);
}

/// Reads the numeral of an unsigned integer.
pub fn read_unsigned(chars: &[char]) -> (result: Result<u64, NumeralFault>)
    ensures
        result == unsigned_numeral(chars@),
{
    if chars.len() == 0 {
        return Err(NumeralFault::Empty);
    }
    let start: usize = if chars.len() > 1 && chars[0] == '+' {
        1
    } else {
        0
    };
    let ghost body = without_plus(chars@);
    let ghost total = leading_digits(body) as int;
    let ghost run = body.take(total);
    assert(body =~= chars@.skip(start as int));
    proof {
        lemma_leading_digits(body, 0);
    }
    let mut value: u64 = 0;
    let mut i: usize = start;
    assert(body.take(0) =~= Seq::<char>::empty());
    while i < chars.len()
        invariant
            start <= i <= chars.len(),
            chars@.len() > 0,
            body == chars@.skip(start as int),
            body == without_plus(chars@),
            total == leading_digits(body),
            i - start <= total <= body.len(),
            run == body.take(total),
            forall|k: int| 0 <= k < total ==> is_digit(#[trigger] body[k]),
            value == numeral_value(body.take(i - start)),
        decreases chars.len() - i,
    {
        let c = chars[i];
        let ghost done = i - start;
        assert(body[done] == c);
        if c < '0' || c > '9' {
            proof {
                assert(!is_digit(c));
                lemma_leading_digits(body, done);
            }
            return Err(NumeralFault::InvalidDigit);
        }
        proof {
            lemma_leading_digits(body, done);
            if done == total {
                lemma_leading_digits(body, done + 1);
            }
            assert(done < total);
            assert(body.take(done + 1).drop_last() =~= body.take(done));
            assert(run.take(done + 1) =~= body.take(done + 1));
            assert forall|k: int| 0 <= k < run.len() implies is_digit(#[trigger] run[k]) by {
                assert(is_digit(body[k]));
            }
            lemma_value_grows(run, done + 1);
        }
        let low: u64 = (c as u32 - 48) as u64;
        if value > (u64::MAX - low) / 10 {
            return Err(NumeralFault::TooLarge);
        }
        value = value * 10 + low;
        i += 1;
    }
    proof {
        lemma_leading_digits(body, i - start);
        assert(run =~= body);
    }
    Ok(value)
}

/// Whether `part` occurs in `chars`.
pub open spec fn occurs(chars: Seq<char>, part: Seq<char>) -> bool {
    exists|i: int|
        0 <= i <= chars.len() - part.len() && #[trigger] chars.subrange(i, i + part.len()) == part
}

/// Whether `part` occurs in `text`.
pub fn contains_text(text: &str, part: &str) -> (result: bool)
    ensures
        result == occurs(text@, part@),
{
    let chars = chars_of(text);
    let wanted = chars_of(part);
    if wanted.len() > chars.len() {
        return false;
    }
    let last: usize = chars.len() - wanted.len();
    let mut i: usize = 0;
    while i <= last
        invariant
            i <= last,
            last == chars.len() - wanted.len(),
            chars@ == text@,
            wanted@ == part@,
            forall|k: int|
                0 <= k < i ==> #[trigger] text@.subrange(k, k + part@.len()) != part@,
        decreases last - i,
    {
        let mut k: usize = 0;
        while k < wanted.len() && chars[i + k] == wanted[k]
            invariant
                k <= wanted.len(),
                i <= last,
                last == chars.len() - wanted.len(),
                forall|m: int| 0 <= m < k ==> chars@[i + m] == #[trigger] wanted@[m],
            decreases wanted.len() - k,
        {
            k += 1;
        }
        if k == wanted.len() {
            assert(text@.subrange(i as int, i + part@.len()) =~= part@);
            return true;
        }
        assert(text@.subrange(i as int, i + part@.len())[k as int] != part@[k as int]);
        if i == last {
            return false;
        }
        i += 1;
    }
    false
}

/// Whether `chars` ends with `part`.
pub open spec fn ends_with(chars: Seq<char>, part: Seq<char>) -> bool {
    part.len() <= chars.len() && chars.skip(chars.len() - part.len()) == part
}

/// `chars` without `part` at its end, where it ends so.
pub open spec fn without_suffix(chars: Seq<char>, part: Seq<char>) -> Option<Seq<char>> {
    if ends_with(chars, part) {
        Some(chars.take(chars.len() - part.len()))
    } else {
        None
    }
}

/// `text` without `suffix` at its end, where it ends so.
pub fn strip_suffix(text: &str, suffix: &str) -> (result: Option<String>)
    ensures
        match result {
            Some(base) => without_suffix(text@, suffix@) == Some(base@),
            None => without_suffix(text@, suffix@) is None,
        },
{
    let length = text.unicode_len();
    let cut = suffix.unicode_len();
    if cut > length {
        return None;
    }
    if !same_text(text.substring_char(length - cut, length), suffix) {
        assert(text@.subrange(length - cut, length as int) =~= text@.skip(length - cut));
        return None;
    }
    assert(text@.subrange(length - cut, length as int) =~= text@.skip(length - cut));
    assert(text@.subrange(0, length - cut) =~= text@.take(length - cut));
    Some(text.substring_char(0, length - cut).to_owned())
}

} // verus!
