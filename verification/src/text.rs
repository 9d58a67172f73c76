//! Plain-text building blocks: character access, separator-delimited fields
//! and signed decimal integers.

use vstd::prelude::*;
use vstd::string::StringExecFns;

verus! {

/// The characters of `s`, in order.
pub fn chars_of(s: &str) -> (out: Vec<char>)
    ensures
        out@ == s@,
{
    let mut out: Vec<char> = Vec::new();
    for c in it: s.chars()
        invariant
            out@ == it.seq().take(it.index() as int),
            it.seq() == s@,
    {
        out.push(c);
    }
    out
}

/// Whether two character vectors hold the same text.
pub fn same_chars(a: &Vec<char>, b: &Vec<char>) -> (same: bool)
    ensures
        same == (a@ == b@),
{
    if a.len() != b.len() {
        return false;
    }
    let mut i: usize = 0;
    while i < a.len()
        invariant
            i <= a.len(),
            a.len() == b.len(),
            a@.take(i as int) == b@.take(i as int),
        decreases a.len() - i,
    {
        if a[i] != b[i] {
            return false;
        }
        proof {
            assert(a@.take(i + 1) =~= a@.take(i as int).push(a@[i as int]));
            assert(b@.take(i + 1) =~= b@.take(i as int).push(b@[i as int]));
        }
        i += 1;
    }
    proof {
        assert(a@.take(a.len() as int) =~= a@);
        assert(b@.take(b.len() as int) =~= b@);
    }
    true
}

/// Whether two strings hold the same text.
pub fn same_text(a: &str, b: &str) -> (same: bool)
    ensures
        same == (a@ == b@),
{
    let left: Vec<char> = chars_of(a);
    let right: Vec<char> = chars_of(b);
    same_chars(&left, &right)
}

/// The fields of `text` that lie between occurrences of `sep`.
///
/// There is always at least one field; `n` separators give `n + 1` fields,
/// some of which may be empty.
pub open spec fn split(text: Seq<char>, sep: char) -> Seq<Seq<char>>
    decreases text.len(),
{
    if text.len() == 0 {
        seq![Seq::<char>::empty()]
    } else {
        let before = split(text.drop_last(), sep);
        if text.last() == sep {
            before.push(Seq::<char>::empty())
        } else {
            before.update(before.len() - 1, before.last().push(text.last()))
        }
    }
}

/// Fields glued back together with `sep` between neighbours.
pub open spec fn join(fields: Seq<Seq<char>>, sep: char) -> Seq<char>
    decreases fields.len(),
{
    if fields.len() == 0 {
        Seq::<char>::empty()
    } else if fields.len() == 1 {
        fields[0]
    } else {
        join(fields.drop_last(), sep).push(sep) + fields.last()
    }
}

/// How often `sep` occurs in `text`.
pub open spec fn count_of(text: Seq<char>, sep: char) -> nat
    decreases text.len(),
{
    if text.len() == 0 {
        0
    } else {
        count_of(text.drop_last(), sep) + if text.last() == sep {
            1nat
        } else {
            0nat
        }
    }
}

/// Splitting never yields an empty list, and no field holds the separator.
pub proof fn lemma_split_shape(text: Seq<char>, sep: char)
    ensures
        split(text, sep).len() == count_of(text, sep) + 1,
        forall|i: int| 0 <= i < split(text, sep).len() ==> !(#[trigger] split(text, sep)[i]).contains(sep),
    decreases text.len(),
{
    if text.len() == 0 {
        assert forall|i: int| 0 <= i < split(text, sep).len() implies !(#[trigger] split(
            text,
            sep,
        )[i]).contains(sep) by {
            assert(split(text, sep)[i] =~= Seq::<char>::empty());
        }
    } else {
        let before = split(text.drop_last(), sep);
        lemma_split_shape(text.drop_last(), sep);
        let now = split(text, sep);
        assert forall|i: int| 0 <= i < now.len() implies !(#[trigger] now[i]).contains(sep) by {
            if text.last() == sep {
                if i < before.len() {
                    assert(now[i] == before[i]);
                }
            } else {
                if i < before.len() - 1 {
                    assert(now[i] == before[i]);
                } else {
                    let field = before.last().push(text.last());
                    assert(now[i] == field);
                    if field.contains(sep) {
                        let k = choose|k: int| 0 <= k < field.len() && field[k] == sep;
                        assert(k < before.last().len());
                        assert(before.last()[k] == sep);
                        assert(before.last().contains(sep));
                    }
                }
            }
        }
    }
}

/// Joining the fields of a text with the separator gives the text back.
pub proof fn lemma_join_split(text: Seq<char>, sep: char)
    ensures
        join(split(text, sep), sep) == text,
    decreases text.len(),
{
    lemma_split_shape(text, sep);
    if text.len() == 0 {
        assert(split(text, sep)[0] =~= Seq::<char>::empty());
        assert(join(split(text, sep), sep) =~= text);
    } else {
        let init = text.drop_last();
        let before = split(init, sep);
        lemma_split_shape(init, sep);
        lemma_join_split(init, sep);
        let now = split(text, sep);
        if text.last() == sep {
            assert(now.drop_last() =~= before);
            assert(join(now, sep) =~= init.push(sep) + Seq::<char>::empty());
            assert(join(now, sep) =~= text);
        } else {
            let field = before.last().push(text.last());
            if before.len() == 1 {
                assert(join(before, sep) == before[0]);
                assert(join(now, sep) == field);
                assert(field =~= text);
            } else {
                assert(now.drop_last() =~= before.drop_last());
                assert(join(before, sep) == join(before.drop_last(), sep).push(sep)
                    + before.last());
                assert(join(now, sep) == join(before.drop_last(), sep).push(sep) + field);
                assert(join(now, sep) =~= (join(before.drop_last(), sep).push(sep)
                    + before.last()).push(text.last()));
                assert(join(now, sep) =~= text);
            }
        }
    }
}

/// Appending a separator-free field behind a separator adds exactly that field.
pub proof fn lemma_split_append_field(text: Seq<char>, field: Seq<char>, sep: char)
    requires
        !field.contains(sep),
    ensures
        split(text.push(sep) + field, sep) == split(text, sep).push(field),
    decreases field.len(),
{
    let whole = text.push(sep) + field;
    if field.len() == 0 {
        assert(whole =~= text.push(sep));
        assert(whole.drop_last() =~= text);
        assert(field =~= Seq::<char>::empty());
    } else {
        let shorter = field.drop_last();
        assert(!shorter.contains(sep)) by {
            if shorter.contains(sep) {
                let k = choose|k: int| 0 <= k < shorter.len() && shorter[k] == sep;
                assert(field[k] == sep);
            }
        }
        lemma_split_append_field(text, shorter, sep);
        assert(whole.drop_last() =~= text.push(sep) + shorter);
        assert(whole.last() == field.last());
        assert(field.last() != sep) by {
            assert(field[field.len() - 1] == field.last());
        }
        let before = split(text, sep).push(shorter);
        assert(before.update(before.len() - 1, before.last().push(field.last())) =~= split(
            text,
            sep,
        ).push(field)) by {
            assert(shorter.push(field.last()) =~= field);
        }
    }
}

/// Splitting a joined list of separator-free fields gives the fields back.
pub proof fn lemma_split_join(fields: Seq<Seq<char>>, sep: char)
    requires
        fields.len() >= 1,
        forall|i: int| 0 <= i < fields.len() ==> !(#[trigger] fields[i]).contains(sep),
    ensures
        split(join(fields, sep), sep) == fields,
    decreases fields.len(),
{
    if fields.len() == 1 {
        lemma_split_append_nothing(fields[0], sep);
        assert(split(join(fields, sep), sep) =~= fields);
    } else {
        let init = fields.drop_last();
        assert forall|i: int| 0 <= i < init.len() implies !(#[trigger] init[i]).contains(sep) by {
            assert(init[i] == fields[i]);
        }
        lemma_split_join(init, sep);
        lemma_split_append_field(join(init, sep), fields.last(), sep);
        assert(init.push(fields.last()) =~= fields);
    }
}

/// A text without the separator is its own single field.
pub proof fn lemma_split_append_nothing(field: Seq<char>, sep: char)
    requires
        !field.contains(sep),
    ensures
        split(field, sep) == seq![field],
    decreases field.len(),
{
    if field.len() == 0 {
        assert(field =~= Seq::<char>::empty());
    } else {
        let shorter = field.drop_last();
        assert(!shorter.contains(sep)) by {
            if shorter.contains(sep) {
                let k = choose|k: int| 0 <= k < shorter.len() && shorter[k] == sep;
                assert(field[k] == sep);
            }
        }
        lemma_split_append_nothing(shorter, sep);
        assert(field.last() != sep) by {
            assert(field[field.len() - 1] == field.last());
        }
        assert(shorter.push(field.last()) =~= field);
        assert(seq![shorter].update(0, field) =~= seq![field]);
    }
}

/// The text that each character vector holds.
pub open spec fn texts_of(fields: Seq<Vec<char>>) -> Seq<Seq<char>> {
    Seq::new(fields.len(), |i: int| fields[i]@)
}

/// Cuts `text` at every `sep`.
pub fn split_chars(text: &Vec<char>, sep: char) -> (fields: Vec<Vec<char>>)
    ensures
        texts_of(fields@) == split(text@, sep),
{
    let mut done: Vec<Vec<char>> = Vec::new();
    let mut current: Vec<char> = Vec::new();
    let mut i: usize = 0;
    while i < text.len()
        invariant
            i <= text.len(),
            texts_of(done@).push(current@) == split(text@.take(i as int), sep),
        decreases text.len() - i,
    {
        let c: char = text[i];
        proof {
            assert(text@.take(i + 1).drop_last() =~= text@.take(i as int));
            assert(text@.take(i + 1).last() == c);
        }
        if c == sep {
            let ghost before = texts_of(done@).push(current@);
            done.push(current);
            current = Vec::new();
            proof {
                assert(texts_of(done@) =~= before);
                assert(current@ =~= Seq::<char>::empty());
            }
        } else {
            let ghost before = texts_of(done@).push(current@);
            current.push(c);
            proof {
                assert(texts_of(done@).push(current@) =~= before.update(
                    before.len() - 1,
                    before.last().push(c),
                ));
            }
        }
        i += 1;
    }
    proof {
        assert(text@.take(text.len() as int) =~= text@);
    }
    let ghost before = texts_of(done@).push(current@);
    done.push(current);
    proof {
        assert(texts_of(done@) =~= before);
    }
    done
}

/// Why a text is not a signed decimal integer of 32 bits.
#[derive(Debug, Clone, Copy, PartialEq, Eq, Structural)]
pub enum DecimalError {
    /// Nothing to read.
    Empty,
    /// A character that is no decimal digit, or a sign with nothing behind it.
    InvalidDigit,
    /// The number lies above the largest value.
    PosOverflow,
    /// The number lies below the smallest value.
    NegOverflow,
}

/// Whether `c` is one of `0` to `9`.
pub open spec fn is_digit(c: char) -> bool {
    48 <= c as u32 <= 57
}

/// The number a decimal digit stands for.
pub open spec fn digit_value(c: char) -> int {
    (c as u32) as int - 48
}

/// Reads digits left to right into a running total: each step multiplies the
/// total by ten and moves it by the digit, away from zero in the direction of
/// the sign. The first character that is no digit, or the first step that
/// leaves the 32-bit range, ends the reading with its error.
pub open spec fn accumulate(digits: Seq<char>, negative: bool) -> Result<i32, DecimalError>
    decreases digits.len(),
{
    if digits.len() == 0 {
        Ok(0i32)
    } else {
        match accumulate(digits.drop_last(), negative) {
            Err(e) => Err(e),
            Ok(total) => {
                let c = digits.last();
                let next = if negative {
                    10 * total - digit_value(c)
                } else {
                    10 * total + digit_value(c)
                };
                if !is_digit(c) {
                    Err(DecimalError::InvalidDigit)
                } else if next > i32::MAX {
                    Err(DecimalError::PosOverflow)
                } else if next < i32::MIN {
                    Err(DecimalError::NegOverflow)
                } else {
                    Ok(next as i32)
                }
            },
        }
    }
}

/// The integer that `text` denotes: an optional `+` or `-`, then at least one
/// decimal digit and nothing else, with a value that fits 32 bits.
pub open spec fn spec_parse_i32(text: Seq<char>) -> Result<i32, DecimalError> {
    if text.len() == 0 {
        Err(DecimalError::Empty)
    } else if text.len() == 1 && (text[0] == '+' || text[0] == '-') {
        Err(DecimalError::InvalidDigit)
    } else if text[0] == '+' {
        accumulate(text.skip(1), false)
    } else if text[0] == '-' {
        accumulate(text.skip(1), true)
    } else {
        accumulate(text, false)
    }
}

/// Once a prefix has failed, the whole text fails in the same way.
pub proof fn lemma_accumulate_error_sticks(digits: Seq<char>, negative: bool, k: int)
    requires
        0 <= k <= digits.len(),
        accumulate(digits.take(k), negative) is Err,
    ensures
        accumulate(digits, negative) == accumulate(digits.take(k), negative),
    decreases digits.len() - k,
{
    if k == digits.len() {
        assert(digits.take(k) =~= digits);
    } else {
        assert(digits.take(k + 1).drop_last() =~= digits.take(k));
        lemma_accumulate_error_sticks(digits, negative, k + 1);
    }
}

/// Whether every character is a decimal digit.
pub open spec fn all_digits(digits: Seq<char>) -> bool {
    forall|i: int| 0 <= i < digits.len() ==> is_digit(#[trigger] digits[i])
}

/// The number that a string of decimal digits denotes.
pub open spec fn decimal_value(digits: Seq<char>) -> int
    decreases digits.len(),
{
    if digits.len() == 0 {
        0
    } else {
        10 * decimal_value(digits.drop_last()) + digit_value(digits.last())
    }
}

/// The number that digits behind a sign denote.
pub open spec fn signed_value(digits: Seq<char>, negative: bool) -> int {
    if negative {
        -decimal_value(digits)
    } else {
        decimal_value(digits)
    }
}

/// A string of digits denotes no negative number, and no smaller one than
/// any of its beginnings.
pub proof fn lemma_decimal_value_grows(digits: Seq<char>)
    requires
        all_digits(digits),
    ensures
        0 <= decimal_value(digits),
        digits.len() > 0 ==> decimal_value(digits.drop_last()) <= decimal_value(digits),
    decreases digits.len(),
{
    if digits.len() > 0 {
        assert(all_digits(digits.drop_last())) by {
            assert forall|i: int| 0 <= i < digits.drop_last().len() implies is_digit(
                #[trigger] digits.drop_last()[i],
            ) by {
                assert(digits.drop_last()[i] == digits[i]);
            }
        }
        lemma_decimal_value_grows(digits.drop_last());
        assert(is_digit(digits[digits.len() - 1]));
    }
}

/// What reading left to right comes to: it succeeds exactly on strings of
/// digits whose signed value fits 32 bits, and gives that value.
pub proof fn lemma_accumulate_meaning(digits: Seq<char>, negative: bool)
    ensures
        accumulate(digits, negative) is Ok <==> all_digits(digits) && i32::MIN <= signed_value(
            digits,
            negative,
        ) <= i32::MAX,
        accumulate(digits, negative) matches Ok(value) ==> value == signed_value(digits, negative),
    decreases digits.len(),
{
    if digits.len() > 0 {
        let shorter = digits.drop_last();
        lemma_accumulate_meaning(shorter, negative);
        if all_digits(digits) {
            lemma_decimal_value_grows(digits);
            assert(all_digits(shorter)) by {
                assert forall|i: int| 0 <= i < shorter.len() implies is_digit(
                    #[trigger] shorter[i],
                ) by {
                    assert(shorter[i] == digits[i]);
                }
            }
            lemma_decimal_value_grows(shorter);
            assert(is_digit(digits[digits.len() - 1]));
        } else {
            if all_digits(shorter) {
                assert(!is_digit(digits.last())) by {
                    if is_digit(digits.last()) {
                        assert forall|i: int| 0 <= i < digits.len() implies is_digit(
                            #[trigger] digits[i],
                        ) by {
                            if i < shorter.len() {
                                assert(shorter[i] == digits[i]);
                            }
                        }
                    }
                }
            }
        }
    }
}

/// A text without a minus sign in front that reads as a number reads as a
/// number that is not negative.
pub proof fn lemma_unsigned_text(text: Seq<char>)
    requires
        spec_parse_i32(text) is Ok,
        text.len() > 0 ==> text[0] != '-',
    ensures
        spec_parse_i32(text)->Ok_0 >= 0,
{
    if text[0] == '+' {
        lemma_accumulate_meaning(text.skip(1), false);
        lemma_decimal_value_grows(text.skip(1));
    } else {
        lemma_accumulate_meaning(text, false);
        lemma_decimal_value_grows(text);
    }
}

/// A text that reads as a number holds digits only, behind at most one sign:
/// in particular it holds no `other` character that is neither digit nor
/// sign.
pub proof fn lemma_number_text_chars(text: Seq<char>, other: char)
    requires
        spec_parse_i32(text) is Ok,
        !is_digit(other),
        other != '+',
        other != '-',
    ensures
        !text.contains(other),
{
    if text.contains(other) {
        let k = choose|k: int| 0 <= k < text.len() && text[k] == other;
        if text[0] == '+' || text[0] == '-' {
            let digits = text.skip(1);
            assert(digits[k - 1] == other);
            lemma_accumulate_ok_digits(digits, text[0] == '-', k - 1);
        } else {
            lemma_accumulate_ok_digits(text, false, k);
        }
    }
}

/// Where reading succeeds, every character read was a digit.
pub proof fn lemma_accumulate_ok_digits(digits: Seq<char>, negative: bool, k: int)
    requires
        accumulate(digits, negative) is Ok,
        0 <= k < digits.len(),
    ensures
        is_digit(digits[k]),
    decreases digits.len(),
{
    if k < digits.len() - 1 {
        lemma_accumulate_ok_digits(digits.drop_last(), negative, k);
    }
}

/// Reads a signed decimal integer of 32 bits.
pub fn parse_i32_chars(text: &Vec<char>) -> (r: Result<i32, DecimalError>)
    ensures
        r == spec_parse_i32(text@),
{
    let n: usize = text.len();
    if n == 0 {
        return Err(DecimalError::Empty);
    }
    let first: char = text[0];
    let signed: bool = first == '+' || first == '-';
    if n == 1 && signed {
        return Err(DecimalError::InvalidDigit);
    }
    let negative: bool = first == '-';
    let start: usize = if signed {
        1
    } else {
        0
    };
    let ghost digits: Seq<char> = text@.skip(start as int);
    proof {
        if !signed {
            assert(digits =~= text@);
        }
    }
    let mut total: i64 = 0;
    let mut i: usize = start;
    while i < n
        invariant
            start <= i <= n,
            n == text.len(),
            digits == text@.skip(start as int),
            i32::MIN <= total <= i32::MAX,
            spec_parse_i32(text@) == accumulate(digits, negative),
            accumulate(digits.take(i - start), negative) == Ok::<i32, DecimalError>(total as i32),
        decreases n - i,
    {
        let c: char = text[i];
        let code: u32 = c as u32;
        proof {
            assert(digits.take(i - start + 1).drop_last() =~= digits.take(i - start));
            assert(digits.take(i - start + 1).last() == c);
        }
        if code < 48 || code > 57 {
            proof {
                lemma_accumulate_error_sticks(digits, negative, i - start + 1);
            }
            return Err(DecimalError::InvalidDigit);
        }
        let digit: i64 = (code - 48) as i64;
        let next: i64 = if negative {
            10 * total - digit
        } else {
            10 * total + digit
        };
        if next > 2147483647 {
            proof {
                lemma_accumulate_error_sticks(digits, negative, i - start + 1);
            }
            return Err(DecimalError::PosOverflow);
        }
        if next < -2147483648 {
            proof {
                lemma_accumulate_error_sticks(digits, negative, i - start + 1);
            }
            return Err(DecimalError::NegOverflow);
        }
        total = next;
        i += 1;
    }
    proof {
        assert(digits.take(n - start) =~= digits);
    }
    Ok(total as i32)
}

/// Reads a signed decimal integer of 32 bits from a string.
pub fn parse_i32(text: &str) -> (r: Result<i32, DecimalError>)
    ensures
        r == spec_parse_i32(text@),
{
    let chars: Vec<char> = chars_of(text);
    parse_i32_chars(&chars)
}

impl DecimalError {
    /// The text shown for this error.
    pub open spec fn spec_to_string(self) -> Seq<char> {
        match self {
            DecimalError::Empty => "cannot parse integer from empty string"@,
            DecimalError::InvalidDigit => "invalid digit found in string"@,
            DecimalError::PosOverflow => "number too large to fit in target type"@,
            DecimalError::NegOverflow => "number too small to fit in target type"@,
        }
    }

    /// Renders the error for people.
    pub fn to_string(&self) -> (text: String)
        ensures
            text@ == self.spec_to_string(),
    {
        match self {
            DecimalError::Empty => String::from_str("cannot parse integer from empty string"),
            DecimalError::InvalidDigit => String::from_str("invalid digit found in string"),
            DecimalError::PosOverflow => String::from_str(
                "number too large to fit in target type",
            ),
            DecimalError::NegOverflow => String::from_str(
                "number too small to fit in target type",
            ),
        }
    }
}

/// Whether `text` ends with `suffix`.
pub open spec fn ends_with(text: Seq<char>, suffix: Seq<char>) -> bool {
    text.len() >= suffix.len() && text.skip(text.len() - suffix.len()) == suffix
}

/// `text` without every copy of `suffix` at its end. An empty suffix takes
/// nothing away.
pub open spec fn trim_end(text: Seq<char>, suffix: Seq<char>) -> Seq<char>
    decreases text.len(),
{
    if suffix.len() > 0 && ends_with(text, suffix) {
        trim_end(text.take(text.len() - suffix.len()), suffix)
    } else {
        text
    }
}

/// Whether the first `len` characters of `text` end with `suffix`.
pub fn prefix_ends_with(text: &Vec<char>, len: usize, suffix: &Vec<char>) -> (ends: bool)
    requires
        len <= text@.len(),
    ensures
        ends == ends_with(text@.take(len as int), suffix@),
{
    let width: usize = suffix.len();
    if len < width {
        return false;
    }
    let from: usize = len - width;
    let ghost tail: Seq<char> = text@.take(len as int).skip(from as int);
    let mut i: usize = 0;
    while i < width
        invariant
            i <= width,
            width == suffix@.len(),
            from + width == len,
            len <= text@.len(),
            tail == text@.take(len as int).skip(from as int),
            forall|k: int| 0 <= k < i ==> tail[k] == suffix@[k],
        decreases width - i,
    {
        if text[from + i] != suffix[i] {
            proof {
                assert(tail[i as int] == text@[from + i]);
            }
            return false;
        }
        proof {
            assert(tail[i as int] == text@[from + i]);
        }
        i += 1;
    }
    proof {
        assert(tail =~= suffix@);
    }
    true
}

/// Removes every copy of `suffix` from the end of `text`.
pub fn trim_end_chars(text: Vec<char>, suffix: &Vec<char>) -> (trimmed: Vec<char>)
    ensures
        trimmed@ == trim_end(text@, suffix@),
{
    let mut text: Vec<char> = text;
    if suffix.len() == 0 {
        return text;
    }
    let ghost whole: Seq<char> = text@;
    let mut len: usize = text.len();
    proof {
        assert(whole.take(len as int) =~= whole);
    }
    while prefix_ends_with(&text, len, suffix)
        invariant
            suffix@.len() > 0,
            len <= text@.len(),
            text@ == whole,
            trim_end(whole, suffix@) == trim_end(whole.take(len as int), suffix@),
        decreases len,
    {
        proof {
            assert(whole.take(len as int).take(len - suffix@.len()) =~= whole.take(
                len - suffix@.len(),
            ));
        }
        len = len - suffix.len();
    }
    text.truncate(len);
    proof {
        assert(text@ =~= whole.take(len as int));
    }
    text
}

/// The ASCII code of the digit `d`.
pub open spec fn digit_byte(d: int) -> u8 {
    (48 + d) as u8
}

/// The decimal digits of `n` as ASCII codes, most significant first, without
/// leading zeros.
pub open spec fn digits_of(n: nat) -> Seq<u8>
    decreases n,
{
    if n < 10 {
        seq![digit_byte(n as int)]
    } else {
        digits_of(n / 10).push(digit_byte((n % 10) as int))
    }
}

/// The decimal text of `value` as ASCII codes: a minus sign for negative
/// values, then the digits.
pub open spec fn spec_decimal_bytes(value: i32) -> Seq<u8> {
    if value < 0 {
        seq![45u8] + digits_of((-value) as nat)
    } else {
        digits_of(value as nat)
    }
}

/// The characters with the given ASCII codes.
pub open spec fn as_chars(bytes: Seq<u8>) -> Seq<char> {
    Seq::new(bytes.len(), |i: int| bytes[i] as char)
}

/// The decimal text of `value`.
pub open spec fn spec_decimal_text(value: i32) -> Seq<char> {
    as_chars(spec_decimal_bytes(value))
}

/// The digits of a number read back as that number, with either sign, as
/// long as the signed value fits 32 bits.
pub proof fn lemma_digits_read_back(n: nat, negative: bool)
    requires
        if negative {
            n <= 0x8000_0000
        } else {
            n <= i32::MAX
        },
    ensures
        digits_of(n).len() >= 1,
        all_digits(as_chars(digits_of(n))),
        accumulate(as_chars(digits_of(n)), negative) == Ok::<i32, DecimalError>(
            (if negative {
                -(n as int)
            } else {
                n as int
            }) as i32,
        ),
    decreases n,
{
    let text = as_chars(digits_of(n));
    if n < 10 {
        assert(text.drop_last() =~= Seq::<char>::empty());
        assert(text.last() == digit_byte(n as int) as char);
        assert(text.last() as u32 == 48 + n);
        assert(accumulate(text.drop_last(), negative) == Ok::<i32, DecimalError>(0i32));
    } else {
        lemma_digits_read_back(n / 10, negative);
        let shorter = as_chars(digits_of(n / 10));
        assert(text.drop_last() =~= shorter);
        assert(text.last() == digit_byte((n % 10) as int) as char);
        assert(text.last() as u32 == 48 + n % 10);
        assert forall|i: int| 0 <= i < text.len() implies is_digit(#[trigger] text[i]) by {
            if i < shorter.len() {
                assert(text[i] == shorter[i]);
            }
        }
    }
}

/// The decimal text of a number reads back as that number.
pub proof fn lemma_decimal_text_parses(value: i32)
    ensures
        spec_parse_i32(spec_decimal_text(value)) == Ok::<i32, DecimalError>(value),
        spec_decimal_text(value).len() >= 1,
        is_digit(spec_decimal_text(value).last()),
{
    let text = spec_decimal_text(value);
    if value < 0 {
        let n = (-value) as nat;
        lemma_digits_read_back(n, true);
        assert(text.skip(1) =~= as_chars(digits_of(n)));
        assert(text[0] == '-');
        assert(text.last() == as_chars(digits_of(n)).last());
    } else {
        let n = value as nat;
        lemma_digits_read_back(n, false);
        assert(text =~= as_chars(digits_of(n)));
        assert(is_digit(text[0]));
    }
}

/// Taking a suffix off the end of a text that was put together from a
/// number's decimal text and that suffix gives the decimal text, provided the
/// suffix does not end in a digit.
pub proof fn lemma_trim_appended(text: Seq<char>, suffix: Seq<char>)
    requires
        text.len() >= 1,
        is_digit(text.last()),
        suffix.len() == 0 || !is_digit(suffix.last()),
    ensures
        trim_end(text + suffix, suffix) == text,
{
    if suffix.len() == 0 {
        assert(text + suffix =~= text);
    } else {
        let whole = text + suffix;
        assert(whole.skip(whole.len() - suffix.len()) =~= suffix);
        assert(whole.take(whole.len() - suffix.len()) =~= text);
        assert(!ends_with(text, suffix)) by {
            if ends_with(text, suffix) {
                let tail = text.skip(text.len() - suffix.len());
                assert(tail[suffix.len() - 1] == text[text.len() - 1]);
            }
        }
        assert(trim_end(text, suffix) == text);
    }
}

/// Every code of a decimal text is ASCII: a digit or the minus sign.
pub proof fn lemma_decimal_bytes_ascii(value: i32, i: int)
    requires
        0 <= i < spec_decimal_bytes(value).len(),
    ensures
        spec_decimal_bytes(value)[i] < 128,
        (spec_decimal_bytes(value)[i] as char) as u8 == spec_decimal_bytes(value)[i],
{
    if value < 0 {
        if i > 0 {
            lemma_digit_bytes((-value) as nat, i - 1);
        }
    } else {
        lemma_digit_bytes(value as nat, i);
    }
}

/// Every code among the digits of a number is the code of a digit.
pub proof fn lemma_digit_bytes(n: nat, i: int)
    requires
        0 <= i < digits_of(n).len(),
    ensures
        48 <= digits_of(n)[i] <= 57,
    decreases n,
{
    if n >= 10 {
        if i < digits_of(n / 10).len() {
            lemma_digit_bytes(n / 10, i);
        }
    }
}

/// A decimal text has at most ten digits for 32 bits.
pub proof fn lemma_digits_len(n: nat)
    ensures
        1 <= digits_of(n).len(),
        n < 0x1_0000_0000 ==> digits_of(n).len() <= 10,
    decreases n,
{
    reveal_with_fuel(digits_of, 11);
}

/// The decimal text of `value` as ASCII codes.
pub fn decimal_bytes(value: i32) -> (bytes: Vec<u8>)
    ensures
        bytes@ == spec_decimal_bytes(value),
        bytes@.len() <= 11,
{
    let wide: i64 = value as i64;
    let magnitude: u64 = if wide < 0 {
        (-wide) as u64
    } else {
        wide as u64
    };
    proof {
        lemma_digits_len(magnitude as nat);
    }
    let mut reversed: Vec<u8> = Vec::new();
    let mut rest: u64 = magnitude;
    while rest >= 10
        invariant
            rest <= magnitude,
            reversed@.len() + digits_of(rest as nat).len() == digits_of(magnitude as nat).len(),
            digits_of(magnitude as nat) == digits_of(rest as nat) + reversed@.reverse(),
        decreases rest,
    {
        let digit: u8 = (rest % 10) as u8;
        let ghost before: Seq<u8> = reversed@;
        reversed.push(48 + digit);
        proof {
            assert(reversed@.reverse() =~= seq![digit_byte(digit as int)] + before.reverse());
            assert(digits_of(rest as nat) == digits_of((rest / 10) as nat).push(
                digit_byte(digit as int),
            ));
            assert(digits_of(rest as nat) + before.reverse() =~= digits_of((rest / 10) as nat)
                + reversed@.reverse());
        }
        rest = rest / 10;
    }
    let ghost before: Seq<u8> = reversed@;
    reversed.push(48 + (rest as u8));
    proof {
        assert(reversed@.reverse() =~= seq![digit_byte(rest as int)] + before.reverse());
        assert(digits_of(rest as nat) =~= seq![digit_byte(rest as int)]);
        assert(digits_of(magnitude as nat) =~= reversed@.reverse());
    }
    let mut bytes: Vec<u8> = Vec::new();
    if wide < 0 {
        bytes.push(45);
    }
    let ghost sign: Seq<u8> = bytes@;
    let mut i: usize = reversed.len();
    while i > 0
        invariant
            i <= reversed@.len(),
            bytes@ == sign + reversed@.reverse().take(reversed@.len() - i),
        decreases i,
    {
        i -= 1;
        let ghost taken: Seq<u8> = bytes@;
        bytes.push(reversed[i]);
        proof {
            let flipped = reversed@.reverse();
            let at = reversed@.len() - 1 - i;
            assert(flipped[at] == reversed@[i as int]);
            assert(flipped.take(at + 1) =~= flipped.take(at).push(flipped[at]));
            assert(bytes@ =~= sign + flipped.take(at + 1));
        }
    }
    proof {
        assert(reversed@.reverse().take(reversed@.len() as int) =~= reversed@.reverse());
    }
    bytes
}

} // verus!
