//! Text building blocks: decimal numbers, splitting and trimming, each described
//! by a function on character sequences.

use vstd::prelude::*;

verus! {

/// The character of a decimal digit.
pub open spec fn digit_char(digit: int) -> char {
    if digit <= 0 {
        '0'
    } else if digit == 1 {
        '1'
    } else if digit == 2 {
        '2'
    } else if digit == 3 {
        '3'
    } else if digit == 4 {
        '4'
    } else if digit == 5 {
        '5'
    } else if digit == 6 {
        '6'
    } else if digit == 7 {
        '7'
    } else if digit == 8 {
        '8'
    } else {
        '9'
    }
}

/// Whether a character is an ASCII decimal digit.
pub open spec fn is_digit(character: char) -> bool {
    '0' <= character <= '9'
}

/// The number that a digit character stands for.
pub open spec fn digit_value(character: char) -> int {
    character as int - '0' as int
}

/// The decimal notation of a natural number, without leading zeros.
pub open spec fn decimal(number: nat) -> Seq<char>
    decreases number,
{
    if number < 10 {
        seq![digit_char(number as int)]
    } else {
        decimal(number / 10).push(digit_char((number % 10) as int))
    }
}

/// The decimal notation of an integer, with a minus sign where it is negative.
pub open spec fn signed_decimal(number: int) -> Seq<char> {
    if number < 0 {
        seq!['-'] + decimal((-number) as nat)
    } else {
        decimal(number as nat)
    }
}

/// The decimal notation of a number below one hundred, padded to two digits.
pub open spec fn two_digits(number: nat) -> Seq<char> {
    seq![digit_char((number / 10) as int), digit_char((number % 10) as int)]
}

/// The number that a sequence of digits stands for.
pub open spec fn digits_value(digits: Seq<char>) -> nat
    decreases digits.len(),
{
    if digits.len() == 0 {
        0
    } else {
        (digits_value(digits.drop_last()) * 10 + digit_value(digits.last())) as nat
    }
}

/// Whether every character of a sequence is a decimal digit.
pub open spec fn all_digits(digits: Seq<char>) -> bool {
    forall|i: int| 0 <= i < digits.len() ==> is_digit(#[trigger] digits[i])
}

/// The digits of an unsigned number: its text without one leading plus sign.
pub open spec fn without_plus(text: Seq<char>) -> Seq<char> {
    if text.len() > 0 && text[0] == '+' {
        text.drop_first()
    } else {
        text
    }
}

/// What an unsigned number written in decimal reads as: an optional plus sign,
/// then at least one digit and nothing else, of a value of at most `max`.
pub open spec fn parsed_unsigned(text: Seq<char>, max: nat) -> Option<nat> {
    let digits = without_plus(text);
    if digits.len() > 0 && all_digits(digits) && digits_value(digits) <= max {
        Some(digits_value(digits))
    } else {
        None
    }
}

/// A result with its error message as characters.
pub open spec fn result_text<T>(result: Result<T, String>) -> Result<T, Seq<char>> {
    match result {
        Ok(value) => Ok(value),
        Err(message) => Err(message@),
    }
}

/// A text result with both of its texts as characters.
pub open spec fn string_result(result: Result<String, String>) -> Result<Seq<char>, Seq<char>> {
    match result {
        Ok(value) => Ok(value@),
        Err(message) => Err(message@),
    }
}

proof fn lemma_digits_value_prefix(digits: Seq<char>, count: int)
    requires
        all_digits(digits),
        0 <= count <= digits.len(),
    ensures
        digits_value(digits.take(count)) <= digits_value(digits),
    decreases digits.len(),
{
    if count == digits.len() {
        assert(digits.take(count) =~= digits);
    } else {
        let shorter = digits.drop_last();
        assert(all_digits(shorter));
        lemma_digits_value_prefix(shorter, count);
        assert(shorter.take(count) =~= digits.take(count));
        assert(is_digit(digits[digits.len() - 1]));
    }
}

/// Reading the decimal notation of a number gives the number back.
pub proof fn decimal_reads_back(number: nat, max: nat)
    requires
        number <= max,
    ensures
        parsed_unsigned(decimal(number), max) == Some(number),
{
    decimal_is_made_of_digits(number);
    assert(without_plus(decimal(number)) == decimal(number));
}

/// The decimal notation of a number has digits only, at least one, and the value of
/// the number.
pub proof fn decimal_is_made_of_digits(number: nat)
    ensures
        decimal(number).len() > 0,
        all_digits(decimal(number)),
        decimal(number)[0] != '+',
        digits_value(decimal(number)) == number,
    decreases number,
{
    if number < 10 {
        let only = decimal(number);
        assert(only.drop_last() =~= Seq::<char>::empty());
        assert(digits_value(only.drop_last()) == 0);
    } else {
        decimal_is_made_of_digits(number / 10);
        let text = decimal(number);
        assert(text.drop_last() =~= decimal(number / 10));
        assert(is_digit(text[0])) by {
            assert(text[0] == decimal(number / 10)[0]);
        }
    }
}

fn digit_character(digit: u8) -> (character: char)
    requires
        digit < 10,
    ensures
        character == digit_char(digit as int),
{
    match digit {
        0 => '0',
        1 => '1',
        2 => '2',
        3 => '3',
        4 => '4',
        5 => '5',
        6 => '6',
        7 => '7',
        8 => '8',
        _ => '9',
    }
}

/// Appends a number in decimal notation.
pub fn push_decimal(text: &mut String, number: u128)
    ensures
        final(text)@ == old(text)@ + decimal(number as nat),
    decreases number,
{
    let ghost before = text@;
    if number >= 10 {
        push_decimal(text, number / 10);
    }
    text.push(digit_character((number % 10) as u8));
    proof {
        assert(text@ =~= before + decimal(number as nat));
    }
}

/// The decimal notation of a number.
pub fn decimal_text(number: u128) -> (text: String)
    ensures
        text@ == decimal(number as nat),
{
    let mut text = String::new();
    push_decimal(&mut text, number);
    proof {
        assert(text@ =~= decimal(number as nat));
    }
    text
}

/// Appends an integer in decimal notation, with its sign where it is negative.
pub fn push_signed_decimal(text: &mut String, number: i32)
    ensures
        final(text)@ == old(text)@ + signed_decimal(number as int),
{
    let ghost before = text@;
    if number < 0 {
        text.push('-');
        let magnitude: u128 = (-(number as i64)) as u128;
        push_decimal(text, magnitude);
        proof {
            assert(text@ =~= before + signed_decimal(number as int));
        }
    } else {
        push_decimal(text, number as u128);
    }
}

/// Appends a number below one hundred as two digits.
pub fn push_two_digits(text: &mut String, number: u64)
    requires
        number < 100,
    ensures
        final(text)@ == old(text)@ + two_digits(number as nat),
{
    let ghost before = text@;
    text.push(digit_character((number / 10) as u8));
    text.push(digit_character((number % 10) as u8));
    proof {
        assert(text@ =~= before + two_digits(number as nat));
    }
}

/// The characters of a text, one by one.
pub fn characters(text: &str) -> (characters: Vec<char>)
    ensures
        characters@ == text@,
{
    let mut characters: Vec<char> = Vec::new();
    for character in iter: text.chars()
        invariant
            characters@ == iter.seq().take(iter.index() as int),
            iter.seq() == text@,
    {
        characters.push(character);
        proof {
            assert(characters@ =~= iter.seq().take(iter.index() + 1));
        }
    }
    proof {
        assert(characters@ =~= text@);
    }
    characters
}

/// Reads an unsigned decimal number of at most `max`.
pub fn parse_unsigned(text: &str, max: u64) -> (number: Option<u64>)
    ensures
        number matches Some(value) ==> parsed_unsigned(text@, max as nat) == Some(value as nat),
        number is None ==> parsed_unsigned(text@, max as nat) is None,
{
    let all = characters(text);
    let start: usize = if all.len() > 0 && all[0] == '+' {
        1
    } else {
        0
    };
    let ghost digits = without_plus(text@);
    proof {
        assert(digits =~= all@.skip(start as int));
    }
    if start == all.len() {
        return None;
    }
    let mut value: u64 = 0;
    let mut index: usize = start;
    while index < all.len()
        invariant
            start <= index <= all.len(),
            start <= 1,
            digits == all@.skip(start as int),
            all_digits(digits.take(index - start)),
            value as nat == digits_value(digits.take(index - start)),
            value <= max,
            digits == without_plus(text@),
        decreases all.len() - index,
    {
        let character = all[index];
        let ghost position = index - start;
        proof {
            assert(digits[position] == character);
            assert(digits.take(position + 1).drop_last() =~= digits.take(position));
            assert(digits.take(position + 1).last() == character);
        }
        if !('0' <= character && character <= '9') {
            proof {
                assert(!is_digit(digits[position]));
            }
            return None;
        }
        let digit: u64 = (character as u32 - '0' as u32) as u64;
        proof {
            assert(digits_value(digits.take(position + 1)) == value * 10 + digit);
            if all_digits(digits) {
                lemma_digits_value_prefix(digits, position + 1);
            }
        }
        if digit > max || value > max / 10 || value * 10 > max - digit {
            return None;
        }
        value = value * 10 + digit;
        index = index + 1;
    }
    proof {
        assert(digits.take(index - start) =~= digits);
    }
    Some(value)
}

/// The texts of a list of strings.
pub open spec fn texts(strings: Seq<String>) -> Seq<Seq<char>> {
    strings.map_values(|value: String| value@)
}

/// Whether a character ends a line of diagnostics.
pub open spec fn is_line_end(character: char) -> bool {
    character == '\r' || character == '\n'
}

/// The position of the first line feed, or the length where there is none. With
/// `carriage_returns`, a carriage return counts too.
pub open spec fn first_line_end(text: Seq<char>, carriage_returns: bool) -> int
    decreases text.len(),
{
    if text.len() == 0 {
        0
    } else if text[0] == '\n' || (carriage_returns && text[0] == '\r') {
        0
    } else {
        1 + first_line_end(text.drop_first(), carriage_returns)
    }
}

/// A line without the carriage return at its end.
pub open spec fn without_carriage_return(line: Seq<char>) -> Seq<char> {
    if line.len() > 0 && line.last() == '\r' {
        line.drop_last()
    } else {
        line
    }
}

/// The pieces of a text that line feeds, or carriage returns, end. The last one
/// need not be ended.
pub open spec fn terminated_pieces(text: Seq<char>) -> Seq<Seq<char>>
    decreases text.len(),
{
    let end = first_line_end(text, true);
    if text.len() == 0 {
        Seq::empty()
    } else if end < 0 || end >= text.len() {
        seq![text]
    } else {
        seq![text.take(end)] + terminated_pieces(text.skip(end + 1))
    }
}

/// The lines of a text, each ended by a line feed or by a carriage return and a line
/// feed. The last one need not be ended.
pub open spec fn lines_of(text: Seq<char>) -> Seq<Seq<char>>
    decreases text.len(),
{
    let end = first_line_end(text, false);
    if text.len() == 0 {
        Seq::empty()
    } else if end < 0 || end >= text.len() {
        seq![text]
    } else {
        seq![without_carriage_return(text.take(end))] + lines_of(text.skip(end + 1))
    }
}

/// The first `limit` items of a list, or all of them.
pub open spec fn at_most<T>(items: Seq<T>, limit: int) -> Seq<T> {
    if items.len() <= limit {
        items
    } else {
        items.take(limit)
    }
}

proof fn lemma_first_line_end(text: Seq<char>, carriage_returns: bool, position: int)
    requires
        0 <= position <= text.len(),
        forall|i: int|
            0 <= i < position ==> text[i] != '\n' && !(carriage_returns && text[i] == '\r'),
        position < text.len() ==> text[position] == '\n' || (carriage_returns && text[position]
            == '\r'),
    ensures
        first_line_end(text, carriage_returns) == position,
    decreases text.len(),
{
    if position > 0 {
        assert(text[0] != '\n');
        let rest = text.drop_first();
        assert forall|i: int| 0 <= i < position - 1 implies rest[i] != '\n' && !(carriage_returns
            && rest[i] == '\r') by {
            assert(rest[i] == text[i + 1]);
        }
        lemma_first_line_end(rest, carriage_returns, position - 1);
    }
}

/// The string of some of the characters of a text.
pub fn string_between(characters: &Vec<char>, start: usize, end: usize) -> (string: String)
    requires
        start <= end <= characters@.len(),
    ensures
        string@ == characters@.subrange(start as int, end as int),
{
    let mut string = String::new();
    let mut index: usize = start;
    while index < end
        invariant
            start <= index <= end <= characters@.len(),
            string@ == characters@.subrange(start as int, index as int),
        decreases end - index,
    {
        string.push(characters[index]);
        proof {
            assert(characters@.subrange(start as int, index + 1) =~= characters@.subrange(
                start as int,
                index as int,
            ).push(characters@[index as int]));
        }
        index = index + 1;
    }
    string
}

/// The position of the next line end from `start` on.
fn next_line_end(characters: &Vec<char>, start: usize, carriage_returns: bool) -> (end: usize)
    requires
        start <= characters@.len(),
    ensures
        start <= end <= characters@.len(),
        end - start == first_line_end(characters@.skip(start as int), carriage_returns),
{
    let ghost rest = characters@.skip(start as int);
    let mut end: usize = start;
    while end < characters.len() && characters[end] != '\n' && !(carriage_returns
        && characters[end] == '\r')
        invariant
            start <= end <= characters@.len(),
            rest == characters@.skip(start as int),
            forall|i: int|
                0 <= i < end - start ==> rest[i] != '\n' && !(carriage_returns && rest[i] == '\r'),
        decreases characters@.len() - end,
    {
        proof {
            assert(rest[end - start] == characters@[end as int]);
        }
        end = end + 1;
    }
    proof {
        if end < characters@.len() {
            assert(rest[end - start] == characters@[end as int]);
        }
        lemma_first_line_end(rest, carriage_returns, end - start);
    }
    end
}

/// The first pieces of a text that line feeds or carriage returns end.
pub fn split_terminated(text: &str, limit: usize) -> (pieces: Vec<String>)
    ensures
        texts(pieces@) == at_most(terminated_pieces(text@), limit as int),
{
    let all = characters(text);
    let mut pieces: Vec<String> = Vec::new();
    let mut start: usize = 0;
    proof {
        assert(all@.skip(0) =~= all@);
        assert(texts(pieces@) + terminated_pieces(all@) =~= terminated_pieces(all@));
    }
    while start < all.len() && pieces.len() < limit
        invariant
            start <= all@.len(),
            all@ == text@,
            pieces@.len() <= limit,
            terminated_pieces(text@) == texts(pieces@) + terminated_pieces(
                all@.skip(start as int),
            ),
        decreases all@.len() - start,
    {
        let ghost rest = all@.skip(start as int);
        let ghost first = start as int;
        let ghost before = texts(pieces@);
        let end: usize = next_line_end(&all, start, true);
        let piece = string_between(&all, start, end);
        proof {
            assert(piece@ =~= rest.take(end - start));
        }
        pieces.push(piece);
        proof {
            assert(texts(pieces@) =~= before.push(piece@));
        }
        if end < all.len() {
            start = end + 1;
            proof {
                assert(rest.skip(end - first + 1) =~= all@.skip(start as int));
                assert(texts(pieces@) + terminated_pieces(all@.skip(start as int)) =~= before
                    + terminated_pieces(rest));
            }
        } else {
            start = all.len();
            proof {
                assert(piece@ =~= rest);
                assert(all@.skip(start as int) =~= Seq::<char>::empty());
                assert(texts(pieces@) + terminated_pieces(all@.skip(start as int)) =~= before
                    + terminated_pieces(rest));
            }
        }
    }
    proof {
        if start >= all@.len() {
            assert(all@.skip(start as int) =~= Seq::<char>::empty());
            assert(terminated_pieces(text@) =~= texts(pieces@));
        } else {
            assert(terminated_pieces(text@).take(limit as int) =~= texts(pieces@));
            if terminated_pieces(text@).len() <= limit {
                assert(terminated_pieces(text@).take(limit as int) =~= terminated_pieces(text@));
            }
        }
    }
    pieces
}

/// The first lines of a text.
pub fn split_lines(text: &str, limit: usize) -> (lines: Vec<String>)
    ensures
        texts(lines@) == at_most(lines_of(text@), limit as int),
{
    let all = characters(text);
    let mut lines: Vec<String> = Vec::new();
    let mut start: usize = 0;
    proof {
        assert(all@.skip(0) =~= all@);
        assert(texts(lines@) + lines_of(all@) =~= lines_of(all@));
    }
    while start < all.len() && lines.len() < limit
        invariant
            start <= all@.len(),
            all@ == text@,
            lines@.len() <= limit,
            lines_of(text@) == texts(lines@) + lines_of(all@.skip(start as int)),
        decreases all@.len() - start,
    {
        let ghost rest = all@.skip(start as int);
        let ghost first = start as int;
        let ghost before = texts(lines@);
        let end: usize = next_line_end(&all, start, false);
        let last: usize = if end < all.len() && end > start && all[end - 1] == '\r' {
            end - 1
        } else {
            end
        };
        let line = string_between(&all, start, last);
        proof {
            assert(rest.take(end - start) =~= all@.subrange(start as int, end as int));
            if end < all@.len() {
                assert(line@ =~= without_carriage_return(rest.take(end - start)));
            } else {
                assert(line@ =~= rest);
            }
        }
        lines.push(line);
        proof {
            assert(texts(lines@) =~= before.push(line@));
        }
        if end < all.len() {
            start = end + 1;
            proof {
                assert(rest.skip(end - first + 1) =~= all@.skip(start as int));
                assert(texts(lines@) + lines_of(all@.skip(start as int)) =~= before + lines_of(
                    rest,
                ));
            }
        } else {
            start = all.len();
            proof {
                assert(all@.skip(start as int) =~= Seq::<char>::empty());
                assert(texts(lines@) + lines_of(all@.skip(start as int)) =~= before + lines_of(
                    rest,
                ));
            }
        }
    }
    proof {
        if start >= all@.len() {
            assert(all@.skip(start as int) =~= Seq::<char>::empty());
            assert(lines_of(text@) =~= texts(lines@));
        } else {
            assert(lines_of(text@).take(limit as int) =~= texts(lines@));
            if lines_of(text@).len() <= limit {
                assert(lines_of(text@).take(limit as int) =~= lines_of(text@));
            }
        }
    }
    lines
}

/// Two digits have the value of the number that they were made of.
pub proof fn two_digits_read_back(number: nat)
    requires
        number < 100,
    ensures
        two_digits(number).len() == 2,
        all_digits(two_digits(number)),
        digits_value(two_digits(number)) == number,
{
    let pair = two_digits(number);
    assert(pair.drop_last() =~= seq![pair[0]]);
    assert(pair.drop_last().drop_last() =~= Seq::<char>::empty());
    assert(digits_value(seq![pair[0]]) == digit_value(pair[0])) by {
        assert(digits_value(Seq::<char>::empty()) == 0);
    }
}

/// The notation of a negative number is a minus sign and that of its opposite; that of
/// another has no sign.
pub proof fn signs_are_written_before_the_digits(number: int)
    ensures
        number >= 0 ==> all_digits(signed_decimal(number)) && digits_value(signed_decimal(number))
            == number,
        number < 0 ==> signed_decimal(number)[0] == '-' && all_digits(
            signed_decimal(number).drop_first(),
        ) && digits_value(signed_decimal(number).drop_first()) == -number,
{
    if number >= 0 {
        decimal_is_made_of_digits(number as nat);
    } else {
        decimal_is_made_of_digits((-number) as nat);
        assert(signed_decimal(number).drop_first() =~= decimal((-number) as nat));
    }
}

/// A number is read exactly where its text is made of digits, after one plus sign at
/// most, and it is not too large; more digits in front that are zero change nothing.
pub proof fn numbers_are_read_digit_by_digit(digits: Seq<char>, digit: char, max: nat)
    requires
        all_digits(digits),
        is_digit(digit),
        digits_value(digits) * 10 + digit_value(digit) <= max,
    ensures
        digit_value('0') == 0,
        digit_value('9') == 9,
        parsed_unsigned(digits.push(digit), max) == Some(
            (digits_value(digits) * 10 + digit_value(digit)) as nat,
        ),
        parsed_unsigned(seq!['+'] + digits.push(digit), max) == parsed_unsigned(
            digits.push(digit),
            max,
        ),
        parsed_unsigned(Seq::empty(), max) is None,
        !is_digit('+') && !is_digit('-') && !is_digit(' ') && !is_digit('/'),
{
    let longer = digits.push(digit);
    assert(longer.drop_last() =~= digits);
    assert forall|i: int| 0 <= i < longer.len() implies is_digit(#[trigger] longer[i]) by {
        if i < digits.len() {
            assert(longer[i] == digits[i]);
        }
    }
    assert(is_digit(longer[0]));
    assert((seq!['+'] + longer).drop_first() =~= longer);
}

/// The first items of a list are a prefix of it: as many as asked for, or all.
pub proof fn first_items_are_a_prefix<T>(items: Seq<T>, limit: int)
    requires
        limit >= 0,
    ensures
        at_most(items, limit).len() <= limit,
        at_most(items, limit).len() == items.len() || at_most(items, limit).len() == limit,
        at_most(items, limit).is_prefix_of(items),
{
}

/// A text without the characters that end pieces.
pub open spec fn without_terminators(text: Seq<char>) -> Seq<char>
    decreases text.len(),
{
    if text.len() == 0 {
        Seq::empty()
    } else if text[0] == '\n' || text[0] == '\r' {
        without_terminators(text.drop_first())
    } else {
        seq![text[0]] + without_terminators(text.drop_first())
    }
}

/// Pieces one after the other.
pub open spec fn concatenated(pieces: Seq<Seq<char>>) -> Seq<char>
    decreases pieces.len(),
{
    if pieces.len() == 0 {
        Seq::empty()
    } else {
        pieces[0] + concatenated(pieces.drop_first())
    }
}

proof fn lemma_first_line_end_is_first(text: Seq<char>, carriage_returns: bool)
    ensures
        0 <= first_line_end(text, carriage_returns) <= text.len(),
        forall|i: int|
            0 <= i < first_line_end(text, carriage_returns) ==> text[i] != '\n' && !(
            carriage_returns && text[i] == '\r'),
        first_line_end(text, carriage_returns) < text.len() ==> text[first_line_end(
            text,
            carriage_returns,
        )] == '\n' || (carriage_returns && text[first_line_end(text, carriage_returns)] == '\r'),
    decreases text.len(),
{
    if text.len() > 0 && text[0] != '\n' && !(carriage_returns && text[0] == '\r') {
        let rest = text.drop_first();
        lemma_first_line_end_is_first(rest, carriage_returns);
        assert forall|i: int| 0 <= i < first_line_end(text, carriage_returns) implies text[i]
            != '\n' && !(carriage_returns && text[i] == '\r') by {
            if i > 0 {
                assert(rest[i - 1] == text[i]);
            }
        }
    }
}

proof fn lemma_without_terminators_front(text: Seq<char>, end: int)
    requires
        0 <= end <= text.len(),
        forall|i: int| 0 <= i < end ==> text[i] != '\n' && text[i] != '\r',
    ensures
        without_terminators(text) == text.take(end) + without_terminators(text.skip(end)),
    decreases end,
{
    if end == 0 {
        assert(text.skip(0) =~= text);
        assert(text.take(0) + without_terminators(text) =~= without_terminators(text));
    } else {
        let rest = text.drop_first();
        assert forall|i: int| 0 <= i < end - 1 implies rest[i] != '\n' && rest[i] != '\r' by {
            assert(rest[i] == text[i + 1]);
        }
        lemma_without_terminators_front(rest, end - 1);
        assert(rest.skip(end - 1) =~= text.skip(end));
        assert(text[0] != '\n' && text[0] != '\r');
        assert(without_terminators(text) =~= text.take(end) + without_terminators(
            text.skip(end),
        ));
    }
}

/// Nothing of a text is lost in its pieces but the characters that end them: the pieces
/// one after the other are the text without those, and no piece holds one.
pub proof fn pieces_make_up_the_text(text: Seq<char>)
    ensures
        concatenated(terminated_pieces(text)) == without_terminators(text),
        forall|i: int, j: int|
            0 <= i < terminated_pieces(text).len() && 0 <= j < terminated_pieces(text)[i].len()
                ==> !is_line_end(#[trigger] terminated_pieces(text)[i][j]),
    decreases text.len(),
{
    let end = first_line_end(text, true);
    lemma_first_line_end_is_first(text, true);
    lemma_without_terminators_front(text, end);
    let pieces = terminated_pieces(text);
    if text.len() == 0 {
        assert(text.take(0) + without_terminators(text.skip(0)) =~= Seq::<char>::empty());
    } else if end >= text.len() {
        assert(pieces.drop_first() =~= Seq::<Seq<char>>::empty());
        assert(text.take(end) =~= text);
        assert(text.skip(end) =~= Seq::<char>::empty());
        assert(concatenated(Seq::<Seq<char>>::empty()) =~= Seq::<char>::empty());
        assert(pieces[0] + Seq::<char>::empty() =~= text);
        assert(text + without_terminators(Seq::empty()) =~= text);
    } else {
        let rest = text.skip(end + 1);
        pieces_make_up_the_text(rest);
        assert(pieces.drop_first() =~= terminated_pieces(rest));
        assert(text.skip(end).drop_first() =~= rest);
        assert forall|i: int, j: int|
            0 <= i < pieces.len() && 0 <= j < pieces[i].len() implies !is_line_end(
            #[trigger] pieces[i][j],
        ) by {
            if i > 0 {
                assert(pieces[i] == terminated_pieces(rest)[i - 1]);
                assert(!is_line_end(terminated_pieces(rest)[i - 1][j]));
            } else {
                assert(pieces[0][j] == text[j]);
            }
        }
    }
}

/// A text that ends a line goes on in a new one: the first line of a text is what stands
/// before its first line feed, without the carriage return right before that, and the
/// others are the lines of what stands behind it.
pub proof fn line_feeds_end_lines(line: Seq<char>, rest: Seq<char>)
    requires
        !line.contains('\n'),
    ensures
        lines_of(line + seq!['\n'] + rest) == seq![
            if line.len() > 0 && line.last() == '\r' {
                line.drop_last()
            } else {
                line
            },
        ] + lines_of(rest),
        line.len() > 0 ==> lines_of(line) == seq![line],
        lines_of(Seq::empty()) == Seq::<Seq<char>>::empty(),
{
    let whole = line + seq!['\n'] + rest;
    assert forall|i: int| 0 <= i < line.len() implies whole[i] != '\n' && line[i] != '\n' by {
        assert(whole[i] == line[i]);
        assert(line.contains(line[i]));
    }
    assert(whole[line.len() as int] == '\n');
    lemma_first_line_end(whole, false, line.len() as int);
    lemma_first_line_end(line, false, line.len() as int);
    assert(whole.take(line.len() as int) =~= line);
    assert(whole.skip(line.len() as int + 1) =~= rest);
}

/// Whether a text holds another somewhere.
pub open spec fn holds_text(whole: Seq<char>, part: Seq<char>) -> bool {
    exists|front: Seq<char>, back: Seq<char>| whole == #[trigger] (front + part + back)
}

/// What a text holds, it holds with more text before and behind it.
pub proof fn longer_texts_hold_as_much(
    front: Seq<char>,
    whole: Seq<char>,
    back: Seq<char>,
    part: Seq<char>,
)
    requires
        holds_text(whole, part),
    ensures
        holds_text(front + whole + back, part),
{
    let (before, behind) = choose|before: Seq<char>, behind: Seq<char>|
        whole == #[trigger] (before + part + behind);
    assert(front + whole + back =~= (front + before) + part + (behind + back));
}

/// Two numbers are written alike only where they are the same.
pub proof fn different_numbers_are_written_differently(one: int, other: int)
    ensures
        signed_decimal(one) == signed_decimal(other) <==> one == other,
        one >= 0 && other >= 0 ==> (decimal(one as nat) == decimal(other as nat) <==> one
            == other),
{
    signs_are_written_before_the_digits(one);
    signs_are_written_before_the_digits(other);
    if one >= 0 {
        decimal_is_made_of_digits(one as nat);
        assert(is_digit(signed_decimal(one)[0]));
    }
    if other >= 0 {
        decimal_is_made_of_digits(other as nat);
        assert(is_digit(signed_decimal(other)[0]));
    }
}

/// Texts are taken one by one, in their order and as they are, and so are results.
pub proof fn texts_are_taken_as_they_are(strings: Seq<String>, result: Result<u64, String>)
    ensures
        texts(strings).len() == strings.len(),
        forall|i: int| 0 <= i < strings.len() ==> #[trigger] texts(strings)[i] == strings[i]@,
        result matches Ok(value) ==> result_text(result) == Ok::<u64, Seq<char>>(value),
        result matches Err(message) ==> result_text(result) == Err::<u64, Seq<char>>(message@),
{
}

} // verus!
