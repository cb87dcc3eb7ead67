//! Text: the few operations on strings that the rest of the library is built from.
use vstd::prelude::*;

verus! {

/// `String::push`: appends one character.
pub assume_specification[ String::push ](text: &mut String, character: char)
    ensures
        final(text)@ == old(text)@.push(character),
;

/// Whether two texts hold the same characters.
pub(crate) fn same(left: &str, right: &str) -> (equal: bool)
    ensures
        equal == (left@ == right@),
{
    left.to_owned() == right.to_owned()
}

/// What the debug form of a text is: the text in double quotes, escaped.
pub uninterp spec fn quoted(text: Seq<char>) -> Seq<char>;

/// The `Debug` form of `str`, whose escapes are named, not spelled out.
#[verifier::external_body]
pub(crate) fn debug_text(text: &str) -> (form: String)
    ensures
        form@ == quoted(text@),
{
    format!("{text:?}")
}

/// The character of a digit.
pub open spec fn digit(value: nat) -> char {
    (48 + value) as char
}

/// The decimal digits of a number, without leading zeros.
pub open spec fn decimal(number: nat) -> Seq<char>
    decreases number,
{
    if number < 10 {
        seq![digit(number)]
    } else {
        decimal(number / 10).push(digit(number % 10))
    }
}

fn digit_char(value: u64) -> (character: char)
    requires
        value < 10,
    ensures
        character == digit(value as nat),
{
    (48u8 + value as u8) as char
}

/// Appends a number in decimal.
pub fn push_decimal(text: &mut String, number: u64)
    ensures
        final(text)@ == old(text)@ + decimal(number as nat),
    decreases number,
{
    if number < 10 {
        text.push(digit_char(number));
        assert(text@ =~= old(text)@ + decimal(number as nat));
    } else {
        push_decimal(text, number / 10);
        text.push(digit_char(number % 10));
        assert(text@ =~= old(text)@ + decimal(number as nat));
    }
}

/// The characters of a text.
pub fn characters(text: &str) -> (list: Vec<char>)
    ensures
        list@ == text@,
{
    let mut list: Vec<char> = Vec::new();
    for character in it: text.chars()
        invariant
            it.seq() == text@,
            list@ == text@.take(it.index() as int),
    {
        assert(text@.take(it.index() + 1) =~= text@.take(it.index() as int).push(character));
        list.push(character);
    }
    assert(text@.take(text@.len() as int) =~= text@);
    list
}

/// The text between two positions of a list of characters.
pub fn text_between(list: &Vec<char>, from: usize, to: usize) -> (text: String)
    requires
        from <= to <= list.len(),
    ensures
        text@ == list@.subrange(from as int, to as int),
{
    let mut text = String::new();
    let mut position: usize = from;
    while position < to
        invariant
            from <= position <= to <= list.len(),
            text@ == list@.subrange(from as int, position as int),
        decreases to - position,
    {
        assert(list@.subrange(from as int, position + 1) =~= list@.subrange(
            from as int,
            position as int,
        ).push(list@[position as int]));
        text.push(list[position]);
        position += 1;
    }
    text
}

/// Unicode's `White_Space` property.
pub open spec fn is_white_space(character: char) -> bool {
    let code = character as nat;
    ||| 9 <= code <= 13
    ||| code == 32
    ||| code == 0x85
    ||| code == 0xA0
    ||| code == 0x1680
    ||| 0x2000 <= code <= 0x200A
    ||| code == 0x2028
    ||| code == 0x2029
    ||| code == 0x202F
    ||| code == 0x205F
    ||| code == 0x3000
}

fn white_space(character: char) -> (result: bool)
    ensures
        result == is_white_space(character),
{
    let code: u32 = character as u32;
    (9 <= code && code <= 13) || code == 32 || code == 0x85 || code == 0xA0 || code == 0x1680 || (
    0x2000 <= code && code <= 0x200A) || code == 0x2028 || code == 0x2029 || code == 0x202F || code
        == 0x205F || code == 0x3000
}

/// Whether a text holds nothing but white space.
pub open spec fn is_blank(text: Seq<char>) -> bool {
    forall|i: int| 0 <= i < text.len() ==> is_white_space(#[trigger] text[i])
}

/// A text without the white space at its start.
pub open spec fn trimmed_start(text: Seq<char>) -> Seq<char>
    decreases text.len(),
{
    if text.len() > 0 && is_white_space(text[0]) {
        trimmed_start(text.drop_first())
    } else {
        text
    }
}

/// A text without the white space at its end.
pub open spec fn trimmed_end(text: Seq<char>) -> Seq<char>
    decreases text.len(),
{
    if text.len() > 0 && is_white_space(text.last()) {
        trimmed_end(text.drop_last())
    } else {
        text
    }
}

/// A text without the white space around it.
pub open spec fn trimmed(text: Seq<char>) -> Seq<char> {
    trimmed_end(trimmed_start(text))
}

/// The text without the white space around it.
pub fn trim(text: &str) -> (result: String)
    ensures
        result@ == trimmed(text@),
{
    let list = characters(text);
    let mut from: usize = 0;
    assert(list@.subrange(0, list.len() as int) =~= text@);
    while from < list.len() && white_space(list[from])
        invariant
            from <= list.len(),
            list@ == text@,
            trimmed_start(text@) == trimmed_start(list@.subrange(from as int, list.len() as int)),
        decreases list.len() - from,
    {
        assert(list@.subrange(from as int, list.len() as int).drop_first() =~= list@.subrange(
            from + 1,
            list.len() as int,
        ));
        from += 1;
    }
    let mut to: usize = list.len();
    assert(trimmed_start(text@) == list@.subrange(from as int, list.len() as int));
    while from < to && white_space(list[to - 1])
        invariant
            from <= to <= list.len(),
            list@ == text@,
            trimmed(text@) == trimmed_end(list@.subrange(from as int, to as int)),
        decreases to - from,
    {
        assert(list@.subrange(from as int, to as int).drop_last() =~= list@.subrange(
            from as int,
            to - 1,
        ));
        to -= 1;
    }
    text_between(&list, from, to)
}

proof fn lemma_blank_start(text: Seq<char>)
    ensures
        is_blank(text) <==> trimmed_start(text).len() == 0,
    decreases text.len(),
{
    if text.len() > 0 && is_white_space(text[0]) {
        lemma_blank_start(text.drop_first());
        if is_blank(text.drop_first()) {
            assert forall|i: int| 0 <= i < text.len() implies is_white_space(#[trigger] text[i]) by {
                if i > 0 {
                    assert(text.drop_first()[i - 1] == text[i]);
                }
            }
        } else {
            let i = choose|i: int|
                0 <= i < text.drop_first().len() && !is_white_space(#[trigger] text.drop_first()[i]);
            assert(text[i + 1] == text.drop_first()[i]);
        }
    }
}

/// What is left of a text after trimming is empty exactly for blank text.
pub proof fn law_trimmed_blank(text: Seq<char>)
    ensures
        is_blank(text) <==> trimmed(text).len() == 0,
{
    lemma_blank_start(text);
    let start = trimmed_start(text);
    lemma_trimmed_start_head(text);
    if start.len() > 0 {
        lemma_trimmed_end_keeps_head(start);
    }
}

proof fn lemma_trimmed_start_head(text: Seq<char>)
    ensures
        trimmed_start(text).len() > 0 ==> !is_white_space(trimmed_start(text)[0]),
    decreases text.len(),
{
    if text.len() > 0 && is_white_space(text[0]) {
        lemma_trimmed_start_head(text.drop_first());
    }
}

proof fn lemma_trimmed_end_keeps_head(text: Seq<char>)
    requires
        text.len() > 0,
        !is_white_space(text[0]),
    ensures
        trimmed_end(text).len() > 0,
    decreases text.len(),
{
    if is_white_space(text.last()) {
        lemma_trimmed_end_keeps_head(text.drop_last());
    }
}

/// Whether the text holds nothing but white space.
pub fn blank(text: &str) -> (result: bool)
    ensures
        result == is_blank(text@),
{
    for character in it: text.chars()
        invariant
            it.seq() == text@,
            forall|i: int| 0 <= i < it.index() ==> is_white_space(#[trigger] text@[i]),
    {
        if !white_space(character) {
            assert(text@[it.index() as int] == character);
            return false;
        }
    }
    true
}

/// Whether one text occurs in another at a position.
pub open spec fn occurs_at(text: Seq<char>, part: Seq<char>, position: int) -> bool {
    0 <= position && position + part.len() <= text.len() && text.subrange(
        position,
        position + part.len(),
    ) == part
}

/// Whether one text occurs in another.
pub open spec fn occurs_in(text: Seq<char>, part: Seq<char>) -> bool {
    exists|position: int| occurs_at(text, part, position)
}

fn occurs_here(text: &Vec<char>, part: &Vec<char>, position: usize) -> (result: bool)
    requires
        position <= text.len(),
    ensures
        result == occurs_at(text@, part@, position as int),
{
    if part.len() > text.len() - position {
        return false;
    }
    let mut index: usize = 0;
    while index < part.len()
        invariant
            index <= part.len(),
            position + part.len() <= text.len(),
            forall|i: int| 0 <= i < index ==> text@[position + i] == #[trigger] part@[i],
        decreases part.len() - index,
    {
        if text[position + index] != part[index] {
            assert(text@.subrange(position as int, position + part.len())[index as int]
                != part@[index as int]);
            return false;
        }
        index += 1;
    }
    assert(text@.subrange(position as int, position + part.len()) =~= part@);
    true
}

/// Whether the text holds the part.
pub fn contains(text: &str, part: &str) -> (result: bool)
    ensures
        result == occurs_in(text@, part@),
{
    let whole = characters(text);
    let piece = characters(part);
    let mut position: usize = 0;
    loop
        invariant
            position <= whole.len(),
            whole@ == text@,
            piece@ == part@,
            forall|p: int| 0 <= p < position ==> !occurs_at(text@, part@, p),
        decreases whole.len() - position,
    {
        if occurs_here(&whole, &piece, position) {
            return true;
        }
        if position == whole.len() {
            return false;
        }
        position += 1;
    }
}

/// Whether the text begins with the part.
pub fn starts_with(text: &str, part: &str) -> (result: bool)
    ensures
        result == occurs_at(text@, part@, 0),
{
    let whole = characters(text);
    let piece = characters(part);
    occurs_here(&whole, &piece, 0)
}

/// The text from a position of its characters on.
pub fn text_after(text: &str, from: usize) -> (rest: String)
    requires
        from <= text@.len(),
    ensures
        rest@ == text@.subrange(from as int, text@.len() as int),
{
    let list = characters(text);
    text_between(&list, from, list.len())
}

/// The position of the first line feed, or the length where there is none.
pub open spec fn line_end(text: Seq<char>) -> nat
    decreases text.len(),
{
    if text.len() == 0 || text[0] == '\n' {
        0
    } else {
        1 + line_end(text.drop_first())
    }
}

/// What [`line_end`] says, position by position.
pub proof fn lemma_line_end(text: Seq<char>, end: int)
    requires
        0 <= end <= text.len(),
        forall|i: int| 0 <= i < end ==> text[i] != '\n',
        end == text.len() || text[end] == '\n',
    ensures
        line_end(text) == end,
    decreases text.len(),
{
    if end > 0 {
        assert forall|i: int| 0 <= i < end - 1 implies text.drop_first()[i] != '\n' by {
            assert(text[i + 1] != '\n');
        }
        lemma_line_end(text.drop_first(), end - 1);
    }
}

/// Where the line that begins at a position ends.
pub fn find_line_end(list: &Vec<char>, from: usize) -> (end: usize)
    requires
        from <= list.len(),
    ensures
        from <= end <= list.len(),
        end - from == line_end(list@.subrange(from as int, list.len() as int)),
        end == list.len() || list@[end as int] == '\n',
        forall|i: int| from <= i < end ==> list@[i] != '\n',
{
    let mut end: usize = from;
    while end < list.len() && list[end] != '\n'
        invariant
            from <= end <= list.len(),
            forall|i: int| from <= i < end ==> list@[i] != '\n',
        decreases list.len() - end,
    {
        end += 1;
    }
    proof {
        let rest = list@.subrange(from as int, list.len() as int);
        assert forall|i: int| 0 <= i < end - from implies rest[i] != '\n' by {
            assert(list@[from + i] != '\n');
        }
        lemma_line_end(rest, end - from);
    }
    end
}

/// A line without the carriage return before its line feed.
pub open spec fn without_return(line: Seq<char>) -> Seq<char> {
    if line.len() > 0 && line.last() == '\r' {
        line.drop_last()
    } else {
        line
    }
}

/// The lines of a text: each ends at a line feed, with or without a carriage return before it;
/// the last one may lack its line feed.
pub open spec fn lines_of(text: Seq<char>) -> Seq<Seq<char>>
    decreases text.len(),
{
    if text.len() == 0 {
        Seq::empty()
    } else {
        let end = line_end(text) as int;
        if 0 <= end < text.len() {
            seq![without_return(text.subrange(0, end))] + lines_of(
                text.subrange(end + 1, text.len() as int),
            )
        } else {
            seq![text]
        }
    }
}

proof fn lemma_line_ends_there(text: Seq<char>)
    ensures
        line_end(text) <= text.len(),
        forall|i: int| 0 <= i < line_end(text) ==> text[i] != '\n',
    decreases text.len(),
{
    if text.len() > 0 && text[0] != '\n' {
        let rest = text.drop_first();
        lemma_line_ends_there(rest);
        assert forall|i: int| 0 <= i < line_end(text) implies text[i] != '\n' by {
            if i > 0 {
                assert(rest[i - 1] == text[i]);
            }
        }
    }
}

/// The lines of a text are parts of it without line feeds.
pub proof fn law_lines_hold_no_line_feed(text: Seq<char>, place: int)
    requires
        0 <= place < lines_of(text).len(),
    ensures
        !lines_of(text)[place].contains('\n'),
        forall|c: char| #[trigger] lines_of(text)[place].contains(c) ==> text.contains(c),
    decreases text.len(),
{
    let end = line_end(text) as int;
    lemma_line_ends_there(text);
    if end < text.len() {
        let head = text.subrange(0, end);
        let rest = text.subrange(end + 1, text.len() as int);
        if place == 0 {
            let line = without_return(head);
            assert forall|c: char| #[trigger] line.contains(c) implies text.contains(c) && c
                != '\n' by {
                let i = choose|i: int| 0 <= i < line.len() && line[i] == c;
                assert(text[i] == c);
            }
        } else {
            law_lines_hold_no_line_feed(rest, place - 1);
            let line = lines_of(rest)[place - 1];
            assert(lines_of(text)[place] == line);
            assert forall|c: char| #[trigger] line.contains(c) implies text.contains(c) by {
                let i = choose|i: int| 0 <= i < rest.len() && rest[i] == c;
                assert(text[end + 1 + i] == c);
            }
        }
    } else {
        assert(lines_of(text)[place] == text);
    }
}

/// The views of a list of texts.
pub open spec fn views(list: Seq<String>) -> Seq<Seq<char>> {
    list.map_values(|text: String| text@)
}

/// The lines of the text.
pub fn lines(text: &str) -> (list: Vec<String>)
    ensures
        views(list@) == lines_of(text@),
{
    let whole = characters(text);
    let mut list: Vec<String> = Vec::new();
    let mut from: usize = 0;
    assert(whole@.subrange(0, whole.len() as int) =~= text@);
    assert(views(list@) + lines_of(text@) =~= lines_of(text@));
    while from < whole.len()
        invariant
            from <= whole.len(),
            whole@ == text@,
            views(list@) + lines_of(whole@.subrange(from as int, whole.len() as int)) == lines_of(
                text@,
            ),
        decreases whole.len() - from,
    {
        let ghost rest = whole@.subrange(from as int, whole.len() as int);
        let end: usize = find_line_end(&whole, from);
        let ghost before = list@;
        if end < whole.len() {
            let stop: usize = if end > from && whole[end - 1] == '\r' {
                end - 1
            } else {
                end
            };
            let line = text_between(&whole, from, stop);
            proof {
                let e = end - from;
                assert(rest.subrange(0, e) =~= whole@.subrange(from as int, end as int));
                assert(line@ =~= without_return(rest.subrange(0, e)));
                assert(rest.subrange(e + 1, rest.len() as int) =~= whole@.subrange(
                    end + 1,
                    whole.len() as int,
                ));
                let tail = lines_of(whole@.subrange(end + 1, whole.len() as int));
                assert(lines_of(rest) =~= seq![line@] + tail);
                assert(views(before.push(line)) =~= views(before).push(line@));
                assert(views(before.push(line)) + tail =~= views(before) + lines_of(rest));
            }
            list.push(line);
            from = end + 1;
        } else {
            let line = text_between(&whole, from, end);
            proof {
                assert(line@ =~= rest);
                assert(lines_of(rest) =~= seq![line@]);
                assert(views(before.push(line)) =~= views(before).push(line@));
                assert(whole@.subrange(end as int, whole.len() as int) =~= Seq::<char>::empty());
                assert(views(before.push(line)) + Seq::<Seq<char>>::empty() =~= views(before)
                    + lines_of(rest));
            }
            list.push(line);
            from = end;
        }
    }
    assert(whole@.subrange(from as int, whole.len() as int) =~= Seq::<char>::empty());
    assert(views(list@) =~= views(list@) + Seq::<Seq<char>>::empty());
    list
}

/// A path in the form in which file tools name it: forward slashes, and no leading `./`.
pub open spec fn forward_slashes(path: Seq<char>) -> Seq<char> {
    path.map_values(|character: char| if character == '\\' { '/' } else { character })
}

/// A path without any `./` at its start.
pub open spec fn without_dot_prefix(path: Seq<char>) -> Seq<char>
    decreases path.len(),
{
    if path.len() >= 2 && path[0] == '.' && path[1] == '/' {
        without_dot_prefix(path.subrange(2, path.len() as int))
    } else {
        path
    }
}

fn slashed_characters(path: &str) -> (slashed: Vec<char>)
    ensures
        slashed@ == forward_slashes(path@),
{
    let source = characters(path);
    let mut slashed: Vec<char> = Vec::new();
    let mut index: usize = 0;
    while index < source.len()
        invariant
            index <= source.len(),
            source@ == path@,
            slashed@ == forward_slashes(path@).take(index as int),
        decreases source.len() - index,
    {
        let character = if source[index] == '\\' {
            '/'
        } else {
            source[index]
        };
        assert(forward_slashes(path@).take(index + 1) =~= forward_slashes(path@).take(
            index as int,
        ).push(character));
        slashed.push(character);
        index += 1;
    }
    assert(forward_slashes(path@).take(index as int) =~= forward_slashes(path@));
    slashed
}

/// The path with forward slashes.
pub fn with_forward_slashes(path: &str) -> (text: String)
    ensures
        text@ == forward_slashes(path@),
{
    let slashed = slashed_characters(path);
    let text = text_between(&slashed, 0, slashed.len());
    assert(text@ =~= slashed@);
    text
}

/// The path of a file tool's argument, in its logical form.
pub fn logical_path(path: &str) -> (logical: String)
    ensures
        logical@ == without_dot_prefix(forward_slashes(path@)),
{
    let slashed = slashed_characters(path);
    let mut from: usize = 0;
    assert(slashed@.subrange(0, slashed.len() as int) =~= slashed@);
    while slashed.len() - from >= 2 && slashed[from] == '.' && slashed[from + 1] == '/'
        invariant
            from <= slashed.len(),
            slashed@ == forward_slashes(path@),
            without_dot_prefix(slashed@.subrange(from as int, slashed.len() as int))
                == without_dot_prefix(forward_slashes(path@)),
        decreases slashed.len() - from,
    {
        assert(slashed@.subrange(from as int, slashed.len() as int).subrange(
            2,
            slashed.len() - from,
        ) =~= slashed@.subrange(from + 2, slashed.len() as int));
        from += 2;
    }
    text_between(&slashed, from, slashed.len())
}

/// Whether a character is a decimal digit.
pub open spec fn is_digit(character: char) -> bool {
    '0' <= character && character <= '9'
}

/// The number that a sequence of digits stands for.
pub open spec fn digits_value(digits: Seq<char>) -> nat
    decreases digits.len(),
{
    if digits.len() == 0 {
        0
    } else {
        digits_value(digits.drop_last()) * 10 + (digits.last() as nat - 48) as nat
    }
}

/// A text without a plus sign at its start.
pub open spec fn without_plus(text: Seq<char>) -> Seq<char> {
    if text.len() > 0 && text[0] == '+' {
        text.drop_first()
    } else {
        text
    }
}

/// Whether a text is made of digits alone.
pub open spec fn all_digits(text: Seq<char>) -> bool {
    forall|i: int| 0 <= i < text.len() ==> is_digit(#[trigger] text[i])
}

/// The number that a text gives: digits, with at most one plus sign before them, whose value
/// fits.
pub open spec fn parsed_u64(text: Seq<char>) -> Option<u64> {
    let digits = without_plus(text);
    if digits.len() > 0 && all_digits(digits) && digits_value(digits) <= u64::MAX {
        Some(digits_value(digits) as u64)
    } else {
        None
    }
}

proof fn lemma_digits_value_grows(digits: Seq<char>, prefix: int)
    requires
        0 <= prefix <= digits.len(),
    ensures
        digits_value(digits.take(prefix)) <= digits_value(digits),
    decreases digits.len(),
{
    if prefix == digits.len() {
        assert(digits.take(prefix) =~= digits);
    } else {
        lemma_digits_value_grows(digits.drop_last(), prefix);
        assert(digits.drop_last().take(prefix) =~= digits.take(prefix));
    }
}

/// The number that the text gives.
pub fn parse_u64(text: &str) -> (number: Option<u64>)
    ensures
        number == parsed_u64(text@),
{
    let list = characters(text);
    let first: usize = if list.len() > 0 && list[0] == '+' {
        1
    } else {
        0
    };
    let ghost digits = without_plus(text@);
    assert(digits =~= list@.subrange(first as int, list.len() as int));
    if first == list.len() {
        return None;
    }
    let mut value: u64 = 0;
    let mut index: usize = first;
    assert(digits.take(0) =~= Seq::<char>::empty());
    while index < list.len()
        invariant
            first <= index <= list.len(),
            digits == list@.subrange(first as int, list.len() as int),
            value == digits_value(digits.take(index - first)),
            forall|i: int| 0 <= i < index - first ==> is_digit(#[trigger] digits[i]),
            digits == without_plus(text@),
            digits.len() > 0,
        decreases list.len() - index,
    {
        let character = list[index];
        assert(digits[index - first] == character);
        if character < '0' || character > '9' {
            return None;
        }
        let place: u64 = (character as u32 - 48) as u64;
        assert(digits.take(index - first + 1).drop_last() =~= digits.take(index - first));
        proof {
            lemma_digits_value_grows(digits, index - first + 1);
        }
        if value > 1844674407370955161 || (value == 1844674407370955161 && place > 5) {
            return None;
        }
        value = value * 10 + place;
        index += 1;
    }
    assert(digits.take(index - first) =~= digits);
    Some(value)
}

/// What stands for a character in text between XML tags.
pub open spec fn escaped_character(character: char) -> Seq<char> {
    if character == '&' {
        "&amp;"@
    } else if character == '<' {
        "&lt;"@
    } else if character == '>' {
        "&gt;"@
    } else {
        seq![character]
    }
}

/// A text as it stands between XML tags.
pub open spec fn escaped(content: Seq<char>) -> Seq<char>
    decreases content.len(),
{
    if content.len() == 0 {
        Seq::empty()
    } else {
        escaped(content.drop_last()) + escaped_character(content.last())
    }
}

/// Escapes `&`, `<` and `>`.
pub fn xml_escape(content: &str) -> (text: String)
    ensures
        text@ == escaped(content@),
{
    let mut text = String::new();
    for character in it: content.chars()
        invariant
            it.seq() == content@,
            text@ == escaped(content@.take(it.index() as int)),
    {
        assert(content@.take(it.index() + 1).drop_last() =~= content@.take(it.index() as int));
        if character == '&' {
            text.append("&amp;");
        } else if character == '<' {
            text.append("&lt;");
        } else if character == '>' {
            text.append("&gt;");
        } else {
            text.push(character);
        }
        assert(text@ =~= escaped(content@.take(it.index() + 1)));
    }
    assert(content@.take(content@.len() as int) =~= content@);
    text
}

/// Escaped text holds no angle bracket, so it can neither open nor close a tag.
pub proof fn law_escaped_has_no_tags(content: Seq<char>)
    ensures
        forall|i: int|
            0 <= i < escaped(content).len() ==> #[trigger] escaped(content)[i] != '<' && escaped(
                content,
            )[i] != '>',
    decreases content.len(),
{
    reveal_strlit("&amp;");
    reveal_strlit("&lt;");
    reveal_strlit("&gt;");
    if content.len() > 0 {
        law_escaped_has_no_tags(content.drop_last());
        let head = escaped(content.drop_last());
        let tail = escaped_character(content.last());
        assert forall|i: int| 0 <= i < escaped(content).len() implies #[trigger] escaped(content)[i]
            != '<' && escaped(content)[i] != '>' by {
            if i < head.len() {
                assert(escaped(content)[i] == head[i]);
            } else {
                assert(escaped(content)[i] == tail[i - head.len()]);
            }
        }
    }
}

/// Escaping goes through a text piece by piece: the escaped form of two texts in a row is their
/// escaped forms in a row.
pub proof fn law_escaped_piece_by_piece(first: Seq<char>, second: Seq<char>)
    ensures
        escaped(first + second) == escaped(first) + escaped(second),
    decreases second.len(),
{
    if second.len() == 0 {
        assert(first + second =~= first);
        assert(escaped(first) + escaped(second) =~= escaped(first));
    } else {
        law_escaped_piece_by_piece(first, second.drop_last());
        assert((first + second).drop_last() =~= first + second.drop_last());
        assert(escaped(first + second) =~= escaped(first) + escaped(second));
    }
}

/// Whether the text goes on so at a place.
pub open spec fn stands_at(text: Seq<char>, place: int, word: Seq<char>) -> bool {
    place + word.len() <= text.len() && text.subrange(place, place + word.len()) == word
}

/// Every `&` of an escaped text begins one of the three escapes.
pub proof fn law_escaped_ampersands_begin_escapes(content: Seq<char>, place: int)
    requires
        0 <= place < escaped(content).len(),
        escaped(content)[place] == '&',
    ensures
        stands_at(escaped(content), place, "&amp;"@) || stands_at(
            escaped(content),
            place,
            "&lt;"@,
        ) || stands_at(escaped(content), place, "&gt;"@),
    decreases content.len(),
{
    reveal_strlit("&amp;");
    reveal_strlit("&lt;");
    reveal_strlit("&gt;");
    let text = escaped(content);
    let head = escaped(content.drop_last());
    let tail = escaped_character(content.last());
    if place < head.len() {
        assert(head[place] == text[place]);
        law_escaped_ampersands_begin_escapes(content.drop_last(), place);
        if stands_at(head, place, "&amp;"@) {
            assert(text.subrange(place, place + 5) =~= head.subrange(place, place + 5));
        } else {
            assert(text.subrange(place, place + 4) =~= head.subrange(place, place + 4));
        }
    } else {
        assert(text[place] == tail[place - head.len()]);
        assert(place == head.len());
        assert(text.subrange(place, place + tail.len()) =~= tail);
    }
}

/// What undoes [`escaped`]: the text whose escaped form this is.
pub open spec fn unescaped(text: Seq<char>) -> Seq<char>
    decreases text.len(),
{
    if text.len() == 0 {
        Seq::empty()
    } else if text.len() >= 5 && text.take(5) == "&amp;"@ {
        seq!['&'] + unescaped(text.skip(5))
    } else if text.len() >= 4 && text.take(4) == "&lt;"@ {
        seq!['<'] + unescaped(text.skip(4))
    } else if text.len() >= 4 && text.take(4) == "&gt;"@ {
        seq!['>'] + unescaped(text.skip(4))
    } else {
        seq![text[0]] + unescaped(text.skip(1))
    }
}

proof fn lemma_escaped_head(content: Seq<char>)
    requires
        content.len() > 0,
    ensures
        escaped(content) == escaped_character(content[0]) + escaped(content.drop_first()),
    decreases content.len(),
{
    if content.len() == 1 {
        assert(content.drop_last() =~= Seq::<char>::empty());
        assert(content.drop_first() =~= Seq::<char>::empty());
        assert(escaped(content) =~= escaped_character(content[0]) + escaped(content.drop_first()));
    } else {
        lemma_escaped_head(content.drop_last());
        assert(content.drop_last().drop_first() =~= content.drop_first().drop_last());
        assert(escaped(content) =~= escaped_character(content[0]) + escaped(content.drop_first()));
    }
}

/// Escaping loses nothing: the text can be read back from its escaped form.
pub proof fn law_escaped_reads_back(content: Seq<char>)
    ensures
        unescaped(escaped(content)) == content,
    decreases content.len(),
{
    reveal_strlit("&amp;");
    reveal_strlit("&lt;");
    reveal_strlit("&gt;");
    if content.len() > 0 {
        lemma_escaped_head(content);
        let rest = content.drop_first();
        law_escaped_reads_back(rest);
        let head = escaped_character(content[0]);
        let text = escaped(content);
        assert(text.skip(head.len() as int) =~= escaped(rest));
        assert(text.take(head.len() as int) =~= head);
        if content[0] == '<' || content[0] == '>' {
            if text.len() >= 5 {
                assert(text.take(5)[1] == text[1]);
                assert("&amp;"@[1] == 'a');
            }
            if content[0] == '>' {
                assert(text.take(4)[1] == 'g');
                assert("&lt;"@[1] == 'l');
            }
        } else if content[0] != '&' {
            if text.len() >= 5 {
                assert(text.take(5)[0] == text[0]);
            }
            if text.len() >= 4 {
                assert(text.take(4)[0] == text[0]);
            }
            assert("&amp;"@[0] == '&');
            assert("&lt;"@[0] == '&');
            assert("&gt;"@[0] == '&');
        }
        assert(unescaped(text) =~= seq![content[0]] + unescaped(escaped(rest)));
        assert(seq![content[0]] + rest =~= content);
    }
}

/// A text with a number in it.
pub(crate) fn say1(first: &str, number: u64, second: &str) -> (text: String)
    ensures
        text@ == first@ + decimal(number as nat) + second@,
{
    let mut text = first.to_owned();
    push_decimal(&mut text, number);
    text.append(second);
    text
}

/// A text with two numbers in it.
pub(crate) fn say2(first: &str, one: u64, second: &str, two: u64, third: &str) -> (text: String)
    ensures
        text@ == first@ + decimal(one as nat) + second@ + decimal(two as nat) + third@,
{
    let mut text = say1(first, one, second);
    push_decimal(&mut text, two);
    text.append(third);
    text
}

/// A text with three numbers in it.
pub(crate) fn say3(
    first: &str,
    one: u64,
    second: &str,
    two: u64,
    third: &str,
    three: u64,
    fourth: &str,
) -> (text: String)
    ensures
        text@ == first@ + decimal(one as nat) + second@ + decimal(two as nat) + third@ + decimal(
            three as nat,
        ) + fourth@,
{
    let mut text = say2(first, one, second, two, third);
    push_decimal(&mut text, three);
    text.append(fourth);
    text
}

/// Three texts in a row.
pub(crate) fn join3(first: &str, second: &str, third: &str) -> (text: String)
    ensures
        text@ == first@ + second@ + third@,
{
    let mut text = first.to_owned();
    text.append(second);
    text.append(third);
    text
}

} // verus!
