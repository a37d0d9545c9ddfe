use vstd::prelude::*;

verus! {

/// `String::push`: the text grows by one character at its end.
#[verifier::external_body]
pub(crate) fn push_char(text: &mut String, c: char)
    ensures
        final(text)@ == old(text)@.push(c),
{
    text.push(c);
}

/// `str::chars`, gathered: the characters of a text in their order.
pub fn chars_of(text: &str) -> (chars: Vec<char>)
    ensures
        chars@ == text@,
{
    let mut chars: Vec<char> = Vec::new();
    for c in iter: text.chars()
        invariant
            iter.seq() == text@,
            chars@ == text@.take(iter.index() as int),
    {
        assert(text@.take(iter.index() + 1) =~= text@.take(iter.index() as int).push(c));
        chars.push(c);
    }
    assert(text@.take(text@.len() as int) =~= text@);
    chars
}

/// The text made of the characters `chars[from..]`.
pub fn text_from(chars: &Vec<char>, from: usize) -> (text: String)
    requires
        from <= chars.len(),
    ensures
        text@ == chars@.skip(from as int),
{
    let mut text = String::new();
    let mut index = from;
    assert(chars@.skip(from as int).take(0) =~= Seq::<char>::empty());
    while index < chars.len()
        invariant
            from <= index <= chars.len(),
            text@ == chars@.skip(from as int).take(index - from),
        decreases chars.len() - index,
    {
        assert(chars@.skip(from as int).take(index + 1 - from) =~= chars@.skip(from as int).take(
            index - from,
        ).push(chars[index as int]));
        push_char(&mut text, chars[index]);
        index += 1;
    }
    assert(chars@.skip(from as int).take(chars.len() - from) =~= chars@.skip(from as int));
    text
}

/// The digits of a number in base ten, most significant first.
pub open spec fn decimal(number: nat) -> Seq<char>
    decreases number,
{
    if number < 10 {
        seq![digit_char(number)]
    } else {
        decimal(number / 10).push(digit_char(number % 10))
    }
}

/// The character of a digit below ten.
pub open spec fn digit_char(digit: nat) -> char {
    if digit == 0 {
        '0'
    } else if digit == 1 {
        '1'
    } else if digit == 2 {
        '2'
    } else if digit == 3 {
        '3'
    } else if digit == 4 {
        '4'
    } else if digit == 5 {
        '5'
    } else if digit == 6 {
        '6'
    } else if digit == 7 {
        '7'
    } else if digit == 8 {
        '8'
    } else {
        '9'
    }
}

/// The character of a digit below ten.
pub fn digit_of(digit: u8) -> (c: char)
    requires
        digit < 10,
    ensures
        c == digit_char(digit as nat),
{
    if digit == 0 {
        '0'
    } else if digit == 1 {
        '1'
    } else if digit == 2 {
        '2'
    } else if digit == 3 {
        '3'
    } else if digit == 4 {
        '4'
    } else if digit == 5 {
        '5'
    } else if digit == 6 {
        '6'
    } else if digit == 7 {
        '7'
    } else if digit == 8 {
        '8'
    } else {
        '9'
    }
}

/// A number written in base ten.
pub fn decimal_text(number: u64) -> (text: String)
    ensures
        text@ == decimal(number as nat),
{
    let mut digits: Vec<char> = Vec::new();
    let mut rest = number;
    while rest >= 10
        invariant
            decimal(number as nat) == decimal(rest as nat) + digits@.reverse(),
        decreases rest,
    {
        let digit = digit_of((rest % 10) as u8);
        proof {
            let longer = digits@.push(digit);
            assert(longer.reverse() =~= seq![digit] + digits@.reverse());
            assert(decimal(rest as nat) == decimal((rest / 10) as nat).push(digit));
            assert(decimal((rest / 10) as nat).push(digit) + digits@.reverse() =~= decimal(
                (rest / 10) as nat,
            ) + longer.reverse());
        }
        digits.push(digit);
        rest = rest / 10;
    }
    let mut text = String::new();
    push_char(&mut text, digit_of(rest as u8));
    let mut index = digits.len();
    while index > 0
        invariant
            index <= digits.len(),
            text@ == decimal(rest as nat) + digits@.reverse().take(digits.len() - index),
        decreases index,
    {
        index -= 1;
        proof {
            let turned = digits@.reverse();
            assert(turned[digits.len() - index - 1] == digits[index as int]);
            assert(turned.take(digits.len() - index) =~= turned.take(digits.len() - index - 1).push(
                digits[index as int],
            ));
        }
        push_char(&mut text, digits[index]);
    }
    assert(digits@.reverse().take(digits.len() as int) =~= digits@.reverse());
    text
}

/// Two texts joined by a hyphen.
pub fn hyphenated(head: &str, tail: &str) -> (text: String)
    ensures
        text@ == head@ + seq!['-'] + tail@,
{
    let mut text = head.to_owned();
    push_char(&mut text, '-');
    text.append(tail);
    assert(text@ =~= head@ + seq!['-'] + tail@);
    text
}

/// The place of the first hyphen of a text among its first `count`
/// characters, or `count` where there is none.
pub open spec fn first_hyphen(text: Seq<char>, count: int) -> int
    decreases count,
{
    if count <= 0 {
        0
    } else if first_hyphen(text, count - 1) < count - 1 {
        first_hyphen(text, count - 1)
    } else if text[count - 1] == '-' {
        count - 1
    } else {
        count
    }
}

/// The place after the last hyphen of a text among its first `count`
/// characters, or 0 where there is none.
pub open spec fn after_last_hyphen(text: Seq<char>, count: int) -> int
    decreases count,
{
    if count <= 0 {
        0
    } else if text[count - 1] == '-' {
        count
    } else {
        after_last_hyphen(text, count - 1)
    }
}

/// What stands before the first hyphen of a name: the whole name where it
/// has none.
pub open spec fn name_prefix(name: Seq<char>) -> Seq<char> {
    name.take(first_hyphen(name, name.len() as int))
}

/// What stands after the last hyphen of a name: the whole name where it
/// has none.
pub open spec fn name_suffix(name: Seq<char>) -> Seq<char> {
    name.skip(after_last_hyphen(name, name.len() as int))
}

/// The first hyphen lies within the text, and nothing before it is one.
pub proof fn lemma_first_hyphen(text: Seq<char>, count: int)
    requires
        0 <= count <= text.len(),
    ensures
        0 <= first_hyphen(text, count) <= count,
        first_hyphen(text, count) < count ==> text[first_hyphen(text, count)] == '-',
        forall|i: int| 0 <= i < first_hyphen(text, count) ==> text[i] != '-',
    decreases count,
{
    if count > 0 {
        lemma_first_hyphen(text, count - 1);
    }
}

/// The place after the last hyphen lies within the text, and nothing after
/// it is a hyphen.
pub proof fn lemma_last_hyphen(text: Seq<char>, count: int)
    requires
        0 <= count <= text.len(),
    ensures
        0 <= after_last_hyphen(text, count) <= count,
        after_last_hyphen(text, count) > 0 ==> text[after_last_hyphen(text, count) - 1] == '-',
        forall|i: int| after_last_hyphen(text, count) <= i < count ==> text[i] != '-',
    decreases count,
{
    if count > 0 {
        lemma_last_hyphen(text, count - 1);
    }
}

/// The text made of the characters `chars[from..to]`.
pub fn text_between(chars: &Vec<char>, from: usize, to: usize) -> (text: String)
    requires
        from <= to <= chars.len(),
    ensures
        text@ == chars@.subrange(from as int, to as int),
{
    let mut text = String::new();
    let mut index = from;
    assert(chars@.subrange(from as int, from as int) =~= Seq::<char>::empty());
    while index < to
        invariant
            from <= index <= to <= chars.len(),
            text@ == chars@.subrange(from as int, index as int),
        decreases to - index,
    {
        assert(chars@.subrange(from as int, index + 1) =~= chars@.subrange(
            from as int,
            index as int,
        ).push(chars[index as int]));
        push_char(&mut text, chars[index]);
        index += 1;
    }
    text
}

/// Splits the name of a state: what stands before its first hyphen and
/// what stands after its last.
pub fn split_name(name: &str) -> (parts: (String, String))
    ensures
        parts.0@ == name_prefix(name@),
        parts.1@ == name_suffix(name@),
{
    let chars = chars_of(name);
    let mut first: usize = chars.len();
    let mut after: usize = 0;
    let mut index: usize = 0;
    while index < chars.len()
        invariant
            index <= chars.len(),
            first == if first_hyphen(chars@, index as int) < index {
                first_hyphen(chars@, index as int)
            } else {
                chars.len() as int
            },
            first_hyphen(chars@, index as int) <= index,
            after == after_last_hyphen(chars@, index as int),
            after <= index,
        decreases chars.len() - index,
    {
        if chars[index] == '-' {
            if first == chars.len() {
                first = index;
            }
            after = index + 1;
        }
        index += 1;
    }
    proof {
        lemma_first_hyphen(chars@, chars.len() as int);
        assert(chars@.subrange(0, first as int) =~= chars@.take(first as int));
        assert(chars@.subrange(after as int, chars.len() as int) =~= chars@.skip(after as int));
    }
    (text_between(&chars, 0, first), text_between(&chars, after, chars.len()))
}

/// The texts one after the other, with the separator between them.
pub open spec fn joined(items: Seq<Seq<char>>, separator: Seq<char>) -> Seq<char>
    decreases items.len(),
{
    if items.len() == 0 {
        Seq::empty()
    } else if items.len() == 1 {
        items[0]
    } else {
        joined(items.drop_last(), separator) + separator + items.last()
    }
}

/// What each text of a list says.
pub open spec fn texts(items: Seq<String>) -> Seq<Seq<char>> {
    Seq::new(items.len(), |i: int| items[i]@)
}

/// Joins texts with a separator between them.
pub fn join(items: &Vec<String>, separator: &str) -> (text: String)
    ensures
        text@ == joined(texts(items@), separator@),
{
    let mut text = String::new();
    let mut index: usize = 0;
    assert(texts(items@).take(0) =~= Seq::<Seq<char>>::empty());
    while index < items.len()
        invariant
            index <= items.len(),
            text@ == joined(texts(items@).take(index as int), separator@),
        decreases items.len() - index,
    {
        proof {
            let longer = texts(items@).take(index + 1);
            assert(longer.drop_last() =~= texts(items@).take(index as int));
            assert(longer.last() == items@[index as int]@);
        }
        if index > 0 {
            text.append(separator);
        }
        text.append(items[index].as_str());
        proof {
            assert(text@ =~= joined(texts(items@).take(index + 1), separator@));
        }
        index += 1;
    }
    assert(texts(items@).take(items.len() as int) =~= texts(items@));
    text
}

/// The digits of a whole number that fits into 32 bits with a sign: an
/// optional sign, then digits only, at least one.
pub open spec fn is_number_text(text: Seq<char>) -> bool {
    let digits = if text.len() > 0 && (text[0] == '+' || text[0] == '-') {
        text.skip(1)
    } else {
        text
    };
    &&& digits.len() > 0
    &&& forall|i: int| 0 <= i < digits.len() ==> '0' <= #[trigger] digits[i] <= '9'
    &&& if text[0] == '-' {
        digits_value(digits) <= 0x8000_0000
    } else {
        digits_value(digits) <= 0x7fff_ffff
    }
}

/// The number that digits spell in base ten.
pub open spec fn digits_value(digits: Seq<char>) -> nat
    decreases digits.len(),
{
    if digits.len() == 0 {
        0
    } else {
        (digits_value(digits.drop_last()) * 10 + (digits.last() as u32 - 48)) as nat
    }
}

/// `str::parse` for a whole number of 32 bits with a sign: whether the
/// text is such a number, written in base ten.
#[verifier::external_body]
pub(crate) fn is_number(text: &str) -> (parsed: bool)
    ensures
        parsed == is_number_text(text@),
{
    text.parse::<i32>().is_ok()
}

} // verus!
