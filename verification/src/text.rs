//! Text: decimal numbers, lists separated by a character, and search.
use vstd::prelude::*;

verus! {

/// The character of a decimal digit.
pub open spec fn digit_char(digit: nat) -> char {
    if digit == 0 {
        '0'
    } else if digit == 1 {
        '1'
    } else if digit == 2 {
        '2'
    } else if digit == 3 {
        '3'
    } else if digit == 4 {
        '4'
    } else if digit == 5 {
        '5'
    } else if digit == 6 {
        '6'
    } else if digit == 7 {
        '7'
    } else if digit == 8 {
        '8'
    } else {
        '9'
    }
}

/// A number in decimal, without leading zeros.
pub open spec fn decimal_text(number: nat) -> Seq<char>
    decreases number,
{
    if number < 10 {
        seq![digit_char(number)]
    } else {
        decimal_text(number / 10).push(digit_char(number % 10))
    }
}

/// A decimal digit as text.
fn digit_str(digit: usize) -> (text: &'static str)
    requires
        digit < 10,
    ensures
        text@ == seq![digit_char(digit as nat)],
{
    proof {
        reveal_strlit("0");
        reveal_strlit("1");
        reveal_strlit("2");
        reveal_strlit("3");
        reveal_strlit("4");
        reveal_strlit("5");
        reveal_strlit("6");
        reveal_strlit("7");
        reveal_strlit("8");
        reveal_strlit("9");
    }
    match digit {
        0 => "0",
        1 => "1",
        2 => "2",
        3 => "3",
        4 => "4",
        5 => "5",
        6 => "6",
        7 => "7",
        8 => "8",
        _ => "9",
    }
}

/// Writes a number in decimal.
pub fn decimal(number: usize) -> (text: String)
    ensures
        text@ == decimal_text(number as nat),
    decreases number,
{
    if number < 10 {
        digit_str(number).to_owned()
    } else {
        let mut text = decimal(number / 10);
        text.append(digit_str(number % 10));
        text
    }
}

/// The pieces of a text between the occurrences of a separator; always at least one.
pub open spec fn split_text(text: Seq<char>, separator: char) -> Seq<Seq<char>>
    decreases text.len(),
{
    if text.len() == 0 {
        seq![Seq::empty()]
    } else {
        let pieces = split_text(text.drop_last(), separator);
        if text.last() == separator {
            pieces.push(Seq::empty())
        } else {
            pieces.update(pieces.len() - 1, pieces.last().push(text.last()))
        }
    }
}

/// The pieces of a list in which nothing stands for an empty piece.
pub open spec fn list_items(text: Seq<char>, separator: char) -> Seq<Seq<char>> {
    split_text(text, separator).filter(|piece: Seq<char>| piece.len() > 0)
}

/// What some texts hold.
pub open spec fn texts(items: Seq<String>) -> Seq<Seq<char>> {
    items.map_values(|item: String| item@)
}

/// Texts one after the other, with a separator between neighbours.
pub open spec fn join_text(items: Seq<Seq<char>>, separator: Seq<char>) -> Seq<char>
    decreases items.len(),
{
    if items.len() == 0 {
        Seq::empty()
    } else if items.len() == 1 {
        items[0]
    } else {
        join_text(items.drop_last(), separator) + separator + items.last()
    }
}

/// Whether one text occurs within another.
pub open spec fn occurs_in(needle: Seq<char>, text: Seq<char>) -> bool {
    exists|start: int|
        0 <= start <= text.len() - needle.len() && #[trigger] text.subrange(
            start,
            start + needle.len(),
        ) == needle
}

/// `String::push` appends one character.
pub assume_specification[ String::push ](text: &mut String, c: char)
    ensures
        final(text)@ == old(text)@.push(c),
;

/// Appends the last of some pieces to the items kept of the others, unless it is empty.
fn keep_piece(items: &mut Vec<String>, piece: String, Ghost(pieces): Ghost<Seq<Seq<char>>>)
    requires
        pieces.len() > 0,
        piece@ == pieces.last(),
        texts(old(items)@) == pieces.drop_last().filter(|piece: Seq<char>| piece.len() > 0),
    ensures
        texts(final(items)@) == pieces.filter(|piece: Seq<char>| piece.len() > 0),
{
    proof {
        reveal(Seq::filter);
    }
    let ghost before = items@;
    if !piece.as_str().is_empty() {
        items.push(piece);
        assert(texts(items@) == texts(before).push(piece@));
    }
}

/// Splits a list at a separator and leaves out the empty pieces.
pub fn split_list(text: &str, separator: char) -> (items: Vec<String>)
    ensures
        texts(items@) == list_items(text@, separator),
{
    let mut items: Vec<String> = Vec::new();
    let mut piece = String::new();
    let ghost keep = |piece: Seq<char>| piece.len() > 0;
    assert(texts(items@) == split_text(Seq::empty(), separator).drop_last().filter(keep)) by {
        reveal(Seq::filter);
    }
    for c in it: text.chars()
        invariant
            it.seq() == text@,
            keep == (|piece: Seq<char>| piece.len() > 0),
            ({
                let pieces = split_text(text@.take(it.index()), separator);
                &&& pieces.len() > 0
                &&& piece@ == pieces.last()
                &&& texts(items@) == pieces.drop_last().filter(keep)
            }),
    {
        let ghost pieces = split_text(text@.take(it.index()), separator);
        let ghost next_pieces = split_text(text@.take(it.index() + 1), separator);
        assert(text@.take(it.index() + 1).drop_last() == text@.take(it.index()));
        if c == separator {
            assert(next_pieces.drop_last() == pieces);
            keep_piece(&mut items, piece, Ghost(pieces));
            piece = String::new();
        } else {
            piece.push(c);
            assert(next_pieces.drop_last() == pieces.drop_last());
        }
    }
    assert(text@.take(text@.len() as int) == text@);
    keep_piece(&mut items, piece, Ghost(split_text(text@, separator)));
    items
}

/// Joins texts with a separator between neighbours.
pub fn join(items: &Vec<String>, separator: &str) -> (text: String)
    ensures
        text@ == join_text(texts(items@), separator@),
{
    let mut text = String::new();
    let ghost all = texts(items@);
    for i in 0..items.len()
        invariant
            all == texts(items@),
            text@ == join_text(all.take(i as int), separator@),
    {
        assert(all.take(i + 1).drop_last() == all.take(i as int));
        if i > 0 {
            text.append(separator);
        }
        text.append(items[i].as_str());
    }
    assert(all.take(items@.len() as int) == all);
    text
}

/// Puts three texts one after the other.
pub fn concat3(first: &str, second: &str, third: &str) -> (text: String)
    ensures
        text@ == first@ + second@ + third@,
{
    let mut text = first.to_owned();
    text.append(second);
    text.append(third);
    text
}

/// Whether a text is one of the given items.
pub fn is_item(items: &Vec<String>, item: &String) -> (found: bool)
    ensures
        found == texts(items@).contains(item@),
{
    let ghost all = texts(items@);
    for i in 0..items.len()
        invariant
            all == texts(items@),
            forall|j: int| 0 <= j < i ==> all[j] != item@,
    {
        if items[i] == *item {
            assert(all[i as int] == item@);
            return true;
        }
    }
    false
}

/// The characters of a text.
fn chars_of(text: &str) -> (chars: Vec<char>)
    ensures
        chars@ == text@,
{
    let mut chars: Vec<char> = Vec::new();
    for c in it: text.chars()
        invariant
            it.seq() == text@,
            chars@ == text@.take(it.index()),
    {
        chars.push(c);
    }
    assert(text@.take(text@.len() as int) == text@);
    chars
}

/// Whether one text occurs within another.
pub fn occurs(needle: &str, text: &str) -> (found: bool)
    ensures
        found == occurs_in(needle@, text@),
{
    let wanted = chars_of(needle);
    let chars = chars_of(text);
    if wanted.len() > chars.len() {
        return false;
    }
    if wanted.len() == 0 {
        assert(text@.subrange(0, 0 + needle@.len() as int) == needle@);
        return true;
    }
    for start in 0..chars.len() - wanted.len() + 1
        invariant
            wanted@ == needle@,
            chars@ == text@,
            wanted.len() <= chars.len(),
            forall|s: int|
                0 <= s < start ==> #[trigger] text@.subrange(s, s + needle@.len()) != needle@,
    {
        let mut matched: usize = 0;
        while matched < wanted.len() && chars[start + matched] == wanted[matched]
            invariant
                wanted@ == needle@,
                chars@ == text@,
                start + wanted.len() <= chars.len(),
                matched <= wanted.len(),
                forall|k: int| 0 <= k < matched ==> chars@[start + k] == wanted@[k],
            decreases wanted.len() - matched,
        {
            matched += 1;
        }
        if matched == wanted.len() {
            assert(text@.subrange(start as int, start + needle@.len()) == needle@);
            return true;
        }
        assert(text@.subrange(start as int, start + needle@.len())[matched as int]
            != needle@[matched as int]);
    }
    false
}

} // verus!
