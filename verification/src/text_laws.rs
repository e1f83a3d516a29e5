//! What the functions on text are for: how their results are read back.
use crate::json_patch::{lemma_split_last, lemma_split_single};
use crate::text::{decimal_text, digit_char, join_text, list_items, occurs_in, split_text, texts};
use vstd::prelude::*;

verus! {

/// The number that decimal digits stand for.
pub open spec fn decimal_number(text: Seq<char>) -> int
    decreases text.len(),
{
    if text.len() == 0 {
        0
    } else {
        decimal_number(text.drop_last()) * 10 + (text.last() as int - '0' as int)
    }
}

proof fn lemma_digit(digit: nat)
    requires
        digit < 10,
    ensures
        digit_char(digit) as int == '0' as int + digit,
{
}

/// A number in decimal is read back as that number. It is made of digits only, and it starts
/// with a zero only where the number is zero.
pub proof fn law_decimal_read_back(number: nat)
    ensures
        decimal_number(decimal_text(number)) == number,
        decimal_text(number).len() > 0,
        forall|i: int| 0 <= i < decimal_text(number).len() ==> '0' <= #[trigger] decimal_text(number)[i] <= '9',
        decimal_text(number)[0] == '0' ==> number == 0,
        number == 0 ==> decimal_text(number).len() == 1,
    decreases number,
{
    reveal_with_fuel(decimal_number, 2);
    if number < 10 {
        lemma_digit(number);
        assert(decimal_text(number).drop_last() == Seq::<char>::empty());
    } else {
        law_decimal_read_back(number / 10);
        lemma_digit(number % 10);
        let front = decimal_text(number / 10);
        assert(decimal_text(number).drop_last() == front);
        assert(decimal_text(number)[0] == front[0]);
        assert forall|i: int| 0 <= i < decimal_text(number).len() implies '0' <= #[trigger] decimal_text(number)[i]
            <= '9' by {
            if i < front.len() {
                assert(decimal_text(number)[i] == front[i]);
            }
        }
    }
}

/// Texts are joined from left to right: nothing for none, the text itself for one, and the
/// separator once between two lists that are joined each on its own.
pub proof fn law_join_of_two_lists(first: Seq<Seq<char>>, second: Seq<Seq<char>>, separator: Seq<char>)
    ensures
        join_text(Seq::empty(), separator) == Seq::<char>::empty(),
        second.len() == 1 ==> join_text(second, separator) == second[0],
        first.len() > 0 && second.len() > 0 ==> join_text(first + second, separator) == join_text(first, separator)
            + separator + join_text(second, separator),
    decreases second.len(),
{
    if first.len() > 0 && second.len() > 0 {
        assert((first + second).drop_last() == first + second.drop_last());
        assert((first + second).last() == second.last());
        if second.len() == 1 {
            assert(second.drop_last() == Seq::<Seq<char>>::empty());
            assert(first + second.drop_last() == first);
        } else {
            law_join_of_two_lists(first, second.drop_last(), separator);
        }
        assert(join_text(first + second, separator) == join_text(first, separator) + separator + join_text(
            second,
            separator,
        ));
    }
}

proof fn lemma_split_joined(pieces: Seq<Seq<char>>, separator: char)
    requires
        pieces.len() > 0,
        forall|i: int| 0 <= i < pieces.len() ==> !(#[trigger] pieces[i]).contains(separator),
    ensures
        split_text(join_text(pieces, seq![separator]), separator) == pieces,
    decreases pieces.len(),
{
    assert(!pieces[pieces.len() - 1].contains(separator));
    if pieces.len() == 1 {
        lemma_split_single(pieces[0], separator);
        assert(pieces == seq![pieces[0]]);
    } else {
        let front = pieces.drop_last();
        assert forall|i: int| 0 <= i < front.len() implies !(#[trigger] front[i]).contains(separator) by {
            assert(front[i] == pieces[i]);
        }
        lemma_split_joined(front, separator);
        let text = join_text(front, seq![separator]);
        lemma_split_last(text, pieces.last(), separator);
        assert(text.push(separator) + pieces.last() == text + seq![separator] + pieces.last());
        assert(front.push(pieces.last()) == pieces);
    }
}

/// A list that was joined from pieces without the separator gives its pieces back, all of
/// them and in their order, but for those that are empty.
pub proof fn law_list_read_back(pieces: Seq<Seq<char>>, separator: char)
    requires
        pieces.len() > 0,
        forall|i: int| 0 <= i < pieces.len() ==> !(#[trigger] pieces[i]).contains(separator),
    ensures
        list_items(join_text(pieces, seq![separator]), separator) == pieces.filter(
            |piece: Seq<char>| piece.len() > 0,
        ),
{
    lemma_split_joined(pieces, separator);
}

/// Every text is a list of pieces without the separator.
pub proof fn law_every_text_is_a_list(text: Seq<char>, separator: char) -> (pieces: Seq<Seq<char>>)
    ensures
        pieces.len() > 0,
        forall|i: int| 0 <= i < pieces.len() ==> !(#[trigger] pieces[i]).contains(separator),
        join_text(pieces, seq![separator]) == text,
    decreases text.len(),
{
    if text.len() == 0 {
        let pieces = seq![text];
        assert(join_text(pieces, seq![separator]) == text);
        pieces
    } else {
        let front = law_every_text_is_a_list(text.drop_last(), separator);
        let earlier = front.drop_last();
        assert(!front[front.len() - 1].contains(separator));
        if text.last() == separator {
            let pieces = front.push(Seq::empty());
            assert(pieces.drop_last() == front);
            assert(join_text(pieces, seq![separator]) == text.drop_last() + seq![separator] + Seq::<char>::empty());
            assert(join_text(pieces, seq![separator]) == text);
            pieces
        } else {
            let last = front.last().push(text.last());
            let pieces = earlier.push(last);
            assert(pieces.drop_last() == earlier);
            assert forall|i: int| 0 <= i < pieces.len() implies !(#[trigger] pieces[i]).contains(separator) by {
                if i < earlier.len() {
                    assert(pieces[i] == front[i]);
                } else if last.contains(separator) {
                    let k = choose|k: int| 0 <= k < last.len() && last[k] == separator;
                    assert(front.last()[k] == separator);
                }
            }
            assert(text.drop_last().push(text.last()) == text);
            if earlier.len() == 0 {
                assert(front.last() == text.drop_last());
                assert(pieces[0] == last);
                assert(join_text(pieces, seq![separator]) == text);
            } else {
                assert(join_text(front, seq![separator]) == join_text(earlier, seq![separator]) + seq![separator]
                    + front.last());
                assert(join_text(pieces, seq![separator]) == join_text(earlier, seq![separator]) + seq![separator]
                    + last);
                assert(join_text(pieces, seq![separator]) == text);
            }
            pieces
        }
    }
}

/// A text occurs in another exactly where the other is that text with something before and
/// something behind it, both of which may be empty.
pub proof fn law_occurrence(needle: Seq<char>, text: Seq<char>)
    ensures
        occurs_in(needle, text) <==> exists|before: Seq<char>, behind: Seq<char>|
            text == #[trigger] (before + needle + behind),
{
    if occurs_in(needle, text) {
        let start = choose|start: int|
            0 <= start <= text.len() - needle.len() && #[trigger] text.subrange(start, start + needle.len())
                == needle;
        let before = text.take(start);
        let behind = text.skip(start + needle.len());
        assert(text == before + needle + behind) by {
            let whole = before + needle + behind;
            assert forall|i: int| 0 <= i < text.len() implies text[i] == whole[i] by {
                if start <= i < start + needle.len() {
                    assert(text.subrange(start, start + needle.len())[i - start] == text[i]);
                }
            }
            assert(text =~= whole);
        }
    }
    if exists|before: Seq<char>, behind: Seq<char>| text == #[trigger] (before + needle + behind) {
        let (before, behind) = choose|before: Seq<char>, behind: Seq<char>|
            text == #[trigger] (before + needle + behind);
        let start = before.len() as int;
        assert(text.subrange(start, start + needle.len()) == needle);
    }
}

/// Some strings hold as many texts, each in its place.
pub proof fn law_texts_in_place(items: Seq<String>)
    ensures
        texts(items).len() == items.len(),
        forall|i: int| 0 <= i < items.len() ==> #[trigger] texts(items)[i] == items[i]@,
{
}

} // verus!
