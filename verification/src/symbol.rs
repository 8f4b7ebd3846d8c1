//! Trading symbols.

use crate::text;
use crate::text::{to_lowercase, to_uppercase, trim};
use vstd::prelude::*;
use vstd::utf8::*;

verus! {

/// The form in which symbols are compared: trimmed, in upper case.
pub open spec fn normalized(symbol: Seq<char>) -> Seq<char> {
    text::uppercase(text::trimmed(symbol))
}

/// The same form of an ASCII symbol.
pub open spec fn ascii_normalized(symbol: Seq<char>) -> Seq<char> {
    text::ascii_trimmed(symbol).map_values(|c: char| text::ascii_upper(c))
}

/// Trims a symbol and puts it in upper case.
pub fn normalize_symbol(symbol: &str) -> (r: String)
    ensures
        r@ == normalized(symbol@),
        is_ascii_chars(symbol@) ==> r@ == ascii_normalized(symbol@),
{
    to_uppercase(trim(symbol))
}

/// The name of a symbol's book-ticker stream.
pub open spec fn book_ticker(symbol: Seq<char>) -> Seq<char> {
    text::lowercase(symbol) + "@bookTicker"@
}

/// The name of an ASCII symbol's book-ticker stream.
pub open spec fn ascii_book_ticker(symbol: Seq<char>) -> Seq<char> {
    symbol.map_values(|c: char| text::ascii_lower(c)) + "@bookTicker"@
}

/// Names the book-ticker stream of a symbol.
pub fn stream_name(symbol: &str) -> (r: String)
    ensures
        r@ == book_ticker(symbol@),
        is_ascii_chars(symbol@) ==> r@ == ascii_book_ticker(symbol@),
{
    let mut name = to_lowercase(symbol);
    name.append("@bookTicker");
    name
}

/// What is left of a text is a stretch of it that neither begins nor ends with a space.
proof fn lemma_trimmed_ends(s: Seq<char>, space: spec_fn(char) -> bool)
    ensures
        ({
            let t = text::trimmed_by(s, space);
            t.len() > 0 ==> !space(t[0]) && !space(t.last())
        }),
{
    lemma_trimmed_start(s, space);
    lemma_trimmed_end(text::trimmed_start(s, space), space);
}

/// What is left behind the leading spaces does not begin with one.
proof fn lemma_trimmed_start(s: Seq<char>, space: spec_fn(char) -> bool)
    ensures
        text::trimmed_start(s, space).len() > 0 ==> !space(text::trimmed_start(s, space)[0]),
    decreases s.len(),
{
    if s.len() > 0 && space(s[0]) {
        lemma_trimmed_start(s.drop_first(), space);
    }
}

/// What is left before the trailing spaces does not end with one, and begins as the text does.
proof fn lemma_trimmed_end(s: Seq<char>, space: spec_fn(char) -> bool)
    ensures
        ({
            let t = text::trimmed_end(s, space);
            t.len() > 0 ==> !space(t.last()) && t[0] == s[0]
        }),
    decreases s.len(),
{
    if s.len() > 0 && space(s.last()) {
        lemma_trimmed_end(s.drop_last(), space);
    }
}

/// An ASCII symbol in the form in which symbols are compared stays as it is when it is put in
/// that form again.
pub proof fn law_normalizing_twice_changes_nothing(symbol: Seq<char>)
    ensures
        ascii_normalized(ascii_normalized(symbol)) == ascii_normalized(symbol),
{
    let space = |c: char| text::ascii_white_space(c);
    let once = ascii_normalized(symbol);
    lemma_trimmed_ends(symbol, space);
    assert(text::ascii_trimmed(once) =~= once);
    assert(ascii_normalized(once) =~= once);
}

/// An ASCII symbol has the same stream in whatever case it is written, and whatever whitespace
/// stands around it.
pub proof fn law_case_does_not_matter(symbol: Seq<char>)
    ensures
        ascii_book_ticker(ascii_normalized(symbol)) == ascii_book_ticker(
            text::ascii_trimmed(symbol),
        ),
{
    let trimmed = text::ascii_trimmed(symbol);
    assert(ascii_normalized(symbol).map_values(|c: char| text::ascii_lower(c))
        =~= trimmed.map_values(|c: char| text::ascii_lower(c)));
}

/// A symbol is compared by its core, in upper case: the whitespace around it does not count, and
/// of an ASCII symbol exactly the letters `a` to `z` change, by 32 each.
pub proof fn law_symbols_are_compared_in_upper_case(symbol: Seq<char>, from: int, to: int, i: int)
    ensures
        text::is_core(symbol, from, to, |c: char| text::white_space(c)) ==> normalized(symbol)
            == text::uppercase(symbol.subrange(from, to)),
        text::is_core(symbol, from, to, |c: char| 9 <= c as int <= 13 || c as int == 32) ==> {
            let upper = ascii_normalized(symbol);
            &&& upper.len() == to - from
            &&& 0 <= i < upper.len() ==> upper[i] as int == (if 97 <= symbol[from + i] as int
                <= 122 {
                symbol[from + i] as int - 32
            } else {
                symbol[from + i] as int
            })
        },
{
    text::law_white_space_is_trimmed(symbol, from, to);
}

/// The stream of a symbol is its lower case with `@bookTicker` behind, nothing cut off; of an
/// ASCII symbol exactly the letters `A` to `Z` change, by 32 each.
pub proof fn law_stream_is_the_symbol_in_lower_case(symbol: Seq<char>, i: int)
    ensures
        book_ticker(symbol).len() == text::lowercase(symbol).len() + 11,
        book_ticker(symbol).take(text::lowercase(symbol).len() as int) == text::lowercase(symbol),
        book_ticker(symbol).skip(text::lowercase(symbol).len() as int) == "@bookTicker"@,
        ascii_book_ticker(symbol).len() == symbol.len() + 11,
        ascii_book_ticker(symbol).skip(symbol.len() as int) == "@bookTicker"@,
        0 <= i < symbol.len() ==> ascii_book_ticker(symbol)[i] as int == (if 65
            <= symbol[i] as int <= 90 {
            symbol[i] as int + 32
        } else {
            symbol[i] as int
        }),
{
    reveal_strlit("@bookTicker");
    assert(book_ticker(symbol).take(text::lowercase(symbol).len() as int) =~= text::lowercase(
        symbol,
    ));
    assert(book_ticker(symbol).skip(text::lowercase(symbol).len() as int) =~= "@bookTicker"@);
    assert(ascii_book_ticker(symbol).skip(symbol.len() as int) =~= "@bookTicker"@);
}

} // verus!
