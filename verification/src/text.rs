//! Cutting a query's list of names into its pieces.

use vstd::prelude::*;
use vstd::string::StrSliceExecFns;

verus! {

/// The character sequences of a sequence of strings.
pub open spec fn names_of(names: Seq<String>) -> Seq<Seq<char>> {
    names.map_values(|s: String| s@)
}

/// Whether `c` is white space, as `char::is_whitespace` tells it.
pub uninterp spec fn is_whitespace(c: char) -> bool;

/// `char::is_whitespace`.
#[verifier::external_body]
fn char_is_whitespace(c: char) -> (b: bool)
    ensures
        b == is_whitespace(c),
{
    c.is_whitespace()
}

/// For each character of `s`, whether it is white space.
pub open spec fn white_flags(s: Seq<char>) -> Seq<bool> {
    s.map_values(|c: char| is_whitespace(c))
}

/// The number of flags set at the start of `flags`, up to the first that is
/// not.
pub open spec fn leading(flags: Seq<bool>) -> nat
    decreases flags.len(),
{
    if flags.len() > 0 && flags.first() {
        1 + leading(flags.drop_first())
    } else {
        0
    }
}

/// The number of flags set at the end of `flags`, back to the last that is
/// not.
pub open spec fn trailing(flags: Seq<bool>) -> nat
    decreases flags.len(),
{
    if flags.len() > 0 && flags.last() {
        1 + trailing(flags.drop_last())
    } else {
        0
    }
}

/// Where the part between the flags set at the two ends begins and ends.
/// Where every flag is set, it begins and ends at the end.
pub open spec fn inner_bounds(flags: Seq<bool>) -> (int, int) {
    let from = leading(flags) as int;
    (from, flags.len() - trailing(flags.skip(from)))
}

/// `s` without the white space at its two ends.
pub open spec fn trimmed(s: Seq<char>) -> Seq<char> {
    s.subrange(inner_bounds(white_flags(s)).0, inner_bounds(white_flags(s)).1)
}

/// The pieces of `s` between its commas, read from left to right: a comma
/// closes the piece before it and opens the next. There is always at least
/// one piece, and a piece may be empty.
pub open spec fn split_commas(s: Seq<char>) -> Seq<Seq<char>>
    decreases s.len(),
{
    if s.len() == 0 {
        seq![Seq::empty()]
    } else {
        let before = split_commas(s.drop_last());
        if s.last() == ',' {
            before.push(Seq::empty())
        } else {
            before.update(before.len() - 1, before.last().push(s.last()))
        }
    }
}

/// The pieces put together again, with a comma between two neighbours.
pub open spec fn join_commas(pieces: Seq<Seq<char>>) -> Seq<char>
    decreases pieces.len(),
{
    if pieces.len() == 0 {
        Seq::empty()
    } else if pieces.len() == 1 {
        pieces[0]
    } else {
        join_commas(pieces.drop_last()) + seq![','] + pieces.last()
    }
}

/// Splitting loses nothing and leaves no comma: there is at least one piece,
/// no piece holds a comma, and the pieces joined by commas are `s` again.
pub proof fn lemma_split_commas(s: Seq<char>)
    ensures
        split_commas(s).len() >= 1,
        forall|i: int, j: int|
            0 <= i < split_commas(s).len() && 0 <= j < split_commas(s)[i].len()
                ==> #[trigger] split_commas(s)[i][j] != ',',
        join_commas(split_commas(s)) == s,
    decreases s.len(),
{
    let pieces = split_commas(s);
    if s.len() == 0 {
        assert(join_commas(pieces) =~= s);
    } else {
        let before = split_commas(s.drop_last());
        lemma_split_commas(s.drop_last());
        if s.last() == ',' {
            assert(pieces.drop_last() =~= before);
            assert(join_commas(pieces) =~= s);
        } else {
            let n = before.len() - 1;
            if n == 0 {
                assert(join_commas(before) == before[0]);
                assert(join_commas(pieces) =~= s);
            } else {
                assert(pieces.drop_last() =~= before.drop_last());
                assert(join_commas(pieces) =~= join_commas(before).push(s.last()));
                assert(join_commas(pieces) =~= s);
            }
        }
    }
}

/// The characters of `s`.
fn chars_of(s: &str) -> (chars: Vec<char>)
    ensures
        chars@ == s@,
{
    broadcast use vstd::string::group_string_axioms;

    let mut chars: Vec<char> = Vec::new();
    let all = s.chars();
    for c in it: all
        invariant
            it.seq() == s@,
            chars@ == it.seq().take(it.index()),
    {
        assert(it.seq().take(it.index() + 1) =~= it.seq().take(it.index()).push(c));
        chars.push(c);
    }
    assert(s@.take(s@.len() as int) =~= s@);
    chars
}

/// Where the part between the flags set at the two ends begins and ends.
pub fn inner_bounds_of(flags: &Vec<bool>) -> (bounds: (usize, usize))
    ensures
        (bounds.0 as int, bounds.1 as int) == inner_bounds(flags@),
        bounds.0 <= bounds.1 <= flags@.len(),
{
    let n: usize = flags.len();
    let mut from: usize = 0;
    assert(flags@.skip(0) =~= flags@);
    while from < n && flags[from]
        invariant
            from <= n,
            n == flags@.len(),
            leading(flags@) == from + leading(flags@.skip(from as int)),
        decreases n - from,
    {
        assert(flags@.skip(from as int).drop_first() =~= flags@.skip(from + 1));
        from = from + 1;
    }
    let ghost rest = flags@.skip(from as int);
    let mut to: usize = n;
    assert(rest.take(n - from) =~= rest);
    while to > from && flags[to - 1]
        invariant
            from <= to <= n,
            n == flags@.len(),
            rest == flags@.skip(from as int),
            trailing(rest) == (n - to) + trailing(rest.take(to - from)),
        decreases to,
    {
        assert(rest.take(to - from).drop_last() =~= rest.take(to - from - 1));
        to = to - 1;
    }
    (from, to)
}

/// `text` without the white space at its two ends.
pub fn trim(text: &str) -> (inner: &str)
    ensures
        inner@ == trimmed(text@),
{
    let chars = chars_of(text);
    let n: usize = chars.len();
    let mut flags: Vec<bool> = Vec::new();
    let mut i: usize = 0;
    while i < n
        invariant
            i <= n,
            n == chars@.len(),
            flags@ == white_flags(chars@.take(i as int)),
        decreases n - i,
    {
        let flag = char_is_whitespace(chars[i]);
        assert(white_flags(chars@.take(i + 1)) =~= flags@.push(flag));
        flags.push(flag);
        i = i + 1;
    }
    assert(chars@.take(n as int) =~= chars@);
    let (from, to) = inner_bounds_of(&flags);
    text.substring_char(from, to)
}

/// The pieces of `text` between its commas. There is at least one; none
/// holds a comma; joined by commas they are `text` again.
pub fn split_at_commas(text: &str) -> (pieces: Vec<String>)
    ensures
        names_of(pieces@) == split_commas(text@),
        pieces@.len() >= 1,
        forall|i: int, j: int|
            0 <= i < pieces@.len() && 0 <= j < pieces@[i]@.len() ==> #[trigger] pieces@[i]@[j]
                != ',',
        join_commas(names_of(pieces@)) == text@,
{
    let chars = chars_of(text);
    let n: usize = chars.len();
    let mut pieces: Vec<String> = Vec::new();
    let mut start: usize = 0;
    let mut i: usize = 0;
    assert(text@.take(0) =~= Seq::<char>::empty());
    assert(text@.subrange(0, 0) =~= Seq::<char>::empty());
    assert(names_of(pieces@).push(Seq::<char>::empty()) =~= seq![Seq::<char>::empty()]);
    while i < n
        invariant
            start <= i <= n,
            n == chars@.len(),
            chars@ == text@,
            split_commas(text@.take(i as int)) == names_of(pieces@).push(
                text@.subrange(start as int, i as int),
            ),
        decreases n - i,
    {
        let ghost before = split_commas(text@.take(i as int));
        assert(text@.take(i + 1).drop_last() =~= text@.take(i as int));
        if chars[i] == ',' {
            let piece = text.substring_char(start, i).to_owned();
            assert(names_of(pieces@.push(piece)) =~= before);
            pieces.push(piece);
            start = i + 1;
            assert(text@.subrange(start as int, i + 1) =~= Seq::<char>::empty());
        } else {
            assert(text@.subrange(start as int, i + 1) =~= text@.subrange(
                start as int,
                i as int,
            ).push(text@[i as int]));
            assert(split_commas(text@.take(i + 1)) =~= names_of(pieces@).push(
                text@.subrange(start as int, i + 1),
            ));
        }
        i = i + 1;
    }
    assert(text@.take(n as int) =~= text@);
    let piece = text.substring_char(start, n).to_owned();
    assert(names_of(pieces@.push(piece)) =~= names_of(pieces@).push(piece@));
    pieces.push(piece);
    proof {
        lemma_split_commas(text@);
        assert forall|i: int, j: int|
            0 <= i < pieces@.len() && 0 <= j < pieces@[i]@.len() implies #[trigger] pieces@[i]@[j]
            != ',' by {
            assert(pieces@[i]@ == split_commas(text@)[i]);
            assert(split_commas(text@)[i][j] != ',');
        }
    }
    pieces
}

/// The names that a query lists: the text without the white space at its two
/// ends, cut at every comma. White space around a comma stays with the names
/// beside it, and an empty text lists one empty name.
pub fn split_keys(keys: &str) -> (names: Vec<String>)
    ensures
        names_of(names@) == split_commas(trimmed(keys@)),
{
    split_at_commas(trim(keys))
}

} // verus!
