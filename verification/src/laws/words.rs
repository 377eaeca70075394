//! What holds of texts.

use crate::text::{
    all_digits,
    comes_before,
    decimal,
    digits_value,
    file_name_of,
    find_last,
    is_digit,
    lemma_find_is,
    lemma_split_first,
    lemma_split_none,
    lemma_split_nonempty,
    lines_of,
    names_something,
    number,
    split_at_each,
    stem_of,
    strip_cr,
    texts,
    without_plus,
};
use vstd::prelude::*;
use vstd::string::*;

verus! {

/// A list of strings has one text for each, in order.
pub proof fn law_texts_stand_for_their_strings(list: Seq<String>, i: int)
    requires
        0 <= i < list.len(),
    ensures
        texts(list).len() == list.len(),
        texts(list)[i] == list[i]@,
{
}

// ---------------------------------------------------------------------------
// Pieces and lines
// ---------------------------------------------------------------------------

/// Pieces, put together with `c` between them.
pub open spec fn joined(pieces: Seq<Seq<char>>, c: char) -> Seq<char>
    decreases pieces.len(),
{
    if pieces.len() == 0 {
        Seq::empty()
    } else if pieces.len() == 1 {
        pieces[0]
    } else {
        pieces[0] + seq![c] + joined(pieces.skip(1), c)
    }
}

/// Pieces without `c` that are put together with it are split into the same
/// pieces again.
pub proof fn law_joined_pieces_are_split_again(pieces: Seq<Seq<char>>, c: char)
    requires
        pieces.len() > 0,
        forall|i: int| 0 <= i < pieces.len() ==> !(#[trigger] pieces[i]).contains(c),
    ensures
        split_at_each(joined(pieces, c), c) == pieces,
    decreases pieces.len(),
{
    if pieces.len() == 1 {
        lemma_split_none(pieces[0], c);
        assert(seq![pieces[0]] == pieces);
    } else {
        let rest = pieces.skip(1);
        assert forall|i: int| 0 <= i < rest.len() implies !(#[trigger] rest[i]).contains(c) by {
            assert(rest[i] == pieces[i + 1]);
        }
        law_joined_pieces_are_split_again(rest, c);
        lemma_split_first(pieces[0], c, joined(rest, c));
        assert(seq![pieces[0]] + rest == pieces);
    }
}

/// The pieces of a text make it up again when they are put together, and none
/// of them holds the separator.
pub proof fn law_pieces_make_up_the_text(s: Seq<char>, c: char)
    ensures
        split_at_each(s, c).len() > 0,
        joined(split_at_each(s, c), c) == s,
        forall|i: int|
            0 <= i < split_at_each(s, c).len() ==> !(#[trigger] split_at_each(s, c)[i]).contains(c),
    decreases s.len(),
{
    lemma_split_nonempty(s, c);
    let pieces = split_at_each(s, c);
    if s.contains(c) {
        let i = first_position(s, c);
        lemma_first_position(s, c);
        let a = s.take(i);
        let b = s.skip(i + 1);
        assert(s == a + seq![c] + b);
        lemma_split_first(a, c, b);
        law_pieces_make_up_the_text(b, c);
        let rest = split_at_each(b, c);
        assert(pieces == seq![a] + rest);
        assert(pieces.skip(1) == rest);
        assert forall|j: int| 0 <= j < pieces.len() implies !(#[trigger] pieces[j]).contains(c) by {
            if j > 0 {
                assert(pieces[j] == rest[j - 1]);
            }
        }
    } else {
        lemma_split_none(s, c);
    }
}

spec fn first_position(s: Seq<char>, c: char) -> int {
    choose|i: int| 0 <= i < s.len() && s[i] == c && !s.take(i).contains(c)
}

proof fn lemma_first_position(s: Seq<char>, c: char)
    requires
        s.contains(c),
    ensures
        0 <= first_position(s, c) < s.len(),
        s[first_position(s, c)] == c,
        !s.take(first_position(s, c)).contains(c),
    decreases s.len(),
{
    let k = choose|k: int| 0 <= k < s.len() && s[k] == c;
    let i = lemma_earliest(s, c, k);
    assert(s[i] == c && !s.take(i).contains(c));
}

proof fn lemma_earliest(s: Seq<char>, c: char, k: int) -> (i: int)
    requires
        0 <= k < s.len(),
        s[k] == c,
    ensures
        0 <= i <= k,
        s[i] == c,
        !s.take(i).contains(c),
    decreases k,
{
    if s.take(k).contains(c) {
        let j = choose|j: int| 0 <= j < k && s.take(k)[j] == c;
        lemma_earliest(s, c, j)
    } else {
        k
    }
}

/// Lines with their ends: a line feed, with a carriage return before it where
/// the line says so.
pub open spec fn written(lines: Seq<(Seq<char>, bool)>) -> Seq<char>
    decreases lines.len(),
{
    if lines.len() == 0 {
        Seq::empty()
    } else {
        let end = if lines[0].1 {
            seq!['\r', '\n']
        } else {
            seq!['\n']
        };
        lines[0].0 + end + written(lines.skip(1))
    }
}

/// Lines that are written with their ends are read again without them. What
/// follows the last end is a line too, unless nothing does.
pub proof fn law_written_lines_are_read_again(lines: Seq<(Seq<char>, bool)>, tail: Seq<char>)
    requires
        forall|i: int|
            0 <= i < lines.len() ==> !(#[trigger] lines[i]).0.contains('\n') && (lines[i].1
                || lines[i].0.len() == 0 || lines[i].0.last() != '\r'),
        !tail.contains('\n'),
    ensures
        lines_of(written(lines) + tail) == lines.map_values(|l: (Seq<char>, bool)| l.0) + (
        if tail.len() == 0 {
            Seq::<Seq<char>>::empty()
        } else {
            seq![tail]
        }),
    decreases lines.len(),
{
    let text = written(lines) + tail;
    let bare = lines.map_values(|l: (Seq<char>, bool)| l.0);
    if lines.len() == 0 {
        assert(text == tail);
        lemma_split_none(tail, '\n');
        assert(bare == Seq::<Seq<char>>::empty());
    } else {
        let rest = lines.skip(1);
        assert forall|i: int| 0 <= i < rest.len() implies !(#[trigger] rest[i]).0.contains('\n')
            && (rest[i].1 || rest[i].0.len() == 0 || rest[i].0.last() != '\r') by {
            assert(rest[i] == lines[i + 1]);
        }
        law_written_lines_are_read_again(rest, tail);
        let line = lines[0].0;
        let shown = if lines[0].1 {
            line.push('\r')
        } else {
            line
        };
        assert(!line.contains('\n'));
        assert forall|j: int| 0 <= j < shown.len() implies text[j] != '\n' by {
            if j < line.len() {
                assert(text[j] == line[j]);
                assert(line.contains(line[j]));
            }
        }
        lemma_find_is(text, '\n', shown.len() as int);
        assert(text.take(shown.len() as int) == shown);
        assert(text.skip((shown.len() + 1) as int) == written(rest) + tail);
        if lines[0].1 {
            assert(shown.drop_last() == line);
        }
        assert(strip_cr(shown) == line);
        assert(bare == seq![line] + rest.map_values(|l: (Seq<char>, bool)| l.0));
    }
}

// ---------------------------------------------------------------------------
// Numbers and order
// ---------------------------------------------------------------------------

/// A number below ten is written as its digit, and a number that has another
/// one and a digit behind it is written so.
pub proof fn law_numbers_are_written_in_decimal(n: nat, d: nat)
    requires
        d < 10,
    ensures
        decimal(d) == seq!["0123456789"@[d as int]],
        n > 0 ==> decimal(10 * n + d) == decimal(n).push("0123456789"@[d as int]),
{
    reveal_strlit("0123456789");
    assert("0123456789"@[d as int] == (48 + d) as char);
    if n > 0 {
        assert((10 * n + d) / 10 == n);
        assert((10 * n + d) % 10 == d);
    }
}

/// What is read as a number: digits, of which each further one counts for ten
/// times those before it and itself, as long as the number is not too large;
/// with a plus sign before them or without. Nothing else is.
pub proof fn law_digits_are_read_as_a_number(s: Seq<char>, c: char)
    ensures
        number(Seq::empty()) is None,
        number(seq![c]) == if '0' <= c <= '9' {
            Some((c as int - 48) as u32)
        } else {
            None
        },
        number(seq!['+'] + s) == if s.len() > 0 && s[0] == '+' {
            None
        } else {
            number(s)
        },
        s.len() > 0 && s != seq!['+'] ==> number(s.push(c)) == match number(s) {
            Some(v) => if '0' <= c <= '9' && 10 * v + (c as int - 48) <= u32::MAX {
                Some((10 * v + (c as int - 48)) as u32)
            } else {
                None
            },
            None => None,
        },
{
    let one = seq![c];
    assert(without_plus(one) == one || (c == '+' && without_plus(one) == Seq::<char>::empty()));
    assert(one.drop_last() == Seq::<char>::empty());
    assert(digits_value(Seq::<char>::empty()) == 0);
    assert(is_digit(c) <==> '0' <= c <= '9');
    if is_digit(c) {
        assert(all_digits(one));
        assert(digits_value(one) == c as int - 48);
    } else {
        assert(one[0] == c);
        assert(!all_digits(one));
    }
    let plus = seq!['+'] + s;
    assert(without_plus(plus) == s);
    if s.len() > 0 && s[0] == '+' {
        assert(!is_digit(s[0]));
        assert(!all_digits(s));
    }
    if s.len() > 0 && s != seq!['+'] {
        let before = without_plus(s);
        let after = without_plus(s.push(c));
        assert(after == before.push(c));
        assert(after.drop_last() == before);
        if before.len() == 0 {
            assert(s == seq!['+']);
        }
        if all_digits(after) {
            assert forall|i: int| 0 <= i < before.len() implies is_digit(#[trigger] before[i]) by {
                assert(after[i] == before[i]);
            }
            assert(is_digit(after[before.len() as int]));
        }
        if all_digits(before) && is_digit(c) {
            assert forall|i: int| 0 <= i < after.len() implies is_digit(#[trigger] after[i]) by {
                if i < before.len() {
                    assert(after[i] == before[i]);
                }
            }
        }
    }
}

/// Texts are ordered by the first character in which they differ; a text comes
/// before those that go on where it ends.
pub proof fn law_texts_are_ordered_by_their_first_difference(
    start: Seq<char>,
    a: Seq<char>,
    b: Seq<char>,
)
    requires
        a.len() > 0 && b.len() > 0 ==> a[0] != b[0],
    ensures
        comes_before(start + a, start + b) <==> b.len() > 0 && (a.len() == 0 || (a[0] as int) < (
        b[0] as int)),
    decreases start.len(),
{
    if start.len() == 0 {
        assert(start + a == a);
        assert(start + b == b);
    } else {
        let rest = start.skip(1);
        assert((start + a).skip(1) == rest + a);
        assert((start + b).skip(1) == rest + b);
        law_texts_are_ordered_by_their_first_difference(rest, a, b);
    }
}

// ---------------------------------------------------------------------------
// File names
// ---------------------------------------------------------------------------

/// The ending of a file name is what follows its last dot, and its stem what
/// comes before that dot, however long the two are. A name without a dot, or
/// with none but the first character, is its own stem.
pub proof fn law_stem_is_the_name_without_its_ending(base: Seq<char>, ending: Seq<char>)
    requires
        !ending.contains('.'),
    ensures
        base.len() > 0 ==> stem_of(base + seq!['.'] + ending) == base,
        stem_of(seq!['.'] + ending) == seq!['.'] + ending,
        stem_of(ending) == ending,
{
    lemma_last_dot(base, ending);
    lemma_last_dot(Seq::empty(), ending);
    assert(Seq::<char>::empty() + seq!['.'] + ending == seq!['.'] + ending);
    assert((base + seq!['.'] + ending).take(base.len() as int) == base);
    lemma_no_dot(ending);
}

proof fn lemma_no_dot(s: Seq<char>)
    requires
        !s.contains('.'),
    ensures
        find_last(s, '.') == -1,
    decreases s.len(),
{
    if s.len() > 0 {
        assert(s.contains(s.last()));
        let less = s.drop_last();
        assert(!less.contains('.')) by {
            if less.contains('.') {
                let k = choose|k: int| 0 <= k < less.len() && less[k] == '.';
                assert(s[k] == '.');
            }
        }
        lemma_no_dot(less);
    }
}

proof fn lemma_last_dot(base: Seq<char>, ending: Seq<char>)
    requires
        !ending.contains('.'),
    ensures
        find_last(base + seq!['.'] + ending, '.') == base.len(),
    decreases ending.len(),
{
    let s = base + seq!['.'] + ending;
    if ending.len() > 0 {
        assert(ending.contains(ending.last()));
        assert(s.last() == ending.last());
        let less = ending.drop_last();
        assert(!less.contains('.')) by {
            if less.contains('.') {
                let k = choose|k: int| 0 <= k < less.len() && less[k] == '.';
                assert(ending[k] == '.');
            }
        }
        assert(s.drop_last() == base + seq!['.'] + less);
        lemma_last_dot(base, less);
    } else {
        assert(s.last() == '.');
    }
}

/// A path leads to the file that is named behind its last slash. A slash at the
/// end, or a dot behind it, adds nothing; two dots lead to no file.
pub proof fn law_path_leads_to_its_last_name(dir: Seq<char>, last: Seq<char>)
    requires
        !last.contains('/'),
    ensures
        last.len() > 0 && last != seq!['.'] && last != seq!['.', '.'] ==> file_name_of(last)
            == Some(last) && file_name_of(dir + seq!['/'] + last) == Some(last),
        last == seq!['.', '.'] ==> file_name_of(last) is None && file_name_of(
            dir + seq!['/'] + last,
        ) is None,
        last.len() == 0 || last == seq!['.'] ==> file_name_of(last) is None && file_name_of(
            dir + seq!['/'] + last,
        ) == file_name_of(dir),
{
    let keep = |piece: Seq<char>| names_something(piece);
    reveal(Seq::filter);
    lemma_split_none(last, '/');
    let alone = split_at_each(last, '/');
    assert(alone.drop_last() == Seq::<Seq<char>>::empty());
    assert(alone.drop_last().filter(keep) == Seq::<Seq<char>>::empty());
    assert(alone.last() == last);
    lemma_split_at_last(dir, '/', last);
    let all = split_at_each(dir + seq!['/'] + last, '/');
    assert(all.drop_last() == split_at_each(dir, '/'));
    assert(all.last() == last);
}

/// What stands behind the last separator is one more piece.
proof fn lemma_split_at_last(a: Seq<char>, c: char, b: Seq<char>)
    requires
        !b.contains(c),
    ensures
        split_at_each(a + seq![c] + b, c) == split_at_each(a, c).push(b),
    decreases a.len(),
{
    if a.contains(c) {
        lemma_first_position(a, c);
        let i = first_position(a, c);
        let first = a.take(i);
        let rest = a.skip(i + 1);
        assert(a == first + seq![c] + rest);
        assert(a + seq![c] + b == first + seq![c] + (rest + seq![c] + b));
        lemma_split_first(first, c, rest);
        lemma_split_first(first, c, rest + seq![c] + b);
        lemma_split_at_last(rest, c, b);
        assert(seq![first] + split_at_each(rest, c).push(b) == (seq![first] + split_at_each(
            rest,
            c,
        )).push(b));
    } else {
        lemma_split_none(a, c);
        lemma_split_none(b, c);
        lemma_split_first(a, c, b);
        assert(seq![a] + seq![b] == seq![a].push(b));
    }
}

} // verus!
