//! Text handling: decimal numbers, lines, separators, order and file names.

use vstd::prelude::*;
use vstd::string::*;
use vstd::utf8::*;

verus! {

/// The characters of `s`, in order.
pub fn to_chars(s: &str) -> (chars: Vec<char>)
    ensures
        chars@ == s@,
{
    let mut chars: Vec<char> = Vec::new();
    for c in it: s.chars()
        invariant
            it.seq() == s@,
            chars@ == it.seq().take(it.index() as int),
    {
        chars.push(c);
    }
    chars
}

/// The code point of `c`.
fn code_point(c: char) -> (n: u32)
    ensures
        n == c as int,
{
    c as u32
}

/// `std::str::from_utf8`: the text that `bytes` encode, exactly if they are
/// valid UTF-8.
#[verifier::external_body]
pub(crate) fn from_utf8(bytes: &[u8]) -> (t: Option<String>)
    ensures
        t is Some <==> valid_utf8(bytes@),
        t matches Some(s) ==> s@ == decode_utf8(bytes@),
{
    match std::str::from_utf8(bytes) {
        Ok(s) => Some(s.to_owned()),
        Err(_) => None,
    }
}

/// Whether `a` and `b` hold the same characters.
pub fn same_text(a: &str, b: &str) -> (same: bool)
    ensures
        same == (a@ == b@),
{
    a.to_owned() == b.to_owned()
}

/// The texts of a list of strings.
pub open spec fn texts(list: Seq<String>) -> Seq<Seq<char>> {
    list.map_values(|s: String| s@)
}

// ---------------------------------------------------------------------------
// Separators
// ---------------------------------------------------------------------------

/// The position of the first `c` in `s`, or the length of `s` where there is
/// none.
pub open spec fn find(s: Seq<char>, c: char) -> int
    decreases s.len(),
{
    if s.len() == 0 || s[0] == c {
        0
    } else {
        1 + find(s.skip(1), c)
    }
}

/// The pieces of `s` between the separators `c`; there is always at least one.
pub open spec fn split_at_each(s: Seq<char>, c: char) -> Seq<Seq<char>>
    decreases s.len(),
{
    let i = find(s, c);
    if 0 <= i < s.len() {
        seq![s.take(i)] + split_at_each(s.skip(i + 1), c)
    } else {
        seq![s]
    }
}

/// `find` gives the first position of `c`.
pub proof fn lemma_find(s: Seq<char>, c: char)
    ensures
        0 <= find(s, c) <= s.len(),
        forall|j: int| 0 <= j < find(s, c) ==> s[j] != c,
        find(s, c) < s.len() ==> s[find(s, c)] == c,
    decreases s.len(),
{
    if s.len() > 0 && s[0] != c {
        let rest = s.skip(1);
        lemma_find(rest, c);
        assert forall|j: int| 0 <= j < find(s, c) implies s[j] != c by {
            if j > 0 {
                assert(s[j] == rest[j - 1]);
            }
        }
    }
}

/// A position before which `c` does not occur, and at which it occurs or the
/// text ends, is the one `find` gives.
pub proof fn lemma_find_is(s: Seq<char>, c: char, i: int)
    requires
        0 <= i <= s.len(),
        forall|j: int| 0 <= j < i ==> s[j] != c,
        i < s.len() ==> s[i] == c,
    ensures
        find(s, c) == i,
{
    lemma_find(s, c);
    if find(s, c) < i {
        assert(s[find(s, c)] != c);
    }
}

/// The first position at or after `start` at which `chars` holds `c`, or the
/// length of `chars`.
fn find_from(chars: &Vec<char>, start: usize, c: char) -> (i: usize)
    requires
        start <= chars@.len(),
    ensures
        start <= i <= chars@.len(),
        i - start == find(chars@.skip(start as int), c),
{
    let mut i: usize = start;
    while i < chars.len() && chars[i] != c
        invariant
            start <= i <= chars@.len(),
            forall|j: int| start <= j < i ==> chars@[j] != c,
        decreases chars@.len() - i,
    {
        i = i + 1;
    }
    proof {
        let rest = chars@.skip(start as int);
        assert forall|j: int| 0 <= j < i - start implies rest[j] != c by {
            assert(rest[j] == chars@[start + j]);
        }
        lemma_find_is(rest, c, i - start);
    }
    i
}

/// The pieces of `s` between the separators `c`.
pub fn split(s: &str, c: char) -> (pieces: Vec<String>)
    ensures
        texts(pieces@) == split_at_each(s@, c),
        pieces@.len() > 0,
{
    let chars = to_chars(s);
    let mut pieces: Vec<String> = Vec::new();
    let mut start: usize = 0;
    proof {
        assert(s@.skip(0) == s@);
        assert(texts(pieces@) + split_at_each(s@, c) == split_at_each(s@, c));
    }
    loop
        invariant_except_break
            chars@ == s@,
            start <= s@.len(),
            texts(pieces@) + split_at_each(s@.skip(start as int), c) == split_at_each(s@, c),
        ensures
            texts(pieces@) == split_at_each(s@, c),
            pieces@.len() > 0,
        decreases s@.len() - start,
    {
        let ghost rest = s@.skip(start as int);
        let ghost before = pieces@;
        let i = find_from(&chars, start, c);
        let piece = s.substring_char(start, i).to_owned();
        proof {
            lemma_find(rest, c);
            assert(piece@ == rest.take(i - start));
        }
        pieces.push(piece);
        proof {
            assert(texts(pieces@) == texts(before).push(piece@));
        }
        if i == chars.len() {
            proof {
                assert(rest.take(i - start) == rest);
            }
            break;
        }
        proof {
            assert(rest.skip(i - start + 1) == s@.skip(i + 1));
            assert(texts(before).push(piece@) + split_at_each(s@.skip(i + 1), c) == texts(before)
                + (seq![piece@] + split_at_each(s@.skip(i + 1), c)));
        }
        start = i + 1;
    }
    pieces
}

/// Whether `c` occurs in `s`.
pub fn contains_char(s: &str, c: char) -> (found: bool)
    ensures
        found == s@.contains(c),
{
    let chars = to_chars(s);
    let i = find_from(&chars, 0, c);
    proof {
        assert(s@.skip(0) == s@);
        lemma_find(s@, c);
        if i < s@.len() {
            assert(s@[i as int] == c);
        }
    }
    i < chars.len()
}

/// Text with `c` has at least two pieces.
pub proof fn lemma_split_two(s: Seq<char>, c: char)
    requires
        s.contains(c),
    ensures
        split_at_each(s, c).len() >= 2,
{
    let k = choose|k: int| 0 <= k < s.len() && s[k] == c;
    lemma_find(s, c);
    lemma_split_nonempty(s.skip(find(s, c) + 1), c);
}

/// Text without `c` is its own and only piece.
pub proof fn lemma_split_none(s: Seq<char>, c: char)
    requires
        !s.contains(c),
    ensures
        find(s, c) == s.len(),
        split_at_each(s, c) == seq![s],
{
    lemma_find(s, c);
    if find(s, c) < s.len() {
        assert(s.contains(s[find(s, c)]));
    }
}

/// Text without `c`, followed by `c` and more text, is the first piece of the
/// whole; the pieces of the rest follow.
pub proof fn lemma_split_first(a: Seq<char>, c: char, b: Seq<char>)
    requires
        !a.contains(c),
    ensures
        split_at_each(a + seq![c] + b, c) == seq![a] + split_at_each(b, c),
{
    let s = a + seq![c] + b;
    assert forall|j: int| 0 <= j < a.len() implies s[j] != c by {
        assert(s[j] == a[j]);
        assert(a.contains(a[j]));
    }
    lemma_find_is(s, c, a.len() as int);
    assert(s.take(a.len() as int) == a);
    assert(s.skip((a.len() + 1) as int) == b);
}

/// Text without `c` is the last piece of any text that ends in `c` and it.
pub proof fn lemma_split_last(a: Seq<char>, c: char, b: Seq<char>)
    requires
        !b.contains(c),
    ensures
        split_at_each(a + seq![c] + b, c).last() == b,
    decreases a.len(),
{
    let s = a + seq![c] + b;
    let i = find(s, c);
    lemma_find(s, c);
    assert(s[a.len() as int] == c);
    lemma_split_none(b, c);
    if i < a.len() {
        let rest = a.skip(i + 1);
        assert(s.skip(i + 1) == rest + seq![c] + b);
        lemma_split_last(rest, c, b);
        lemma_split_nonempty(s.skip(i + 1), c);
    } else {
        assert(i == a.len());
        assert(s.skip(i + 1) == b);
    }
}

/// There is always a piece.
pub proof fn lemma_split_nonempty(s: Seq<char>, c: char)
    ensures
        split_at_each(s, c).len() > 0,
{
    lemma_find(s, c);
}

// ---------------------------------------------------------------------------
// Lines
// ---------------------------------------------------------------------------

/// `line` without a carriage return at its end.
pub open spec fn strip_cr(line: Seq<char>) -> Seq<char> {
    if line.len() > 0 && line.last() == '\r' {
        line.drop_last()
    } else {
        line
    }
}

/// The lines of `s`: each ends in a line feed, or in a carriage return and a
/// line feed, neither of which belongs to it; the last needs no ending.
pub open spec fn lines_of(s: Seq<char>) -> Seq<Seq<char>>
    decreases s.len(),
{
    let i = find(s, '\n');
    if s.len() == 0 {
        Seq::empty()
    } else if 0 <= i < s.len() {
        seq![strip_cr(s.take(i))] + lines_of(s.skip(i + 1))
    } else {
        seq![s]
    }
}

/// The lines of `s`.
pub fn lines(s: &str) -> (out: Vec<String>)
    ensures
        texts(out@) == lines_of(s@),
{
    let chars = to_chars(s);
    let mut out: Vec<String> = Vec::new();
    let mut start: usize = 0;
    proof {
        assert(s@.skip(0) == s@);
        assert(texts(out@) + lines_of(s@) == lines_of(s@));
    }
    while start < chars.len()
        invariant
            chars@ == s@,
            start <= s@.len(),
            texts(out@) + lines_of(s@.skip(start as int)) == lines_of(s@),
        decreases s@.len() - start,
    {
        let ghost rest = s@.skip(start as int);
        let ghost before = out@;
        let i = find_from(&chars, start, '\n');
        proof {
            lemma_find(rest, '\n');
        }
        if i == chars.len() {
            let line = s.substring_char(start, i).to_owned();
            proof {
                assert(line@ == rest);
            }
            out.push(line);
            proof {
                assert(texts(out@) == texts(before).push(line@));
                assert(s@.skip(i as int) == Seq::<char>::empty());
                assert(texts(out@) + lines_of(s@.skip(i as int)) == texts(before) + seq![line@]);
            }
            start = i;
        } else {
            let end: usize = if start < i && chars[i - 1] == '\r' {
                i - 1
            } else {
                i
            };
            let line = s.substring_char(start, end).to_owned();
            proof {
                let whole = rest.take(i - start);
                if start < i {
                    assert(whole.last() == chars@[i - 1]);
                }
                assert(line@ == strip_cr(whole));
            }
            out.push(line);
            proof {
                assert(texts(out@) == texts(before).push(line@));
                assert(rest.skip(i - start + 1) == s@.skip(i + 1));
                assert(texts(before).push(line@) + lines_of(s@.skip(i + 1)) == texts(before) + (
                seq![line@] + lines_of(s@.skip(i + 1))));
            }
            start = i + 1;
        }
    }
    proof {
        assert(s@.skip(start as int) == Seq::<char>::empty());
        assert(texts(out@) + lines_of(s@.skip(start as int)) == texts(out@));
    }
    out
}

// ---------------------------------------------------------------------------
// Decimal numbers
// ---------------------------------------------------------------------------

/// The decimal digit `d`.
pub open spec fn digit(d: int) -> char {
    (48 + d) as char
}

/// Whether `c` is one of the digits `0` to `9`.
pub open spec fn is_digit(c: char) -> bool {
    48 <= c as int <= 57
}

/// `n` in decimal, without leading zeros.
pub open spec fn decimal(n: nat) -> Seq<char>
    decreases n,
{
    if n < 10 {
        seq![digit(n as int)]
    } else {
        decimal(n / 10).push(digit((n % 10) as int))
    }
}

/// The number that the digits `s` stand for.
pub open spec fn digits_value(s: Seq<char>) -> nat
    decreases s.len(),
{
    if s.len() == 0 {
        0
    } else {
        10 * digits_value(s.drop_last()) + ((s.last() as int - 48) as nat)
    }
}

/// Whether `s` holds digits only.
pub open spec fn all_digits(s: Seq<char>) -> bool {
    forall|i: int| 0 <= i < s.len() ==> is_digit(#[trigger] s[i])
}

/// `s` without a plus sign at its start.
pub open spec fn without_plus(s: Seq<char>) -> Seq<char> {
    if s.len() > 0 && s[0] == '+' {
        s.skip(1)
    } else {
        s
    }
}

/// The number that `s` is read as: an optional plus sign and at least one
/// digit, nothing else, and no more than `u32::MAX`.
pub open spec fn number(s: Seq<char>) -> Option<u32> {
    let digits = without_plus(s);
    if digits.len() > 0 && all_digits(digits) && digits_value(digits) <= u32::MAX {
        Some(digits_value(digits) as u32)
    } else {
        None
    }
}

/// The text of one digit.
fn digit_text(d: u32) -> (t: String)
    requires
        d < 10,
    ensures
        t@ == seq![digit(d as int)],
{
    proof {
        reveal_strlit("0123456789");
    }
    "0123456789".substring_char(d as usize, d as usize + 1).to_owned()
}

/// `n` in decimal.
pub fn u32_to_text(n: u32) -> (t: String)
    ensures
        t@ == decimal(n as nat),
    decreases n,
{
    if n < 10 {
        digit_text(n)
    } else {
        let mut t = u32_to_text(n / 10);
        let last = digit_text(n % 10);
        t.append(last.as_str());
        t
    }
}

/// The number in `s`, if it is one.
pub fn text_to_u32(s: &str) -> (n: Option<u32>)
    ensures
        n == number(s@),
{
    let chars = to_chars(s);
    let start: usize = if chars.len() > 0 && chars[0] == '+' {
        1
    } else {
        0
    };
    let ghost digits = without_plus(s@);
    proof {
        assert(digits == s@.skip(start as int));
    }
    if start == chars.len() {
        return None;
    }
    let mut value: u32 = 0;
    let mut i: usize = start;
    proof {
        assert(digits.take(0) == Seq::<char>::empty());
    }
    while i < chars.len()
        invariant
            chars@ == s@,
            start <= i <= s@.len(),
            digits == s@.skip(start as int),
            digits == without_plus(s@),
            all_digits(digits.take(i - start)),
            value == digits_value(digits.take(i - start)),
        decreases s@.len() - i,
    {
        let c = chars[i];
        let ghost taken = digits.take(i - start);
        let ghost more = digits.take(i - start + 1);
        proof {
            assert(more.drop_last() == taken);
            assert(more.last() == c);
            assert(digits[i - start] == c);
        }
        let code = code_point(c);
        if code < 48 || code > 57 {
            return None;
        }
        let d: u32 = code - 48;
        proof {
            lemma_value_grows(digits, i - start + 1);
        }
        if value > (u32::MAX - d) / 10 {
            proof {
                assert(digits_value(more) > u32::MAX) by {
                    assert(digits_value(more) == 10 * value + d);
                    assert(10 * value + d > u32::MAX);
                }
                if all_digits(digits) {
                    assert(digits_value(digits) >= digits_value(more));
                }
            }
            return None;
        }
        value = value * 10 + d;
        i = i + 1;
    }
    proof {
        assert(digits.take(i - start) == digits);
    }
    Some(value)
}

/// Digits that are added at the end never make a number smaller.
proof fn lemma_value_grows(s: Seq<char>, i: int)
    requires
        0 <= i <= s.len(),
    ensures
        all_digits(s) ==> digits_value(s.take(i)) <= digits_value(s),
    decreases s.len() - i,
{
    if i < s.len() {
        lemma_value_grows(s, i + 1);
        if all_digits(s) {
            assert(s.take(i + 1).drop_last() == s.take(i));
            assert(s.take(i + 1).last() == s[i]);
            assert(is_digit(s[i]));
        }
    } else {
        assert(s.take(i) == s);
    }
}

/// Decimal text holds at least one digit and nothing else, and its digits
/// stand for the number.
pub proof fn lemma_decimal(n: nat)
    ensures
        decimal(n).len() > 0,
        all_digits(decimal(n)),
        digits_value(decimal(n)) == n,
    decreases n,
{
    if n >= 10 {
        lemma_decimal(n / 10);
        assert(decimal(n).drop_last() == decimal(n / 10));
    } else {
        assert(decimal(n).drop_last() == Seq::<char>::empty());
        assert(digits_value(Seq::<char>::empty()) == 0);
    }
}

/// A number written in decimal is read back as itself.
pub proof fn lemma_decimal_read_back(n: u32)
    ensures
        number(decimal(n as nat)) == Some(n),
{
    lemma_decimal(n as nat);
    assert(is_digit(decimal(n as nat)[0]));
    assert(without_plus(decimal(n as nat)) == decimal(n as nat));
}

// ---------------------------------------------------------------------------
// Order
// ---------------------------------------------------------------------------

/// Whether `a` comes before `b`: at the first character in which they differ
/// it has the lower code point, or it ends where `b` goes on.
pub open spec fn comes_before(a: Seq<char>, b: Seq<char>) -> bool
    decreases b.len(),
{
    if b.len() == 0 {
        false
    } else if a.len() == 0 {
        true
    } else if a[0] != b[0] {
        (a[0] as int) < (b[0] as int)
    } else {
        comes_before(a.skip(1), b.skip(1))
    }
}

/// Whether `a` comes after `b`.
pub fn text_after(a: &str, b: &str) -> (after: bool)
    ensures
        after == comes_before(b@, a@),
{
    let left = to_chars(a);
    let right = to_chars(b);
    let mut i: usize = 0;
    proof {
        assert(a@.skip(0) == a@);
        assert(b@.skip(0) == b@);
    }
    while i < left.len() && i < right.len()
        invariant
            left@ == a@,
            right@ == b@,
            i <= a@.len(),
            i <= b@.len(),
            comes_before(b@, a@) == comes_before(b@.skip(i as int), a@.skip(i as int)),
        decreases a@.len() - i,
    {
        if left[i] != right[i] {
            return code_point(right[i]) < code_point(left[i]);
        }
        proof {
            assert(a@.skip(i as int).skip(1) == a@.skip(i + 1));
            assert(b@.skip(i as int).skip(1) == b@.skip(i + 1));
        }
        i = i + 1;
    }
    i < left.len()
}

/// Of two different texts exactly one comes before the other, and no text
/// comes before itself.
pub proof fn lemma_order_total(a: Seq<char>, b: Seq<char>)
    ensures
        a == b ==> !comes_before(a, b),
        a != b ==> (comes_before(a, b) <==> !comes_before(b, a)),
    decreases a.len(),
{
    if a.len() > 0 && b.len() > 0 && a[0] == b[0] {
        lemma_order_total(a.skip(1), b.skip(1));
        if a.skip(1) == b.skip(1) {
            assert(a == seq![a[0]] + a.skip(1));
            assert(b == seq![b[0]] + b.skip(1));
        }
    } else if a.len() == 0 && b.len() == 0 {
        assert(a == b);
    }
}

/// The order of texts is transitive.
pub proof fn lemma_order_transitive(a: Seq<char>, b: Seq<char>, c: Seq<char>)
    requires
        comes_before(a, b),
        comes_before(b, c),
    ensures
        comes_before(a, c),
    decreases c.len(),
{
    if a.len() > 0 && a[0] == b[0] && b[0] == c[0] {
        lemma_order_transitive(a.skip(1), b.skip(1), c.skip(1));
    }
}

// ---------------------------------------------------------------------------
// File names
// ---------------------------------------------------------------------------

/// Whether a piece of a path names something: it is neither empty nor a
/// single dot.
pub open spec fn names_something(piece: Seq<char>) -> bool {
    piece.len() > 0 && piece != seq!['.']
}

/// The last piece of a `/`-separated path that names something, if there is
/// one and it is not the parent directory.
pub open spec fn file_name_of(path: Seq<char>) -> Option<Seq<char>> {
    let names = split_at_each(path, '/').filter(|piece: Seq<char>| names_something(piece));
    if names.len() == 0 || names.last() == seq!['.', '.'] {
        None
    } else {
        Some(names.last())
    }
}

/// The position of the last `c` in `s`, or -1 where there is none.
pub open spec fn find_last(s: Seq<char>, c: char) -> int
    decreases s.len(),
{
    if s.len() == 0 {
        -1
    } else if s.last() == c {
        s.len() - 1
    } else {
        find_last(s.drop_last(), c)
    }
}

/// The last `c` stands where it was found.
pub proof fn lemma_find_last(s: Seq<char>, c: char)
    ensures
        -1 <= find_last(s, c) < s.len(),
        find_last(s, c) >= 0 ==> s[find_last(s, c)] == c,
    decreases s.len(),
{
    if s.len() > 0 && s.last() != c {
        lemma_find_last(s.drop_last(), c);
    }
}

/// A file name without its extension: what stands before its last dot, or the
/// whole name where that dot is missing or stands first.
pub open spec fn stem_of(name: Seq<char>) -> Seq<char> {
    let i = find_last(name, '.');
    if i <= 0 {
        name
    } else {
        name.take(i)
    }
}

/// The name of the file that `path` leads to.
pub fn file_name(path: &str) -> (name: Option<String>)
    ensures
        name is Some <==> file_name_of(path@) is Some,
        name matches Some(n) ==> file_name_of(path@) == Some(n@),
{
    let pieces = split(path, '/');
    let ghost keep = |piece: Seq<char>| names_something(piece);
    let ghost all = split_at_each(path@, '/');
    let mut last: Option<usize> = None;
    let mut i: usize = 0;
    proof {
        reveal_strlit(".");
        reveal_strlit("..");
        assert("."@ == seq!['.']);
        assert(".."@ == seq!['.', '.']);
        reveal(Seq::filter);
        assert(all.take(0).filter(keep).len() == 0);
    }
    while i < pieces.len()
        invariant
            i <= pieces@.len(),
            texts(pieces@) == all,
            "."@ == seq!['.'],
            keep == (|piece: Seq<char>| names_something(piece)),
            match last {
                None => all.take(i as int).filter(keep).len() == 0,
                Some(k) => k < pieces@.len() && all.take(i as int).filter(keep).len() > 0
                    && all.take(i as int).filter(keep).last() == pieces@[k as int]@,
            },
        decreases pieces@.len() - i,
    {
        let piece = &pieces[i];
        proof {
            reveal(Seq::filter);
            assert(all.take(i + 1).drop_last() == all.take(i as int));
            assert(all.take(i + 1).last() == piece@);
        }
        if !piece.as_str().is_empty() && !same_text(piece.as_str(), ".") {
            last = Some(i);
        }
        i = i + 1;
    }
    proof {
        assert(all.take(i as int) == all);
    }
    match last {
        None => None,
        Some(k) => {
            if same_text(pieces[k].as_str(), "..") {
                None
            } else {
                Some(pieces[k].clone())
            }
        },
    }
}

/// `name` without its extension.
pub fn file_stem(name: &str) -> (stem: String)
    ensures
        stem@ == stem_of(name@),
{
    let chars = to_chars(name);
    let mut i: usize = chars.len();
    proof {
        assert(name@.take(i as int) == name@);
    }
    while i > 0 && chars[i - 1] != '.'
        invariant
            chars@ == name@,
            i <= chars@.len(),
            find_last(name@.take(i as int), '.') == find_last(name@, '.'),
        decreases i,
    {
        proof {
            assert(name@.take(i as int).drop_last() == name@.take(i - 1));
            assert(name@.take(i as int).last() == chars@[i - 1]);
        }
        i = i - 1;
    }
    proof {
        if i > 0 {
            assert(name@.take(i as int).last() == chars@[i - 1]);
        }
    }
    if i <= 1 {
        name.to_owned()
    } else {
        name.substring_char(0, i - 1).to_owned()
    }
}

} // verus!
