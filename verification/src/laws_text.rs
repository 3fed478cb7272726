//! How the functions on texts, numbers and orders behave on texts that are put together.

use crate::order;
use crate::paths;
use crate::paths::{PathPart, PathPartView};
use crate::text;
use vstd::prelude::*;

verus! {

/// Law: joined texts stand one behind the other with the separator between each two: one more
/// text at the end adds the separator and that text.
pub proof fn law_join_grows_by_separator_and_part(
    parts: Seq<Seq<char>>,
    part: Seq<char>,
    separator: Seq<char>,
)
    ensures
        text::join(Seq::empty(), separator).len() == 0,
        text::join(seq![part], separator) == part,
        parts.len() > 0 ==> text::join(parts.push(part), separator) == text::join(parts, separator)
            + separator + part,
{
    assert(parts.push(part).drop_last() =~= parts);
}

/// Law: trimming takes off each copy of a pattern at the end of a text, and nothing of a text
/// that does not end with it.
pub proof fn law_trimming_takes_copies_off_the_end(s: Seq<char>, pattern: Seq<char>)
    requires
        pattern.len() > 0,
    ensures
        text::trim_end(s + pattern, pattern) == text::trim_end(s, pattern),
        (forall|front: Seq<char>| s != #[trigger] (front + pattern)) ==> text::trim_end(s, pattern)
            == s,
{
    let all = s + pattern;
    assert(all.skip(all.len() - pattern.len()) =~= pattern);
    assert(all.take(all.len() - pattern.len()) =~= s);
    if text::has_suffix(s, pattern) {
        let front = s.take(s.len() - pattern.len());
        assert(s =~= front + pattern);
    }
}

/// Law: trimming takes off each copy of a pattern at the start of a text, and nothing of a
/// text that does not start with it.
pub proof fn law_trimming_takes_copies_off_the_start(s: Seq<char>, pattern: Seq<char>)
    requires
        pattern.len() > 0,
    ensures
        text::trim_start(pattern + s, pattern) == text::trim_start(s, pattern),
        (forall|rest: Seq<char>| s != #[trigger] (pattern + rest)) ==> text::trim_start(s, pattern)
            == s,
{
    let all = pattern + s;
    assert(all.take(pattern.len() as int) =~= pattern);
    assert(all.skip(pattern.len() as int) =~= s);
    if text::has_prefix(s, pattern) {
        let rest = s.skip(pattern.len() as int);
        assert(s =~= pattern + rest);
    }
}

/// Law: a text starts with a prefix exactly if it is the prefix and something behind it.
pub proof fn law_prefix_is_followed_by_the_rest(s: Seq<char>, prefix: Seq<char>)
    ensures
        text::has_prefix(s, prefix) <==> exists|rest: Seq<char>| s == #[trigger] (prefix + rest),
{
    if text::has_prefix(s, prefix) {
        assert(s =~= prefix + s.skip(prefix.len() as int));
    }
    if exists|rest: Seq<char>| s == #[trigger] (prefix + rest) {
        assert(s.take(prefix.len() as int) =~= prefix);
    }
}

/// A decimal digit.
pub open spec fn is_digit(c: char) -> bool {
    '0' <= c && c <= '9'
}

/// Law: the decimal notation of a number is read back as that number, also behind a plus sign,
/// if it is not too large; it has no zero in front.
pub proof fn law_number_is_read_back_from_its_notation(n: nat, max: nat)
    ensures
        n <= max ==> text::unsigned_value(text::decimal(n), max) == Some(n),
        n <= max ==> text::unsigned_value(seq!['+'] + text::decimal(n), max) == Some(n),
        n > max ==> text::unsigned_value(text::decimal(n), max) is None,
        text::decimal(n).len() > 1 ==> text::decimal(n)[0] != '0',
        n < 10 ==> text::decimal(n) == seq![(48 + n) as char],
{
    text::lemma_decimal(n);
    let signed = seq!['+'] + text::decimal(n);
    assert(signed.skip(1) =~= text::decimal(n));
    lemma_no_leading_zero(n);
}

proof fn lemma_no_leading_zero(n: nat)
    ensures
        n > 0 ==> text::decimal(n)[0] != '0',
        n < 10 ==> text::decimal(n).len() == 1,
    decreases n,
{
    if n >= 10 {
        lemma_no_leading_zero(n / 10);
        text::lemma_decimal(n / 10);
        assert(text::decimal(n)[0] == text::decimal(n / 10)[0]);
    } else if n > 0 {
        assert(text::decimal(n)[0] as nat == 48 + n);
    }
}

/// Law: a digit denotes itself, and one more digit at the end makes ten times the number and
/// the digit; a text with anything but digits, but for one plus sign in front, denotes no
/// number, nor does one without digits.
pub proof fn law_digits_denote_a_number(s: Seq<char>, d: nat, max: nat, i: int)
    requires
        d < 10,
    ensures
        text::unsigned_value(seq![(48 + d) as char], max) == (if d <= max {
            Some(d)
        } else {
            None
        }),
        text::unsigned_value(s, max) matches Some(n) ==> text::unsigned_value(
            s.push((48 + d) as char),
            max,
        ) == (if 10 * n + d <= max {
            Some((10 * n + d) as nat)
        } else {
            None
        }),
        0 <= i < s.len() && !is_digit(s[i]) && (i > 0 || s[i] != '+') ==> text::unsigned_value(
            s,
            max,
        ) is None,
        text::unsigned_value(Seq::empty(), max) is None,
        text::unsigned_value(seq!['+'], max) is None,
{
    let c = (48 + d) as char;
    assert(c as nat == 48 + d);
    let one = seq![c];
    assert(one.drop_last() =~= Seq::empty());
    reveal_with_fuel(text::digits_value, 2);
    assert(text::digits_value(one) == d);
    if text::unsigned_value(s, max) is Some {
        let digits = text::unsigned_digits(s);
        let more = text::unsigned_digits(s.push(c));
        assert(more =~= digits.push(c));
        assert(more.drop_last() =~= digits);
        assert forall|k: int| 0 <= k < more.len() implies '0' <= #[trigger] more[k] <= '9' by {
            if k < digits.len() {
                assert(more[k] == digits[k]);
            }
        }
    }
    if 0 <= i < s.len() && !is_digit(s[i]) && (i > 0 || s[i] != '+') {
        let digits = text::unsigned_digits(s);
        if s[0] == '+' {
            assert(digits[i - 1] == s[i]);
        } else {
            assert(digits[i] == s[i]);
        }
    }
    assert(seq!['+'].skip(1) =~= Seq::<char>::empty());
}

/// Law: a line feed ends a line, and so does a carriage return before a line feed; what is
/// behind are the other lines; the last line may end with the text.
pub proof fn law_line_feeds_end_lines(line: Seq<char>, rest: Seq<char>)
    requires
        forall|i: int| 0 <= i < line.len() ==> #[trigger] line[i] != '\n',
    ensures
        text::lines(Seq::empty()).len() == 0,
        line.len() > 0 ==> text::lines(line) == seq![line],
        line.len() == 0 || line.last() != '\r' ==> text::lines(line + seq!['\n'] + rest)
            == seq![line] + text::lines(rest),
        text::lines(line + seq!['\r', '\n'] + rest) == seq![line] + text::lines(rest),
{
    let a = line + seq!['\n'] + rest;
    let b = line + seq!['\r', '\n'] + rest;
    text::lemma_first_index(line, '\n', line.len() as int);
    assert forall|i: int| 0 <= i < line.len() implies #[trigger] a[i] != '\n' by {
        assert(a[i] == line[i]);
    }
    text::lemma_first_index(a, '\n', line.len() as int);
    assert(a.take(line.len() as int) =~= line);
    assert(a.skip(line.len() as int + 1) =~= rest);
    assert forall|i: int| 0 <= i < line.len() + 1 implies #[trigger] b[i] != '\n' by {
        if i < line.len() {
            assert(b[i] == line[i]);
        } else {
            assert(b[i] == '\r');
        }
    }
    text::lemma_first_index(b, '\n', line.len() as int + 1);
    assert(b.take(line.len() as int + 1) =~= line.push('\r'));
    assert(b.take(line.len() as int + 1).drop_last() =~= line);
    assert(b.skip(line.len() as int + 2) =~= rest);
}

proof fn lemma_lex_common<T>(
    common: Seq<T>,
    a: Seq<T>,
    b: Seq<T>,
    lt: spec_fn(T, T) -> bool,
)
    ensures
        order::lex_before(common + a, common + b, lt) == order::lex_before(a, b, lt),
    decreases common.len(),
{
    if common.len() == 0 {
        assert(common + a =~= a);
        assert(common + b =~= b);
    } else {
        lemma_lex_common(common.drop_first(), a, b, lt);
        assert((common + a).drop_first() =~= common.drop_first() + a);
        assert((common + b).drop_first() =~= common.drop_first() + b);
    }
}

/// Law: of two texts the one comes first that has the smaller character where they first
/// differ, or that ends there; no text comes before itself.
pub proof fn law_first_difference_orders_texts(
    common: Seq<char>,
    x: char,
    y: char,
    a: Seq<char>,
    b: Seq<char>,
)
    ensures
        x != y ==> (text::text_before(common + (seq![x] + a), common + (seq![y] + b)) <==> x < y),
        text::text_before(common, common + (seq![x] + a)),
        !text::text_before(common + (seq![x] + a), common),
        !text::text_before(a, a),
{
    lemma_lex_common(common, seq![x] + a, seq![y] + b, text::char_order());
    lemma_lex_common(common, Seq::empty(), seq![x] + a, text::char_order());
    lemma_lex_common(common, seq![x] + a, Seq::empty(), text::char_order());
    assert(common + Seq::<char>::empty() =~= common);
    text::lemma_before_total(a, a);
}

/// Law: of two paths the one comes first that has the smaller part where they first differ, or
/// that ends there; no path comes before itself.
pub proof fn law_first_different_part_orders_paths(
    common: Seq<PathPartView>,
    x: PathPartView,
    y: PathPartView,
    a: Seq<PathPartView>,
    b: Seq<PathPartView>,
)
    ensures
        x != y ==> (paths::path_before(common + (seq![x] + a), common + (seq![y] + b))
            <==> paths::part_before(x, y)),
        paths::path_before(common, common + (seq![x] + a)),
        !paths::path_before(common + (seq![x] + a), common),
        !paths::path_before(a, a),
{
    lemma_lex_common(common, seq![x] + a, seq![y] + b, paths::part_order());
    lemma_lex_common(common, Seq::empty(), seq![x] + a, paths::part_order());
    lemma_lex_common(common, seq![x] + a, Seq::empty(), paths::part_order());
    assert(common + Seq::<PathPartView>::empty() =~= common);
    paths::lemma_path_total(a, a);
}

/// Law: among the parts of paths, prefixes come before the root, the root before the current
/// directory, that before the parent directory, and that before names; names are ordered by
/// the first byte in which they differ, and a name comes before those that it begins.
pub proof fn law_parts_are_ordered(
    sort: u8,
    first: Seq<u8>,
    second: Seq<u8>,
    common: Seq<u8>,
    x: u8,
    y: u8,
    a: Seq<u8>,
    b: Seq<u8>,
)
    ensures
        paths::part_before(PathPartView::Prefix(sort, first, second), PathPartView::Root),
        paths::part_before(PathPartView::Root, PathPartView::Current),
        paths::part_before(PathPartView::Current, PathPartView::Parent),
        paths::part_before(PathPartView::Parent, PathPartView::Name(common)),
        x != y ==> (paths::part_before(
            PathPartView::Name(common + (seq![x] + a)),
            PathPartView::Name(common + (seq![y] + b)),
        ) <==> x < y),
        paths::part_before(
            PathPartView::Name(common),
            PathPartView::Name(common + (seq![x] + a)),
        ),
        x < y ==> paths::part_before(
            PathPartView::Prefix(x, first, second),
            PathPartView::Prefix(y, a, b),
        ),
        x != y ==> (paths::part_before(
            PathPartView::Prefix(sort, common + (seq![x] + a), first),
            PathPartView::Prefix(sort, common + (seq![y] + b), second),
        ) <==> x < y),
        x != y ==> (paths::part_before(
            PathPartView::Prefix(sort, first, common + (seq![x] + a)),
            PathPartView::Prefix(sort, first, common + (seq![y] + b)),
        ) <==> x < y),
{
    lemma_lex_common(common, seq![x] + a, seq![y] + b, paths::byte_order());
    lemma_lex_common(common, Seq::empty(), seq![x] + a, paths::byte_order());
    assert(common + Seq::<u8>::empty() =~= common);
    lemma_lex_common(first, Seq::empty(), Seq::empty(), paths::byte_order());
    assert(first + Seq::<u8>::empty() =~= first);
    assert((common + (seq![x] + a))[common.len() as int] == x);
    assert((common + (seq![y] + b))[common.len() as int] == y);
}

/// Law: of two different paths exactly one comes before the other, and what comes before a path
/// comes before all behind it.
pub proof fn law_paths_are_ordered(
    a: Seq<PathPartView>,
    b: Seq<PathPartView>,
    c: Seq<PathPartView>,
)
    ensures
        a != b ==> (paths::path_before(a, b) <==> !paths::path_before(b, a)),
        paths::path_before(a, b) && paths::path_before(b, c) ==> paths::path_before(a, c),
{
    paths::lemma_path_total(a, b);
    if paths::path_before(a, b) && paths::path_before(b, c) {
        paths::lemma_path_trans(a, b, c);
    }
}

/// Law: a path is seen as all its parts, in order, each as it is.
pub proof fn law_path_is_seen_as_its_parts(path: Seq<PathPart>, i: int)
    ensures
        paths::path_view(path).len() == path.len(),
        0 <= i < path.len() ==> match path[i] {
            PathPart::Prefix { sort, first, second } => paths::path_view(path)[i]
                == PathPartView::Prefix(sort, first@, second@),
            PathPart::Root => paths::path_view(path)[i] == PathPartView::Root,
            PathPart::Current => paths::path_view(path)[i] == PathPartView::Current,
            PathPart::Parent => paths::path_view(path)[i] == PathPartView::Parent,
            PathPart::Name(name) => paths::path_view(path)[i] == PathPartView::Name(name@),
        },
{
}

} // verus!
