//! Text as sequences of characters: the small vocabulary that the other modules are
//! specified in, and the functions that compute it.

use crate::order;
use vstd::prelude::*;
use vstd::string::*;

verus! {

/// The views of a sequence of strings.
pub open spec fn texts(strings: Seq<String>) -> Seq<Seq<char>> {
    strings.map_values(|s: String| s@)
}

/// An optional string by its view.
pub open spec fn opt_text(s: Option<String>) -> Option<Seq<char>> {
    match s {
        Some(t) => Some(t@),
        None => None,
    }
}

/// An optional borrowed string by its view.
pub open spec fn opt_str(s: Option<&str>) -> Option<Seq<char>> {
    match s {
        Some(t) => Some(t@),
        None => None,
    }
}

/// Whether `s` begins with `prefix`.
pub open spec fn has_prefix(s: Seq<char>, prefix: Seq<char>) -> bool {
    prefix.len() <= s.len() && s.take(prefix.len() as int) == prefix
}

/// Whether `s` ends with `suffix`.
pub open spec fn has_suffix(s: Seq<char>, suffix: Seq<char>) -> bool {
    suffix.len() <= s.len() && s.skip(s.len() - suffix.len()) == suffix
}

/// `s` without the copies of `pattern` at its start.
pub open spec fn trim_start(s: Seq<char>, pattern: Seq<char>) -> Seq<char>
    decreases s.len(),
{
    if pattern.len() > 0 && has_prefix(s, pattern) {
        trim_start(s.skip(pattern.len() as int), pattern)
    } else {
        s
    }
}

/// `s` without the copies of `pattern` at its end.
pub open spec fn trim_end(s: Seq<char>, pattern: Seq<char>) -> Seq<char>
    decreases s.len(),
{
    if pattern.len() > 0 && has_suffix(s, pattern) {
        trim_end(s.take(s.len() - pattern.len()), pattern)
    } else {
        s
    }
}

/// The parts, in order, with `separator` between each two.
pub open spec fn join(parts: Seq<Seq<char>>, separator: Seq<char>) -> Seq<char>
    decreases parts.len(),
{
    if parts.len() == 0 {
        Seq::empty()
    } else if parts.len() == 1 {
        parts[0]
    } else {
        join(parts.drop_last(), separator) + separator + parts.last()
    }
}

/// `s` with each occurrence of `from` replaced by `to`.
pub open spec fn replace_char(s: Seq<char>, from: char, to: char) -> Seq<char> {
    s.map_values(|c: char| if c == from { to } else { c })
}

/// The index of the last occurrence of `c` in `s`, or -1.
pub open spec fn last_index(s: Seq<char>, c: char) -> int
    decreases s.len(),
{
    if s.len() == 0 {
        -1
    } else if s.last() == c {
        s.len() - 1
    } else {
        last_index(s.drop_last(), c)
    }
}

/// The order of characters.
pub open spec fn char_order() -> spec_fn(char, char) -> bool {
    |x: char, y: char| x < y
}

/// The lexicographic order of texts by character.
pub open spec fn text_before(a: Seq<char>, b: Seq<char>) -> bool {
    order::lex_before(a, b, char_order())
}

/// Whether texts stand in lexicographic order, none twice.
pub open spec fn sorted(items: Seq<Seq<char>>) -> bool {
    forall|i: int, j: int|
        0 <= i < j < items.len() ==> text_before(#[trigger] items[i], #[trigger] items[j])
}

/// The decimal digit of a number below ten.
pub open spec fn digit_char(d: int) -> char {
    (48 + d) as char
}

/// The decimal notation of a number, without leading zeros.
pub open spec fn decimal(n: nat) -> Seq<char>
    decreases n,
{
    if n < 10 {
        seq![digit_char(n as int)]
    } else {
        decimal(n / 10).push(digit_char((n % 10) as int))
    }
}

/// Whether a text consists of decimal digits only.
pub open spec fn all_digits(s: Seq<char>) -> bool {
    forall|i: int| 0 <= i < s.len() ==> '0' <= #[trigger] s[i] <= '9'
}

/// The number that a sequence of decimal digits denotes.
pub open spec fn digits_value(s: Seq<char>) -> nat
    decreases s.len(),
{
    if s.len() == 0 {
        0
    } else {
        digits_value(s.drop_last()) * 10 + (s.last() as nat - 48) as nat
    }
}

/// The digits of an unsigned number in text form: the text without one leading plus sign.
pub open spec fn unsigned_digits(s: Seq<char>) -> Seq<char> {
    if s.len() > 0 && s[0] == '+' {
        s.skip(1)
    } else {
        s
    }
}

/// The unsigned number, at most `max`, that a text denotes: an optional plus sign and one
/// or more decimal digits.
pub open spec fn unsigned_value(s: Seq<char>, max: nat) -> Option<nat> {
    let digits = unsigned_digits(s);
    if digits.len() > 0 && all_digits(digits) && digits_value(digits) <= max {
        Some(digits_value(digits))
    } else {
        None
    }
}

/// Whether two borrowed strings hold the same text.
pub fn str_eq(a: &str, b: &str) -> (equal: bool)
    ensures
        equal == (a@ == b@),
{
    let left = a.to_owned();
    let right = b.to_owned();
    left == right
}

/// Whether a text is among some.
pub fn holds(names: &Vec<String>, name: &str) -> (r: bool)
    ensures
        r == texts(names@).contains(name@),
{
    let mut i: usize = 0;
    while i < names.len()
        invariant
            i <= names@.len(),
            forall|j: int| 0 <= j < i ==> #[trigger] texts(names@)[j] != name@,
        decreases names@.len() - i,
    {
        if str_eq(names[i].as_str(), name) {
            proof {
                assert(texts(names@)[i as int] == name@);
            }
            return true;
        }
        i = i + 1;
    }
    false
}

/// Whether `s` begins with `prefix`.
pub fn starts_with(s: &str, prefix: &str) -> (r: bool)
    ensures
        r == has_prefix(s@, prefix@),
{
    let n: usize = prefix.unicode_len();
    if n <= s.unicode_len() {
        proof {
            assert(s@.subrange(0, n as int) =~= s@.take(n as int));
        }
        str_eq(s.substring_char(0, n), prefix)
    } else {
        false
    }
}

/// Whether `s` ends with `suffix`.
pub fn ends_with(s: &str, suffix: &str) -> (r: bool)
    ensures
        r == has_suffix(s@, suffix@),
{
    let n: usize = suffix.unicode_len();
    let total: usize = s.unicode_len();
    if n <= total {
        proof {
            assert(s@.subrange(total - n, total as int) =~= s@.skip(total - n));
        }
        str_eq(s.substring_char(total - n, total), suffix)
    } else {
        false
    }
}

/// `s` without the copies of `pattern` at its start.
pub fn trim_start_matches<'a>(s: &'a str, pattern: &str) -> (r: &'a str)
    ensures
        r@ == trim_start(s@, pattern@),
    decreases s@.len(),
{
    let n: usize = pattern.unicode_len();
    if n > 0 && starts_with(s, pattern) {
        let total: usize = s.unicode_len();
        let rest = s.substring_char(n, total);
        proof {
            assert(rest@ =~= s@.skip(n as int));
        }
        trim_start_matches(rest, pattern)
    } else {
        s
    }
}

/// `s` without the copies of `pattern` at its end.
pub fn trim_end_matches<'a>(s: &'a str, pattern: &str) -> (r: &'a str)
    ensures
        r@ == trim_end(s@, pattern@),
    decreases s@.len(),
{
    let n: usize = pattern.unicode_len();
    if n > 0 && ends_with(s, pattern) {
        let total: usize = s.unicode_len();
        let rest = s.substring_char(0, total - n);
        proof {
            assert(rest@ =~= s@.take(total - n));
        }
        trim_end_matches(rest, pattern)
    } else {
        s
    }
}

/// The parts, in order, with `separator` between each two.
pub fn join_strings(parts: &[String], separator: &str) -> (r: String)
    ensures
        r@ == join(texts(parts@), separator@),
{
    let mut out = String::new();
    let mut i: usize = 0;
    proof {
        assert(texts(parts@).take(0) =~= Seq::empty());
    }
    while i < parts.len()
        invariant
            i <= parts@.len(),
            out@ == join(texts(parts@).take(i as int), separator@),
        decreases parts@.len() - i,
    {
        if i > 0 {
            out.append(separator);
        }
        out.append(parts[i].as_str());
        proof {
            let next = texts(parts@).take(i + 1);
            assert(next.drop_last() =~= texts(parts@).take(i as int));
            assert(next.last() == parts@[i as int]@);
            if i == 0 {
                assert(out@ =~= parts@[0]@);
            }
        }
        i = i + 1;
    }
    proof {
        assert(texts(parts@).take(parts@.len() as int) =~= texts(parts@));
    }
    out
}

/// `s` with each backslash turned into a slash.
pub fn forward_slashes(s: &str) -> (r: String)
    ensures
        r@ == replace_char(s@, '\\', '/'),
{
    let total: usize = s.unicode_len();
    let mut out = String::new();
    let mut i: usize = 0;
    proof {
        reveal_strlit("/");
    }
    while i < total
        invariant
            i <= total,
            total == s@.len(),
            "/"@ =~= seq!['/'],
            out@ =~= replace_char(s@.take(i as int), '\\', '/'),
        decreases total - i,
    {
        if s.get_char(i) == '\\' {
            out.append("/");
        } else {
            out.append(s.substring_char(i, i + 1));
        }
        i = i + 1;
    }
    proof {
        assert(s@.take(total as int) =~= s@);
    }
    out
}

pub proof fn lemma_last_index(s: Seq<char>, c: char)
    ensures
        -1 <= last_index(s, c) < s.len(),
        last_index(s, c) >= 0 ==> s[last_index(s, c)] == c,
        forall|i: int| last_index(s, c) < i < s.len() ==> #[trigger] s[i] != c,
    decreases s.len(),
{
    if s.len() > 0 && s.last() != c {
        lemma_last_index(s.drop_last(), c);
        assert forall|i: int| last_index(s, c) < i < s.len() implies #[trigger] s[i] != c by {
            if i < s.len() - 1 {
                assert(s.drop_last()[i] == s[i]);
            }
        }
    }
}

/// The index of the last occurrence of `c` in `s`, if there is one.
pub fn find_last(s: &str, c: char) -> (r: Option<usize>)
    ensures
        match r {
            Some(i) => i < s@.len() && i == last_index(s@, c),
            None => last_index(s@, c) == -1,
        },
{
    let total: usize = s.unicode_len();
    let mut i: usize = total;
    proof {
        assert(s@.take(total as int) =~= s@);
    }
    while i > 0
        invariant
            i <= total,
            total == s@.len(),
            last_index(s@.take(i as int), c) == last_index(s@, c),
        decreases i,
    {
        proof {
            let here = s@.take(i as int);
            assert(here.last() == s@[i - 1]);
            assert(here.drop_last() =~= s@.take(i - 1));
        }
        if s.get_char(i - 1) == c {
            return Some(i - 1);
        }
        i = i - 1;
    }
    None
}

/// Whether `a` comes before `b` in lexicographic order.
pub fn comes_before(a: &str, b: &str) -> (r: bool)
    ensures
        r == text_before(a@, b@),
{
    let left: usize = a.unicode_len();
    let right: usize = b.unicode_len();
    let mut i: usize = 0;
    proof {
        assert(a@.skip(0) =~= a@);
        assert(b@.skip(0) =~= b@);
    }
    while i < left && i < right
        invariant
            i <= left,
            i <= right,
            left == a@.len(),
            right == b@.len(),
            text_before(a@, b@) == text_before(a@.skip(i as int), b@.skip(i as int)),
        decreases left - i,
    {
        let x = a.get_char(i);
        let y = b.get_char(i);
        proof {
            assert(a@.skip(i as int)[0] == x);
            assert(b@.skip(i as int)[0] == y);
            assert(a@.skip(i as int).drop_first() =~= a@.skip(i + 1));
            assert(b@.skip(i as int).drop_first() =~= b@.skip(i + 1));
        }
        if x != y {
            return x < y;
        }
        i = i + 1;
    }
    i < right
}

/// The digit of a number below ten, as a text of one character.
fn digit_text(d: u64) -> (r: &'static str)
    requires
        d < 10,
    ensures
        r@ == seq![digit_char(d as int)],
{
    proof {
        reveal_strlit("0");
        reveal_strlit("1");
        reveal_strlit("2");
        reveal_strlit("3");
        reveal_strlit("4");
        reveal_strlit("5");
        reveal_strlit("6");
        reveal_strlit("7");
        reveal_strlit("8");
        reveal_strlit("9");
        assert("0"@ =~= seq!['0']);
        assert("1"@ =~= seq!['1']);
        assert("2"@ =~= seq!['2']);
        assert("3"@ =~= seq!['3']);
        assert("4"@ =~= seq!['4']);
        assert("5"@ =~= seq!['5']);
        assert("6"@ =~= seq!['6']);
        assert("7"@ =~= seq!['7']);
        assert("8"@ =~= seq!['8']);
        assert("9"@ =~= seq!['9']);
    }
    if d == 0 {
        "0"
    } else if d == 1 {
        "1"
    } else if d == 2 {
        "2"
    } else if d == 3 {
        "3"
    } else if d == 4 {
        "4"
    } else if d == 5 {
        "5"
    } else if d == 6 {
        "6"
    } else if d == 7 {
        "7"
    } else if d == 8 {
        "8"
    } else {
        "9"
    }
}

/// The decimal notation of a number.
pub fn decimal_text(n: u64) -> (r: String)
    ensures
        r@ == decimal(n as nat),
    decreases n,
{
    if n < 10 {
        digit_text(n).to_owned()
    } else {
        let mut out = decimal_text(n / 10);
        out.append(digit_text(n % 10));
        proof {
            assert(out@ =~= decimal((n / 10) as nat).push(digit_char((n % 10) as int)));
        }
        out
    }
}

/// Of two different texts one comes before the other, and no text before itself.
pub proof fn lemma_before_total(a: Seq<char>, b: Seq<char>)
    ensures
        text_before(a, b) || text_before(b, a) || a == b,
        !(text_before(a, b) && text_before(b, a)),
        a == b ==> !text_before(a, b),
{
    order::lemma_lex_total(a, b, char_order());
}

/// The order of texts is transitive.
pub proof fn lemma_before_trans(a: Seq<char>, b: Seq<char>, c: Seq<char>)
    requires
        text_before(a, b),
        text_before(b, c),
    ensures
        text_before(a, c),
{
    order::lemma_lex_trans(a, b, c, char_order());
}

/// In a sorted sequence no text occurs twice.
pub proof fn lemma_sorted_distinct(items: Seq<Seq<char>>)
    requires
        sorted(items),
    ensures
        items.no_duplicates(),
{
    assert forall|i: int, j: int|
        0 <= i < items.len() && 0 <= j < items.len() && i != j implies items[i] != items[j] by {
        lemma_before_total(items[i], items[j]);
        if i < j {
            assert(text_before(items[i], items[j]));
        } else {
            assert(text_before(items[j], items[i]));
        }
    }
}

/// The decimal notation of a number consists of digits and denotes the number.
pub proof fn lemma_decimal(n: nat)
    ensures
        decimal(n).len() > 0,
        all_digits(decimal(n)),
        digits_value(decimal(n)) == n,
        unsigned_digits(decimal(n)) == decimal(n),
    decreases n,
{
    if n < 10 {
        assert(decimal(n).drop_last() =~= Seq::<char>::empty());
        assert(digits_value(decimal(n).drop_last()) == 0);
        assert(decimal(n).last() as nat == 48 + n);
    } else {
        lemma_decimal(n / 10);
        let d = digit_char((n % 10) as int);
        assert(decimal(n).drop_last() =~= decimal(n / 10));
        assert(decimal(n).last() as nat == 48 + n % 10);
        assert forall|i: int| 0 <= i < decimal(n).len() implies '0' <= #[trigger] decimal(n)[i]
            <= '9' by {
            if i < decimal(n / 10).len() {
                assert(decimal(n)[i] == decimal(n / 10)[i]);
            } else {
                assert(decimal(n)[i] == d);
            }
        }
    }
    assert('0' <= decimal(n)[0]);
}

/// The place of the last `c` in a text that is put together around one.
pub proof fn lemma_last_index_of(a: Seq<char>, c: char, b: Seq<char>)
    requires
        !b.contains(c),
    ensures
        last_index(a + seq![c] + b, c) == a.len(),
{
    let s = a + seq![c] + b;
    lemma_last_index(s, c);
    let k = last_index(s, c);
    assert(s[a.len() as int] == c);
    if k < a.len() {
        assert(s[a.len() as int] != c);
    } else if k > a.len() {
        assert(s[k] == b[k - a.len() - 1]);
        assert(b.contains(c));
    }
}

/// The number that the front of some digits denotes is no larger than that of all of them.
proof fn lemma_digits_grow(s: Seq<char>, i: int)
    requires
        0 <= i <= s.len(),
    ensures
        digits_value(s.take(i)) <= digits_value(s),
    decreases s.len() - i,
{
    if i < s.len() {
        lemma_digits_grow(s, i + 1);
        assert(s.take(i + 1).drop_last() =~= s.take(i));
    } else {
        assert(s.take(i) =~= s);
    }
}

/// The unsigned number, at most `max`, that a text denotes, if it denotes one.
pub fn parse_unsigned(s: &str, max: u64) -> (r: Option<u64>)
    ensures
        match r {
            Some(n) => unsigned_value(s@, max as nat) == Some(n as nat),
            None => unsigned_value(s@, max as nat) is None,
        },
{
    let total: usize = s.unicode_len();
    let first: usize = if total > 0 && s.get_char(0) == '+' {
        1
    } else {
        0
    };
    let ghost digits = unsigned_digits(s@);
    proof {
        assert(digits =~= s@.skip(first as int));
        assert(digits.take(0) =~= Seq::<char>::empty());
    }
    if first == total {
        return None;
    }
    let mut value: u64 = 0;
    let mut i: usize = first;
    while i < total
        invariant
            first <= i <= total,
            total == s@.len(),
            digits == s@.skip(first as int),
            digits == unsigned_digits(s@),
            value <= max,
            all_digits(digits.take(i - first)),
            digits_value(digits.take(i - first)) == value,
        decreases total - i,
    {
        let c = s.get_char(i);
        let ghost done = digits.take(i - first);
        let ghost next = digits.take(i + 1 - first);
        proof {
            assert(next.drop_last() =~= done);
            assert(next.last() == c);
            assert(digits[i - first] == c);
        }
        if c < '0' || c > '9' {
            return None;
        }
        proof {
            assert forall|k: int| 0 <= k < next.len() implies '0' <= #[trigger] next[k] <= '9' by {
                if k < done.len() {
                    assert(next[k] == done[k]);
                }
            }
            lemma_digits_grow(digits, i + 1 - first);
        }
        let digit: u64 = (c as u32 - 48) as u64;
        if value > max / 10 || digit > max - value * 10 {
            return None;
        }
        value = value * 10 + digit;
        i = i + 1;
    }
    proof {
        assert(digits.take(i - first) =~= digits);
    }
    Some(value)
}

/// The number of 16 bits that a text denotes, if it denotes one.
pub fn parse_u16(s: &str) -> (r: Option<u16>)
    ensures
        match r {
            Some(n) => unsigned_value(s@, u16::MAX as nat) == Some(n as nat),
            None => unsigned_value(s@, u16::MAX as nat) is None,
        },
{
    match parse_unsigned(s, 65535) {
        Some(n) => Some(n as u16),
        None => None,
    }
}

/// The text of the error with which the standard library refuses to read a text as a number
/// of 64 bits, empty where it does not refuse.
pub uninterp spec fn parse_error_text(s: Seq<char>) -> Seq<char>;

/// The text of the error of the standard library's `str::parse` for `u64`, empty where it
/// does not fail. What the error says is left under a name.
#[verifier::external_body]
fn parse_error(s: &str) -> (r: String)
    ensures
        r@ == parse_error_text(s@),
{
    s.parse::<u64>().err().map_or(String::new(), |e| e.to_string())
}

/// The number of 64 bits that a text denotes, or why it denotes none.
pub fn parse_u64(s: &str) -> (r: Result<u64, String>)
    ensures
        match r {
            Ok(n) => unsigned_value(s@, u64::MAX as nat) == Some(n as nat),
            Err(e) => unsigned_value(s@, u64::MAX as nat) is None && e@ == parse_error_text(s@),
        },
{
    match parse_unsigned(s, u64::MAX) {
        Some(n) => Ok(n),
        None => Err(parse_error(s)),
    }
}

/// The index of the first occurrence of `c` in `s`, or the length of `s`.
pub open spec fn first_index(s: Seq<char>, c: char) -> int
    decreases s.len(),
{
    if s.len() == 0 || s[0] == c {
        0
    } else {
        1 + first_index(s.drop_first(), c)
    }
}

/// A line that a line feed ended, without the carriage return before the line feed.
pub open spec fn ended_line(s: Seq<char>) -> Seq<char> {
    if s.len() > 0 && s.last() == '\r' {
        s.drop_last()
    } else {
        s
    }
}

/// The lines of a text. A line ends with a line feed or with a carriage return and a line
/// feed; the last one may end with the text.
pub open spec fn lines(s: Seq<char>) -> Seq<Seq<char>>
    decreases s.len(),
{
    let end = first_index(s, '\n');
    if s.len() == 0 {
        Seq::empty()
    } else if 0 <= end < s.len() {
        seq![ended_line(s.take(end))] + lines(s.skip(end + 1))
    } else {
        seq![s]
    }
}

/// The first occurrence of a character is the one that no other stands before.
pub proof fn lemma_first_index(s: Seq<char>, c: char, i: int)
    requires
        0 <= i <= s.len(),
        forall|j: int| 0 <= j < i ==> #[trigger] s[j] != c,
        i < s.len() ==> s[i] == c,
    ensures
        first_index(s, c) == i,
    decreases s.len(),
{
    if i > 0 {
        let rest = s.drop_first();
        assert(s[0] != c);
        assert forall|j: int| 0 <= j < i - 1 implies #[trigger] rest[j] != c by {
            assert(rest[j] == s[j + 1]);
        }
        lemma_first_index(rest, c, i - 1);
    }
}

/// The lines of a text.
pub fn text_lines(s: &str) -> (r: Vec<String>)
    ensures
        texts(r@) == lines(s@),
{
    let total: usize = s.unicode_len();
    let mut out: Vec<String> = Vec::new();
    let mut start: usize = 0;
    let mut i: usize = 0;
    proof {
        assert(s@.skip(0) =~= s@);
        assert(texts(out@) + lines(s@) =~= lines(s@));
    }
    while i < total
        invariant
            start <= i <= total,
            total == s@.len(),
            forall|j: int| start <= j < i ==> #[trigger] s@[j] != '\n',
            texts(out@) + lines(s@.skip(start as int)) == lines(s@),
        decreases total - i,
    {
        if s.get_char(i) == '\n' {
            let ghost rest = s@.skip(start as int);
            let ghost before = texts(out@);
            let end: usize = if i > start && s.get_char(i - 1) == '\r' {
                i - 1
            } else {
                i
            };
            let line = s.substring_char(start, end).to_owned();
            proof {
                assert forall|j: int| 0 <= j < i - start implies #[trigger] rest[j] != '\n' by {
                    assert(rest[j] == s@[start + j]);
                }
                lemma_first_index(rest, '\n', i - start);
                assert(rest.take(i - start) =~= s@.subrange(start as int, i as int));
                assert(line@ =~= ended_line(rest.take(i - start)));
                assert(rest.skip(i - start + 1) =~= s@.skip(i + 1));
            }
            out.push(line);
            proof {
                assert(texts(out@) =~= before.push(line@));
                assert(texts(out@) + lines(s@.skip(i + 1)) =~= before + lines(rest));
            }
            start = i + 1;
        }
        i = i + 1;
    }
    let ghost rest = s@.skip(start as int);
    let ghost before = texts(out@);
    if start < total {
        let line = s.substring_char(start, total).to_owned();
        proof {
            assert forall|j: int| 0 <= j < rest.len() implies #[trigger] rest[j] != '\n' by {
                assert(rest[j] == s@[start + j]);
            }
            lemma_first_index(rest, '\n', rest.len() as int);
            assert(line@ =~= rest);
        }
        out.push(line);
        proof {
            assert(texts(out@) =~= before.push(line@));
            assert(texts(out@) =~= before + lines(rest));
        }
    } else {
        proof {
            assert(before + lines(rest) =~= before);
        }
    }
    out
}

} // verus!
