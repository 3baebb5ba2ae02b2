//! Strings as sequences of characters: comparison, search, trimming, ASCII case
//! and decimal numerals.

use vstd::prelude::*;
use vstd::string::*;

verus! {

/// `String::push` appends one character to the end of the string.
pub assume_specification[ String::push ](s: &mut String, c: char)
    ensures
        final(s)@ == old(s)@.push(c),
;

/// The Unicode `White_Space` property.
pub open spec fn white(c: char) -> bool {
    ||| '\u{9}' <= c <= '\u{d}'
    ||| c == ' '
    ||| c == '\u{85}'
    ||| c == '\u{a0}'
    ||| c == '\u{1680}'
    ||| '\u{2000}' <= c <= '\u{200a}'
    ||| c == '\u{2028}'
    ||| c == '\u{2029}'
    ||| c == '\u{202f}'
    ||| c == '\u{205f}'
    ||| c == '\u{3000}'
}

/// The text without its leading white space.
pub open spec fn trim_start(s: Seq<char>) -> Seq<char>
    decreases s.len(),
{
    if s.len() > 0 && white(s[0]) {
        trim_start(s.drop_first())
    } else {
        s
    }
}

/// The text without its trailing white space.
pub open spec fn trim_end(s: Seq<char>) -> Seq<char>
    decreases s.len(),
{
    if s.len() > 0 && white(s.last()) {
        trim_end(s.drop_last())
    } else {
        s
    }
}

/// The text without white space at either end.
pub open spec fn trimmed(s: Seq<char>) -> Seq<char> {
    trim_end(trim_start(s))
}

/// Whether the text is empty or nothing but white space.
pub open spec fn blank(s: Seq<char>) -> bool {
    trimmed(s).len() == 0
}

/// An ASCII capital as its small letter, any other character as it is.
pub open spec fn lower_char(c: char) -> char {
    if 'A' <= c <= 'Z' {
        ((c as u8 + 32u8) as u8) as char
    } else {
        c
    }
}

/// The text with its ASCII capitals made small.
pub open spec fn lowered(s: Seq<char>) -> Seq<char> {
    s.map_values(|c: char| lower_char(c))
}

/// Whether `part` occurs in `s`.
pub open spec fn has_part(s: Seq<char>, part: Seq<char>) -> bool {
    exists|i: int| #[trigger] occurs_at(s, part, i)
}

/// Whether `part` stands in `s` from index `i` on.
pub open spec fn occurs_at(s: Seq<char>, part: Seq<char>, i: int) -> bool {
    0 <= i && i + part.len() <= s.len() && s.subrange(i, i + part.len()) == part
}

/// The index of the first `c` in `s`, or the length of `s`.
pub open spec fn first_index(s: Seq<char>, c: char) -> int
    decreases s.len(),
{
    if s.len() == 0 || s[0] == c {
        0
    } else {
        1 + first_index(s.drop_first(), c)
    }
}

/// The pieces of `s` between occurrences of `c`; at least one.
pub open spec fn pieces(s: Seq<char>, c: char) -> Seq<Seq<char>>
    decreases s.len(),
{
    let i = first_index(s, c);
    if 0 <= i < s.len() {
        seq![s.take(i)] + pieces(s.skip(i + 1), c)
    } else {
        seq![s]
    }
}

/// The character of a decimal digit.
pub open spec fn digit_char(d: int) -> char {
    ((48 + d) as u8) as char
}

/// The decimal numeral of a number.
pub open spec fn decimal(n: nat) -> Seq<char>
    decreases n,
{
    if n < 10 {
        seq![digit_char(n as int)]
    } else {
        decimal(n / 10).push(digit_char((n % 10) as int))
    }
}

/// The view of an optional string.
pub open spec fn opt_view(s: Option<String>) -> Option<Seq<char>> {
    match s {
        Some(s) => Some(s@),
        None => None,
    }
}

/// The views of a sequence of strings.
pub open spec fn views(s: Seq<String>) -> Seq<Seq<char>> {
    s.map_values(|x: String| x@)
}

/// The characters of a string, in order.
pub fn chars_of(s: &str) -> (out: Vec<char>)
    ensures
        out@ == s@,
{
    let mut out: Vec<char> = Vec::new();
    for c in it: s.chars()
        invariant
            it.seq() == s@,
            out@ == s@.take(it.index()),
    {
        out.push(c);
    }
    out
}

/// Whether two strings hold the same characters.
pub fn str_eq(a: &str, b: &str) -> (r: bool)
    ensures
        r == (a@ == b@),
{
    a.to_owned() == b.to_owned()
}

/// Whether two optional strings are both absent or hold the same characters.
pub fn opt_eq(a: &Option<String>, b: &Option<String>) -> (r: bool)
    ensures
        r == (opt_view(*a) == opt_view(*b)),
{
    match (a, b) {
        (Some(x), Some(y)) => str_eq(x, y),
        (None, None) => true,
        _ => false,
    }
}

/// The characters of `s` from `from` up to `to`, as a string.
pub fn part_of(s: &Vec<char>, from: usize, to: usize) -> (out: String)
    requires
        from <= to <= s@.len(),
    ensures
        out@ == s@.subrange(from as int, to as int),
{
    let mut out = String::new();
    let mut i: usize = from;
    while i < to
        invariant
            from <= i <= to <= s@.len(),
            out@ == s@.subrange(from as int, i as int),
        decreases to - i,
    {
        out.push(s[i]);
        assert(s@.subrange(from as int, i as int).push(s@[i as int]) =~= s@.subrange(
            from as int,
            i + 1,
        ));
        i = i + 1;
    }
    out
}

/// Whether a character is white space.
pub fn is_white(c: char) -> (r: bool)
    ensures
        r == white(c),
{
    ('\u{9}' <= c && c <= '\u{d}') || c == ' ' || c == '\u{85}' || c == '\u{a0}' || c == '\u{1680}'
        || ('\u{2000}' <= c && c <= '\u{200a}') || c == '\u{2028}' || c == '\u{2029}' || c
        == '\u{202f}' || c == '\u{205f}' || c == '\u{3000}'
}

/// The text without white space at either end.
pub fn trim(s: &str) -> (out: String)
    ensures
        out@ == trimmed(s@),
{
    let chars = chars_of(s);
    let mut from: usize = 0;
    assert(s@.skip(0) =~= s@);
    while from < chars.len() && is_white(chars[from])
        invariant
            from <= chars@.len(),
            chars@ == s@,
            trim_start(s@) == trim_start(s@.skip(from as int)),
        decreases chars@.len() - from,
    {
        assert(s@.skip(from as int).drop_first() =~= s@.skip(from + 1));
        from = from + 1;
    }
    let ghost rest = s@.skip(from as int);
    assert(trim_start(s@) == rest);
    let mut to: usize = chars.len();
    assert(rest =~= s@.subrange(from as int, to as int));
    while to > from && is_white(chars[to - 1])
        invariant
            from <= to <= chars@.len(),
            chars@ == s@,
            trim_end(rest) == trim_end(s@.subrange(from as int, to as int)),
        decreases to,
    {
        assert(s@.subrange(from as int, to as int).drop_last() =~= s@.subrange(
            from as int,
            to - 1,
        ));
        to = to - 1;
    }
    part_of(&chars, from, to)
}

/// Whether the text is empty or nothing but white space.
pub fn is_blank(s: &str) -> (r: bool)
    ensures
        r == blank(s@),
{
    trim(s).as_str().is_empty()
}

/// The text with its ASCII capitals made small.
pub fn to_lower(s: &str) -> (out: String)
    ensures
        out@ == lowered(s@),
{
    let chars = chars_of(s);
    let mut out = String::new();
    let mut i: usize = 0;
    while i < chars.len()
        invariant
            i <= chars@.len(),
            chars@ == s@,
            out@ == lowered(s@).take(i as int),
        decreases chars@.len() - i,
    {
        let c = chars[i];
        if 'A' <= c && c <= 'Z' {
            out.push(((c as u8) + 32u8) as char);
        } else {
            out.push(c);
        }
        assert(lowered(s@).take(i as int).push(lowered(s@)[i as int]) =~= lowered(s@).take(i + 1));
        i = i + 1;
    }
    assert(lowered(s@).take(s@.len() as int) =~= lowered(s@));
    out
}

/// Whether `part` stands in `s` from index `at` on.
pub fn occurs(s: &Vec<char>, part: &Vec<char>, at: usize) -> (r: bool)
    ensures
        r == occurs_at(s@, part@, at as int),
{
    if at > s.len() || part.len() > s.len() - at {
        return false;
    }
    let mut i: usize = 0;
    while i < part.len()
        invariant
            i <= part@.len(),
            at + part.len() <= s.len(),
            forall|j: int| 0 <= j < i ==> s@[at + j] == part@[j],
        decreases part@.len() - i,
    {
        if s[at + i] != part[i] {
            assert(s@.subrange(at as int, at + part@.len())[i as int] != part@[i as int]);
            return false;
        }
        i = i + 1;
    }
    assert(s@.subrange(at as int, at + part@.len()) =~= part@);
    true
}

/// Whether `s` begins with `part`.
pub fn starts_with(s: &str, part: &str) -> (r: bool)
    ensures
        r == part@.is_prefix_of(s@),
{
    let r = occurs(&chars_of(s), &chars_of(part), 0);
    assert(r ==> part@.is_prefix_of(s@)) by {
        if r {
            assert(s@.subrange(0, part@.len() as int) == part@);
        }
    }
    assert(part@.is_prefix_of(s@) ==> s@.subrange(0, part@.len() as int) =~= part@);
    r
}

/// Whether `part` occurs in `s`.
pub fn contains(s: &str, part: &str) -> (r: bool)
    ensures
        r == has_part(s@, part@),
{
    let a = chars_of(s);
    let b = chars_of(part);
    if b.len() > a.len() {
        return false;
    }
    let mut i: usize = 0;
    while i <= a.len() - b.len()
        invariant
            a@ == s@,
            b@ == part@,
            b@.len() <= a@.len(),
            i <= a@.len() - b@.len() + 1,
            forall|j: int| 0 <= j < i ==> !#[trigger] occurs_at(s@, part@, j),
        decreases a@.len() - b@.len() + 1 - i,
    {
        if occurs(&a, &b, i) {
            return true;
        }
        if i == a.len() - b.len() {
            return false;
        }
        i = i + 1;
    }
    false
}

/// The index of the first `c` at or after `from`, or the length.
pub fn index_from(s: &Vec<char>, c: char, from: usize) -> (r: usize)
    requires
        from <= s@.len(),
    ensures
        from <= r <= s@.len(),
        r - from == first_index(s@.skip(from as int), c),
        forall|j: int| from <= j < r ==> s@[j] != c,
        r < s@.len() ==> s@[r as int] == c,
{
    let mut i: usize = from;
    while i < s.len() && s[i] != c
        invariant
            from <= i <= s@.len(),
            forall|j: int| from <= j < i ==> s@[j] != c,
            first_index(s@.skip(from as int), c) == i - from + first_index(s@.skip(i as int), c),
        decreases s@.len() - i,
    {
        assert(s@.skip(i as int).drop_first() =~= s@.skip(i + 1));
        i = i + 1;
    }
    i
}

/// The text before and after the first `c`, where there is one.
pub fn split_once(s: &str, c: char) -> (r: Option<(String, String)>)
    ensures
        r is Some <==> s@.contains(c),
        r is Some <==> first_index(s@, c) < s@.len(),
        match r {
            Some((a, b)) => {
                &&& a@ == s@.take(first_index(s@, c))
                &&& b@ == s@.skip(first_index(s@, c) + 1)
            },
            None => true,
        },
{
    let chars = chars_of(s);
    let i = index_from(&chars, c, 0);
    assert(s@.skip(0) =~= s@);
    if i < chars.len() {
        assert(s@[i as int] == c);
        let a = part_of(&chars, 0, i);
        let b = part_of(&chars, i + 1, chars.len());
        assert(a@ =~= s@.take(first_index(s@, c)));
        assert(b@ =~= s@.skip(first_index(s@, c) + 1));
        Some((a, b))
    } else {
        assert(!s@.contains(c));
        None
    }
}

/// The pieces of `s` between occurrences of `c`.
pub fn split(s: &str, c: char) -> (out: Vec<String>)
    ensures
        views(out@) == pieces(s@, c),
{
    let chars = chars_of(s);
    let mut out: Vec<String> = Vec::new();
    let mut from: usize = 0;
    assert(s@.skip(0) =~= s@);
    assert(views(out@) + pieces(s@.skip(0), c) =~= pieces(s@, c));
    loop
        invariant
            from <= chars@.len(),
            chars@ == s@,
            views(out@) + pieces(s@.skip(from as int), c) == pieces(s@, c),
        decreases chars@.len() - from,
    {
        let i = index_from(&chars, c, from);
        let piece = part_of(&chars, from, i);
        let ghost rest = s@.skip(from as int);
        let ghost before = views(out@);
        assert(piece@ =~= rest.take(i - from));
        out.push(piece);
        assert(views(out@) =~= before + seq![piece@]);
        if i < chars.len() {
            assert(rest.skip(i - from + 1) =~= s@.skip(i + 1));
            assert(views(out@) + pieces(s@.skip(i + 1), c) =~= before + (seq![piece@] + pieces(
                s@.skip(i + 1),
                c,
            )));
            from = i + 1;
        } else {
            assert(rest.take(i - from) =~= rest);
            return out;
        }
    }
}

/// Joins two texts.
pub fn cat(a: &str, b: &str) -> (out: String)
    ensures
        out@ == a@ + b@,
{
    let mut out = a.to_owned();
    out.append(b);
    out
}

/// Joins three texts.
pub fn cat3(a: &str, b: &str, c: &str) -> (out: String)
    ensures
        out@ == a@ + b@ + c@,
{
    let mut out = a.to_owned();
    out.append(b);
    out.append(c);
    out
}

/// Joins five texts.
pub fn cat5(a: &str, b: &str, c: &str, d: &str, e: &str) -> (out: String)
    ensures
        out@ == a@ + b@ + c@ + d@ + e@,
{
    let mut out = a.to_owned();
    out.append(b);
    out.append(c);
    out.append(d);
    out.append(e);
    out
}

/// The decimal numeral of a number.
pub fn decimal_of(n: u64) -> (out: String)
    ensures
        out@ == decimal(n as nat),
    decreases n,
{
    let mut out = if n < 10 {
        String::new()
    } else {
        decimal_of(n / 10)
    };
    let d: u8 = (n % 10) as u8;
    out.push((48u8 + d) as char);
    assert(out@ =~= decimal(n as nat));
    out
}

/// Whether one text comes before another in the order of their characters.
pub open spec fn before(a: Seq<char>, b: Seq<char>) -> bool
    decreases a.len(),
{
    if b.len() == 0 {
        false
    } else if a.len() == 0 {
        true
    } else if a[0] != b[0] {
        a[0] < b[0]
    } else {
        before(a.drop_first(), b.drop_first())
    }
}

/// Of two different texts one comes before the other.
pub proof fn before_total(a: Seq<char>, b: Seq<char>)
    ensures
        a == b ==> !before(a, b),
        a != b ==> before(a, b) != before(b, a),
    decreases a.len(),
{
    if a.len() > 0 && b.len() > 0 && a[0] == b[0] {
        before_total(a.drop_first(), b.drop_first());
        if a.drop_first() == b.drop_first() {
            assert forall|i: int| 0 <= i < a.len() && a.len() == b.len() implies a[i] == b[i] by {
                if i > 0 {
                    assert(a.drop_first()[i - 1] == b.drop_first()[i - 1]);
                }
            }
            assert(a.len() == a.drop_first().len() + 1);
            assert(a =~= b);
        }
    } else if a.len() == 0 && b.len() == 0 {
        assert(a =~= b);
    }
}

/// The order of texts is transitive.
pub proof fn before_transitive(a: Seq<char>, b: Seq<char>, c: Seq<char>)
    requires
        before(a, b),
        before(b, c),
    ensures
        before(a, c),
    decreases a.len(),
{
    if a.len() > 0 && a[0] == b[0] && b[0] == c[0] {
        before_transitive(a.drop_first(), b.drop_first(), c.drop_first());
    }
}

/// Whether one text comes before another.
pub fn comes_before(a: &str, b: &str) -> (r: bool)
    ensures
        r == before(a@, b@),
{
    let x = chars_of(a);
    let y = chars_of(b);
    let mut i: usize = 0;
    assert(a@.skip(0) =~= a@ && b@.skip(0) =~= b@);
    while i < x.len() && i < y.len()
        invariant
            i <= x@.len(),
            i <= y@.len(),
            x@ == a@,
            y@ == b@,
            before(a@, b@) == before(a@.skip(i as int), b@.skip(i as int)),
        decreases x@.len() - i,
    {
        if x[i] != y[i] {
            return x[i] < y[i];
        }
        assert(a@.skip(i as int).drop_first() =~= a@.skip(i + 1));
        assert(b@.skip(i as int).drop_first() =~= b@.skip(i + 1));
        i = i + 1;
    }
    i < y.len()
}

/// Whether texts are listed in their order, each once.
pub open spec fn ordered(s: Seq<Seq<char>>) -> bool {
    forall|i: int, j: int| 0 <= i < j < s.len() ==> before(#[trigger] s[i], #[trigger] s[j])
}

/// Puts a text into its place in an ordered list, unless it is there.
pub fn insert_ordered(list: &mut Vec<String>, text: &str)
    requires
        ordered(views(old(list)@)),
    ensures
        ordered(views(final(list)@)),
        forall|t: Seq<char>|
            views(final(list)@).contains(t) <==> #[trigger] views(old(list)@).contains(t) || t
                == text@,
{
    let ghost start = views(list@);
    let mut i: usize = 0;
    while i < list.len() && comes_before(&list[i], text)
        invariant
            i <= list@.len(),
            start == views(list@),
            forall|j: int| 0 <= j < i ==> before(#[trigger] start[j], text@),
        decreases list@.len() - i,
    {
        assert(start[i as int] == list@[i as int]@);
        i = i + 1;
    }
    if i < list.len() && str_eq(&list[i], text) {
        assert(start[i as int] == text@);
        return;
    }
    proof {
        if i < start.len() {
            before_total(text@, start[i as int]);
            assert forall|j: int| i <= j < start.len() implies before(text@, #[trigger] start[j]) by {
                if j > i {
                    before_transitive(text@, start[i as int], start[j]);
                }
            }
        }
    }
    list.insert(i, text.to_owned());
    let ghost after = views(list@);
    assert(after =~= start.insert(i as int, text@));
    assert forall|a: int, b: int| 0 <= a < b < after.len() implies before(
        #[trigger] after[a],
        #[trigger] after[b],
    ) by {
        let x = if a < i {
            a
        } else {
            a - 1
        };
        let y = if b < i {
            b
        } else {
            b - 1
        };
        if a != i && b != i {
            assert(after[a] == start[x] && after[b] == start[y]);
        } else if a == i {
            assert(after[b] == start[y]);
        } else {
            assert(after[a] == start[x]);
        }
    }
    assert forall|t: Seq<char>| after.contains(t) <==> #[trigger] start.contains(t) || t
        == text@ by {
        if start.contains(t) {
            let j = choose|j: int| 0 <= j < start.len() && start[j] == t;
            if j < i {
                assert(after[j] == t);
            } else {
                assert(after[j + 1] == t);
            }
        }
        if t == text@ {
            assert(after[i as int] == t);
        }
        if after.contains(t) && t != text@ {
            let j = choose|j: int| 0 <= j < after.len() && after[j] == t;
            if j < i {
                assert(start[j] == t);
            } else {
                assert(start[j - 1] == t);
            }
        }
    }
}

/// Texts put together with a separator between them.
pub open spec fn joined_by(parts: Seq<Seq<char>>, separator: Seq<char>) -> Seq<char>
    decreases parts.len(),
{
    if parts.len() == 0 {
        Seq::empty()
    } else if parts.len() == 1 {
        parts[0]
    } else {
        joined_by(parts.drop_last(), separator) + separator + parts.last()
    }
}

/// Puts texts together with a separator between them.
pub fn join(parts: &Vec<String>, separator: &str) -> (out: String)
    ensures
        out@ == joined_by(views(parts@), separator@),
{
    let ghost all = views(parts@);
    let mut out = String::new();
    let mut i: usize = 0;
    while i < parts.len()
        invariant
            i <= parts@.len(),
            all == views(parts@),
            out@ == joined_by(all.take(i as int), separator@),
        decreases parts@.len() - i,
    {
        assert(all.take(i + 1).drop_last() =~= all.take(i as int));
        assert(all.take(i + 1).last() == parts@[i as int]@);
        if i > 0 {
            out.append(separator);
        }
        out.append(parts[i].as_str());
        assert(i == 0 ==> out@ =~= parts@[0]@);
        i = i + 1;
    }
    assert(all.take(i as int) =~= all);
    out
}

/// Whether every character is a decimal digit.
pub open spec fn all_digits(s: Seq<char>) -> bool {
    forall|i: int| 0 <= i < s.len() ==> '0' <= #[trigger] s[i] <= '9'
}

/// The number that decimal digits write.
pub open spec fn digits_value(s: Seq<char>) -> nat
    decreases s.len(),
{
    if s.len() == 0 {
        0
    } else {
        digits_value(s.drop_last()) * 10 + ((s.last() as u32 - 48) as nat)
    }
}

/// The digits of a numeral that may have a plus sign.
pub open spec fn unsigned_part(s: Seq<char>) -> Seq<char> {
    if s.len() > 0 && s[0] == '+' {
        s.drop_first()
    } else {
        s
    }
}

/// The number of a numeral, where it is one and not above a limit.
pub open spec fn number_upto(s: Seq<char>, limit: nat) -> Option<nat> {
    let d = unsigned_part(s);
    if d.len() > 0 && all_digits(d) && digits_value(d) <= limit {
        Some(digits_value(d))
    } else {
        None
    }
}

proof fn digits_value_grows(s: Seq<char>, n: int)
    requires
        0 <= n <= s.len(),
    ensures
        digits_value(s.take(n)) <= digits_value(s),
    decreases s.len() - n,
{
    if n < s.len() {
        assert(s.take(n + 1).drop_last() =~= s.take(n));
        digits_value_grows(s, n + 1);
    } else {
        assert(s.take(n) =~= s);
    }
}

/// Reads a numeral that may have a plus sign and is not above a limit.
pub fn parse_upto(s: &str, limit: u64) -> (r: Option<u64>)
    ensures
        number_upto(s@, limit as nat) == (match r {
            Some(n) => Some(n as nat),
            None => None,
        }),
{
    let chars = chars_of(s);
    let from: usize = if chars.len() > 0 && chars[0] == '+' {
        1
    } else {
        0
    };
    let ghost d = unsigned_part(s@);
    assert(d =~= s@.skip(from as int));
    if from >= chars.len() {
        return None;
    }
    let mut value: u64 = 0;
    let mut i: usize = from;
    while i < chars.len()
        invariant
            from <= i <= chars@.len(),
            chars@ == s@,
            d == s@.skip(from as int),
            d == unsigned_part(s@),
            value <= limit,
            value == digits_value(d.take(i - from)),
            forall|j: int| 0 <= j < i - from ==> '0' <= #[trigger] d[j] <= '9',
        decreases chars@.len() - i,
    {
        let c = chars[i];
        assert(d[i - from] == c);
        if !('0' <= c && c <= '9') {
            return None;
        }
        let digit: u64 = (c as u32 - 48) as u64;
        proof {
            assert(d.take(i - from + 1).drop_last() =~= d.take(i - from));
            digits_value_grows(d, i - from + 1);
        }
        if value > limit / 10 || digit > limit - value * 10 {
            return None;
        }
        value = value * 10 + digit;
        i = i + 1;
    }
    assert(d.take(i - from) =~= d);
    Some(value)
}

/// The text that bytes hold, with what is no text replaced.
pub uninterp spec fn lossy_text(bytes: Seq<u8>) -> Seq<char>;

/// `String::from_utf8_lossy` reads bytes as UTF-8 and replaces what is none; bytes
/// that are UTF-8 throughout are read as they are.
#[verifier::external_body]
pub(crate) fn from_utf8_lossy(bytes: &[u8]) -> (r: String)
    ensures
        r@ == lossy_text(bytes@),
        vstd::utf8::valid_utf8(bytes@) ==> vstd::utf8::encode_utf8(r@) == bytes@,
{
    String::from_utf8_lossy(bytes).into_owned()
}

/// The first index of a character is where it first stands, or the length.
pub proof fn first_index_is(s: Seq<char>, c: char)
    ensures
        0 <= first_index(s, c) <= s.len(),
        first_index(s, c) < s.len() ==> s[first_index(s, c)] == c,
        forall|j: int| 0 <= j < first_index(s, c) ==> #[trigger] s[j] != c,
    decreases s.len(),
{
    if s.len() > 0 && s[0] != c {
        first_index_is(s.drop_first(), c);
        assert forall|j: int| 0 <= j < first_index(s, c) implies #[trigger] s[j] != c by {
            if j > 0 {
                assert(s.drop_first()[j - 1] == s[j]);
            }
        }
    }
}

proof fn trim_start_is(s: Seq<char>) -> (n: int)
    ensures
        0 <= n <= s.len(),
        trim_start(s) == s.skip(n),
        forall|j: int| 0 <= j < n ==> white(#[trigger] s[j]),
        n < s.len() ==> !white(s[n]),
    decreases s.len(),
{
    if s.len() > 0 && white(s[0]) {
        let n = trim_start_is(s.drop_first());
        assert(s.drop_first().skip(n) =~= s.skip(n + 1));
        assert forall|j: int| 0 <= j < n + 1 implies white(#[trigger] s[j]) by {
            if j > 0 {
                assert(s.drop_first()[j - 1] == s[j]);
            }
        }
        if n < s.drop_first().len() {
            assert(s.drop_first()[n] == s[n + 1]);
        }
        n + 1
    } else {
        assert(s.skip(0) =~= s);
        0
    }
}

proof fn trim_end_is(s: Seq<char>) -> (n: int)
    ensures
        0 <= n <= s.len(),
        trim_end(s) == s.take(n),
        forall|j: int| n <= j < s.len() ==> white(#[trigger] s[j]),
        n > 0 ==> !white(s[n - 1]),
    decreases s.len(),
{
    if s.len() > 0 && white(s.last()) {
        let n = trim_end_is(s.drop_last());
        assert(s.drop_last().take(n) =~= s.take(n));
        assert forall|j: int| n <= j < s.len() implies white(#[trigger] s[j]) by {
            if j < s.len() - 1 {
                assert(s.drop_last()[j] == s[j]);
            }
        }
        if n > 0 {
            assert(s.drop_last()[n - 1] == s[n - 1]);
        }
        n
    } else {
        assert(s.take(s.len() as int) =~= s);
        s.len() as int
    }
}

/// A trimmed text is the text between the white space at its ends, which is all that is
/// lost; a text is blank where it holds nothing else.
pub proof fn trimming_takes_white_ends(s: Seq<char>)
    ensures
        exists|a: int, b: int|
            {
                &&& 0 <= a <= b <= s.len()
                &&& trimmed(s) == #[trigger] s.subrange(a, b)
                &&& forall|j: int| 0 <= j < a || b <= j < s.len() ==> white(#[trigger] s[j])
                &&& a < b ==> !white(s[a]) && !white(s[b - 1])
            },
        blank(s) <==> (forall|j: int| 0 <= j < s.len() ==> white(#[trigger] s[j])),
{
    let a = trim_start_is(s);
    let t = s.skip(a);
    let n = trim_end_is(t);
    assert(t.take(n) =~= s.subrange(a, a + n));
    assert forall|j: int| 0 <= j < a || a + n <= j < s.len() implies white(#[trigger] s[j]) by {
        if j >= a {
            assert(t[j - a] == s[j]);
        }
    }
    if n > 0 {
        assert(t[n - 1] == s[a + n - 1]);
        assert(a < s.len());
    }
    if forall|j: int| 0 <= j < s.len() ==> white(#[trigger] s[j]) {
        if n > 0 {
            assert(white(s[a]));
        }
    }
    assert(s.subrange(a, a + n).len() == n);
}

/// Splitting loses nothing and leaves the separator in no piece: the pieces with the
/// separator between them are the text again.
pub proof fn pieces_make_up_the_text(s: Seq<char>, c: char)
    ensures
        pieces(s, c).len() >= 1,
        s == (if pieces(s, c).len() == 1 {
            pieces(s, c)[0]
        } else {
            pieces(s, c)[0] + seq![c] + s.skip(pieces(s, c)[0].len() as int + 1)
        }),
        pieces(s, c).len() > 1 ==> pieces(s, c).drop_first() == pieces(
            s.skip(pieces(s, c)[0].len() as int + 1),
            c,
        ),
        !pieces(s, c)[0].contains(c),
        pieces(s, c).len() == 1 <==> !s.contains(c),
{
    first_index_is(s, c);
    let i = first_index(s, c);
    if i < s.len() {
        let rest = s.skip(i + 1);
        let p = pieces(s, c);
        assert(p == seq![s.take(i)] + pieces(rest, c));
        assert(pieces(rest, c).len() >= 1) by {
            reveal_with_fuel(pieces, 2);
        }
        assert(p.drop_first() =~= pieces(rest, c));
        assert(s =~= s.take(i) + seq![c] + rest);
        assert(s.contains(c));
        assert(p[0] == s.take(i));
        assert(p[0].len() == i);
    } else {
        assert(!s.contains(c));
    }
}

/// Capitals are the only characters that change when a text is made small, and doing so
/// again changes nothing.
pub proof fn small_letters_stay(s: Seq<char>, i: int)
    requires
        0 <= i < s.len(),
    ensures
        lowered(s).len() == s.len(),
        lowered(lowered(s)) == lowered(s),
        !('A' <= s[i] <= 'Z') ==> lowered(s)[i] == s[i],
        'A' <= s[i] <= 'Z' ==> lowered(s)[i] as u32 == s[i] as u32 + 32,
{
    assert(lowered(lowered(s)) =~= lowered(s));
}

proof fn decimal_reads_back(n: nat)
    ensures
        decimal(n).len() > 0,
        all_digits(decimal(n)),
        digits_value(decimal(n)) == n,
    decreases n,
{
    if n < 10 {
        let d = decimal(n);
        assert(d.drop_last() =~= Seq::<char>::empty());
        reveal_with_fuel(digits_value, 2);
        assert(d.last() == digit_char(n as int));
    } else {
        decimal_reads_back(n / 10);
        let d = decimal(n);
        assert(d.drop_last() =~= decimal(n / 10));
        assert(d.last() == digit_char((n % 10) as int));
    }
}

/// A number that is written is read back as the same number, and refused where it is over
/// the limit.
pub proof fn written_numbers_read_back(n: nat, limit: nat)
    ensures
        number_upto(decimal(n), limit) == (if n <= limit {
            Some(n)
        } else {
            None
        }),
{
    decimal_reads_back(n);
    assert('0' <= decimal(n)[0] <= '9');
}

/// What is read as a number is made of digits alone, after a plus sign at most.
pub proof fn only_digits_are_numbers(s: Seq<char>, limit: nat)
    requires
        number_upto(s, limit) is Some,
    ensures
        number_upto(s, limit)->0 <= limit,
        s.len() > 0,
        forall|i: int| 0 <= i < s.len() ==> '0' <= #[trigger] s[i] <= '9' || (i == 0 && s[i] == '+'),
{
    assert forall|i: int| 0 <= i < s.len() implies '0' <= #[trigger] s[i] <= '9' || (i == 0 && s[i]
        == '+') by {
        let d = unsigned_part(s);
        if s[0] == '+' {
            if i > 0 {
                assert(d[i - 1] == s[i]);
            }
        } else {
            assert(d[i] == s[i]);
        }
    }
}

} // verus!
