//! Text building blocks: prefixes, suffixes, separators, decimal numbers and
//! the order of names, all stated over sequences of characters.

use vstd::prelude::*;


verus! {

/// `String::push` of the standard library: appends one character.
pub assume_specification[ String::push ](s: &mut String, c: char)
    ensures
        final(s)@ == old(s)@.push(c),
;

/// The characters of `s`, in order.
pub fn chars_of(s: &str) -> (chars: Vec<char>)
    ensures
        chars@ == s@,
{
    let mut chars: Vec<char> = Vec::new();
    for c in it: s.chars()
        invariant
            it.seq() == s@,
            chars@ == s@.take(it.index() as int),
    {
        chars.push(c);
    }
    assert(s@.take(s@.len() as int) == s@);
    chars
}

/// The text made of the characters of `chars` from `from` (inclusive) to `to`
/// (exclusive).
pub fn text_of(chars: &Vec<char>, from: usize, to: usize) -> (text: String)
    requires
        from <= to <= chars@.len(),
    ensures
        text@ == chars@.subrange(from as int, to as int),
{
    let mut text = String::new();
    let mut i: usize = from;
    while i < to
        invariant
            from <= i <= to <= chars@.len(),
            text@ == chars@.subrange(from as int, i as int),
        decreases to - i,
    {
        text.push(chars[i]);
        i = i + 1;
        assert(chars@.subrange(from as int, i as int) == chars@.subrange(
            from as int,
            i - 1,
        ).push(chars@[i - 1]));
    }
    text
}

/// Whether two texts hold the same characters.
pub fn same_text(a: &str, b: &str) -> (same: bool)
    ensures
        same == (a@ == b@),
{
    let x = chars_of(a);
    let y = chars_of(b);
    if x.len() != y.len() {
        return false;
    }
    let mut i: usize = 0;
    while i < x.len()
        invariant
            i <= x@.len(),
            x@.len() == y@.len(),
            x@ == a@,
            y@ == b@,
            forall|j: int| 0 <= j < i ==> x@[j] == y@[j],
        decreases x@.len() - i,
    {
        if x[i] != y[i] {
            return false;
        }
        i = i + 1;
    }
    assert(x@ == y@);
    true
}

/// What follows `prefix` in `text`, when `text` starts with it.
pub open spec fn after_prefix(text: Seq<char>, prefix: Seq<char>) -> Option<Seq<char>> {
    if prefix.is_prefix_of(text) {
        Some(text.skip(prefix.len() as int))
    } else {
        None
    }
}

/// What stands before `suffix` in `text`, when `text` ends with it.
pub open spec fn before_suffix(text: Seq<char>, suffix: Seq<char>) -> Option<Seq<char>> {
    if suffix.is_suffix_of(text) {
        Some(text.take(text.len() - suffix.len()))
    } else {
        None
    }
}

/// The view of an optional text.
pub open spec fn opt_text(text: Option<String>) -> Option<Seq<char>> {
    match text {
        Some(t) => Some(t@),
        None => None,
    }
}

/// The view of an optional text slice.
pub open spec fn opt_str(text: Option<&str>) -> Option<Seq<char>> {
    match text {
        Some(t) => Some(t@),
        None => None,
    }
}

/// The views of a list of texts.
pub open spec fn texts(list: Seq<String>) -> Seq<Seq<char>> {
    list.map_values(|t: String| t@)
}

/// Takes `prefix` off the front of `text`.
pub fn strip_prefix(text: &str, prefix: &str) -> (rest: Option<String>)
    ensures
        opt_text(rest) == after_prefix(text@, prefix@),
{
    let t = chars_of(text);
    let p = chars_of(prefix);
    if p.len() > t.len() {
        return None;
    }
    let mut i: usize = 0;
    while i < p.len()
        invariant
            i <= p@.len() <= t@.len(),
            t@ == text@,
            p@ == prefix@,
            forall|j: int| 0 <= j < i ==> t@[j] == p@[j],
        decreases p@.len() - i,
    {
        if t[i] != p[i] {
            return None;
        }
        i = i + 1;
    }
    assert(p@ == t@.take(p@.len() as int));
    assert(t@.subrange(p@.len() as int, t@.len() as int) == t@.skip(p@.len() as int));
    Some(text_of(&t, p.len(), t.len()))
}

/// Takes `suffix` off the end of `text`.
pub fn strip_suffix(text: &str, suffix: &str) -> (rest: Option<String>)
    ensures
        opt_text(rest) == before_suffix(text@, suffix@),
{
    let t = chars_of(text);
    let s = chars_of(suffix);
    if s.len() > t.len() {
        return None;
    }
    let start: usize = t.len() - s.len();
    let mut i: usize = 0;
    while i < s.len()
        invariant
            i <= s@.len() <= t@.len(),
            start == t@.len() - s@.len(),
            t@.len() <= usize::MAX,
            t@ == text@,
            s@ == suffix@,
            forall|j: int| 0 <= j < i ==> t@[start + j] == s@[j],
        decreases s@.len() - i,
    {
        if t[start + i] != s[i] {
            return None;
        }
        i = i + 1;
    }
    assert(s@ == t@.skip(start as int));
    assert(t@.subrange(0, start as int) == t@.take(start as int));
    Some(text_of(&t, 0, start))
}

/// What stands before the last occurrence of `separator` in `text`.
pub open spec fn before_last(text: Seq<char>, separator: char) -> Option<Seq<char>>
    decreases text.len(),
{
    if text.len() == 0 {
        None
    } else if text.last() == separator {
        Some(text.drop_last())
    } else {
        before_last(text.drop_last(), separator)
    }
}

/// `before_last` splits at a separator after which there is none: exactly when
/// the text holds the separator, it is head, separator and a tail without one.
pub proof fn before_last_splits(text: Seq<char>, separator: char)
    ensures
        before_last(text, separator) is Some <==> text.contains(separator),
        before_last(text, separator) matches Some(head) ==> {
            &&& head.len() < text.len()
            &&& text == head.push(separator) + text.skip(head.len() + 1int)
            &&& !text.skip(head.len() + 1int).contains(separator)
        },
    decreases text.len(),
{
    if text.len() != 0 {
        let front = text.drop_last();
        if text.last() == separator {
            assert(text[text.len() - 1] == separator);
            assert(text == front.push(separator) + text.skip(front.len() + 1int));
        } else {
            before_last_splits(front, separator);
            if front.contains(separator) {
                let i = choose|i: int| 0 <= i < front.len() && front[i] == separator;
                assert(text[i] == separator);
            }
            if text.contains(separator) {
                let i = choose|i: int| 0 <= i < text.len() && text[i] == separator;
                assert(front[i] == separator);
            }
            if let Some(head) = before_last(text, separator) {
                let tail = text.skip(head.len() + 1int);
                assert(tail.drop_last() == front.skip(head.len() + 1int));
                let split = head.push(separator) + front.skip(head.len() + 1int);
                assert(front == split);
                assert forall|i: int| 0 <= i < text.len() implies text[i] == (head.push(separator)
                    + tail)[i] by {
                    if i < front.len() {
                        assert(front[i] == split[i]);
                    }
                }
                assert(text == head.push(separator) + tail);
                if tail.contains(separator) {
                    let i = choose|i: int| 0 <= i < tail.len() && tail[i] == separator;
                    assert(front.skip(head.len() + 1int)[i] == separator);
                }
            }
        }
    }
}

/// Of a head, a separator and a tail without one, `before_last` gives the head.
pub proof fn before_last_of_parts(head: Seq<char>, separator: char, tail: Seq<char>)
    requires
        !tail.contains(separator),
    ensures
        before_last(head.push(separator) + tail, separator) == Some(head),
    decreases tail.len(),
{
    let text = head.push(separator) + tail;
    if tail.len() == 0 {
        assert(text.drop_last() == head);
    } else {
        let shorter = tail.drop_last();
        assert(tail.contains(tail.last()));
        assert forall|c: char| shorter.contains(c) implies tail.contains(c) by {
            let i = choose|i: int| 0 <= i < shorter.len() && shorter[i] == c;
            assert(tail[i] == c);
        }
        before_last_of_parts(head, separator, shorter);
        assert(text.drop_last() == head.push(separator) + shorter);
    }
}

/// The part of `text` before the last `separator`, if there is one.
pub fn text_before_last(text: &str, separator: char) -> (head: Option<String>)
    ensures
        opt_text(head) == before_last(text@, separator),
{
    let t = chars_of(text);
    let mut end: usize = t.len();
    assert(t@.take(end as int) == text@);
    while end > 0
        invariant
            end <= t@.len(),
            t@ == text@,
            before_last(text@, separator) == before_last(t@.take(end as int), separator),
        decreases end,
    {
        let ghost front = t@.take(end as int);
        assert(front.drop_last() == t@.take(end - 1));
        if t[end - 1] == separator {
            assert(t@.subrange(0, end - 1) == front.drop_last());
            return Some(text_of(&t, 0, end - 1));
        }
        end = end - 1;
    }
    None
}

/// The decimal digit of a number below ten.
pub open spec fn digit(d: int) -> char {
    (48 + d) as char
}

/// A natural number in decimal, without leading zeros.
pub open spec fn decimal(n: nat) -> Seq<char>
    decreases n,
{
    if n < 10 {
        seq![digit(n as int)]
    } else {
        decimal(n / 10).push(digit((n % 10) as int))
    }
}

/// An integer in decimal, with a minus sign when it is negative.
pub open spec fn signed_decimal(n: int) -> Seq<char> {
    if n < 0 {
        seq!['-'] + decimal((-n) as nat)
    } else {
        decimal(n as nat)
    }
}

/// Writes `n` in decimal.
pub fn decimal_text(n: u64) -> (text: String)
    ensures
        text@ == decimal(n as nat),
    decreases n,
{
    let last: char = (48u8 + (n % 10) as u8) as char;
    if n < 10 {
        let mut text = String::new();
        text.push(last);
        assert(text@ == seq![digit(n as int)]);
        text
    } else {
        let mut text = decimal_text(n / 10);
        text.push(last);
        text
    }
}

/// Writes `n` in decimal, with a minus sign when it is negative.
pub fn signed_decimal_text(n: i32) -> (text: String)
    ensures
        text@ == signed_decimal(n as int),
{
    if n < 0 {
        let mut text = String::new();
        text.push('-');
        text.append(decimal_text((-(n as i64)) as u64).as_str());
        text
    } else {
        decimal_text(n as u64)
    }
}

/// The texts of `list` with `separator` between each two.
pub open spec fn joined(list: Seq<Seq<char>>, separator: Seq<char>) -> Seq<char>
    decreases list.len(),
{
    if list.len() == 0 {
        Seq::empty()
    } else if list.len() == 1 {
        list[0]
    } else {
        joined(list.drop_last(), separator) + separator + list.last()
    }
}

/// Joins the texts of `list` with `separator` between each two.
pub fn join(list: &Vec<String>, separator: &str) -> (text: String)
    ensures
        text@ == joined(texts(list@), separator@),
{
    let mut text = String::new();
    let mut i: usize = 0;
    while i < list.len()
        invariant
            i <= list@.len(),
            text@ == joined(texts(list@).take(i as int), separator@),
        decreases list@.len() - i,
    {
        if i > 0 {
            text.append(separator);
        }
        text.append(list[i].as_str());
        let ghost front = texts(list@).take(i as int);
        let ghost next = texts(list@).take(i + 1);
        assert(next.drop_last() == front);
        i = i + 1;
        if i == 1 {
            assert(text@ == next[0]);
        }
    }
    assert(texts(list@).take(list@.len() as int) == texts(list@));
    text
}

/// Dictionary order of texts by the code points of their characters, in which
/// a text stands before its extensions.
pub open spec fn text_le(a: Seq<char>, b: Seq<char>) -> bool
    decreases a.len(),
{
    if a.len() == 0 {
        true
    } else if b.len() == 0 {
        false
    } else {
        a[0] < b[0] || (a[0] == b[0] && text_le(a.skip(1), b.skip(1)))
    }
}

/// Of two texts, one stands at or before the other.
pub proof fn text_le_total(a: Seq<char>, b: Seq<char>)
    ensures
        text_le(a, b) || text_le(b, a),
    decreases a.len(),
{
    if a.len() > 0 && b.len() > 0 {
        text_le_total(a.skip(1), b.skip(1));
    }
}

/// The order of texts is transitive.
pub proof fn text_le_transitive(a: Seq<char>, b: Seq<char>, c: Seq<char>)
    requires
        text_le(a, b),
        text_le(b, c),
    ensures
        text_le(a, c),
    decreases a.len(),
{
    if a.len() > 0 && b.len() > 0 && c.len() > 0 && a[0] == b[0] && b[0] == c[0] {
        text_le_transitive(a.skip(1), b.skip(1), c.skip(1));
    }
}

/// Two texts that stand at or before each other are the same.
pub proof fn text_le_antisymmetric(a: Seq<char>, b: Seq<char>)
    requires
        text_le(a, b),
        text_le(b, a),
    ensures
        a == b,
    decreases a.len(),
{
    if a.len() > 0 && b.len() > 0 {
        text_le_antisymmetric(a.skip(1), b.skip(1));
        assert(a == seq![a[0]] + a.skip(1));
        assert(b == seq![b[0]] + b.skip(1));
    } else {
        assert(a == b);
    }
}

/// Whether `a` stands at or before `b`.
pub fn at_or_before(a: &str, b: &str) -> (le: bool)
    ensures
        le == text_le(a@, b@),
{
    let x = chars_of(a);
    let y = chars_of(b);
    let mut i: usize = 0;
    assert(a@.skip(0) == a@);
    assert(b@.skip(0) == b@);
    while i < x.len() && i < y.len()
        invariant
            i <= x@.len(),
            i <= y@.len(),
            x@ == a@,
            y@ == b@,
            text_le(a@, b@) == text_le(a@.skip(i as int), b@.skip(i as int)),
        decreases x@.len() - i,
    {
        assert(a@.skip(i as int).skip(1) == a@.skip(i + 1));
        assert(b@.skip(i as int).skip(1) == b@.skip(i + 1));
        if x[i] != y[i] {
            return x[i] < y[i];
        }
        i = i + 1;
    }
    i == x.len()
}

/// `context`, then what caused it.
pub open spec fn caused_by(context: Seq<char>, cause: Seq<char>) -> Seq<char> {
    context + ": "@ + cause
}

/// `context`, then what caused it.
pub fn with_cause(context: &str, cause: &str) -> (text: String)
    ensures
        text@ == caused_by(context@, cause@),
{
    let mut text = context.to_owned();
    text.append(": ");
    text.append(cause);
    text
}

/// One text after the other.
pub fn chain(first: &str, second: &str) -> (text: String)
    ensures
        text@ == first@ + second@,
{
    let mut text = first.to_owned();
    text.append(second);
    text
}

/// Whether a character is white space (the Unicode property `White_Space`).
pub open spec fn is_white_space(c: char) -> bool {
    let n = c as u32;
    9 <= n <= 13 || n == 0x20 || n == 0x85 || n == 0xA0 || n == 0x1680 || 0x2000 <= n <= 0x200A || n
        == 0x2028 || n == 0x2029 || n == 0x202F || n == 0x205F || n == 0x3000
}

/// A text without the white space that it starts with.
pub open spec fn trimmed_start(text: Seq<char>) -> Seq<char>
    decreases text.len(),
{
    if text.len() > 0 && is_white_space(text[0]) {
        trimmed_start(text.skip(1))
    } else {
        text
    }
}

/// A text without the white space that it ends with.
pub open spec fn trimmed_end(text: Seq<char>) -> Seq<char>
    decreases text.len(),
{
    if text.len() > 0 && is_white_space(text.last()) {
        trimmed_end(text.drop_last())
    } else {
        text
    }
}

/// A text without the white space around it.
pub open spec fn trimmed(text: Seq<char>) -> Seq<char> {
    trimmed_end(trimmed_start(text))
}

fn white_space(c: char) -> (white: bool)
    ensures
        white == is_white_space(c),
{
    let n: u32 = c as u32;
    (9 <= n && n <= 13) || n == 0x20 || n == 0x85 || n == 0xA0 || n == 0x1680 || (0x2000 <= n && n
        <= 0x200A) || n == 0x2028 || n == 0x2029 || n == 0x202F || n == 0x205F || n == 0x3000
}

/// A text without the white space around it.
pub fn trim(text: &str) -> (rest: String)
    ensures
        rest@ == trimmed(text@),
{
    let chars = chars_of(text);
    let mut from: usize = 0;
    assert(text@.skip(0) == text@);
    while from < chars.len() && white_space(chars[from])
        invariant
            from <= chars@.len(),
            chars@ == text@,
            trimmed_start(text@.skip(from as int)) == trimmed_start(text@),
        decreases chars@.len() - from,
    {
        assert(text@.skip(from as int).skip(1) == text@.skip(from + 1));
        from = from + 1;
    }
    let ghost rest = text@.skip(from as int);
    let mut to: usize = chars.len();
    assert(text@.subrange(from as int, to as int) == rest);
    while to > from && white_space(chars[to - 1])
        invariant
            from <= to <= chars@.len(),
            chars@ == text@,
            trimmed_end(text@.subrange(from as int, to as int)) == trimmed_end(rest),
        decreases to,
    {
        assert(text@.subrange(from as int, to as int).drop_last() == text@.subrange(
            from as int,
            to - 1,
        ));
        to = to - 1;
    }
    text_of(&chars, from, to)
}

/// What follows a prefix is what has to be put behind it to get the text again, and there
/// is such a rest exactly when the text starts with the prefix.
pub proof fn prefixes_are_taken_off(text: Seq<char>, prefix: Seq<char>, rest: Seq<char>)
    ensures
        after_prefix(text, prefix) == Some(rest) <==> text == prefix + rest,
        after_prefix(prefix + rest, prefix) == Some(rest),
{
    let made = prefix + rest;
    assert(made.take(prefix.len() as int) == prefix);
    assert(made.skip(prefix.len() as int) == rest);
    if prefix.is_prefix_of(text) {
        assert(text == prefix + text.skip(prefix.len() as int));
    }
}

/// What stands before a suffix is what has to be put before it to get the text again, and
/// there is such a head exactly when the text ends with the suffix.
pub proof fn suffixes_are_taken_off(text: Seq<char>, suffix: Seq<char>, head: Seq<char>)
    ensures
        before_suffix(text, suffix) == Some(head) <==> text == head + suffix,
        before_suffix(head + suffix, suffix) == Some(head),
{
    let made = head + suffix;
    assert(made.take(head.len() as int) == head);
    assert(made.skip(head.len() as int) == suffix);
    if suffix.is_suffix_of(text) {
        let at = text.len() - suffix.len();
        assert(text == text.take(at) + suffix);
    }
}

/// The digits are "0" to "9".
pub proof fn digits_are_the_usual(d: int)
    requires
        0 <= d < 10,
    ensures
        digit(d) == "0123456789"@[d],
{
    reveal_strlit("0123456789");
}

/// A number has no leading zero, one more digit is ten times as much and that digit more,
/// and a number below ten has one digit.
pub proof fn numbers_are_written_in_tens(n: nat, d: int)
    requires
        0 <= d < 10,
    ensures
        decimal(n).len() > 0,
        n > 0 ==> decimal(n)[0] != '0',
        n > 0 ==> decimal((n * 10 + d) as nat) == decimal(n).push("0123456789"@[d]),
        decimal(d as nat) == seq!["0123456789"@[d]],
    decreases n,
{
    digits_are_the_usual(d);
    if n >= 10 {
        numbers_are_written_in_tens(n / 10, 0);
        assert(decimal(n)[0] == decimal(n / 10)[0]);
    }
    if n > 0 {
        let longer = (n * 10 + d) as nat;
        assert(longer / 10 == n && longer % 10 == d);
    }
}

/// A number below zero is written as the number without its sign behind a minus sign, and
/// any other as it is.
pub proof fn signs_are_written(n: nat)
    ensures
        n > 0 ==> signed_decimal(-(n as int)) == seq!['-'] + decimal(n),
        signed_decimal(n as int) == decimal(n),
{
}

/// Lists that are joined one behind the other are joined with one separator more, a list
/// of one text is that text, and an empty list is nothing.
pub proof fn joined_lists_are_joined(
    first: Seq<Seq<char>>,
    second: Seq<Seq<char>>,
    only: Seq<char>,
    separator: Seq<char>,
)
    requires
        first.len() > 0,
        second.len() > 0,
    ensures
        joined(first + second, separator) == joined(first, separator) + separator + joined(
            second,
            separator,
        ),
        joined(seq![only], separator) == only,
        joined(Seq::<Seq<char>>::empty(), separator) == Seq::<char>::empty(),
    decreases second.len(),
{
    let all = first + second;
    assert(all.last() == second.last());
    if second.len() == 1 {
        assert(all.drop_last() == first);
        assert(second[0] == second.last());
    } else {
        joined_lists_are_joined(first, second.drop_last(), only, separator);
        assert(all.drop_last() == first + second.drop_last());
        let head = joined(first, separator);
        let rest = joined(second.drop_last(), separator);
        assert((head + separator + rest) + separator + second.last() == head + separator + (rest
            + separator + second.last()));
    }
}

/// Of two texts the one with the smaller character where they first differ comes first,
/// whatever follows, and a text comes before its extensions.
pub proof fn the_first_difference_decides(
    common: Seq<char>,
    smaller: char,
    greater: char,
    rest: Seq<char>,
    other: Seq<char>,
)
    requires
        smaller < greater,
    ensures
        text_le(common.push(smaller) + rest, common.push(greater) + other),
        !text_le(common.push(greater) + other, common.push(smaller) + rest),
        text_le(common, common + rest),
        rest.len() > 0 ==> !text_le(common + rest, common),
    decreases common.len(),
{
    let first = common.push(smaller) + rest;
    let second = common.push(greater) + other;
    let longer = common + rest;
    if common.len() > 0 {
        let tail = common.skip(1);
        the_first_difference_decides(tail, smaller, greater, rest, other);
        assert(first.skip(1) == tail.push(smaller) + rest);
        assert(second.skip(1) == tail.push(greater) + other);
        assert(longer.skip(1) == tail + rest);
        assert(first[0] == common[0] && second[0] == common[0] && longer[0] == common[0]);
    }
}

/// A context and its cause are told in full, one behind the other, with a colon and a
/// space between them.
pub proof fn causes_are_told(context: Seq<char>, cause: Seq<char>)
    ensures
        caused_by(context, cause).len() == context.len() + 2 + cause.len(),
        caused_by(context, cause).take(context.len() as int) == context,
        caused_by(context, cause)[context.len() as int] == ':',
        caused_by(context, cause)[context.len() + 1int] == ' ',
        caused_by(context, cause).skip(context.len() + 2int) == cause,
{
    reveal_strlit(": ");
}

/// White space is these characters.
pub proof fn white_space_is_the_usual(c: char)
    ensures
        is_white_space(c) <==> seq![
            '\t',
            '\n',
            '\u{b}',
            '\u{c}',
            '\r',
            ' ',
            '\u{85}',
            '\u{a0}',
            '\u{1680}',
            '\u{2000}',
            '\u{2001}',
            '\u{2002}',
            '\u{2003}',
            '\u{2004}',
            '\u{2005}',
            '\u{2006}',
            '\u{2007}',
            '\u{2008}',
            '\u{2009}',
            '\u{200a}',
            '\u{2028}',
            '\u{2029}',
            '\u{202f}',
            '\u{205f}',
            '\u{3000}',
        ].contains(c),
{
    let all = seq![
        '\t',
        '\n',
        '\u{b}',
        '\u{c}',
        '\r',
        ' ',
        '\u{85}',
        '\u{a0}',
        '\u{1680}',
        '\u{2000}',
        '\u{2001}',
        '\u{2002}',
        '\u{2003}',
        '\u{2004}',
        '\u{2005}',
        '\u{2006}',
        '\u{2007}',
        '\u{2008}',
        '\u{2009}',
        '\u{200a}',
        '\u{2028}',
        '\u{2029}',
        '\u{202f}',
        '\u{205f}',
        '\u{3000}',
    ];
    if is_white_space(c) {
        let n = c as u32;
        let at: int = if n <= 13 {
            n - 9
        } else if n == 0x20 {
            5
        } else if n == 0x85 {
            6
        } else if n == 0xA0 {
            7
        } else if n == 0x1680 {
            8
        } else if n <= 0x200A {
            n - 0x2000 + 9
        } else if n == 0x2028 {
            20
        } else if n == 0x2029 {
            21
        } else if n == 0x202F {
            22
        } else if n == 0x205F {
            23
        } else {
            24
        };
        assert(all[at] == c);
    }
}

proof fn start_is_trimmed(text: Seq<char>) -> (from: int)
    ensures
        0 <= from <= text.len(),
        trimmed_start(text) == text.skip(from),
        forall|i: int| 0 <= i < from ==> is_white_space(#[trigger] text[i]),
        from < text.len() ==> !is_white_space(text[from]),
    decreases text.len(),
{
    if text.len() > 0 && is_white_space(text[0]) {
        let rest = text.skip(1);
        let from = start_is_trimmed(rest);
        assert(rest.skip(from) == text.skip(from + 1));
        assert forall|i: int| 0 <= i < from + 1 implies is_white_space(#[trigger] text[i]) by {
            if i > 0 {
                assert(rest[i - 1] == text[i]);
            }
        }
        from + 1
    } else {
        assert(text.skip(0) == text);
        0
    }
}

proof fn end_is_trimmed(text: Seq<char>) -> (to: int)
    ensures
        0 <= to <= text.len(),
        trimmed_end(text) == text.take(to),
        forall|i: int| to <= i < text.len() ==> is_white_space(#[trigger] text[i]),
        to > 0 ==> !is_white_space(text[to - 1]),
    decreases text.len(),
{
    if text.len() > 0 && is_white_space(text.last()) {
        let rest = text.drop_last();
        let to = end_is_trimmed(rest);
        assert(rest.take(to) == text.take(to));
        assert forall|i: int| to <= i < text.len() implies is_white_space(#[trigger] text[i]) by {
            if i < rest.len() {
                assert(rest[i] == text[i]);
            }
        }
        to
    } else {
        assert(text.take(text.len() as int) == text);
        text.len() as int
    }
}

/// Trimming takes white space off both ends of a text and nothing else: what is left is
/// the text between two places, before and behind which there is only white space, and it
/// neither starts nor ends with any.
pub proof fn only_outer_white_space_is_trimmed(text: Seq<char>) -> (ends: (int, int))
    ensures
        0 <= ends.0 <= ends.1 <= text.len(),
        trimmed(text) == text.subrange(ends.0, ends.1),
        forall|i: int| 0 <= i < ends.0 ==> is_white_space(#[trigger] text[i]),
        forall|i: int| ends.1 <= i < text.len() ==> is_white_space(#[trigger] text[i]),
        trimmed(text).len() > 0 ==> !is_white_space(trimmed(text)[0]) && !is_white_space(
            trimmed(text).last(),
        ),
{
    let from = start_is_trimmed(text);
    let rest = text.skip(from);
    let to = end_is_trimmed(rest);
    assert(rest.take(to) == text.subrange(from, from + to));
    assert forall|i: int| from + to <= i < text.len() implies is_white_space(
        #[trigger] text[i],
    ) by {
        assert(rest[i - from] == text[i]);
    }
    (from, from + to)
}

/// A text that neither starts nor ends with white space is what is left of it between any
/// white space.
pub proof fn trimming_finds_the_text(before: Seq<char>, text: Seq<char>, behind: Seq<char>)
    requires
        forall|i: int| 0 <= i < before.len() ==> is_white_space(#[trigger] before[i]),
        forall|i: int| 0 <= i < behind.len() ==> is_white_space(#[trigger] behind[i]),
        text.len() > 0,
        !is_white_space(text[0]),
        !is_white_space(text.last()),
    ensures
        trimmed(before + text + behind) == text,
{
    let all = before + text + behind;
    let (from, to) = only_outer_white_space_is_trimmed(all);
    let start = before.len() as int;
    let end = start + text.len();
    assert(all[start] == text[0]);
    assert(all[end - 1] == text.last());
    assert forall|i: int| 0 <= i < all.len() && (i < start || i >= end) implies is_white_space(
        #[trigger] all[i],
    ) by {
        if i < start {
            assert(all[i] == before[i]);
        } else {
            assert(all[i] == behind[i - end]);
        }
    }
    assert(from <= start && end <= to);
    let left = trimmed(all);
    assert(left[0] == all[from]);
    assert(left.last() == all[to - 1]);
    assert(all.subrange(start, end) == text);
}

/// An optional text is there exactly when its view is, with the same characters, and a
/// list of texts has a view for each of them, in order.
pub proof fn views_keep_every_text(text: String, given: &str, list: Seq<String>, at: int)
    requires
        0 <= at < list.len(),
    ensures
        opt_text(Some(text)) == Some(text@),
        opt_text(None) is None,
        opt_str(Some(given)) == Some(given@),
        opt_str(None) is None,
        texts(list).len() == list.len(),
        texts(list)[at] == list[at]@,
{
}

} // verus!
