//! Varlink interface names, the only names a socket may have.

use crate::text::{before_last, before_last_splits, chars_of, joined};
use vstd::prelude::*;

verus! {

/// An ASCII letter.
pub open spec fn is_letter(c: char) -> bool {
    ('a' <= c && c <= 'z') || ('A' <= c && c <= 'Z')
}

/// An ASCII letter or digit.
pub open spec fn is_alphanumeric(c: char) -> bool {
    is_letter(c) || ('0' <= c && c <= '9')
}

/// An interface name, after `interface_name` in the varlink interface
/// definition: labels of letters, digits and inner hyphens, at least two of
/// them, joined by dots, the first of which starts with a letter.
///
/// Said of the whole text: it starts with a letter and ends with a letter or
/// digit, it holds a dot, and each dot stands between two letters or digits.
pub open spec fn is_interface_name(name: Seq<char>) -> bool {
    &&& name.len() > 0
    &&& is_letter(name[0])
    &&& is_alphanumeric(name.last())
    &&& name.contains('.')
    &&& forall|i: int|
        0 <= i < name.len() ==> is_alphanumeric(#[trigger] name[i]) || name[i] == '-' || name[i]
            == '.'
    &&& forall|i: int|
        0 < i < name.len() - 1 && #[trigger] name[i] == '.' ==> is_alphanumeric(name[i - 1])
            && is_alphanumeric(name[i + 1])
}

fn alphanumeric(c: char) -> (yes: bool)
    ensures
        yes == is_alphanumeric(c),
{
    ('a' <= c && c <= 'z') || ('A' <= c && c <= 'Z') || ('0' <= c && c <= '9')
}

/// Whether `name` is a varlink interface name.
pub fn varlink_interface_name_is_valid(name: &str) -> (valid: bool)
    ensures
        valid == is_interface_name(name@),
{
    let chars = chars_of(name);
    let n: usize = chars.len();
    if n == 0 || !alphanumeric(chars[0]) || ('0' <= chars[0] && chars[0] <= '9') || !alphanumeric(
        chars[n - 1],
    ) {
        return false;
    }
    let mut dotted = false;
    let mut i: usize = 0;
    while i < n
        invariant
            i <= n,
            n == chars@.len(),
            n > 0,
            chars@ == name@,
            is_letter(chars@[0]),
            is_alphanumeric(chars@[n - 1]),
            dotted == exists|j: int| 0 <= j < i && chars@[j] == '.',
            forall|j: int|
                0 <= j < i ==> is_alphanumeric(#[trigger] chars@[j]) || chars@[j] == '-'
                    || chars@[j] == '.',
            forall|j: int|
                0 < j < i && #[trigger] chars@[j] == '.' ==> is_alphanumeric(chars@[j - 1])
                    && is_alphanumeric(chars@[j + 1]),
        decreases n - i,
    {
        let c: char = chars[i];
        if c == '.' {
            // Neither end is a dot, so both neighbours exist.
            if !alphanumeric(chars[i - 1]) || !alphanumeric(chars[i + 1]) {
                assert(name@[i as int] == '.');
                return false;
            }
            assert(chars@[i as int] == '.');
            dotted = true;
        } else if !alphanumeric(c) && c != '-' {
            assert(name@[i as int] == c);
            return false;
        }
        i = i + 1;
    }
    assert(dotted == name@.contains('.'));
    dotted
}

/// One label of an interface name: letters, digits and hyphens, with a letter
/// or digit at both ends.
pub open spec fn is_label(label: Seq<char>) -> bool {
    &&& label.len() > 0
    &&& is_alphanumeric(label[0])
    &&& is_alphanumeric(label.last())
    &&& forall|i: int|
        0 <= i < label.len() ==> is_alphanumeric(#[trigger] label[i]) || label[i] == '-'
}

/// An interface name names an entry of one directory and nothing else: it holds
/// no path separator and no NUL, it is neither `.` nor `..`, and no two dots in
/// it stand next to each other.
pub proof fn interface_names_stay_in_their_directory(name: Seq<char>)
    requires
        is_interface_name(name),
    ensures
        !name.contains('/'),
        !name.contains('\0'),
        name != seq!['.'],
        name != seq!['.', '.'],
        forall|i: int| 0 <= i < name.len() - 1 ==> !(#[trigger] name[i] == '.' && name[i + 1] == '.'),
{
    assert forall|i: int| 0 <= i < name.len() - 1 implies !(#[trigger] name[i] == '.' && name[i + 1]
        == '.') by {
        if i > 0 && name[i] == '.' {
            assert(is_alphanumeric(name[i + 1]));
        }
    }
}

/// Putting a dot and a label behind an interface name gives an interface name.
pub proof fn interface_name_takes_label(name: Seq<char>, label: Seq<char>)
    requires
        is_interface_name(name),
        is_label(label),
    ensures
        is_interface_name(name.push('.') + label),
{
    let longer = name.push('.') + label;
    let n = name.len() as int;
    assert(longer[n] == '.');
    assert(longer.last() == label.last());
    assert forall|i: int| 0 <= i < longer.len() implies is_alphanumeric(#[trigger] longer[i])
        || longer[i] == '-' || longer[i] == '.' by {
        if i < n {
            assert(longer[i] == name[i]);
        } else if i > n {
            assert(longer[i] == label[i - n - 1]);
        }
    }
    assert forall|i: int| 0 < i < longer.len() - 1 && #[trigger] longer[i] == '.' implies
        is_alphanumeric(longer[i - 1]) && is_alphanumeric(longer[i + 1]) by {
        if i < n {
            assert(longer[i] == name[i]);
            assert(i != n - 1);
            assert(longer[i - 1] == name[i - 1] && longer[i + 1] == name[i + 1]);
        } else if i == n {
            assert(longer[i - 1] == name.last());
            assert(longer[i + 1] == label[0]);
        } else {
            assert(longer[i] == label[i - n - 1]);
        }
    }
}

/// A label that starts with a letter, a dot and a label make an interface name.
proof fn two_labels_are_an_interface_name(first: Seq<char>, second: Seq<char>)
    requires
        is_label(first),
        is_letter(first[0]),
        is_label(second),
    ensures
        is_interface_name(first.push('.') + second),
{
    let name = first.push('.') + second;
    let n = first.len() as int;
    assert(name[n] == '.');
    assert(name.last() == second.last());
    assert forall|i: int| 0 <= i < name.len() implies is_alphanumeric(#[trigger] name[i])
        || name[i] == '-' || name[i] == '.' by {
        if i < n {
            assert(name[i] == first[i]);
        } else if i > n {
            assert(name[i] == second[i - n - 1]);
        }
    }
    assert forall|i: int| 0 < i < name.len() - 1 && #[trigger] name[i] == '.' implies
        is_alphanumeric(name[i - 1]) && is_alphanumeric(name[i + 1]) by {
        if i < n {
            assert(name[i] == first[i]);
        } else if i == n {
            assert(name[i - 1] == first.last());
            assert(name[i + 1] == second[0]);
        } else {
            assert(name[i] == second[i - n - 1]);
        }
    }
}

/// What the last dot of an interface name separates: a label behind it, and
/// before it either an interface name or a single label that starts with a
/// letter.
pub proof fn interface_name_splits_at_last_dot(name: Seq<char>)
    requires
        is_interface_name(name),
    ensures
        before_last(name, '.') matches Some(head) && {
            &&& name == head.push('.') + name.skip(head.len() + 1int)
            &&& is_label(name.skip(head.len() + 1int))
            &&& if head.contains('.') {
                is_interface_name(head)
            } else {
                is_label(head) && is_letter(head[0])
            }
        },
{
    before_last_splits(name, '.');
    let head = before_last(name, '.').unwrap();
    let tail = name.skip(head.len() + 1int);
    let n = head.len() as int;
    assert(name == head.push('.') + tail);
    assert(name[n] == '.');
    assert(0 < n < name.len() - 1);
    assert(tail[0] == name[n + 1]);
    assert(tail.last() == name.last());
    assert forall|i: int| 0 <= i < tail.len() implies is_alphanumeric(#[trigger] tail[i]) || tail[i]
        == '-' by {
        assert(tail[i] == name[n + 1 + i]);
        assert(tail.contains(tail[i]));
    }
    assert(head.last() == name[n - 1]);
    assert(head[0] == name[0]);
    assert forall|i: int| 0 <= i < head.len() implies is_alphanumeric(#[trigger] head[i]) || head[i]
        == '-' || head[i] == '.' by {
        assert(head[i] == name[i]);
    }
    if head.contains('.') {
        assert forall|i: int| 0 < i < head.len() - 1 && #[trigger] head[i] == '.' implies
            is_alphanumeric(head[i - 1]) && is_alphanumeric(head[i + 1]) by {
            assert(head[i] == name[i]);
            assert(head[i - 1] == name[i - 1] && head[i + 1] == name[i + 1]);
        }
    } else {
        assert forall|i: int| 0 <= i < head.len() implies is_alphanumeric(#[trigger] head[i])
            || head[i] == '-' by {
            assert(head.contains(head[i]));
        }
    }
}

/// Two or more labels, the first of which starts with a letter.
pub open spec fn are_name_labels(labels: Seq<Seq<char>>) -> bool {
    &&& labels.len() >= 2
    &&& is_letter(labels[0][0])
    &&& forall|i: int| 0 <= i < labels.len() ==> is_label(#[trigger] labels[i])
}

/// Two or more labels, the first of which starts with a letter, joined by dots
/// are an interface name.
pub proof fn joined_labels_are_an_interface_name(labels: Seq<Seq<char>>)
    requires
        are_name_labels(labels),
    ensures
        is_interface_name(joined(labels, seq!['.'])),
    decreases labels.len(),
{
    let front = labels.drop_last();
    let name = joined(labels, seq!['.']);
    if labels.len() == 2 {
        assert(joined(front, seq!['.']) == labels[0]);
        two_labels_are_an_interface_name(labels[0], labels[1]);
        assert(name == labels[0].push('.') + labels[1]);
    } else {
        assert(front[0] == labels[0]);
        joined_labels_are_an_interface_name(front);
        interface_name_takes_label(joined(front, seq!['.']), labels.last());
        assert(name == joined(front, seq!['.']).push('.') + labels.last());
    }
}

/// Each interface name is its labels joined by dots; there are at least two, and
/// the first starts with a letter.
pub proof fn interface_name_is_joined_labels(name: Seq<char>) -> (labels: Seq<Seq<char>>)
    requires
        is_interface_name(name),
    ensures
        are_name_labels(labels),
        name == joined(labels, seq!['.']),
    decreases name.len(),
{
    interface_name_splits_at_last_dot(name);
    let head = before_last(name, '.').unwrap();
    let tail = name.skip(head.len() + 1int);
    let front = if head.contains('.') {
        interface_name_is_joined_labels(head)
    } else {
        assert(joined(seq![head], seq!['.']) == head);
        seq![head]
    };
    let labels = front.push(tail);
    assert(labels.drop_last() == front);
    assert(labels[0] == front[0]);
    assert forall|i: int| 0 <= i < labels.len() implies is_label(#[trigger] labels[i]) by {
        if i < front.len() {
            assert(labels[i] == front[i]);
        }
    }
    assert(joined(labels, seq!['.']) == head + seq!['.'] + tail);
    assert(head + seq!['.'] == head.push('.'));
    labels
}

/// The letters are those of the English alphabet, and the digits the ten decimal ones.
pub proof fn letters_and_digits_are_the_usual(c: char)
    ensures
        is_letter(c) <==> "ABCDEFGHIJKLMNOPQRSTUVWXYZabcdefghijklmnopqrstuvwxyz"@.contains(c),
        is_alphanumeric(c) <==> is_letter(c) || "0123456789"@.contains(c),
{
    reveal_strlit("ABCDEFGHIJKLMNOPQRSTUVWXYZabcdefghijklmnopqrstuvwxyz");
    reveal_strlit("0123456789");
    let letters = "ABCDEFGHIJKLMNOPQRSTUVWXYZabcdefghijklmnopqrstuvwxyz"@;
    let digits = "0123456789"@;
    if is_letter(c) {
        let at: int = if c <= 'Z' {
            c as int - 'A' as int
        } else {
            c as int - 'a' as int + 26
        };
        assert(letters[at] == c);
    }
    if is_alphanumeric(c) && !is_letter(c) {
        assert(digits[c as int - '0' as int] == c);
    }
}

/// A label is made of letters, digits and hyphens, and no hyphen stands at its ends;
/// nothing else is asked of it.
pub proof fn labels_have_no_outer_hyphens(label: Seq<char>)
    ensures
        is_label(label) <==> {
            &&& label.len() > 0
            &&& label[0] != '-'
            &&& label[label.len() - 1] != '-'
            &&& forall|i: int|
                0 <= i < label.len() ==> #[trigger] label[i] == '-' || is_alphanumeric(label[i])
        },
{
}

/// Two or more labels that are joined by dots are a valid name exactly when the first
/// starts with a letter, and every valid name is made so.
pub proof fn names_are_labels_joined_by_dots(name: &str, valid: bool, labels: Seq<Seq<char>>)
    requires
        call_ensures(varlink_interface_name_is_valid, (name,), valid),
        labels.len() >= 2,
        forall|i: int| 0 <= i < labels.len() ==> is_label(#[trigger] labels[i]),
        name@ == joined(labels, seq!['.']),
    ensures
        valid <==> is_letter(labels[0][0]),
{
    assert(is_label(labels[0]));
    if is_letter(labels[0][0]) {
        joined_labels_are_an_interface_name(labels);
    }
    joined_starts_with_the_first(labels);
}

proof fn joined_starts_with_the_first(labels: Seq<Seq<char>>)
    requires
        labels.len() >= 1,
        labels[0].len() > 0,
    ensures
        joined(labels, seq!['.']).len() > 0,
        joined(labels, seq!['.'])[0] == labels[0][0],
    decreases labels.len(),
{
    if labels.len() > 1 {
        assert(labels.drop_last()[0] == labels[0]);
        joined_starts_with_the_first(labels.drop_last());
    }
}

/// A valid name holds nothing but letters, digits, hyphens and dots.
pub proof fn other_characters_are_refused(name: &str, valid: bool, at: int)
    requires
        call_ensures(varlink_interface_name_is_valid, (name,), valid),
        0 <= at < name@.len(),
        !"ABCDEFGHIJKLMNOPQRSTUVWXYZabcdefghijklmnopqrstuvwxyz"@.contains(name@[at]),
        !"0123456789"@.contains(name@[at]),
        name@[at] != '-',
        name@[at] != '.',
    ensures
        !valid,
{
    letters_and_digits_are_the_usual(name@[at]);
}

} // verus!
