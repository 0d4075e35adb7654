//! What a service's interface description says.

use crate::error::{AppError, StatusCode};
use crate::text::{chain, chars_of, texts};
use vstd::prelude::*;

verus! {

/// What `zlink::idl::Interface::try_from` makes of an interface description: the
/// names of the methods, in the order of their definitions, or the text of the
/// error.
pub uninterp spec fn methods_in(description: Seq<char>) -> Result<Seq<Seq<char>>, Seq<char>>;

/// A list of names, or the text of the error.
pub open spec fn names_result(names: Result<Vec<String>, String>) -> Result<
    Seq<Seq<char>>,
    Seq<char>,
> {
    match names {
        Ok(names) => Ok(texts(names@)),
        Err(error) => Err(error@),
    }
}

/// How many parentheses may be open at once in a description.
pub const MAX_OPEN_PARENS: usize = 32;

/// How many of `[]`, `[string]` and `?` may stand before a type.
pub const MAX_TYPE_PREFIXES: usize = 16;

/// Where a description's text ends: in the code, in a comment, or in a comment
/// behind a carriage return. A comment lasts to the end of the line, and a carriage
/// return may count as one or not.
#[derive(Debug, Clone, Copy, PartialEq, Eq, Structural)]
pub enum Place {
    Code,
    Comment,
    AfterReturn,
}

impl Place {
    /// Where the text ends when a character is added.
    pub open spec fn step(self, c: char) -> Place {
        match self {
            Place::Code => if c == '#' {
                Place::Comment
            } else {
                Place::Code
            },
            Place::Comment => if c == '\n' {
                Place::Code
            } else if c == '\r' {
                Place::AfterReturn
            } else {
                Place::Comment
            },
            Place::AfterReturn => if c == '\n' {
                Place::Code
            } else {
                Place::AfterReturn
            },
        }
    }
}

/// Where a description's text ends.
pub open spec fn place_after(text: Seq<char>) -> Place
    decreases text.len(),
{
    if text.len() == 0 {
        Place::Code
    } else {
        place_after(text.drop_last()).step(text.last())
    }
}

/// The number of parentheses that are open at the end of a text, those in comments
/// not counted. Behind a carriage return in a comment none is taken as closed.
pub open spec fn open_parens(text: Seq<char>) -> nat
    decreases text.len(),
{
    if text.len() == 0 {
        0
    } else {
        let before = open_parens(text.drop_last());
        let place = place_after(text.drop_last());
        if text.last() == '(' && place != Place::Comment {
            before + 1
        } else if text.last() == ')' && place == Place::Code && before > 0 {
            (before - 1) as nat
        } else {
            before
        }
    }
}

/// The number of `[` and `?` in the type that a text ends in, that is since the last
/// parenthesis, comma or colon, comments not counted.
pub open spec fn type_prefixes(text: Seq<char>) -> nat
    decreases text.len(),
{
    if text.len() == 0 {
        0
    } else {
        let before = type_prefixes(text.drop_last());
        let c = text.last();
        if place_after(text.drop_last()) == Place::Comment {
            before
        } else if c == '[' || c == '?' {
            before + 1
        } else if c == '(' || c == ')' || c == ',' || c == ':' {
            0
        } else {
            before
        }
    }
}

/// Whether the types of a description are nested only as deep as the parser, which
/// calls itself for every type in a type, can follow.
pub open spec fn nests_within_limit(text: Seq<char>) -> bool {
    forall|i: int|
        0 <= i <= text.len() ==> open_parens(#[trigger] text.take(i)) <= MAX_OPEN_PARENS
            && type_prefixes(text.take(i)) <= MAX_TYPE_PREFIXES
}

fn next_place(place: Place, c: char) -> (next: Place)
    ensures
        next == place.step(c),
{
    match place {
        Place::Code => if c == '#' {
            Place::Comment
        } else {
            Place::Code
        },
        Place::Comment => if c == '\n' {
            Place::Code
        } else if c == '\r' {
            Place::AfterReturn
        } else {
            Place::Comment
        },
        Place::AfterReturn => if c == '\n' {
            Place::Code
        } else {
            Place::AfterReturn
        },
    }
}

/// Whether the types of a description are nested only as deep as the parser can
/// follow.
pub fn is_within_limit(description: &str) -> (within: bool)
    ensures
        within == nests_within_limit(description@),
{
    let chars = chars_of(description);
    let ghost text = description@;
    let mut place = Place::Code;
    let mut open: usize = 0;
    let mut prefixes: usize = 0;
    let mut i: usize = 0;
    while i < chars.len()
        invariant
            i <= chars@.len(),
            chars@ == text,
            text == description@,
            place == place_after(text.take(i as int)),
            open == open_parens(text.take(i as int)),
            prefixes == type_prefixes(text.take(i as int)),
            open <= MAX_OPEN_PARENS,
            prefixes <= MAX_TYPE_PREFIXES,
            forall|j: int|
                0 <= j <= i ==> open_parens(#[trigger] text.take(j)) <= MAX_OPEN_PARENS
                    && type_prefixes(text.take(j)) <= MAX_TYPE_PREFIXES,
        decreases chars@.len() - i,
    {
        let c: char = chars[i];
        assert(text.take(i + 1).drop_last() == text.take(i as int));
        assert(text.take(i + 1).last() == c);
        if c == '(' && place != Place::Comment {
            open = open + 1;
        } else if c == ')' && place == Place::Code && open > 0 {
            open = open - 1;
        }
        if place != Place::Comment {
            if c == '[' || c == '?' {
                prefixes = prefixes + 1;
            } else if c == '(' || c == ')' || c == ',' || c == ':' {
                prefixes = 0;
            }
        }
        place = next_place(place, c);
        i = i + 1;
        if open > MAX_OPEN_PARENS || prefixes > MAX_TYPE_PREFIXES {
            assert(!nests_within_limit(text)) by {
                let past = text.take(i as int);
                assert(open_parens(past) == open && type_prefixes(past) == prefixes);
            }
            return false;
        }
    }
    true
}

/// Calls `zlink::idl::Interface::try_from`, and `name` on each of its `methods`.
/// The contract claims that the result depends on the text alone. The parser calls
/// itself for every type in a type, without a limit of its own: descriptions that
/// are nested too deeply for the stack are left out.
#[verifier::external_body]
fn parse_methods(description: &str) -> (names: Result<Vec<String>, String>)
    requires
        nests_within_limit(description@),
    ensures
        names_result(names) == methods_in(description@),
{
    match zlink::idl::Interface::try_from(description) {
        Ok(interface) => Ok(interface.methods().map(|m| m.name().to_string()).collect()),
        Err(error) => Err(error.to_string()),
    }
}

/// What a request for the methods of an interface is answered.
pub open spec fn is_methods_answer(
    parsed: Result<Seq<Seq<char>>, Seq<char>>,
    answer: Result<Vec<String>, AppError>,
) -> bool {
    match parsed {
        Ok(names) => answer matches Ok(list) && texts(list@) == names,
        Err(cause) => answer matches Err(error) && error.status == StatusCode::BadGateway
            && error.message@ == "upstream IDL parse error: "@ + cause,
    }
}

/// The names of the methods, or the answer that the service's description is
/// wrong.
pub fn methods_answer(parsed: Result<Vec<String>, String>) -> (answer: Result<
    Vec<String>,
    AppError,
>)
    ensures
        is_methods_answer(names_result(parsed), answer),
{
    match parsed {
        Ok(names) => Ok(names),
        Err(cause) => Err(
            AppError::bad_gateway(chain("upstream IDL parse error: ", cause.as_str())),
        ),
    }
}

/// The names of the methods that an interface description defines. One whose types
/// are nested too deeply is not parsed.
pub fn method_names(description: &str) -> (answer: Result<Vec<String>, AppError>)
    ensures
        if nests_within_limit(description@) {
            is_methods_answer(methods_in(description@), answer)
        } else {
            answer matches Err(error) && error.status == StatusCode::BadGateway && error.message@
                == "upstream IDL parse error: types are nested too deeply"@
        },
{
    if is_within_limit(description) {
        methods_answer(parse_methods(description))
    } else {
        Err(
            AppError::bad_gateway(
                "upstream IDL parse error: types are nested too deeply".to_owned(),
            ),
        )
    }
}

/// How often a character occurs in a text.
pub open spec fn occurrences(text: Seq<char>, c: char) -> nat
    decreases text.len(),
{
    if text.len() == 0 {
        0
    } else if text.last() == c {
        occurrences(text.drop_last(), c) + 1
    } else {
        occurrences(text.drop_last(), c)
    }
}

proof fn nesting_is_bounded(text: Seq<char>, len: int)
    requires
        0 <= len <= text.len(),
    ensures
        open_parens(text.take(len)) <= occurrences(text, '('),
        type_prefixes(text.take(len)) <= occurrences(text, '[') + occurrences(text, '?'),
    decreases text.len(),
{
    if len < text.len() {
        let front = text.drop_last();
        nesting_is_bounded(front, len);
        assert(front.take(len) == text.take(len));
    } else {
        assert(text.take(len) == text);
        if text.len() > 0 {
            let front = text.drop_last();
            nesting_is_bounded(front, front.len() as int);
            assert(front.take(front.len() as int) == front);
        }
    }
}

/// A description with no more than 32 opening parentheses, and no more than 16 of "[" and
/// "?", is never refused, however they stand.
pub proof fn short_descriptions_are_within_the_limit(description: &str, within: bool)
    requires
        call_ensures(is_within_limit, (description,), within),
        occurrences(description@, '(') <= 32,
        occurrences(description@, '[') + occurrences(description@, '?') <= 16,
    ensures
        within,
{
    let text = description@;
    assert forall|i: int| 0 <= i <= text.len() implies open_parens(#[trigger] text.take(i))
        <= MAX_OPEN_PARENS && type_prefixes(text.take(i)) <= MAX_TYPE_PREFIXES by {
        nesting_is_bounded(text, i);
    }
}

proof fn code_without_comments(text: Seq<char>)
    requires
        !text.contains('#'),
    ensures
        place_after(text) == Place::Code,
    decreases text.len(),
{
    if text.len() > 0 {
        let front = text.drop_last();
        assert(text[text.len() - 1] == text.last());
        assert forall|c: char| front.contains(c) implies text.contains(c) by {
            let i = choose|i: int| 0 <= i < front.len() && front[i] == c;
            assert(text[i] == c);
        }
        code_without_comments(front);
    }
}

/// Without comments every parenthesis counts: one that opens goes one deeper, one that
/// closes goes back, and "[" and "?" count up to the next of "(", ")", "," and ":".
/// Nothing else counts.
pub proof fn parentheses_count_outside_comments(text: Seq<char>, c: char)
    requires
        !text.contains('#'),
    ensures
        c == '(' ==> open_parens(text.push(c)) == open_parens(text) + 1,
        c == ')' && open_parens(text) > 0 ==> open_parens(text.push(c)) == open_parens(text) - 1,
        c == ')' && open_parens(text) == 0 ==> open_parens(text.push(c)) == 0,
        c != '(' && c != ')' ==> open_parens(text.push(c)) == open_parens(text),
        c == '[' || c == '?' ==> type_prefixes(text.push(c)) == type_prefixes(text) + 1,
        c == '(' || c == ')' || c == ',' || c == ':' ==> type_prefixes(text.push(c)) == 0,
        !seq!['[', '?', '(', ')', ',', ':'].contains(c) ==> type_prefixes(text.push(c))
            == type_prefixes(text),
        open_parens(Seq::<char>::empty()) == 0,
        type_prefixes(Seq::<char>::empty()) == 0,
{
    code_without_comments(text);
    assert(text.push(c).drop_last() == text);
    let counted = seq!['[', '?', '(', ')', ',', ':'];
    assert(counted[0] == '[' && counted[1] == '?' && counted[2] == '(' && counted[3] == ')'
        && counted[4] == ',' && counted[5] == ':');
}

/// A comment changes nothing, whatever it holds up to the end of its line.
pub proof fn comments_do_not_count(text: Seq<char>, comment: Seq<char>)
    requires
        place_after(text) == Place::Code,
        !comment.contains('\n'),
        !comment.contains('\r'),
    ensures
        place_after(text.push('#') + comment) == Place::Comment,
        open_parens(text.push('#') + comment) == open_parens(text),
        type_prefixes(text.push('#') + comment) == type_prefixes(text),
        place_after((text.push('#') + comment).push('\n')) == Place::Code,
        open_parens((text.push('#') + comment).push('\n')) == open_parens(text),
        type_prefixes((text.push('#') + comment).push('\n')) == type_prefixes(text),
    decreases comment.len(),
{
    let all = text.push('#') + comment;
    if comment.len() == 0 {
        assert(all == text.push('#'));
        assert(all.drop_last() == text);
    } else {
        let shorter = comment.drop_last();
        assert(comment[comment.len() - 1] == comment.last());
        assert forall|c: char| shorter.contains(c) implies comment.contains(c) by {
            let i = choose|i: int| 0 <= i < shorter.len() && shorter[i] == c;
            assert(comment[i] == c);
        }
        comments_do_not_count(text, shorter);
        assert(all.drop_last() == text.push('#') + shorter);
        assert(all.last() == comment.last());
    }
    let ended = all.push('\n');
    assert(ended.drop_last() == all);
    assert(place_after(all) == Place::Comment);
    assert(type_prefixes(ended) == type_prefixes(all));
}

/// A description is refused as soon as more parentheses are open than the limit allows,
/// or more prefixes stand before a type, wherever that is in it, and only then.
pub proof fn deep_descriptions_are_refused(description: &str, within: bool, at: int)
    requires
        call_ensures(is_within_limit, (description,), within),
        0 <= at <= description@.len(),
    ensures
        open_parens(description@.take(at)) > 32 ==> !within,
        type_prefixes(description@.take(at)) > 16 ==> !within,
        !within ==> exists|i: int|
            0 <= i <= description@.len() && (open_parens(#[trigger] description@.take(i)) > 32
                || type_prefixes(description@.take(i)) > 16),
{
}

/// The methods of a description are answered as the parser names them, in order. One that
/// it does not accept is a bad gateway, and the answer tells the parser's error.
pub proof fn methods_are_answered_in_order(
    parsed: Result<Vec<String>, String>,
    answer: Result<Vec<String>, AppError>,
)
    requires
        call_ensures(methods_answer, (parsed,), answer),
    ensures
        answer is Ok <==> parsed is Ok,
        parsed matches Ok(names) ==> (answer matches Ok(list) && list@.len() == names@.len()
            && forall|i: int| 0 <= i < names@.len() ==> (#[trigger] list@[i])@ == names@[i]@),
        parsed matches Err(cause) ==> (answer matches Err(error) && error.status is BadGateway
            && error.message@ == "upstream IDL parse error: "@ + cause@),
{
    if let Ok(names) = parsed {
        if let Ok(list) = answer {
            let given = texts(names@);
            let told = texts(list@);
            assert(given.len() == told.len());
            assert forall|i: int| 0 <= i < names@.len() implies (#[trigger] list@[i])@
                == names@[i]@ by {
                assert(told[i] == list@[i]@ && given[i] == names@[i]@);
            }
        }
    }
}

/// Every description that is within the limit is answered by its methods or by the
/// parser's error, and any other is a bad gateway.
pub proof fn descriptions_are_parsed_within_the_limit(
    description: &str,
    answer: Result<Vec<String>, AppError>,
    within: bool,
)
    requires
        call_ensures(method_names, (description,), answer),
        call_ensures(is_within_limit, (description,), within),
    ensures
        answer is Ok <==> within && methods_in(description@) is Ok,
        answer matches Ok(list) ==> (methods_in(description@) matches Ok(names) && texts(list@)
            == names),
        answer matches Err(error) ==> error.status is BadGateway,
        !within ==> (answer matches Err(error) && error.message@
            == "upstream IDL parse error: types are nested too deeply"@),
        within ==> (methods_in(description@) matches Err(cause) ==> (answer matches Err(error)
            && error.message@ == "upstream IDL parse error: "@ + cause)),
{
}

/// Behind a carriage return in a comment nothing closes and everything opens, up to the
/// end of the line.
pub proof fn returns_in_comments_count_as_either(text: Seq<char>, c: char)
    requires
        place_after(text) == Place::AfterReturn,
    ensures
        c == '\n' <==> place_after(text.push(c)) == Place::Code,
        c != '\n' ==> place_after(text.push(c)) == Place::AfterReturn,
        c == '(' ==> open_parens(text.push(c)) == open_parens(text) + 1,
        c != '(' ==> open_parens(text.push(c)) == open_parens(text),
        c == '[' || c == '?' ==> type_prefixes(text.push(c)) == type_prefixes(text) + 1,
        c == '(' || c == ')' || c == ',' || c == ':' ==> type_prefixes(text.push(c)) == 0,
        !seq!['[', '?', '(', ')', ',', ':'].contains(c) ==> type_prefixes(text.push(c))
            == type_prefixes(text),
{
    assert(text.push(c).drop_last() == text);
    let counted = seq!['[', '?', '(', ')', ',', ':'];
    assert(counted[0] == '[' && counted[1] == '?' && counted[2] == '(' && counted[3] == ')'
        && counted[4] == ',' && counted[5] == ':');
}

/// A carriage return in a comment leaves open whether the comment goes on, and one outside
/// comments is like any other character.
pub proof fn returns_leave_comments_open(text: Seq<char>)
    ensures
        place_after(text) == Place::Comment ==> place_after(text.push('\r'))
            == Place::AfterReturn,
        place_after(text) == Place::Code ==> place_after(text.push('\r')) == Place::Code,
        open_parens(text.push('\r')) == open_parens(text),
        type_prefixes(text.push('\r')) == type_prefixes(text),
{
    assert(text.push('\r').drop_last() == text);
}

} // verus!
