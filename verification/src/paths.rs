//! Unix paths as texts.

use crate::text::{chars_of, opt_text, same_text, texts};
use vstd::prelude::*;

verus! {

/// `relative` taken from the directory `dir`: an absolute path stays as it is,
/// and one separator stands between the two parts.
pub open spec fn path_join(dir: Seq<char>, relative: Seq<char>) -> Seq<char> {
    if relative.len() > 0 && relative[0] == '/' {
        relative
    } else if dir.len() == 0 || dir.last() == '/' {
        dir + relative
    } else {
        dir + seq!['/'] + relative
    }
}

/// Joins `relative` to the directory `dir`.
pub fn join_path(dir: &str, relative: &str) -> (path: String)
    ensures
        path@ == path_join(dir@, relative@),
{
    let rel = chars_of(relative);
    if rel.len() > 0 && rel[0] == '/' {
        return relative.to_owned();
    }
    let base = chars_of(dir);
    let mut path = dir.to_owned();
    if base.len() > 0 && base[base.len() - 1] != '/' {
        path.push('/');
        assert(path@ == dir@ + seq!['/']);
    }
    path.append(relative);
    path
}

/// What `std::path::Path::file_name` gives of a Unix path: its last component,
/// unless that is `..` or there is none.
pub uninterp spec fn file_name_of(path: Seq<char>) -> Option<Seq<char>>;

/// What `std::path::Path::parent` gives of a Unix path: the path without its
/// last component, unless it is a root or empty.
pub uninterp spec fn parent_of(path: Seq<char>) -> Option<Seq<char>>;

/// `std::path::Path::file_name` on a path that is text. The contract names what
/// it returns.
#[verifier::external_body]
pub(crate) fn path_file_name(path: &str) -> (name: Option<String>)
    ensures
        opt_text(name) == file_name_of(path@),
{
    std::path::Path::new(path).file_name().and_then(|n| n.to_str()).map(String::from)
}

/// `std::path::Path::parent` on a path that is text. The contract names what it
/// returns.
#[verifier::external_body]
pub(crate) fn path_parent(path: &str) -> (parent: Option<String>)
    ensures
        opt_text(parent) == parent_of(path@),
{
    std::path::Path::new(path).parent().and_then(|p| p.to_str()).map(String::from)
}

/// Whether `path` is one of `list`.
pub fn is_listed(list: &Vec<String>, path: &str) -> (listed: bool)
    ensures
        listed == texts(list@).contains(path@),
{
    let mut i: usize = 0;
    while i < list.len()
        invariant
            i <= list@.len(),
            forall|j: int| 0 <= j < i ==> texts(list@)[j] != path@,
        decreases list@.len() - i,
    {
        if same_text(list[i].as_str(), path) {
            assert(texts(list@)[i as int] == path@);
            return true;
        }
        i = i + 1;
    }
    false
}

/// The first of `places` that is among `existing`.
pub open spec fn first_existing(places: Seq<Seq<char>>, existing: Seq<Seq<char>>) -> Option<
    Seq<char>,
>
    decreases places.len(),
{
    if places.len() == 0 {
        None
    } else if existing.contains(places[0]) {
        Some(places[0])
    } else {
        first_existing(places.skip(1), existing)
    }
}

/// The first of `places` that is among `existing`.
pub fn find_existing(places: &Vec<String>, existing: &Vec<String>) -> (found: Option<String>)
    ensures
        opt_text(found) == first_existing(texts(places@), texts(existing@)),
{
    let ghost all = texts(places@);
    let mut i: usize = 0;
    assert(all.skip(0) == all);
    while i < places.len()
        invariant
            i <= places@.len(),
            all == texts(places@),
            first_existing(all.skip(i as int), texts(existing@)) == first_existing(
                all,
                texts(existing@),
            ),
        decreases places@.len() - i,
    {
        assert(all[i as int] == places@[i as int]@);
        if is_listed(existing, places[i].as_str()) {
            return Some(places[i].clone());
        }
        assert(all.skip(i as int).skip(1) == all.skip(i + 1));
        i = i + 1;
    }
    None
}

/// A path that is absolute is taken from nowhere else. Any other ends a path that starts
/// with the directory, and the two are parted by one separator, which is only added where
/// there is none.
pub proof fn joined_paths_hold_both_parts(dir: Seq<char>, relative: Seq<char>)
    ensures
        ({
            let path = path_join(dir, relative);
            if relative.len() > 0 && relative[0] == '/' {
                path == relative
            } else {
                &&& path.len() >= dir.len() + relative.len()
                &&& path.take(dir.len() as int) == dir
                &&& path.skip(path.len() - relative.len()) == relative
                &&& dir.len() == 0 || dir[dir.len() - 1] == '/' ==> path.len() == dir.len()
                    + relative.len()
                &&& dir.len() > 0 && dir[dir.len() - 1] != '/' ==> path.len() == dir.len() + 1
                    + relative.len() && path[dir.len() as int] == '/'
            }
        }),
{
}

/// A separator at the end of a directory changes nothing.
pub proof fn a_last_separator_changes_nothing(dir: Seq<char>, relative: Seq<char>)
    requires
        dir.len() > 0,
        dir.last() != '/',
    ensures
        path_join(dir.push('/'), relative) == path_join(dir, relative),
{
    assert(dir.push('/') == dir + seq!['/']);
}

/// Of the places that are listed the first that exists is found, and one is found whenever
/// one exists.
pub proof fn the_first_existing_is_found(
    places: Seq<Seq<char>>,
    existing: Seq<Seq<char>>,
    at: int,
)
    requires
        0 <= at <= places.len(),
        forall|i: int| 0 <= i < at ==> !existing.contains(#[trigger] places[i]),
        at < places.len() ==> existing.contains(places[at]),
    ensures
        at < places.len() ==> first_existing(places, existing) == Some(places[at]),
        at == places.len() ==> first_existing(places, existing) is None,
    decreases places.len(),
{
    if at > 0 {
        let rest = places.skip(1);
        assert(!existing.contains(places[0]));
        assert forall|i: int| 0 <= i < at - 1 implies !existing.contains(#[trigger] rest[i]) by {
            assert(rest[i] == places[i + 1]);
        }
        the_first_existing_is_found(rest, existing, at - 1);
    }
}

/// Every search gives a place that is listed and exists, and fails only where none does.
pub proof fn searches_find_what_exists(
    places: &Vec<String>,
    existing: &Vec<String>,
    found: Option<String>,
    at: int,
)
    requires
        call_ensures(find_existing, (places, existing), found),
        0 <= at <= places@.len(),
        forall|i: int| 0 <= i < at ==> !texts(existing@).contains((#[trigger] places@[i])@),
        at < places@.len() ==> texts(existing@).contains(places@[at]@),
    ensures
        found is Some <==> at < places@.len(),
        found matches Some(path) ==> path@ == places@[at]@,
{
    let all = texts(places@);
    assert forall|i: int| 0 <= i < at implies !texts(existing@).contains(#[trigger] all[i]) by {
        assert(all[i] == places@[i]@);
    }
    if at < places@.len() {
        assert(all[at] == places@[at]@);
    }
    the_first_existing_is_found(all, texts(existing@), at);
}

} // verus!
