//! Which varlink sockets there are, and which of them a request reaches.

use crate::error::{AppError, StatusCode};
use crate::interface_name::{
    interface_names_stay_in_their_directory, is_interface_name, is_label,
    varlink_interface_name_is_valid,
};
use crate::paths::{file_name_of, parent_of, path_file_name, path_parent};
use crate::text::{
    at_or_before, before_last, before_last_of_parts, before_last_splits, opt_str, same_text,
    signed_decimal, signed_decimal_text, text_before_last, text_le, text_le_antisymmetric,
    text_le_total, text_le_transitive, texts,
};
use vstd::multiset::Multiset;
use vstd::prelude::*;

verus! {

/// Where the sockets are: in a directory, or one socket in its directory. The
/// directory is held open and known by its file descriptor.
#[derive(Debug)]
pub enum VarlinkSockets {
    SocketDir { dirfd: i32 },
    SingleSocket { dirfd: i32, name: String },
}

/// What the path given on the command line is.
#[derive(Debug, Clone, Copy, PartialEq, Eq, Structural)]
pub enum SocketsKind {
    Directory,
    Socket,
}

/// A socket's directory and its name there.
#[derive(Debug)]
pub struct SocketLocation {
    pub dir: String,
    pub name: String,
}

/// A directory entry: its name, unless that is not text, and whether it is a
/// socket, symbolic links followed (`false` where that cannot be told).
#[derive(Debug)]
pub struct DirEntry {
    pub name: Option<String>,
    pub is_socket: bool,
}

/// The path of an entry of the directory that is open as `dirfd`.
pub open spec fn entry_path(dirfd: i32, name: Seq<char>) -> Seq<char> {
    "/proc/self/fd/"@ + signed_decimal(dirfd as int) + "/"@ + name
}

fn path_of_entry(dirfd: i32, name: &str) -> (path: String)
    ensures
        path@ == entry_path(dirfd, name@),
{
    let mut path = "/proc/self/fd/".to_owned();
    path.append(signed_decimal_text(dirfd).as_str());
    path.append("/");
    path.append(name);
    path
}

/// The names that a directory listing shows: those of its sockets that are
/// interface names, in the order of the entries.
pub open spec fn socket_names(entries: Seq<DirEntry>) -> Seq<Seq<char>>
    decreases entries.len(),
{
    if entries.len() == 0 {
        Seq::empty()
    } else {
        let front = socket_names(entries.drop_last());
        match entries.last().name {
            Some(name) => if entries.last().is_socket && is_interface_name(name@) {
                front.push(name@)
            } else {
                front
            },
            None => front,
        }
    }
}

/// A list in dictionary order.
pub open spec fn in_order(list: Seq<Seq<char>>) -> bool {
    forall|i: int, j: int| 0 <= i <= j < list.len() ==> text_le(#[trigger] list[i], #[trigger] list[j])
}

/// Puts `name` into the ordered list at its place.
fn insert_in_order(list: &mut Vec<String>, name: String)
    requires
        in_order(texts(old(list)@)),
    ensures
        in_order(texts(final(list)@)),
        texts(final(list)@).to_multiset() == texts(old(list)@).to_multiset().insert(name@),
{
    let ghost before = texts(list@);
    let mut at: usize = list.len();
    while at > 0 && !at_or_before(list[at - 1].as_str(), name.as_str())
        invariant
            at <= list@.len(),
            texts(list@) == before,
            forall|j: int| at <= j < before.len() ==> !text_le(#[trigger] before[j], name@),
        decreases at,
    {
        at = at - 1;
        assert(before[at as int] == list@[at as int]@);
    }
    let ghost item = name@;
    proof {
        if at > 0 {
            assert(before[at - 1] == list@[at - 1]@);
            assert(text_le(before[at - 1], item));
        }
    }
    list.insert(at, name);
    let ghost after = texts(list@);
    assert(after == before.insert(at as int, item));
    proof {
        vstd::seq_lib::to_multiset_insert(before, at as int, item);
        assert forall|i: int, j: int| 0 <= i <= j < after.len() implies text_le(
            #[trigger] after[i],
            #[trigger] after[j],
        ) by {
            let k = at as int;
            if i == j {
                text_le_total(after[i], after[i]);
            } else if j < k {
                assert(after[i] == before[i] && after[j] == before[j]);
            } else if j == k {
                assert(after[i] == before[i]);
                assert(text_le(before[i], before[k - 1]));
                text_le_transitive(before[i], before[k - 1], item);
            } else if i < k {
                assert(after[i] == before[i] && after[j] == before[j - 1]);
            } else if i == k {
                assert(after[j] == before[j - 1]);
                text_le_total(item, before[j - 1]);
            } else {
                assert(after[i] == before[i - 1] && after[j] == before[j - 1]);
            }
        }
    }
}

impl VarlinkSockets {
    /// The descriptor of the open directory.
    pub open spec fn directory(self) -> i32 {
        match self {
            VarlinkSockets::SocketDir { dirfd } => dirfd,
            VarlinkSockets::SingleSocket { dirfd, .. } => dirfd,
        }
    }

    /// Whether the socket `name`, a valid name, may be asked for.
    pub open spec fn offers(self, name: Seq<char>) -> bool {
        match self {
            VarlinkSockets::SocketDir { .. } => true,
            VarlinkSockets::SingleSocket { name: only, .. } => name == only@,
        }
    }

    /// The answer to a request for `name` that is refused.
    pub open spec fn refuses_with(self, name: Seq<char>, error: AppError) -> bool {
        if !is_interface_name(name) {
            &&& error.status == StatusCode::BadRequest
            &&& error.message@
                == "invalid socket name (must be a valid varlink interface name): "@ + name
        } else {
            &&& error.status == StatusCode::BadGateway
            &&& self matches VarlinkSockets::SingleSocket { name: only, .. }
            &&& error.message@ == "socket '"@ + name + "' not available (only '"@ + only@
                + "' is available)"@
        }
    }

    /// The path of the socket `name`. A name that is not an interface name is a
    /// bad request; with a single socket, every name but its own is a bad gateway.
    pub fn resolve_socket_with_validate(&self, name: &str) -> (path: Result<String, AppError>)
        ensures
            path is Ok <==> is_interface_name(name@) && self.offers(name@),
            path matches Ok(p) ==> p@ == entry_path(self.directory(), name@),
            path matches Err(e) ==> self.refuses_with(name@, e),
    {
        if !varlink_interface_name_is_valid(name) {
            let mut message =
                "invalid socket name (must be a valid varlink interface name): ".to_owned();
            message.append(name);
            return Err(AppError::bad_request(message));
        }
        match self {
            VarlinkSockets::SocketDir { dirfd } => Ok(path_of_entry(*dirfd, name)),
            VarlinkSockets::SingleSocket { dirfd, name: expected } => {
                if same_text(name, expected.as_str()) {
                    Ok(path_of_entry(*dirfd, name))
                } else {
                    let mut message = "socket '".to_owned();
                    message.append(name);
                    message.append("' not available (only '");
                    message.append(expected.as_str());
                    message.append("' is available)");
                    Err(AppError::bad_gateway(message))
                }
            },
        }
    }

    /// Whether `names` lists the sockets on offer: of a directory with these entries,
    /// the sockets with a valid name, sorted; of a single socket, its own name.
    pub open spec fn is_listing(self, entries: Seq<DirEntry>, names: Seq<Seq<char>>) -> bool {
        match self {
            VarlinkSockets::SocketDir { .. } => {
                &&& in_order(names)
                &&& names.to_multiset() == socket_names(entries).to_multiset()
            },
            VarlinkSockets::SingleSocket { name, .. } => names == seq![name@],
        }
    }

    /// The names of the sockets on offer: of a directory, given its entries, the
    /// sockets with a valid name, sorted; of a single socket, its own name.
    pub fn list_sockets(&self, entries: &Vec<DirEntry>) -> (names: Vec<String>)
        ensures
            self.is_listing(entries@, texts(names@)),
    {
        match self {
            VarlinkSockets::SocketDir { .. } => {
                let mut names: Vec<String> = Vec::new();
                assert(texts(names@) == Seq::<Seq<char>>::empty());
                let mut i: usize = 0;
                while i < entries.len()
                    invariant
                        i <= entries@.len(),
                        in_order(texts(names@)),
                        texts(names@).to_multiset() == socket_names(
                            entries@.take(i as int),
                        ).to_multiset(),
                    decreases entries@.len() - i,
                {
                    let ghost front = socket_names(entries@.take(i as int));
                    assert(entries@.take(i + 1).drop_last() == entries@.take(i as int));
                    if entries[i].is_socket {
                        if let Some(name) = &entries[i].name {
                            if varlink_interface_name_is_valid(name.as_str()) {
                                insert_in_order(&mut names, name.clone());
                                proof {
                                    vstd::seq_lib::to_multiset_build(front, name@);
                                }
                            }
                        }
                    }
                    i = i + 1;
                }
                assert(entries@.take(entries@.len() as int) == entries@);
                names
            },
            VarlinkSockets::SingleSocket { name, .. } => {
                let mut names: Vec<String> = Vec::new();
                names.push(name.clone());
                assert(texts(names@) == seq![name@]);
                names
            },
        }
    }

    /// Splits the path of a single socket into its directory and its name.
    pub fn from_socket(socket_path: &str) -> (location: Result<SocketLocation, String>)
        ensures
            location is Ok <==> file_name_of(socket_path@) is Some && parent_of(
                socket_path@,
            ) is Some,
            location matches Ok(l) ==> Some(l.name@) == file_name_of(socket_path@) && Some(l.dir@)
                == parent_of(socket_path@),
            location matches Err(e) ==> e@ == if file_name_of(socket_path@) is None {
                "cannot extract socket name from "@ + socket_path@
            } else {
                "cannot extract parent directory from "@ + socket_path@
            },
    {
        VarlinkSockets::location_of(
            path_file_name(socket_path),
            path_parent(socket_path),
            socket_path,
        )
    }

    /// The location of a single socket, from the last component of its path and
    /// from what stands before it.
    pub fn location_of(
        file_name: Option<String>,
        parent: Option<String>,
        socket_path: &str,
    ) -> (location: Result<SocketLocation, String>)
        ensures
            location is Ok <==> file_name is Some && parent is Some,
            location matches Ok(l) ==> Some(l.name) == file_name && Some(l.dir) == parent,
            location matches Err(e) ==> e@ == if file_name is None {
                "cannot extract socket name from "@ + socket_path@
            } else {
                "cannot extract parent directory from "@ + socket_path@
            },
    {
        let name = match file_name {
            Some(name) => name,
            None => {
                let mut message = "cannot extract socket name from ".to_owned();
                message.append(socket_path);
                return Err(message);
            },
        };
        match parent {
            Some(dir) => Ok(SocketLocation { dir, name }),
            None => {
                let mut message = "cannot extract parent directory from ".to_owned();
                message.append(socket_path);
                Err(message)
            },
        }
    }

    /// The path that a call of `method` reaches: that of the socket asked for, or
    /// else of the one that the method's interface names.
    pub fn resolve_call(&self, method: &str, socket: Option<&str>) -> (path: Result<
        String,
        AppError,
    >)
        ensures
            call_socket(method@, opt_str(socket)) is None ==> (path matches Err(e)
                && is_no_dots_error(e, method@)),
            call_socket(method@, opt_str(socket)) matches Some(name) ==> {
                &&& path is Ok <==> is_interface_name(name) && self.offers(name)
                &&& path matches Ok(p) ==> p@ == entry_path(self.directory(), name)
                &&& path matches Err(e) ==> self.refuses_with(name, e)
            },
    {
        let name = match socket_of_call(method, socket) {
            Ok(name) => name,
            Err(e) => return Err(e),
        };
        self.resolve_socket_with_validate(name.as_str())
    }
}

/// The socket that a call of `method` goes to: the one asked for, or else what
/// stands before the method's last dot.
pub open spec fn call_socket(method: Seq<char>, socket: Option<Seq<char>>) -> Option<Seq<char>> {
    match socket {
        Some(name) => Some(name),
        None => before_last(method, '.'),
    }
}

/// The answer to a call whose method names no interface.
pub open spec fn is_no_dots_error(error: AppError, method: Seq<char>) -> bool {
    &&& error.status == StatusCode::BadRequest
    &&& error.message@ == "cannot derive socket from method '"@ + method + "': no dots in name"@
}

/// The socket that a call of `method` goes to. Without a socket asked for, a
/// method without a dot is a bad request.
pub fn socket_of_call(method: &str, socket: Option<&str>) -> (name: Result<String, AppError>)
    ensures
        match call_socket(method@, opt_str(socket)) {
            Some(expected) => name matches Ok(n) && n@ == expected,
            None => name matches Err(e) && is_no_dots_error(e, method@),
        },
{
    if let Some(name) = socket {
        return Ok(name.to_owned());
    }
    match text_before_last(method, '.') {
        Some(name) => Ok(name),
        None => {
            let mut message = "cannot derive socket from method '".to_owned();
            message.append(method);
            message.append("': no dots in name");
            Err(AppError::bad_request(message))
        },
    }
}

/// What the path of the sockets is, from what the file system says of it.
pub fn sockets_kind(path: &str, is_dir: bool, is_socket: bool) -> (kind: Result<SocketsKind, String>)
    ensures
        match kind {
            Ok(SocketsKind::Directory) => is_dir,
            Ok(SocketsKind::Socket) => !is_dir && is_socket,
            Err(e) => !is_dir && !is_socket && e@ == "path "@ + path@
                + " is neither a directory nor a socket"@,
        },
{
    if is_dir {
        Ok(SocketsKind::Directory)
    } else if is_socket {
        Ok(SocketsKind::Socket)
    } else {
        let mut message = "path ".to_owned();
        message.append(path);
        message.append(" is neither a directory nor a socket");
        Err(message)
    }
}

proof fn socket_names_are_interface_names(entries: Seq<DirEntry>, name: Seq<char>)
    requires
        socket_names(entries).contains(name),
    ensures
        is_interface_name(name),
    decreases entries.len(),
{
    if entries.len() > 0 {
        let front = socket_names(entries.drop_last());
        let names = socket_names(entries);
        let i = choose|i: int| 0 <= i < names.len() && names[i] == name;
        if i < front.len() {
            assert(front[i] == name);
            socket_names_are_interface_names(entries.drop_last(), name);
        }
    }
}

/// Every socket that is listed can be asked for. A single socket has to have a
/// valid name for that.
pub proof fn listed_sockets_can_be_reached(
    sockets: VarlinkSockets,
    entries: Seq<DirEntry>,
    names: Seq<Seq<char>>,
    name: Seq<char>,
)
    requires
        sockets.is_listing(entries, names),
        names.contains(name),
        sockets matches VarlinkSockets::SingleSocket { name: only, .. } ==> is_interface_name(
            only@,
        ),
    ensures
        is_interface_name(name),
        sockets.offers(name),
{
    match sockets {
        VarlinkSockets::SocketDir { .. } => {
            broadcast use vstd::seq_lib::group_to_multiset_ensures;

            assert(names.to_multiset().count(name) > 0);
            assert(socket_names(entries).contains(name));
            socket_names_are_interface_names(entries, name);
        },
        VarlinkSockets::SingleSocket { name: only, .. } => {
            assert(name == only@);
        },
    }
}

/// A directory listing does not depend on the order in which the directory
/// gives its entries: two ordered lists with the same names are the same list.
pub proof fn listing_is_determined(
    entries: Seq<DirEntry>,
    reordered: Seq<DirEntry>,
    listing: Seq<Seq<char>>,
    other: Seq<Seq<char>>,
)
    requires
        entries.to_multiset() == reordered.to_multiset(),
        in_order(listing),
        listing.to_multiset() == socket_names(entries).to_multiset(),
        in_order(other),
        other.to_multiset() == socket_names(reordered).to_multiset(),
    ensures
        listing == other,
{
    socket_names_of_reordered(entries, reordered);
    let le = |a: Seq<char>, b: Seq<char>| text_le(a, b);
    assert(vstd::relations::total_ordering(le)) by {
        assert forall|a: Seq<char>| #[trigger] le(a, a) by {
            text_le_total(a, a);
        }
        assert forall|a: Seq<char>, b: Seq<char>| #[trigger] le(a, b) && #[trigger] le(b, a) implies a == b by {
            text_le_antisymmetric(a, b);
        }
        assert forall|a: Seq<char>, b: Seq<char>, c: Seq<char>| #[trigger] le(a, b) && #[trigger] le(b, c) implies le(
            a,
            c,
        ) by {
            text_le_transitive(a, b, c);
        }
        assert forall|a: Seq<char>, b: Seq<char>| #[trigger] le(a, b) || #[trigger] le(b, a) by {
            text_le_total(a, b);
        }
    }
    assert(vstd::relations::sorted_by(listing, le));
    assert(vstd::relations::sorted_by(other, le));
    vstd::seq_lib::lemma_sorted_unique(listing, other, le);
}

/// The names that one directory entry adds to a listing.
spec fn names_of(entry: DirEntry) -> Multiset<Seq<char>> {
    socket_names(seq![entry]).to_multiset()
}

proof fn socket_names_push(entries: Seq<DirEntry>, entry: DirEntry)
    ensures
        socket_names(entries.push(entry)).to_multiset() == socket_names(entries).to_multiset().add(
            names_of(entry),
        ),
{
    broadcast use vstd::seq_lib::group_to_multiset_ensures;

    let none = Seq::<DirEntry>::empty();
    assert(entries.push(entry).drop_last() == entries);
    assert(seq![entry].drop_last() == none);
    assert(socket_names(none) == Seq::<Seq<char>>::empty());
    let added = socket_names(seq![entry]);
    if added.len() > 0 {
        assert(added == Seq::<Seq<char>>::empty().push(entry.name.unwrap()@));
        assert(added.to_multiset() =~= Multiset::empty().insert(entry.name.unwrap()@));
        assert(socket_names(entries).to_multiset().insert(entry.name.unwrap()@)
            =~= socket_names(entries).to_multiset().add(added.to_multiset()));
    } else {
        assert(added.to_multiset() =~= Multiset::empty());
    }
}

proof fn socket_names_remove(entries: Seq<DirEntry>, at: int)
    requires
        0 <= at < entries.len(),
    ensures
        socket_names(entries).to_multiset() == socket_names(entries.remove(at)).to_multiset().add(
            names_of(entries[at]),
        ),
    decreases entries.len(),
{
    let front = entries.drop_last();
    let last = entries.last();
    assert(entries == front.push(last));
    socket_names_push(front, last);
    if at == entries.len() - 1 {
        assert(entries.remove(at) == front);
    } else {
        socket_names_remove(front, at);
        socket_names_push(front.remove(at), last);
        assert(entries.remove(at) == front.remove(at).push(last));
        let rest = socket_names(front.remove(at)).to_multiset();
        assert(rest.add(names_of(front[at])).add(names_of(last)) =~= rest.add(names_of(last)).add(
            names_of(front[at]),
        ));
    }
}

proof fn socket_names_of_reordered(entries: Seq<DirEntry>, reordered: Seq<DirEntry>)
    requires
        entries.to_multiset() == reordered.to_multiset(),
    ensures
        socket_names(entries).to_multiset() == socket_names(reordered).to_multiset(),
    decreases entries.len(),
{
    broadcast use vstd::seq_lib::group_to_multiset_ensures;

    vstd::seq_lib::to_multiset_len(entries);
    vstd::seq_lib::to_multiset_len(reordered);
    if entries.len() == 0 {
        assert(entries == reordered);
    } else {
        let last = entries.last();
        let front = entries.drop_last();
        assert(entries == front.push(last));
        assert(entries.to_multiset().count(last) > 0);
        let at = choose|i: int| 0 <= i < reordered.len() && reordered[i] == last;
        assert(front.to_multiset() =~= entries.to_multiset().remove(last));
        assert(reordered.remove(at).to_multiset() =~= reordered.to_multiset().remove(last));
        socket_names_of_reordered(front, reordered.remove(at));
        socket_names_push(front, last);
        socket_names_remove(reordered, at);
    }
}

/// A request reaches nothing outside the open directory: the directory part of a
/// resolved path is that directory, and what follows is neither `.` nor `..`.
pub proof fn resolved_paths_stay_in_the_directory(dirfd: i32, name: Seq<char>)
    requires
        is_interface_name(name),
    ensures
        before_last(entry_path(dirfd, name), '/') == Some(
            "/proc/self/fd/"@ + signed_decimal(dirfd as int),
        ),
        !name.contains('\0'),
        name != seq!['.'],
        name != seq!['.', '.'],
{
    interface_names_stay_in_their_directory(name);
    let dir = "/proc/self/fd/"@ + signed_decimal(dirfd as int);
    reveal_strlit("/");
    assert(entry_path(dirfd, name) == dir.push('/') + name);
    before_last_of_parts(dir, '/', name);
}

/// A method of an interface reaches the socket named after the interface, with or
/// without that socket being asked for.
pub proof fn methods_reach_their_interface(interface: Seq<char>, method: Seq<char>)
    requires
        is_label(method),
    ensures
        call_socket(interface.push('.') + method, None) == Some(interface),
        call_socket(interface.push('.') + method, Some(interface)) == Some(interface),
{
    before_last_of_parts(interface, '.', method);
}

/// The path of an entry is that of the open directory, a separator and the name as it is.
pub proof fn entries_are_found_by_name(dirfd: i32, name: Seq<char>, other: Seq<char>)
    ensures
        entry_path(dirfd, name) == "/proc/self/fd/"@ + signed_decimal(dirfd as int) + "/"@ + name,
        entry_path(dirfd, name + other) == entry_path(dirfd, name) + other,
        entry_path(dirfd, name) == entry_path(dirfd, other) ==> name == other,
{
    let dir = "/proc/self/fd/"@ + signed_decimal(dirfd as int) + "/"@;
    assert((dir + name) + other == dir + (name + other));
    assert(entry_path(dirfd, name).skip(dir.len() as int) == name);
    assert(entry_path(dirfd, other).skip(dir.len() as int) == other);
}

/// A directory reaches every socket with a valid name, a single socket is reached under
/// its own name only, and nothing is reached under any other. What is reached is the entry
/// of that name in the open directory.
pub proof fn sockets_are_reached_by_name(
    sockets: &VarlinkSockets,
    name: &str,
    path: Result<String, AppError>,
)
    requires
        call_ensures(VarlinkSockets::resolve_socket_with_validate, (sockets, name), path),
    ensures
        *sockets matches VarlinkSockets::SocketDir { dirfd } ==> {
            &&& path is Ok <==> is_interface_name(name@)
            &&& path matches Ok(p) ==> p@ == entry_path(dirfd, name@)
        },
        *sockets matches VarlinkSockets::SingleSocket { dirfd, name: only } ==> {
            &&& path is Ok <==> is_interface_name(name@) && name@ == only@
            &&& path matches Ok(p) ==> p@ == entry_path(dirfd, only@)
            &&& is_interface_name(name@) ==> (path matches Err(e) ==> e.status is BadGateway
                && e.message@ == "socket '"@ + name@ + "' not available (only '"@ + only@
                + "' is available)"@)
        },
        !is_interface_name(name@) ==> (path matches Err(e) && e.status is BadRequest && e.message@
            == "invalid socket name (must be a valid varlink interface name): "@ + name@),
{
}

/// The names of a directory are those of its parts one after the other: an entry counts
/// by itself, and adds its name exactly when it is a socket with a valid one.
pub proof fn each_entry_counts_by_itself(
    entries: Seq<DirEntry>,
    more: Seq<DirEntry>,
    entry: DirEntry,
)
    ensures
        socket_names(entries + more) == socket_names(entries) + socket_names(more),
        entry.name matches Some(name) ==> (entry.is_socket && is_interface_name(name@)
            ==> socket_names(seq![entry]) == seq![name@]),
        !entry.is_socket ==> socket_names(seq![entry]).len() == 0,
        entry.name is None ==> socket_names(seq![entry]).len() == 0,
        entry.name matches Some(name) ==> (!is_interface_name(name@) ==> socket_names(
            seq![entry],
        ).len() == 0),
    decreases more.len(),
{
    let none = Seq::<DirEntry>::empty();
    assert(seq![entry].drop_last() == none);
    assert(socket_names(none) == Seq::<Seq<char>>::empty());
    if entry.name is Some {
        assert(Seq::<Seq<char>>::empty().push(entry.name.unwrap()@) == seq![entry.name.unwrap()@]);
    }
    if more.len() == 0 {
        assert(entries + more == entries);
    } else {
        each_entry_counts_by_itself(entries, more.drop_last(), entry);
        assert((entries + more).drop_last() == entries + more.drop_last());
        assert((entries + more).last() == more.last());
        assert(socket_names(entries + more) == socket_names(entries) + socket_names(more));
    }
}

/// A directory lists the sockets in it that have a valid name, each as often as it occurs
/// and in order, and nothing else; a single socket lists itself.
pub proof fn listings_hold_the_sockets(
    sockets: &VarlinkSockets,
    entries: &Vec<DirEntry>,
    names: Vec<String>,
    name: Seq<char>,
)
    requires
        call_ensures(VarlinkSockets::list_sockets, (sockets, entries), names),
    ensures
        *sockets is SocketDir ==> {
            &&& texts(names@).contains(name) <==> is_interface_name(name) && exists|i: int|
                0 <= i < entries@.len() && (#[trigger] entries@[i]).is_socket && (entries@[i].name
                    matches Some(own) && own@ == name)
            &&& texts(names@).to_multiset() == socket_names(entries@).to_multiset()
            &&& forall|i: int, j: int|
                0 <= i <= j < names@.len() ==> text_le(
                    (#[trigger] names@[i])@,
                    (#[trigger] names@[j])@,
                )
        },
        *sockets matches VarlinkSockets::SingleSocket { name: only, .. } ==> names@.len() == 1
            && names@[0]@ == only@,
{
    broadcast use vstd::seq_lib::group_to_multiset_ensures;

    let list = texts(names@);
    assert forall|i: int| 0 <= i < names@.len() implies #[trigger] list[i] == names@[i]@ by {}
    match *sockets {
        VarlinkSockets::SocketDir { .. } => {
            assert(list.contains(name) <==> list.to_multiset().count(name) > 0);
            assert(socket_names(entries@).contains(name) <==> socket_names(
                entries@,
            ).to_multiset().count(name) > 0);
            entries_are_listed(entries@, name);
            assert forall|i: int, j: int| 0 <= i <= j < names@.len() implies text_le(
                (#[trigger] names@[i])@,
                (#[trigger] names@[j])@,
            ) by {
                assert(text_le(list[i], list[j]));
            }
        },
        VarlinkSockets::SingleSocket { .. } => {
            assert(list.len() == 1);
            assert(list[0] == names@[0]@);
        },
    }
}

proof fn entries_are_listed(entries: Seq<DirEntry>, name: Seq<char>)
    ensures
        socket_names(entries).contains(name) <==> is_interface_name(name) && exists|i: int|
            0 <= i < entries.len() && (#[trigger] entries[i]).is_socket && (entries[i].name
                matches Some(own) && own@ == name),
    decreases entries.len(),
{
    if entries.len() > 0 {
        let front = entries.drop_last();
        let last = entries.last();
        let at = entries.len() - 1;
        entries_are_listed(front, name);
        let before = socket_names(front);
        let names = socket_names(entries);
        if names.contains(name) {
            let k = choose|k: int| 0 <= k < names.len() && names[k] == name;
            if k < before.len() {
                assert(before[k] == name);
                let i = choose|i: int|
                    0 <= i < front.len() && (#[trigger] front[i]).is_socket && (front[i].name
                        matches Some(own) && own@ == name);
                assert(entries[i] == front[i]);
            } else {
                assert(entries[at].is_socket);
            }
        }
        if is_interface_name(name) && exists|i: int|
            0 <= i < entries.len() && (#[trigger] entries[i]).is_socket && (entries[i].name
                matches Some(own) && own@ == name) {
            let i = choose|i: int|
                0 <= i < entries.len() && (#[trigger] entries[i]).is_socket && (entries[i].name
                    matches Some(own) && own@ == name);
            if i < front.len() {
                assert(front[i] == entries[i]);
                let k = choose|k: int| 0 <= k < before.len() && before[k] == name;
                assert(names[k] == name);
            } else {
                assert(names[before.len() as int] == name);
            }
        }
    }
}

/// A call goes to the socket that is asked for, whatever its method is; without one, to
/// what stands before the last dot of the method, and nowhere where there is no dot.
pub proof fn calls_go_to_their_socket(
    method: Seq<char>,
    socket: Seq<char>,
    interface: Seq<char>,
    member: Seq<char>,
)
    requires
        !member.contains('.'),
    ensures
        call_socket(method, Some(socket)) == Some(socket),
        call_socket(interface.push('.') + member, None) == Some(interface),
        call_socket(member, None) is None,
{
    before_last_of_parts(interface, '.', member);
    before_last_splits(member, '.');
}

/// A call reaches the entry of its socket in the open directory, under the same conditions
/// as a request for that socket, and one without a socket is a bad request.
pub proof fn calls_reach_their_socket(
    sockets: &VarlinkSockets,
    method: &str,
    socket: Option<&str>,
    path: Result<String, AppError>,
)
    requires
        call_ensures(VarlinkSockets::resolve_call, (sockets, method, socket), path),
    ensures
        call_socket(method@, opt_str(socket)) is None ==> (path matches Err(e)
            && e.status is BadRequest && e.message@ == "cannot derive socket from method '"@
            + method@ + "': no dots in name"@),
        call_socket(method@, opt_str(socket)) matches Some(name) ==> {
            &&& *sockets matches VarlinkSockets::SocketDir { dirfd } ==> {
                &&& path is Ok <==> is_interface_name(name)
                &&& path matches Ok(p) ==> p@ == entry_path(dirfd, name)
            }
            &&& *sockets matches VarlinkSockets::SingleSocket { dirfd, name: only } ==> {
                &&& path is Ok <==> is_interface_name(name) && name == only@
                &&& path matches Ok(p) ==> p@ == entry_path(dirfd, only@)
            }
            &&& !is_interface_name(name) ==> (path matches Err(e) && e.status is BadRequest)
            &&& is_interface_name(name) ==> (path matches Err(e) ==> e.status is BadGateway)
        },
{
}

/// A path is taken as a directory whenever it is one, as a socket whenever it is one and
/// no directory, and is refused otherwise.
pub proof fn paths_are_directories_or_sockets(
    path: &str,
    is_dir: bool,
    is_socket: bool,
    kind: Result<SocketsKind, String>,
)
    requires
        call_ensures(sockets_kind, (path, is_dir, is_socket), kind),
    ensures
        (kind matches Ok(SocketsKind::Directory)) <==> is_dir,
        (kind matches Ok(SocketsKind::Socket)) <==> is_socket && !is_dir,
        kind is Err <==> !is_dir && !is_socket,
        kind matches Err(error) ==> error@ == "path "@ + path@
            + " is neither a directory nor a socket"@,
{
}

/// A single socket is known by the last component of its path and by what stands before
/// it, both as they are; a path that lacks either is refused.
pub proof fn single_sockets_are_located(
    file_name: Option<String>,
    parent: Option<String>,
    socket_path: &str,
    location: Result<SocketLocation, String>,
)
    requires
        call_ensures(VarlinkSockets::location_of, (file_name, parent, socket_path), location),
    ensures
        location is Ok <==> file_name is Some && parent is Some,
        location matches Ok(l) ==> (file_name matches Some(name) && l.name@ == name@) && (
        parent matches Some(dir) && l.dir@ == dir@),
        file_name is None ==> (location matches Err(error) && error@
            == "cannot extract socket name from "@ + socket_path@),
        file_name is Some && parent is None ==> (location matches Err(error) && error@
            == "cannot extract parent directory from "@ + socket_path@),
{
}

/// The path of a single socket is split as its last component and what stands before it.
pub proof fn socket_paths_are_split(socket_path: &str, location: Result<SocketLocation, String>)
    requires
        call_ensures(VarlinkSockets::from_socket, (socket_path,), location),
    ensures
        location is Ok <==> file_name_of(socket_path@) is Some && parent_of(socket_path@) is Some,
        location matches Ok(l) ==> file_name_of(socket_path@) == Some(l.name@) && parent_of(
            socket_path@,
        ) == Some(l.dir@),
{
}

/// Without a socket that is asked for, a method without a dot is a bad request, and any
/// other goes to its interface; a socket that is asked for is taken as it is.
pub proof fn sockets_of_calls_are_told(
    method: &str,
    socket: Option<&str>,
    name: Result<String, AppError>,
)
    requires
        call_ensures(socket_of_call, (method, socket), name),
    ensures
        name is Err <==> socket is None && !method@.contains('.'),
        socket matches Some(asked) ==> (name matches Ok(n) && n@ == asked@),
        socket is None ==> (name matches Ok(n) ==> n@.push('.').is_prefix_of(method@)
            && !method@.skip(n@.len() + 1int).contains('.')),
        name matches Err(e) ==> e.status is BadRequest && e.message@
            == "cannot derive socket from method '"@ + method@ + "': no dots in name"@,
{
    before_last_splits(method@, '.');
    if socket is None {
        if let Ok(n) = name {
            let head = n@;
            let rest = method@.skip(head.len() + 1int);
            assert(method@ == head.push('.') + rest);
            assert(method@.take(head.len() + 1int) == head.push('.'));
        }
    }
}

} // verus!
