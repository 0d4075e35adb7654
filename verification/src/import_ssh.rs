//! Downloading SSH authorized keys and putting them in place.

use crate::paths::{join_path, parent_of, path_join, path_parent};
use crate::text::{
    after_prefix, caused_by, chain, decimal, decimal_text, opt_text, strip_prefix, texts,
    with_cause,
};
use vstd::prelude::*;

verus! {

/// What to import: where the keys come from, and the file that they go to, where
/// one is given.
#[derive(Debug)]
pub struct ImportSsh {
    pub source: String,
    pub output: Option<String>,
}

/// The address that a key source stands for: the keys of a GitHub user, or an
/// address given in full.
pub open spec fn key_url(source: Seq<char>) -> Option<Seq<char>> {
    match after_prefix(source, "gh:"@) {
        Some(user) => Some("https://github.com/"@ + user + ".keys"@),
        None => if "https://"@.is_prefix_of(source) {
            Some(source)
        } else {
            None
        },
    }
}

/// The address that a key source stands for.
pub fn resolve_key_url(source: &str) -> (url: Result<String, String>)
    ensures
        match key_url(source@) {
            Some(expected) => url matches Ok(u) && u@ == expected,
            None => url matches Err(e) && e@ == "unsupported source: "@ + source@
                + " (use `gh:<user>` or an `https://` URL)"@,
        },
{
    if let Some(user) = strip_prefix(source, "gh:") {
        let mut url = "https://github.com/".to_owned();
        url.append(user.as_str());
        url.append(".keys");
        Ok(url)
    } else if strip_prefix(source, "https://").is_some() {
        Ok(source.to_owned())
    } else {
        let mut message = "unsupported source: ".to_owned();
        message.append(source);
        message.append(" (use `gh:<user>` or an `https://` URL)");
        Err(message)
    }
}

/// The largest answer that is accepted for a list of keys, in bytes.
pub const MAX_KEYS_BODY: u64 = 655_360;

/// What the environment says of where keys go.
#[derive(Debug)]
pub struct ImportEnv {
    /// `$CREDENTIALS_DIRECTORY`.
    pub creds_dir: Option<String>,
    /// Whether the user is root.
    pub is_root: bool,
    /// `$XDG_CONFIG_HOME`.
    pub config_home: Option<String>,
    /// `$HOME`.
    pub home: Option<String>,
}

/// Where keys go when no file is given: to the service's credentials, or for root
/// to the system's configuration, or else to the user's.
pub open spec fn default_output(
    creds_dir: Option<Seq<char>>,
    is_root: bool,
    config_home: Option<Seq<char>>,
    home: Option<Seq<char>>,
) -> Seq<char> {
    match creds_dir {
        Some(dir) => path_join(dir, "authorized_keys"@),
        None => if is_root {
            "/etc/varlink-httpd/authorized_keys"@
        } else {
            path_join(
                match config_home {
                    Some(dir) => dir,
                    None => path_join(
                        match home {
                            Some(home) => home,
                            None => "/root"@,
                        },
                        ".config"@,
                    ),
                },
                "varlink-httpd/authorized_keys"@,
            )
        },
    }
}

/// Where keys go when no file is given.
pub fn default_authorized_keys_path(env: &ImportEnv) -> (path: String)
    ensures
        path@ == default_output(
            opt_text(env.creds_dir),
            env.is_root,
            opt_text(env.config_home),
            opt_text(env.home),
        ),
{
    if let Some(dir) = &env.creds_dir {
        return join_path(dir.as_str(), "authorized_keys");
    }
    if env.is_root {
        return "/etc/varlink-httpd/authorized_keys".to_owned();
    }
    let config_dir = match &env.config_home {
        Some(dir) => dir.clone(),
        None => match &env.home {
            Some(home) => join_path(home.as_str(), ".config"),
            None => join_path("/root", ".config"),
        },
    };
    join_path(config_dir.as_str(), "varlink-httpd/authorized_keys")
}

/// The keys at `url` have to be fetched; they are for the file `output`.
#[derive(Debug)]
pub struct ImportFetch {
    pub url: String,
    pub output: String,
}

/// `body` has to be put into a temporary file in `dir`, which may have to be
/// created.
#[derive(Debug)]
pub struct ImportStage {
    pub url: String,
    pub output: String,
    pub dir: String,
    pub body: String,
}

/// The temporary file has to be read as a list of keys.
#[derive(Debug)]
pub struct ImportValidate {
    pub url: String,
    pub output: String,
}

/// The temporary file lists some keys and has to take the place of `output`.
#[derive(Debug)]
pub struct ImportCommit {
    pub output: String,
    pub key_count: usize,
}

/// What fetching the keys gave. A failure has its text.
#[derive(Debug)]
pub enum Fetched {
    CallFailed(String),
    BodyFailed(String),
    Body(String),
}

/// What putting the keys into a temporary file gave. A failure has its text.
#[derive(Debug)]
pub enum Staged {
    DirFailed(String),
    CreateFailed(String),
    WriteFailed(String),
    Written,
}

/// Begins an import.
pub fn run(cmd: ImportSsh, env: &ImportEnv) -> (fetch: Result<ImportFetch, String>)
    ensures
        match key_url(cmd.source@) {
            Some(url) => fetch matches Ok(f) && f.url@ == url && f.output@ == match cmd.output {
                Some(output) => output@,
                None => default_output(
                    opt_text(env.creds_dir),
                    env.is_root,
                    opt_text(env.config_home),
                    opt_text(env.home),
                ),
            },
            None => fetch matches Err(error) && error@ == "unsupported source: "@ + cmd.source@
                + " (use `gh:<user>` or an `https://` URL)"@,
        },
{
    let url = match resolve_key_url(cmd.source.as_str()) {
        Ok(url) => url,
        Err(error) => return Err(error),
    };
    let output = match cmd.output {
        Some(output) => output,
        None => default_authorized_keys_path(env),
    };
    Ok(ImportFetch { url, output })
}

/// What follows when the keys were fetched and the directory of the output is
/// `parent`.
pub open spec fn is_stage(
    fetch: ImportFetch,
    body: Seq<char>,
    parent: Option<Seq<char>>,
    stage: Result<ImportStage, String>,
) -> bool {
    match parent {
        Some(dir) => stage matches Ok(s) && s.url == fetch.url && s.output == fetch.output && s.dir@
            == dir && s.body@ == body,
        None => stage matches Err(error) && error@ == "cannot determine parent directory of "@
            + fetch.output@,
    }
}

impl ImportFetch {
    /// Goes on with what was fetched.
    pub fn fetched(self, fetched: Fetched) -> (stage: Result<ImportStage, String>)
        ensures
            match fetched {
                Fetched::CallFailed(cause) => stage matches Err(error) && error@ == caused_by(
                    "failed to fetch keys from "@ + self.url@,
                    cause@,
                ),
                Fetched::BodyFailed(cause) => stage matches Err(error) && error@ == caused_by(
                    "failed to read response body from "@ + self.url@,
                    cause@,
                ),
                Fetched::Body(body) => is_stage(self, body@, parent_of(self.output@), stage),
            },
            stage matches Ok(next) ==> (fetched matches Fetched::Body(body) && next.body@ == body@),
    {
        match fetched {
            Fetched::CallFailed(cause) => {
                let context = chain("failed to fetch keys from ", self.url.as_str());
                Err(with_cause(context.as_str(), cause.as_str()))
            },
            Fetched::BodyFailed(cause) => {
                let context = chain("failed to read response body from ", self.url.as_str());
                Err(with_cause(context.as_str(), cause.as_str()))
            },
            Fetched::Body(body) => {
                let parent = path_parent(self.output.as_str());
                self.stage_in(body, parent)
            },
        }
    }

    /// Goes on with the directory of the output.
    pub fn stage_in(self, body: String, parent: Option<String>) -> (stage: Result<
        ImportStage,
        String,
    >)
        ensures
            is_stage(self, body@, opt_text(parent), stage),
            stage is Ok <==> parent is Some,
            stage matches Ok(next) ==> next.body == body && next.url == self.url && next.output
                == self.output && Some(next.dir) == parent,
    {
        match parent {
            Some(dir) => Ok(ImportStage { url: self.url, output: self.output, dir, body }),
            None => Err(
                chain("cannot determine parent directory of ", self.output.as_str()),
            ),
        }
    }
}

impl ImportStage {
    /// Goes on when the keys are in a temporary file.
    pub fn staged(self, staged: Staged) -> (validate: Result<ImportValidate, String>)
        ensures
            match staged {
                Staged::Written => validate == Ok::<ImportValidate, String>(
                    (ImportValidate { url: self.url, output: self.output }),
                ),
                Staged::DirFailed(cause) => validate matches Err(error) && error@ == caused_by(
                    "failed to create directory "@ + self.dir@,
                    cause@,
                ),
                Staged::CreateFailed(cause) => validate matches Err(error) && error@ == caused_by(
                    "failed to create tempfile in "@ + self.dir@,
                    cause@,
                ),
                Staged::WriteFailed(cause) => validate matches Err(error) && error@ == caused_by(
                    "failed to write tempfile in "@ + self.dir@,
                    cause@,
                ),
            },
    {
        match staged {
            Staged::Written => Ok(ImportValidate { url: self.url, output: self.output }),
            Staged::DirFailed(cause) => {
                let context = chain("failed to create directory ", self.dir.as_str());
                Err(with_cause(context.as_str(), cause.as_str()))
            },
            Staged::CreateFailed(cause) => {
                let context = chain("failed to create tempfile in ", self.dir.as_str());
                Err(with_cause(context.as_str(), cause.as_str()))
            },
            Staged::WriteFailed(cause) => {
                let context = chain("failed to write tempfile in ", self.dir.as_str());
                Err(with_cause(context.as_str(), cause.as_str()))
            },
        }
    }
}

impl ImportValidate {
    /// Goes on with the number of keys that the temporary file lists. Without any
    /// it does not replace the keys that are there: a wrong address would lock out
    /// all users.
    pub fn validated(self, keys: Result<usize, String>) -> (commit: Result<ImportCommit, String>)
        ensures
            match keys {
                Err(cause) => commit matches Err(error) && error@ == caused_by(
                    "response from "@ + self.url@ + " contains invalid SSH public keys"@,
                    cause@,
                ),
                Ok(count) => if count == 0 {
                    commit matches Err(error) && error@
                        == "no valid SSH public keys found in response from "@ + self.url@
                } else {
                    commit == Ok::<ImportCommit, String>(
                        (ImportCommit { output: self.output, key_count: count }),
                    )
                },
            },
    {
        match keys {
            Err(cause) => {
                let start = chain("response from ", self.url.as_str());
                let context = chain(start.as_str(), " contains invalid SSH public keys");
                Err(with_cause(context.as_str(), cause.as_str()))
            },
            Ok(count) => if count == 0 {
                Err(
                    chain(
                        "no valid SSH public keys found in response from ",
                        self.url.as_str(),
                    ),
                )
            } else {
                Ok(ImportCommit { output: self.output, key_count: count })
            },
        }
    }
}

/// What is said when the keys are in place: how many there are, and how to run the
/// server with them.
pub open spec fn report(count: nat, output: Seq<char>, has_creds_dir: bool) -> Seq<Seq<char>> {
    seq![
        "Wrote "@ + decimal(count) + " key(s) to "@ + output + ", run with:"@,
        if has_creds_dir {
            "  varlink-httpd"@
        } else {
            "  varlink-httpd --authorized-keys="@ + output
        },
    ]
}

impl ImportCommit {
    /// Goes on when the temporary file has taken the place of the output.
    pub fn committed(self, renamed: Result<(), String>, has_creds_dir: bool) -> (lines: Result<
        Vec<String>,
        String,
    >)
        ensures
            match renamed {
                Err(cause) => lines matches Err(error) && error@ == caused_by(
                    "failed to rename tempfile to "@ + self.output@,
                    cause@,
                ),
                Ok(()) => lines matches Ok(list) && texts(list@) == report(
                    self.key_count as nat,
                    self.output@,
                    has_creds_dir,
                ),
            },
    {
        match renamed {
            Err(cause) => {
                let context = chain("failed to rename tempfile to ", self.output.as_str());
                Err(with_cause(context.as_str(), cause.as_str()))
            },
            Ok(()) => {
                let mut wrote = "Wrote ".to_owned();
                wrote.append(decimal_text(self.key_count as u64).as_str());
                wrote.append(" key(s) to ");
                wrote.append(self.output.as_str());
                wrote.append(", run with:");
                let hint = if has_creds_dir {
                    "  varlink-httpd".to_owned()
                } else {
                    chain("  varlink-httpd --authorized-keys=", self.output.as_str())
                };
                let mut lines: Vec<String> = Vec::new();
                lines.push(wrote);
                lines.push(hint);
                assert(texts(lines@) == report(
                    self.key_count as nat,
                    self.output@,
                    has_creds_dir,
                ));
                Ok(lines)
            },
        }
    }
}

/// A source that names a GitHub user stands for the address of that user's keys, any
/// address that starts with "https://" for itself, and nothing else is a source.
pub proof fn sources_are_users_or_addresses(user: Seq<char>, rest: Seq<char>, other: Seq<char>)
    requires
        !"gh:"@.is_prefix_of(other),
        !"https://"@.is_prefix_of(other),
    ensures
        key_url("gh:"@ + user) == Some("https://github.com/"@ + user + ".keys"@),
        key_url("https://"@ + rest) == Some("https://"@ + rest),
        key_url(other) is None,
{
    reveal_strlit("gh:");
    reveal_strlit("https://");
    let named = "gh:"@ + user;
    let given = "https://"@ + rest;
    assert(named.take(3) == "gh:"@);
    assert(named.skip(3) == user);
    assert(given.take(8) == "https://"@);
    assert(!"gh:"@.is_prefix_of(given)) by {
        assert(given[0] == 'h');
        if "gh:"@.is_prefix_of(given) {
            assert(given.take(3)[0] == given[0]);
        }
    }
}

/// Keys are only ever fetched over HTTPS, whatever the source is.
pub proof fn keys_are_fetched_over_https(source: &str, url: Result<String, String>)
    requires
        call_ensures(resolve_key_url, (source,), url),
    ensures
        url matches Ok(address) ==> "https://"@.is_prefix_of(address@),
        url is Ok <==> "gh:"@.is_prefix_of(source@) || "https://"@.is_prefix_of(source@),
        url matches Err(error) ==> error@ == "unsupported source: "@ + source@
            + " (use `gh:<user>` or an `https://` URL)"@,
{
    reveal_strlit("https://");
    reveal_strlit("https://github.com/");
    reveal_strlit(".keys");
    if let Ok(address) = url {
        assert(address@.take(8) == "https://"@);
    }
}

/// Where keys go without a file that is given: the credentials directory goes before all
/// else, root's keys go to the system's configuration, and all others to a directory of
/// the user, for which a configured one goes before the home.
pub proof fn outputs_have_their_order(
    creds_dir: Seq<char>,
    is_root: bool,
    config_home: Option<Seq<char>>,
    home: Option<Seq<char>>,
    dir: Seq<char>,
)
    ensures
        default_output(Some(creds_dir), is_root, config_home, home) == path_join(
            creds_dir,
            "authorized_keys"@,
        ),
        default_output(None, true, config_home, home) == "/etc/varlink-httpd/authorized_keys"@,
        default_output(None, false, Some(dir), home) == path_join(
            dir,
            "varlink-httpd/authorized_keys"@,
        ),
        default_output(None, false, None, Some(dir)) == default_output(
            None,
            false,
            Some(path_join(dir, ".config"@)),
            home,
        ),
        default_output(None, false, None, None) == default_output(
            None,
            false,
            None,
            Some("/root"@),
        ),
{
}

/// An import fetches the keys of its source for the file that is given, and for the usual
/// one only where none is.
pub proof fn imports_go_where_they_are_told(
    cmd: ImportSsh,
    env: &ImportEnv,
    fetch: Result<ImportFetch, String>,
)
    requires
        call_ensures(run, (cmd, env), fetch),
    ensures
        fetch is Ok <==> key_url(cmd.source@) is Some,
        fetch matches Ok(next) ==> Some(next.url@) == key_url(cmd.source@),
        fetch matches Ok(next) ==> (cmd.output matches Some(output) ==> next.output@ == output@),
        fetch matches Ok(next) ==> (cmd.output is None ==> next.output@ == default_output(
            opt_text(env.creds_dir),
            env.is_root,
            opt_text(env.config_home),
            opt_text(env.home),
        )),
        fetch matches Err(error) ==> error@ == "unsupported source: "@ + cmd.source@
            + " (use `gh:<user>` or an `https://` URL)"@,
{
}

/// What is put into the temporary file is what was fetched, character for character, and
/// it goes with the same address to the same output.
pub proof fn what_is_fetched_is_staged(
    fetch: ImportFetch,
    fetched: Fetched,
    stage: Result<ImportStage, String>,
)
    requires
        call_ensures(ImportFetch::fetched, (fetch, fetched), stage),
    ensures
        stage is Ok <==> fetched is Body && parent_of(fetch.output@) is Some,
        stage matches Ok(next) ==> {
            &&& fetched matches Fetched::Body(body) && next.body@.len() == body@.len() && forall|
                i: int,
            |
                0 <= i < body@.len() ==> #[trigger] next.body@[i] == body@[i]
            &&& next.url@ == fetch.url@
            &&& next.output@ == fetch.output@
            &&& Some(next.dir@) == parent_of(fetch.output@)
        },
        fetched matches Fetched::CallFailed(cause) ==> (stage matches Err(error) && error@
            == "failed to fetch keys from "@ + fetch.url@ + ": "@ + cause@),
        fetched matches Fetched::BodyFailed(cause) ==> (stage matches Err(error) && error@
            == "failed to read response body from "@ + fetch.url@ + ": "@ + cause@),
        fetched is Body ==> (stage matches Err(error) ==> error@
            == "cannot determine parent directory of "@ + fetch.output@),
{
}

/// Where the directory of the output is known, the body is staged there as it is, whatever
/// it holds, and the address and the output stay what they are.
pub proof fn bodies_are_staged_as_they_are(
    fetch: ImportFetch,
    body: String,
    parent: Option<String>,
    stage: Result<ImportStage, String>,
)
    requires
        call_ensures(ImportFetch::stage_in, (fetch, body, parent), stage),
    ensures
        stage is Ok <==> parent is Some,
        stage matches Ok(next) ==> {
            &&& next.body@.len() == body@.len()
            &&& forall|i: int| 0 <= i < body@.len() ==> #[trigger] next.body@[i] == body@[i]
            &&& next.url@ == fetch.url@
            &&& next.output@ == fetch.output@
            &&& parent matches Some(dir) && next.dir@ == dir@
        },
        stage matches Err(error) ==> error@ == "cannot determine parent directory of "@
            + fetch.output@,
{
}

/// The body of a stage says all of the body that was fetched: two bodies that are staged
/// alike are the same.
pub proof fn stages_tell_bodies_apart(
    fetch: ImportFetch,
    body: Seq<char>,
    other_body: Seq<char>,
    parent: Option<Seq<char>>,
    stage: ImportStage,
)
    requires
        is_stage(fetch, body, parent, Ok(stage)),
    ensures
        stage.body@ == body,
        is_stage(fetch, other_body, parent, Ok(stage)) ==> body == other_body,
{
}

/// The temporary file is looked at exactly when it was written, for the same output.
pub proof fn only_written_files_are_looked_at(
    stage: ImportStage,
    staged: Staged,
    validate: Result<ImportValidate, String>,
)
    requires
        call_ensures(ImportStage::staged, (stage, staged), validate),
    ensures
        validate is Ok <==> staged is Written,
        validate matches Ok(next) ==> next.url@ == stage.url@ && next.output@ == stage.output@,
        staged matches Staged::DirFailed(cause) ==> (validate matches Err(error) && error@
            == "failed to create directory "@ + stage.dir@ + ": "@ + cause@),
        staged matches Staged::CreateFailed(cause) ==> (validate matches Err(error) && error@
            == "failed to create tempfile in "@ + stage.dir@ + ": "@ + cause@),
        staged matches Staged::WriteFailed(cause) ==> (validate matches Err(error) && error@
            == "failed to write tempfile in "@ + stage.dir@ + ": "@ + cause@),
{
}

/// The keys that are there are only replaced by a file that lists at least one key, and
/// the number of its keys is kept.
pub proof fn an_empty_list_replaces_nothing(
    validate: ImportValidate,
    keys: Result<usize, String>,
    commit: Result<ImportCommit, String>,
)
    requires
        call_ensures(ImportValidate::validated, (validate, keys), commit),
    ensures
        commit is Ok <==> (keys matches Ok(count) && count > 0),
        commit matches Ok(next) ==> next.output@ == validate.output@ && keys == Ok::<usize, String>(
            next.key_count,
        ),
        keys matches Ok(count) ==> (commit matches Err(error) ==> error@
            == "no valid SSH public keys found in response from "@ + validate.url@),
        keys matches Err(cause) ==> (commit matches Err(error) && error@ == "response from "@
            + validate.url@ + " contains invalid SSH public keys"@ + ": "@ + cause@),
{
}

/// Once the keys are in place two lines say so: how many keys went where, and how to run
/// the server, which has to be told of the file unless it is among its credentials.
pub proof fn imports_are_reported(
    commit: ImportCommit,
    renamed: Result<(), String>,
    has_creds_dir: bool,
    lines: Result<Vec<String>, String>,
)
    requires
        call_ensures(ImportCommit::committed, (commit, renamed, has_creds_dir), lines),
    ensures
        lines is Ok <==> renamed is Ok,
        lines matches Ok(list) ==> {
            &&& list@.len() == 2
            &&& list@[0]@ == "Wrote "@ + decimal(commit.key_count as nat) + " key(s) to "@
                + commit.output@ + ", run with:"@
            &&& has_creds_dir ==> list@[1]@ == "  varlink-httpd"@
            &&& !has_creds_dir ==> list@[1]@ == "  varlink-httpd --authorized-keys="@
                + commit.output@
        },
        renamed matches Err(cause) ==> (lines matches Err(error) && error@
            == "failed to rename tempfile to "@ + commit.output@ + ": "@ + cause@),
{
    if let Ok(list) = lines {
        let told = texts(list@);
        assert(told.len() == 2);
        assert(told[0] == list@[0]@ && told[1] == list@[1]@);
    }
}

/// A list of keys may have 640 KiB.
pub proof fn key_lists_are_limited()
    ensures
        MAX_KEYS_BODY == 640 * 1024,
{
}

} // verus!
