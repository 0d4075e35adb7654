//! Choosing the key that a client signs its requests with.
//!
//! `VARLINK_SSH_KEY` names a key file and `SSH_AUTH_SOCK` the ssh-agent. A private
//! key on disk signs directly; where there is only its public key, or the key
//! lives in a hardware token, the agent signs; without a key file the agent's
//! first supported key does. Each step says what has to be read next and goes on
//! with what was read.

use crate::ssh_keys::{
    algorithms_are_known_by_name, decode_private_key, decode_public_key, decode_public_keys,
    ensure_supported_algorithm, is_agent_only, is_rsa, is_usable, key_result, key_results,
    private_key_of, public_key_of, public_keys_of, requires_agent, rsa_error, KeyInfo,
};
use crate::text::{
    before_suffix, caused_by, chain, same_text, strip_suffix, trim, trimmed, with_cause,
};
use vstd::prelude::*;

verus! {

/// What reading a text file gave. A failure has its text.
#[derive(Debug)]
pub enum FileRead {
    Missing(String),
    Failed(String),
    Text(String),
}

/// What comes next in the search for a key.
#[derive(Debug)]
pub enum SignerStep {
    /// There is nothing to sign with.
    NoCredentials,
    /// The private key file has to be read.
    ReadPrivateKey(KeyFileStep),
    /// The public key file has to be read.
    ReadPublicKey(KeyFileStep),
    /// The agent has to be asked for its keys.
    ListAgentKeys(AgentStep),
    /// The key is found.
    Sign(SigningKey),
}

/// The search while a key file is read: the path that was given, and the agent's
/// socket where there is one.
#[derive(Debug)]
pub struct KeyFileStep {
    pub key_path: String,
    pub auth_sock: Option<String>,
}

/// The search while the agent lists its keys. `wanted` is the key to look for;
/// without it the first supported one is taken.
#[derive(Debug)]
pub struct AgentStep {
    pub auth_sock: String,
    pub wanted: Option<WantedKey>,
}

/// A public key that the agent should hold.
#[derive(Debug)]
pub struct WantedKey {
    pub openssh: String,
    pub info: KeyInfo,
    pub source: String,
}

/// A key to sign with, and where it came from.
#[derive(Debug)]
pub enum SigningKey {
    /// A private key, as its file holds it.
    Private { pem: String, info: KeyInfo, source: String },
    /// A public key whose private key the agent at `auth_sock` holds.
    Agent { auth_sock: String, openssh: String, info: KeyInfo, source: String },
}

/// The private key file that belongs to a key path.
pub open spec fn private_key_path(key_path: Seq<char>) -> Seq<char> {
    match before_suffix(key_path, ".pub"@) {
        Some(path) => path,
        None => key_path,
    }
}

/// The public key file that belongs to a key path.
pub open spec fn public_key_path(key_path: Seq<char>) -> Seq<char> {
    match before_suffix(key_path, ".pub"@) {
        Some(_) => key_path,
        None => key_path + ".pub"@,
    }
}

/// Both key files of a path are the same whether it names one or the other.
pub proof fn key_paths_agree(key_path: Seq<char>)
    requires
        before_suffix(key_path, ".pub"@) is None,
    ensures
        private_key_path(key_path + ".pub"@) == private_key_path(key_path),
        public_key_path(key_path + ".pub"@) == public_key_path(key_path),
{
    let path = key_path + ".pub"@;
    assert(".pub"@.is_suffix_of(path));
    assert(path.take(path.len() - ".pub"@.len()) == key_path);
}

/// Starts the search.
pub fn begin_signer(key_path: Option<String>, auth_sock: Option<String>) -> (step: SignerStep)
    ensures
        match key_path {
            Some(key_path) => step == SignerStep::ReadPrivateKey(
                (KeyFileStep { key_path, auth_sock }),
            ),
            None => match auth_sock {
                Some(auth_sock) => step == SignerStep::ListAgentKeys(
                    (AgentStep { auth_sock, wanted: None }),
                ),
                None => step == SignerStep::NoCredentials,
            },
        },
{
    match key_path {
        Some(key_path) => SignerStep::ReadPrivateKey(KeyFileStep { key_path, auth_sock }),
        None => match auth_sock {
            Some(auth_sock) => SignerStep::ListAgentKeys(AgentStep { auth_sock, wanted: None }),
            None => SignerStep::NoCredentials,
        },
    }
}

/// What becomes of the search once the private key was decoded to `key`.
pub open spec fn private_key_outcome(
    step: KeyFileStep,
    pem: Seq<char>,
    key: Result<(Seq<char>, Seq<char>), Seq<char>>,
    outcome: Result<SignerStep, String>,
) -> bool {
    match key {
        Err(cause) => outcome matches Err(error) && error@ == caused_by(
            "parsing private key from "@ + private_key_path(step.key_path@),
            cause,
        ),
        Ok((algorithm, _)) if is_rsa(algorithm) => outcome matches Err(error) && error@
            == rsa_error(step.key_path@),
        Ok((algorithm, _)) if is_agent_only(algorithm) => outcome == Ok::<SignerStep, String>(
            SignerStep::ReadPublicKey(step),
        ),
        Ok(expected) => outcome matches Ok(
            SignerStep::Sign(SigningKey::Private { pem: kept, info, source }),
        ) && kept@ == pem && info@ == expected && source == step.key_path,
    }
}

/// What becomes of the search once the public key was decoded to `key`.
pub open spec fn public_key_outcome(
    step: KeyFileStep,
    openssh: Seq<char>,
    key: Result<(Seq<char>, Seq<char>), Seq<char>>,
    outcome: Result<SignerStep, String>,
) -> bool {
    match key {
        Err(cause) => outcome matches Err(error) && error@ == caused_by(
            "parsing public key from "@ + public_key_path(step.key_path@),
            cause,
        ),
        Ok((algorithm, _)) if is_rsa(algorithm) => outcome matches Err(error) && error@
            == rsa_error(step.key_path@),
        Ok(expected) => match step.auth_sock {
            None => outcome matches Err(error) && error@
                == "VARLINK_SSH_KEY requires agent-based signing (hardware token or public key only); set SSH_AUTH_SOCK"@,
            Some(auth_sock) => outcome matches Ok(SignerStep::ListAgentKeys(next))
                && next.auth_sock == auth_sock && (next.wanted matches Some(wanted)
                && wanted.openssh@ == openssh && wanted.info@ == expected && wanted.source
                == step.key_path),
        },
    }
}

impl KeyFileStep {
    /// The private key file to read.
    pub fn private_key_file(&self) -> (path: String)
        ensures
            path@ == private_key_path(self.key_path@),
    {
        match strip_suffix(self.key_path.as_str(), ".pub") {
            Some(path) => path,
            None => self.key_path.clone(),
        }
    }

    /// The public key file to read.
    pub fn public_key_file(&self) -> (path: String)
        ensures
            path@ == public_key_path(self.key_path@),
    {
        match strip_suffix(self.key_path.as_str(), ".pub") {
            Some(_) => self.key_path.clone(),
            None => chain(self.key_path.as_str(), ".pub"),
        }
    }

    /// Goes on with what the private key file holds. Without the file, and for a
    /// key in a hardware token, the public key file is next.
    pub fn read_private_key(self, read: FileRead) -> (outcome: Result<SignerStep, String>)
        ensures
            match read {
                FileRead::Missing(_) => outcome == Ok::<SignerStep, String>(
                    SignerStep::ReadPublicKey(self),
                ),
                FileRead::Failed(cause) => outcome matches Err(error) && error@ == caused_by(
                    "reading private key from "@ + private_key_path(self.key_path@),
                    cause@,
                ),
                FileRead::Text(pem) => private_key_outcome(
                    self,
                    trimmed(pem@),
                    private_key_of(trimmed(pem@)),
                    outcome,
                ),
            },
    {
        match read {
            FileRead::Missing(_) => Ok(SignerStep::ReadPublicKey(self)),
            FileRead::Failed(cause) => {
                let context = chain(
                    "reading private key from ",
                    self.private_key_file().as_str(),
                );
                Err(with_cause(context.as_str(), cause.as_str()))
            },
            FileRead::Text(pem) => {
                let pem = trim(pem.as_str());
                let key = decode_private_key(pem.as_str());
                self.use_private_key(pem, key)
            },
        }
    }

    /// Goes on with the private key that was decoded.
    pub fn use_private_key(self, pem: String, key: Result<KeyInfo, String>) -> (outcome: Result<
        SignerStep,
        String,
    >)
        ensures
            private_key_outcome(self, pem@, key_result(key), outcome),
    {
        match key {
            Err(cause) => {
                let context = chain(
                    "parsing private key from ",
                    self.private_key_file().as_str(),
                );
                Err(with_cause(context.as_str(), cause.as_str()))
            },
            Ok(info) => {
                match ensure_supported_algorithm(info.algorithm.as_str(), self.key_path.as_str()) {
                    Err(error) => return Err(error),
                    Ok(()) => {},
                }
                if requires_agent(info.algorithm.as_str()) {
                    Ok(SignerStep::ReadPublicKey(self))
                } else {
                    Ok(SignerStep::Sign(SigningKey::Private { pem, info, source: self.key_path }))
                }
            },
        }
    }

    /// Goes on with what the public key file holds: the agent has to hold that
    /// key.
    pub fn read_public_key(self, read: FileRead) -> (outcome: Result<SignerStep, String>)
        ensures
            match read {
                FileRead::Missing(cause) | FileRead::Failed(cause) => outcome matches Err(error)
                    && error@ == caused_by(
                    "reading public key from "@ + public_key_path(self.key_path@),
                    cause@,
                ),
                FileRead::Text(data) => public_key_outcome(
                    self,
                    trimmed(data@),
                    public_key_of(trimmed(data@)),
                    outcome,
                ),
            },
    {
        match read {
            FileRead::Missing(cause) | FileRead::Failed(cause) => {
                let context = chain("reading public key from ", self.public_key_file().as_str());
                Err(with_cause(context.as_str(), cause.as_str()))
            },
            FileRead::Text(data) => {
                let openssh = trim(data.as_str());
                let key = decode_public_key(openssh.as_str());
                self.use_public_key(openssh, key)
            },
        }
    }

    /// Goes on with the public key that was decoded.
    pub fn use_public_key(self, openssh: String, key: Result<KeyInfo, String>) -> (outcome: Result<
        SignerStep,
        String,
    >)
        ensures
            public_key_outcome(self, openssh@, key_result(key), outcome),
    {
        match key {
            Err(cause) => {
                let context = chain("parsing public key from ", self.public_key_file().as_str());
                Err(with_cause(context.as_str(), cause.as_str()))
            },
            Ok(info) => {
                match ensure_supported_algorithm(info.algorithm.as_str(), self.key_path.as_str()) {
                    Err(error) => return Err(error),
                    Ok(()) => {},
                }
                match self.auth_sock {
                    None => Err(
                        "VARLINK_SSH_KEY requires agent-based signing (hardware token or public key only); set SSH_AUTH_SOCK".to_owned(),
                    ),
                    Some(auth_sock) => Ok(
                        SignerStep::ListAgentKeys(
                            AgentStep {
                                auth_sock,
                                wanted: Some(WantedKey { openssh, info, source: self.key_path }),
                            },
                        ),
                    ),
                }
            },
        }
    }
}

/// Whether the key at `at` is the first usable one.
pub open spec fn is_first_usable(
    keys: Seq<Result<(Seq<char>, Seq<char>), Seq<char>>>,
    at: int,
) -> bool {
    &&& 0 <= at < keys.len()
    &&& is_usable(keys[at])
    &&& forall|i: int| 0 <= i < at ==> !is_usable(#[trigger] keys[i])
}

/// Whether some key has the fingerprint.
pub open spec fn has_fingerprint(
    keys: Seq<Result<(Seq<char>, Seq<char>), Seq<char>>>,
    fingerprint: Seq<char>,
) -> bool {
    exists|i: int|
        0 <= i < keys.len() && ((#[trigger] keys[i]) matches Ok((_, found)) && found
            == fingerprint)
}

/// The place of the first key that is supported; RSA keys are passed over.
pub fn read_agent_key(keys: &Vec<Result<KeyInfo, String>>) -> (found: Result<usize, String>)
    ensures
        match found {
            Ok(at) => is_first_usable(key_results(keys@), at as int),
            Err(error) => error@ == "no supported key in ssh-agent"@ && forall|i: int|
                0 <= i < keys@.len() ==> !is_usable(#[trigger] key_results(keys@)[i]),
        },
{
    let mut i: usize = 0;
    while i < keys.len()
        invariant
            i <= keys@.len(),
            forall|j: int| 0 <= j < i ==> !is_usable(#[trigger] key_results(keys@)[j]),
        decreases keys@.len() - i,
    {
        assert(key_results(keys@)[i as int] == key_result(keys@[i as int]));
        if let Ok(info) = &keys[i] {
            if ensure_supported_algorithm(info.algorithm.as_str(), "ssh-agent key").is_ok() {
                return Ok(i);
            }
        }
        i = i + 1;
    }
    Err("no supported key in ssh-agent".to_owned())
}

/// Whether some key has the fingerprint.
fn holds_fingerprint(keys: &Vec<Result<KeyInfo, String>>, fingerprint: &str) -> (held: bool)
    ensures
        held == has_fingerprint(key_results(keys@), fingerprint@),
{
    let mut i: usize = 0;
    while i < keys.len()
        invariant
            i <= keys@.len(),
            forall|j: int|
                0 <= j < i ==> !((#[trigger] key_results(keys@)[j]) matches Ok((_, found)) && found
                    == fingerprint@),
        decreases keys@.len() - i,
    {
        assert(key_results(keys@)[i as int] == key_result(keys@[i as int]));
        if let Ok(info) = &keys[i] {
            if same_text(info.fingerprint.as_str(), fingerprint) {
                return true;
            }
        }
        i = i + 1;
    }
    false
}

/// What becomes of the search once the agent's keys were decoded to `keys`.
pub open spec fn agent_outcome(
    step: AgentStep,
    listed: Seq<String>,
    keys: Seq<Result<(Seq<char>, Seq<char>), Seq<char>>>,
    outcome: Result<SigningKey, String>,
) -> bool {
    match step.wanted {
        Some(wanted) => if has_fingerprint(keys, wanted.info.fingerprint@) {
            outcome == Ok::<SigningKey, String>(
                SigningKey::Agent {
                    auth_sock: step.auth_sock,
                    openssh: wanted.openssh,
                    info: wanted.info,
                    source: wanted.source,
                },
            )
        } else {
            outcome matches Err(error) && error@ == "VARLINK_SSH_KEY key "@
                + wanted.info.fingerprint@
                + " not found in ssh-agent; add it with ssh-add or provide the private key"@
        },
        None => match outcome {
            Ok(SigningKey::Agent { auth_sock, openssh, info, source }) => exists|at: int| #[trigger]
                is_first_usable(keys, at) && openssh@ == listed[at]@ && keys[at] == Ok::<
                    (Seq<char>, Seq<char>),
                    Seq<char>,
                >(info@) && auth_sock == step.auth_sock && source@ == step.auth_sock@,
            Ok(SigningKey::Private { .. }) => false,
            Err(error) => error@ == "no supported key in ssh-agent"@ && forall|i: int|
                0 <= i < keys.len() ==> !is_usable(#[trigger] keys[i]),
        },
    }
}

impl AgentStep {
    /// Goes on with the keys that the agent lists.
    pub fn list_keys(self, listing: Result<Vec<String>, String>) -> (outcome: Result<
        SigningKey,
        String,
    >)
        ensures
            match listing {
                Ok(listed) => agent_outcome(self, listed@, public_keys_of(listed@), outcome),
                Err(cause) => outcome matches Err(error) && error@ == caused_by(
                    "listing ssh-agent keys"@,
                    cause@,
                ),
            },
    {
        match listing {
            Err(cause) => Err(with_cause("listing ssh-agent keys", cause.as_str())),
            Ok(listed) => {
                let keys = decode_public_keys(&listed);
                self.use_agent_keys(listed, keys)
            },
        }
    }

    /// Goes on with the agent's keys, decoded one for one.
    pub fn use_agent_keys(
        self,
        listed: Vec<String>,
        keys: Vec<Result<KeyInfo, String>>,
    ) -> (outcome: Result<SigningKey, String>)
        requires
            listed@.len() == keys@.len(),
        ensures
            agent_outcome(self, listed@, key_results(keys@), outcome),
    {
        match self.wanted {
            Some(wanted) => {
                if holds_fingerprint(&keys, wanted.info.fingerprint.as_str()) {
                    Ok(
                        SigningKey::Agent {
                            auth_sock: self.auth_sock,
                            openssh: wanted.openssh,
                            info: wanted.info,
                            source: wanted.source,
                        },
                    )
                } else {
                    let start = chain(
                        "VARLINK_SSH_KEY key ",
                        wanted.info.fingerprint.as_str(),
                    );
                    Err(
                        chain(
                            start.as_str(),
                            " not found in ssh-agent; add it with ssh-add or provide the private key",
                        ),
                    )
                }
            },
            None => match read_agent_key(&keys) {
                Err(error) => Err(error),
                Ok(at) => {
                    assert(key_results(keys@)[at as int] == key_result(keys@[at as int]));
                    match &keys[at] {
                        Ok(info) => {
                            let info = KeyInfo {
                                algorithm: info.algorithm.clone(),
                                fingerprint: info.fingerprint.clone(),
                            };
                            Ok(
                                SigningKey::Agent {
                                    openssh: listed[at].clone(),
                                    info,
                                    source: self.auth_sock.clone(),
                                    auth_sock: self.auth_sock,
                                },
                            )
                        },
                        Err(_) => Err("no supported key in ssh-agent".to_owned()),
                    }
                },
            },
        }
    }
}

/// A private key that signs is neither an RSA key nor one of a hardware token.
pub proof fn private_keys_that_sign_are_supported(
    step: KeyFileStep,
    pem: Seq<char>,
    key: Result<(Seq<char>, Seq<char>), Seq<char>>,
    outcome: Result<SignerStep, String>,
)
    requires
        private_key_outcome(step, pem, key, outcome),
        outcome matches Ok(SignerStep::Sign(_)),
    ensures
        outcome matches Ok(SignerStep::Sign(SigningKey::Private { info, .. })) && !is_rsa(
            info.algorithm@,
        ) && !is_agent_only(info.algorithm@),
{
}

/// A key that the agent signs with is no RSA key, whether it was given by its
/// public key file or taken from the agent's list. The agent holds it.
pub proof fn agent_keys_that_sign_are_supported(
    file: KeyFileStep,
    openssh: Seq<char>,
    key: Result<(Seq<char>, Seq<char>), Seq<char>>,
    step: AgentStep,
    listed: Seq<String>,
    keys: Seq<Result<(Seq<char>, Seq<char>), Seq<char>>>,
    outcome: Result<SigningKey, String>,
)
    requires
        step.wanted is None || public_key_outcome(
            file,
            openssh,
            key,
            Ok(SignerStep::ListAgentKeys(step)),
        ),
        agent_outcome(step, listed, keys, outcome),
        outcome is Ok,
    ensures
        outcome matches Ok(SigningKey::Agent { info, .. }) && !is_rsa(info.algorithm@)
            && has_fingerprint(keys, info.fingerprint@),
{
    if step.wanted is None {
        match outcome {
            Ok(SigningKey::Agent { auth_sock, openssh, info, source }) => {
                let at = choose|at: int| #[trigger]
                    is_first_usable(keys, at) && openssh@ == listed[at]@ && keys[at] == Ok::<
                        (Seq<char>, Seq<char>),
                        Seq<char>,
                    >(info@) && auth_sock == step.auth_sock && source@ == step.auth_sock@;
                assert(keys[at] == Ok::<(Seq<char>, Seq<char>), Seq<char>>(info@));
            },
            _ => {},
        }
    }
}

/// The two key files of a path differ in their ending only: the public key's has ".pub"
/// behind the private key's, and the path that was given is one of the two.
pub proof fn key_paths_differ_in_their_ending(key_path: Seq<char>)
    ensures
        public_key_path(key_path) == private_key_path(key_path) + ".pub"@,
        key_path == private_key_path(key_path) || key_path == public_key_path(key_path),
        !".pub"@.is_suffix_of(key_path) ==> private_key_path(key_path) == key_path,
        ".pub"@.is_suffix_of(key_path) ==> public_key_path(key_path) == key_path,
{
    if ".pub"@.is_suffix_of(key_path) {
        let at = key_path.len() - ".pub"@.len();
        assert(key_path == key_path.take(at) + key_path.skip(at));
    }
}

/// A key file that is given is read first, whether there is an agent or not. Without one
/// the agent is asked for any key, and without both there is nothing to sign with.
pub proof fn a_key_file_comes_first(
    key_path: Option<String>,
    auth_sock: Option<String>,
    step: SignerStep,
)
    requires
        call_ensures(begin_signer, (key_path, auth_sock), step),
    ensures
        (step is ReadPrivateKey) <==> key_path is Some,
        (step is ListAgentKeys) <==> key_path is None && auth_sock is Some,
        (step is NoCredentials) <==> key_path is None && auth_sock is None,
        step matches SignerStep::ReadPrivateKey(next) ==> Some(next.key_path) == key_path
            && next.auth_sock == auth_sock,
        step matches SignerStep::ListAgentKeys(next) ==> Some(next.auth_sock) == auth_sock
            && next.wanted is None,
{
}

/// A private key that is neither an RSA key nor one of a hardware token signs by itself,
/// as its file holds it, whether there is an agent or not.
pub proof fn supported_private_keys_sign(
    step: KeyFileStep,
    pem: String,
    info: KeyInfo,
    outcome: Result<SignerStep, String>,
)
    requires
        call_ensures(
            KeyFileStep::use_private_key,
            (step, pem, Ok::<KeyInfo, String>(info)),
            outcome,
        ),
        !is_rsa(info.algorithm@),
        !is_agent_only(info.algorithm@),
    ensures
        outcome matches Ok(SignerStep::Sign(SigningKey::Private { pem: kept, info: known, source }))
            && kept@ == pem@ && known.algorithm@ == info.algorithm@ && known.fingerprint@
            == info.fingerprint@ && source@ == step.key_path@,
{
}

/// What becomes of a private key does not depend on the agent: with any two agents, or
/// without one, the same key of the same file signs, is left to the agent, or is refused
/// with the same words. The first is for all keys but those of RSA and of hardware
/// tokens, the second for those of hardware tokens.
pub proof fn private_keys_do_not_ask_for_the_agent(
    step: KeyFileStep,
    other: KeyFileStep,
    pem: String,
    key: Result<KeyInfo, String>,
    outcome: Result<SignerStep, String>,
    other_outcome: Result<SignerStep, String>,
)
    requires
        step.key_path@ == other.key_path@,
        call_ensures(KeyFileStep::use_private_key, (step, pem, key), outcome),
        call_ensures(KeyFileStep::use_private_key, (other, pem, key), other_outcome),
    ensures
        (outcome matches Ok(SignerStep::Sign(_))) <==> (key matches Ok(info) && !is_rsa(
            info.algorithm@,
        ) && !is_agent_only(info.algorithm@)),
        (outcome matches Ok(SignerStep::ReadPublicKey(_))) <==> (key matches Ok(info)
            && is_agent_only(info.algorithm@)),
        outcome is Err <==> (key matches Ok(info) ==> is_rsa(info.algorithm@)),
        (outcome matches Ok(SignerStep::Sign(_))) <==> (other_outcome matches Ok(
            SignerStep::Sign(_),
        )),
        (outcome matches Ok(SignerStep::ReadPublicKey(_))) <==> (other_outcome matches Ok(
            SignerStep::ReadPublicKey(_),
        )),
        outcome matches Ok(SignerStep::ReadPublicKey(next)) ==> next == step,
        outcome matches Err(error) ==> (other_outcome matches Err(same) && same@ == error@),
        outcome matches Ok(SignerStep::Sign(SigningKey::Private { pem: kept, info, source })) ==> (
        other_outcome matches Ok(
            SignerStep::Sign(SigningKey::Private { pem: same, info: known, source: from }),
        ) && same@ == kept@ && known@ == info@ && from@ == source@),
{
    if let Ok(info) = key {
        algorithms_are_known_by_name(info.algorithm@);
    }
}

/// What is refused of a private key is told with the file that it is in.
pub proof fn refused_private_keys_are_named(
    step: KeyFileStep,
    pem: String,
    key: Result<KeyInfo, String>,
    outcome: Result<SignerStep, String>,
)
    requires
        call_ensures(KeyFileStep::use_private_key, (step, pem, key), outcome),
    ensures
        key matches Err(cause) ==> (outcome matches Err(error) && error@
            == "parsing private key from "@ + private_key_path(step.key_path@) + ": "@ + cause@),
        key matches Ok(info) ==> (is_rsa(info.algorithm@) ==> (outcome matches Err(error) && error@
            == step.key_path@ + " is an RSA key, which is not supported; use Ed25519 or ECDSA"@)),
{
}

/// A private key file that is not there sends the search to the public key file; one that
/// cannot be read ends it; and what it holds is decoded and signs without the white space
/// around it.
pub proof fn private_key_files_are_used_as_they_are(
    step: KeyFileStep,
    read: FileRead,
    outcome: Result<SignerStep, String>,
)
    requires
        call_ensures(KeyFileStep::read_private_key, (step, read), outcome),
    ensures
        read is Missing ==> (outcome matches Ok(SignerStep::ReadPublicKey(next)) && next == step),
        read matches FileRead::Failed(cause) ==> (outcome matches Err(error) && error@
            == "reading private key from "@ + private_key_path(step.key_path@) + ": "@ + cause@),
        read matches FileRead::Text(pem) ==> (private_key_of(trimmed(pem@)) matches Ok(key) ==> (
        !is_rsa(key.0) && !is_agent_only(key.0) ==> (outcome matches Ok(
            SignerStep::Sign(SigningKey::Private { pem: kept, info, source }),
        ) && kept@ == trimmed(pem@) && info@ == key && source@ == step.key_path@))),
        read matches FileRead::Text(pem) ==> (private_key_of(trimmed(pem@)) matches Ok(key) ==> (
        is_agent_only(key.0) ==> (outcome matches Ok(SignerStep::ReadPublicKey(next)) && next
            == step))),
        read matches FileRead::Text(pem) ==> (private_key_of(trimmed(pem@)) is Err
            ==> outcome is Err),
        read matches FileRead::Text(pem) ==> (private_key_of(trimmed(pem@)) matches Ok(key) ==> (
        is_rsa(key.0) ==> outcome is Err)),
{
    if let FileRead::Text(pem) = read {
        if let Ok(key) = private_key_of(trimmed(pem@)) {
            algorithms_are_known_by_name(key.0);
        }
    }
}

/// A public key is looked for in the agent, which has to be there: every key but an RSA
/// key is, as its file holds it, and the agent is asked for that key and no other.
pub proof fn public_keys_are_looked_for_in_the_agent(
    step: KeyFileStep,
    openssh: String,
    key: Result<KeyInfo, String>,
    outcome: Result<SignerStep, String>,
)
    requires
        call_ensures(KeyFileStep::use_public_key, (step, openssh, key), outcome),
    ensures
        outcome is Ok <==> step.auth_sock is Some && (key matches Ok(info) && !is_rsa(
            info.algorithm@,
        )),
        outcome matches Ok(next) ==> next is ListAgentKeys,
        outcome matches Ok(SignerStep::ListAgentKeys(next)) ==> {
            &&& step.auth_sock == Some(next.auth_sock)
            &&& next.wanted matches Some(wanted) && wanted.openssh@ == openssh@
                && wanted.source@ == step.key_path@ && (key matches Ok(info) && wanted.info@
                == info@)
        },
        key matches Err(cause) ==> (outcome matches Err(error) && error@
            == "parsing public key from "@ + public_key_path(step.key_path@) + ": "@ + cause@),
        key matches Ok(info) ==> (is_rsa(info.algorithm@) ==> (outcome matches Err(error) && error@
            == step.key_path@ + " is an RSA key, which is not supported; use Ed25519 or ECDSA"@)),
        key matches Ok(info) ==> (!is_rsa(info.algorithm@) && step.auth_sock is None ==> (
        outcome matches Err(error) && error@
            == "VARLINK_SSH_KEY requires agent-based signing (hardware token or public key only); set SSH_AUTH_SOCK"@)),
{
}

/// A public key file has to be there, and what it holds is taken without the white space
/// around it.
pub proof fn public_key_files_are_used_as_they_are(
    step: KeyFileStep,
    read: FileRead,
    outcome: Result<SignerStep, String>,
)
    requires
        call_ensures(KeyFileStep::read_public_key, (step, read), outcome),
    ensures
        read matches FileRead::Missing(cause) ==> (outcome matches Err(error) && error@
            == "reading public key from "@ + public_key_path(step.key_path@) + ": "@ + cause@),
        read matches FileRead::Failed(cause) ==> (outcome matches Err(error) && error@
            == "reading public key from "@ + public_key_path(step.key_path@) + ": "@ + cause@),
        read matches FileRead::Text(data) ==> (outcome is Ok <==> step.auth_sock is Some && (
        public_key_of(trimmed(data@)) matches Ok(key) && !is_rsa(key.0))),
        read matches FileRead::Text(data) ==> (outcome matches Ok(
            SignerStep::ListAgentKeys(next),
        ) ==> step.auth_sock == Some(next.auth_sock) && (next.wanted matches Some(wanted)
            && wanted.openssh@ == trimmed(data@) && public_key_of(trimmed(data@)) == Ok::<
            (Seq<char>, Seq<char>),
            Seq<char>,
        >(wanted.info@))),
{
}

/// The agent signs with the key that was looked for exactly when it holds a key with the
/// same fingerprint, wherever that stands in its list.
pub proof fn the_wanted_key_signs(
    step: AgentStep,
    wanted: WantedKey,
    listed: Vec<String>,
    keys: Vec<Result<KeyInfo, String>>,
    outcome: Result<SigningKey, String>,
)
    requires
        step.wanted == Some(wanted),
        call_ensures(AgentStep::use_agent_keys, (step, listed, keys), outcome),
    ensures
        outcome is Ok <==> exists|i: int|
            0 <= i < keys@.len() && ((#[trigger] keys@[i]) matches Ok(info) && info.fingerprint@
                == wanted.info.fingerprint@),
        outcome matches Ok(key) ==> (key matches SigningKey::Agent {
            auth_sock,
            openssh,
            info,
            source,
        } && auth_sock == step.auth_sock && openssh == wanted.openssh && info == wanted.info
            && source == wanted.source),
        outcome matches Err(error) ==> error@ == "VARLINK_SSH_KEY key "@
            + wanted.info.fingerprint@
            + " not found in ssh-agent; add it with ssh-add or provide the private key"@,
{
    let found = key_results(keys@);
    let fingerprint = wanted.info.fingerprint@;
    if has_fingerprint(found, fingerprint) {
        let i = choose|i: int|
            0 <= i < found.len() && ((#[trigger] found[i]) matches Ok((_, own)) && own
                == fingerprint);
        assert(found[i] == key_result(keys@[i]));
        assert(keys@[i] is Ok);
    }
    if exists|i: int|
        0 <= i < keys@.len() && ((#[trigger] keys@[i]) matches Ok(info) && info.fingerprint@
            == fingerprint) {
        let i = choose|i: int|
            0 <= i < keys@.len() && ((#[trigger] keys@[i]) matches Ok(info) && info.fingerprint@
                == fingerprint);
        assert(found[i] == key_result(keys@[i]));
    }
}

/// Where no key is looked for, the agent signs with the first of its keys that is no RSA
/// key, as it is listed, and fails exactly when there is none.
pub proof fn the_first_supported_key_signs(
    step: AgentStep,
    listed: Vec<String>,
    keys: Vec<Result<KeyInfo, String>>,
    outcome: Result<SigningKey, String>,
    at: int,
)
    requires
        step.wanted is None,
        listed@.len() == keys@.len(),
        call_ensures(AgentStep::use_agent_keys, (step, listed, keys), outcome),
        0 <= at <= keys@.len(),
        at < keys@.len() ==> (keys@[at] matches Ok(info) && !is_rsa(info.algorithm@)),
        forall|i: int|
            0 <= i < at ==> ((#[trigger] keys@[i]) matches Ok(info) ==> is_rsa(info.algorithm@)),
    ensures
        outcome is Ok <==> at < keys@.len(),
        outcome matches Ok(key) ==> (key matches SigningKey::Agent {
            auth_sock,
            openssh,
            info,
            source,
        } && auth_sock == step.auth_sock && source@ == step.auth_sock@ && openssh@ == listed@[at]@
            && (keys@[at] matches Ok(own) && info@ == own@)),
        outcome matches Err(error) ==> error@ == "no supported key in ssh-agent"@,
{
    let found = key_results(keys@);
    assert forall|i: int| 0 <= i < keys@.len() implies #[trigger] found[i] == key_result(
        keys@[i],
    ) by {}
    assert forall|i: int| 0 <= i < at implies !is_usable(#[trigger] found[i]) by {
        assert(found[i] == key_result(keys@[i]));
    }
    if at < keys@.len() {
        assert(found[at] == key_result(keys@[at]));
        assert(is_usable(found[at]));
    }
    match outcome {
        Ok(SigningKey::Agent { auth_sock, openssh, info, source }) => {
            let first = choose|first: int| #[trigger]
                is_first_usable(found, first) && openssh@ == listed@[first]@ && found[first]
                    == Ok::<(Seq<char>, Seq<char>), Seq<char>>(info@) && auth_sock
                    == step.auth_sock && source@ == step.auth_sock@;
            assert(is_usable(found[first]));
            if at < first {
                assert(!is_usable(found[at]));
            }
        },
        _ => {},
    }
}

/// An agent's list that is read is searched as it stands, and one that is not ends the
/// search.
pub proof fn agents_are_asked_once(
    step: AgentStep,
    listing: Result<Vec<String>, String>,
    outcome: Result<SigningKey, String>,
)
    requires
        call_ensures(AgentStep::list_keys, (step, listing), outcome),
    ensures
        listing matches Err(cause) ==> (outcome matches Err(error) && error@
            == "listing ssh-agent keys"@ + ": "@ + cause@),
        listing matches Ok(listed) ==> (step.wanted matches Some(wanted) ==> (outcome is Ok
            <==> exists|i: int|
            0 <= i < listed@.len() && (public_key_of((#[trigger] listed@[i])@) matches Ok((_, own))
                && own == wanted.info.fingerprint@))),
        listing matches Ok(listed) ==> (step.wanted is None ==> (outcome is Ok <==> exists|i: int|
            0 <= i < listed@.len() && (public_key_of((#[trigger] listed@[i])@) matches Ok((
                algorithm,
                _,
            )) && !is_rsa(algorithm)))),
        listing matches Ok(listed) ==> (step.wanted matches Some(wanted) ==> (outcome matches Ok(
            SigningKey::Agent { auth_sock, openssh, info, source },
        ) ==> auth_sock == step.auth_sock && openssh == wanted.openssh && info == wanted.info
            && source == wanted.source)),
        !(outcome matches Ok(SigningKey::Private { .. })),
{
    if let Ok(listed) = listing {
        let keys = public_keys_of(listed@);
        assert forall|i: int| 0 <= i < listed@.len() implies #[trigger] keys[i] == public_key_of(
            listed@[i]@,
        ) by {}
        if let Some(wanted) = step.wanted {
            let fingerprint = wanted.info.fingerprint@;
            if has_fingerprint(keys, fingerprint) {
                let i = choose|i: int|
                    0 <= i < keys.len() && ((#[trigger] keys[i]) matches Ok((_, own)) && own
                        == fingerprint);
                assert(keys[i] == public_key_of(listed@[i]@));
            }
            if exists|i: int|
                0 <= i < listed@.len() && (public_key_of((#[trigger] listed@[i])@) matches Ok((
                    _,
                    own,
                )) && own == fingerprint) {
                let i = choose|i: int|
                    0 <= i < listed@.len() && (public_key_of((#[trigger] listed@[i])@) matches Ok((
                        _,
                        own,
                    )) && own == fingerprint);
                assert(keys[i] == public_key_of(listed@[i]@));
            }
        } else {
            match outcome {
                Ok(SigningKey::Agent { auth_sock, openssh, info, source }) => {
                    let at = choose|at: int| #[trigger]
                        is_first_usable(keys, at) && openssh@ == listed@[at]@ && keys[at]
                            == Ok::<(Seq<char>, Seq<char>), Seq<char>>(info@) && auth_sock
                            == step.auth_sock && source@ == step.auth_sock@;
                    assert(is_usable(keys[at]));
                    assert(keys[at] == public_key_of(listed@[at]@));
                },
                _ => {
                    if exists|i: int|
                        0 <= i < listed@.len() && (public_key_of((#[trigger] listed@[i])@)
                            matches Ok((algorithm, _)) && !is_rsa(algorithm)) {
                        let i = choose|i: int|
                            0 <= i < listed@.len() && (public_key_of((#[trigger] listed@[i])@)
                                matches Ok((algorithm, _)) && !is_rsa(algorithm));
                        assert(is_usable(keys[i]));
                    }
                },
            }
        }
    }
}

} // verus!
