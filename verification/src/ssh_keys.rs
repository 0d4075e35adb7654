//! SSH keys: what their OpenSSH text says of them, and which of them can sign.

use crate::text::{chain, same_text};
use ssh_key::{HashAlg, PrivateKey, PublicKey};
use vstd::prelude::*;

verus! {

/// Whether an algorithm's identifier is one of RSA.
pub open spec fn is_rsa(algorithm: Seq<char>) -> bool {
    algorithm == "ssh-rsa"@ || algorithm == "rsa-sha2-256"@ || algorithm == "rsa-sha2-512"@
}

/// Whether an algorithm's identifier is one of the hardware tokens, whose keys
/// only the ssh-agent can sign with.
pub open spec fn is_agent_only(algorithm: Seq<char>) -> bool {
    algorithm == "sk-ecdsa-sha2-nistp256@openssh.com"@ || algorithm
        == "sk-ssh-ed25519@openssh.com"@
}

/// What is known of a key: its algorithm's identifier and its SHA-256
/// fingerprint.
#[derive(Debug)]
pub struct KeyInfo {
    pub algorithm: String,
    pub fingerprint: String,
}

impl KeyInfo {
    /// The algorithm and the fingerprint.
    pub open spec fn view(&self) -> (Seq<char>, Seq<char>) {
        (self.algorithm@, self.fingerprint@)
    }
}

/// A key's algorithm and fingerprint, or the text of the error.
pub open spec fn key_result(info: Result<KeyInfo, String>) -> Result<
    (Seq<char>, Seq<char>),
    Seq<char>,
> {
    match info {
        Ok(info) => Ok(info@),
        Err(error) => Err(error@),
    }
}

/// What `ssh_key::PublicKey::from_openssh` makes of a text: the identifier
/// of the key's algorithm and its SHA-256 fingerprint, or the text of the error.
pub uninterp spec fn public_key_of(openssh: Seq<char>) -> Result<(Seq<char>, Seq<char>), Seq<char>>;

/// What `ssh_key::PrivateKey::from_openssh` makes of a text: the identifier
/// of the key's algorithm and its SHA-256 fingerprint, or the text of the error.
pub uninterp spec fn private_key_of(pem: Seq<char>) -> Result<(Seq<char>, Seq<char>), Seq<char>>;

/// Calls `ssh_key::PublicKey::from_openssh`, and `algorithm` and `fingerprint` on
/// the key. The contract claims that the result depends on the text alone.
#[verifier::external_body]
pub(crate) fn decode_public_key(openssh: &str) -> (key: Result<KeyInfo, String>)
    ensures
        key_result(key) == public_key_of(openssh@),
{
    match PublicKey::from_openssh(openssh) {
        Ok(key) => Ok(
            KeyInfo {
                algorithm: key.algorithm().to_string(),
                fingerprint: key.fingerprint(HashAlg::Sha256).to_string(),
            },
        ),
        Err(error) => Err(error.to_string()),
    }
}

/// Calls `ssh_key::PrivateKey::from_openssh`, and `algorithm` and `fingerprint` on
/// the key. The contract claims that the result depends on the text alone.
#[verifier::external_body]
pub(crate) fn decode_private_key(pem: &str) -> (key: Result<KeyInfo, String>)
    ensures
        key_result(key) == private_key_of(pem@),
{
    match PrivateKey::from_openssh(pem) {
        Ok(key) => Ok(
            KeyInfo {
                algorithm: key.algorithm().to_string(),
                fingerprint: key.fingerprint(HashAlg::Sha256).to_string(),
            },
        ),
        Err(error) => Err(error.to_string()),
    }
}

/// What is said of a key that is not accepted.
pub open spec fn rsa_error(source: Seq<char>) -> Seq<char> {
    source + " is an RSA key, which is not supported; use Ed25519 or ECDSA"@
}

/// Refuses RSA keys.
pub fn ensure_supported_algorithm(algorithm: &str, source: &str) -> (answer: Result<(), String>)
    ensures
        answer is Ok <==> !is_rsa(algorithm@),
        answer matches Err(error) ==> error@ == rsa_error(source@),
{
    if same_text(algorithm, "ssh-rsa") || same_text(algorithm, "rsa-sha2-256") || same_text(
        algorithm,
        "rsa-sha2-512",
    ) {
        Err(chain(source, " is an RSA key, which is not supported; use Ed25519 or ECDSA"))
    } else {
        Ok(())
    }
}

/// Whether only the ssh-agent can sign with keys of this algorithm.
pub fn requires_agent(algorithm: &str) -> (required: bool)
    ensures
        required == is_agent_only(algorithm@),
{
    same_text(algorithm, "sk-ecdsa-sha2-nistp256@openssh.com") || same_text(
        algorithm,
        "sk-ssh-ed25519@openssh.com",
    )
}

/// The keys that were decoded.
pub open spec fn key_results(keys: Seq<Result<KeyInfo, String>>) -> Seq<
    Result<(Seq<char>, Seq<char>), Seq<char>>,
> {
    keys.map_values(|key: Result<KeyInfo, String>| key_result(key))
}

/// What a list of texts is decoded to.
pub open spec fn public_keys_of(keys: Seq<String>) -> Seq<
    Result<(Seq<char>, Seq<char>), Seq<char>>,
> {
    keys.map_values(|key: String| public_key_of(key@))
}

/// Whether a key was decoded and is of a supported kind.
pub open spec fn is_usable(key: Result<(Seq<char>, Seq<char>), Seq<char>>) -> bool {
    key matches Ok((algorithm, _)) && !is_rsa(algorithm)
}

/// Decodes each text.
pub(crate) fn decode_public_keys(texts: &Vec<String>) -> (keys: Vec<Result<KeyInfo, String>>)
    ensures
        key_results(keys@) == public_keys_of(texts@),
        keys@.len() == texts@.len(),
{
    let mut keys: Vec<Result<KeyInfo, String>> = Vec::new();
    let mut i: usize = 0;
    while i < texts.len()
        invariant
            i <= texts@.len(),
            keys@.len() == i,
            forall|j: int|
                0 <= j < i ==> key_result(#[trigger] keys@[j]) == public_key_of(texts@[j]@),
        decreases texts@.len() - i,
    {
        keys.push(decode_public_key(texts[i].as_str()));
        i = i + 1;
    }
    assert(key_results(keys@) == public_keys_of(texts@));
    keys
}

/// An RSA key in a list: its place and its fingerprint.
#[derive(Debug)]
pub struct RsaKey {
    pub at: usize,
    pub fingerprint: String,
}

/// The places and the fingerprints of some RSA keys.
pub open spec fn rsa_views(keys: Seq<RsaKey>) -> Seq<(int, Seq<char>)> {
    keys.map_values(|key: RsaKey| (key.at as int, key.fingerprint@))
}

/// The RSA keys among those that were decoded, in order.
pub open spec fn rsa_keys_in(keys: Seq<Result<(Seq<char>, Seq<char>), Seq<char>>>) -> Seq<
    (int, Seq<char>),
>
    decreases keys.len(),
{
    if keys.len() == 0 {
        seq![]
    } else {
        let front = rsa_keys_in(keys.drop_last());
        match keys.last() {
            Ok((algorithm, fingerprint)) => if is_rsa(algorithm) {
                front.push((keys.len() - 1, fingerprint))
            } else {
                front
            },
            Err(_) => front,
        }
    }
}

/// The RSA keys among those that were decoded, in order: the ones that are passed
/// over.
pub fn rsa_keys_of(keys: &Vec<Result<KeyInfo, String>>) -> (rsa: Vec<RsaKey>)
    ensures
        rsa_views(rsa@) == rsa_keys_in(key_results(keys@)),
{
    let mut rsa: Vec<RsaKey> = Vec::new();
    let ghost all = key_results(keys@);
    assert(rsa_views(rsa@) == rsa_keys_in(all.take(0)));
    let mut i: usize = 0;
    while i < keys.len()
        invariant
            i <= keys@.len(),
            all == key_results(keys@),
            rsa_views(rsa@) == rsa_keys_in(all.take(i as int)),
        decreases keys@.len() - i,
    {
        proof {
            assert(all.take(i + 1).drop_last() == all.take(i as int));
            assert(all.take(i + 1).last() == key_result(keys@[i as int]));
        }
        if let Ok(info) = &keys[i] {
            if ensure_supported_algorithm(info.algorithm.as_str(), "key").is_err() {
                let ghost before = rsa_views(rsa@);
                rsa.push(RsaKey { at: i, fingerprint: info.fingerprint.clone() });
                assert(rsa_views(rsa@) == before.push((i as int, info.fingerprint@)));
            }
        }
        i = i + 1;
    }
    assert(all.take(all.len() as int) == all);
    rsa
}

/// The RSA keys in a list of OpenSSH texts, in order: the ones that are passed over
/// when the list is loaded or a key of it is chosen.
pub fn list_rsa_keys(listed: &Vec<String>) -> (rsa: Vec<RsaKey>)
    ensures
        rsa_views(rsa@) == rsa_keys_in(public_keys_of(listed@)),
{
    let keys = decode_public_keys(listed);
    rsa_keys_of(&keys)
}

/// The algorithms of RSA keys are the three that OpenSSH knows, those of hardware tokens
/// are the two that it knows, and none is both.
pub proof fn algorithms_are_known_by_name(algorithm: Seq<char>)
    ensures
        is_rsa(algorithm) <==> seq!["ssh-rsa"@, "rsa-sha2-256"@, "rsa-sha2-512"@].contains(
            algorithm,
        ),
        is_agent_only(algorithm) <==> seq![
            "sk-ecdsa-sha2-nistp256@openssh.com"@,
            "sk-ssh-ed25519@openssh.com"@,
        ].contains(algorithm),
        !(is_rsa(algorithm) && is_agent_only(algorithm)),
{
    reveal_strlit("ssh-rsa");
    reveal_strlit("rsa-sha2-256");
    reveal_strlit("rsa-sha2-512");
    reveal_strlit("sk-ecdsa-sha2-nistp256@openssh.com");
    reveal_strlit("sk-ssh-ed25519@openssh.com");
    assert("ssh-rsa"@.len() == 7 && "rsa-sha2-256"@.len() == 12 && "rsa-sha2-512"@.len() == 12);
    assert("sk-ecdsa-sha2-nistp256@openssh.com"@.len() == 34);
    assert("sk-ssh-ed25519@openssh.com"@.len() == 26);
    let rsa = seq!["ssh-rsa"@, "rsa-sha2-256"@, "rsa-sha2-512"@];
    let token = seq!["sk-ecdsa-sha2-nistp256@openssh.com"@, "sk-ssh-ed25519@openssh.com"@];
    assert(rsa[0] == "ssh-rsa"@ && rsa[1] == "rsa-sha2-256"@ && rsa[2] == "rsa-sha2-512"@);
    assert(token[0] == "sk-ecdsa-sha2-nistp256@openssh.com"@ && token[1]
        == "sk-ssh-ed25519@openssh.com"@);
}

/// Whether a key is accepted depends on its algorithm alone; where the key comes from is
/// only told in the error.
pub proof fn only_the_algorithm_counts(
    algorithm: &str,
    source: &str,
    answer: Result<(), String>,
    other_source: &str,
    other_answer: Result<(), String>,
)
    requires
        call_ensures(ensure_supported_algorithm, (algorithm, source), answer),
        call_ensures(ensure_supported_algorithm, (algorithm, other_source), other_answer),
    ensures
        answer is Ok <==> other_answer is Ok,
        answer is Err <==> seq!["ssh-rsa"@, "rsa-sha2-256"@, "rsa-sha2-512"@].contains(algorithm@),
        answer matches Err(error) ==> error@ == source@
            + " is an RSA key, which is not supported; use Ed25519 or ECDSA"@,
{
    algorithms_are_known_by_name(algorithm@);
}

/// The keys of hardware tokens, and no others, are left to the agent.
pub proof fn only_tokens_are_left_to_the_agent(algorithm: &str, required: bool)
    requires
        call_ensures(requires_agent, (algorithm,), required),
    ensures
        required <==> seq![
            "sk-ecdsa-sha2-nistp256@openssh.com"@,
            "sk-ssh-ed25519@openssh.com"@,
        ].contains(algorithm@),
{
    algorithms_are_known_by_name(algorithm@);
}

/// Every key that was decoded and is no RSA key is usable, and nothing else is.
pub proof fn all_but_rsa_keys_are_usable(
    algorithm: Seq<char>,
    fingerprint: Seq<char>,
    error: Seq<char>,
)
    ensures
        is_usable(Ok((algorithm, fingerprint))) <==> !seq![
            "ssh-rsa"@,
            "rsa-sha2-256"@,
            "rsa-sha2-512"@,
        ].contains(algorithm),
        !is_usable(Err(error)),
{
    algorithms_are_known_by_name(algorithm);
}

/// The RSA keys of a list are told by their places, in order: each with its own
/// fingerprint, and every RSA key is among them.
pub proof fn all_rsa_keys_are_told(keys: Seq<Result<(Seq<char>, Seq<char>), Seq<char>>>)
    ensures
        forall|k: int|
            0 <= k < rsa_keys_in(keys).len() ==> {
                let (at, fingerprint) = #[trigger] rsa_keys_in(keys)[k];
                0 <= at < keys.len() && (keys[at] matches Ok((algorithm, own)) && is_rsa(algorithm)
                    && own == fingerprint)
            },
        forall|k: int, l: int|
            0 <= k < l < rsa_keys_in(keys).len() ==> (#[trigger] rsa_keys_in(keys)[k]).0 < (
            #[trigger] rsa_keys_in(keys)[l]).0,
        forall|at: int|
            0 <= at < keys.len() && ((#[trigger] keys[at]) matches Ok((algorithm, _)) && is_rsa(
                algorithm,
            )) ==> exists|k: int|
                0 <= k < rsa_keys_in(keys).len() && (#[trigger] rsa_keys_in(keys)[k]).0 == at,
    decreases keys.len(),
{
    if keys.len() > 0 {
        let front = keys.drop_last();
        all_rsa_keys_are_told(front);
        let told = rsa_keys_in(front);
        let all = rsa_keys_in(keys);
        assert forall|k: int| 0 <= k < all.len() implies {
            let (at, fingerprint) = #[trigger] all[k];
            0 <= at < keys.len() && (keys[at] matches Ok((algorithm, own)) && is_rsa(algorithm)
                && own == fingerprint)
        } by {
            if k < told.len() {
                assert(all[k] == told[k]);
                assert(front[told[k].0] == keys[told[k].0]);
            }
        }
        assert forall|k: int, l: int| 0 <= k < l < all.len() implies (#[trigger] all[k]).0 < (
        #[trigger] all[l]).0 by {
            assert(all[k] == told[k]);
            if l < told.len() {
                assert(all[l] == told[l]);
            }
        }
        assert forall|at: int|
            0 <= at < keys.len() && ((#[trigger] keys[at]) matches Ok((algorithm, _)) && is_rsa(
                algorithm,
            )) implies exists|k: int| 0 <= k < all.len() && (#[trigger] all[k]).0 == at by {
            if at < front.len() {
                assert(front[at] == keys[at]);
                let k = choose|k: int| 0 <= k < told.len() && (#[trigger] told[k]).0 == at;
                assert(all[k] == told[k]);
            } else {
                assert(all[told.len() as int].0 == at);
            }
        }
    }
}

} // verus!
