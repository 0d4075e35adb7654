//! Authenticating requests by tokens that are signed with SSH keys.

use crate::nonce::{
    only_the_nonces_own_time_counts, other_nonces_keep_their_time,
    replays_within_the_window_are_refused, seen_after, seen_after_all, short_nonces_change_nothing,
    verdict_on, NonceError, NonceStore, NANOS_PER_SEC,
};
use crate::paths::{
    find_existing, first_existing, join_path, path_join, the_first_existing_is_found,
};
use crate::ssh_keys::{
    decode_public_keys, ensure_supported_algorithm, is_rsa, is_usable, key_result, key_results,
    public_key_of, public_keys_of, KeyInfo,
};
use crate::text::{
    caused_by, chain, opt_str, opt_text, prefixes_are_taken_off, strip_prefix, texts, with_cause,
};
use crate::text_map::TextMap;
use crate::token::{
    action_texts, actions_for, actions_say_what_they_are, bearer_token, token_actions, TokenAction,
    SSHAUTH_MAGIC_PREFIX,
};
use ssh_key::PublicKey;
use vstd::prelude::*;
use vstd::utf8::encode_utf8;

verus! {

/// By how many seconds the clocks of client and server may differ.
pub const MAX_SKEW: u64 = 60;

/// When a file was last modified: seconds and nanoseconds since the epoch.
#[derive(Debug, Clone, Copy, PartialEq, Eq, Structural)]
pub struct Mtime {
    pub secs: i64,
    pub nanos: u32,
}

/// What is found at the path of the authorized keys: when the file was modified,
/// and the public keys that it lists, each as OpenSSH text. Either can fail.
#[derive(Debug)]
pub struct KeyFileReading {
    pub mtime: Result<Mtime, String>,
    pub keys: Result<Vec<String>, String>,
}

/// Why a request is refused.
#[derive(Debug, Clone, Copy, PartialEq, Eq, Structural)]
pub enum AuthError {
    MissingNonce,
    NotBearer,
    InvalidToken,
    VerificationFailed,
    Nonce(NonceError),
}

impl AuthError {
    /// The text of the error.
    pub open spec fn text(self) -> Seq<char> {
        match self {
            AuthError::MissingNonce => "missing nonce header (x-auth-nonce)"@,
            AuthError::NotBearer => "Authorization header must start with 'Bearer '"@,
            AuthError::InvalidToken => "invalid token"@,
            AuthError::VerificationFailed => "token verification failed"@,
            AuthError::Nonce(error) => error.text(),
        }
    }

    /// The text of the error.
    pub fn message(&self) -> (message: String)
        ensures
            message@ == self.text(),
    {
        match self {
            AuthError::MissingNonce => "missing nonce header (x-auth-nonce)".to_owned(),
            AuthError::NotBearer => "Authorization header must start with 'Bearer '".to_owned(),
            AuthError::InvalidToken => "invalid token".to_owned(),
            AuthError::VerificationFailed => "token verification failed".to_owned(),
            AuthError::Nonce(error) => error.message(),
        }
    }
}

/// Whether `sshauth::UnverifiedToken::try_from` accepts a text.
pub uninterp spec fn is_token(token: Seq<char>) -> bool;

/// Whether `sshauth::UnverifiedToken::try_from` accepts a text. The contract
/// claims that this depends on the text alone.
#[verifier::external_body]
fn token_decodes(token: &str) -> (decodes: bool)
    ensures
        decodes == is_token(token@),
{
    sshauth::UnverifiedToken::try_from(token).is_ok()
}

/// Which of the keys, given as OpenSSH texts, signed a token for the actions, as
/// `sshauth` verifies it under a magic prefix: the key's SHA-256 fingerprint, and
/// the time of the signature in seconds since the epoch.
pub uninterp spec fn signature_on(
    token: Seq<char>,
    prefix: Seq<u8>,
    actions: Seq<(Seq<char>, Seq<char>)>,
    keys: Seq<Seq<char>>,
) -> Option<(Seq<char>, u64)>;

/// Who signed a token, as long as the time of the signature is within `max_skew`
/// seconds of the clock.
pub open spec fn signer_at(
    signature: Option<(Seq<char>, u64)>,
    max_skew: u64,
    clock: u64,
) -> Option<Seq<char>> {
    match signature {
        Some((fingerprint, signed_at)) => if signed_at - max_skew <= clock <= signed_at
            + max_skew {
            Some(fingerprint)
        } else {
            None
        },
        None => None,
    }
}

/// Whether some key has the fingerprint.
pub open spec fn is_fingerprint_of(keys: Seq<Seq<char>>, fingerprint: Seq<char>) -> bool {
    exists|i: int|
        0 <= i < keys.len() && (public_key_of(#[trigger] keys[i]) matches Ok((_, found)) && found
            == fingerprint)
}

/// Verifies a token with `sshauth`: `UnverifiedToken::try_from`, `verify_for` with
/// the prefix, the skew and the actions, then `with_keys`. The contract claims
/// that who signed, and when, depends on the arguments alone, that the time of
/// the signature is held against the system's clock in seconds, and that the
/// fingerprint returned is that of one of the keys. Which time the clock shows is
/// not stated. A system clock from before the epoch makes `sshauth` panic.
#[verifier::external_body]
fn verify_token(
    token: &str,
    prefix: [u8; 8],
    max_skew: u64,
    actions: &Vec<TokenAction>,
    keys: &Vec<String>,
) -> (signer: Option<String>)
    ensures
        exists|clock: u64|
            opt_text(signer) == #[trigger] signer_at(
                signature_on(token@, prefix@, action_texts(actions@), texts(keys@)),
                max_skew,
                clock,
            ),
        signer matches Some(fingerprint) ==> is_fingerprint_of(texts(keys@), fingerprint@),
{
    let keys = keys.iter().map(|k| PublicKey::from_openssh(k)).collect::<Result<Vec<_>, _>>();
    let token = sshauth::UnverifiedToken::try_from(token).ok()?;
    let signer = token
        .verify_for()
        .magic_prefix(prefix)
        .max_skew_seconds(max_skew)
        .actions(actions.iter().map(|a| (&a.key, &a.value)))
        .with_keys(&keys.ok()?);
    signer.ok().map(|t| t.fingerprint())
}

/// Whether `signer` is what verifying the token gave: `sshauth` was asked whether one
/// of the keys signed it for the actions, under this program's prefix and at most
/// `max_skew` seconds from now, and this is its answer.
pub closed spec fn is_verified(
    token: Seq<char>,
    max_skew: u64,
    actions: Seq<(Seq<char>, Seq<char>)>,
    keys: Seq<Seq<char>>,
    signer: Option<String>,
) -> bool {
    exists|text: &str, list: &Vec<TokenAction>, known: &Vec<String>|
        text@ == token && action_texts(list@) == actions && texts(known@) == keys && #[trigger]
            call_ensures(verify_token, (text, SSHAUTH_MAGIC_PREFIX, max_skew, list, known), signer)
}

/// A token that was verified as signed is signed for the actions by one of the keys,
/// and its time is within the skew of the clock that it was held against.
pub proof fn verified_tokens_are_signed(
    token: Seq<char>,
    max_skew: u64,
    actions: Seq<(Seq<char>, Seq<char>)>,
    keys: Seq<Seq<char>>,
    signer: Option<String>,
)
    requires
        is_verified(token, max_skew, actions, keys, signer),
    ensures
        exists|clock: u64|
            opt_text(signer) == #[trigger] signer_at(
                signature_on(token, SSHAUTH_MAGIC_PREFIX@, actions, keys),
                max_skew,
                clock,
            ),
        signer matches Some(fingerprint) ==> is_fingerprint_of(keys, fingerprint@),
{
}

/// The keys of a list that were decoded and are supported, each under its
/// fingerprint. Of two with the same fingerprint the later one stays.
pub open spec fn collected_keys(
    listed: Seq<Seq<char>>,
    decoded: Seq<Result<(Seq<char>, Seq<char>), Seq<char>>>,
) -> Map<Seq<char>, Seq<char>>
    decreases listed.len(),
{
    if listed.len() == 0 {
        Map::empty()
    } else {
        let at = listed.len() - 1;
        let front = collected_keys(listed.take(at), decoded.take(at));
        match decoded[at] {
            Ok((algorithm, fingerprint)) => if is_rsa(algorithm) {
                front
            } else {
                front.insert(fingerprint, listed[at])
            },
            Err(_) => front,
        }
    }
}

/// The authorized keys that a list of OpenSSH texts stands for.
pub open spec fn loaded_keys(listed: Seq<String>) -> Map<Seq<char>, Seq<char>> {
    collected_keys(texts(listed), public_keys_of(listed))
}

/// Every authorized key is supported and stands under its own fingerprint.
pub proof fn loaded_keys_are_supported(listed: Seq<String>, fingerprint: Seq<char>)
    requires
        loaded_keys(listed).contains_key(fingerprint),
    ensures
        is_usable(public_key_of(loaded_keys(listed)[fingerprint])),
        public_key_of(loaded_keys(listed)[fingerprint]) matches Ok((_, own)) && own
            == fingerprint,
        texts(listed).contains(loaded_keys(listed)[fingerprint]),
    decreases listed.len(),
{
    if listed.len() > 0 {
        let at = listed.len() - 1;
        let front = listed.drop_last();
        assert(texts(listed).take(at) == texts(front));
        assert(public_keys_of(listed).take(at) == public_keys_of(front));
        assert(texts(listed)[at] == listed[at]@);
        assert(public_keys_of(listed)[at] == public_key_of(listed[at]@));
        if loaded_keys(listed)[fingerprint] == listed[at]@ && is_usable(
            public_key_of(listed[at]@),
        ) && (public_key_of(listed[at]@) matches Ok((_, own)) && own == fingerprint) {
        } else {
            loaded_keys_are_supported(front, fingerprint);
            let i = choose|i: int|
                0 <= i < texts(front).len() && texts(front)[i] == loaded_keys(
                    front,
                )[fingerprint];
            assert(texts(listed)[i] == texts(front)[i]);
        }
    }
}

/// The texts of a map's values.
pub open spec fn value_texts(map: Map<Seq<char>, String>) -> Map<Seq<char>, Seq<char>> {
    map.map_values(|text: String| text@)
}

/// Collects the keys that were decoded and are supported.
pub fn collect_keys(listed: &Vec<String>, decoded: &Vec<Result<KeyInfo, String>>) -> (keys: TextMap<
    String,
>)
    requires
        listed@.len() == decoded@.len(),
    ensures
        keys.wf(),
        value_texts(keys@) == collected_keys(texts(listed@), key_results(decoded@)),
{
    let mut keys: TextMap<String> = TextMap::new();
    let ghost all = texts(listed@);
    let ghost results = key_results(decoded@);
    assert(value_texts(keys@) =~= collected_keys(all.take(0), results.take(0)));
    let mut i: usize = 0;
    while i < listed.len()
        invariant
            i <= listed@.len(),
            listed@.len() == decoded@.len(),
            all == texts(listed@),
            results == key_results(decoded@),
            keys.wf(),
            value_texts(keys@) == collected_keys(all.take(i as int), results.take(i as int)),
        decreases listed@.len() - i,
    {
        proof {
            assert(all.take(i + 1).take(i as int) == all.take(i as int));
            assert(results.take(i + 1).take(i as int) == results.take(i as int));
            assert(results[i as int] == key_result(decoded@[i as int]));
            assert(all[i as int] == listed@[i as int]@);
        }
        if let Ok(info) = &decoded[i] {
            if ensure_supported_algorithm(info.algorithm.as_str(), "authorized key").is_ok() {
                let ghost before = keys@;
                let _ = keys.insert(info.fingerprint.clone(), listed[i].clone());
                assert(value_texts(keys@) =~= value_texts(before).insert(
                    info.fingerprint@,
                    listed@[i as int]@,
                ));
            }
        }
        i = i + 1;
    }
    assert(all.take(all.len() as int) == all);
    assert(results.take(results.len() as int) == results);
    keys
}

/// The authorized keys that a list of OpenSSH texts stands for: one per
/// fingerprint, without RSA keys and what is no key.
pub fn load_keys(listed: &Vec<String>) -> (keys: TextMap<String>)
    ensures
        keys.wf(),
        value_texts(keys@) == loaded_keys(listed@),
{
    let decoded = decode_public_keys(listed);
    collect_keys(listed, &decoded)
}

/// The authorized keys and when their file was modified, after what was found at
/// its path. A file that cannot be examined or did not change changes nothing. A
/// file that cannot be read leaves no key: nobody is admitted.
pub open spec fn reloaded(
    keys: Map<Seq<char>, Seq<char>>,
    mtime: Mtime,
    reading: KeyFileReading,
) -> (Map<Seq<char>, Seq<char>>, Mtime) {
    match reading.mtime {
        Err(_) => (keys, mtime),
        Ok(current) => if current == mtime {
            (keys, mtime)
        } else {
            match reading.keys {
                Ok(listed) => (loaded_keys(listed@), current),
                Err(_) => (Map::empty(), current),
            }
        },
    }
}

/// Once the keys were reloaded, the same file changes nothing more.
pub proof fn reloading_again_changes_nothing(
    keys: Map<Seq<char>, Seq<char>>,
    mtime: Mtime,
    reading: KeyFileReading,
)
    ensures
        ({
            let (after, at) = reloaded(keys, mtime, reading);
            reloaded(after, at, reading) == (after, at)
        }),
{
}

/// The token in a request's headers, unless the nonce or the token is missing.
pub open spec fn presented_token(nonce: Option<Seq<char>>, auth_header: Seq<char>) -> Result<
    Seq<char>,
    AuthError,
> {
    if nonce is None {
        Err(AuthError::MissingNonce)
    } else {
        match bearer_token(auth_header) {
            Some(token) => Ok(token),
            None => Err(AuthError::NotBearer),
        }
    }
}

/// What a request is answered whose token was signed by `signer`, if by anyone: an
/// admitted request is known by its signer. The nonce only counts with a good
/// signature.
pub open spec fn admission(
    signer: Option<Seq<char>>,
    seen: Map<Seq<char>, u128>,
    nonce: Seq<char>,
    now: u128,
    window: u128,
) -> Result<Seq<char>, AuthError> {
    match signer {
        None => Err(AuthError::VerificationFailed),
        Some(fingerprint) => match verdict_on(seen, nonce, now, window) {
            Ok(()) => Ok(fingerprint),
            Err(error) => Err(AuthError::Nonce(error)),
        },
    }
}

/// The fingerprint of the key that an admitted request was signed with, or why the
/// request is refused.
pub open spec fn answer_view(answer: Result<String, AuthError>) -> Result<Seq<char>, AuthError> {
    match answer {
        Ok(fingerprint) => Ok(fingerprint@),
        Err(error) => Err(error),
    }
}

/// The nonces seen after such a request.
pub open spec fn seen_after_request(
    signer: Option<Seq<char>>,
    seen: Map<Seq<char>, u128>,
    nonce: Seq<char>,
    now: u128,
    window: u128,
) -> Map<Seq<char>, u128> {
    if signer is None {
        seen
    } else {
        seen_after(seen, nonce, now, window)
    }
}

/// For how long nonces are remembered, in nanoseconds.
pub open spec fn nonce_window(max_skew: u64) -> int {
    max_skew * 2 * NANOS_PER_SEC
}

/// A token that was admitted is not admitted again: while its time is within the
/// skew of the clock, its nonce is remembered. `clock` counts whole seconds and
/// `now` nanoseconds of the same time. This leaves out one case: a token that was
/// signed as far ahead of the first clock as the skew allows, and comes back when
/// the nonce's window has just passed, within the same second.
pub proof fn an_admitted_token_is_not_admitted_again(
    signature: (Seq<char>, u64),
    max_skew: u64,
    seen: Map<Seq<char>, u128>,
    nonce: Seq<char>,
    clock: u64,
    now: u128,
    between: Seq<(Seq<char>, u128)>,
    later_clock: u64,
    later: u128,
    window: u128,
)
    requires
        window == nonce_window(max_skew),
        admission(signer_at(Some(signature), max_skew, clock), seen, nonce, now, window) is Ok,
        now <= later,
        forall|i: int| 0 <= i < between.len() ==> now <= (#[trigger] between[i]).1 <= later,
        (later_clock - clock - 1) * NANOS_PER_SEC < later - now < (later_clock - clock + 1)
            * NANOS_PER_SEC,
        !(signature.1 == clock + max_skew && later_clock == signature.1 + max_skew && later - now
            >= window),
    ensures
        admission(
            signer_at(Some(signature), max_skew, later_clock),
            seen_after_all(seen_after(seen, nonce, now, window), between, window),
            nonce,
            later,
            window,
        ) is Err,
{
    if signer_at(Some(signature), max_skew, later_clock) is Some {
        if later - now >= window {
            assert(later_clock - clock + 1 > max_skew * 2) by (nonlinear_arith)
                requires
                    later - now < (later_clock - clock + 1) * NANOS_PER_SEC,
                    later - now >= window,
                    window == max_skew * 2 * NANOS_PER_SEC,
                    NANOS_PER_SEC == 1_000_000_000,
            ;
        } else {
            replays_within_the_window_are_refused(seen, nonce, now, between, later, window);
        }
    }
}

/// Authenticates requests by the SSH keys that a file lists.
#[derive(Debug)]
pub struct SshKeyAuthenticator {
    path: String,
    max_skew: u64,
    keys: TextMap<String>,
    mtime: Mtime,
    nonces: NonceStore,
}

impl SshKeyAuthenticator {
    /// The path of the authorized keys.
    pub closed spec fn path(&self) -> Seq<char> {
        self.path@
    }

    /// By how many seconds the clocks of client and server may differ.
    pub closed spec fn max_skew(&self) -> u64 {
        self.max_skew
    }

    /// The authorized keys as OpenSSH texts, each under its fingerprint.
    pub closed spec fn keys(&self) -> Map<Seq<char>, Seq<char>> {
        value_texts(self.keys@)
    }

    /// The authorized keys as a list.
    pub closed spec fn key_list(&self) -> Seq<Seq<char>> {
        texts(self.keys.values())
    }

    /// When the file of the keys was modified.
    pub closed spec fn mtime(&self) -> Mtime {
        self.mtime
    }

    /// The nonces that were seen.
    pub closed spec fn nonces(&self) -> Map<Seq<char>, u128> {
        self.nonces@
    }

    /// For how long a nonce is remembered, in nanoseconds.
    pub closed spec fn window(&self) -> u128 {
        self.nonces.window()
    }

    /// One key per fingerprint, and nonces are remembered for twice the skew.
    pub closed spec fn wf(&self) -> bool {
        &&& self.keys.wf()
        &&& self.nonces.wf()
        &&& self.nonces.window() == nonce_window(self.max_skew)
    }

    /// What `wf` means of the window.
    pub proof fn window_is_twice_the_skew(&self)
        requires
            self.wf(),
        ensures
            self.window() == nonce_window(self.max_skew()),
    {
    }

    /// The list holds the authorized keys and nothing else.
    pub proof fn key_list_is_the_keys(&self, text: Seq<char>)
        requires
            self.wf(),
        ensures
            self.key_list().contains(text) <==> exists|fingerprint: Seq<char>| #[trigger]
                self.keys().contains_key(fingerprint) && self.keys()[fingerprint] == text,
    {
        let values = self.keys.values();
        if self.key_list().contains(text) {
            let i = choose|i: int| 0 <= i < values.len() && texts(values)[i] == text;
            assert(values.contains(values[i]));
            self.keys.values_belong_to_keys(values[i]);
            let key = choose|key: Seq<char>| #[trigger]
                self.keys@.contains_key(key) && self.keys@[key] == values[i];
            assert(self.keys().contains_key(key));
        }
        if exists|fingerprint: Seq<char>| #[trigger]
            self.keys().contains_key(fingerprint) && self.keys()[fingerprint] == text {
            let key = choose|fingerprint: Seq<char>| #[trigger]
                self.keys().contains_key(fingerprint) && self.keys()[fingerprint] == text;
            assert(self.keys@.contains_key(key));
            self.keys.values_belong_to_keys(self.keys@[key]);
            let i = choose|i: int| 0 <= i < values.len() && values[i] == self.keys@[key];
            assert(texts(values)[i] == text);
        }
    }

    /// An authenticator for the keys at `path`. There must be at least one.
    pub fn new(path: &str, reading: KeyFileReading) -> (made: Result<Self, String>)
        ensures
            match (reading.keys, reading.mtime) {
                (Err(cause), _) => made matches Err(error) && error@ == caused_by(
                    "failed to read authorized keys from "@ + path@,
                    cause@,
                ),
                (Ok(listed), mtime) => if loaded_keys(listed@) == Map::<
                    Seq<char>,
                    Seq<char>,
                >::empty() {
                    made matches Err(error) && error@ == "no supported SSH public keys in "@ + path@
                        + " (note: RSA is not supported, use Ed25519 or ECDSA)"@
                } else {
                    match mtime {
                        Err(cause) => made matches Err(error) && error@ == caused_by(
                            "failed to stat "@ + path@,
                            cause@,
                        ),
                        Ok(at) => made matches Ok(a) && a.wf() && a.path() == path@ && a.max_skew()
                            == MAX_SKEW && a.keys() == loaded_keys(listed@) && a.mtime() == at
                            && a.nonces() == Map::<Seq<char>, u128>::empty(),
                    }
                },
            },
    {
        let listed = match reading.keys {
            Ok(listed) => listed,
            Err(cause) => {
                let context = chain("failed to read authorized keys from ", path);
                return Err(with_cause(context.as_str(), cause.as_str()));
            },
        };
        let keys = load_keys(&listed);
        if keys.len() == 0 {
            proof {
                assert(value_texts(keys@) =~= Map::<Seq<char>, Seq<char>>::empty()) by {
                    assert(keys@.dom() =~= Set::<Seq<char>>::empty());
                }
            }
            let start = chain("no supported SSH public keys in ", path);
            return Err(
                chain(
                    start.as_str(),
                    " (note: RSA is not supported, use Ed25519 or ECDSA)",
                ),
            );
        }
        proof {
            assert(value_texts(keys@).dom() =~= keys@.dom());
            if loaded_keys(listed@) == Map::<Seq<char>, Seq<char>>::empty() {
                assert(keys@.dom() =~= Set::<Seq<char>>::empty());
            }
        }
        let mtime = match reading.mtime {
            Ok(mtime) => mtime,
            Err(cause) => {
                let context = chain("failed to stat ", path);
                return Err(with_cause(context.as_str(), cause.as_str()));
            },
        };
        Ok(
            SshKeyAuthenticator {
                path: path.to_owned(),
                max_skew: MAX_SKEW,
                keys,
                mtime,
                nonces: NonceStore::new(MAX_SKEW),
            },
        )
    }

    /// The same authenticator with another skew and no nonce seen.
    pub fn with_max_skew(self, max_skew: u64) -> (changed: Self)
        requires
            self.wf(),
            max_skew * 2 <= u64::MAX,
        ensures
            changed.wf(),
            changed.path() == self.path(),
            changed.keys() == self.keys(),
            changed.key_list() == self.key_list(),
            changed.mtime() == self.mtime(),
            changed.max_skew() == max_skew,
            changed.nonces() == Map::<Seq<char>, u128>::empty(),
    {
        SshKeyAuthenticator {
            path: self.path,
            max_skew,
            keys: self.keys,
            mtime: self.mtime,
            nonces: NonceStore::new(max_skew),
        }
    }

    /// The number of authorized keys.
    pub fn key_count(&self) -> (count: usize)
        requires
            self.wf(),
        ensures
            count == self.keys().dom().len(),
    {
        proof {
            assert(self.keys().dom() =~= self.keys@.dom());
        }
        self.keys.len()
    }

    /// The fingerprints of the authorized keys, each once.
    pub fn fingerprints(&self) -> (list: Vec<String>)
        requires
            self.wf(),
        ensures
            texts(list@).no_duplicates(),
            forall|fingerprint: Seq<char>| #[trigger]
                texts(list@).contains(fingerprint) <==> self.keys().contains_key(fingerprint),
    {
        self.keys.keys()
    }

    /// The path of the authorized keys.
    pub fn key_file(&self) -> (path: &str)
        ensures
            path@ == self.path(),
    {
        self.path.as_str()
    }

    /// By how many seconds the clocks of client and server may differ.
    pub fn skew_seconds(&self) -> (seconds: u64)
        ensures
            seconds == self.max_skew(),
    {
        self.max_skew
    }

    /// Whether the file has to be read again: it can be examined and was modified
    /// since.
    pub fn needs_reload(&self, mtime: &Result<Mtime, String>) -> (needed: bool)
        ensures
            needed == (mtime matches Ok(current) && current != self.mtime()),
    {
        match mtime {
            Ok(current) => *current != self.mtime,
            Err(_) => false,
        }
    }

    /// Takes over the authorized keys where their file was modified. A file that
    /// can no longer be read leaves no key.
    pub fn maybe_reload(&mut self, reading: &KeyFileReading)
        requires
            old(self).wf(),
        ensures
            final(self).wf(),
            (final(self).keys(), final(self).mtime()) == reloaded(
                old(self).keys(),
                old(self).mtime(),
                *reading,
            ),
            final(self).path() == old(self).path(),
            final(self).max_skew() == old(self).max_skew(),
            final(self).nonces() == old(self).nonces(),
            final(self).window() == old(self).window(),
    {
        if !self.needs_reload(&reading.mtime) {
            return ;
        }
        if let Ok(current) = &reading.mtime {
            self.keys = match &reading.keys {
                Ok(listed) => load_keys(listed),
                Err(_) => TextMap::new(),
            };
            self.mtime = *current;
            assert(reading.keys is Err ==> self.keys() =~= Map::<Seq<char>, Seq<char>>::empty());
        }
    }

    /// The authorized keys as a list.
    fn key_texts(&self) -> (list: Vec<String>)
        requires
            self.wf(),
        ensures
            texts(list@) == self.key_list(),
    {
        let mut list: Vec<String> = Vec::new();
        let len: usize = self.keys.len();
        let mut i: usize = 0;
        while i < len
            invariant
                i <= len,
                self.keys.wf(),
                len == self.keys.values().len(),
                texts(list@) == texts(self.keys.values()).take(i as int),
            decreases len - i,
        {
            let ghost before = texts(list@);
            let entry = self.keys.entry(i);
            list.push(entry.1.clone());
            assert(texts(list@) == before.push(entry.1@));
            assert(texts(self.keys.values()).take(i + 1) == texts(self.keys.values()).take(
                i as int,
            ).push(texts(self.keys.values())[i as int]));
            i = i + 1;
        }
        assert(texts(self.keys.values()).take(len as int) == texts(self.keys.values()));
        list
    }

    /// Checks a request. It is admitted when its token is signed by an authorized
    /// key for this request, lately, and its nonce was not used before; the answer is
    /// then the fingerprint of that key. `now` is a time on a clock that never goes
    /// back, in nanoseconds.
    pub fn check_request(
        &mut self,
        reading: &KeyFileReading,
        method: &str,
        path: &str,
        auth_header: &str,
        nonce: Option<&str>,
        channel_binding: Option<&str>,
        now: u128,
    ) -> (answer: Result<String, AuthError>)
        requires
            old(self).wf(),
        ensures
            final(self).wf(),
            (final(self).keys(), final(self).mtime()) == reloaded(
                old(self).keys(),
                old(self).mtime(),
                *reading,
            ),
            final(self).path() == old(self).path(),
            final(self).max_skew() == old(self).max_skew(),
            final(self).window() == old(self).window(),
            match presented_token(opt_str(nonce), auth_header@) {
                Err(error) => answer == Err::<String, AuthError>(error) && final(self).nonces() == old(self).nonces(),
                Ok(token) => if !is_token(token) {
                    answer == Err::<String, AuthError>(AuthError::InvalidToken) && final(self).nonces() == old(self).nonces()
                } else {
                    exists|signer: Option<String>|
                        {
                            &&& #[trigger] is_verified(
                                token,
                                final(self).max_skew(),
                                token_actions(
                                    method@,
                                    path@,
                                    nonce.unwrap()@,
                                    opt_str(channel_binding),
                                ),
                                final(self).key_list(),
                                signer,
                            )
                            &&& answer_view(answer) == admission(
                                opt_text(signer),
                                old(self).nonces(),
                                nonce.unwrap()@,
                                now,
                                old(self).window(),
                            )
                            &&& final(self).nonces() == seen_after_request(
                                opt_text(signer),
                                old(self).nonces(),
                                nonce.unwrap()@,
                                now,
                                old(self).window(),
                            )
                        }
                },
            },
            final(self).keys() == Map::<Seq<char>, Seq<char>>::empty() ==> answer is Err,
    {
        self.maybe_reload(reading);
        let nonce = match nonce {
            Some(nonce) => nonce,
            None => return Err(AuthError::MissingNonce),
        };
        let token = match strip_prefix(auth_header, "Bearer ") {
            Some(token) => token,
            None => return Err(AuthError::NotBearer),
        };
        if !token_decodes(token.as_str()) {
            return Err(AuthError::InvalidToken);
        }
        let keys = self.key_texts();
        let actions = actions_for(method, path, nonce, channel_binding);
        let signer = verify_token(
            token.as_str(),
            SSHAUTH_MAGIC_PREFIX,
            self.max_skew,
            &actions,
            &keys,
        );
        assert(is_verified(
            token@,
            self.max_skew,
            action_texts(actions@),
            self.key_list(),
            signer,
        ));
        proof {
            if self.keys() == Map::<Seq<char>, Seq<char>>::empty() {
                if self.key_list().len() > 0 {
                    assert(self.key_list().contains(self.key_list()[0]));
                    self.key_list_is_the_keys(self.key_list()[0]);
                }
            }
        }
        self.use_signer(signer, nonce, now)
    }

    /// Answers a request whose token was signed by `signer`, if by anyone.
    pub fn use_signer(&mut self, signer: Option<String>, nonce: &str, now: u128) -> (answer: Result<
        String,
        AuthError,
    >)
        requires
            old(self).wf(),
        ensures
            final(self).wf(),
            final(self).keys() == old(self).keys(),
            final(self).key_list() == old(self).key_list(),
            final(self).mtime() == old(self).mtime(),
            final(self).path() == old(self).path(),
            final(self).max_skew() == old(self).max_skew(),
            final(self).window() == old(self).window(),
            answer_view(answer) == admission(
                opt_text(signer),
                old(self).nonces(),
                nonce@,
                now,
                old(self).window(),
            ),
            final(self).nonces() == seen_after_request(
                opt_text(signer),
                old(self).nonces(),
                nonce@,
                now,
                old(self).window(),
            ),
    {
        let fingerprint = match signer {
            Some(fingerprint) => fingerprint,
            None => return Err(AuthError::VerificationFailed),
        };
        match self.nonces.check_and_insert_and_prune_old(nonce, now) {
            Ok(()) => Ok(fingerprint),
            Err(error) => Err(AuthError::Nonce(error)),
        }
    }
}

/// Where authorized keys are looked for when no path is given: the system's
/// configuration, then the service's credentials, then those of the system.
pub open spec fn key_file_places(creds_dir: Option<Seq<char>>, root: Seq<char>) -> Seq<Seq<char>> {
    let etc = path_join(root, "etc/varlink-http-bridge/authorized_keys"@);
    let system = path_join(
        path_join(root, "run/credentials/@system"@),
        "ssh.authorized_keys.root"@,
    );
    match creds_dir {
        Some(dir) => seq![etc, path_join(dir, "ssh.authorized_keys.root"@), system],
        None => seq![etc, system],
    }
}

/// Where authorized keys are looked for when no path is given.
pub fn authorized_keys_places(creds_dir: Option<&str>, root: &str) -> (places: Vec<String>)
    ensures
        texts(places@) == key_file_places(opt_str(creds_dir), root@),
{
    let mut places: Vec<String> = Vec::new();
    places.push(join_path(root, "etc/varlink-http-bridge/authorized_keys"));
    if let Some(dir) = creds_dir {
        places.push(join_path(dir, "ssh.authorized_keys.root"));
    }
    let system = join_path(root, "run/credentials/@system");
    places.push(join_path(system.as_str(), "ssh.authorized_keys.root"));
    assert(texts(places@) == key_file_places(opt_str(creds_dir), root@));
    places
}

/// The path of the authorized keys: the one given on the command line, or the
/// first place where there is a file. `existing` lists those places.
pub fn authorized_keys_path(
    cli_authorized_keys: Option<String>,
    creds_dir: Option<&str>,
    root: &str,
    existing: &Vec<String>,
) -> (path: Option<String>)
    ensures
        opt_text(path) == match cli_authorized_keys {
            Some(given) => Some(given@),
            None => first_existing(
                key_file_places(opt_str(creds_dir), root@),
                texts(existing@),
            ),
        },
{
    if cli_authorized_keys.is_some() {
        return cli_authorized_keys;
    }
    let places = authorized_keys_places(creds_dir, root);
    find_existing(&places, existing)
}

/// An authenticator for the authorized keys, where there is a path for them and
/// with what was found there.
pub fn maybe_create_ssh_authenticator(found: Option<(String, KeyFileReading)>) -> (made: Result<
    Option<SshKeyAuthenticator>,
    String,
>)
    ensures
        match found {
            None => made matches Ok(None),
            Some((path, reading)) => match made {
                Ok(Some(a)) => a.wf() && a.path() == path@ && a.max_skew() == MAX_SKEW && (
                reading.keys matches Ok(listed) && a.keys() == loaded_keys(listed@)) && (
                reading.mtime matches Ok(at) && a.mtime() == at) && a.keys() != Map::<
                    Seq<char>,
                    Seq<char>,
                >::empty() && a.nonces() == Map::<Seq<char>, u128>::empty(),
                Ok(None) => false,
                Err(error) => match (reading.keys, reading.mtime) {
                    (Err(cause), _) => error@ == caused_by(
                        "failed to read authorized keys from "@ + path@,
                        cause@,
                    ),
                    (Ok(listed), mtime) => if loaded_keys(listed@) == Map::<
                        Seq<char>,
                        Seq<char>,
                    >::empty() {
                        error@ == "no supported SSH public keys in "@ + path@
                            + " (note: RSA is not supported, use Ed25519 or ECDSA)"@
                    } else {
                        mtime matches Err(cause) && error@ == caused_by(
                            "failed to stat "@ + path@,
                            cause@,
                        )
                    },
                },
            },
        },
{
    match found {
        None => Ok(None),
        Some((path, reading)) => match SshKeyAuthenticator::new(path.as_str(), reading) {
            Ok(authenticator) => Ok(Some(authenticator)),
            Err(error) => Err(error),
        },
    }
}

/// A refusal tells why, and one for the nonce tells what is wrong with the nonce.
pub proof fn refusals_tell_their_reason(error: &AuthError, message: String)
    requires
        call_ensures(AuthError::message, (error,), message),
    ensures
        *error is MissingNonce ==> message@ == "missing nonce header (x-auth-nonce)"@,
        *error is NotBearer ==> message@ == "Authorization header must start with 'Bearer '"@,
        *error is InvalidToken ==> message@ == "invalid token"@,
        *error is VerificationFailed ==> message@ == "token verification failed"@,
        *error matches AuthError::Nonce(why) ==> message@ == why.text(),
{
}

/// A token counts for its signer exactly when the time of its signature is no more than
/// the skew away from the clock, on either side.
pub proof fn signatures_count_within_the_skew(
    fingerprint: Seq<char>,
    signed_at: u64,
    max_skew: u64,
    clock: u64,
)
    ensures
        signer_at(None, max_skew, clock) is None,
        signer_at(Some((fingerprint, signed_at)), max_skew, clock) is Some <==> {
            &&& clock >= signed_at ==> clock - signed_at <= max_skew
            &&& clock < signed_at ==> signed_at - clock <= max_skew
        },
        signer_at(Some((fingerprint, signed_at)), max_skew, clock) matches Some(signer) ==> signer
            == fingerprint,
{
}

/// A request has to have a nonce and a token, whatever they are: without a nonce it is
/// refused for that, and without "Bearer " before the token for that. Otherwise the token
/// is all that follows.
pub proof fn requests_have_to_present_both(
    nonce: Seq<char>,
    auth_header: Seq<char>,
    token: Seq<char>,
)
    ensures
        presented_token(None, auth_header) == Err::<Seq<char>, AuthError>(AuthError::MissingNonce),
        presented_token(Some(nonce), "Bearer "@ + token) == Ok::<Seq<char>, AuthError>(token),
        !"Bearer "@.is_prefix_of(auth_header) ==> presented_token(Some(nonce), auth_header)
            == Err::<Seq<char>, AuthError>(AuthError::NotBearer),
{
    prefixes_are_taken_off("Bearer "@ + token, "Bearer "@, token);
}

/// A request is admitted, as its signer, exactly when its token is signed and its nonce is
/// good. Without a signature the nonce is not looked at, and neither is it remembered.
pub proof fn requests_are_admitted_as_their_signer(
    signer: Option<Seq<char>>,
    seen: Map<Seq<char>, u128>,
    nonce: Seq<char>,
    now: u128,
    window: u128,
)
    ensures
        admission(signer, seen, nonce, now, window) is Ok <==> signer is Some && verdict_on(
            seen,
            nonce,
            now,
            window,
        ) is Ok,
        admission(signer, seen, nonce, now, window) matches Ok(fingerprint) ==> signer == Some(
            fingerprint,
        ),
        signer is None ==> admission(signer, seen, nonce, now, window) == Err::<
            Seq<char>,
            AuthError,
        >(AuthError::VerificationFailed),
        signer is Some ==> (verdict_on(seen, nonce, now, window) matches Err(error) ==> admission(
            signer,
            seen,
            nonce,
            now,
            window,
        ) == Err::<Seq<char>, AuthError>(AuthError::Nonce(error))),
        signer is None ==> seen_after_request(signer, seen, nonce, now, window) == seen,
        signer is Some ==> seen_after_request(signer, seen, nonce, now, window) == seen_after(
            seen,
            nonce,
            now,
            window,
        ),
{
}

/// Nonces are remembered for twice the skew, in nanoseconds.
pub proof fn nonces_outlast_their_tokens(max_skew: u64)
    ensures
        nonce_window(max_skew) == max_skew * 2_000_000_000,
{
}

/// The keys change only when their file can be examined and was modified at another time.
/// Then they are the keys that the file lists now, or none where it cannot be read, and
/// that time is kept, whatever the keys were before.
pub proof fn keys_follow_their_file(
    keys: Map<Seq<char>, Seq<char>>,
    mtime: Mtime,
    reading: KeyFileReading,
    other_keys: Map<Seq<char>, Seq<char>>,
)
    ensures
        reading.mtime is Err ==> reloaded(keys, mtime, reading) == (keys, mtime),
        reading.mtime matches Ok(current) ==> (current == mtime ==> reloaded(keys, mtime, reading)
            == (keys, mtime)),
        reading.mtime matches Ok(current) ==> reloaded(keys, mtime, reading).1 == current,
        reading.mtime matches Ok(current) ==> (current != mtime ==> {
            &&& reloaded(keys, mtime, reading) == reloaded(other_keys, mtime, reading)
            &&& reading.keys matches Ok(listed) ==> reloaded(keys, mtime, reading).0 == loaded_keys(
                listed@,
            )
            &&& reading.keys is Err ==> forall|fingerprint: Seq<char>|
                !(#[trigger] reloaded(keys, mtime, reading).0.contains_key(fingerprint))
        }),
{
}

/// Every key of a list that is supported is authorized under its fingerprint, unless a
/// later one has the same fingerprint; then that one is.
pub proof fn every_supported_key_is_loaded(listed: Seq<String>, at: int, fingerprint: Seq<char>)
    requires
        0 <= at < listed.len(),
        is_usable(public_key_of(listed[at]@)),
        public_key_of(listed[at]@) matches Ok((_, own)) && own == fingerprint,
        forall|i: int|
            at < i < listed.len() && is_usable(public_key_of((#[trigger] listed[i])@)) ==> (
            public_key_of(listed[i]@) matches Ok((_, own)) && own != fingerprint),
    ensures
        loaded_keys(listed).contains_key(fingerprint),
        loaded_keys(listed)[fingerprint] == listed[at]@,
    decreases listed.len(),
{
    let last = listed.len() - 1;
    let front = listed.drop_last();
    assert(texts(listed).take(last) == texts(front));
    assert(public_keys_of(listed).take(last) == public_keys_of(front));
    assert(texts(listed)[last] == listed[last]@);
    assert(public_keys_of(listed)[last] == public_key_of(listed[last]@));
    if at < last {
        assert(front[at] == listed[at]);
        assert forall|i: int|
            at < i < front.len() && is_usable(public_key_of((#[trigger] front[i])@)) implies (
        public_key_of(front[i]@) matches Ok((_, own)) && own != fingerprint) by {
            assert(front[i] == listed[i]);
        }
        every_supported_key_is_loaded(front, at, fingerprint);
        if is_usable(public_key_of(listed[last]@)) {
            assert(public_key_of(listed[last]@) matches Ok((_, own)) && own != fingerprint);
        }
    }
}

/// An authenticator is made exactly when the keys can be read, one of them is supported
/// and the file can be examined. It is for that path, holds those keys, allows 60 seconds
/// of skew and has seen nothing.
pub proof fn authenticators_hold_their_keys(
    path: &str,
    reading: KeyFileReading,
    made: Result<SshKeyAuthenticator, String>,
)
    requires
        call_ensures(SshKeyAuthenticator::new, (path, reading), made),
    ensures
        made is Ok <==> reading.mtime is Ok && (reading.keys matches Ok(listed)
            && exists|fingerprint: Seq<char>| #[trigger]
            loaded_keys(listed@).contains_key(fingerprint)),
        made matches Ok(a) ==> {
            &&& a.path() == path@
            &&& a.max_skew() == 60
            &&& reading.keys matches Ok(listed) && a.keys() == loaded_keys(listed@)
            &&& reading.mtime matches Ok(at) && a.mtime() == at
            &&& forall|nonce: Seq<char>| !(#[trigger] a.nonces().contains_key(nonce))
        },
        reading.keys matches Err(cause) ==> (made matches Err(error) && error@
            == "failed to read authorized keys from "@ + path@ + ": "@ + cause@),
{
    if let Ok(listed) = reading.keys {
        let keys = loaded_keys(listed@);
        if forall|fingerprint: Seq<char>| !(#[trigger] keys.contains_key(fingerprint)) {
            assert(keys =~= Map::<Seq<char>, Seq<char>>::empty());
        }
    }
}

/// Another skew leaves the path, the keys and their time as they are, and forgets the
/// nonces.
pub proof fn another_skew_changes_nothing_else(
    authenticator: SshKeyAuthenticator,
    max_skew: u64,
    changed: SshKeyAuthenticator,
)
    requires
        authenticator.wf(),
        max_skew * 2 <= u64::MAX,
        call_ensures(SshKeyAuthenticator::with_max_skew, (authenticator, max_skew), changed),
    ensures
        changed.max_skew() == max_skew,
        changed.window() == max_skew * 2_000_000_000,
        changed.path() == authenticator.path(),
        changed.keys() == authenticator.keys(),
        changed.mtime() == authenticator.mtime(),
        forall|nonce: Seq<char>| !(#[trigger] changed.nonces().contains_key(nonce)),
{
    changed.window_is_twice_the_skew();
}

/// The file has to be read again exactly when it can be examined and was modified at
/// another time, and then reading it decides the keys.
pub proof fn changed_files_are_read_again(
    authenticator: &SshKeyAuthenticator,
    reading: KeyFileReading,
    needed: bool,
)
    requires
        call_ensures(SshKeyAuthenticator::needs_reload, (authenticator, &reading.mtime), needed),
    ensures
        needed <==> (reading.mtime matches Ok(current) && current != authenticator.mtime()),
        !needed ==> reloaded(authenticator.keys(), authenticator.mtime(), reading) == (
            authenticator.keys(),
            authenticator.mtime(),
        ),
{
}

/// There are as many authorized keys as fingerprints, and all of these are told.
pub proof fn all_fingerprints_are_told(
    authenticator: &SshKeyAuthenticator,
    list: Vec<String>,
    count: usize,
)
    requires
        authenticator.wf(),
        call_ensures(SshKeyAuthenticator::fingerprints, (authenticator,), list),
        call_ensures(SshKeyAuthenticator::key_count, (authenticator,), count),
    ensures
        count == list@.len(),
        forall|fingerprint: Seq<char>| #[trigger]
            texts(list@).contains(fingerprint) <==> authenticator.keys().contains_key(fingerprint),
{
    let told = texts(list@);
    assert(told.to_set() =~= authenticator.keys().dom());
    told.unique_seq_to_set();
}

/// Keys are looked for in the system's configuration, then among the service's
/// credentials, where there are any, then among those of the system.
pub proof fn key_files_have_their_order(creds_dir: Seq<char>, root: Seq<char>)
    ensures
        ({
            let with = key_file_places(Some(creds_dir), root);
            let without = key_file_places(None, root);
            &&& with.len() == 3
            &&& with[0] == path_join(root, "etc/varlink-http-bridge/authorized_keys"@)
            &&& with[1] == path_join(creds_dir, "ssh.authorized_keys.root"@)
            &&& with[2] == path_join(
                path_join(root, "run/credentials/@system"@),
                "ssh.authorized_keys.root"@,
            )
            &&& without == with.remove(1)
        }),
{
    let with = key_file_places(Some(creds_dir), root);
    assert(key_file_places(None, root) == with.remove(1));
}

/// A path that is given is used whether it exists or not; without one, the first place
/// that exists is.
pub proof fn given_key_files_go_first(
    cli_authorized_keys: Option<String>,
    creds_dir: Option<&str>,
    root: &str,
    existing: &Vec<String>,
    path: Option<String>,
    at: int,
)
    requires
        call_ensures(
            authorized_keys_path,
            (cli_authorized_keys, creds_dir, root, existing),
            path,
        ),
        ({
            let places = key_file_places(opt_str(creds_dir), root@);
            &&& 0 <= at <= places.len()
            &&& forall|i: int| 0 <= i < at ==> !texts(existing@).contains(#[trigger] places[i])
            &&& at < places.len() ==> texts(existing@).contains(places[at])
        }),
    ensures
        cli_authorized_keys matches Some(given) ==> (path matches Some(used) && used@ == given@),
        cli_authorized_keys is None ==> (path is Some <==> at < key_file_places(
            opt_str(creds_dir),
            root@,
        ).len()),
        cli_authorized_keys is None ==> (path matches Some(used) ==> used@ == key_file_places(
            opt_str(creds_dir),
            root@,
        )[at]),
{
    the_first_existing_is_found(key_file_places(opt_str(creds_dir), root@), texts(existing@), at);
}

/// Without a path for keys there is no authenticator. With one there is, or the server does
/// not start: it never runs without the keys that it was to have.
pub proof fn missing_keys_are_an_error(
    found: Option<(String, KeyFileReading)>,
    made: Result<Option<SshKeyAuthenticator>, String>,
)
    requires
        call_ensures(maybe_create_ssh_authenticator, (found,), made),
    ensures
        (made matches Ok(None)) <==> found is None,
        found matches Some((path, reading)) ==> {
            &&& made is Ok <==> reading.mtime is Ok && (reading.keys matches Ok(listed)
                && loaded_keys(listed@) != Map::<Seq<char>, Seq<char>>::empty())
            &&& made matches Ok(Some(a)) ==> a.path() == path@ && (reading.keys matches Ok(listed)
                && a.keys() == loaded_keys(listed@)) && (reading.mtime matches Ok(at) && a.mtime()
                == at)
        },
{
}

/// Every request that is admitted has a nonce and a token behind "Bearer ", which one of
/// the authorized keys signed under this program's prefix, within the skew of the clock,
/// for this method, this path, this nonce and this channel. The answer is that key's
/// fingerprint. The nonce has at least 16 bytes, was not remembered, and is from now on.
pub proof fn admitted_requests_are_signed(
    authenticator: &mut SshKeyAuthenticator,
    reading: &KeyFileReading,
    method: &str,
    path: &str,
    auth_header: &str,
    nonce: Option<&str>,
    channel_binding: Option<&str>,
    now: u128,
    answer: Result<String, AuthError>,
    signed: Seq<(Seq<char>, Seq<char>)>,
)
    requires
        old(authenticator).wf(),
        call_ensures(
            SshKeyAuthenticator::check_request,
            (authenticator, reading, method, path, auth_header, nonce, channel_binding, now),
            answer,
        ),
        signed.len() == if channel_binding is Some {
            4int
        } else {
            3int
        },
        signed[0] == ("method"@, method@),
        signed[1] == ("path"@, path@),
        nonce matches Some(text) ==> signed[2] == ("nonce"@, text@),
        channel_binding matches Some(text) ==> signed[3] == ("tls-channel-binding"@, text@),
    ensures
        answer matches Ok(fingerprint) ==> {
            let token = auth_header@.skip("Bearer "@.len() as int);
            let seen = old(authenticator).nonces();
            let own = nonce.unwrap()@;
            &&& nonce is Some
            &&& "Bearer "@.is_prefix_of(auth_header@)
            &&& is_token(token)
            &&& exists|clock: u64| #[trigger]
                signer_at(
                    signature_on(
                        token,
                        SSHAUTH_MAGIC_PREFIX@,
                        signed,
                        final(authenticator).key_list(),
                    ),
                    final(authenticator).max_skew(),
                    clock,
                ) == Some(fingerprint@)
            &&& is_fingerprint_of(final(authenticator).key_list(), fingerprint@)
            &&& encode_utf8(own).len() >= 16
            &&& old(authenticator).window() > 0 && seen.contains_key(own) ==> now >= seen[own]
                + old(authenticator).window()
            &&& final(authenticator).nonces().contains_key(own)
            &&& final(authenticator).nonces()[own] == now
        },
{
    if answer is Ok {
        let token = auth_header@.skip("Bearer "@.len() as int);
        let own = nonce.unwrap()@;
        let actions = token_actions(method@, path@, own, opt_str(channel_binding));
        actions_say_what_they_are(method@, path@, own, opt_str(channel_binding));
        assert(actions == signed) by {
            assert(actions.len() == signed.len());
        }
        let max_skew = final(authenticator).max_skew();
        let keys = final(authenticator).key_list();
        let signer = choose|signer: Option<String>|
            {
                &&& #[trigger] is_verified(token, max_skew, actions, keys, signer)
                &&& answer_view(answer) == admission(
                    opt_text(signer),
                    old(authenticator).nonces(),
                    own,
                    now,
                    old(authenticator).window(),
                )
                &&& final(authenticator).nonces() == seen_after_request(
                    opt_text(signer),
                    old(authenticator).nonces(),
                    own,
                    now,
                    old(authenticator).window(),
                )
            };
        verified_tokens_are_signed(token, max_skew, actions, keys, signer);
        short_nonces_change_nothing(
            old(authenticator).nonces(),
            own,
            now,
            old(authenticator).window(),
        );
        if encode_utf8(own).len() >= 16 {
            only_the_nonces_own_time_counts(
                old(authenticator).nonces(),
                own,
                now,
                old(authenticator).window(),
            );
            other_nonces_keep_their_time(
                old(authenticator).nonces(),
                own,
                now,
                old(authenticator).window(),
                own,
            );
        }
    }
}

/// A request without a nonce is refused for that, one without "Bearer " for that, and one
/// without a token that can be read for that, in this order and whatever else it holds.
/// None of them is remembered.
pub proof fn wrong_requests_are_refused_in_order(
    authenticator: &mut SshKeyAuthenticator,
    reading: &KeyFileReading,
    method: &str,
    path: &str,
    auth_header: &str,
    nonce: Option<&str>,
    channel_binding: Option<&str>,
    now: u128,
    answer: Result<String, AuthError>,
)
    requires
        old(authenticator).wf(),
        call_ensures(
            SshKeyAuthenticator::check_request,
            (authenticator, reading, method, path, auth_header, nonce, channel_binding, now),
            answer,
        ),
    ensures
        ({
            let bearer = "Bearer "@.is_prefix_of(auth_header@);
            let token = auth_header@.skip("Bearer "@.len() as int);
            &&& (answer matches Err(AuthError::MissingNonce)) <==> nonce is None
            &&& (answer matches Err(AuthError::NotBearer)) <==> nonce is Some && !bearer
            &&& (answer matches Err(AuthError::InvalidToken)) <==> nonce is Some && bearer
                && !is_token(token)
            &&& nonce is None || !bearer || !is_token(token) ==> final(authenticator).nonces()
                == old(authenticator).nonces()
            &&& (answer matches Err(AuthError::VerificationFailed)) ==> final(authenticator).nonces()
                == old(authenticator).nonces()
        }),
{
    if nonce is Some && "Bearer "@.is_prefix_of(auth_header@) {
        let token = auth_header@.skip("Bearer "@.len() as int);
        if is_token(token) {
            let own = nonce.unwrap()@;
            let signer = choose|signer: Option<String>|
                {
                    &&& #[trigger] is_verified(
                        token,
                        final(authenticator).max_skew(),
                        token_actions(method@, path@, own, opt_str(channel_binding)),
                        final(authenticator).key_list(),
                        signer,
                    )
                    &&& answer_view(answer) == admission(
                        opt_text(signer),
                        old(authenticator).nonces(),
                        own,
                        now,
                        old(authenticator).window(),
                    )
                    &&& final(authenticator).nonces() == seen_after_request(
                        opt_text(signer),
                        old(authenticator).nonces(),
                        own,
                        now,
                        old(authenticator).window(),
                    )
                };
            requests_are_admitted_as_their_signer(
                opt_text(signer),
                old(authenticator).nonces(),
                own,
                now,
                old(authenticator).window(),
            );
        }
    }
}

/// A request changes nothing of an authenticator but its nonces, and its keys where their
/// file was modified: then they are what the file lists, or none where it cannot be read.
pub proof fn requests_leave_the_rest_alone(
    authenticator: &mut SshKeyAuthenticator,
    reading: &KeyFileReading,
    method: &str,
    path: &str,
    auth_header: &str,
    nonce: Option<&str>,
    channel_binding: Option<&str>,
    now: u128,
    answer: Result<String, AuthError>,
)
    requires
        old(authenticator).wf(),
        call_ensures(
            SshKeyAuthenticator::check_request,
            (authenticator, reading, method, path, auth_header, nonce, channel_binding, now),
            answer,
        ),
    ensures
        final(authenticator).path() == old(authenticator).path(),
        final(authenticator).max_skew() == old(authenticator).max_skew(),
        final(authenticator).window() == old(authenticator).window(),
        reading.mtime is Err || reading.mtime == Ok::<Mtime, String>(old(authenticator).mtime())
            ==> final(authenticator).keys() == old(authenticator).keys()
            && final(authenticator).mtime() == old(authenticator).mtime(),
        reading.mtime matches Ok(current) ==> final(authenticator).mtime() == current,
        reading.mtime matches Ok(current) ==> (current != old(authenticator).mtime() ==> (
        reading.keys matches Ok(listed) ==> final(authenticator).keys() == loaded_keys(listed@))),
        reading.mtime matches Ok(current) ==> (current != old(authenticator).mtime()
            && reading.keys is Err ==> answer is Err),
{
}

/// Reloading takes over the keys of a file that was modified and leaves all else alone.
pub proof fn reloading_takes_over_the_keys(
    authenticator: &mut SshKeyAuthenticator,
    reading: &KeyFileReading,
)
    requires
        old(authenticator).wf(),
        call_ensures(SshKeyAuthenticator::maybe_reload, (authenticator, reading), ()),
    ensures
        final(authenticator).path() == old(authenticator).path(),
        final(authenticator).max_skew() == old(authenticator).max_skew(),
        final(authenticator).nonces() == old(authenticator).nonces(),
        reading.mtime is Err || reading.mtime == Ok::<Mtime, String>(old(authenticator).mtime())
            ==> final(authenticator).keys() == old(authenticator).keys(),
        reading.mtime matches Ok(current) ==> final(authenticator).mtime() == current,
        reading.mtime matches Ok(current) ==> (current != old(authenticator).mtime() ==> {
            &&& reading.keys matches Ok(listed) ==> final(authenticator).keys() == loaded_keys(
                listed@,
            )
            &&& reading.keys is Err ==> forall|fingerprint: Seq<char>|
                !(#[trigger] final(authenticator).keys().contains_key(fingerprint))
        }),
{
}

/// Whoever signed a request is answered with their own fingerprint where the nonce is
/// good, and nobody is where there is no signature.
pub proof fn signers_are_answered_by_name(
    authenticator: &mut SshKeyAuthenticator,
    signer: Option<String>,
    nonce: &str,
    now: u128,
    answer: Result<String, AuthError>,
)
    requires
        old(authenticator).wf(),
        call_ensures(
            SshKeyAuthenticator::use_signer,
            (authenticator, signer, nonce, now),
            answer,
        ),
    ensures
        signer is None ==> answer == Err::<String, AuthError>(AuthError::VerificationFailed)
            && final(authenticator).nonces() == old(authenticator).nonces(),
        answer matches Ok(fingerprint) ==> (signer matches Some(own) && own@ == fingerprint@),
        signer is Some ==> (answer is Ok <==> verdict_on(
            old(authenticator).nonces(),
            nonce@,
            now,
            old(authenticator).window(),
        ) is Ok),
        signer is Some ==> (answer matches Err(error) ==> (error matches AuthError::Nonce(why)
            && verdict_on(
            old(authenticator).nonces(),
            nonce@,
            now,
            old(authenticator).window(),
        ) == Err::<(), NonceError>(why))),
        signer is Some ==> final(authenticator).nonces() == seen_after(
            old(authenticator).nonces(),
            nonce@,
            now,
            old(authenticator).window(),
        ),
        final(authenticator).keys() == old(authenticator).keys(),
        final(authenticator).mtime() == old(authenticator).mtime(),
        final(authenticator).path() == old(authenticator).path(),
        final(authenticator).max_skew() == old(authenticator).max_skew(),
{
    requests_are_admitted_as_their_signer(
        opt_text(signer),
        old(authenticator).nonces(),
        nonce@,
        now,
        old(authenticator).window(),
    );
}

} // verus!
