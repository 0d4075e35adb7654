//! Nonces that were seen lately, kept against replayed requests.
//!
//! A signed token carries a timestamp that is only accepted within `max_skew`
//! seconds. The nonce of an accepted token is remembered for twice that long:
//! when it is forgotten, the token has expired.

use crate::text::{decimal, decimal_text};
use crate::text_map::TextMap;
use vstd::prelude::*;
use vstd::utf8::encode_utf8;

verus! {

/// The shortest nonce that is accepted, in bytes.
pub const MIN_NONCE_LEN: usize = 16;

/// Nanoseconds in a second.
pub const NANOS_PER_SEC: u128 = 1_000_000_000;

/// Why a nonce is refused.
#[derive(Debug, Clone, Copy, PartialEq, Eq, Structural)]
pub enum NonceError {
    /// The nonce has fewer bytes than the minimum: this many.
    TooShort(usize),
    /// The nonce was already used and is not yet forgotten.
    AlreadyUsed,
}

impl NonceError {
    /// The text of the error.
    pub open spec fn text(self) -> Seq<char> {
        match self {
            NonceError::TooShort(len) => "nonce too short ("@ + decimal(len as nat)
                + " bytes, minimum 16)"@,
            NonceError::AlreadyUsed => "nonce already used (possible replay attack)"@,
        }
    }

    /// The text of the error.
    pub fn message(&self) -> (message: String)
        ensures
            message@ == self.text(),
    {
        match self {
            NonceError::TooShort(len) => {
                let mut message = "nonce too short (".to_owned();
                message.append(decimal_text(*len as u64).as_str());
                message.append(" bytes, minimum 16)");
                message
            },
            NonceError::AlreadyUsed => "nonce already used (possible replay attack)".to_owned(),
        }
    }
}

/// The nonces seen lately, each with the time it was last presented. Times are
/// nanoseconds on a clock that never goes back.
#[derive(Debug)]
pub struct NonceStore {
    seen: TextMap<u128>,
    max_age: u128,
}

/// Whether a nonce seen at `seen_at` is still remembered at `now`.
pub open spec fn is_remembered(seen_at: u128, now: u128, max_age: u128) -> bool {
    (if now >= seen_at {
        now - seen_at
    } else {
        0
    }) < max_age
}

/// The nonces of `seen` that are still remembered at `now`.
pub open spec fn remembered(seen: Map<Seq<char>, u128>, now: u128, max_age: u128) -> Map<
    Seq<char>,
    u128,
> {
    Map::new(
        |nonce: Seq<char>| seen.contains_key(nonce) && is_remembered(seen[nonce], now, max_age),
        |nonce: Seq<char>| seen[nonce],
    )
}

/// Whether a nonce has the minimum length.
pub open spec fn is_long_enough(nonce: Seq<char>) -> bool {
    encode_utf8(nonce).len() >= MIN_NONCE_LEN
}

/// The nonces seen after `nonce` was presented at `now`: what is no longer
/// remembered is gone, and `nonce` counts from now on. A nonce that is too short
/// changes nothing.
pub open spec fn seen_after(
    seen: Map<Seq<char>, u128>,
    nonce: Seq<char>,
    now: u128,
    max_age: u128,
) -> Map<Seq<char>, u128> {
    if is_long_enough(nonce) {
        remembered(seen, now, max_age).insert(nonce, now)
    } else {
        seen
    }
}

/// What presenting `nonce` at `now` is answered with.
pub open spec fn verdict_on(
    seen: Map<Seq<char>, u128>,
    nonce: Seq<char>,
    now: u128,
    max_age: u128,
) -> Result<(), NonceError> {
    if !is_long_enough(nonce) {
        Err(NonceError::TooShort(encode_utf8(nonce).len() as usize))
    } else if remembered(seen, now, max_age).contains_key(nonce) {
        Err(NonceError::AlreadyUsed)
    } else {
        Ok(())
    }
}

impl NonceStore {
    /// The nonces that were seen, each with the time it was last presented.
    pub closed spec fn view(&self) -> Map<Seq<char>, u128> {
        self.seen@
    }

    /// For how long a nonce is remembered, in nanoseconds.
    pub closed spec fn window(&self) -> u128 {
        self.max_age
    }

    /// Each nonce is held once.
    pub closed spec fn wf(&self) -> bool {
        self.seen.wf()
    }

    /// An empty store that remembers a nonce for twice `max_skew_secs`.
    pub fn new(max_skew_secs: u64) -> (store: Self)
        requires
            max_skew_secs * 2 <= u64::MAX,
        ensures
            store.wf(),
            store@ == Map::<Seq<char>, u128>::empty(),
            store.window() == max_skew_secs * 2 * NANOS_PER_SEC,
    {
        let doubled: u64 = max_skew_secs * 2;
        let max_age: u128 = doubled as u128 * NANOS_PER_SEC;
        NonceStore { seen: TextMap::new(), max_age }
    }

    /// Presents `nonce` at `now`: forgets what is too old, then remembers
    /// `nonce` from now on and refuses it when it was remembered already. A nonce
    /// that is too short is refused and changes nothing.
    pub fn check_and_insert_and_prune_old(&mut self, nonce: &str, now: u128) -> (verdict: Result<
        (),
        NonceError,
    >)
        requires
            old(self).wf(),
        ensures
            final(self).wf(),
            final(self).window() == old(self).window(),
            final(self)@ == seen_after(old(self)@, nonce@, now, old(self).window()),
            verdict == verdict_on(old(self)@, nonce@, now, old(self).window()),
    {
        let len: usize = nonce.as_bytes().len();
        if len < MIN_NONCE_LEN {
            return Err(NonceError::TooShort(len));
        }
        self.prune_old(now);
        if self.seen.insert(nonce.to_owned(), now) {
            return Err(NonceError::AlreadyUsed);
        }
        Ok(())
    }

    /// Forgets the nonces that are no longer remembered at `now`.
    fn prune_old(&mut self, now: u128)
        requires
            old(self).wf(),
        ensures
            final(self).wf(),
            final(self).window() == old(self).window(),
            final(self)@ == remembered(old(self)@, now, old(self).window()),
    {
        let mut kept: TextMap<u128> = TextMap::new();
        let len: usize = self.seen.len();
        assert(kept@ =~= remembered(self.seen.first(0), now, self.max_age));
        let mut i: usize = 0;
        while i < len
            invariant
                i <= len,
                self.seen == old(self).seen,
                self.max_age == old(self).max_age,
                self.seen.wf(),
                len == self.seen.values().len(),
                kept.wf(),
                kept@ == remembered(self.seen.first(i as int), now, self.max_age),
            decreases len - i,
        {
            let entry = self.seen.entry(i);
            let seen_at: u128 = entry.1;
            let age: u128 = if now >= seen_at {
                now - seen_at
            } else {
                0
            };
            if age < self.max_age {
                let _ = kept.insert(entry.0.clone(), seen_at);
            }
            assert(kept@ =~= remembered(self.seen.first(i + 1), now, self.max_age));
            i = i + 1;
        }
        self.seen = kept;
    }
}

/// The nonces seen after each of `presented`, in turn, was presented.
pub open spec fn seen_after_all(
    seen: Map<Seq<char>, u128>,
    presented: Seq<(Seq<char>, u128)>,
    max_age: u128,
) -> Map<Seq<char>, u128>
    decreases presented.len(),
{
    if presented.len() == 0 {
        seen
    } else {
        seen_after(
            seen_after_all(seen, presented.drop_last(), max_age),
            presented.last().0,
            presented.last().1,
            max_age,
        )
    }
}

/// A nonce that was presented at `first` is refused at `second`, whatever was
/// presented in between, as long as it is within the window. The clock never goes
/// back.
pub proof fn replays_within_the_window_are_refused(
    seen: Map<Seq<char>, u128>,
    nonce: Seq<char>,
    first: u128,
    between: Seq<(Seq<char>, u128)>,
    second: u128,
    max_age: u128,
)
    requires
        is_long_enough(nonce),
        first <= second,
        second - first < max_age,
        forall|i: int| 0 <= i < between.len() ==> first <= (#[trigger] between[i]).1 <= second,
    ensures
        verdict_on(
            seen_after_all(seen_after(seen, nonce, first, max_age), between, max_age),
            nonce,
            second,
            max_age,
        ) == Err::<(), NonceError>(NonceError::AlreadyUsed),
{
    stays_remembered(seen_after(seen, nonce, first, max_age), nonce, first, between, second, max_age);
}

proof fn stays_remembered(
    seen: Map<Seq<char>, u128>,
    nonce: Seq<char>,
    first: u128,
    between: Seq<(Seq<char>, u128)>,
    second: u128,
    max_age: u128,
)
    requires
        seen.contains_key(nonce),
        first <= seen[nonce] <= second,
        second - first < max_age,
        forall|i: int| 0 <= i < between.len() ==> first <= (#[trigger] between[i]).1 <= second,
    ensures
        seen_after_all(seen, between, max_age).contains_key(nonce),
        first <= seen_after_all(seen, between, max_age)[nonce] <= second,
    decreases between.len(),
{
    if between.len() > 0 {
        let front = between.drop_last();
        assert forall|i: int| 0 <= i < front.len() implies first <= (#[trigger] front[i]).1
            <= second by {
            assert(front[i] == between[i]);
        }
        stays_remembered(seen, nonce, first, front, second, max_age);
        assert(between[between.len() - 1] == between.last());
    }
}

/// A nonce that was presented at `first`, and is presented again only when the
/// window is over, is accepted again.
pub proof fn nonces_are_forgotten_after_the_window(
    seen: Map<Seq<char>, u128>,
    nonce: Seq<char>,
    first: u128,
    second: u128,
    max_age: u128,
)
    requires
        is_long_enough(nonce),
        second >= first + max_age,
    ensures
        verdict_on(seen_after(seen, nonce, first, max_age), nonce, second, max_age) == Ok::<
            (),
            NonceError,
        >(()),
{
}

/// Whether `nonce` is among `presented`, within the window before `now`.
pub open spec fn is_presented_within(
    presented: Seq<(Seq<char>, u128)>,
    nonce: Seq<char>,
    now: u128,
    max_age: u128,
) -> bool {
    exists|i: int|
        0 <= i < presented.len() && (#[trigger] presented[i]).0 == nonce && now - presented[i].1
            < max_age
}

/// Whether the times of `presented` never go back, and none is after `now`.
pub open spec fn are_in_time(presented: Seq<(Seq<char>, u128)>, now: u128) -> bool {
    &&& forall|i: int, j: int|
        0 <= i <= j < presented.len() ==> (#[trigger] presented[i]).1 <= (#[trigger] presented[j]).1
    &&& forall|i: int| 0 <= i < presented.len() ==> (#[trigger] presented[i]).1 <= now
}

/// A nonce that is long enough is accepted exactly when it was not presented within
/// the window, whatever else was presented to a new store before.
pub proof fn nonces_are_accepted_once_per_window(
    presented: Seq<(Seq<char>, u128)>,
    nonce: Seq<char>,
    now: u128,
    max_age: u128,
)
    requires
        is_long_enough(nonce),
        are_in_time(presented, now),
    ensures
        verdict_on(seen_after_all(Map::empty(), presented, max_age), nonce, now, max_age) is Ok
            <==> !is_presented_within(presented, nonce, now, max_age),
    decreases presented.len(),
{
    if presented.len() > 0 {
        let front = presented.drop_last();
        let last = presented.last();
        assert forall|i: int, j: int| 0 <= i <= j < front.len() implies (#[trigger] front[i]).1 <= (
        #[trigger] front[j]).1 by {
            assert(front[i] == presented[i] && front[j] == presented[j]);
        }
        assert forall|i: int| 0 <= i < front.len() implies (#[trigger] front[i]).1 <= now by {
            assert(front[i] == presented[i]);
        }
        nonces_are_accepted_once_per_window(front, nonce, now, max_age);
        let at = presented.len() - 1;
        assert(presented[at] == last);
        if is_presented_within(presented, nonce, now, max_age) {
            let i = choose|i: int|
                0 <= i < presented.len() && (#[trigger] presented[i]).0 == nonce && now
                    - presented[i].1 < max_age;
            assert(presented[i].1 <= presented[at].1);
            if last.0 != nonce {
                assert(front[i] == presented[i]);
            }
        }
        if is_presented_within(front, nonce, now, max_age) {
            let i = choose|i: int|
                0 <= i < front.len() && (#[trigger] front[i]).0 == nonce && now - front[i].1
                    < max_age;
            assert(presented[i] == front[i]);
        }
    }
}

/// The store holds nothing beyond the window but the nonce just presented, which
/// bounds it by the requests of one window.
pub proof fn only_the_window_is_kept(
    seen: Map<Seq<char>, u128>,
    nonce: Seq<char>,
    now: u128,
    max_age: u128,
    held: Seq<char>,
)
    requires
        is_long_enough(nonce),
        seen_after(seen, nonce, now, max_age).contains_key(held),
    ensures
        held == nonce || is_remembered(seen[held], now, max_age),
{
}

/// A nonce is long enough from 16 bytes on. A shorter one is refused with its length and
/// changes nothing, and no other is refused for its length.
pub proof fn short_nonces_change_nothing(
    seen: Map<Seq<char>, u128>,
    nonce: Seq<char>,
    now: u128,
    max_age: u128,
)
    ensures
        is_long_enough(nonce) <==> encode_utf8(nonce).len() >= 16,
        (verdict_on(seen, nonce, now, max_age) matches Err(NonceError::TooShort(_)))
            <==> encode_utf8(nonce).len() < 16,
        verdict_on(seen, nonce, now, max_age) matches Err(NonceError::TooShort(len)) ==> len
            == encode_utf8(nonce).len(),
        encode_utf8(nonce).len() < 16 ==> seen_after(seen, nonce, now, max_age) == seen,
{
}

/// A nonce that is long enough is refused exactly when it was last presented less than the
/// window ago, whatever else the store holds.
pub proof fn only_the_nonces_own_time_counts(
    seen: Map<Seq<char>, u128>,
    nonce: Seq<char>,
    now: u128,
    max_age: u128,
)
    requires
        encode_utf8(nonce).len() >= 16,
    ensures
        verdict_on(seen, nonce, now, max_age) is Err <==> max_age > 0 && seen.contains_key(nonce)
            && now < seen[nonce] + max_age,
        verdict_on(seen, nonce, now, max_age) is Err ==> verdict_on(seen, nonce, now, max_age)
            == Err::<(), NonceError>(NonceError::AlreadyUsed),
{
}

/// A nonce that is presented counts from that time on, accepted or not. Every other nonce
/// keeps its time until the window is over and is gone then.
pub proof fn other_nonces_keep_their_time(
    seen: Map<Seq<char>, u128>,
    nonce: Seq<char>,
    now: u128,
    max_age: u128,
    other: Seq<char>,
)
    requires
        encode_utf8(nonce).len() >= 16,
    ensures
        seen_after(seen, nonce, now, max_age).contains_key(nonce),
        seen_after(seen, nonce, now, max_age)[nonce] == now,
        other != nonce ==> (seen_after(seen, nonce, now, max_age).contains_key(other)
            <==> max_age > 0 && seen.contains_key(other) && now < seen[other] + max_age),
        other != nonce && seen_after(seen, nonce, now, max_age).contains_key(other) ==> seen_after(
            seen,
            nonce,
            now,
            max_age,
        )[other] == seen[other],
{
}

/// A new store has seen nothing and remembers a nonce for twice the skew, in nanoseconds.
pub proof fn stores_begin_empty(max_skew_secs: u64, store: NonceStore)
    requires
        max_skew_secs * 2 <= u64::MAX,
        call_ensures(NonceStore::new, (max_skew_secs,), store),
    ensures
        store.window() == max_skew_secs * 2_000_000_000,
        forall|nonce: Seq<char>| !(#[trigger] store@.contains_key(nonce)),
{
}

/// A refusal tells why: the length of a nonce that is too short, or that it was used.
pub proof fn refusals_tell_why(error: &NonceError, message: String)
    requires
        call_ensures(NonceError::message, (error,), message),
    ensures
        *error matches NonceError::TooShort(len) ==> message@ == "nonce too short ("@ + decimal(
            len as nat,
        ) + " bytes, minimum 16)"@,
        *error is AlreadyUsed ==> message@ == "nonce already used (possible replay attack)"@,
{
}

/// Every nonce that is presented to a store is answered by its length and by its own time
/// in the store, and counts from then on.
pub proof fn stores_answer_by_what_they_hold(
    store: &mut NonceStore,
    nonce: &str,
    now: u128,
    verdict: Result<(), NonceError>,
    other: Seq<char>,
)
    requires
        call_ensures(NonceStore::check_and_insert_and_prune_old, (store, nonce, now), verdict),
    ensures
        final(store).window() == old(store).window(),
        encode_utf8(nonce@).len() < 16 ==> {
            &&& verdict == Err::<(), NonceError>(
                NonceError::TooShort(encode_utf8(nonce@).len() as usize),
            )
            &&& final(store)@ == old(store)@
        },
        encode_utf8(nonce@).len() >= 16 ==> {
            let window = old(store).window();
            &&& verdict is Err <==> window > 0 && old(store)@.contains_key(nonce@) && now
                < old(store)@[nonce@] + window
            &&& verdict matches Err(error) ==> error is AlreadyUsed
            &&& final(store)@.contains_key(nonce@) && final(store)@[nonce@] == now
            &&& other != nonce@ ==> (final(store)@.contains_key(other) <==> window > 0
                && old(store)@.contains_key(other) && now < old(store)@[other] + window)
            &&& other != nonce@ && final(store)@.contains_key(other) ==> final(store)@[other]
                == old(store)@[other]
        },
{
}

} // verus!
