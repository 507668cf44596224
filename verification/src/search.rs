//! Fresh keypairs, and the search for one whose address shows a pattern.

use vstd::prelude::*;
use crate::derive::{address_of_phrase, derive_address, KeyError};
use crate::keypair::{Keypair, KeypairView};
use crate::pattern::{matches_at, matches_exactly, matches_ignoring_case, VanityPosition};
use crate::primitives::{
    ascii_lowercase, entropy_phrase, is_ascii_text, lowercase, lowercase_text, os_entropy,
    phrase_from_entropy,
};

verus! {

/// The number of words in a phrase that encodes 32 bytes.
pub const PHRASE_WORDS: usize = 24;

/// The number of spaces in a text.
pub open spec fn space_count(text: Seq<char>) -> nat
    decreases text.len(),
{
    if text.len() == 0 {
        0
    } else {
        space_count(text.drop_last()) + if text.last() == ' ' {
            1nat
        } else {
            0nat
        }
    }
}

/// The number of words in a phrase whose words are parted by single spaces:
/// one more than it has spaces.
pub open spec fn word_count(phrase: Seq<char>) -> nat {
    space_count(phrase) + 1
}

/// The address is the one that the phrase derives to, and the phrase has 24
/// words.
pub open spec fn is_derived(pair: KeypairView) -> bool {
    &&& word_count(pair.mnemonic) == PHRASE_WORDS
    &&& address_of_phrase(pair.mnemonic) == Ok::<Seq<char>, KeyError>(pair.address)
}

/// The keypair of 32 bytes of entropy.
pub open spec fn keypair_of_entropy(entropy: Seq<u8>) -> Result<KeypairView, KeyError> {
    match entropy_phrase(entropy) {
        Some(phrase) => if word_count(phrase) == PHRASE_WORDS {
            match address_of_phrase(phrase) {
                Ok(address) => Ok(KeypairView { address, mnemonic: phrase }),
                Err(e) => Err(e),
            }
        } else {
            Err(KeyError::MnemonicParse)
        },
        None => Err(KeyError::MnemonicParse),
    }
}

/// A function's outcome agrees with what the model gives.
pub open spec fn keypair_agrees(res: Result<Keypair, KeyError>, model: Result<KeypairView, KeyError>) -> bool {
    match res {
        Ok(pair) => model == Ok::<KeypairView, KeyError>(pair@),
        Err(e) => model == Err::<KeypairView, KeyError>(e),
    }
}

/// Whether a phrase has exactly 24 words.
pub fn has_phrase_length(phrase: &str) -> (ok: bool)
    ensures
        ok == (word_count(phrase@) == PHRASE_WORDS),
{
    let n = phrase.unicode_len();
    let mut spaces: usize = 0;
    let mut i: usize = 0;
    assert(phrase@.take(0) =~= Seq::<char>::empty());
    while i < n
        invariant
            n == phrase@.len(),
            i <= n,
            spaces <= i,
            spaces == space_count(phrase@.take(i as int)),
        decreases n - i,
    {
        let c = phrase.get_char(i);
        assert(phrase@.take(i + 1).drop_last() =~= phrase@.take(i as int));
        if c == ' ' {
            spaces += 1;
        }
        i += 1;
    }
    assert(phrase@.take(n as int) =~= phrase@);
    spaces == PHRASE_WORDS - 1
}

/// The keypair of 32 bytes of entropy: the 24-word phrase that encodes them,
/// and the address of that phrase.
pub fn keypair_from_entropy(entropy: &[u8; 32]) -> (res: Result<Keypair, KeyError>)
    ensures
        keypair_agrees(res, keypair_of_entropy(entropy@)),
        res matches Ok(pair) ==> is_derived(pair@),
{
    match phrase_from_entropy(entropy) {
        Ok(phrase) => {
            if !has_phrase_length(phrase.as_str()) {
                return Err(KeyError::MnemonicParse);
            }
            match derive_address(phrase.as_str()) {
                Ok(address) => Ok(Keypair::new(address, phrase)),
                Err(e) => Err(e),
            }
        },
        Err(_) => Err(KeyError::MnemonicParse),
    }
}

/// A keypair from 32 fresh bytes of the platform's random source. Either the
/// source gave no bytes, or what comes back is what some 32 bytes of entropy
/// give: their keypair, or the error of the step that failed on them.
pub fn generate_random_keypair() -> (res: Result<Keypair, KeyError>)
    ensures
        is_random_keypair(res),
        res matches Ok(pair) ==> is_derived(pair@),
{
    match os_entropy() {
        Ok(entropy) => {
            let res = keypair_from_entropy(&entropy);
            assert(drawn_keypair(entropy@, res));
            res
        },
        Err(_) => Err(KeyError::EntropySource),
    }
}

/// A search as mathematics sees it.
pub struct SearchState {
    /// The pattern, in lower case.
    pub target: Seq<char>,
    pub position: VanityPosition,
    /// The budget; 0 stands for none.
    pub max_attempts: u32,
    /// The attempts that missed so far.
    pub attempts: u32,
}

/// What one attempt can come to, as mathematics sees it.
pub enum Outcome {
    Found(KeypairView),
    Missed,
    Exhausted,
    Failed(KeyError),
}

/// What one attempt can come to.
pub enum Attempt {
    /// The pair's address shows the pattern.
    Found(Keypair),
    /// The pair's address does not show the pattern; the miss was counted.
    Missed,
    /// The budget was used up before; nothing was tried.
    Exhausted,
    /// No pair could be derived.
    Failed(KeyError),
}

impl View for Attempt {
    type V = Outcome;

    open spec fn view(&self) -> Outcome {
        match *self {
            Attempt::Found(pair) => Outcome::Found(pair@),
            Attempt::Missed => Outcome::Missed,
            Attempt::Exhausted => Outcome::Exhausted,
            Attempt::Failed(e) => Outcome::Failed(e),
        }
    }
}

/// No further attempt is made: there is a budget, and the misses have used it
/// up. A search without a budget is never exhausted.
pub open spec fn is_exhausted(state: SearchState) -> bool {
    state.max_attempts > 0 && state.attempts >= state.max_attempts
}

/// What an attempt with the given entropy comes to.
pub open spec fn outcome_of(state: SearchState, entropy: Seq<u8>) -> Outcome {
    if is_exhausted(state) {
        Outcome::Exhausted
    } else {
        match keypair_of_entropy(entropy) {
            Ok(pair) => if matches_at(lowercase(pair.address), state.target, state.position) {
                Outcome::Found(pair)
            } else {
                Outcome::Missed
            },
            Err(e) => Outcome::Failed(e),
        }
    }
}

/// The search after an attempt with the given outcome: a miss is counted,
/// nothing else changes. The counter stops at its top, which only a search
/// without a budget can reach.
pub open spec fn state_after(state: SearchState, outcome: Outcome) -> SearchState {
    if outcome is Missed && state.attempts < u32::MAX {
        SearchState { attempts: (state.attempts + 1) as u32, ..state }
    } else {
        state
    }
}

/// `outcome` is what an attempt with the given 32 bytes of entropy comes to.
pub open spec fn outcome_with(state: SearchState, entropy: Seq<u8>, outcome: Outcome) -> bool {
    entropy.len() == 32 && outcome == outcome_of(state, entropy)
}

/// `outcome` is what an attempt with fresh entropy can come to: the error of
/// a random source that gave no bytes, or what the attempt comes to with some
/// 32 bytes of entropy.
pub open spec fn is_fresh_outcome(state: SearchState, outcome: Outcome) -> bool {
    ||| outcome == Outcome::Failed(KeyError::EntropySource)
    ||| exists|entropy: Seq<u8>| outcome_with(state, entropy, outcome)
}

/// Where there is a budget, the misses do not exceed it.
pub open spec fn within_budget(state: SearchState) -> bool {
    state.max_attempts > 0 ==> state.attempts <= state.max_attempts
}

/// An attempt keeps pattern, position and budget, counts at most one miss,
/// and keeps the misses within the budget.
pub proof fn lemma_attempt_keeps_budget(state: SearchState, entropy: Seq<u8>)
    requires
        within_budget(state),
    ensures
        within_budget(state_after(state, outcome_of(state, entropy))),
        state_after(state, outcome_of(state, entropy)).target == state.target,
        state_after(state, outcome_of(state, entropy)).position == state.position,
        state_after(state, outcome_of(state, entropy)).max_attempts == state.max_attempts,
        state.attempts <= state_after(state, outcome_of(state, entropy)).attempts <= state.attempts
            + 1,
{
}

/// A search that is exhausted stays so: an attempt tries nothing and changes
/// nothing.
pub proof fn lemma_exhausted_is_final(state: SearchState, entropy: Seq<u8>)
    requires
        is_exhausted(state),
    ensures
        outcome_of(state, entropy) is Exhausted,
        state_after(state, outcome_of(state, entropy)) == state,
{
}

/// A search for an address that shows a pattern: the pattern, where it has to
/// stand, the budget and the misses so far.
pub struct VanitySearch {
    target: String,
    position: VanityPosition,
    max_attempts: u32,
    attempts: u32,
}

impl View for VanitySearch {
    type V = SearchState;

    closed spec fn view(&self) -> SearchState {
        SearchState {
            target: self.target@,
            position: self.position,
            max_attempts: self.max_attempts,
            attempts: self.attempts,
        }
    }
}

impl VanitySearch {
    /// A search that has tried nothing yet. A budget of 0 is no budget.
    pub fn new(target: &str, position: VanityPosition, max_attempts: u32) -> (search: VanitySearch)
        ensures
            search@ == (SearchState {
                target: lowercase(target@),
                position,
                max_attempts,
                attempts: 0,
            }),
            is_ascii_text(target@) ==> search@.target == ascii_lowercase(target@),
            within_budget(search@),
    {
        VanitySearch { target: lowercase_text(target), position, max_attempts, attempts: 0 }
    }

    /// The misses so far.
    pub fn attempts(&self) -> (n: u32)
        ensures
            n == self@.attempts,
    {
        self.attempts
    }

    /// Whether no further attempt is made.
    pub fn exhausted(&self) -> (done: bool)
        ensures
            done == is_exhausted(self@),
    {
        self.max_attempts > 0 && self.attempts >= self.max_attempts
    }

    /// One attempt with the given entropy. Where the attempt compares an
    /// address of ASCII characters, the lower-case form that it compares is
    /// the address with each capital replaced by its small letter.
    pub fn try_entropy(&mut self, entropy: &[u8; 32]) -> (attempt: Attempt)
        ensures
            attempt@ == outcome_of(old(self)@, entropy@),
            final(self)@ == state_after(old(self)@, attempt@),
            within_budget(old(self)@) ==> within_budget(final(self)@),
            !is_exhausted(old(self)@) ==> (keypair_of_entropy(entropy@) matches Ok(pair) ==> (
                is_ascii_text(pair.address) ==> lowercase(pair.address) == ascii_lowercase(
                    pair.address,
                ))),
    {
        if self.exhausted() {
            return Attempt::Exhausted;
        }
        match keypair_from_entropy(entropy) {
            Ok(pair) => {
                let address = lowercase_text(pair.address().as_str());
                if matches_exactly(address.as_str(), self.target.as_str(), self.position) {
                    Attempt::Found(pair)
                } else {
                    if self.attempts < u32::MAX {
                        self.attempts = self.attempts + 1;
                    }
                    Attempt::Missed
                }
            },
            Err(e) => Attempt::Failed(e),
        }
    }

    /// One attempt with fresh entropy. Either the random source gave no
    /// bytes, or the outcome is what `try_entropy` gives for some 32 bytes. So
    /// a pair that comes back is derived and shows the pattern, nothing is
    /// tried once the search is exhausted, and only a miss is counted.
    pub fn try_once(&mut self) -> (attempt: Attempt)
        ensures
            is_fresh_outcome(old(self)@, attempt@),
            attempt@ is Exhausted <==> is_exhausted(old(self)@),
            attempt@ matches Outcome::Found(pair) ==> is_derived(pair) && matches_at(
                lowercase(pair.address),
                old(self)@.target,
                old(self)@.position,
            ),
            final(self)@ == state_after(old(self)@, attempt@),
    {
        if self.exhausted() {
            assert(outcome_with(self@, Seq::new(32, |i: int| 0u8), Outcome::Exhausted));
            return Attempt::Exhausted;
        }
        match os_entropy() {
            Ok(entropy) => {
                let attempt = self.try_entropy(&entropy);
                assert(outcome_with(old(self)@, entropy@, attempt@));
                attempt
            },
            Err(_) => Attempt::Failed(KeyError::EntropySource),
        }
    }
}

/// Tries fresh keypairs until one shows the target at the position, or until
/// `max_attempts` of them have missed. A budget of 0 is no budget: the search
/// then goes on until a keypair is found or cannot be made. Because a loop
/// has to end, it would stop after 2^64 - 1 misses, more than any machine
/// draws.
///
/// What comes back ends a run of draws that all missed. `Ok(None)` comes
/// when the misses have used up the budget. Before that, the run ends with
/// the first draw that does not miss: `Ok(Some(pair))` with the keypair of a
/// draw whose address shows the target, or the error of a draw that gave no
/// keypair; or it ends with `Err(KeyError::EntropySource)` where the random
/// source gave no bytes.
pub fn generate_vanity_keypair_with_position(
    target: &str,
    position: VanityPosition,
    max_attempts: u32,
) -> (res: Result<Option<Keypair>, KeyError>)
    ensures
        is_search_result(res, target@, position, max_attempts),
        res matches Ok(Some(pair)) ==> is_derived(pair@) && matches_ignoring_case(
            pair@.address,
            target@,
            position,
        ),
{
    let mut search = VanitySearch::new(target, position, max_attempts);
    let mut rounds: u64 = 0;
    let ghost mut misses: Seq<Seq<u8>> = Seq::empty();
    loop
        invariant
            search@.target == lowercase(target@),
            search@.position == position,
            search@.max_attempts == max_attempts,
            within_budget(search@),
            misses.len() == rounds,
            max_attempts > 0 ==> search@.attempts == rounds,
            all_miss(misses, lowercase(target@), position),
        decreases u64::MAX - rounds,
    {
        if search.exhausted() || rounds == u64::MAX {
            assert(ends_run(misses, None, Ok(None), lowercase(target@), position, max_attempts));
            return Ok(None);
        }
        let entropy = match os_entropy() {
            Ok(entropy) => entropy,
            Err(_) => {
                assert(ends_run(
                    misses,
                    None,
                    Err(KeyError::EntropySource),
                    lowercase(target@),
                    position,
                    max_attempts,
                ));
                return Err(KeyError::EntropySource);
            },
        };
        match search.try_entropy(&entropy) {
            Attempt::Found(pair) => {
                assert(ends_run(
                    misses,
                    Some(entropy@),
                    Ok(Some(pair@)),
                    lowercase(target@),
                    position,
                    max_attempts,
                ));
                return Ok(Some(pair));
            },
            Attempt::Exhausted => {
                return Ok(None);
            },
            Attempt::Failed(e) => {
                assert(ends_run(
                    misses,
                    Some(entropy@),
                    Err(e),
                    lowercase(target@),
                    position,
                    max_attempts,
                ));
                return Err(e);
            },
            Attempt::Missed => {
                rounds = rounds + 1;
                proof {
                    misses = misses.push(entropy@);
                }
            },
        }
    }
}

/// The search with the pattern allowed anywhere in the address.
pub fn generate_vanity_keypair(target: &str, max_attempts: u32) -> (res: Result<
    Option<Keypair>,
    KeyError,
>)
    ensures
        is_search_result(res, target@, VanityPosition::Anywhere, max_attempts),
        res matches Ok(Some(pair)) ==> is_derived(pair@) && matches_ignoring_case(
            pair@.address,
            target@,
            VanityPosition::Anywhere,
        ),
{
    generate_vanity_keypair_with_position(target, VanityPosition::Anywhere, max_attempts)
}

/// `res` is what the given 32 bytes of entropy give.
pub open spec fn drawn_keypair(entropy: Seq<u8>, res: Result<Keypair, KeyError>) -> bool {
    entropy.len() == 32 && keypair_agrees(res, keypair_of_entropy(entropy))
}

/// `res` is what a draw from the random source can give: the error of a
/// source that gave no bytes, or what some 32 bytes of entropy give.
pub open spec fn is_random_keypair(res: Result<Keypair, KeyError>) -> bool {
    ||| res matches Err(KeyError::EntropySource)
    ||| exists|entropy: Seq<u8>| drawn_keypair(entropy, res)
}

/// The number of misses after which a search gives up: the budget, or, where
/// there is none, 2^64 - 1, which no machine reaches.
pub open spec fn budget_of(max_attempts: u32) -> nat {
    if max_attempts == 0 {
        u64::MAX as nat
    } else {
        max_attempts as nat
    }
}

/// The entropy gives a keypair whose address, in lower case, does not show
/// the target at the position.
pub open spec fn misses_target(
    entropy: Seq<u8>,
    target: Seq<char>,
    position: VanityPosition,
) -> bool {
    &&& entropy.len() == 32
    &&& keypair_of_entropy(entropy) matches Ok(pair) && !matches_at(
        lowercase(pair.address),
        target,
        position,
    )
}

/// Each of the draws misses the target.
pub open spec fn all_miss(draws: Seq<Seq<u8>>, target: Seq<char>, position: VanityPosition) -> bool {
    forall|i: int| 0 <= i < draws.len() ==> misses_target(#[trigger] draws[i], target, position)
}

/// A search result without its strings.
pub open spec fn search_view(res: Result<Option<Keypair>, KeyError>) -> Result<
    Option<KeypairView>,
    KeyError,
> {
    match res {
        Ok(Some(pair)) => Ok(Some(pair@)),
        Ok(None) => Ok(None),
        Err(e) => Err(e),
    }
}

/// `res` ends a search for the lower-case `target` in which the draws of
/// `misses` all missed, and `last`, if there is one, was drawn after them.
/// The search gives up, with `Ok(None)`, exactly when the misses have used up
/// the budget, and then nothing more is drawn. Before that, a last draw is
/// one that does not miss: it gives the keypair that is returned, whose
/// address shows the target, or the error that is returned. With no last
/// draw before the budget is used up, the random source gave no bytes.
pub open spec fn ends_run(
    misses: Seq<Seq<u8>>,
    last: Option<Seq<u8>>,
    res: Result<Option<KeypairView>, KeyError>,
    target: Seq<char>,
    position: VanityPosition,
    max_attempts: u32,
) -> bool {
    &&& all_miss(misses, target, position)
    &&& misses.len() <= budget_of(max_attempts)
    &&& res == Ok::<Option<KeypairView>, KeyError>(None) <==> misses.len() == budget_of(
        max_attempts,
    )
    &&& match res {
        Ok(None) => last is None,
        Ok(Some(pair)) => {
            &&& last matches Some(entropy) && entropy.len() == 32 && keypair_of_entropy(entropy)
                == Ok::<KeypairView, KeyError>(pair)
            &&& matches_at(lowercase(pair.address), target, position)
        },
        Err(e) => match last {
            Some(entropy) => entropy.len() == 32 && keypair_of_entropy(entropy) == Err::<
                KeypairView,
                KeyError,
            >(e),
            None => e == KeyError::EntropySource,
        },
    }
}

/// `res` is what a search for `target` at `position` under the budget
/// `max_attempts` can come to: it ends some run of draws.
pub open spec fn is_search_result(
    res: Result<Option<Keypair>, KeyError>,
    target: Seq<char>,
    position: VanityPosition,
    max_attempts: u32,
) -> bool {
    exists|misses: Seq<Seq<u8>>, last: Option<Seq<u8>>|
        ends_run(misses, last, search_view(res), lowercase(target), position, max_attempts)
}

} // verus!
