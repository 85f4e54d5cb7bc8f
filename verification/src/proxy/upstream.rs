//! Which upstream servers are dead, and the search for one that answers.
use crate::proxy::config::ProxyConfig;
use crate::proxy::dice::{Dice, Draw};
use rand::rngs::StdRng;
use rand::{Rng, SeedableRng};
use std::collections::HashSet;
use vstd::prelude::*;

verus! {

broadcast use vstd::std_specs::hash::group_hash_axioms;

/// A random number generator of the crate `rand`.
#[verifier::external_type_specification]
#[verifier::external_body]
pub struct ExStdRng(rand::rngs::StdRng);

/// Any error of the crate `rand`.
#[verifier::external_type_specification]
#[verifier::external_body]
pub struct ExRandError(rand::Error);

/// `rand::SeedableRng::from_rng` on `rand::rngs::OsRng`: a generator seeded by the operating
/// system, or the error with which the system refused a seed. Nothing is claimed of either: they
/// are up to the system.
#[verifier::external_body]
fn seeded_rng() -> (rng: Result<StdRng, rand::Error>) {
    StdRng::from_rng(rand::rngs::OsRng)
}

/// `rand::Rng::gen_range` on `usize`: a number from `low` up to, but not equal to, `high`. It
/// panics if there is no such number. Which one comes is left to chance. The record of the dice, of
/// which nothing is left in the running program, grows by this one draw.
#[verifier::external_body]
fn gen_range(rng: &mut Dice, low: usize, high: usize) -> (drawn: usize)
    requires
        low < high,
    ensures
        low <= drawn < high,
        final(rng)@ == old(rng)@.push(Draw { low, high, value: drawn }),
{
    rng.rng.gen_range(low, high)
}

/// The set of upstream servers that are taken to be dead, by index.
pub struct DeadUpstreams {
    dead: HashSet<usize>,
}

impl View for DeadUpstreams {
    type V = Set<usize>;

    closed spec fn view(&self) -> Set<usize> {
        self.dead@
    }
}

/// The indices below `count` that are neither dead nor tried, in ascending order.
pub open spec fn candidates_of(count: nat, dead: Set<usize>, tried: Set<usize>) -> Seq<usize>
    decreases count,
{
    if count == 0 {
        Seq::empty()
    } else {
        let index = (count - 1) as usize;
        let below = candidates_of((count - 1) as nat, dead, tried);
        if dead.contains(index) || tried.contains(index) {
            below
        } else {
            below.push(index)
        }
    }
}

/// Whether every member of `indices` is below `count`.
pub open spec fn within(indices: Set<usize>, count: nat) -> bool {
    forall|i: usize| #[trigger] indices.contains(i) ==> i < count
}

impl DeadUpstreams {
    /// No server is dead.
    pub fn new() -> (dead: DeadUpstreams)
        ensures
            dead@ == Set::<usize>::empty(),
    {
        DeadUpstreams { dead: HashSet::new() }
    }

    /// Whether a server is dead.
    pub fn contains(&self, index: usize) -> (is: bool)
        ensures
            is == self@.contains(index),
    {
        self.dead.contains(&index)
    }

    /// Takes a server for dead.
    pub fn insert(&mut self, index: usize)
        ensures
            final(self)@ == old(self)@.insert(index),
    {
        self.dead.insert(index);
    }

    /// Takes a server for alive.
    pub fn remove(&mut self, index: usize)
        ensures
            final(self)@ == old(self)@.remove(index),
    {
        self.dead.remove(&index);
    }
}

/// Why a search for an upstream server was given up.
pub enum ConnectError<E> {
    /// The last attempt failed with this error.
    Last(E),
    /// No server was left to be tried at all, as this message says.
    AllDead { message: String },
}

impl<E> ConnectError<E> {
    /// Whether this is the error for a search whose last failed attempt gave `last`.
    pub open spec fn follows(self, last: Option<E>) -> bool {
        match (self, last) {
            (ConnectError::Last(error), Some(given)) => error == given,
            (ConnectError::AllDead { message }, None) => message@
                == "all upstream servers are dead"@,
            _ => false,
        }
    }
}

/// What to do next in the search for an upstream server.
pub enum Attempt<E> {
    /// Connect to this server; if that fails, report it with `connect_failed`.
    Connect { index: usize, address: String },
    /// No server is left.
    GiveUp(ConnectError<E>),
}

/// The search for an upstream server that accepts a connection, for one client. `E` is the type of
/// the errors that connecting gives.
pub struct UpstreamSearch<E> {
    rng: Dice,
    tried: HashSet<usize>,
    last_error: Option<E>,
}

impl<E> UpstreamSearch<E> {
    /// The servers that have been tried.
    pub closed spec fn tried(self) -> Set<usize> {
        self.tried@
    }

    /// The error of the last attempt that failed, if one did.
    pub closed spec fn last_error(self) -> Option<E> {
        self.last_error
    }

    /// The draws that the search has made.
    pub closed spec fn draws(self) -> Seq<Draw> {
        self.rng@
    }

    /// A search that has not tried any server and draws with `rng`.
    pub fn with_rng(rng: StdRng) -> (search: UpstreamSearch<E>)
        ensures
            search.tried() == Set::<usize>::empty(),
            search.last_error() is None,
            search.draws() == Seq::<Draw>::empty(),
    {
        UpstreamSearch { rng: Dice::new(rng), tried: HashSet::new(), last_error: None }
    }

    /// A search that has not tried any server; the error of the crate `rand` if the operating
    /// system gives no seed for the draws.
    pub fn new() -> (made: Result<UpstreamSearch<E>, rand::Error>)
        ensures
            made matches Ok(search) ==> search.tried() == Set::<usize>::empty()
                && search.last_error() is None && search.draws() == Seq::<Draw>::empty(),
    {
        match seeded_rng() {
            Ok(rng) => Ok(UpstreamSearch::with_rng(rng)),
            Err(error) => Err(error),
        }
    }

    /// The servers among the first `count` that are still to be tried.
    pub fn candidates(&self, count: usize, dead: &DeadUpstreams) -> (candidates: Vec<usize>)
        ensures
            candidates@ == candidates_of(count as nat, dead@, self.tried()),
            forall|i: usize| #[trigger]
                candidates@.contains(i) <==> i < count && !dead@.contains(i)
                    && !self.tried().contains(i),
            forall|j: int, k: int| 0 <= j < k < candidates@.len() ==> candidates@[j] < candidates@[k],
    {
        let mut candidates: Vec<usize> = Vec::new();
        let mut index: usize = 0;
        while index < count
            invariant
                index <= count,
                candidates@ == candidates_of(index as nat, dead@, self.tried()),
            decreases count - index,
        {
            if !dead.contains(index) && !self.tried.contains(&index) {
                candidates.push(index);
            }
            index = index + 1;
        }
        proof {
            law_candidates_are_the_eligible_servers(count as nat, dead@, self.tried());
        }
        candidates
    }

    /// Goes for the server that the draw has picked from the candidates.
    pub fn attempt(&mut self, config: &ProxyConfig, candidates: &Vec<usize>, drawn: usize) -> (next:
        Attempt<E>)
        requires
            drawn < candidates@.len(),
            candidates@[drawn as int] < config@.upstream_addresses.len(),
        ensures
            next matches Attempt::Connect { index, address } && index == candidates@[drawn as int]
                && address@ == config@.upstream_addresses[index as int],
            final(self).tried() == old(self).tried().insert(candidates@[drawn as int]),
            final(self).last_error() == old(self).last_error(),
            final(self).draws() == old(self).draws(),
    {
        let index: usize = candidates[drawn];
        self.tried.insert(index);
        Attempt::Connect { index, address: config.upstream_address(index).to_owned() }
    }

    /// Gives up, with the error of the last attempt if there was one.
    pub fn give_up(&mut self) -> (next: Attempt<E>)
        ensures
            next matches Attempt::GiveUp(error) && error.follows(old(self).last_error()),
            next matches Attempt::GiveUp(ConnectError::Last(error)) ==> old(self).last_error()
                == Some(error),
            next matches Attempt::GiveUp(ConnectError::AllDead { message }) ==> old(
                self,
            ).last_error() is None && message@ == "all upstream servers are dead"@,
            final(self).tried() == old(self).tried(),
            final(self).last_error() is None,
            final(self).draws() == old(self).draws(),
    {
        match self.last_error.take() {
            Some(error) => Attempt::GiveUp(ConnectError::Last(error)),
            None => Attempt::GiveUp(
                ConnectError::AllDead { message: "all upstream servers are dead".to_owned() },
            ),
        }
    }

    /// The next step of the search: a server drawn at random from those that are neither dead nor
    /// tried yet, or the end of the search where there is none. One draw is made for a server, from
    /// the positions of all the candidates, and the server is the candidate at the position drawn.
    pub fn connect_to_upstream(&mut self, config: &ProxyConfig, dead: &DeadUpstreams) -> (next:
        Attempt<E>)
        ensures
            ({
                let candidates = candidates_of(
                    config@.upstream_addresses.len(),
                    dead@,
                    old(self).tried(),
                );
                match next {
                    Attempt::Connect { index, address } => {
                        &&& candidates.contains(index)
                        &&& index < config@.upstream_addresses.len()
                        &&& !dead@.contains(index)
                        &&& !old(self).tried().contains(index)
                        &&& final(self).draws().drop_last() == old(self).draws()
                        &&& final(self).draws().len() == old(self).draws().len() + 1
                        &&& final(self).draws().last().low == 0
                        &&& final(self).draws().last().high == candidates.len()
                        &&& final(self).draws().last().value < candidates.len()
                        &&& index == candidates[final(self).draws().last().value as int]
                        &&& address@ == config@.upstream_addresses[index as int]
                        &&& final(self).tried() == old(self).tried().insert(index)
                        &&& final(self).last_error() == old(self).last_error()
                    },
                    Attempt::GiveUp(error) => {
                        &&& candidates.len() == 0
                        &&& forall|i: usize|
                            i < config@.upstream_addresses.len() ==> #[trigger] dead@.contains(i)
                                || old(self).tried().contains(i)
                        &&& error.follows(old(self).last_error())
                        &&& error matches ConnectError::Last(last) ==> old(self).last_error()
                            == Some(last)
                        &&& error matches ConnectError::AllDead { message } ==> old(
                            self,
                        ).last_error() is None && message@ == "all upstream servers are dead"@
                        &&& final(self).draws() == old(self).draws()
                        &&& final(self).tried() == old(self).tried()
                        &&& final(self).last_error() is None
                    },
                }
            }),
    {
        let count: usize = config.upstream_count();
        let candidates = self.candidates(count, dead);
        if candidates.is_empty() {
            assert forall|i: usize| i < count implies #[trigger] dead@.contains(i)
                || self.tried().contains(i) by {
                assert(!candidates@.contains(i));
            }
            return self.give_up();
        }
        let drawn: usize = gen_range(&mut self.rng, 0, candidates.len());
        proof {
            assert(candidates@.contains(candidates@[drawn as int]));
            assert(self.draws().drop_last() =~= old(self).draws());
        }
        self.attempt(config, &candidates, drawn)
    }

    /// Notes that connecting to a server has failed: it is dead from now on.
    pub fn connect_failed(&mut self, dead: &mut DeadUpstreams, index: usize, error: E)
        ensures
            final(dead)@ == old(dead)@.insert(index),
            final(self).tried() == old(self).tried(),
            final(self).last_error() == Some(error),
            final(self).draws() == old(self).draws(),
    {
        dead.insert(index);
        self.last_error = Some(error);
    }
}

/// Whether the search may try a server: it is one of the first `count`, and neither dead nor tried.
pub open spec fn eligible(index: usize, count: nat, dead: Set<usize>, tried: Set<usize>) -> bool {
    index < count && !dead.contains(index) && !tried.contains(index)
}

/// The candidates are all the eligible servers and no others, each once, in ascending order.
pub proof fn law_candidates_are_the_eligible_servers(
    count: nat,
    dead: Set<usize>,
    tried: Set<usize>,
)
    requires
        count <= usize::MAX,
    ensures
        forall|i: usize| #[trigger]
            candidates_of(count, dead, tried).contains(i) <==> i < count && !dead.contains(i)
                && !tried.contains(i),
        forall|j: int, k: int|
            0 <= j < k < candidates_of(count, dead, tried).len() ==> candidates_of(
                count,
                dead,
                tried,
            )[j] < candidates_of(count, dead, tried)[k],
    decreases count,
{
    let all = candidates_of(count, dead, tried);
    if count > 0 {
        let below = candidates_of((count - 1) as nat, dead, tried);
        let index = (count - 1) as usize;
        law_candidates_are_the_eligible_servers((count - 1) as nat, dead, tried);
        assert forall|i: usize| #[trigger]
            all.contains(i) <==> eligible(i, count, dead, tried) by {
            assert(below.contains(i) <==> eligible(i, (count - 1) as nat, dead, tried));
            if below.contains(i) {
                let k = below.index_of(i);
                assert(all[k] == i);
            }
            if i == index && eligible(i, count, dead, tried) {
                assert(all[below.len() as int] == i);
            }
            if all.contains(i) && !below.contains(i) {
                let k = all.index_of(i);
                assert(k < below.len() ==> below[k] == i);
            }
        }
        assert forall|j: int, k: int| 0 <= j < k < all.len() implies all[j] < all[k] by {
            assert(below.contains(below[j]));
        }
    }
}

proof fn lemma_within_len(indices: Set<usize>, count: nat)
    requires
        indices.finite(),
        within(indices, count),
        count <= usize::MAX,
    ensures
        indices.len() <= count,
    decreases count,
{
    if count == 0 {
        if indices.len() > 0 {
            assert(indices.contains(indices.choose()));
        }
        assert(indices =~= Set::empty());
    } else {
        let top = (count - 1) as usize;
        lemma_within_len(indices.remove(top), (count - 1) as nat);
    }
}

/// Whether `attempts` are the servers that one search tried, one after the other, where `deads`
/// are the servers that were dead at each attempt. Others may change which servers are dead at any
/// time.
pub open spec fn is_search(count: nat, deads: Seq<Set<usize>>, attempts: Seq<usize>) -> bool {
    &&& deads.len() == attempts.len()
    &&& forall|i: int|
        0 <= i < attempts.len() ==> candidates_of(
            count,
            deads[i],
            attempts.take(i).to_set(),
        ).contains(#[trigger] attempts[i])
}

/// A search tries no server twice, none that is dead, and so makes at most as many attempts as
/// there are servers.
pub proof fn law_a_search_tries_no_server_twice(
    count: nat,
    deads: Seq<Set<usize>>,
    attempts: Seq<usize>,
)
    requires
        count <= usize::MAX,
        is_search(count, deads, attempts),
    ensures
        attempts.no_duplicates(),
        attempts.len() <= count,
        forall|i: int| #![trigger attempts[i]]
            0 <= i < attempts.len() ==> attempts[i] < count && !deads[i].contains(attempts[i]),
{
    assert forall|i: int| #![trigger attempts[i]] 0 <= i < attempts.len() implies eligible(
        attempts[i],
        count,
        deads[i],
        attempts.take(i).to_set(),
    ) by {
        law_candidates_are_the_eligible_servers(count, deads[i], attempts.take(i).to_set());
    }
    assert forall|i: int, j: int| 0 <= i < j < attempts.len() implies attempts[i] != attempts[j] by {
        assert(attempts.take(j)[i] == attempts[i]);
        assert(attempts.take(j).to_set().contains(attempts[i]));
    }
    attempts.unique_seq_to_set();
    assert(attempts.to_set().finite()) by {
        vstd::seq_lib::seq_to_set_is_finite(attempts);
    }
    lemma_within_len(attempts.to_set(), count);
}

/// Every server that is neither dead nor tried has a position of its own among the candidates, so
/// that a draw from all the positions can pick any of them: there are as many positions as such
/// servers.
pub proof fn law_every_live_server_can_be_drawn(count: nat, dead: Set<usize>, tried: Set<usize>)
    requires
        count <= usize::MAX,
    ensures
        forall|index: usize|
            index < count && !dead.contains(index) && !tried.contains(index) ==> exists|drawn: int|
                0 <= drawn < candidates_of(count, dead, tried).len() && #[trigger] candidates_of(
                    count,
                    dead,
                    tried,
                )[drawn] == index,
        candidates_of(count, dead, tried).no_duplicates(),
        candidates_of(count, dead, tried).len() == Set::new(
            |index: usize| index < count && !dead.contains(index) && !tried.contains(index),
        ).len(),
{
    let all = candidates_of(count, dead, tried);
    law_candidates_are_the_eligible_servers(count, dead, tried);
    assert forall|index: usize|
        index < count && !dead.contains(index) && !tried.contains(index) implies exists|drawn: int|
        0 <= drawn < all.len() && #[trigger] all[drawn] == index by {
        assert(all.contains(index));
    }
    all.unique_seq_to_set();
    assert(all.to_set() =~= Set::new(
        |index: usize| index < count && !dead.contains(index) && !tried.contains(index),
    ));
}

/// A search whose attempts have all been noted as failed gives up only when every server is dead.
pub proof fn law_giving_up_means_all_are_dead(count: nat, dead: Set<usize>, tried: Set<usize>)
    requires
        count <= usize::MAX,
        tried.subset_of(dead),
        candidates_of(count, dead, tried).len() == 0,
    ensures
        forall|i: usize| i < count ==> #[trigger] dead.contains(i),
{
    law_candidates_are_the_eligible_servers(count, dead, tried);
    assert forall|i: usize| i < count implies #[trigger] dead.contains(i) by {
        assert(!candidates_of(count, dead, tried).contains(i));
    }
}

/// A server that failed is tried by no search until it is taken for alive again, and then it is.
pub proof fn law_a_failed_server_is_left_out_until_it_recovers(
    count: nat,
    dead: Set<usize>,
    tried: Set<usize>,
    index: usize,
)
    requires
        count <= usize::MAX,
        index < count,
        !tried.contains(index),
    ensures
        !candidates_of(count, dead.insert(index), tried).contains(index),
        candidates_of(count, dead.insert(index).remove(index), tried).contains(index),
{
    law_candidates_are_the_eligible_servers(count, dead.insert(index), tried);
    law_candidates_are_the_eligible_servers(count, dead.insert(index).remove(index), tried);
}

/// Only servers that exist are ever taken for dead: a failed attempt keeps it so, whatever the dead
/// servers have become since the server was picked.
pub proof fn law_a_failed_attempt_is_one_of_the_servers(
    count: nat,
    dead: Set<usize>,
    tried: Set<usize>,
    index: usize,
    dead_now: Set<usize>,
)
    requires
        count <= usize::MAX,
        candidates_of(count, dead, tried).contains(index),
        within(dead_now, count),
    ensures
        within(dead_now.insert(index), count),
{
    law_candidates_are_the_eligible_servers(count, dead, tried);
}

} // verus!
