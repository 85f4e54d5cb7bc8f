//! The limit on requests per client and minute.
use std::collections::VecDeque;
use vstd::hash_map::StringHashMap;
use vstd::prelude::*;

verus! {

broadcast use {
    vstd::hash_map::group_hash_map_axioms,
    vstd::std_specs::vecdeque::group_vec_dequeue_axioms,
};

/// How long a request counts against its client, in nanoseconds: one minute.
pub const WINDOW_NANOS: u128 = 60_000_000_000;

/// When the requests that were let through came, for each client. Times are nanoseconds since a
/// fixed moment.
pub struct RateLimiter {
    request_counts: StringHashMap<VecDeque<u128>>,
}

impl View for RateLimiter {
    type V = Map<Seq<char>, Seq<u128>>;

    closed spec fn view(&self) -> Map<Seq<char>, Seq<u128>> {
        self.request_counts@.map_values(|times: VecDeque<u128>| times@)
    }
}

/// Whether a request at `time` counts no longer at `now`: more than a minute has passed.
pub open spec fn expired(time: u128, now: u128) -> bool {
    now - time > WINDOW_NANOS
}

/// `times` without the expired ones at its front.
pub open spec fn pruned(times: Seq<u128>, now: u128) -> Seq<u128>
    decreases times.len(),
{
    if times.len() > 0 && expired(times[0], now) {
        pruned(times.drop_first(), now)
    } else {
        times
    }
}

/// The requests of one client that are on record.
pub open spec fn times_of(counts: Map<Seq<char>, Seq<u128>>, client: Seq<char>) -> Seq<u128> {
    if counts.contains_key(client) {
        counts[client]
    } else {
        Seq::empty()
    }
}

/// Whether a request at `now` is refused, where at most `max` (not 0) are let through.
pub open spec fn refused(times: Seq<u128>, max: usize, now: u128) -> bool {
    pruned(times, now).len() >= max
}

/// The record of one client after a request at `now`: a refused request leaves no trace.
pub open spec fn recorded(times: Seq<u128>, max: usize, now: u128) -> Seq<u128> {
    if refused(times, max, now) {
        pruned(times, now)
    } else {
        pruned(times, now).push(now)
    }
}

impl RateLimiter {
    /// No request is on record.
    pub fn new() -> (limiter: RateLimiter)
        ensures
            limiter@ == Map::<Seq<char>, Seq<u128>>::empty(),
    {
        let limiter = RateLimiter { request_counts: StringHashMap::new() };
        assert(limiter@ =~= Map::<Seq<char>, Seq<u128>>::empty());
        limiter
    }

    /// Whether the request that `client_ip` makes at `now` is one too many. If it is not, it goes on
    /// record. With a limit of 0 every request is let through and none goes on record.
    pub fn is_rate_limited(
        &mut self,
        max_requests_per_minute: usize,
        client_ip: &str,
        now: u128,
    ) -> (limited: bool)
        ensures
            max_requests_per_minute == 0 ==> !limited && final(self)@ == old(self)@,
            max_requests_per_minute > 0 ==> {
                let times = times_of(old(self)@, client_ip@);
                &&& limited == refused(times, max_requests_per_minute, now)
                &&& forall|other: Seq<char>|
                    other != client_ip@ ==> #[trigger] times_of(final(self)@, other) == times_of(
                        old(self)@,
                        other,
                    )
                &&& final(self)@ == old(self)@.insert(
                    client_ip@,
                    recorded(times, max_requests_per_minute, now),
                )
            },
    {
        if max_requests_per_minute == 0 {
            return false;
        }
        let mut timestamps: VecDeque<u128> = match self.request_counts.get(client_ip) {
            Some(timestamps) => timestamps.clone(),
            None => VecDeque::new(),
        };
        let ghost times = times_of(old(self)@, client_ip@);
        assert(timestamps@ =~= times);
        while timestamps.len() > 0 && now.saturating_sub(timestamps[0]) > WINDOW_NANOS
            invariant
                pruned(timestamps@, now) == pruned(times, now),
            decreases timestamps.len(),
        {
            assert(timestamps@.drop_first() =~= timestamps@.subrange(
                1,
                timestamps@.len() as int,
            ));
            timestamps.pop_front();
        }
        let limited = timestamps.len() >= max_requests_per_minute;
        if !limited {
            timestamps.push_back(now);
        }
        self.request_counts.insert(client_ip.to_owned(), timestamps);
        assert(self@ =~= old(self)@.insert(
            client_ip@,
            recorded(times, max_requests_per_minute, now),
        ));
        limited
    }
}

/// One request: which client made it, and when.
pub struct Arrival {
    pub client: Seq<char>,
    pub time: u128,
}

/// The records after a run of requests under a limit of `max` (not 0).
pub open spec fn counts_after(arrivals: Seq<Arrival>, max: usize) -> Map<Seq<char>, Seq<u128>>
    decreases arrivals.len(),
{
    if arrivals.len() == 0 {
        Map::empty()
    } else {
        let before = counts_after(arrivals.drop_last(), max);
        let last = arrivals.last();
        before.insert(last.client, recorded(times_of(before, last.client), max, last.time))
    }
}

/// When the requests of `client` that were let through came.
pub open spec fn let_through(arrivals: Seq<Arrival>, max: usize, client: Seq<char>) -> Seq<u128>
    decreases arrivals.len(),
{
    if arrivals.len() == 0 {
        Seq::empty()
    } else {
        let before = let_through(arrivals.drop_last(), max, client);
        let last = arrivals.last();
        let times = times_of(counts_after(arrivals.drop_last(), max), client);
        if last.client == client && !refused(times, max, last.time) {
            before.push(last.time)
        } else {
            before
        }
    }
}

/// Whether the clock never went back between two requests.
pub open spec fn in_time_order(arrivals: Seq<Arrival>) -> bool {
    forall|i: int, j: int|
        0 <= i <= j < arrivals.len() ==> (#[trigger] arrivals[i]).time <= (#[trigger] arrivals[j]).time
}

/// Whether `now` comes before none of `arrivals`.
pub open spec fn not_before(arrivals: Seq<Arrival>, now: u128) -> bool {
    forall|i: int| 0 <= i < arrivals.len() ==> (#[trigger] arrivals[i]).time <= now
}

proof fn lemma_drop_last_in_time_order(arrivals: Seq<Arrival>)
    requires
        arrivals.len() > 0,
        in_time_order(arrivals),
    ensures
        in_time_order(arrivals.drop_last()),
        not_before(arrivals.drop_last(), arrivals.last().time),
{
    let before = arrivals.drop_last();
    assert forall|i: int, j: int| 0 <= i <= j < before.len() implies (#[trigger] before[i]).time <= (
    #[trigger] before[j]).time by {
        assert(before[i] == arrivals[i] && before[j] == arrivals[j]);
    }
    assert forall|i: int| 0 <= i < before.len() implies (#[trigger] before[i]).time
        <= arrivals.last().time by {
        assert(before[i] == arrivals[i]);
    }
}

proof fn lemma_pruned(times: Seq<u128>, now: u128)
    ensures
        pruned(times, now).len() <= times.len(),
        pruned(times, now) == times.skip(times.len() - pruned(times, now).len()),
        forall|i: int|
            0 <= i < times.len() - pruned(times, now).len() ==> expired(#[trigger] times[i], now),
        pruned(times, now).len() > 0 ==> !expired(pruned(times, now)[0], now),
    decreases times.len(),
{
    if times.len() > 0 && expired(times[0], now) {
        let rest = times.drop_first();
        lemma_pruned(rest, now);
        let cut = times.len() - pruned(times, now).len();
        assert(rest.skip(cut - 1) =~= times.skip(cut));
        assert forall|i: int| 0 <= i < cut implies expired(#[trigger] times[i], now) by {
            if i > 0 {
                assert(times[i] == rest[i - 1]);
            }
        }
    } else {
        assert(times.skip(0) =~= times);
    }
}

/// What a request does to the record of its client, whatever is on it and whether or not the clock
/// went back: times that lie more than a minute back are dropped from the front, up to the first
/// that does not; the request is refused exactly if as many times as the limit allows are left; and
/// if it is not, its own time goes to the end.
pub proof fn law_only_the_expired_front_of_a_record_is_dropped(
    times: Seq<u128>,
    max: usize,
    now: u128,
    cut: nat,
)
    requires
        cut <= times.len(),
        forall|i: int| 0 <= i < cut ==> now - #[trigger] times[i] > 60_000_000_000,
        cut < times.len() ==> now - times[cut as int] <= 60_000_000_000,
    ensures
        refused(times, max, now) <==> times.len() - cut >= max,
        refused(times, max, now) ==> recorded(times, max, now) == times.skip(cut as int),
        !refused(times, max, now) ==> recorded(times, max, now) == times.skip(cut as int).push(now),
{
    lemma_pruned(times, now);
    let dropped = times.len() - pruned(times, now).len();
    if dropped < cut {
        assert(pruned(times, now)[0] == times[dropped as int]);
        assert(expired(times[dropped as int], now));
    }
    if cut < dropped {
        assert(!expired(times[cut as int], now));
    }
}

/// The record of a client is what the map of all records holds for it, or empty where the map holds
/// nothing; a request of one client leaves the record of every other as it is.
pub proof fn law_a_record_is_kept_for_each_client(
    counts: Map<Seq<char>, Seq<u128>>,
    client: Seq<char>,
    other: Seq<char>,
    times: Seq<u128>,
)
    ensures
        times_of(counts.insert(client, times), client) == times,
        other != client ==> times_of(counts.insert(client, times), other) == times_of(counts, other),
        times_of(Map::empty(), other) == Seq::<u128>::empty(),
{
}

/// What is on record for a client is the tail of what was let through; the rest has expired.
proof fn lemma_record(arrivals: Seq<Arrival>, max: usize, client: Seq<char>, now: u128)
    requires
        in_time_order(arrivals),
        not_before(arrivals, now),
    ensures
        ({
            let passed = let_through(arrivals, max, client);
            let times = times_of(counts_after(arrivals, max), client);
            let cut = passed.len() - times.len();
            &&& 0 <= cut
            &&& times == passed.skip(cut)
            &&& forall|i: int| 0 <= i < cut ==> expired(#[trigger] passed[i], now)
            &&& forall|i: int, j: int| 0 <= i <= j < passed.len() ==> passed[i] <= passed[j]
            &&& forall|i: int| 0 <= i < passed.len() ==> #[trigger] passed[i] <= now
        }),
    decreases arrivals.len(),
{
    let passed = let_through(arrivals, max, client);
    let times = times_of(counts_after(arrivals, max), client);
    if arrivals.len() > 0 {
        let before = arrivals.drop_last();
        let last = arrivals.last();
        lemma_drop_last_in_time_order(arrivals);
        assert(last.time <= now) by {
            assert(arrivals[arrivals.len() - 1] == last);
        }
        lemma_record(before, max, client, last.time);
        let old_passed = let_through(before, max, client);
        let old_times = times_of(counts_after(before, max), client);
        if last.client == client {
            lemma_pruned(old_times, last.time);
            let kept = pruned(old_times, last.time);
            let cut = old_passed.len() - kept.len();
            assert(kept =~= old_passed.skip(cut));
            assert forall|i: int| 0 <= i < cut implies expired(#[trigger] old_passed[i], now) by {
                let old_cut = old_passed.len() - old_times.len();
                if i >= old_cut {
                    assert(old_times[i - old_cut] == old_passed[i]);
                }
            }
            assert(times =~= passed.skip(passed.len() - times.len()));
        } else {
            assert(times =~= old_times);
        }
    } else {
        assert(times =~= passed.skip(0));
    }
}

/// A request is refused exactly when its client's last `max` requests that were let through all
/// came within the minute before it.
pub proof fn law_refused_exactly_when_the_minute_is_full(
    arrivals: Seq<Arrival>,
    max: usize,
    client: Seq<char>,
    now: u128,
)
    requires
        max > 0,
        in_time_order(arrivals),
        not_before(arrivals, now),
    ensures
        ({
            let passed = let_through(arrivals, max, client);
            refused(times_of(counts_after(arrivals, max), client), max, now) <==> passed.len() >= max
                && now - passed[passed.len() - max] <= 60_000_000_000
        }),
{
    let passed = let_through(arrivals, max, client);
    let times = times_of(counts_after(arrivals, max), client);
    lemma_record(arrivals, max, client, now);
    lemma_pruned(times, now);
    let kept = pruned(times, now);
    let cut = passed.len() - kept.len();
    let old_cut = passed.len() - times.len();
    assert(kept =~= passed.skip(cut));
    if kept.len() >= max {
        assert(kept[0] == passed[cut]);
        assert(passed[cut] <= passed[passed.len() - max]);
    } else if passed.len() >= max {
        let i = passed.len() - max;
        if i >= old_cut {
            assert(times[i - old_cut] == passed[i]);
        }
        assert(expired(passed[i], now));
    }
}

/// In no stretch of a minute are more than `max` requests of a client let through: of any
/// `max + 1` in a row the last comes more than a minute after the first.
pub proof fn law_at_most_max_requests_in_a_minute(
    arrivals: Seq<Arrival>,
    max: usize,
    client: Seq<char>,
    i: int,
)
    requires
        max > 0,
        in_time_order(arrivals),
        0 <= i < let_through(arrivals, max, client).len() - max,
    ensures
        let_through(arrivals, max, client)[i + max] - let_through(arrivals, max, client)[i]
            > 60_000_000_000,
    decreases arrivals.len(),
{
    let passed = let_through(arrivals, max, client);
    let before = arrivals.drop_last();
    let last = arrivals.last();
    lemma_drop_last_in_time_order(arrivals);
    let old_passed = let_through(before, max, client);
    if i + max < old_passed.len() {
        law_at_most_max_requests_in_a_minute(before, max, client, i);
    } else {
        law_refused_exactly_when_the_minute_is_full(before, max, client, last.time);
    }
}

/// No more than `max` requests of a client are ever on record.
pub proof fn law_the_record_is_bounded(arrivals: Seq<Arrival>, max: usize, client: Seq<char>)
    ensures
        times_of(counts_after(arrivals, max), client).len() <= max,
    decreases arrivals.len(),
{
    if arrivals.len() > 0 {
        let last = arrivals.last();
        law_the_record_is_bounded(arrivals.drop_last(), max, client);
        lemma_pruned(times_of(counts_after(arrivals.drop_last(), max), client), last.time);
    }
}

/// The requests that `client` made, among all that were made.
pub open spec fn made_by(arrivals: Seq<Arrival>, client: Seq<char>) -> Seq<Arrival>
    decreases arrivals.len(),
{
    if arrivals.len() == 0 {
        Seq::empty()
    } else {
        let before = made_by(arrivals.drop_last(), client);
        if arrivals.last().client == client {
            before.push(arrivals.last())
        } else {
            before
        }
    }
}

/// Clients are counted apart: what is on record for a client, and which of its requests are let
/// through, is the same as if it were the only one.
pub proof fn law_clients_are_counted_apart(arrivals: Seq<Arrival>, max: usize, client: Seq<char>)
    ensures
        times_of(counts_after(arrivals, max), client) == times_of(
            counts_after(made_by(arrivals, client), max),
            client,
        ),
        let_through(arrivals, max, client) == let_through(made_by(arrivals, client), max, client),
    decreases arrivals.len(),
{
    if arrivals.len() > 0 {
        let before = arrivals.drop_last();
        law_clients_are_counted_apart(before, max, client);
        if arrivals.last().client == client {
            assert(made_by(arrivals, client).drop_last() =~= made_by(before, client));
        }
    }
}

/// Whether the request at position `i` of `arrivals` is refused when it comes.
pub open spec fn refused_at(arrivals: Seq<Arrival>, max: usize, i: int) -> bool {
    refused(
        times_of(counts_after(arrivals.take(i), max), arrivals[i].client),
        max,
        arrivals[i].time,
    )
}

/// The requests of `arrivals` that `kept` marks.
pub open spec fn thinned(arrivals: Seq<Arrival>, kept: Seq<bool>) -> Seq<Arrival>
    decreases arrivals.len(),
{
    if arrivals.len() == 0 {
        Seq::empty()
    } else {
        let before = thinned(arrivals.drop_last(), kept.drop_last());
        if kept.last() {
            before.push(arrivals.last())
        } else {
            before
        }
    }
}

proof fn lemma_thinned_in_time_order(arrivals: Seq<Arrival>, kept: Seq<bool>, now: u128)
    requires
        kept.len() == arrivals.len(),
        in_time_order(arrivals),
        not_before(arrivals, now),
    ensures
        in_time_order(thinned(arrivals, kept)),
        not_before(thinned(arrivals, kept), now),
    decreases arrivals.len(),
{
    if arrivals.len() > 0 {
        let before = arrivals.drop_last();
        let last = arrivals.last();
        lemma_drop_last_in_time_order(arrivals);
        assert(last == arrivals[arrivals.len() - 1]);
        lemma_thinned_in_time_order(before, kept.drop_last(), last.time);
    }
}

/// Being refused does not prolong the refusal: if some of the refused requests had never been made,
/// the same requests would have been let through, and every later request would be answered the
/// same.
pub proof fn law_refused_requests_change_no_later_answer(
    arrivals: Seq<Arrival>,
    kept: Seq<bool>,
    max: usize,
    client: Seq<char>,
    now: u128,
)
    requires
        max > 0,
        in_time_order(arrivals),
        not_before(arrivals, now),
        kept.len() == arrivals.len(),
        forall|i: int|
            0 <= i < arrivals.len() && !(#[trigger] kept[i]) ==> refused_at(arrivals, max, i),
    ensures
        let_through(thinned(arrivals, kept), max, client) == let_through(arrivals, max, client),
        refused(times_of(counts_after(thinned(arrivals, kept), max), client), max, now) == refused(
            times_of(counts_after(arrivals, max), client),
            max,
            now,
        ),
    decreases arrivals.len(),
{
    let fewer = thinned(arrivals, kept);
    if arrivals.len() > 0 {
        let before = arrivals.drop_last();
        let last = arrivals.last();
        lemma_drop_last_in_time_order(arrivals);
        assert(before =~= arrivals.take(arrivals.len() - 1));
        assert forall|i: int| 0 <= i < before.len() && !(
        #[trigger] kept.drop_last()[i]) implies refused_at(before, max, i) by {
            assert(!kept[i]);
            assert(before.take(i) =~= arrivals.take(i));
        }
        law_refused_requests_change_no_later_answer(
            before,
            kept.drop_last(),
            max,
            client,
            last.time,
        );
        if kept.last() {
            assert(fewer.drop_last() =~= thinned(before, kept.drop_last()));
        } else {
            assert(!kept[arrivals.len() - 1]);
            assert(refused_at(arrivals, max, arrivals.len() - 1));
        }
    }
    lemma_thinned_in_time_order(arrivals, kept, now);
    law_refused_exactly_when_the_minute_is_full(arrivals, max, client, now);
    law_refused_exactly_when_the_minute_is_full(fewer, max, client, now);
}

} // verus!
