use vstd::prelude::*;

verus! {

/// The value a Lamport clock holding `counter` hands out when it receives a
/// request stamped `request_time`: one more than the larger of the two.
pub open spec fn next_time(counter: int, request_time: int) -> int {
    if counter >= request_time {
        counter + 1
    } else {
        request_time + 1
    }
}

/// A tick hands out the least time later than both the clock's value and
/// the request's time (one less would not be later than both): one more than
/// the larger of the two.
pub proof fn lemma_next_time_is_least_later(counter: int, request_time: int)
    ensures
        next_time(counter, request_time) > counter,
        next_time(counter, request_time) > request_time,
        next_time(counter, request_time) - 1 <= counter || next_time(counter, request_time) - 1
            <= request_time,
        counter >= request_time ==> next_time(counter, request_time) == counter + 1,
        counter <= request_time ==> next_time(counter, request_time) == request_time + 1,
{
}

/// The times a clock holding `counter` hands out, in order, for requests
/// stamped `request_times`.
pub open spec fn stamps(counter: int, request_times: Seq<int>) -> Seq<int>
    decreases request_times.len(),
{
    if request_times.len() == 0 {
        Seq::empty()
    } else {
        let first = next_time(counter, request_times[0]);
        seq![first] + stamps(first, request_times.drop_first())
    }
}

/// A tick hands out a time later than both the clock's value and the
/// request's time.
pub proof fn lemma_tick_exceeds(counter: int, request_time: int)
    ensures
        next_time(counter, request_time) > counter,
        next_time(counter, request_time) > request_time,
{
}

/// Along any run of ticks, the times handed out strictly increase, each is
/// later than the clock's starting value, and each is later than the time of
/// the request it answers.
pub proof fn lemma_stamps_increase(counter: int, request_times: Seq<int>)
    ensures
        stamps(counter, request_times).len() == request_times.len(),
        forall|i: int, j: int|
            0 <= i < j < request_times.len() ==> #[trigger] stamps(counter, request_times)[i]
                < #[trigger] stamps(counter, request_times)[j],
        forall|i: int|
            0 <= i < request_times.len() ==> #[trigger] stamps(counter, request_times)[i]
                > counter,
        forall|i: int|
            0 <= i < request_times.len() ==> #[trigger] stamps(counter, request_times)[i]
                > request_times[i],
    decreases request_times.len(),
{
    if request_times.len() > 0 {
        let first = next_time(counter, request_times[0]);
        let rest = request_times.drop_first();
        lemma_stamps_increase(first, rest);
        let s = stamps(counter, request_times);
        assert(s == seq![first] + stamps(first, rest));
        assert forall|i: int| 0 < i < request_times.len() implies s[i] == stamps(first, rest)[i - 1]
            && request_times[i] == rest[i - 1] by {
        }
        assert forall|i: int, j: int| 0 <= i < j < request_times.len() implies #[trigger] s[i]
            < #[trigger] s[j] by {
            if i > 0 {
                assert(s[i] == stamps(first, rest)[i - 1]);
                assert(s[j] == stamps(first, rest)[j - 1]);
            } else {
                assert(s[j] == stamps(first, rest)[j - 1]);
            }
        }
        assert forall|i: int| 0 <= i < request_times.len() implies #[trigger] s[i] > counter by {
            if i > 0 {
                assert(s[i] == stamps(first, rest)[i - 1]);
            }
        }
        assert forall|i: int| 0 <= i < request_times.len() implies #[trigger] s[i]
            > request_times[i] by {
            if i > 0 {
                assert(s[i] == stamps(first, rest)[i - 1]);
                assert(request_times[i] == rest[i - 1]);
            }
        }
    }
}

/// The value of a clock holding `counter` after it answers requests stamped
/// `request_times`, one after the other.
pub open spec fn value_after(counter: int, request_times: Seq<int>) -> int
    decreases request_times.len(),
{
    if request_times.len() == 0 {
        counter
    } else {
        value_after(next_time(counter, request_times[0]), request_times.drop_first())
    }
}

/// Along any run of ticks, the clock never falls below where it started, and
/// afterwards it holds the largest time it handed out (its starting value when it handed out
/// none).
pub proof fn lemma_value_is_latest_stamp(counter: int, request_times: Seq<int>)
    ensures
        value_after(counter, request_times) >= counter,
        request_times.len() == 0 ==> value_after(counter, request_times) == counter,
        request_times.len() > 0 ==> value_after(counter, request_times) == stamps(
            counter,
            request_times,
        ).last(),
        forall|i: int|
            0 <= i < request_times.len() ==> #[trigger] stamps(counter, request_times)[i]
                <= value_after(counter, request_times),
    decreases request_times.len(),
{
    lemma_stamps_increase(counter, request_times);
    if request_times.len() > 0 {
        let first = next_time(counter, request_times[0]);
        let rest = request_times.drop_first();
        lemma_value_is_latest_stamp(first, rest);
        lemma_stamps_increase(first, rest);
        let s = stamps(counter, request_times);
        assert(s == seq![first] + stamps(first, rest));
        if rest.len() > 0 {
            assert(s.last() == stamps(first, rest).last());
        }
        assert forall|i: int| 0 <= i < request_times.len() implies #[trigger] s[i] <= value_after(
            counter,
            request_times,
        ) by {
            if i > 0 {
                assert(s[i] == stamps(first, rest)[i - 1]);
            }
        }

    }
}

/// Answering one more request takes the clock from its value to the next
/// time.
pub proof fn lemma_value_after_push(counter: int, request_times: Seq<int>, request_time: int)
    ensures
        value_after(counter, request_times.push(request_time)) == next_time(
            value_after(counter, request_times),
            request_time,
        ),
    decreases request_times.len(),
{
    if request_times.len() > 0 {
        let first = next_time(counter, request_times[0]);
        assert(request_times.push(request_time)[0] == request_times[0]);
        assert(request_times.push(request_time).drop_first() =~= request_times.drop_first().push(
            request_time,
        ));
        lemma_value_after_push(first, request_times.drop_first(), request_time);
    } else {
        assert(request_times.push(request_time)[0] == request_time);
        assert(request_times.push(request_time).drop_first() =~= Seq::<int>::empty());
        assert(value_after(next_time(counter, request_time), Seq::<int>::empty()) == next_time(
            counter,
            request_time,
        ));
    }
}

/// The clock never goes back: each request of a run moves it strictly
/// forward.
pub proof fn lemma_value_never_decreases(counter: int, request_times: Seq<int>)
    ensures
        forall|k: int|
            0 <= k < request_times.len() ==> value_after(counter, request_times.take(k))
                < #[trigger] value_after(counter, request_times.take(k + 1)),
{
    assert forall|k: int| 0 <= k < request_times.len() implies value_after(
        counter,
        request_times.take(k),
    ) < #[trigger] value_after(counter, request_times.take(k + 1)) by {
        assert(request_times.take(k + 1) =~= request_times.take(k).push(request_times[k]));
        lemma_value_after_push(counter, request_times.take(k), request_times[k]);
    }
}

/// A Lamport clock.
pub struct Lamport {
    counter: u64,
}

impl Lamport {
    /// The last value this clock handed out (0 for a fresh clock).
    pub closed spec fn value(&self) -> nat {
        self.counter as nat
    }

    /// A fresh clock, which has handed out nothing yet.
    pub fn new() -> (clock: Self)
        ensures
            clock.value() == 0,
    {
        Self { counter: 0 }
    }

    /// Advances the clock past both its own value and `request_time`, and
    /// returns the new value.
    pub fn tick(&mut self, request_time: u64) -> (next: u64)
        requires
            next_time(old(self).value() as int, request_time as int) <= u64::MAX,
        ensures
            next == next_time(old(self).value() as int, request_time as int),
            final(self).value() == next,
            final(self).value() > old(self).value(),
            next > request_time,
            next == old(self).value() + 1 || next == request_time + 1,
    {
        let current = self.counter;
        let next = if current >= request_time { current + 1 } else { request_time + 1 };
        self.counter = next;
        next
    }

    /// The last value this clock handed out.
    pub fn now(&self) -> (value: u64)
        ensures
            value == self.value(),
    {
        self.counter
    }
}

} // verus!
