use vstd::prelude::*;

verus! {

/// Run-length filter: collapses consecutive equal polarity symbols into
/// pulse-width counts. It holds the last observed symbol and the running
/// count of the current run across calls; each symbol transition emits the
/// count accumulated for the run that just ended.
pub struct RawDemodFilter {
    last: i8,
    count: i64,
}

/// State of the run-length filter after consuming `data`, starting from the
/// held symbol `last` and the running count `count`: a symbol equal to the
/// held one raises the count by one; a differing symbol becomes the new held
/// symbol and resets the count to zero.
pub open spec fn demod_state(last: i8, count: int, data: Seq<i8>) -> (i8, int)
    decreases data.len(),
{
    if data.len() == 0 {
        (last, count)
    } else {
        let s = demod_state(last, count, data.drop_last());
        if data.last() == s.0 {
            (s.0, s.1 + 1)
        } else {
            (data.last(), 0)
        }
    }
}

/// Widths emitted while consuming `data`: each symbol transition emits the
/// count held just before it.
pub open spec fn demod_output(last: i8, count: int, data: Seq<i8>) -> Seq<i64>
    decreases data.len(),
{
    if data.len() == 0 {
        Seq::empty()
    } else {
        let s = demod_state(last, count, data.drop_last());
        let prev = demod_output(last, count, data.drop_last());
        if data.last() == s.0 {
            prev
        } else {
            prev.push(s.1 as i64)
        }
    }
}

/// A chunk that is one uninterrupted run of the held symbol emits no width
/// and raises the running count by the chunk's length: the sum of the
/// emitted widths (zero) plus the final unflushed count accounts for the
/// whole input. In particular, starting from a count of zero, the unflushed
/// count ends equal to the input length.
pub proof fn lemma_uninterrupted_run(last: i8, count: int, data: Seq<i8>)
    requires
        forall|i: int| 0 <= i < data.len() ==> data[i] == last,
    ensures
        demod_output(last, count, data) =~= Seq::<i64>::empty(),
        demod_state(last, count, data) == (last, count + data.len()),
    decreases data.len(),
{
    if data.len() > 0 {
        lemma_uninterrupted_run(last, count, data.drop_last());
    }
}

impl RawDemodFilter {
    pub closed spec fn last(self) -> i8 {
        self.last
    }

    pub closed spec fn count(self) -> int {
        self.count as int
    }

    pub fn new() -> (r: RawDemodFilter)
        ensures
            r.last() == 0i8,
            r.count() == 0,
    {
        RawDemodFilter { last: 0, count: 0 }
    }

    /// Emits one completed pulse width per symbol transition and keeps the
    /// still-open run in the running count.
    pub fn filter(&mut self, data: &Vec<i8>) -> (result: Vec<i64>)
        requires
            0 <= old(self).count(),
            old(self).count() + data@.len() <= i64::MAX,
        ensures
            result@ == demod_output(old(self).last(), old(self).count(), data@),
            (final(self).last(), final(self).count()) == demod_state(
                old(self).last(),
                old(self).count(),
                data@,
            ),
            0 <= final(self).count() <= old(self).count() + data@.len(),
            forall|k: int|
                0 <= k < result@.len() ==> 0 <= #[trigger] result@[k] <= old(self).count()
                    + data@.len(),
    {
        let ghost l0 = self.last;
        let ghost c0 = self.count as int;
        let mut result: Vec<i64> = Vec::new();
        let n = data.len();
        let mut i: usize = 0;
        while i < n
            invariant
                n == data@.len(),
                0 <= i <= n,
                0 <= self.count <= c0 + i,
                (self.last, self.count as int) == demod_state(l0, c0, data@.take(i as int)),
                result@ == demod_output(l0, c0, data@.take(i as int)),
                forall|k: int| 0 <= k < result@.len() ==> 0 <= #[trigger] result@[k] <= c0 + i,
                c0 + n <= i64::MAX,
            decreases n - i,
        {
            assert(data@.take(i as int + 1).drop_last() =~= data@.take(i as int));
            let val = data[i];
            if val == self.last {
                self.count = self.count + 1;
            } else {
                result.push(self.count);
                self.count = 0;
                self.last = val;
            }
            i = i + 1;
        }
        assert(data@.take(n as int) =~= data@);
        result
    }
}

} // verus!
