use vstd::prelude::*;

verus! {

/// Pulse merge filter: removes spurious narrow pulses by accumulating
/// consecutive pulse widths until the running total clears a noise-rejection
/// threshold derived from the chunk itself (one quarter of the chunk's
/// largest width). The accumulator survives across calls.
pub struct FmDenoiseFilter {
    last: i64,
}

/// Largest element of `s`, or zero when `s` is empty.
pub open spec fn seq_max_or_zero(s: Seq<i64>) -> int
    decreases s.len(),
{
    if s.len() == 0 {
        0
    } else if s.len() == 1 {
        s[0] as int
    } else {
        let m = seq_max_or_zero(s.drop_last());
        if s.last() > m {
            s.last() as int
        } else {
            m
        }
    }
}

/// Accumulator value after consuming `data` against the threshold `thr`,
/// starting from `acc`: each width is added to the accumulator, which resets
/// to zero whenever it exceeds the threshold (an emission).
pub open spec fn merge_state(acc: int, data: Seq<i64>, thr: int) -> int
    decreases data.len(),
{
    if data.len() == 0 {
        acc
    } else {
        let a = merge_state(acc, data.drop_last(), thr) + data.last();
        if a > thr {
            0
        } else {
            a
        }
    }
}

/// Merged widths emitted while consuming `data` against the threshold `thr`:
/// the accumulator value at each point where it exceeds the threshold.
pub open spec fn merge_output(acc: int, data: Seq<i64>, thr: int) -> Seq<i64>
    decreases data.len(),
{
    if data.len() == 0 {
        Seq::empty()
    } else {
        let a = merge_state(acc, data.drop_last(), thr) + data.last();
        let prev = merge_output(acc, data.drop_last(), thr);
        if a > thr {
            prev.push(a as i64)
        } else {
            prev
        }
    }
}

impl FmDenoiseFilter {
    pub closed spec fn acc(self) -> int {
        self.last as int
    }

    pub fn new() -> (r: FmDenoiseFilter)
        ensures
            r.acc() == 0,
    {
        FmDenoiseFilter { last: 0 }
    }

    /// Merges the chunk's widths against a threshold of one quarter of the
    /// chunk's largest width, carrying the accumulator across calls.
    pub fn filter(&mut self, data: &Vec<i64>) -> (result: Vec<i64>)
        requires
            0 <= old(self).acc() <= 0x4000_0000_0000_0000,
            forall|i: int| 0 <= i < data@.len() ==> 0 <= #[trigger] data@[i] <= 0x2000_0000_0000_0000,
        ensures
            result@ == merge_output(old(self).acc(), data@, seq_max_or_zero(data@) / 4),
            final(self).acc() == merge_state(old(self).acc(), data@, seq_max_or_zero(data@) / 4),
            0 <= final(self).acc() <= 0x4000_0000_0000_0000,
            forall|k: int| 0 <= k < result@.len() ==> 0 <= #[trigger] result@[k],
    {
        let ghost a0 = self.last as int;
        let n = data.len();

        let mut bit_length: i64 = 0;
        let mut j: usize = 0;
        while j < n
            invariant
                n == data@.len(),
                0 <= j <= n,
                self.last as int == a0,
                0 <= a0 <= 0x4000_0000_0000_0000,
                forall|i: int| 0 <= i < n ==> 0 <= #[trigger] data@[i] <= 0x2000_0000_0000_0000,
                j == 0 ==> bit_length == 0,
                j > 0 ==> bit_length as int == seq_max_or_zero(data@.take(j as int)),
                0 <= bit_length <= 0x2000_0000_0000_0000,
            decreases n - j,
        {
            assert(data@.take(j as int + 1).drop_last() =~= data@.take(j as int));
            let val = data[j];
            if val > bit_length {
                bit_length = val;
            }
            j = j + 1;
        }
        assert(data@.take(n as int) =~= data@);
        let ghost mx = seq_max_or_zero(data@);
        assert(n > 0 ==> bit_length as int == mx);
        assert(n == 0 ==> mx == 0 && bit_length == 0);

        let threshold: i64 = bit_length / 4;
        assert(threshold as int == mx / 4);
        let ghost thr = mx / 4;

        let mut result: Vec<i64> = Vec::new();
        let mut i: usize = 0;
        while i < n
            invariant
                n == data@.len(),
                0 <= i <= n,
                forall|k: int| 0 <= k < n ==> 0 <= #[trigger] data@[k] <= 0x2000_0000_0000_0000,
                0 <= thr <= 0x0800_0000_0000_0000,
                threshold as int == thr,
                self.last as int == merge_state(a0, data@.take(i as int), thr),
                result@ == merge_output(a0, data@.take(i as int), thr),
                forall|k: int| 0 <= k < result@.len() ==> 0 <= #[trigger] result@[k],
                0 <= self.last,
                i == 0 ==> self.last as int == a0 && a0 <= 0x4000_0000_0000_0000,
                i > 0 ==> self.last as int <= thr,
            decreases n - i,
        {
            assert(data@.take(i as int + 1).drop_last() =~= data@.take(i as int));
            assert(data@.take(i as int + 1).last() == data@[i as int]);
            let val = data[i];
            self.last = self.last + val;
            if self.last > threshold {
                result.push(self.last);
                self.last = 0;
            }
            i = i + 1;
        }
        assert(data@.take(n as int) =~= data@);
        result
    }
}

} // verus!
