use vstd::prelude::*;
use crate::filter::fm_noise::seq_max_or_zero;

verus! {

/// Biphase-mark decoder: classifies each merged pulse width as "long" (one
/// transition per bit cell) or "short" (half a bit cell) against a
/// per-chunk threshold of half the spread between the chunk's smallest and
/// largest widths. A long pulse completes a bit cell on its own, decoding
/// to a zero — or to a one when a half bit was pending; two shorts in a row
/// complete a cell and decode to a one. The flag for a pending unmatched
/// short pulse survives across calls.
pub struct FmDecodeFilter {
    remaining: bool,
}

/// Smallest element of `s`, or zero when `s` is empty.
pub open spec fn seq_min_or_zero(s: Seq<i64>) -> int
    decreases s.len(),
{
    if s.len() == 0 {
        0
    } else if s.len() == 1 {
        s[0] as int
    } else {
        let m = seq_min_or_zero(s.drop_last());
        if s.last() < m {
            s.last() as int
        } else {
            m
        }
    }
}

/// A width is "long" when its offset above the chunk minimum `mn` clears the
/// threshold `thr`; otherwise it is a "short" half-cell pulse.
pub open spec fn is_long(val: i64, mn: int, thr: int) -> bool {
    val - mn > thr
}

/// Pending-half-bit flag after consuming `data`, starting from `pending`:
/// a short pulse flips the flag; a long pulse clears it.
pub open spec fn decode_state(pending: bool, data: Seq<i64>, mn: int, thr: int) -> bool
    decreases data.len(),
{
    if data.len() == 0 {
        pending
    } else {
        let p = decode_state(pending, data.drop_last(), mn, thr);
        if !is_long(data.last(), mn, thr) {
            !p
        } else {
            false
        }
    }
}

/// Bits decoded while consuming `data`: a pulse that completes a bit cell
/// whose first half is pending — the partner short pulse, or a long pulse —
/// emits a one and clears the flag; a long pulse with no pending half emits
/// a zero; a lone short pulse emits nothing and leaves its half pending.
pub open spec fn decode_output(pending: bool, data: Seq<i64>, mn: int, thr: int) -> Seq<bool>
    decreases data.len(),
{
    if data.len() == 0 {
        Seq::empty()
    } else {
        let p = decode_state(pending, data.drop_last(), mn, thr);
        let prev = decode_output(pending, data.drop_last(), mn, thr);
        if !is_long(data.last(), mn, thr) {
            if p {
                prev.push(true)
            } else {
                prev
            }
        } else {
            if p {
                prev.push(true)
            } else {
                prev.push(false)
            }
        }
    }
}

/// Every element of a nonempty sequence lies between its minimum and its
/// maximum.
proof fn lemma_min_max_bounds(s: Seq<i64>)
    ensures
        forall|i: int|
            0 <= i < s.len() ==> seq_min_or_zero(s) <= #[trigger] s[i] && s[i] <= seq_max_or_zero(
                s,
            ),
    decreases s.len(),
{
    if s.len() <= 1 {
    } else {
        lemma_min_max_bounds(s.drop_last());
        assert forall|i: int|
            0 <= i < s.len() implies seq_min_or_zero(s) <= #[trigger] s[i] && s[i]
            <= seq_max_or_zero(s) by {
            if i < s.len() - 1 {
                assert(s.drop_last()[i] == s[i]);
            }
        }
    }
}

/// A pulse that arrives alone in its chunk is always classified short, and
/// an unmatched lone short pulse emits no bit: with no half bit pending it
/// only sets the pending flag. The flag survives to a later call, so when
/// the partner pulse arrives — also alone in its own chunk — the pair emits
/// a single one bit and clears the flag.
pub proof fn lemma_lone_pulse_waits_for_partner(w1: i64, w2: i64)
    ensures
        decode_output(
            false,
            seq![w1],
            seq_min_or_zero(seq![w1]),
            (seq_max_or_zero(seq![w1]) - seq_min_or_zero(seq![w1])) / 2,
        ) =~= Seq::<bool>::empty(),
        decode_state(
            false,
            seq![w1],
            seq_min_or_zero(seq![w1]),
            (seq_max_or_zero(seq![w1]) - seq_min_or_zero(seq![w1])) / 2,
        ) == true,
        decode_output(
            true,
            seq![w2],
            seq_min_or_zero(seq![w2]),
            (seq_max_or_zero(seq![w2]) - seq_min_or_zero(seq![w2])) / 2,
        ) =~= seq![true],
        decode_state(
            true,
            seq![w2],
            seq_min_or_zero(seq![w2]),
            (seq_max_or_zero(seq![w2]) - seq_min_or_zero(seq![w2])) / 2,
        ) == false,
{
    let s1 = seq![w1];
    let s2 = seq![w2];
    assert(s1.drop_last() =~= Seq::<i64>::empty());
    assert(s2.drop_last() =~= Seq::<i64>::empty());
    assert(s1.last() == w1 && s2.last() == w2);
    assert(seq_min_or_zero(s1) == w1 as int && seq_max_or_zero(s1) == w1 as int);
    assert(seq_min_or_zero(s2) == w2 as int && seq_max_or_zero(s2) == w2 as int);
    assert(!is_long(w1, w1 as int, 0));
    assert(!is_long(w2, w2 as int, 0));
    assert(decode_output(false, Seq::<i64>::empty(), w1 as int, 0) =~= Seq::<bool>::empty());
    assert(decode_output(true, Seq::<i64>::empty(), w2 as int, 0) =~= Seq::<bool>::empty());
    assert(decode_state(false, s1.drop_last(), w1 as int, 0) == false);
    assert(decode_output(false, s1, w1 as int, 0) =~= Seq::<bool>::empty());
    assert(decode_state(true, s2.drop_last(), w2 as int, 0) == true);
    assert(decode_output(true, s2, w2 as int, 0) =~= seq![true]);
}

impl FmDecodeFilter {
    pub closed spec fn pending(self) -> bool {
        self.remaining
    }

    pub fn new() -> (r: FmDecodeFilter)
        ensures
            !r.pending(),
    {
        FmDecodeFilter { remaining: false }
    }

    /// Decodes the chunk's widths against the spread-based threshold derived
    /// from this same chunk, carrying the pending-half-bit flag across calls.
    pub fn filter(&mut self, data: &Vec<i64>) -> (result: Vec<bool>)
        requires
            forall|i: int| 0 <= i < data@.len() ==> 0 <= #[trigger] data@[i],
        ensures
            result@ == decode_output(
                old(self).pending(),
                data@,
                seq_min_or_zero(data@),
                (seq_max_or_zero(data@) - seq_min_or_zero(data@)) / 2,
            ),
            final(self).pending() == decode_state(
                old(self).pending(),
                data@,
                seq_min_or_zero(data@),
                (seq_max_or_zero(data@) - seq_min_or_zero(data@)) / 2,
            ),
    {
        let ghost p0 = self.remaining;
        let n = data.len();

        let mut min: i64 = 0;
        let mut max: i64 = 0;
        let mut j: usize = 0;
        while j < n
            invariant
                n == data@.len(),
                0 <= j <= n,
                self.remaining == p0,
                forall|i: int| 0 <= i < n ==> 0 <= #[trigger] data@[i],
                j == 0 ==> min == 0 && max == 0,
                j > 0 ==> min as int == seq_min_or_zero(data@.take(j as int)) && max as int
                    == seq_max_or_zero(data@.take(j as int)),
                0 <= min,
                min <= max || j == 0,
            decreases n - j,
        {
            assert(data@.take(j as int + 1).drop_last() =~= data@.take(j as int));
            assert(data@.take(j as int + 1).last() == data@[j as int]);
            let val = data[j];
            if j == 0 {
                min = val;
                max = val;
            } else {
                if val < min {
                    min = val;
                }
                if val > max {
                    max = val;
                }
            }
            j = j + 1;
        }
        assert(data@.take(n as int) =~= data@);
        let ghost mn = seq_min_or_zero(data@);
        let ghost mx = seq_max_or_zero(data@);
        assert(n == 0 ==> mn == 0 && mx == 0);
        assert(min as int == mn && max as int == mx);

        proof {
            lemma_min_max_bounds(data@);
        }
        let threshold: i64 = (max - min) / 2;
        assert(threshold as int == (mx - mn) / 2);
        let ghost thr = (mx - mn) / 2;

        let mut result: Vec<bool> = Vec::new();
        let mut i: usize = 0;
        while i < n
            invariant
                n == data@.len(),
                0 <= i <= n,
                forall|k: int| 0 <= k < n ==> 0 <= #[trigger] data@[k],
                min as int == mn,
                threshold as int == thr,
                0 <= mn,
                forall|k: int| 0 <= k < n ==> mn <= #[trigger] data@[k],
                self.remaining == decode_state(p0, data@.take(i as int), mn, thr),
                result@ == decode_output(p0, data@.take(i as int), mn, thr),
            decreases n - i,
        {
            assert(data@.take(i as int + 1).drop_last() =~= data@.take(i as int));
            assert(data@.take(i as int + 1).last() == data@[i as int]);
            assert(mn <= data@[i as int]);
            let val = data[i] - min;
            let is_zero = val > threshold;
            if !is_zero {
                if self.remaining {
                    self.remaining = false;
                    result.push(true);
                } else {
                    self.remaining = true;
                }
            } else {
                if self.remaining {
                    self.remaining = false;
                    result.push(true);
                } else {
                    result.push(false);
                }
            }
            i = i + 1;
        }
        assert(data@.take(n as int) =~= data@);
        result
    }
}

} // verus!
