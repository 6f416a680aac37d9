use vstd::prelude::*;
use crate::ltc_frame::{
    digit_of,
    frame_model_of,
    padded2_chars,
    padded3_chars,
    timecode_chars,
    FrameModel,
    LtcFrame,
};

verus! {

/// The 16-bit frame synchronization pattern, by bit position within the
/// pattern: positions 2 through 13 and position 15 carry a one, the rest a
/// zero.
pub open spec fn sync_bit(i: int) -> bool {
    (2 <= i && i <= 13) || i == 15
}

/// Whether the trailing 16 bits of `s` equal the synchronization pattern.
pub open spec fn ends_with_sync(s: Seq<bool>) -> bool {
    s.len() >= 16 && forall|i: int| 0 <= i < 16 ==> s[s.len() - 16 + i] == sync_bit(i)
}

/// Mathematical model of the frame synchronizer's state.
#[verifier::ext_equal]
pub ghost struct ReaderModel {
    pub buffer: Seq<bool>,
    pub last_frame_count: u128,
    pub frame_rate: Option<u128>,
}

/// The state of a freshly constructed synchronizer: an empty buffer, a held
/// frame number of zero, and no frame-rate estimate.
pub open spec fn reader_init() -> ReaderModel {
    ReaderModel { buffer: Seq::empty(), last_frame_count: 0, frame_rate: None }
}

/// The held frame number never exceeds what a decoded frame field can hold.
pub open spec fn reader_wf(m: ReaderModel) -> bool {
    m.last_frame_count <= 255
}

/// One step of the synchronizer on an incoming bit. If the buffer's tail
/// matches the synchronization pattern, the buffer is cleared: at length
/// exactly 80 a frame is decoded first and the frame-number history updated
/// (a frame number below the held one marks a rollover and sets the
/// frame-rate estimate to the held number plus one); at any other length the
/// match is treated as corruption, and the history and estimate are reset.
/// In every case the incoming bit is then appended.
pub open spec fn reader_step(m: ReaderModel, bit: bool) -> (ReaderModel, Option<FrameModel>) {
    if ends_with_sync(m.buffer) {
        if m.buffer.len() == 80 {
            let fm = frame_model_of(m.buffer);
            let st = ReaderModel {
                buffer: seq![bit],
                last_frame_count: fm.frame as u128,
                frame_rate: if (fm.frame as u128) < m.last_frame_count {
                    Some((m.last_frame_count + 1) as u128)
                } else {
                    m.frame_rate
                },
            };
            (st, Some(fm))
        } else {
            (ReaderModel { buffer: seq![bit], last_frame_count: 0, frame_rate: None }, None)
        }
    } else {
        (
            ReaderModel {
                buffer: m.buffer.push(bit),
                last_frame_count: m.last_frame_count,
                frame_rate: m.frame_rate,
            },
            None,
        )
    }
}

/// The synchronizer's state and emitted frames after consuming `bits`.
pub open spec fn reader_run(m: ReaderModel, bits: Seq<bool>) -> (ReaderModel, Seq<FrameModel>)
    decreases bits.len(),
{
    if bits.len() == 0 {
        (m, Seq::empty())
    } else {
        let prev = reader_run(m, bits.drop_last());
        let st = reader_step(prev.0, bits.last());
        (
            st.0,
            match st.1 {
                Some(f) => prev.1.push(f),
                None => prev.1,
            },
        )
    }
}

/// Frame synchronizer: accumulates decoded bits, finds the synchronization
/// word at the buffer's tail, decodes 80-bit frames, and estimates the frame
/// rate from frame-number rollover.
pub struct LtcFrameReader {
    buffer: Vec<bool>,
    last_frame_count: u128,
    frame_rate: Option<u128>,
}

impl View for LtcFrameReader {
    type V = ReaderModel;

    closed spec fn view(&self) -> ReaderModel {
        ReaderModel {
            buffer: self.buffer@,
            last_frame_count: self.last_frame_count,
            frame_rate: self.frame_rate,
        }
    }
}

fn sync_bit_at(j: usize) -> (b: bool)
    ensures
        b == sync_bit(j as int),
{
    (j >= 2 && j <= 13) || j == 15
}

/// Whether the buffer's trailing 16 bits equal the synchronization pattern.
fn tail_matches_sync(buf: &Vec<bool>) -> (r: bool)
    ensures
        r == ends_with_sync(buf@),
{
    let n = buf.len();
    if n < 16 {
        return false;
    }
    let mut j: usize = 0;
    while j < 16
        invariant
            16 <= n == buf@.len(),
            0 <= j <= 16,
            forall|k: int| 0 <= k < j ==> buf@[n - 16 + k] == sync_bit(k),
        decreases 16 - j,
    {
        if buf[n - 16 + j] != sync_bit_at(j) {
            return false;
        }
        j = j + 1;
    }
    true
}

impl LtcFrameReader {
    pub fn new() -> (r: LtcFrameReader)
        ensures
            r@ == reader_init(),
            reader_wf(r@),
    {
        let r = LtcFrameReader { buffer: Vec::new(), last_frame_count: 0, frame_rate: None };
        proof {
            assert(r@ =~= reader_init());
        }
        r
    }

    /// The current frame-rate estimate, or `None` while no frame-number
    /// rollover has been observed.
    pub fn frame_rate(&self) -> (r: Option<u128>)
        ensures
            r == self@.frame_rate,
    {
        self.frame_rate
    }

    /// Consumes a chunk of decoded bits and returns the frames whose
    /// synchronization word was found at a buffer length of exactly 80.
    pub fn read(&mut self, data: &Vec<bool>) -> (result: Vec<LtcFrame>)
        requires
            reader_wf(old(self)@),
        ensures
            final(self)@ == reader_run(old(self)@, data@).0,
            result@.map_values(|f: LtcFrame| f@) == reader_run(old(self)@, data@).1,
            reader_wf(final(self)@),
    {
        let ghost m0 = self@;
        let mut result: Vec<LtcFrame> = Vec::new();
        let n = data.len();
        let mut i: usize = 0;
        while i < n
            invariant
                n == data@.len(),
                0 <= i <= n,
                reader_wf(self@),
                self@ == reader_run(m0, data@.take(i as int)).0,
                result@.map_values(|f: LtcFrame| f@) == reader_run(m0, data@.take(i as int)).1,
            decreases n - i,
        {
            assert(data@.take(i as int + 1).drop_last() =~= data@.take(i as int));
            assert(data@.take(i as int + 1).last() == data@[i as int]);
            let ghost pre = self@;
            let ghost out_pre = result@.map_values(|f: LtcFrame| f@);
            let bit = data[i];
            if tail_matches_sync(&self.buffer) {
                if self.buffer.len() == 80 {
                    let frame = LtcFrame::read(self.buffer.as_slice());
                    let frame_id = frame.frame() as u128;
                    if frame_id < self.last_frame_count {
                        self.frame_rate = Some(self.last_frame_count + 1);
                        self.last_frame_count = frame_id;
                    }
                    self.last_frame_count = frame_id;
                    result.push(frame);
                    assert(result@.map_values(|f: LtcFrame| f@) =~= out_pre.push(frame@));
                } else {
                    self.last_frame_count = 0;
                    self.frame_rate = None;
                }
                self.buffer.clear();
            }
            self.buffer.push(bit);
            proof {
                if ends_with_sync(pre.buffer) {
                    assert(self@.buffer =~= seq![data@[i as int]]);
                }
                assert(self@ =~= reader_step(pre, data@[i as int]).0);
            }
            i = i + 1;
        }
        assert(data@.take(n as int) =~= data@);
        result
    }
}

/// On every match of the synchronization word the buffer is cleared before
/// the incoming bit is appended, whatever the buffer's length: afterwards
/// the buffer holds just that bit.
pub proof fn lemma_sync_match_clears_buffer(m: ReaderModel, bit: bool)
    requires
        ends_with_sync(m.buffer),
    ensures
        reader_step(m, bit).0.buffer =~= seq![bit],
{
}

/// The frame-rate estimate stays unset until a frame-number rollover is
/// observed: a step that decodes no frame, or decodes one whose frame number
/// is not below the held frame number, leaves an unset estimate unset. The
/// step that observes a rollover sets the estimate to the held frame number
/// plus one.
pub proof fn lemma_rate_unset_until_rollover(m: ReaderModel, bit: bool)
    requires
        m.frame_rate is None,
        reader_wf(m),
    ensures
        ({
            let rolled = ends_with_sync(m.buffer) && m.buffer.len() == 80 && (frame_model_of(
                m.buffer,
            ).frame as u128) < m.last_frame_count;
            if rolled {
                reader_step(m, bit).0.frame_rate == Some((m.last_frame_count + 1) as u128)
                    && m.last_frame_count + 1 > 0
            } else {
                reader_step(m, bit).0.frame_rate is None
            }
        }),
{
}

/// Whenever the frame-rate estimate is set, it is a positive number.
pub open spec fn rate_positive(m: ReaderModel) -> bool {
    match m.frame_rate {
        None => true,
        Some(r) => 1 <= r <= 256,
    }
}

/// Consuming any bit sequence preserves the synchronizer's invariants: the
/// held frame number stays within a frame field's range, and the frame-rate
/// estimate, once set, is a positive number.
pub proof fn lemma_reader_invariants(m: ReaderModel, bits: Seq<bool>)
    requires
        reader_wf(m),
        rate_positive(m),
    ensures
        reader_wf(reader_run(m, bits).0),
        rate_positive(reader_run(m, bits).0),
    decreases bits.len(),
{
    if bits.len() > 0 {
        lemma_reader_invariants(m, bits.drop_last());
    }
}

/// Bit `k` of the little-endian binary encoding of `v`, for the bit
/// positions a digit field can hold.
pub open spec fn nth_bit(v: int, k: int) -> bool {
    if k == 0 {
        v % 2 == 1
    } else if k == 1 {
        v / 2 % 2 == 1
    } else if k == 2 {
        v / 4 % 2 == 1
    } else {
        v / 8 % 2 == 1
    }
}

/// A valid 80-bit frame buffer for the given timecode: every digit field
/// holds its value's little-endian encoding, the sync word stands at bits
/// 64..80, and all flag and user bits are clear.
pub open spec fn encoded_frame_bits(hour: int, minute: int, second: int, frame: int) -> Seq<bool> {
    Seq::new(
        80,
        |i: int|
            if 0 <= i < 4 {
                nth_bit(frame % 10, i)
            } else if 8 <= i < 10 {
                nth_bit(frame / 10, i - 8)
            } else if 16 <= i < 20 {
                nth_bit(second % 10, i - 16)
            } else if 24 <= i < 27 {
                nth_bit(second / 10, i - 24)
            } else if 32 <= i < 36 {
                nth_bit(minute % 10, i - 32)
            } else if 40 <= i < 43 {
                nth_bit(minute / 10, i - 40)
            } else if 48 <= i < 52 {
                nth_bit(hour % 10, i - 48)
            } else if 56 <= i < 58 {
                nth_bit(hour / 10, i - 56)
            } else if 64 <= i < 80 {
                sync_bit(i - 64)
            } else {
                false
            },
    )
}

/// A digit field that holds the little-endian encoding of `d` decodes back
/// to `d`, for any field width the frame layout uses.
proof fn lemma_digit_field_round_trip(d: int, s: Seq<bool>)
    requires
        2 <= s.len() <= 4,
        0 <= d,
        s.len() == 2 ==> d < 4,
        s.len() == 3 ==> d < 8,
        s.len() == 4 ==> d < 16,
        forall|j: int| 0 <= j < s.len() ==> s[j] == nth_bit(d, j),
    ensures
        digit_of(s) == d,
{
    assert(s[0] == nth_bit(d, 0) && s[1] == nth_bit(d, 1));
    assert(d % 2 + 2 * (d / 2 % 2) + 4 * (d / 4 % 2) + 8 * (d / 8 % 2) == d);
}

/// For a valid 80-bit buffer — sync word at bits 64..80 and every digit
/// field in range — decoding recovers exactly the timecode the buffer was
/// built from, so re-rendering the decoded frame reproduces the
/// construction string.
pub proof fn lemma_valid_buffer_round_trip(hour: int, minute: int, second: int, frame: int)
    requires
        0 <= hour < 40,
        0 <= minute < 80,
        0 <= second < 80,
        0 <= frame < 40,
    ensures
        ({
            let b = encoded_frame_bits(hour, minute, second, frame);
            let fm = frame_model_of(b);
            &&& b.len() == 80
            &&& ends_with_sync(b)
            &&& fm.hour as int == hour
            &&& fm.minute as int == minute
            &&& fm.second as int == second
            &&& fm.frame as int == frame
            &&& timecode_chars(fm) == padded2_chars(hour) + seq![':'] + padded2_chars(minute)
                + seq![':'] + padded2_chars(second) + seq![':'] + padded3_chars(frame)
        }),
{
    let b = encoded_frame_bits(hour, minute, second, frame);
    assert forall|i: int| 0 <= i < 16 implies b[b.len() - 16 + i] == sync_bit(i) by {}
    lemma_digit_field_round_trip(frame % 10, b.subrange(0, 4));
    lemma_digit_field_round_trip(frame / 10, b.subrange(8, 10));
    lemma_digit_field_round_trip(second % 10, b.subrange(16, 20));
    lemma_digit_field_round_trip(second / 10, b.subrange(24, 27));
    lemma_digit_field_round_trip(minute % 10, b.subrange(32, 36));
    lemma_digit_field_round_trip(minute / 10, b.subrange(40, 43));
    lemma_digit_field_round_trip(hour % 10, b.subrange(48, 52));
    lemma_digit_field_round_trip(hour / 10, b.subrange(56, 58));
}

/// Re-running the synchronizer over the same bits from the same starting
/// state yields the same decoded frames and the same final state: the
/// pipeline's outcome is a function of its input and starting state alone.
pub proof fn lemma_replay_identical(m1: ReaderModel, m2: ReaderModel, bits: Seq<bool>)
    requires
        m1 == m2,
    ensures
        reader_run(m1, bits).0 == reader_run(m2, bits).0,
        reader_run(m1, bits).1 == reader_run(m2, bits).1,
{
}

} // verus!
