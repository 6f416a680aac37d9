use ltc_reader::filter::{FmDecodeFilter, FmDenoiseFilter, RawDemodFilter};
use ltc_reader::{LtcFrameReader, LtcPipeline};

/// Writes `value` into `bits[start..start + len]`, least-significant bit
/// first.
fn set_field(bits: &mut Vec<bool>, start: usize, len: usize, value: u8) {
    for k in 0..len {
        bits[start + k] = (value >> k) & 1 == 1;
    }
}

/// An 80-bit frame buffer with the given timecode fields and the sync word
/// at bits 64..80.
fn make_frame_bits(hour: u8, minute: u8, second: u8, frame: u8) -> Vec<bool> {
    let mut bits = vec![false; 80];
    set_field(&mut bits, 0, 4, frame % 10);
    set_field(&mut bits, 8, 2, frame / 10);
    set_field(&mut bits, 16, 4, second % 10);
    set_field(&mut bits, 24, 3, second / 10);
    set_field(&mut bits, 32, 4, minute % 10);
    set_field(&mut bits, 40, 3, minute / 10);
    set_field(&mut bits, 48, 4, hour % 10);
    set_field(&mut bits, 56, 2, hour / 10);
    for i in 0..16 {
        bits[64 + i] = (2..=13).contains(&i) || i == 15;
    }
    bits
}

/// Expands data bits into a biphase-mark polarity symbol stream: every bit
/// cell starts with a transition; a one has a second transition mid-cell
/// (two short pulses), a zero has none (one long pulse).
fn modulate(bits: &[bool]) -> Vec<i8> {
    let mut symbols = Vec::new();
    let mut level: i8 = 1;
    for &bit in bits {
        if bit {
            symbols.extend(std::iter::repeat(level).take(10));
            level = -level;
            symbols.extend(std::iter::repeat(level).take(10));
        } else {
            symbols.extend(std::iter::repeat(level).take(20));
        }
        level = -level;
    }
    symbols
}

#[test]
fn run_length_filter_emits_width_per_transition() {
    let mut filter = RawDemodFilter::new();
    let out = filter.filter(&vec![1, 1, 1, -1, -1, 1]);
    // The first transition flushes the initial empty run as a zero width.
    assert_eq!(out, vec![0, 2, 1]);
}

#[test]
fn run_length_filter_accounts_for_an_uninterrupted_run() {
    let mut filter = RawDemodFilter::new();
    assert_eq!(filter.filter(&vec![3, 3, 3]), vec![0]);
    // A chunk that only continues the current run emits nothing...
    assert_eq!(filter.filter(&vec![3, 3]), Vec::<i64>::new());
    // ...and the unflushed count accounts for every symbol after the
    // transition into the run (five symbols of the run, four counted).
    assert_eq!(filter.filter(&vec![4]), vec![4]);
}

#[test]
fn pulse_merge_filter_passes_wide_pulses_and_merges_narrow_ones() {
    let mut filter = FmDenoiseFilter::new();
    // Threshold is a quarter of the chunk maximum: 19 / 4 = 4.
    assert_eq!(filter.filter(&vec![0, 9, 9, 19]), vec![9, 9, 19]);

    let mut filter = FmDenoiseFilter::new();
    // Widths of 1 stay below the threshold 10 / 4 = 2 and accumulate.
    assert_eq!(filter.filter(&vec![1, 1, 10]), vec![12]);
}

#[test]
fn pulse_merge_filter_carries_accumulator_across_calls() {
    let mut filter = FmDenoiseFilter::new();
    // Threshold 8 / 4 = 2: the 8 passes, the trailing 2 stays accumulated.
    assert_eq!(filter.filter(&vec![8, 2]), vec![8]);
    // The carried 2 joins the next chunk's first width.
    assert_eq!(filter.filter(&vec![7, 8]), vec![9, 8]);
}

#[test]
fn biphase_decoder_holds_lone_short_pulse_until_partner_arrives() {
    let mut filter = FmDecodeFilter::new();
    // A pulse alone in its chunk is classified short; with no half bit
    // pending it emits nothing.
    assert_eq!(filter.filter(&vec![10]), Vec::<bool>::new());
    // The partner pulse in a later call completes the bit cell.
    assert_eq!(filter.filter(&vec![10]), vec![true]);
}

#[test]
fn biphase_decoder_completes_pending_half_with_long_pulse() {
    let mut filter = FmDecodeFilter::new();
    // Threshold (20 - 10) / 2 = 5: the 10 is short and leaves a half bit
    // pending; the long 20 completes the cell as a one and clears the flag.
    assert_eq!(filter.filter(&vec![10, 20]), vec![true]);
    // The flag was cleared: a following long decodes to a zero.
    assert_eq!(filter.filter(&vec![30, 10]), vec![false]);
}

#[test]
fn biphase_decoder_classifies_against_chunk_spread() {
    let mut filter = FmDecodeFilter::new();
    // Threshold (20 - 10) / 2 = 5 over the minimum 10: 20 is long, 10 short.
    assert_eq!(filter.filter(&vec![20, 10, 10, 20]), vec![false, true, false]);
}

#[test]
fn synchronizer_decodes_frame_at_exact_length() {
    let mut reader = LtcFrameReader::new();
    let mut bits = make_frame_bits(19, 12, 10, 7);
    bits.push(false);
    let frames = reader.read(&bits);
    assert_eq!(frames.len(), 1);
    assert_eq!(frames[0].hour(), 19);
    assert_eq!(frames[0].minute(), 12);
    assert_eq!(frames[0].second(), 10);
    assert_eq!(frames[0].frame(), 7);
    assert_eq!(reader.frame_rate(), None);
}

#[test]
fn synchronizer_discards_misaligned_sync_match_and_recovers() {
    let mut reader = LtcFrameReader::new();
    // Ten junk bits followed by a bare sync word: the match at length 26
    // clears the buffer without emitting a frame.
    let mut bits = vec![false; 10];
    for i in 0..16 {
        bits.push((2..=13).contains(&i) || i == 15);
    }
    // The cleared buffer realigns on the following frame.
    bits.extend(make_frame_bits(1, 2, 3, 4));
    bits.push(false);
    let frames = reader.read(&bits);
    assert_eq!(frames.len(), 1);
    assert_eq!(frames[0].timecode(), "01:02:03:004");
    assert_eq!(reader.frame_rate(), None);
}

#[test]
fn frame_rate_stays_unset_until_rollover_then_holds() {
    let mut reader = LtcFrameReader::new();
    let mut rates = Vec::new();
    for frame_number in [1u8, 2, 0, 1] {
        reader.read(&make_frame_bits(0, 0, 0, frame_number));
        rates.push(reader.frame_rate());
    }
    reader.read(&vec![false]);
    rates.push(reader.frame_rate());
    // Each frame is decoded when the next chunk's first bit arrives; the
    // rollover from 2 to 0 sets the estimate to 2 + 1.
    assert_eq!(rates, vec![None, None, None, Some(3), Some(3)]);
}

/// Runs the symbol-to-frame pipeline over a polarity symbol stream, as the
/// capture layer does, and returns the decoded frames and the final
/// frame-rate estimate.
fn run_pipeline(symbols: &Vec<i8>) -> (Vec<String>, Option<u128>) {
    let mut pipeline = LtcPipeline::new();
    let frames = pipeline.process(symbols);
    (frames.iter().map(|f| f.timecode()).collect(), pipeline.frame_rate())
}

#[test]
fn pipeline_object_matches_the_composed_stages() {
    let mut bits = make_frame_bits(19, 12, 10, 7);
    bits.extend([false, false, false]);
    let symbols = modulate(&bits);

    let mut filter_demod = RawDemodFilter::new();
    let mut filter_fm_denoise = FmDenoiseFilter::new();
    let mut filter_fm_decode = FmDecodeFilter::new();
    let mut frame_reader = LtcFrameReader::new();
    let data = filter_demod.filter(&symbols);
    let data = filter_fm_denoise.filter(&data);
    let data = filter_fm_decode.filter(&data);
    let by_stages = frame_reader.read(&data);

    let mut pipeline = LtcPipeline::new();
    let by_pipeline = pipeline.process(&symbols);

    assert_eq!(by_pipeline, by_stages);
    assert_eq!(by_pipeline.len(), 1);
    assert_eq!(by_pipeline[0].timecode(), "19:12:10:007");
    assert_eq!(pipeline.frame_rate(), frame_reader.frame_rate());
}

#[test]
fn pipeline_decodes_modulated_frames_end_to_end() {
    let mut bits = make_frame_bits(19, 12, 10, 7);
    bits.extend(make_frame_bits(19, 12, 10, 8));
    bits.extend([false, false, false]);
    let symbols = modulate(&bits);
    let (timecodes, rate) = run_pipeline(&symbols);
    assert_eq!(timecodes, vec!["19:12:10:007".to_string(), "19:12:10:008".to_string()]);
    assert_eq!(rate, None);
}

#[test]
fn rerunning_pipeline_from_fresh_state_is_identical() {
    let mut bits = Vec::new();
    for frame_number in [28u8, 29, 0, 1, 2] {
        bits.extend(make_frame_bits(6, 5, 4, frame_number));
    }
    bits.extend([false, false, false]);
    let symbols = modulate(&bits);
    let first = run_pipeline(&symbols);
    let second = run_pipeline(&symbols);
    assert_eq!(first, second);
    // The rollover from 29 to 0 fixes the estimate at 29 + 1.
    assert_eq!(first.1, Some(30));
    assert_eq!(first.0.len(), 5);
    assert_eq!(first.0[0], "06:05:04:028");
    assert_eq!(first.0[4], "06:05:04:002");
}
