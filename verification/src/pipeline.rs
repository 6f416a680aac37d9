use vstd::prelude::*;
use crate::filter::fm_decode::{decode_output, decode_state, seq_min_or_zero, FmDecodeFilter};
use crate::filter::fm_noise::{merge_output, merge_state, seq_max_or_zero, FmDenoiseFilter};
use crate::filter::raw_demod::{demod_output, demod_state, RawDemodFilter};
use crate::ltc_frame::{FrameModel, LtcFrame};
use crate::reader::{reader_run, reader_wf, ReaderModel, LtcFrameReader};

verus! {

/// Mathematical model of the symbol pipeline's state: the run-length
/// filter's held symbol and running count, the pulse merge filter's
/// accumulator, the biphase decoder's pending-half-bit flag, and the frame
/// synchronizer's state.
#[verifier::ext_equal]
pub ghost struct PipelineModel {
    pub held_symbol: i8,
    pub run_count: int,
    pub merge_acc: int,
    pub half_pending: bool,
    pub sync: ReaderModel,
}

/// The stage invariants every freshly built pipeline satisfies and every
/// chunk preserves.
pub open spec fn pipeline_wf(m: PipelineModel) -> bool {
    &&& 0 <= m.run_count
    &&& 0 <= m.merge_acc <= 0x4000_0000_0000_0000
    &&& reader_wf(m.sync)
}

/// The pulse widths the run-length stage emits for `symbols`.
pub open spec fn pipeline_widths(m: PipelineModel, symbols: Seq<i8>) -> Seq<i64> {
    demod_output(m.held_symbol, m.run_count, symbols)
}

/// The merged widths the pulse merge stage emits for `symbols`.
pub open spec fn pipeline_merged(m: PipelineModel, symbols: Seq<i8>) -> Seq<i64> {
    merge_output(
        m.merge_acc,
        pipeline_widths(m, symbols),
        seq_max_or_zero(pipeline_widths(m, symbols)) / 4,
    )
}

/// The bits the biphase stage decodes from `symbols`.
pub open spec fn pipeline_bits(m: PipelineModel, symbols: Seq<i8>) -> Seq<bool> {
    decode_output(
        m.half_pending,
        pipeline_merged(m, symbols),
        seq_min_or_zero(pipeline_merged(m, symbols)),
        (seq_max_or_zero(pipeline_merged(m, symbols)) - seq_min_or_zero(
            pipeline_merged(m, symbols),
        )) / 2,
    )
}

/// The frames the synchronizer emits for `symbols`.
pub open spec fn pipeline_frames(m: PipelineModel, symbols: Seq<i8>) -> Seq<FrameModel> {
    reader_run(m.sync, pipeline_bits(m, symbols)).1
}

/// The pipeline's state after consuming `symbols`.
pub open spec fn pipeline_next(m: PipelineModel, symbols: Seq<i8>) -> PipelineModel {
    PipelineModel {
        held_symbol: demod_state(m.held_symbol, m.run_count, symbols).0,
        run_count: demod_state(m.held_symbol, m.run_count, symbols).1,
        merge_acc: merge_state(
            m.merge_acc,
            pipeline_widths(m, symbols),
            seq_max_or_zero(pipeline_widths(m, symbols)) / 4,
        ),
        half_pending: decode_state(
            m.half_pending,
            pipeline_merged(m, symbols),
            seq_min_or_zero(pipeline_merged(m, symbols)),
            (seq_max_or_zero(pipeline_merged(m, symbols)) - seq_min_or_zero(
                pipeline_merged(m, symbols),
            )) / 2,
        ),
        sync: reader_run(m.sync, pipeline_bits(m, symbols)).0,
    }
}

/// The state of a freshly built pipeline: every stage at its initial state.
pub open spec fn pipeline_init() -> PipelineModel {
    PipelineModel {
        held_symbol: 0i8,
        run_count: 0,
        merge_acc: 0,
        half_pending: false,
        sync: crate::reader::reader_init(),
    }
}

/// The symbol-to-frame pipeline behind one object: the run-length filter,
/// the pulse merge filter, the biphase decoder and the frame synchronizer,
/// composed in order, each keeping its state across chunks.
pub struct LtcPipeline {
    demod: RawDemodFilter,
    denoise: FmDenoiseFilter,
    decode: FmDecodeFilter,
    reader: LtcFrameReader,
}

impl View for LtcPipeline {
    type V = PipelineModel;

    closed spec fn view(&self) -> PipelineModel {
        PipelineModel {
            held_symbol: self.demod.last(),
            run_count: self.demod.count(),
            merge_acc: self.denoise.acc(),
            half_pending: self.decode.pending(),
            sync: self.reader@,
        }
    }
}

impl LtcPipeline {
    pub fn new() -> (r: LtcPipeline)
        ensures
            r@ == pipeline_init(),
            pipeline_wf(r@),
    {
        let r = LtcPipeline {
            demod: RawDemodFilter::new(),
            denoise: FmDenoiseFilter::new(),
            decode: FmDecodeFilter::new(),
            reader: LtcFrameReader::new(),
        };
        proof {
            assert(r@ =~= pipeline_init());
        }
        r
    }

    /// Pushes one chunk of polarity symbols through all four stages in
    /// order and returns the frames decoded within this chunk.
    pub fn process(&mut self, symbols: &Vec<i8>) -> (frames: Vec<LtcFrame>)
        requires
            pipeline_wf(old(self)@),
            old(self)@.run_count + symbols@.len() <= 0x2000_0000_0000_0000,
        ensures
            frames@.map_values(|f: LtcFrame| f@) == pipeline_frames(old(self)@, symbols@),
            final(self)@ == pipeline_next(old(self)@, symbols@),
            pipeline_wf(final(self)@),
    {
        let widths = self.demod.filter(symbols);
        let merged = self.denoise.filter(&widths);
        let bits = self.decode.filter(&merged);
        let frames = self.reader.read(&bits);
        proof {
            assert(self@ =~= pipeline_next(old(self)@, symbols@));
        }
        frames
    }

    /// The synchronizer's current frame-rate estimate, or `None` while no
    /// frame-number rollover has been observed.
    pub fn frame_rate(&self) -> (r: Option<u128>)
        ensures
            r == self@.sync.frame_rate,
    {
        self.reader.frame_rate()
    }
}

} // verus!
