//! Stream formats and how one is negotiated with a device.
//!
//! A device reports the format of its own mix. In shared mode that format, or
//! the closest one that the device offers in its place, is the only one asked
//! for. In exclusive mode a ladder of common formats follows it, and the first
//! that the device takes is used.

use crate::backend::{is_start_error, BackendError, Mode};
use crate::message::start_error;
use vstd::prelude::*;

verus! {

/// Format tag of integer PCM.
pub const TAG_PCM: u16 = 1;

/// Format tag of IEEE floating point.
pub const TAG_IEEE_FLOAT: u16 = 3;

/// Format tag of the extensible layout, whose sub-format tells the encoding.
pub const TAG_EXTENSIBLE: u16 = 0xFFFE;

/// Bytes that the extensible layout adds to the basic one.
pub const EXTENSIBLE_EXTRA_SIZE: u16 = 22;

/// Speaker mask of a mono stream: front centre.
pub const MASK_MONO: u32 = 0x4;

/// Speaker mask of a stereo stream: front left and front right.
pub const MASK_STEREO: u32 = 0x3;

/// Stream flags that every device is initialised with: buffers are announced
/// through an event, and settings are not persisted.
pub const STREAM_FLAGS: u32 = 0x000C_0000;

/// Status of a format query: supported as asked.
pub const STATUS_OK: i32 = 0;

/// Status of a format query: not supported as asked, a close match may be
/// offered.
pub const STATUS_FALSE: i32 = 1;

/// Channel count assumed where the mix format cannot be read.
pub const DEFAULT_CHANNELS: u16 = 2;

/// The preferred sample rate, and the one assumed where the mix format cannot
/// be read.
pub const RATE_48K: u32 = 48000;

/// The second common sample rate.
pub const RATE_44K: u32 = 44100;

/// How the samples of a stream are laid out on the wire.
#[derive(Debug, Clone, Copy, PartialEq, Eq, Structural)]
pub struct StreamFormat {
    pub channels: u16,
    pub sample_rate: u32,
    pub bits_per_sample: u16,
    pub is_float: bool,
}

impl StreamFormat {
    /// The bytes that one frame takes in a device buffer: whole bytes per
    /// sample, times the channels.
    pub open spec fn frame_size(self) -> nat {
        ((self.bits_per_sample / 8) * self.channels) as nat
    }

    /// The bytes that one frame takes in a device buffer.
    pub fn frame_bytes(&self) -> (bytes: u32)
        ensures
            bytes == self.frame_size(),
    {
        let per_sample: u32 = (self.bits_per_sample / 8) as u32;
        assert(per_sample * self.channels <= 8191 * 65535) by (nonlinear_arith)
            requires
                per_sample <= 8191,
                self.channels <= 65535,
        ;
        per_sample * (self.channels as u32)
    }

    /// The bytes that `frames` frames take in a device buffer.
    pub fn buffer_bytes(&self, frames: u32) -> (bytes: u64)
        ensures
            bytes == frames * self.frame_size(),
    {
        let per_frame: u64 = self.frame_bytes() as u64;
        assert(per_frame <= 8191 * 65535) by (nonlinear_arith)
            requires
                per_frame == (self.bits_per_sample / 8) * self.channels,
                self.bits_per_sample / 8 <= 8191,
                self.channels <= 65535,
        ;
        assert(frames * per_frame <= 0xFFFF_FFFF * (8191 * 65535)) by (nonlinear_arith)
            requires
                frames <= 0xFFFF_FFFF,
                per_frame <= 8191 * 65535,
        ;
        (frames as u64) * per_frame
    }
}

/// The encoding named by the sub-format of an extensible wave format.
#[derive(Debug, Clone, Copy, PartialEq, Eq, Structural)]
pub enum SubFormat {
    Pcm,
    IeeeFloat,
    Other,
}

/// A wave format as the platform describes it, field by field.
#[derive(Debug, Clone, Copy, PartialEq, Eq, Structural)]
pub struct WaveFormat {
    pub format_tag: u16,
    pub channels: u16,
    pub samples_per_sec: u32,
    pub avg_bytes_per_sec: u32,
    pub block_align: u16,
    pub bits_per_sample: u16,
    /// Bytes that follow the basic layout.
    pub extra_size: u16,
    /// Valid bits per sample; read only under the extensible tag.
    pub valid_bits: u16,
    /// Speaker positions; read only under the extensible tag.
    pub channel_mask: u32,
    /// Read only under the extensible tag.
    pub sub_format: SubFormat,
}

/// Whether a wave format holds floating point samples, where its tag and
/// sub-format say.
pub open spec fn float_flag(wave: WaveFormat) -> Option<bool> {
    if wave.format_tag == TAG_IEEE_FLOAT {
        Some(true)
    } else if wave.format_tag == TAG_PCM {
        Some(false)
    } else if wave.format_tag == TAG_EXTENSIBLE {
        match wave.sub_format {
            SubFormat::IeeeFloat => Some(true),
            SubFormat::Pcm => Some(false),
            SubFormat::Other => None,
        }
    } else {
        None
    }
}

/// The stream format that a wave format stands for, where its encoding is
/// known.
pub open spec fn parsed(wave: WaveFormat) -> Option<StreamFormat> {
    match float_flag(wave) {
        Some(is_float) => Some(
            StreamFormat {
                channels: wave.channels,
                sample_rate: wave.samples_per_sec,
                bits_per_sample: wave.bits_per_sample,
                is_float,
            },
        ),
        None => None,
    }
}

/// The message for a wave format that cannot be read.
pub open spec fn parse_failure(wave: Option<WaveFormat>) -> Seq<char> {
    match wave {
        None => "Null WAVEFORMATEX"@,
        Some(w) => if w.format_tag == TAG_EXTENSIBLE {
            "Unsupported extensible format"@
        } else {
            "Unsupported format tag"@
        },
    }
}

/// Reads the stream format out of a wave format. A missing format, an unknown
/// tag and an unknown sub-format are start failures.
pub fn parse_format(wave: Option<&WaveFormat>) -> (r: Result<StreamFormat, BackendError>)
    ensures
        match wave {
            Some(w) => match parsed(*w) {
                Some(f) => r == Ok::<StreamFormat, BackendError>(f),
                None => r matches Err(e) && is_start_error(e, parse_failure(Some(*w))),
            },
            None => r matches Err(e) && is_start_error(e, parse_failure(None)),
        },
{
    let w = match wave {
        Some(w) => w,
        None => {
            return Err(start_error("Null WAVEFORMATEX"));
        },
    };
    let is_float = if w.format_tag == TAG_IEEE_FLOAT {
        true
    } else if w.format_tag == TAG_PCM {
        false
    } else if w.format_tag == TAG_EXTENSIBLE {
        match w.sub_format {
            SubFormat::IeeeFloat => true,
            SubFormat::Pcm => false,
            SubFormat::Other => {
                return Err(start_error("Unsupported extensible format"));
            },
        }
    } else {
        return Err(start_error("Unsupported format tag"));
    };
    Ok(
        StreamFormat {
            channels: w.channels,
            sample_rate: w.samples_per_sec,
            bits_per_sample: w.bits_per_sample,
            is_float,
        },
    )
}

/// How a device stores one sample, for the encodings that the pipelines read
/// and write.
#[derive(Debug, Clone, Copy, PartialEq, Eq, Structural)]
pub enum SampleEncoding {
    Float32,
    Int16,
    Int32,
}

/// The encoding of a stream format, where the pipelines handle it.
pub open spec fn encoding(format: StreamFormat) -> Option<SampleEncoding> {
    if format.is_float && format.bits_per_sample == 32 {
        Some(SampleEncoding::Float32)
    } else if !format.is_float && format.bits_per_sample == 16 {
        Some(SampleEncoding::Int16)
    } else if !format.is_float && format.bits_per_sample == 32 {
        Some(SampleEncoding::Int32)
    } else {
        None
    }
}

/// The encoding of a stream format: 32-bit float, 16-bit integer or 32-bit
/// integer. A pipeline moves no samples in any other format.
pub fn encoding_of(format: &StreamFormat) -> (e: Option<SampleEncoding>)
    ensures
        e == encoding(*format),
{
    if format.is_float && format.bits_per_sample == 32 {
        Some(SampleEncoding::Float32)
    } else if !format.is_float && format.bits_per_sample == 16 {
        Some(SampleEncoding::Int16)
    } else if !format.is_float && format.bits_per_sample == 32 {
        Some(SampleEncoding::Int32)
    } else {
        None
    }
}

impl SampleEncoding {
    /// What a captured integer sample is divided by to become a canonical
    /// sample: two to the power of one less than its bits. Float samples
    /// pass through and have no divisor.
    pub open spec fn divisor(self) -> Option<u32> {
        match self {
            SampleEncoding::Float32 => None,
            SampleEncoding::Int16 => Some(32768u32),
            SampleEncoding::Int32 => Some(2147483648u32),
        }
    }

    /// What a canonical sample, clamped to the range from -1 to 1, is
    /// multiplied by to become an integer sample: the largest value of the
    /// integer type. Float samples pass through and have no scale.
    pub open spec fn scale(self) -> Option<u32> {
        match self {
            SampleEncoding::Float32 => None,
            SampleEncoding::Int16 => Some(32767u32),
            SampleEncoding::Int32 => Some(2147483647u32),
        }
    }

    /// The divisor that turns a captured sample into a canonical one.
    pub fn capture_divisor(&self) -> (d: Option<u32>)
        ensures
            d == self.divisor(),
    {
        match self {
            SampleEncoding::Float32 => None,
            SampleEncoding::Int16 => Some(32768u32),
            SampleEncoding::Int32 => Some(2147483648u32),
        }
    }

    /// The factor that turns a clamped canonical sample into a rendered one.
    pub fn render_scale(&self) -> (s: Option<u32>)
        ensures
            s == self.scale(),
    {
        match self {
            SampleEncoding::Float32 => None,
            SampleEncoding::Int16 => Some(32767u32),
            SampleEncoding::Int32 => Some(2147483647u32),
        }
    }
}

/// The period to initialise a device with, in units of 100 nanoseconds: its
/// default period, or its minimum period where it reports no default.
pub open spec fn period(default_period: i64, minimum_period: i64) -> i64 {
    if default_period > 0 {
        default_period
    } else {
        minimum_period
    }
}

/// Chooses the period to initialise a device with.
pub fn resolve_period(default_period: i64, minimum_period: i64) -> (p: i64)
    ensures
        p == period(default_period, minimum_period),
{
    if default_period > 0 {
        default_period
    } else {
        minimum_period
    }
}

/// The buffer duration and the periodicity that a device is initialised with.
/// An exclusive stream runs at the period itself; a shared stream leaves the
/// periodicity to the platform.
pub fn init_durations(mode: Mode, period: i64) -> (d: (i64, i64))
    ensures
        d.0 == period,
        d.1 == match mode {
            Mode::Exclusive => period,
            Mode::Shared => 0,
        },
{
    match mode {
        Mode::Exclusive => (period, period),
        Mode::Shared => (period, 0),
    }
}

/// The speaker mask announced for a channel count: the usual positions for
/// mono and stereo, none for anything else.
pub open spec fn speaker_mask(channels: u16) -> u32 {
    if channels == 1 {
        MASK_MONO
    } else if channels == 2 {
        MASK_STEREO
    } else {
        0
    }
}

/// The extensible wave format of a candidate. There is none where a frame has
/// no bytes, or where the bytes of a frame or of a second do not fit their
/// fields.
pub open spec fn candidate(channels: u16, rate: u32, bits: u16, is_float: bool) -> Option<
    WaveFormat,
> {
    let block_align = (bits / 8) * channels;
    let bytes_per_sec = rate * block_align;
    if block_align == 0 || block_align > u16::MAX || bytes_per_sec > u32::MAX {
        None
    } else {
        Some(
            WaveFormat {
                format_tag: TAG_EXTENSIBLE,
                channels,
                samples_per_sec: rate,
                avg_bytes_per_sec: bytes_per_sec as u32,
                block_align: block_align as u16,
                bits_per_sample: bits,
                extra_size: EXTENSIBLE_EXTRA_SIZE,
                valid_bits: bits,
                channel_mask: speaker_mask(channels),
                sub_format: if is_float {
                    SubFormat::IeeeFloat
                } else {
                    SubFormat::Pcm
                },
            },
        )
    }
}

/// Builds the extensible wave format of a candidate.
pub fn make_candidate(channels: u16, rate: u32, bits: u16, is_float: bool) -> (w: Option<
    WaveFormat,
>)
    ensures
        w == candidate(channels, rate, bits, is_float),
{
    let bytes: u16 = bits / 8;
    let block_align: u16 = match bytes.checked_mul(channels) {
        Some(b) => b,
        None => {
            return None;
        },
    };
    if block_align == 0 {
        return None;
    }
    let bytes_per_sec: u32 = match rate.checked_mul(block_align as u32) {
        Some(b) => b,
        None => {
            return None;
        },
    };
    let channel_mask: u32 = if channels == 1 {
        MASK_MONO
    } else if channels == 2 {
        MASK_STEREO
    } else {
        0
    };
    Some(
        WaveFormat {
            format_tag: TAG_EXTENSIBLE,
            channels,
            samples_per_sec: rate,
            avg_bytes_per_sec: bytes_per_sec,
            block_align,
            bits_per_sample: bits,
            extra_size: EXTENSIBLE_EXTRA_SIZE,
            valid_bits: bits,
            channel_mask,
            sub_format: if is_float {
                SubFormat::IeeeFloat
            } else {
                SubFormat::Pcm
            },
        },
    )
}

/// The sample rate of ladder step `step`: the device's own rate first, then
/// 48000 Hz, then 44100 Hz.
pub open spec fn ladder_rate(native: u32, step: nat) -> u32 {
    if step == 0 {
        native
    } else if step == 1 {
        RATE_48K
    } else {
        RATE_44K
    }
}

/// The sample depth of ladder rung `rung`, as bits and float flag: 32-bit
/// float first, then 24-bit integer, then 16-bit integer.
pub open spec fn ladder_depth(rung: nat) -> (u16, bool) {
    if rung == 0 {
        (32u16, true)
    } else if rung == 1 {
        (24u16, false)
    } else {
        (16u16, false)
    }
}

/// Slot `k` of the exclusive-mode ladder, for `k` below nine. The rates change
/// slowest and the depths fastest; the channel count is that of the mix
/// format. Where the mix format could not be read, two channels at 48000 Hz
/// stand in for it.
pub open spec fn ladder_slot(mix: Option<StreamFormat>, k: nat) -> Option<WaveFormat> {
    let channels = match mix {
        Some(m) => m.channels,
        None => DEFAULT_CHANNELS,
    };
    let native = match mix {
        Some(m) => m.sample_rate,
        None => RATE_48K,
    };
    let depth = ladder_depth(k % 3);
    candidate(channels, ladder_rate(native, k / 3), depth.0, depth.1)
}

/// The first `count` slots of the ladder.
pub open spec fn ladder(mix: Option<StreamFormat>, count: nat) -> Seq<Option<WaveFormat>> {
    Seq::new(count, |k: int| ladder_slot(mix, k as nat))
}

/// The formats that are there among `slots`, in their order.
pub open spec fn present(slots: Seq<Option<WaveFormat>>) -> Seq<WaveFormat>
    decreases slots.len(),
{
    if slots.len() == 0 {
        Seq::<WaveFormat>::empty()
    } else {
        match slots.last() {
            Some(w) => present(slots.drop_last()).push(w),
            None => present(slots.drop_last()),
        }
    }
}

/// The formats that a device is asked for, in the order of asking: its mix
/// format, and in exclusive mode the ladder after it.
pub open spec fn probe_order(mode: Mode, mix: WaveFormat) -> Seq<WaveFormat> {
    match mode {
        Mode::Shared => seq![mix],
        Mode::Exclusive => seq![mix] + present(ladder(parsed(mix), 9)),
    }
}

/// The formats of the exclusive-mode ladder, in the order of asking.
pub fn exclusive_candidates(mix: Option<StreamFormat>) -> (list: Vec<WaveFormat>)
    ensures
        list@ == present(ladder(mix, 9)),
{
    let channels: u16 = match mix {
        Some(m) => m.channels,
        None => DEFAULT_CHANNELS,
    };
    let native: u32 = match mix {
        Some(m) => m.sample_rate,
        None => RATE_48K,
    };
    let mut list: Vec<WaveFormat> = Vec::new();
    let mut k: usize = 0;
    while k < 9
        invariant
            k <= 9,
            channels == match mix {
                Some(m) => m.channels,
                None => DEFAULT_CHANNELS,
            },
            native == match mix {
                Some(m) => m.sample_rate,
                None => RATE_48K,
            },
            list@ == present(ladder(mix, k as nat)),
        decreases 9 - k,
    {
        let step: usize = k / 3;
        let rung: usize = k % 3;
        let rate: u32 = if step == 0 {
            native
        } else if step == 1 {
            RATE_48K
        } else {
            RATE_44K
        };
        let slot = if rung == 0 {
            make_candidate(channels, rate, 32, true)
        } else if rung == 1 {
            make_candidate(channels, rate, 24, false)
        } else {
            make_candidate(channels, rate, 16, false)
        };
        proof {
            let longer = ladder(mix, (k + 1) as nat);
            assert(longer.drop_last() =~= ladder(mix, k as nat));
            assert(longer.last() == slot);
        }
        match slot {
            Some(w) => {
                list.push(w);
            },
            None => {},
        }
        k += 1;
    }
    list
}

/// What a device answers when asked for a format.
#[derive(Debug, Clone, Copy, PartialEq, Eq, Structural)]
pub enum Probe {
    /// The format is supported as asked.
    Supported,
    /// The format is not supported, and this one is the closest that is.
    Closest(WaveFormat),
    /// The format is not supported.
    Rejected,
}

/// The answer that a query status and an offered closest match stand for.
pub open spec fn classified(status: i32, closest: Option<WaveFormat>) -> Probe {
    if status == STATUS_OK {
        Probe::Supported
    } else if status == STATUS_FALSE {
        match closest {
            Some(c) => Probe::Closest(c),
            None => Probe::Rejected,
        }
    } else {
        Probe::Rejected
    }
}

/// Reads the answer of a device from the status of the query and the closest
/// match that came with it.
pub fn classify_probe(status: i32, closest: Option<WaveFormat>) -> (p: Probe)
    ensures
        p == classified(status, closest),
{
    if status == STATUS_OK {
        Probe::Supported
    } else if status == STATUS_FALSE {
        match closest {
            Some(c) => Probe::Closest(c),
            None => Probe::Rejected,
        }
    } else {
        Probe::Rejected
    }
}

/// The format that an answer settles on: the one asked for, the closest match
/// in its place, or none.
pub open spec fn settled(asked: WaveFormat, probe: Probe) -> Option<WaveFormat> {
    match probe {
        Probe::Supported => Some(asked),
        Probe::Closest(c) => Some(c),
        Probe::Rejected => None,
    }
}

/// What to do after an answer.
#[derive(Debug, Clone, Copy, PartialEq, Eq, Structural)]
pub enum Verdict {
    /// Initialise the device with this format.
    Accept(WaveFormat),
    /// Ask the device for this format next.
    Ask(WaveFormat),
    /// The device took none of the formats.
    GiveUp,
}

/// One step of a negotiation over `order` that waits for the answer to
/// question `position`: the position and the verdict after `probe`. An
/// accepted format ends the negotiation, and so does the last rejection.
pub open spec fn negotiation_step(order: Seq<WaveFormat>, position: nat, probe: Probe) -> (
    nat,
    Verdict,
) {
    if position >= order.len() {
        (order.len(), Verdict::GiveUp)
    } else {
        match settled(order[position as int], probe) {
            Some(f) => (order.len(), Verdict::Accept(f)),
            None => if position + 1 < order.len() {
                (position + 1, Verdict::Ask(order[position + 1 as int]))
            } else {
                (order.len(), Verdict::GiveUp)
            },
        }
    }
}

/// A negotiation in progress: the formats to ask for, and how far the asking
/// has come.
pub struct Negotiator {
    mode: Mode,
    order: Vec<WaveFormat>,
    position: usize,
}

impl Negotiator {
    #[verifier::type_invariant]
    spec fn well_formed(self) -> bool {
        self.position <= self.order@.len()
    }

    /// The access mode that is negotiated for.
    pub closed spec fn mode(&self) -> Mode {
        self.mode
    }

    /// The formats to ask for, in the order of asking.
    pub closed spec fn order(&self) -> Seq<WaveFormat> {
        self.order@
    }

    /// The index of the question that waits for an answer; the length of the
    /// order once the negotiation is over.
    pub closed spec fn position(&self) -> nat {
        self.position as nat
    }

    /// Starts a negotiation for a device whose mix format is `mix`. The first
    /// question is the mix format itself.
    pub fn new(mode: Mode, mix: WaveFormat) -> (n: Negotiator)
        ensures
            n.mode() == mode,
            n.order() == probe_order(mode, mix),
            n.position() == 0,
    {
        let mut order: Vec<WaveFormat> = Vec::new();
        order.push(mix);
        match mode {
            Mode::Shared => {
                assert(order@ =~= probe_order(mode, mix));
            },
            Mode::Exclusive => {
                let parsed_mix = match parse_format(Some(&mix)) {
                    Ok(f) => Some(f),
                    Err(_) => None,
                };
                let mut rest = exclusive_candidates(parsed_mix);
                order.append(&mut rest);
                assert(order@ =~= probe_order(mode, mix));
            },
        }
        Negotiator { mode, order, position: 0 }
    }

    /// The format to ask the device for now, or `None` once the negotiation is
    /// over.
    pub fn question(&self) -> (q: Option<WaveFormat>)
        ensures
            q == if self.position() < self.order().len() {
                Some(self.order()[self.position() as int])
            } else {
                None
            },
    {
        if self.position < self.order.len() {
            Some(self.order[self.position])
        } else {
            None
        }
    }

    /// Takes the answer of the device to the current question and says what
    /// to do next.
    pub fn answer(&mut self, probe: Probe) -> (verdict: Verdict)
        ensures
            final(self).mode() == old(self).mode(),
            final(self).order() == old(self).order(),
            (final(self).position(), verdict) == negotiation_step(
                old(self).order(),
                old(self).position(),
                probe,
            ),
    {
        proof {
            use_type_invariant(&*self);
        }
        let count: usize = self.order.len();
        if self.position >= count {
            self.position = count;
            return Verdict::GiveUp;
        }
        let asked = self.order[self.position];
        match probe {
            Probe::Supported => {
                self.position = count;
                Verdict::Accept(asked)
            },
            Probe::Closest(c) => {
                self.position = count;
                Verdict::Accept(c)
            },
            Probe::Rejected => {
                if self.position + 1 < count {
                    self.position = self.position + 1;
                    Verdict::Ask(self.order[self.position])
                } else {
                    self.position = count;
                    Verdict::GiveUp
                }
            },
        }
    }
}

/// The message for a device that took none of the formats it was asked for.
pub open spec fn unsupported_text(mode: Mode) -> Seq<char> {
    match mode {
        Mode::Shared => "IsFormatSupported (shared) failed"@,
        Mode::Exclusive => "IsFormatSupported failed: 0x88890008"@,
    }
}

/// The start failure for a device that took none of the formats it was asked
/// for.
pub fn unsupported(mode: Mode) -> (e: BackendError)
    ensures
        is_start_error(e, unsupported_text(mode)),
{
    match mode {
        Mode::Shared => start_error("IsFormatSupported (shared) failed"),
        Mode::Exclusive => start_error("IsFormatSupported failed: 0x88890008"),
    }
}

/// The format that a whole negotiation ends with, when `answers[i]` is what
/// the device says to question `i`: it is played step by step from
/// `position` on.
pub open spec fn negotiated(order: Seq<WaveFormat>, answers: Seq<Probe>, position: nat) -> Option<
    WaveFormat,
>
    decreases order.len() - position,
{
    if position >= order.len() {
        None
    } else {
        let next = negotiation_step(order, position, answers[position as int]);
        match next.1 {
            Verdict::Accept(f) => Some(f),
            Verdict::Ask(_) => negotiated(order, answers, next.0),
            Verdict::GiveUp => None,
        }
    }
}

/// The first question from `from` on that the device does not reject, with
/// the format that its answer settles on.
pub open spec fn first_settled(order: Seq<WaveFormat>, answers: Seq<Probe>, from: nat) -> Option<
    (nat, WaveFormat),
>
    decreases order.len() - from,
{
    if from >= order.len() {
        None
    } else {
        match settled(order[from as int], answers[from as int]) {
            Some(f) => Some((from, f)),
            None => first_settled(order, answers, from + 1),
        }
    }
}

/// A negotiation accepts the first success in the order of asking: it ends
/// with the format settled by the first question that the device does not
/// reject, every question before it was rejected, and it fails exactly when
/// the device rejects them all.
pub proof fn law_first_success_wins(order: Seq<WaveFormat>, answers: Seq<Probe>, from: nat)
    requires
        answers.len() >= order.len(),
    ensures
        negotiated(order, answers, from) == match first_settled(order, answers, from) {
            Some(found) => Some(found.1),
            None => None,
        },
        match first_settled(order, answers, from) {
            Some(found) => from <= found.0 < order.len() && settled(
                order[found.0 as int],
                answers[found.0 as int],
            ) == Some(found.1) && forall|i: int|
                from <= i < found.0 ==> #[trigger] answers[i] == Probe::Rejected,
            None => forall|i: int|
                from <= i < order.len() ==> #[trigger] answers[i] == Probe::Rejected,
        },
    decreases order.len() - from,
{
    if from < order.len() {
        law_first_success_wins(order, answers, from + 1);
    }
}

} // verus!
