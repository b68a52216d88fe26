//! The renderer: drives per-frame compositing across the timeline's frame
//! count and mixes the layers' audio into one interleaved fixed-point
//! stream. Writing frames to disk and serializing audio are collaborator
//! concerns outside the core; the deterministic frame-index naming the
//! collaborators rely on is defined here.

use vstd::prelude::*;

use crate::editor::{lemma_audio_chain_snoc, spec_audio_chain, AudioData, AudioRequest, Editor, EditorError, Effect};
use crate::imgops::{new_canvas_rgb, Frame};

verus! {

pub open spec fn spec_digit_char(d: int) -> char {
    if d == 0 {
        '0'
    } else if d == 1 {
        '1'
    } else if d == 2 {
        '2'
    } else if d == 3 {
        '3'
    } else if d == 4 {
        '4'
    } else if d == 5 {
        '5'
    } else if d == 6 {
        '6'
    } else if d == 7 {
        '7'
    } else if d == 8 {
        '8'
    } else {
        '9'
    }
}

/// The decimal digits of a non-negative number, most significant first;
/// zero has none.
pub open spec fn spec_digits(n: int) -> Seq<char>
    decreases n,
{
    if n <= 0 {
        Seq::empty()
    } else {
        spec_digits(n / 10).push(spec_digit_char(n % 10))
    }
}

pub open spec fn spec_zeros(k: int) -> Seq<char>
    decreases k,
{
    if k <= 0 {
        Seq::empty()
    } else {
        spec_zeros(k - 1).push('0')
    }
}

/// The file name of a rendered frame: its one-based index in decimal,
/// zero-padded to at least six digits, with the image suffix.
pub open spec fn spec_frame_filename(index: int) -> Seq<char> {
    let digits = spec_digits(index + 1);
    let pad = if digits.len() >= 6 {
        Seq::<char>::empty()
    } else {
        spec_zeros(6 - digits.len())
    };
    pad + digits + ".png"@
}

proof fn lemma_digits_len(n: int)
    requires
        n >= 0,
    ensures
        spec_digits(n).len() <= n,
    decreases n,
{
    if n > 0 {
        lemma_digits_len(n / 10);
    }
}

fn digit_str(d: u64) -> (r: &'static str)
    requires
        d < 10,
    ensures
        r@ == seq![spec_digit_char(d as int)],
{
    proof {
        reveal_strlit("0");
        reveal_strlit("1");
        reveal_strlit("2");
        reveal_strlit("3");
        reveal_strlit("4");
        reveal_strlit("5");
        reveal_strlit("6");
        reveal_strlit("7");
        reveal_strlit("8");
        reveal_strlit("9");
    }
    let r = match d {
        0 => "0",
        1 => "1",
        2 => "2",
        3 => "3",
        4 => "4",
        5 => "5",
        6 => "6",
        7 => "7",
        8 => "8",
        _ => "9",
    };
    proof {
        assert(r@ =~= seq![spec_digit_char(d as int)]);
    }
    r
}

fn digits_string(n: u64) -> (r: String)
    ensures
        r@ == spec_digits(n as int),
    decreases n,
{
    if n == 0 {
        String::new()
    } else {
        let mut s = digits_string(n / 10);
        s.append(digit_str(n % 10));
        proof {
            assert(s@ =~= spec_digits(n as int));
        }
        s
    }
}

fn count_digits(n: u64) -> (r: u64)
    ensures
        r as int == spec_digits(n as int).len(),
{
    proof {
        lemma_digits_len(n as int);
    }
    let mut m: u64 = n;
    let mut count: u64 = 0;
    while m > 0
        invariant
            count + spec_digits(m as int).len() == spec_digits(n as int).len(),
            spec_digits(n as int).len() <= n,
        decreases m,
    {
        m = m / 10;
        count = count + 1;
    }
    count
}

/// The name under which a rendered frame is stored: frames are one-based
/// and zero-padded to a fixed width, so a downstream muxer can reassemble
/// them in order.
pub fn frame_filename(index: usize) -> (r: String)
    requires
        index < usize::MAX,
    ensures
        r@ == spec_frame_filename(index as int),
{
    let n: u64 = (index as u64) + 1;
    let digits = digits_string(n);
    let dcount = count_digits(n);
    let mut out = String::new();
    let mut z: u64 = dcount;
    proof {
        assert(out@ =~= spec_zeros(0));
    }
    while z < 6
        invariant
            z >= dcount,
            z <= 6 || z == dcount,
            dcount as int == spec_digits(n as int).len(),
            out@ == spec_zeros(z - dcount),
        decreases 6 - z,
    {
        out.append("0");
        proof {
            reveal_strlit("0");
            assert(out@ =~= spec_zeros(z + 1 - dcount));
        }
        z = z + 1;
    }
    out.append(digits.as_str());
    out.append(".png");
    proof {
        assert(n as int == index as int + 1);
        assert(digits@ == spec_digits(index as int + 1));
        let pad = if spec_digits(index as int + 1).len() >= 6 {
            Seq::<char>::empty()
        } else {
            spec_zeros(6 - spec_digits(index as int + 1).len())
        };
        assert(z >= 6 && z == 6 || dcount >= 6 && z == dcount);
        assert(pad =~= spec_zeros(z - dcount));
        assert(out@ =~= spec_frame_filename(index as int));
    }
    out
}

/// Number of sample ticks in an audio render: one for every sample
/// position up to and including the timeline's duration, that is every k
/// with k / rate <= duration.
pub open spec fn spec_tick_count(duration_ms: int, sample_rate: int) -> int {
    duration_ms * sample_rate / 1000 + 1
}

/// The first tick at which a stream starting at the given timeline offset
/// is heard: the earliest tick whose millisecond timestamp has reached the
/// offset.
pub open spec fn spec_activation_tick(offset_ms: int, sample_rate: int) -> int {
    (offset_ms * sample_rate + 999) / 1000
}

/// One stream's contribution to an output tick and channel: the sample at
/// the interleaved position it has advanced to since its activation, and
/// zero before activation and after exhaustion.
pub open spec fn spec_contribution(
    offset_ms: int,
    samples: Seq<i32>,
    sample_rate: int,
    channels: int,
    k: int,
    c: int,
) -> int {
    let act = spec_activation_tick(offset_ms, sample_rate);
    let idx = (k - act) * channels + c;
    if k >= act && 0 <= idx < samples.len() {
        samples[idx] as int
    } else {
        0
    }
}

/// The mixed output at a tick and channel: the plain sum of every stream's
/// contribution there, without normalization; silence where none is active.
pub open spec fn spec_mixed_sample(
    streams: Seq<(u64, AudioData)>,
    sample_rate: int,
    channels: int,
    k: int,
    c: int,
) -> int
    decreases streams.len(),
{
    if streams.len() == 0 {
        0
    } else {
        spec_mixed_sample(streams.drop_last(), sample_rate, channels, k, c) + spec_contribution(
            streams.last().0 as int,
            streams.last().1.samples@,
            sample_rate,
            channels,
            k,
            c,
        )
    }
}

/// The first `rows` ticks of the output hold the mixed samples for every
/// channel.
pub open spec fn spec_rows_ok(
    out: Seq<i64>,
    streams: Seq<(u64, AudioData)>,
    sample_rate: int,
    channels: int,
    rows: int,
) -> bool {
    forall|k2: int, c2: int|
        0 <= k2 < rows && 0 <= c2 < channels ==> out[k2 * channels + c2] == spec_mixed_sample(
            streams,
            sample_rate,
            channels,
            k2,
            c2,
        )
}

proof fn lemma_rows_ok_push(
    out: Seq<i64>,
    v: i64,
    streams: Seq<(u64, AudioData)>,
    sample_rate: int,
    channels: int,
    rows: int,
)
    requires
        spec_rows_ok(out, streams, sample_rate, channels, rows),
        rows * channels <= out.len(),
        channels >= 1,
        rows >= 0,
    ensures
        spec_rows_ok(out.push(v), streams, sample_rate, channels, rows),
{
    assert forall|k2: int, c2: int|
        0 <= k2 < rows && 0 <= c2 < channels implies out.push(v)[k2 * channels + c2]
        == spec_mixed_sample(streams, sample_rate, channels, k2, c2) by {
        assert(0 <= k2 * channels + c2 && (k2 + 1) * channels <= rows * channels)
            by (nonlinear_arith)
            requires
                0 <= k2 < rows,
                0 <= c2 < channels,
                channels >= 1,
        ;
        assert((k2 + 1) * channels == k2 * channels + channels) by (nonlinear_arith);
        assert(out.push(v)[k2 * channels + c2] == out[k2 * channels + c2]);
        assert(out[k2 * channels + c2] == spec_mixed_sample(streams, sample_rate, channels, k2, c2));
    }
}

/// Mixing two streams adds exactly their two contributions at every tick
/// and channel.
pub proof fn lemma_mix_two_streams(
    a: (u64, AudioData),
    b: (u64, AudioData),
    sample_rate: int,
    channels: int,
    k: int,
    c: int,
)
    ensures
        spec_mixed_sample(seq![a, b], sample_rate, channels, k, c) == spec_contribution(
            a.0 as int,
            a.1.samples@,
            sample_rate,
            channels,
            k,
            c,
        ) + spec_contribution(b.0 as int, b.1.samples@, sample_rate, channels, k, c),
{
    let pair = seq![a, b];
    let single = seq![a];
    assert(pair.drop_last() =~= single);
    assert(single.drop_last() =~= Seq::<(u64, AudioData)>::empty());
    assert(pair.last() == b);
    assert(single.last() == a);
    assert(spec_mixed_sample(Seq::<(u64, AudioData)>::empty(), sample_rate, channels, k, c) == 0);
    assert(spec_mixed_sample(single, sample_rate, channels, k, c) == spec_contribution(
        a.0 as int,
        a.1.samples@,
        sample_rate,
        channels,
        k,
        c,
    ));
    assert(spec_mixed_sample(pair, sample_rate, channels, k, c) == spec_mixed_sample(
        single,
        sample_rate,
        channels,
        k,
        c,
    ) + spec_contribution(b.0 as int, b.1.samples@, sample_rate, channels, k, c));
}

/// A stream holding one constant value contributes exactly that value at
/// every tick from its activation until its exhaustion, and nothing
/// outside that window: where two such streams overlap, the mix carries
/// their sum, where one plays alone it carries that value, and silence is
/// zero.
pub proof fn lemma_constant_stream_contribution(
    offset_ms: u64,
    d: AudioData,
    v: i32,
    sample_rate: int,
    channels: int,
    k: int,
    c: int,
)
    requires
        channels >= 1,
        0 <= c < channels,
        forall|i: int| 0 <= i < d.samples@.len() ==> d.samples@[i] == v,
    ensures
        ({
            let act = spec_activation_tick(offset_ms as int, sample_rate);
            &&& (k >= act && (k - act) * channels + c < d.samples@.len() ==> spec_contribution(
                offset_ms as int,
                d.samples@,
                sample_rate,
                channels,
                k,
                c,
            ) == v as int)
            &&& (!(k >= act && (k - act) * channels + c < d.samples@.len()) ==> spec_contribution(
                offset_ms as int,
                d.samples@,
                sample_rate,
                channels,
                k,
                c,
            ) == 0)
        }),
{
    let act = spec_activation_tick(offset_ms as int, sample_rate);
    if k >= act {
        assert((k - act) * channels >= 0) by (nonlinear_arith)
            requires
                k - act >= 0,
                channels >= 1,
        ;
    }
}

/// Mixes interleaved fixed-point streams, each tagged with its timeline
/// start offset, into one interleaved stream at the given rate and channel
/// count: tick by tick, each not-yet-exhausted stream whose offset has been
/// reached contributes its next sample per channel, and the output carries
/// the exact sums.
pub fn mix_streams(
    streams: &Vec<(u64, AudioData)>,
    duration_ms: u64,
    sample_rate: u32,
    channels: u16,
) -> (r: Vec<i64>)
    requires
        sample_rate >= 1,
        channels >= 1,
        streams@.len() <= 0x1_0000_0000,
        spec_tick_count(duration_ms as int, sample_rate as int) * (channels as int)
            <= usize::MAX as int,
    ensures
        r@.len() == spec_tick_count(duration_ms as int, sample_rate as int) * (channels as int),
        forall|k: int, c: int|
            0 <= k < spec_tick_count(duration_ms as int, sample_rate as int) && 0 <= c < channels
                as int ==> r@[k * (channels as int) + c] == spec_mixed_sample(
                streams@,
                sample_rate as int,
                channels as int,
                k,
                c,
            ),
{
    let ghost tick_count = spec_tick_count(duration_ms as int, sample_rate as int);
    proof {
        assert(tick_count <= tick_count * (channels as int)) by (nonlinear_arith)
            requires
                channels >= 1,
                tick_count >= 0,
        ;
    }
    proof {
        assert((duration_ms as int) * (sample_rate as int) >= 0) by (nonlinear_arith)
            requires
                duration_ms >= 0,
                sample_rate >= 0,
        ;
    }
    let ticks128: u128 = (duration_ms as u128) * (sample_rate as u128) / 1000 + 1;
    let ticks: usize = ticks128 as usize;
    // The tick each stream becomes audible at.
    let mut acts: Vec<u128> = Vec::new();
    let mut s: usize = 0;
    while s < streams.len()
        invariant
            acts@.len() == s,
            s <= streams@.len(),
            forall|j: int|
                0 <= j < s ==> acts@[j] as int == spec_activation_tick(
                    streams@[j].0 as int,
                    sample_rate as int,
                ),
        decreases streams@.len() - s,
    {
        proof {
            assert((streams@[s as int].0 as int) * (sample_rate as int)
                <= 0x1_0000_0000_0000_0000_0000_0000) by (nonlinear_arith)
                requires
                    streams@[s as int].0 <= 0xFFFF_FFFF_FFFF_FFFFu64,
                    sample_rate <= 0xFFFF_FFFFu32,
            ;
        }
        let a: u128 = ((streams[s].0 as u128) * (sample_rate as u128) + 999) / 1000;
        acts.push(a);
        s += 1;
    }
    // Advance tick by tick, summing one sample per channel from each
    // stream that is active there.
    let mut out: Vec<i64> = Vec::new();
    let mut k: usize = 0;
    while k < ticks
        invariant
            sample_rate >= 1,
            channels >= 1,
            streams@.len() <= 0x1_0000_0000,
            ticks as int == tick_count,
            tick_count * (channels as int) <= usize::MAX as int,
            k <= ticks,
            acts@.len() == streams@.len(),
            forall|j: int|
                0 <= j < streams@.len() ==> acts@[j] as int == spec_activation_tick(
                    streams@[j].0 as int,
                    sample_rate as int,
                ),
            out@.len() == k * (channels as int),
            spec_rows_ok(out@, streams@, sample_rate as int, channels as int, k as int),
        decreases ticks - k,
    {
        proof {
            assert((k as int + 1) * (channels as int) == k as int * (channels as int) + (
            channels as int)) by (nonlinear_arith);
            assert(k as int * (channels as int) + (channels as int) <= tick_count * (
            channels as int)) by (nonlinear_arith)
                requires
                    k as int + 1 <= tick_count,
                    channels >= 1,
            ;
        }
        let mut c: usize = 0;
        while c < channels as usize
            invariant
                sample_rate >= 1,
                channels >= 1,
                streams@.len() <= 0x1_0000_0000,
                k < ticks,
                ticks as int == tick_count,
                c <= channels as int,
                k as int * (channels as int) + (channels as int) <= usize::MAX as int,
                acts@.len() == streams@.len(),
                forall|j: int|
                    0 <= j < streams@.len() ==> acts@[j] as int == spec_activation_tick(
                        streams@[j].0 as int,
                        sample_rate as int,
                    ),
                out@.len() == k * (channels as int) + c,
                spec_rows_ok(out@, streams@, sample_rate as int, channels as int, k as int),
                forall|c2: int|
                    0 <= c2 < c ==> out@[k as int * (channels as int) + c2] == spec_mixed_sample(
                        streams@,
                        sample_rate as int,
                        channels as int,
                        k as int,
                        c2,
                    ),
            decreases channels as int - c,
        {
            let mut acc: i128 = 0;
            let mut s: usize = 0;
            while s < streams.len()
                invariant
                    sample_rate >= 1,
                    channels >= 1,
                    c < channels as int,
                    streams@.len() <= 0x1_0000_0000,
                    s <= streams@.len(),
                    k < ticks,
                    acts@.len() == streams@.len(),
                    forall|j: int|
                        0 <= j < streams@.len() ==> acts@[j] as int == spec_activation_tick(
                            streams@[j].0 as int,
                            sample_rate as int,
                        ),
                    acc == spec_mixed_sample(
                        streams@.take(s as int),
                        sample_rate as int,
                        channels as int,
                        k as int,
                        c as int,
                    ),
                    -(s as int) * 0x8000_0000 <= acc <= (s as int) * 0x7FFF_FFFF,
                decreases streams@.len() - s,
            {
                let act: u128 = acts[s];
                if (k as u128) >= act {
                    let rel: u128 = (k as u128) - act;
                    proof {
                        assert(rel * (channels as u128) + (c as u128) < u128::MAX)
                            by (nonlinear_arith)
                            requires
                                rel <= 0xFFFF_FFFF_FFFF_FFFFu128,
                                channels <= 0xFFFFu16,
                                c <= 0xFFFFusize,
                        ;
                    }
                    let idx128: u128 = rel * (channels as u128) + (c as u128);
                    let len: usize = streams[s].1.samples.len();
                    if idx128 < len as u128 {
                        let sample: i32 = streams[s].1.samples[idx128 as usize];
                        acc = acc + sample as i128;
                    }
                }
                proof {
                    assert(streams@.take(s as int + 1).drop_last() =~= streams@.take(s as int));
                    assert(streams@.take(s as int + 1).last() == streams@[s as int]);
                    assert(-(s as int + 1) * 0x8000_0000 == -(s as int) * 0x8000_0000
                        - 0x8000_0000) by (nonlinear_arith);
                    assert((s as int + 1) * 0x7FFF_FFFF == (s as int) * 0x7FFF_FFFF + 0x7FFF_FFFF)
                        by (nonlinear_arith);
                }
                s += 1;
            }
            proof {
                assert(streams@.take(streams@.len() as int) =~= streams@);
                assert(-(streams@.len() as int) * 0x8000_0000 >= -0x8000_0000_0000_0000i128)
                    by (nonlinear_arith)
                    requires
                        streams@.len() <= 0x1_0000_0000,
                ;
                assert((streams@.len() as int) * 0x7FFF_FFFF <= 0x7FFF_FFFF_0000_0000i128)
                    by (nonlinear_arith)
                    requires
                        streams@.len() <= 0x1_0000_0000,
                ;
            }
            let ghost out0 = out@;
            out.push(acc as i64);
            proof {
                lemma_rows_ok_push(
                    out0,
                    acc as i64,
                    streams@,
                    sample_rate as int,
                    channels as int,
                    k as int,
                );
            }
            c += 1;
        }
        proof {
            assert forall|k2: int, c2: int|
                0 <= k2 < k as int + 1 && 0 <= c2 < channels as int implies out@[k2 * (
            channels as int) + c2] == spec_mixed_sample(
                streams@,
                sample_rate as int,
                channels as int,
                k2,
                c2,
            ) by {
                if k2 == k as int {
                    assert(out@[k as int * (channels as int) + c2] == spec_mixed_sample(
                        streams@,
                        sample_rate as int,
                        channels as int,
                        k as int,
                        c2,
                    ));
                } else {
                    assert(out@[k2 * (channels as int) + c2] == spec_mixed_sample(
                        streams@,
                        sample_rate as int,
                        channels as int,
                        k2,
                        c2,
                    ));
                }
            }
        }
        k += 1;
    }
    proof {
        assert(out@.len() == tick_count * (channels as int));
        assert forall|k2: int, c2: int|
            0 <= k2 < tick_count && 0 <= c2 < channels as int implies out@[k2 * (
        channels as int) + c2] == spec_mixed_sample(
            streams@,
            sample_rate as int,
            channels as int,
            k2,
            c2,
        ) by {
            assert(out@[k2 * (channels as int) + c2] == spec_mixed_sample(
                streams@,
                sample_rate as int,
                channels as int,
                k2,
                c2,
            ));
        }
    }
    out
}

/// Drives rendering over a whole timeline.
pub struct Renderer {
    pub editor: Editor,
}

impl Renderer {
    /// Create new renderer instance
    pub fn new(editor: Editor) -> (r: Renderer)
        ensures
            r.editor == editor,
    {
        Renderer { editor }
    }

    /// Frame count of final output
    pub fn frame_count(&self) -> (r: usize)
        requires
            self.editor.meta.wf(),
        ensures
            r as int == self.editor.meta.spec_frames(),
    {
        self.editor.meta.frames()
    }

    /// The timeline offset, in milliseconds, at which a frame index is
    /// sampled: the index over the frame rate, saturated at the
    /// representable range.
    pub open spec fn spec_frame_time_ms(&self, index: int) -> int {
        let t = index * 1_000_000 / (self.editor.meta.fps_milli as int);
        if t > u64::MAX as int {
            u64::MAX as int
        } else {
            t
        }
    }

    fn frame_time_ms(&self, frame_index: usize) -> (r: u64)
        requires
            self.editor.meta.wf(),
        ensures
            r as int == self.spec_frame_time_ms(frame_index as int),
    {
        proof {
            assert(0 <= (frame_index as int) * 1_000_000 <= 0x1_0000_0000_0000_0000_0000_0000int)
                by (nonlinear_arith)
                requires
                    0 <= frame_index as int <= 0xFFFF_FFFF_FFFF_FFFFint,
            ;
        }
        let t128: u128 = (frame_index as u128) * 1_000_000 / (self.editor.meta.fps_milli as u128);
        if t128 > u64::MAX as u128 {
            u64::MAX
        } else {
            t128 as u64
        }
    }

    /// Render single frame: an opaque black canvas of the base size with
    /// every layer's contribution at [`Self::spec_frame_time_ms`]
    /// composited onto it in stacking order. An index beyond the frame
    /// count yields no frame; a layer whose source fails aborts with its
    /// error.
    pub fn render_frame(&self, frame_index: usize) -> (r: Result<Option<Frame>, EditorError>)
        requires
            self.editor.meta.wf(),
        ensures
            frame_index as int >= self.editor.meta.spec_frames() ==> (r matches Ok(o) && o
                is None),
            (frame_index as int) < self.editor.meta.spec_frames() ==> (r matches Ok(o) ==> (o
                matches Some(f) && f.spec_width() == self.editor.meta.width && f.spec_height()
                == self.editor.meta.height)),
            self.editor.layers@.len() == 0 ==> r is Ok,
    {
        if frame_index >= self.editor.meta.frames() {
            return Result::Ok(Option::None);
        }
        // Create base frame
        let mut base = new_canvas_rgb(self.editor.meta.width, self.editor.meta.height);
        let t: u64 = self.frame_time_ms(frame_index);
        let mut i: usize = 0;
        while i < self.editor.layers.len()
            invariant
                self.editor.meta.wf(),
                (frame_index as int) < self.editor.meta.spec_frames(),
                base.wf(),
                base.spec_width() == self.editor.meta.width,
                base.spec_height() == self.editor.meta.height,
            decreases self.editor.layers@.len() - i,
        {
            let res = self.editor.layers[i].frame(t, &mut base, &self.editor.meta);
            if let Result::Err(e) = res {
                return Result::Err(e);
            }
            i += 1;
        }
        Result::Ok(Option::Some(base))
    }

    /// Render audio: every layer whose source reports an audio stream in
    /// the render's target format contributes it from its timeline offset,
    /// with the layer's audio effect chain applied
    /// ([`crate::editor::spec_audio_chain`]), and the streams are mixed by
    /// plain summation into one interleaved fixed-point stream covering the
    /// timeline's duration. The first failing source aborts the pass; a
    /// timeline without layers always succeeds, with silence.
    pub fn render_audio(&self, sample_rate: u32, channels: u16) -> (r: Result<
        Vec<i64>,
        EditorError,
    >)
        requires
            sample_rate >= 1,
            channels >= 1,
            self.editor.layers@.len() <= 0x1_0000_0000,
            spec_tick_count(self.editor.meta.duration_ms as int, sample_rate as int) * (
            channels as int) <= usize::MAX as int,
        ensures
            r matches Ok(out) ==> out@.len() == spec_tick_count(
                self.editor.meta.duration_ms as int,
                sample_rate as int,
            ) * (channels as int),
            self.editor.layers@.len() == 0 ==> (r matches Ok(out) && forall|i: int|
                0 <= i < out@.len() ==> out@[i] == 0),
    {
        let ghost tick_count = spec_tick_count(self.editor.meta.duration_ms as int,
            sample_rate as int);
        // Gather the audio-bearing layers' streams, each through its
        // effect chain. The ledger records, for each collected stream,
        // the samples its source returned and the effect chain applied:
        // every entry of `streams` is that chain folded over that return.
        let ghost mut ledger: Seq<(u64, Seq<i32>, Seq<Effect>)> = Seq::empty();
        let mut streams: Vec<(u64, AudioData)> = Vec::new();
        let mut i: usize = 0;
        while i < self.editor.layers.len()
            invariant
                streams@.len() <= i,
                i <= self.editor.layers@.len(),
                self.editor.layers@.len() == 0 ==> streams@.len() == 0,
                streams@.len() == ledger.len(),
                forall|j: int|
                    0 <= j < ledger.len() ==> (#[trigger] streams@[j]).0 == ledger[j].0
                        && streams@[j].1.samples@ == spec_audio_chain(ledger[j].2, ledger[j].1),
            decreases self.editor.layers@.len() - i,
        {
            let layer = &self.editor.layers[i];
            let request = AudioRequest {
                speed_milli: layer.speed_milli,
                sample_rate,
                channels,
            };
            match layer.data.audio(&request) {
                Result::Err(e) => {
                    return Result::Err(e);
                },
                Result::Ok(Option::None) => {},
                Result::Ok(Option::Some(audio)) => {
                    // Apply effects: the pushed stream is the chain folded
                    // over what the source returned.
                    let ghost raw = audio.samples@;
                    let mut src = audio;
                    let mut j: usize = 0;
                    while j < layer.effects.len()
                        invariant
                            j <= layer.effects@.len(),
                            src.samples@ == spec_audio_chain(layer.effects@.take(j as int), raw),
                        decreases layer.effects@.len() - j,
                    {
                        src = layer.effects[j].apply_audio_effect(src);
                        proof {
                            assert(layer.effects@.take(j as int).push(layer.effects@[j as int])
                                =~= layer.effects@.take(j as int + 1));
                            lemma_audio_chain_snoc(
                                layer.effects@.take(j as int),
                                layer.effects@[j as int],
                                raw,
                            );
                        }
                        j += 1;
                    }
                    proof {
                        assert(layer.effects@.take(layer.effects@.len() as int)
                            =~= layer.effects@);
                        assert(src.samples@ == spec_audio_chain(layer.effects@, raw));
                    }
                    streams.push((layer.offset_ms, src));
                    proof {
                        ledger = ledger.push((layer.offset_ms, raw, layer.effects@));
                    }
                },
            }
            i += 1;
        }
        let out = mix_streams(&streams, self.editor.meta.duration_ms, sample_rate, channels);
        proof {
            if self.editor.layers@.len() == 0 {
                assert(streams@ =~= Seq::<(u64, AudioData)>::empty());
                assert forall|n: int| 0 <= n < out@.len() implies out@[n] == 0 by {
                    let k = n / (channels as int);
                    let c = n % (channels as int);
                    assert(k * (channels as int) + c == n && 0 <= c < channels as int && 0 <= k)
                        by (nonlinear_arith)
                        requires
                            n >= 0,
                            channels >= 1,
                            k == n / (channels as int),
                            c == n % (channels as int),
                    ;
                    assert(k < tick_count) by (nonlinear_arith)
                        requires
                            n < tick_count * (channels as int),
                            channels >= 1,
                            k == n / (channels as int),
                    ;
                    assert(out@[k * (channels as int) + c] == spec_mixed_sample(
                        streams@,
                        sample_rate as int,
                        channels as int,
                        k,
                        c,
                    ));
                }
            }
        }
        Result::Ok(out)
    }
}

} // verus!
