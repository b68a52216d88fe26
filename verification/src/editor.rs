//! The timeline data model: canvas metadata, layers, on-canvas transforms,
//! the closed set of effects, and the capability a layer's media source
//! offers to the compositor.

use vstd::prelude::*;

use crate::fixed::{gain_milli, lerp_milli, spec_clamp, spec_gain, spec_lerp};
use crate::imgops::{
    overlay_frame, pad_dim, resize_exact_frame, resize_fit_frame, rotate_frame,
    rotate_frame_uncropped, spec_pad_dim, Frame, MAX_DIM,
};

verus! {

/// The error kinds the pipeline reports, each with the offending path or a
/// short description as context.
#[derive(Debug, Clone)]
pub enum EditorError {
    /// A media source could not supply a frame or an audio stream it was
    /// asked for.
    MissingCapability { context: String },
    /// A collaborator failed to decode a media file.
    DecodeFailure { context: String },
    /// A directory or file could not be created, read or written.
    IoFailure { context: String },
    /// Malformed collaborator output or malformed interpolation input.
    FormatFailure { context: String },
}

/// Canvas metadata: pixel size, frame rate in thousandths of a frame per
/// second, and the timeline's total duration in milliseconds.
pub struct EditorMeta {
    pub width: u32,
    pub height: u32,
    pub fps_milli: u32,
    pub duration_ms: u64,
}

impl EditorMeta {
    /// The canvas has at least one pixel each way and stays within the
    /// pipeline's size cap, the frame rate is positive, and the total frame
    /// count is representable, so a render pass can enumerate it.
    pub open spec fn wf(&self) -> bool {
        &&& 1 <= self.width <= MAX_DIM
        &&& 1 <= self.height <= MAX_DIM
        &&& self.fps_milli >= 1
        &&& (self.fps_milli as int) * (self.duration_ms as int) / 1_000_000 <= usize::MAX as int
    }

    /// Total frame count: the frame rate times the duration, truncated.
    pub open spec fn spec_frames(&self) -> int {
        (self.fps_milli as int) * (self.duration_ms as int) / 1_000_000
    }

    /// Get frame count
    pub fn frames(&self) -> (r: usize)
        requires
            self.wf(),
        ensures
            r == self.spec_frames(),
    {
        let p: u128 = (self.fps_milli as u128) * (self.duration_ms as u128) / 1_000_000;
        p as usize
    }
}

/// A width or height multiplied by a fixed-point factor, truncated toward
/// zero.
pub open spec fn spec_scale_trunc(d: int, f: int) -> int {
    if f >= 0 {
        d * f / 1000
    } else {
        -(d * (-f) / 1000)
    }
}

/// A layer's position on the canvas: either absolute pixels or a
/// canvas-relative fraction in thousandths.
#[derive(Debug, Clone, Copy, PartialEq, Eq, Structural)]
pub enum Transform {
    /// Pixels
    Px(i64, i64),
    /// Thousandths of the canvas size: 500 is the canvas centre.
    Percent(i32, i32),
}

impl Transform {
    /// Create new pixel position
    pub fn px(x: i64, y: i64) -> (t: Transform)
        ensures
            t == Transform::Px(x, y),
    {
        Transform::Px(x, y)
    }

    /// New position relative to the screen, in thousandths
    pub fn percent(x_milli: i32, y_milli: i32) -> (t: Transform)
        ensures
            t == Transform::Percent(x_milli, y_milli),
    {
        Transform::Percent(x_milli, y_milli)
    }

    /// The pixel position this transform resolves to on a canvas of the
    /// given size: absolute pixels pass through unchanged, a fraction is
    /// taken of the canvas size and truncated toward zero.
    pub open spec fn spec_calculate(&self, width: int, height: int) -> (int, int) {
        match *self {
            Transform::Px(x, y) => (x as int, y as int),
            Transform::Percent(x, y) => (
                spec_scale_trunc(width, x as int),
                spec_scale_trunc(height, y as int),
            ),
        }
    }

    /// Calculate position with width and height
    pub fn calculate(&self, width: u32, height: u32) -> (r: (i64, i64))
        ensures
            (r.0 as int, r.1 as int) == self.spec_calculate(width as int, height as int),
    {
        match *self {
            Transform::Px(x, y) => (x, y),
            Transform::Percent(x, y) => (
                scale_trunc_px(width, x),
                scale_trunc_px(height, y),
            ),
        }
    }
}

fn scale_trunc_px(d: u32, f: i32) -> (r: i64)
    ensures
        r as int == spec_scale_trunc(d as int, f as int),
{
    if f >= 0 {
        assert((d as int) * (f as int) <= u64::MAX) by (nonlinear_arith)
            requires
                d <= u32::MAX,
                0 <= f <= i32::MAX,
        ;
        let p: u64 = (d as u64) * (f as u64) / 1000;
        p as i64
    } else {
        let m: u64 = (-(f as i64)) as u64;
        assert((d as int) * (m as int) <= u64::MAX) by (nonlinear_arith)
            requires
                d <= u32::MAX,
                m <= 0x8000_0000u64,
        ;
        let p: u64 = (d as u64) * m / 1000;
        -(p as i64)
    }
}

/// One interleaved, fixed-point audio stream: samples in thousandths of
/// full scale, already at the renderer's target rate and channel count.
pub struct AudioData {
    pub samples: Vec<i32>,
}

impl AudioData {
    /// Samples must already be interleaved fixed-point values
    pub fn new(samples: Vec<i32>) -> (r: AudioData)
        ensures
            r.samples == samples,
    {
        AudioData { samples }
    }
}

/// The target format the renderer asks a media source to deliver its audio
/// in: the layer's playback speed and the output rate and channel count.
pub struct AudioRequest {
    pub speed_milli: u32,
    pub sample_rate: u32,
    pub channels: u16,
}

/// A width or height scaled by a fixed-point factor: the truncated product,
/// with negative factors collapsing to zero.
pub open spec fn spec_scaled_dim(d: int, f: int) -> int {
    if spec_scale_trunc(d, f) < 0 {
        0
    } else {
        spec_scale_trunc(d, f)
    }
}

fn scaled_dim(d: u32, f: i64) -> (r: u32)
    requires
        d <= MAX_DIM,
        spec_scaled_dim(d as int, f as int) <= MAX_DIM,
    ensures
        r as int == spec_scaled_dim(d as int, f as int),
{
    if f < 0 {
        proof {
            assert(-((d as int) * (-(f as int)) / 1000) <= 0) by (nonlinear_arith)
                requires
                    d >= 0,
                    f < 0,
            ;
        }
        0
    } else {
        proof {
            assert(0 <= (d as int) * (f as int) <= 0x1_0000_0000_0000_0000_0000_0000
                && (d as int) * (f as int) / 1000 >= 0) by (nonlinear_arith)
                requires
                    d <= 0x1_0000_0000,
                    0 <= f <= 0x8000_0000_0000_0000,
            ;
        }
        let p: u128 = (d as u128) * (f as u128) / 1000;
        p as u32
    }
}

fn scaled_fits(d: u32, f: i64) -> (r: bool)
    requires
        d <= MAX_DIM,
    ensures
        r == (spec_scaled_dim(d as int, f as int) <= MAX_DIM),
{
    if f < 0 {
        proof {
            assert(-((d as int) * (-(f as int)) / 1000) <= 0) by (nonlinear_arith)
                requires
                    d >= 0,
                    f < 0,
            ;
        }
        true
    } else {
        proof {
            assert(0 <= (d as int) * (f as int) <= 0x1_0000_0000_0000_0000_0000_0000
                && (d as int) * (f as int) / 1000 >= 0) by (nonlinear_arith)
                requires
                    d <= 0x1_0000_0000,
                    0 <= f <= 0x8000_0000_0000_0000,
            ;
        }
        let p: u128 = (d as u128) * (f as u128) / 1000;
        p <= MAX_DIM as u128
    }
}

fn sat_add_i64(a: i64, b: i64) -> (r: i64)
    ensures
        r as int == spec_clamp(a + b, i64::MIN as int, i64::MAX as int),
{
    if b >= 0 {
        if a > i64::MAX - b {
            i64::MAX
        } else {
            a + b
        }
    } else {
        if a < i64::MIN - b {
            i64::MIN
        } else {
            a + b
        }
    }
}

/// The transform left behind by a move effect: the current resolved pixel
/// position interpolated toward that position shifted by the move, pinned
/// down as an absolute pixel transform.
pub open spec fn spec_move_transform(
    t: Transform,
    dx: int,
    dy: int,
    elapsed: int,
    duration: int,
    meta: EditorMeta,
) -> Transform {
    let p = t.spec_calculate(meta.width as int, meta.height as int);
    let bx = spec_clamp(p.0 + dx, i64::MIN as int, i64::MAX as int);
    let by = spec_clamp(p.1 + dy, i64::MIN as int, i64::MAX as int);
    Transform::Px(
        spec_lerp(p.0, bx, elapsed, duration) as i64,
        spec_lerp(p.1, by, elapsed, duration) as i64,
    )
}

/// The closed set of per-layer effects. Factors, gains and angles are fixed
/// point: a factor of 1500 is 1.5x, an angle of 3142 is about pi radians.
#[derive(Debug, Clone, Copy)]
pub enum Effect {
    /// Resize to base size, force to ignore aspect ratio
    ScaleToBase { force: bool },
    Scale { x: i32, y: i32 },
    ScaleOverTime { x0: i32, y0: i32, x1: i32, y1: i32 },
    /// Angle in thousandths of a radian, uncropped = slow
    Rotate { angle: i64, uncropped: bool },
    /// Angle in thousandths of a radian, uncropped = slow
    RotateOverTime { a0: i64, a1: i64, uncropped: bool },
    MovePx { x: i64, y: i64 },
    AudioGain { gain: i32 },
}

impl Effect {
    /// The transform this effect leaves for the effects after it: only a
    /// move rewrites it.
    pub open spec fn spec_transform_after(
        self,
        t: Transform,
        elapsed: int,
        duration: int,
        meta: EditorMeta,
    ) -> Transform {
        match self {
            Effect::MovePx { x, y } => spec_move_transform(
                t,
                x as int,
                y as int,
                elapsed,
                duration,
                meta,
            ),
            _ => t,
        }
    }

    /// Whether this effect's output dimensions stay within the pipeline's
    /// size cap for a frame of the given size: the machine limit under
    /// which the resize and warp boundaries are known not to panic. Scaling
    /// or padding past the cap is rejected by the effect chain.
    pub open spec fn spec_dims_fit(self, w: int, h: int, elapsed: int, duration: int) -> bool {
        match self {
            Effect::Scale { x, y } => spec_scaled_dim(w, x as int) <= MAX_DIM && spec_scaled_dim(
                h,
                y as int,
            ) <= MAX_DIM,
            Effect::ScaleOverTime { x0, y0, x1, y1 } => spec_scaled_dim(
                w,
                spec_lerp(x0 as int, x1 as int, elapsed, duration),
            ) <= MAX_DIM && spec_scaled_dim(
                h,
                spec_lerp(y0 as int, y1 as int, elapsed, duration),
            ) <= MAX_DIM,
            Effect::Rotate { angle, uncropped } => !uncropped || (spec_pad_dim(w, h) <= MAX_DIM
                && spec_pad_dim(h, w) <= MAX_DIM),
            Effect::RotateOverTime { a0, a1, uncropped } => !uncropped || (spec_pad_dim(w, h)
                <= MAX_DIM && spec_pad_dim(h, w) <= MAX_DIM),
            _ => true,
        }
    }

    /// Decides [`Self::spec_dims_fit`] for a frame.
    pub fn dims_fit(&self, frame: &Frame, offset_ms: u64, duration_ms: u64) -> (r: bool)
        requires
            frame.wf(),
        ensures
            r == self.spec_dims_fit(
                frame.spec_width() as int,
                frame.spec_height() as int,
                offset_ms as int,
                duration_ms as int,
            ),
    {
        match *self {
            Effect::Scale { x, y } => scaled_fits(frame.width(), x as i64) && scaled_fits(
                frame.height(),
                y as i64,
            ),
            Effect::ScaleOverTime { x0, y0, x1, y1 } => {
                let fx = lerp_milli(x0 as i64, x1 as i64, offset_ms, duration_ms);
                let fy = lerp_milli(y0 as i64, y1 as i64, offset_ms, duration_ms);
                scaled_fits(frame.width(), fx) && scaled_fits(frame.height(), fy)
            },
            Effect::Rotate { uncropped, .. } => !uncropped || (pad_dim(
                frame.width(),
                frame.height(),
            ) <= MAX_DIM && pad_dim(frame.height(), frame.width()) <= MAX_DIM),
            Effect::RotateOverTime { uncropped, .. } => !uncropped || (pad_dim(
                frame.width(),
                frame.height(),
            ) <= MAX_DIM && pad_dim(frame.height(), frame.width()) <= MAX_DIM),
            _ => true,
        }
    }

    /// Apply an effect to frame
    ///
    /// `offset_ms` is the layer-local elapsed time and `duration_ms` the
    /// layer's effective duration; their ratio is the progress that the
    /// time-varying effects interpolate by, extrapolating freely beyond it.
    pub fn apply_video_effect(
        &self,
        frame: Frame,
        offset_ms: u64,
        duration_ms: u64,
        transform: &mut Transform,
        meta: &EditorMeta,
    ) -> (r: Frame)
        requires
            frame.wf(),
            meta.wf(),
            self.spec_dims_fit(
                frame.spec_width() as int,
                frame.spec_height() as int,
                offset_ms as int,
                duration_ms as int,
            ),
        ensures
            r.wf(),
            *final(transform) == self.spec_transform_after(
                *old(transform),
                offset_ms as int,
                duration_ms as int,
                *meta,
            ),
            *self matches Effect::ScaleToBase { force } ==> (if force {
                r.spec_width() == meta.width && r.spec_height() == meta.height
            } else if frame.spec_width() > meta.width || frame.spec_height() > meta.height {
                1 <= r.spec_width() <= meta.width && 1 <= r.spec_height() <= meta.height
            } else {
                r == frame
            }),
            *self matches Effect::Scale { x, y } ==> r.spec_width() as int == spec_scaled_dim(
                frame.spec_width() as int,
                x as int,
            ) && r.spec_height() as int == spec_scaled_dim(frame.spec_height() as int, y as int),
            *self matches Effect::ScaleOverTime { x0, y0, x1, y1 } ==> r.spec_width() as int
                == spec_scaled_dim(
                frame.spec_width() as int,
                spec_lerp(x0 as int, x1 as int, offset_ms as int, duration_ms as int),
            ) && r.spec_height() as int == spec_scaled_dim(
                frame.spec_height() as int,
                spec_lerp(y0 as int, y1 as int, offset_ms as int, duration_ms as int),
            ),
            *self matches Effect::Rotate { angle, uncropped } ==> (if uncropped {
                r.spec_width() as int == spec_pad_dim(
                    frame.spec_width() as int,
                    frame.spec_height() as int,
                ) && r.spec_height() as int == spec_pad_dim(
                    frame.spec_height() as int,
                    frame.spec_width() as int,
                )
            } else {
                r.spec_width() == frame.spec_width() && r.spec_height() == frame.spec_height()
            }),
            *self matches Effect::RotateOverTime { a0, a1, uncropped } ==> (if uncropped {
                r.spec_width() as int == spec_pad_dim(
                    frame.spec_width() as int,
                    frame.spec_height() as int,
                ) && r.spec_height() as int == spec_pad_dim(
                    frame.spec_height() as int,
                    frame.spec_width() as int,
                )
            } else {
                r.spec_width() == frame.spec_width() && r.spec_height() == frame.spec_height()
            }),
            *self matches Effect::MovePx { x, y } ==> r == frame,
            *self matches Effect::AudioGain { gain } ==> r == frame,
    {
        match *self {
            // Scale it to base frame size
            Effect::ScaleToBase { force } => {
                if force {
                    resize_exact_frame(&frame, meta.width, meta.height)
                } else {
                    if frame.width() > meta.width || frame.height() > meta.height {
                        resize_fit_frame(&frame, meta.width, meta.height)
                    } else {
                        frame
                    }
                }
            },
            // Scale the frame
            Effect::Scale { x, y } => {
                let w = scaled_dim(frame.width(), x as i64);
                let h = scaled_dim(frame.height(), y as i64);
                resize_exact_frame(&frame, w, h)
            },
            // Scale the frame over time
            Effect::ScaleOverTime { x0, y0, x1, y1 } => {
                let fx = lerp_milli(x0 as i64, x1 as i64, offset_ms, duration_ms);
                let fy = lerp_milli(y0 as i64, y1 as i64, offset_ms, duration_ms);
                let w = scaled_dim(frame.width(), fx);
                let h = scaled_dim(frame.height(), fy);
                resize_exact_frame(&frame, w, h)
            },
            // Rotate the frame
            Effect::Rotate { angle, uncropped } => {
                if uncropped {
                    rotate_frame_uncropped(frame, angle)
                } else {
                    rotate_frame(frame, angle)
                }
            },
            // Rotate the frame based on time
            Effect::RotateOverTime { a0, a1, uncropped } => {
                let a = lerp_milli(a0, a1, offset_ms, duration_ms);
                if uncropped {
                    rotate_frame_uncropped(frame, a)
                } else {
                    rotate_frame(frame, a)
                }
            },
            // Move by x, y
            Effect::MovePx { x, y } => {
                let position = transform.calculate(meta.width, meta.height);
                let tx = lerp_milli(position.0, sat_add_i64(position.0, x), offset_ms, duration_ms);
                let ty = lerp_milli(position.1, sat_add_i64(position.1, y), offset_ms, duration_ms);
                *transform = Transform::px(tx, ty);
                frame
            },
            // Audio effects
            Effect::AudioGain { .. } => frame,
        }
    }

    /// What this effect does to an audio stream's samples: a gain rescales
    /// each one, every other effect passes the stream through unchanged.
    pub open spec fn spec_apply_audio(self, samples: Seq<i32>) -> Seq<i32> {
        match self {
            Effect::AudioGain { gain } => Seq::new(
                samples.len(),
                |j: int| spec_gain(samples[j] as int, gain as int) as i32,
            ),
            _ => samples,
        }
    }

    /// Apply audio effect on a stream: only a gain changes it, sample by
    /// sample; every other effect passes the stream through unchanged.
    pub fn apply_audio_effect(&self, audio: AudioData) -> (r: AudioData)
        ensures
            r.samples@ == self.spec_apply_audio(audio.samples@),
    {
        match *self {
            // Add gain to the audio
            Effect::AudioGain { gain } => {
                let n = audio.samples.len();
                let mut out: Vec<i32> = Vec::new();
                let mut i: usize = 0;
                while i < n
                    invariant
                        i <= n,
                        n == audio.samples@.len(),
                        out@.len() == i,
                        forall|j: int|
                            0 <= j < i ==> out@[j] as int == spec_gain(
                                audio.samples@[j] as int,
                                gain as int,
                            ),
                    decreases n - i,
                {
                    out.push(gain_milli(audio.samples[i], gain));
                    i += 1;
                }
                proof {
                    assert(out@ =~= self.spec_apply_audio(audio.samples@));
                }
                AudioData { samples: out }
            },
            // Video effects
            _ => audio,
        }
    }
}

/// An effect chain folded over a stream, front to back: each effect sees
/// the samples the one before it produced.
pub open spec fn spec_audio_chain(effects: Seq<Effect>, samples: Seq<i32>) -> Seq<i32>
    decreases effects.len(),
{
    if effects.len() == 0 {
        samples
    } else {
        spec_audio_chain(effects.drop_first(), effects.first().spec_apply_audio(samples))
    }
}

pub proof fn lemma_audio_chain_snoc(effects: Seq<Effect>, e: Effect, samples: Seq<i32>)
    ensures
        spec_audio_chain(effects.push(e), samples) == e.spec_apply_audio(
            spec_audio_chain(effects, samples),
        ),
    decreases effects.len(),
{
    if effects.len() == 0 {
        assert(effects.push(e).drop_first() =~= Seq::<Effect>::empty());
        assert(effects.push(e).first() == e);
        assert(spec_audio_chain(effects.push(e), samples) == spec_audio_chain(
            Seq::<Effect>::empty(),
            e.spec_apply_audio(samples),
        ));
        assert(spec_audio_chain(Seq::<Effect>::empty(), e.spec_apply_audio(samples))
            == e.spec_apply_audio(samples));
        assert(spec_audio_chain(effects, samples) == samples);
    } else {
        assert(effects.push(e).drop_first() =~= effects.drop_first().push(e));
        assert(effects.push(e).first() == effects.first());
        lemma_audio_chain_snoc(effects.drop_first(), e, effects.first().spec_apply_audio(samples));
        assert(spec_audio_chain(effects.push(e), samples) == spec_audio_chain(
            effects.drop_first().push(e),
            effects.first().spec_apply_audio(samples),
        ));
        assert(spec_audio_chain(effects, samples) == spec_audio_chain(
            effects.drop_first(),
            effects.first().spec_apply_audio(samples),
        ));
    }
}

/// An effect chain folded over the working transform, front to back.
pub open spec fn spec_transform_chain(
    effects: Seq<Effect>,
    t: Transform,
    elapsed: int,
    duration: int,
    meta: EditorMeta,
) -> Transform
    decreases effects.len(),
{
    if effects.len() == 0 {
        t
    } else {
        spec_transform_chain(
            effects.drop_first(),
            effects.first().spec_transform_after(t, elapsed, duration, meta),
            elapsed,
            duration,
            meta,
        )
    }
}

proof fn lemma_transform_chain_snoc(
    effects: Seq<Effect>,
    e: Effect,
    t: Transform,
    elapsed: int,
    duration: int,
    meta: EditorMeta,
)
    ensures
        spec_transform_chain(effects.push(e), t, elapsed, duration, meta)
            == e.spec_transform_after(
            spec_transform_chain(effects, t, elapsed, duration, meta),
            elapsed,
            duration,
            meta,
        ),
    decreases effects.len(),
{
    if effects.len() == 0 {
        assert(effects.push(e).drop_first() =~= Seq::<Effect>::empty());
        assert(effects.push(e).first() == e);
        assert(spec_transform_chain(effects.push(e), t, elapsed, duration, meta)
            == spec_transform_chain(
            Seq::<Effect>::empty(),
            e.spec_transform_after(t, elapsed, duration, meta),
            elapsed,
            duration,
            meta,
        ));
        assert(spec_transform_chain(
            Seq::<Effect>::empty(),
            e.spec_transform_after(t, elapsed, duration, meta),
            elapsed,
            duration,
            meta,
        ) == e.spec_transform_after(t, elapsed, duration, meta));
        assert(spec_transform_chain(effects, t, elapsed, duration, meta) == t);
    } else {
        assert(effects.push(e).drop_first() =~= effects.drop_first().push(e));
        assert(effects.push(e).first() == effects.first());
        lemma_transform_chain_snoc(
            effects.drop_first(),
            e,
            effects.first().spec_transform_after(t, elapsed, duration, meta),
            elapsed,
            duration,
            meta,
        );
        assert(spec_transform_chain(effects.push(e), t, elapsed, duration, meta)
            == spec_transform_chain(
            effects.drop_first().push(e),
            effects.first().spec_transform_after(t, elapsed, duration, meta),
            elapsed,
            duration,
            meta,
        ));
        assert(spec_transform_chain(effects, t, elapsed, duration, meta) == spec_transform_chain(
            effects.drop_first(),
            effects.first().spec_transform_after(t, elapsed, duration, meta),
            elapsed,
            duration,
            meta,
        ));
    }
}

/// The capability a layer's media source offers the compositor: it reports
/// its duration, produces at most one frame for a source-relative offset,
/// and produces at most one audio stream in a requested format. Decoded
/// sources implement it outside the core.
pub trait LayerData: Send + Sync {
    /// Get duration of this layer
    fn duration(&self) -> (r: u64);

    /// Generate the frame at a source-relative offset; a source with
    /// nothing to show there reports None.
    fn frame(&self, offset_ms: u64) -> (r: Result<Option<Frame>, EditorError>)
        ensures
            r matches Ok(Some(f)) ==> f.wf(),
    ;

    /// The source's audio in the requested format, or None for a source
    /// without any.
    fn audio(&self, request: &AudioRequest) -> (r: Result<Option<AudioData>, EditorError>);
}

/// Layer which can be overlayed over other layers in Editor
pub struct Layer {
    pub offset_ms: u64,
    pub effects: Vec<Effect>,
    pub transform: Transform,
    pub duration_ms: u64,
    pub speed_milli: u32,
    pub data: Box<dyn LayerData>,
}

impl Layer {
    /// Create new layer
    pub fn new(data: Box<dyn LayerData>, offset_ms: u64, transform: Transform) -> (l: Layer)
        ensures
            l.offset_ms == offset_ms,
            l.transform == transform,
            l.speed_milli == 1000,
            l.effects@.len() == 0,
    {
        let duration_ms = data.duration();
        Layer { duration_ms, offset_ms, data, transform, speed_milli: 1000, effects: Vec::new() }
    }

    /// Add new effect
    pub fn effect(self, effect: Effect) -> (l: Layer)
        ensures
            l.effects@ == self.effects@.push(effect),
            l.offset_ms == self.offset_ms,
            l.transform == self.transform,
            l.duration_ms == self.duration_ms,
            l.speed_milli == self.speed_milli,
            l.data == self.data,
    {
        let mut l = self;
        l.effects.push(effect);
        l
    }

    /// Set new duration of this layer
    pub fn duration(self, duration_ms: u64) -> (l: Layer)
        ensures
            l.duration_ms == duration_ms,
            l.offset_ms == self.offset_ms,
            l.transform == self.transform,
            l.effects == self.effects,
            l.speed_milli == self.speed_milli,
            l.data == self.data,
    {
        let mut l = self;
        l.duration_ms = duration_ms;
        l
    }

    /// Change the speed of this video, in thousandths
    pub fn speed(self, speed_milli: u32) -> (l: Layer)
        ensures
            l.speed_milli == speed_milli,
            l.offset_ms == self.offset_ms,
            l.transform == self.transform,
            l.effects == self.effects,
            l.duration_ms == self.duration_ms,
            l.data == self.data,
    {
        let mut l = self;
        l.speed_milli = speed_milli;
        l
    }

    /// The layer's playback window length on the timeline: its duration
    /// times its speed, taken literally, saturated at the representable
    /// range.
    pub open spec fn spec_effective_ms(&self) -> int {
        let e = (self.duration_ms as int) * (self.speed_milli as int) / 1000;
        if e > u64::MAX as int {
            u64::MAX as int
        } else {
            e
        }
    }

    /// Whether the layer is on screen at a timeline offset: from its start
    /// up to and including the end of its playback window.
    pub open spec fn spec_in_window(&self, t_ms: int) -> bool {
        self.offset_ms <= t_ms <= self.offset_ms + self.spec_effective_ms()
    }

    /// The source-relative position sampled at a timeline offset inside the
    /// window: the elapsed time scaled by the speed.
    pub open spec fn spec_local_pos(&self, t_ms: int) -> int {
        let p = (t_ms - self.offset_ms) * (self.speed_milli as int) / 1000;
        if p > u64::MAX as int {
            u64::MAX as int
        } else {
            p
        }
    }

    fn effective_ms(&self) -> (r: u64)
        ensures
            r as int == self.spec_effective_ms(),
    {
        proof {
            assert(0 <= (self.duration_ms as int) * (self.speed_milli as int) / 1000 <= 0x1_0000_0000_0000_0000_0000_0000int)
                by (nonlinear_arith)
                requires
                    0 <= self.duration_ms <= 0xFFFF_FFFF_FFFF_FFFFu64,
                    0 <= self.speed_milli <= 0xFFFF_FFFFu32,
            ;
        }
        let p: u128 = (self.duration_ms as u128) * (self.speed_milli as u128) / 1000;
        if p > u64::MAX as u128 {
            u64::MAX
        } else {
            p as u64
        }
    }

    /// The source-relative position the compositor samples the layer's
    /// data at.
    fn local_pos(&self, offset_ms: u64) -> (r: u64)
        requires
            offset_ms >= self.offset_ms,
        ensures
            r as int == self.spec_local_pos(offset_ms as int),
    {
        let elapsed: u64 = offset_ms - self.offset_ms;
        proof {
            assert(0 <= (elapsed as int) * (self.speed_milli as int) / 1000 <= 0x1_0000_0000_0000_0000_0000_0000int)
                by (nonlinear_arith)
                requires
                    0 <= elapsed <= 0xFFFF_FFFF_FFFF_FFFFu64,
                    0 <= self.speed_milli <= 0xFFFF_FFFFu32,
            ;
        }
        let pos128: u128 = (elapsed as u128) * (self.speed_milli as u128) / 1000;
        if pos128 > u64::MAX as u128 {
            u64::MAX
        } else {
            pos128 as u64
        }
    }

    /// Composite this layer's contribution at a timeline offset onto the
    /// base canvas: outside the playback window, or when the source has no
    /// frame there, the canvas is left untouched; otherwise the source's
    /// frame at [`Self::spec_local_pos`] runs through the effect chain,
    /// which folds the working transform by [`spec_transform_chain`], and
    /// is alpha-overlaid at the position that transform resolves to. A
    /// failing source, or an effect whose output would break the size cap,
    /// aborts with the error and leaves the canvas untouched. The canvas
    /// keeps its dimensions in every case.
    pub fn frame(&self, offset_ms: u64, base: &mut Frame, meta: &EditorMeta) -> (r: Result<
        (),
        EditorError,
    >)
        requires
            old(base).wf(),
            meta.wf(),
        ensures
            final(base).wf(),
            final(base).spec_width() == old(base).spec_width(),
            final(base).spec_height() == old(base).spec_height(),
            !self.spec_in_window(offset_ms as int) ==> r is Ok && *final(base) == *old(base),
            r is Err ==> *final(base) == *old(base),
    {
        let eff = self.effective_ms();
        if offset_ms < self.offset_ms {
            return Result::Ok(());
        }
        if self.offset_ms <= u64::MAX - eff && offset_ms > self.offset_ms + eff {
            return Result::Ok(());
        }
        let pos = self.local_pos(offset_ms);
        match self.data.frame(pos) {
            Result::Err(e) => Result::Err(e),
            Result::Ok(Option::None) => Result::Ok(()),
            Result::Ok(Option::Some(f)) => {
                // Effects
                let mut work = f;
                let mut wtrans = self.transform;
                let mut i: usize = 0;
                while i < self.effects.len()
                    invariant
                        work.wf(),
                        meta.wf(),
                        i <= self.effects@.len(),
                        *base == *old(base),
                        old(base).wf(),
                        self.spec_in_window(offset_ms as int),
                        wtrans == spec_transform_chain(
                            self.effects@.take(i as int),
                            self.transform,
                            pos as int,
                            eff as int,
                            *meta,
                        ),
                    decreases self.effects@.len() - i,
                {
                    let e = self.effects[i];
                    if !e.dims_fit(&work, pos, eff) {
                        return Result::Err(
                            EditorError::FormatFailure {
                                context: "effect output would break the frame size cap".to_owned(),
                            },
                        );
                    }
                    work = e.apply_video_effect(work, pos, eff, &mut wtrans, meta);
                    proof {
                        assert(self.effects@.take(i as int).push(self.effects@[i as int])
                            =~= self.effects@.take(i as int + 1));
                        lemma_transform_chain_snoc(
                            self.effects@.take(i as int),
                            self.effects@[i as int],
                            self.transform,
                            pos as int,
                            eff as int,
                            *meta,
                        );
                    }
                    i += 1;
                }
                proof {
                    assert(self.effects@.take(self.effects@.len() as int) =~= self.effects@);
                    // the overlay lands at the position the folded transform
                    // resolves to
                    assert(wtrans == spec_transform_chain(
                        self.effects@,
                        self.transform,
                        self.spec_local_pos(offset_ms as int),
                        self.spec_effective_ms(),
                        *meta,
                    ));
                }
                // Merge
                let xy = wtrans.calculate(meta.width, meta.height);
                overlay_frame(base, &work, xy.0, xy.1);
                Result::Ok(())
            },
        }
    }
}

/// A layer placed at the timeline origin with unit speed is on screen
/// exactly through its own duration: it contributes to no frame sampled
/// after that.
pub proof fn lemma_layer_window_unit_speed(l: Layer, t_ms: int)
    requires
        l.offset_ms == 0,
        l.speed_milli == 1000,
    ensures
        l.spec_in_window(t_ms) <==> 0 <= t_ms <= l.duration_ms,
{
    assert((l.duration_ms as int) * 1000 / 1000 == l.duration_ms as int) by (nonlinear_arith);
}

/// Video editor
pub struct Editor {
    pub layers: Vec<Layer>,
    pub meta: EditorMeta,
}

impl Editor {
    /// Create new editor instance: canvas size in pixels, total duration in
    /// milliseconds, frame rate in thousandths of a frame per second.
    pub fn new(width: u32, height: u32, duration_ms: u64, fps_milli: u32) -> (e: Editor)
        requires
            1 <= width <= MAX_DIM,
            1 <= height <= MAX_DIM,
            fps_milli >= 1,
            (fps_milli as int) * (duration_ms as int) / 1_000_000 <= usize::MAX as int,
        ensures
            e.meta == (EditorMeta { width, height, fps_milli, duration_ms }),
            e.meta.wf(),
            e.layers@.len() == 0,
    {
        Editor { layers: Vec::new(), meta: EditorMeta { width, height, duration_ms, fps_milli } }
    }

    /// Add new layer
    pub fn layer(self, layer: Layer) -> (e: Editor)
        ensures
            e.meta == self.meta,
            e.layers@ == self.layers@.push(layer),
    {
        let mut e = self;
        e.layers.push(layer);
        e
    }
}

} // verus!
