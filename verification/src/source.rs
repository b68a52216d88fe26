//! Media sources at the collaborator boundary: paths classified by
//! extension, cached video frame sequences, still images and audio files,
//! and the layer-capability implementations built on them. Decoding to
//! frames and samples is collaborator work; what can be computed from plain
//! values is verified here.

use vstd::prelude::*;
use vstd::string::StrSliceExecFns;
use vstd::string::StringExecFns;

use crate::editor::{AudioData, AudioRequest, EditorError, LayerData};
use crate::ffmpeg::{find_dot, spec_field_dot, FFmpeg};
use crate::imgops::{load_image_file, Frame, MAX_DIM};
use crate::renderer::{frame_filename, spec_frame_filename};

verus! {

/// Loads and decodes files
pub struct FileLoader {
    pub video_cache_path: String,
    pub ffmpeg: FFmpeg,
}

impl FileLoader {
    /// Create new instance
    pub fn new(video_cache_path: String, ffmpeg: FFmpeg) -> (r: FileLoader)
        ensures
            r.video_cache_path == video_cache_path,
            r.ffmpeg == ffmpeg,
    {
        FileLoader { video_cache_path, ffmpeg }
    }
}

/// The kind of media a file holds, told apart by its extension.
#[derive(Debug, Clone, Copy, PartialEq, Eq, Structural)]
pub enum MediaKind {
    Video,
    Audio,
    Image,
}

/// The position of the last dot in a path, or a negative value if it has
/// none.
pub open spec fn spec_last_dot(s: Seq<char>) -> int
    decreases s.len(),
{
    if s.len() == 0 {
        -1
    } else if s.last() == '.' {
        s.len() - 1
    } else {
        spec_last_dot(s.drop_last())
    }
}

/// The characters after the last dot.
pub open spec fn spec_extension(s: Seq<char>) -> Seq<char> {
    s.subrange(spec_last_dot(s) + 1, s.len() as int)
}

/// Whether the path's last dot marks a real extension: it must not lead
/// the path or a path component (a name that starts with a dot has no
/// extension), and it must sit inside the final component.
pub open spec fn spec_ext_valid(s: Seq<char>) -> bool {
    let d = spec_last_dot(s);
    &&& d > 0
    &&& s[d - 1] != '/'
    &&& forall|j: int| d < j < s.len() ==> s[j] != '/'
}

pub open spec fn spec_lower_char(c: char) -> char {
    if ('A' as u32) <= (c as u32) && (c as u32) <= ('Z' as u32) {
        ((c as u8) + 32) as char
    } else {
        c
    }
}

pub open spec fn spec_lower(s: Seq<char>) -> Seq<char> {
    s.map_values(|c: char| spec_lower_char(c))
}

pub open spec fn spec_is_image_ext(e: Seq<char>) -> bool {
    ||| e == seq!['j', 'p', 'g']
    ||| e == seq!['j', 'p', 'e', 'g']
    ||| e == seq!['p', 'n', 'g']
    ||| e == seq!['t', 'i', 'f', 'f']
    ||| e == seq!['b', 'm', 'p']
    ||| e == seq!['w', 'e', 'b', 'p']
}

pub open spec fn spec_is_audio_ext(e: Seq<char>) -> bool {
    ||| e == seq!['m', 'p', '3']
    ||| e == seq!['w', 'a', 'v']
    ||| e == seq!['o', 'g', 'g']
    ||| e == seq!['f', 'l', 'a', 'c']
}

pub open spec fn spec_is_video_ext(e: Seq<char>) -> bool {
    ||| e == seq!['m', 'p', '4']
    ||| e == seq!['m', 'o', 'v']
    ||| e == seq!['w', 'm', 'v']
    ||| e == seq!['a', 'v', 'i']
    ||| e == seq!['w', 'e', 'b', 'm']
    ||| e == seq!['g', 'i', 'f']
    ||| e == seq!['m', 'k', 'v']
    ||| e == seq!['m', '4', 'v']
}

/// The media kind a path's extension names, compared in lower case.
pub open spec fn spec_media_kind(path: Seq<char>) -> Option<MediaKind> {
    if !spec_ext_valid(path) {
        Option::None
    } else {
        let e = spec_lower(spec_extension(path));
        if spec_is_image_ext(e) {
            Option::Some(MediaKind::Image)
        } else if spec_is_audio_ext(e) {
            Option::Some(MediaKind::Audio)
        } else if spec_is_video_ext(e) {
            Option::Some(MediaKind::Video)
        } else {
            Option::None
        }
    }
}

fn find_last_dot(path: &str) -> (r: Option<usize>)
    ensures
        r matches Some(i) ==> spec_last_dot(path@) == i as int && (i as int) < path@.len(),
        r is None ==> spec_last_dot(path@) < 0,
{
    let n = path.unicode_len();
    let mut i: usize = n;
    proof {
        assert(path@.take(n as int) =~= path@);
    }
    while i > 0
        invariant
            i <= n,
            n == path@.len(),
            spec_last_dot(path@) == spec_last_dot(path@.take(i as int)),
        decreases i,
    {
        let c = path.get_char(i - 1);
        if c == '.' {
            return Option::Some(i - 1);
        }
        proof {
            assert(path@.take(i as int).drop_last() =~= path@.take(i as int - 1));
        }
        i -= 1;
    }
    Option::None
}

fn lower_char(c: char) -> (r: char)
    ensures
        r == spec_lower_char(c),
{
    let u = c as u32;
    if 65 <= u && u <= 90 {
        ((c as u8) + 32) as char
    } else {
        c
    }
}

fn lower_chars(s: &str) -> (r: Vec<char>)
    ensures
        r@ == spec_lower(s@),
{
    let n = s.unicode_len();
    let mut out: Vec<char> = Vec::new();
    let mut i: usize = 0;
    while i < n
        invariant
            i <= n,
            n == s@.len(),
            out@.len() == i,
            forall|j: int| 0 <= j < i ==> out@[j] == spec_lower_char(s@[j]),
        decreases n - i,
    {
        let c = s.get_char(i);
        out.push(lower_char(c));
        i += 1;
    }
    proof {
        assert(out@ =~= spec_lower(s@));
    }
    out
}

fn chars_eq(a: &Vec<char>, b: &Vec<char>) -> (r: bool)
    ensures
        r == (a@ == b@),
{
    if a.len() != b.len() {
        return false;
    }
    let mut i: usize = 0;
    while i < a.len()
        invariant
            i <= a@.len(),
            a@.len() == b@.len(),
            forall|j: int| 0 <= j < i ==> a@[j] == b@[j],
        decreases a@.len() - i,
    {
        if a[i] != b[i] {
            return false;
        }
        i += 1;
    }
    proof {
        assert(a@ =~= b@);
    }
    true
}

/// The kind of media a path names, told by its extension alone, compared
/// in lower case; a path without a dot, or with an extension outside the
/// known set, is rejected.
pub fn media_kind(path: &str) -> (r: Result<MediaKind, EditorError>)
    ensures
        r matches Ok(k) ==> spec_media_kind(path@) == Option::Some(k),
        r is Err <==> spec_media_kind(path@) is None,
{
    let dot = match find_last_dot(path) {
        Option::None => {
            return Result::Err(EditorError::FormatFailure { context: path.to_owned() });
        },
        Option::Some(d) => d,
    };
    let n = path.unicode_len();
    if dot == 0 || path.get_char(dot - 1) == '/' {
        return Result::Err(EditorError::FormatFailure { context: path.to_owned() });
    }
    let mut j: usize = dot + 1;
    while j < n
        invariant
            dot < j <= n,
            n == path@.len(),
            dot as int == spec_last_dot(path@),
            0 < dot,
            path@[dot as int - 1] != '/',
            forall|k: int| dot < k < j ==> path@[k] != '/',
        decreases n - j,
    {
        if path.get_char(j) == '/' {
            return Result::Err(EditorError::FormatFailure { context: path.to_owned() });
        }
        j += 1;
    }
    let ext = path.substring_char(dot + 1, n);
    let low = lower_chars(ext);
    if chars_eq(&low, &vec!['j', 'p', 'g']) || chars_eq(&low, &vec!['j', 'p', 'e', 'g'])
        || chars_eq(&low, &vec!['p', 'n', 'g']) || chars_eq(&low, &vec!['t', 'i', 'f', 'f'])
        || chars_eq(&low, &vec!['b', 'm', 'p']) || chars_eq(&low, &vec!['w', 'e', 'b', 'p']) {
        Result::Ok(MediaKind::Image)
    } else if chars_eq(&low, &vec!['m', 'p', '3']) || chars_eq(&low, &vec!['w', 'a', 'v'])
        || chars_eq(&low, &vec!['o', 'g', 'g']) || chars_eq(&low, &vec!['f', 'l', 'a', 'c']) {
        Result::Ok(MediaKind::Audio)
    } else if chars_eq(&low, &vec!['m', 'p', '4']) || chars_eq(&low, &vec!['m', 'o', 'v'])
        || chars_eq(&low, &vec!['w', 'm', 'v']) || chars_eq(&low, &vec!['a', 'v', 'i'])
        || chars_eq(&low, &vec!['w', 'e', 'b', 'm']) || chars_eq(&low, &vec!['g', 'i', 'f'])
        || chars_eq(&low, &vec!['m', 'k', 'v']) || chars_eq(&low, &vec!['m', '4', 'v']) {
        Result::Ok(MediaKind::Video)
    } else {
        Result::Err(EditorError::FormatFailure { context: path.to_owned() })
    }
}

/// The position of the last path separator, or a negative value if there
/// is none.
pub open spec fn spec_last_slash(s: Seq<char>) -> int
    decreases s.len(),
{
    if s.len() == 0 {
        -1
    } else if s.last() == '/' {
        s.len() - 1
    } else {
        spec_last_slash(s.drop_last())
    }
}

/// The cache key a source path yields: its final path component, cut at
/// that component's first dot.
pub open spec fn spec_cache_stem(s: Seq<char>) -> Seq<char> {
    let name = s.subrange(spec_last_slash(s) + 1, s.len() as int);
    name.take(spec_field_dot(name))
}

fn find_last_slash(path: &str) -> (r: Option<usize>)
    ensures
        r matches Some(i) ==> spec_last_slash(path@) == i as int && (i as int) < path@.len(),
        r is None ==> spec_last_slash(path@) == -1,
{
    let n = path.unicode_len();
    let mut i: usize = n;
    proof {
        assert(path@.take(n as int) =~= path@);
    }
    while i > 0
        invariant
            i <= n,
            n == path@.len(),
            spec_last_slash(path@) == spec_last_slash(path@.take(i as int)),
        decreases i,
    {
        let c = path.get_char(i - 1);
        if c == '/' {
            return Option::Some(i - 1);
        }
        proof {
            assert(path@.take(i as int).drop_last() =~= path@.take(i as int - 1));
        }
        i -= 1;
    }
    Option::None
}

/// The name a video's cache directory gets: the path's final component up
/// to that component's first dot.
pub fn cache_stem(path: &str) -> (r: String)
    ensures
        r@ == spec_cache_stem(path@),
{
    let n = path.unicode_len();
    let start: usize = match find_last_slash(path) {
        Option::None => 0,
        Option::Some(i) => i + 1,
    };
    let name = path.substring_char(start, n);
    proof {
        assert(name@ =~= path@.subrange(spec_last_slash(path@) + 1, path@.len() as int));
    }
    let d = find_dot(name);
    let stem = name.substring_char(0, d);
    proof {
        assert(stem@ =~= spec_cache_stem(path@));
    }
    stem.to_owned()
}

/// Metadata of video
#[derive(Debug, Clone, Copy)]
pub struct VideoMeta {
    pub width: u32,
    pub height: u32,
    pub duration_ms: u64,
    pub frames: usize,
}

/// Video source: a cache directory holding a numbered frame sequence, an
/// extracted audio track if the container had one, and the video's
/// metadata.
#[derive(Debug, Clone)]
pub struct Video {
    pub path: String,
    pub audio: bool,
    pub meta: VideoMeta,
}

/// The rule a decoded image must pass before it enters the pipeline: the
/// frame is admitted exactly when its dimensions fit the size cap, and a
/// rejection is a decode failure carrying the given context.
fn admit_decoded(frame: Frame, context: String) -> (r: Result<Frame, EditorError>)
    ensures
        frame.wf() <==> r is Ok,
        r matches Ok(f) ==> f == frame,
        r matches Err(e) ==> e matches EditorError::DecodeFailure { context: c } && c == context,
{
    if frame.width() <= MAX_DIM && frame.height() <= MAX_DIM {
        Result::Ok(frame)
    } else {
        Result::Err(EditorError::DecodeFailure { context })
    }
}

impl Video {
    /// Load frame as image from the cache, by frame index: the cached file
    /// under the index-derived name, admitted by the size rule. A missing,
    /// undecodable or oversized file is a decode failure naming that file.
    pub fn frame(&self, index: usize) -> (r: Result<Frame, EditorError>)
        requires
            index < usize::MAX,
        ensures
            r matches Ok(f) ==> f.wf(),
            r matches Err(e) ==> e matches EditorError::DecodeFailure { context: c } && c@
                == self.path@ + "/frames/"@ + spec_frame_filename(index as int),
    {
        let name = frame_filename(index);
        let mut p = self.path.clone();
        p.append("/frames/");
        p.append(name.as_str());
        match load_image_file(p.as_str()) {
            Result::Err(_) => Result::Err(EditorError::DecodeFailure { context: p }),
            Result::Ok(f) => admit_decoded(f, p),
        }
    }

    /// The path of this video's extracted audio track, if it has one.
    pub fn audio(&self) -> (r: Option<String>)
        ensures
            r is Some <==> self.audio,
            r matches Some(p) ==> p@ == self.path@ + "/audio.mp3"@,
    {
        if self.audio {
            let mut p = self.path.clone();
            p.append("/audio.mp3");
            Option::Some(p)
        } else {
            Option::None
        }
    }
}

/// Image source
#[derive(Debug, Clone)]
pub struct Image {
    pub path: String,
}

impl Image {
    pub fn new(path: String) -> (r: Image)
        ensures
            r.path == path,
    {
        Image { path }
    }

    /// Load this image, admitted by the size rule; a failure is a decode
    /// failure naming the image's path.
    pub fn load(&self) -> (r: Result<Frame, EditorError>)
        ensures
            r matches Ok(f) ==> f.wf(),
            r matches Err(e) ==> e matches EditorError::DecodeFailure { context: c } && c@
                == self.path@,
    {
        match load_image_file(self.path.as_str()) {
            Result::Err(_) => Result::Err(
                EditorError::DecodeFailure { context: self.path.clone() },
            ),
            Result::Ok(f) => admit_decoded(f, self.path.clone()),
        }
    }
}

/// Audio source: a path and the duration a collaborator decoded for it.
#[derive(Debug, Clone)]
pub struct Audio {
    pub path: String,
    pub duration_ms: u64,
}

impl Audio {
    /// Create new audio source; the duration comes from the collaborator
    /// that decoded the file.
    pub fn new(path: String, duration_ms: u64) -> (r: Audio)
        ensures
            r.path == path,
            r.duration_ms == duration_ms,
    {
        Audio { path, duration_ms }
    }

    /// Get audio duration
    pub fn duration(&self) -> (r: u64)
        ensures
            r == self.duration_ms,
    {
        self.duration_ms
    }
}

/// Still image layer: the same frame at every offset, no audio.
pub struct ImageLayer {
    image: Frame,
    duration_ms: u64,
}

impl ImageLayer {
    #[verifier::type_invariant]
    spec fn inv(&self) -> bool {
        self.image.wf()
    }

    /// The still image the layer shows.
    pub closed spec fn spec_image(&self) -> Frame {
        self.image
    }

    /// Create new imagelayer
    pub fn new(image: &Image, duration_ms: u64) -> (r: Result<ImageLayer, EditorError>)
    {
        let frame = image.load()?;
        Result::Ok(ImageLayer { image: frame, duration_ms })
    }
}

impl LayerData for ImageLayer {
    fn duration(&self) -> (r: u64) {
        self.duration_ms
    }

    /// The same still image at every offset, never an error.
    fn frame(&self, offset_ms: u64) -> (r: Result<Option<Frame>, EditorError>)
        ensures
            r matches Ok(o) && o matches Some(f) && f == self.spec_image(),
    {
        proof {
            use_type_invariant(self);
        }
        Result::Ok(Option::Some(self.image.duplicate()))
    }

    /// A still image has no audio.
    fn audio(&self, request: &AudioRequest) -> (r: Result<Option<AudioData>, EditorError>)
        ensures
            r matches Ok(o) && o is None,
    {
        Result::Ok(Option::None)
    }
}

/// Video layer: frames come from the cache directory by index; the audio
/// track needs a decoding collaborator, so the core reports the capability
/// as missing and an adapter outside supplies it.
pub struct VideoLayer {
    pub video: Video,
}

/// The zero-based cached frame index a source offset falls on: the offset
/// over the duration, as a fraction of the frame count, truncated; zero
/// for a zero duration, and saturated below the index range.
pub open spec fn spec_video_frame_index(offset_ms: int, frames: int, duration_ms: int) -> int {
    let raw = if duration_ms == 0 {
        0
    } else {
        offset_ms * frames / duration_ms
    };
    if raw >= usize::MAX as int {
        usize::MAX as int - 1
    } else {
        raw
    }
}

impl VideoLayer {
    /// Create new video layer
    pub fn new(video: Video) -> (r: VideoLayer)
        ensures
            r.video == video,
    {
        VideoLayer { video }
    }

    /// The cached frame index sampled at a source offset.
    pub fn frame_index(&self, offset_ms: u64) -> (r: usize)
        ensures
            r as int == spec_video_frame_index(
                offset_ms as int,
                self.video.meta.frames as int,
                self.video.meta.duration_ms as int,
            ),
            r < usize::MAX,
    {
        let idx128: u128 = if self.video.meta.duration_ms == 0 {
            0
        } else {
            proof {
                assert(0 <= (offset_ms as int) * (self.video.meta.frames as int)
                    < 0x1_0000_0000_0000_0000_0000_0000_0000_0000int) by (nonlinear_arith)
                    requires
                        0 <= offset_ms <= 0xFFFF_FFFF_FFFF_FFFFu64,
                        0 <= self.video.meta.frames as int <= 0xFFFF_FFFF_FFFF_FFFFint,
                ;
            }
            (offset_ms as u128) * (self.video.meta.frames as u128) / (
            self.video.meta.duration_ms as u128)
        };
        if idx128 >= usize::MAX as u128 {
            usize::MAX - 1
        } else {
            idx128 as usize
        }
    }
}

impl LayerData for VideoLayer {
    fn duration(&self) -> (r: u64) {
        self.video.meta.duration_ms
    }

    /// The cached frame at [`spec_video_frame_index`]; a missing or bad
    /// cache entry propagates as the decode failure naming it.
    fn frame(&self, offset_ms: u64) -> (r: Result<Option<Frame>, EditorError>)
        ensures
            r matches Err(e) ==> e is DecodeFailure,
    {
        let idx = self.frame_index(offset_ms);
        match self.video.frame(idx) {
            Result::Ok(f) => Result::Ok(Option::Some(f)),
            Result::Err(e) => Result::Err(e),
        }
    }

    /// The track exists on disk but decoding it needs a collaborator, so
    /// the capability is reported missing here; an adapter outside the
    /// core supplies the decoded stream.
    fn audio(&self, request: &AudioRequest) -> (r: Result<Option<AudioData>, EditorError>)
        ensures
            !self.video.audio ==> (r matches Ok(o) && o is None),
            self.video.audio ==> (r matches Err(e) && e is MissingCapability),
    {
        if self.video.audio {
            Result::Err(EditorError::MissingCapability { context: self.video.path.clone() })
        } else {
            Result::Ok(Option::None)
        }
    }
}

/// Audio layer: no frames; the stream itself needs a decoding
/// collaborator, so the core reports the capability as missing and an
/// adapter outside supplies it.
pub struct AudioLayer {
    pub audio: Audio,
}

impl AudioLayer {
    /// Create new audio layer
    pub fn new(audio: Audio) -> (r: AudioLayer)
        ensures
            r.audio == audio,
    {
        AudioLayer { audio }
    }
}

impl LayerData for AudioLayer {
    fn duration(&self) -> (r: u64) {
        self.audio.duration_ms
    }

    /// An audio-only source never shows a frame.
    fn frame(&self, offset_ms: u64) -> (r: Result<Option<Frame>, EditorError>)
        ensures
            r matches Ok(o) && o is None,
    {
        Result::Ok(Option::None)
    }

    /// Decoding the stream needs a collaborator, so the capability is
    /// reported missing here; an adapter outside the core supplies it.
    fn audio(&self, request: &AudioRequest) -> (r: Result<Option<AudioData>, EditorError>)
        ensures
            r matches Err(e) && e is MissingCapability,
    {
        Result::Err(EditorError::MissingCapability { context: self.audio.path.clone() })
    }
}

/// One of media sources
#[derive(Debug, Clone)]
pub enum MediaSource {
    Video(Video),
    Audio(Audio),
    Image(Image),
}

impl MediaSource {
    /// Get layer data; a still image runs for the given duration. The
    /// video and audio layers built here report their audio capability as
    /// missing, since decoding needs a collaborator: a timeline that is to
    /// carry sound from these sources must use an adapter that supplies
    /// the decoded stream.
    pub fn layer_data_with_image_duration(self, duration_ms: u64) -> (r: Result<
        Box<dyn LayerData>,
        EditorError,
    >)
        ensures
            !(self is Image) ==> r is Ok,
    {
        match self {
            MediaSource::Video(v) => Result::Ok(Box::new(VideoLayer::new(v))),
            MediaSource::Audio(a) => Result::Ok(Box::new(AudioLayer::new(a))),
            MediaSource::Image(i) => {
                let layer = ImageLayer::new(&i, duration_ms)?;
                Result::Ok(Box::new(layer))
            },
        }
    }

    /// Get layer data with default image duration
    pub fn layer_data(self) -> (r: Result<Box<dyn LayerData>, EditorError>)
        ensures
            !(self is Image) ==> r is Ok,
    {
        self.layer_data_with_image_duration(5000)
    }
}

} // verus!
