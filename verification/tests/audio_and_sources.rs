use image::GenericImage;
use image::GenericImageView;

use videoeditor::editor::{
    AudioData, AudioRequest, Editor, EditorError, Effect, Layer, LayerData, Transform,
};
use videoeditor::ffmpeg::FFmpeg;
use videoeditor::imgops::Frame;
use videoeditor::renderer::{frame_filename, mix_streams, Renderer};
use videoeditor::source::{
    cache_stem, media_kind, Audio, AudioLayer, Image, ImageLayer, MediaKind, MediaSource, Video,
    VideoMeta,
};

fn solid_frame(width: u32, height: u32, rgb: [u8; 3]) -> Frame {
    let mut img = image::DynamicImage::new_rgb8(width, height);
    for x in 0..width {
        for y in 0..height {
            img.put_pixel(x, y, image::Rgba([rgb[0], rgb[1], rgb[2], 255]));
        }
    }
    Frame::from_image(img)
}

/// A source that shows one solid colour for its whole duration and has no
/// audio.
struct SolidSource {
    width: u32,
    height: u32,
    rgb: [u8; 3],
    duration_ms: u64,
}

impl LayerData for SolidSource {
    fn duration(&self) -> u64 {
        self.duration_ms
    }

    fn frame(&self, _offset_ms: u64) -> Result<Option<Frame>, EditorError> {
        Ok(Some(solid_frame(self.width, self.height, self.rgb)))
    }

    fn audio(&self, _request: &AudioRequest) -> Result<Option<AudioData>, EditorError> {
        Ok(None)
    }
}

/// A source that emits a constant sample value and shows no frames.
struct ToneSource {
    value: i32,
    samples: usize,
    duration_ms: u64,
}

impl LayerData for ToneSource {
    fn duration(&self) -> u64 {
        self.duration_ms
    }

    fn frame(&self, _offset_ms: u64) -> Result<Option<Frame>, EditorError> {
        Ok(None)
    }

    fn audio(&self, _request: &AudioRequest) -> Result<Option<AudioData>, EditorError> {
        Ok(Some(AudioData::new(vec![self.value; self.samples])))
    }
}

#[test]
fn audio_gain_halves_every_sample() {
    let audio = AudioData::new(vec![300, -301, 999, 1, 0]);
    let out = Effect::AudioGain { gain: 500 }.apply_audio_effect(audio);
    assert_eq!(out.samples, vec![150, -150, 499, 0, 0]);
}

#[test]
fn audio_gain_chain_equals_quarter() {
    let samples: Vec<i32> = vec![1000, 999, -999, 3, -3, 0, 123456, -123457];
    let chained = Effect::AudioGain { gain: 500 }.apply_audio_effect(
        Effect::AudioGain { gain: 500 }.apply_audio_effect(AudioData::new(samples.clone())),
    );
    let single = Effect::AudioGain { gain: 250 }.apply_audio_effect(AudioData::new(samples));
    assert_eq!(chained.samples, single.samples);
}

#[test]
fn mix_sums_overlap_and_passes_solo() {
    // one stream worth 0.3 from the origin, one worth 0.2 from one
    // millisecond in: the overlapping tick carries 0.5
    let streams = vec![
        (0u64, AudioData::new(vec![300, 300])),
        (1u64, AudioData::new(vec![200, 200, 200])),
    ];
    let out = mix_streams(&streams, 3, 1000, 1);
    assert_eq!(out, vec![300, 500, 200, 200]);
}

#[test]
fn mix_without_streams_is_silence() {
    let out = mix_streams(&vec![], 1, 8, 2);
    assert_eq!(out, vec![0, 0]);
}

#[test]
fn mix_interleaves_channels() {
    let streams = vec![(0u64, AudioData::new(vec![100, 200, 300, 400]))];
    let out = mix_streams(&streams, 1, 1000, 2);
    assert_eq!(out, vec![100, 200, 300, 400]);
}

#[test]
fn render_audio_sums_layers() {
    let editor = Editor::new(640, 360, 2, 25000)
        .layer(Layer::new(
            Box::new(ToneSource { value: 300, samples: 4, duration_ms: 2 }),
            0,
            Transform::px(0, 0),
        ))
        .layer(Layer::new(
            Box::new(ToneSource { value: 200, samples: 4, duration_ms: 2 }),
            0,
            Transform::px(0, 0),
        ));
    let renderer = Renderer::new(editor);
    let out = renderer.render_audio(1000, 1).unwrap();
    assert_eq!(out, vec![500, 500, 500]);
}

#[test]
fn render_audio_applies_gain_chain() {
    let editor = Editor::new(640, 360, 2, 25000).layer(
        Layer::new(
            Box::new(ToneSource { value: 1000, samples: 4, duration_ms: 2 }),
            0,
            Transform::px(0, 0),
        )
        .effect(Effect::AudioGain { gain: 500 })
        .effect(Effect::AudioGain { gain: 500 }),
    );
    let renderer = Renderer::new(editor);
    let out = renderer.render_audio(1000, 1).unwrap();
    assert_eq!(out, vec![250, 250, 250]);
}

#[test]
fn layer_contributes_only_inside_window() {
    // a one-second blue card on a three-second timeline at one frame per
    // second: the frame sampled after the window stays black
    let editor = Editor::new(640, 360, 3000, 1000).layer(Layer::new(
        Box::new(SolidSource { width: 100, height: 50, rgb: [0, 0, 255], duration_ms: 1000 }),
        0,
        Transform::px(0, 0),
    ));
    let renderer = Renderer::new(editor);
    for (index, expected) in [(0usize, 255u8), (1, 255), (2, 0)] {
        match renderer.render_frame(index) {
            Ok(Some(f)) => {
                assert_eq!(f.buffer().get_pixel(0, 0).0[2], expected);
            },
            _ => panic!("expected a frame"),
        }
    }
}

#[test]
fn rendering_twice_is_byte_identical() {
    let editor = Editor::new(320, 180, 1000, 1000).layer(
        Layer::new(
            Box::new(SolidSource { width: 100, height: 50, rgb: [40, 80, 120], duration_ms: 1000 }),
            0,
            Transform::percent(250, 250),
        )
        .effect(Effect::Scale { x: 1500, y: 1500 })
        .effect(Effect::Rotate { angle: 785, uncropped: true }),
    );
    let renderer = Renderer::new(editor);
    let first = match renderer.render_frame(0) {
        Ok(Some(f)) => f,
        _ => panic!("expected a frame"),
    };
    let second = match renderer.render_frame(0) {
        Ok(Some(f)) => f,
        _ => panic!("expected a frame"),
    };
    assert!(first.buffer() == second.buffer());
}

#[test]
fn solid_scenario_renders_fifty_full_frames() {
    // 640x360, 25 fps, 2 seconds, one solid red layer scaled to the base:
    // exactly 50 frames, each full-canvas, each solid red
    let editor = Editor::new(640, 360, 2000, 25000).layer(
        Layer::new(
            Box::new(SolidSource { width: 100, height: 50, rgb: [255, 0, 0], duration_ms: 2000 }),
            0,
            Transform::px(0, 0),
        )
        .effect(Effect::ScaleToBase { force: true }),
    );
    let renderer = Renderer::new(editor);
    assert_eq!(renderer.frame_count(), 50);
    for index in 0..50usize {
        let frame = match renderer.render_frame(index) {
            Ok(Some(f)) => f,
            _ => panic!("expected a frame"),
        };
        assert_eq!((frame.width(), frame.height()), (640, 360));
        for (x, y) in [(0u32, 0u32), (320, 180), (639, 359)] {
            assert_eq!(frame.buffer().get_pixel(x, y).0, [255, 0, 0, 255]);
        }
    }
    assert!(matches!(renderer.render_frame(50), Ok(None)));
}

#[test]
fn media_kind_by_extension() {
    assert_eq!(media_kind("clip.mp4").unwrap(), MediaKind::Video);
    assert_eq!(media_kind("IMG.JPG").unwrap(), MediaKind::Image);
    assert_eq!(media_kind("song.flac").unwrap(), MediaKind::Audio);
    assert_eq!(media_kind("weird.Mp3").unwrap(), MediaKind::Audio);
    assert_eq!(media_kind("archive.tar.gif").unwrap(), MediaKind::Video);
    assert!(matches!(media_kind("noext"), Err(EditorError::FormatFailure { .. })));
    assert!(matches!(media_kind("file.xyz"), Err(EditorError::FormatFailure { .. })));
}

#[test]
fn parse_video_meta_reads_fields() {
    let meta = FFmpeg::parse_video_meta("640,360,10.533,253\n").unwrap();
    assert_eq!(meta.width, 640);
    assert_eq!(meta.height, 360);
    assert_eq!(meta.duration_ms, 10533);
    assert_eq!(meta.frames, 253);
    let short = FFmpeg::parse_video_meta(" 1920,1080,2,50 ").unwrap();
    assert_eq!(short.duration_ms, 2000);
    let extra = FFmpeg::parse_video_meta("1,2,3.5,4,extra").unwrap();
    assert_eq!(extra.duration_ms, 3500);
    assert_eq!(extra.frames, 4);
}

#[test]
fn parse_video_meta_rejects_malformed() {
    assert!(matches!(
        FFmpeg::parse_video_meta("640,360"),
        Err(EditorError::FormatFailure { .. })
    ));
    assert!(matches!(
        FFmpeg::parse_video_meta("a,b,c,d"),
        Err(EditorError::FormatFailure { .. })
    ));
    assert!(matches!(FFmpeg::parse_video_meta(""), Err(EditorError::FormatFailure { .. })));
}

#[test]
fn ffmpeg_paths() {
    let custom = FFmpeg::new("/opt/bin/ffmpeg", "/opt/bin/ffprobe");
    assert_eq!(custom.ffmpeg, "/opt/bin/ffmpeg");
    assert_eq!(custom.ffprobe, "/opt/bin/ffprobe");
    let default = FFmpeg::default();
    assert_eq!(default.ffmpeg, "ffmpeg");
    assert_eq!(default.ffprobe, "ffprobe");
}

#[test]
fn frame_filename_is_padded_and_one_based() {
    assert_eq!(frame_filename(0), "000001.png");
    assert_eq!(frame_filename(41), "000042.png");
    assert_eq!(frame_filename(999999), "1000000.png");
}

#[test]
fn video_frame_missing_cache_fails_decode() {
    let video = Video {
        path: "/nonexistent-cache".to_string(),
        audio: false,
        meta: VideoMeta { width: 640, height: 360, duration_ms: 1000, frames: 10 },
    };
    assert!(matches!(video.frame(0), Err(EditorError::DecodeFailure { .. })));
}

#[test]
fn video_audio_track_path() {
    let mut video = Video {
        path: "/cache/movie".to_string(),
        audio: true,
        meta: VideoMeta { width: 1, height: 1, duration_ms: 1, frames: 1 },
    };
    assert_eq!(video.audio().unwrap(), "/cache/movie/audio.mp3");
    video.audio = false;
    assert!(video.audio().is_none());
}

#[test]
fn image_load_missing_fails_decode() {
    let image = Image::new("/nonexistent.png".to_string());
    assert!(matches!(image.load(), Err(EditorError::DecodeFailure { .. })));
}

#[test]
fn audio_source_reports_duration() {
    let audio = Audio::new("x.mp3".to_string(), 1234);
    assert_eq!(audio.duration(), 1234);
    let layer = AudioLayer::new(audio);
    assert_eq!(layer.duration(), 1234);
    assert!(matches!(layer.frame(0), Ok(None)));
    let request = AudioRequest { speed_milli: 1000, sample_rate: 44100, channels: 2 };
    assert!(matches!(layer.audio(&request), Err(EditorError::MissingCapability { .. })));
}

#[test]
fn layer_builders_set_fields() {
    let layer = Layer::new(
        Box::new(ToneSource { value: 1, samples: 1, duration_ms: 777 }),
        42,
        Transform::percent(500, 500),
    );
    assert_eq!(layer.duration_ms, 777);
    assert_eq!(layer.speed_milli, 1000);
    assert_eq!(layer.offset_ms, 42);
    let layer = layer.duration(888).speed(2000).effect(Effect::AudioGain { gain: 100 });
    assert_eq!(layer.duration_ms, 888);
    assert_eq!(layer.speed_milli, 2000);
    assert_eq!(layer.effects.len(), 1);
}

#[test]
fn media_kind_empty_extension_rejected() {
    assert!(matches!(media_kind("file."), Err(EditorError::FormatFailure { .. })));
    assert!(matches!(media_kind(""), Err(EditorError::FormatFailure { .. })));
}

#[test]
fn image_layer_missing_file_fails() {
    let image = Image::new("/nonexistent.png".to_string());
    assert!(matches!(ImageLayer::new(&image, 1000), Err(EditorError::DecodeFailure { .. })));
}

#[test]
fn media_source_layer_data_keeps_duration() {
    let video = Video {
        path: "/cache/clip".to_string(),
        audio: false,
        meta: VideoMeta { width: 320, height: 180, duration_ms: 4500, frames: 90 },
    };
    let data = MediaSource::Video(video).layer_data().unwrap();
    assert_eq!(data.duration(), 4500);
    let audio = MediaSource::Audio(Audio::new("a.wav".to_string(), 2500)).layer_data().unwrap();
    assert_eq!(audio.duration(), 2500);
}

/// A source whose frame lookup always fails to decode.
struct BrokenSource {
    duration_ms: u64,
}

impl LayerData for BrokenSource {
    fn duration(&self) -> u64 {
        self.duration_ms
    }

    fn frame(&self, _offset_ms: u64) -> Result<Option<Frame>, EditorError> {
        Err(EditorError::DecodeFailure { context: "broken".to_string() })
    }

    fn audio(&self, _request: &AudioRequest) -> Result<Option<AudioData>, EditorError> {
        Ok(None)
    }
}

#[test]
fn source_decode_failure_propagates() {
    let editor = Editor::new(640, 360, 1000, 1000).layer(Layer::new(
        Box::new(BrokenSource { duration_ms: 1000 }),
        0,
        Transform::px(0, 0),
    ));
    let renderer = Renderer::new(editor);
    assert!(matches!(renderer.render_frame(0), Err(EditorError::DecodeFailure { .. })));
}

#[test]
fn oversized_scale_is_rejected() {
    // a factor of one thousand on a hundred-pixel frame would break the
    // size cap: the pass aborts instead of resizing
    let editor = Editor::new(640, 360, 1000, 1000).layer(
        Layer::new(
            Box::new(SolidSource { width: 100, height: 50, rgb: [1, 1, 1], duration_ms: 1000 }),
            0,
            Transform::px(0, 0),
        )
        .effect(Effect::Scale { x: 1_000_000, y: 1000 }),
    );
    let renderer = Renderer::new(editor);
    assert!(matches!(renderer.render_frame(0), Err(EditorError::FormatFailure { .. })));
}

#[test]
fn scale_within_cap_is_exact() {
    let editor = Editor::new(640, 360, 1000, 1000).layer(
        Layer::new(
            Box::new(SolidSource { width: 100, height: 50, rgb: [1, 2, 3], duration_ms: 1000 }),
            0,
            Transform::px(0, 0),
        )
        .effect(Effect::Scale { x: 100_000, y: 1000 }),
    );
    let renderer = Renderer::new(editor);
    // 100 px times a factor of one hundred is 10000 px, inside the cap
    assert!(matches!(renderer.render_frame(0), Ok(Some(_))));
}

#[test]
fn leading_dot_is_no_extension() {
    assert!(matches!(media_kind(".png"), Err(EditorError::FormatFailure { .. })));
    assert!(matches!(media_kind("dir/.png"), Err(EditorError::FormatFailure { .. })));
    assert!(matches!(media_kind("clips.mp4/file"), Err(EditorError::FormatFailure { .. })));
    assert_eq!(media_kind("dir.old/clip.mp4").unwrap(), MediaKind::Video);
    assert_eq!(media_kind("..png").unwrap(), MediaKind::Image);
}

#[test]
fn cache_stem_takes_component_before_dot() {
    assert_eq!(cache_stem("assets/sample.m4v"), "sample");
    assert_eq!(cache_stem("clip.tar.mp4"), "clip");
    assert_eq!(cache_stem("noext"), "noext");
    assert_eq!(cache_stem("dir.old/movie.mkv"), "movie");
    assert_eq!(cache_stem("dir/"), "");
}
