//! The transcoder boundary. Running the external tools is collaborator
//! work outside the core; the core holds their configuration and the
//! verified parsing of the probe's metadata output.

use vstd::prelude::*;
use vstd::string::StrSliceExecFns;

use crate::editor::EditorError;
use crate::source::VideoMeta;

verus! {

/// Paths of the external transcoder binaries.
#[derive(Debug, Clone)]
pub struct FFmpeg {
    pub ffmpeg: String,
    pub ffprobe: String,
}

impl FFmpeg {
    /// Create new instance with custom ffmpeg & ffprobe binary paths
    pub fn new(ffmpeg_bin: &str, ffprobe_bin: &str) -> (r: FFmpeg)
        ensures
            r.ffmpeg@ == ffmpeg_bin@,
            r.ffprobe@ == ffprobe_bin@,
    {
        FFmpeg { ffmpeg: ffmpeg_bin.to_owned(), ffprobe: ffprobe_bin.to_owned() }
    }
}

impl Default for FFmpeg {
    fn default() -> (r: FFmpeg)
        ensures
            r.ffmpeg@ == "ffmpeg"@,
            r.ffprobe@ == "ffprobe"@,
    {
        FFmpeg { ffmpeg: "ffmpeg".to_owned(), ffprobe: "ffprobe".to_owned() }
    }
}

pub open spec fn spec_is_ws(c: char) -> bool {
    c == ' ' || c == '\t' || c == '\n' || c == '\r'
}

pub open spec fn spec_trim_start(s: Seq<char>) -> Seq<char>
    decreases s.len(),
{
    if s.len() > 0 && spec_is_ws(s.first()) {
        spec_trim_start(s.drop_first())
    } else {
        s
    }
}

pub open spec fn spec_trim_end(s: Seq<char>) -> Seq<char>
    decreases s.len(),
{
    if s.len() > 0 && spec_is_ws(s.last()) {
        spec_trim_end(s.drop_last())
    } else {
        s
    }
}

/// The string with its leading and trailing ASCII whitespace removed.
pub open spec fn spec_trim(s: Seq<char>) -> Seq<char> {
    spec_trim_end(spec_trim_start(s))
}

pub open spec fn spec_is_digit(c: char) -> bool {
    ('0' as u32) <= (c as u32) && (c as u32) <= ('9' as u32)
}

pub open spec fn spec_all_digits(s: Seq<char>) -> bool {
    s.len() > 0 && forall|i: int| 0 <= i < s.len() ==> spec_is_digit(s[i])
}

/// The number a string of decimal digits denotes.
pub open spec fn spec_digits_value(s: Seq<char>) -> int
    decreases s.len(),
{
    if s.len() == 0 {
        0
    } else {
        spec_digits_value(s.drop_last()) * 10 + ((s.last() as u32) - ('0' as u32))
    }
}

/// The position of the first comma at or after `start`, or the length.
pub open spec fn spec_field_end(s: Seq<char>, start: int) -> int
    decreases s.len() - start,
{
    if start < 0 || start >= s.len() {
        s.len() as int
    } else if s[start] == ',' {
        start
    } else {
        spec_field_end(s, start + 1)
    }
}

proof fn lemma_digits_value_nonneg(s: Seq<char>)
    requires
        forall|i: int| 0 <= i < s.len() ==> spec_is_digit(s[i]),
    ensures
        spec_digits_value(s) >= 0,
    decreases s.len(),
{
    if s.len() > 0 {
        lemma_digits_value_nonneg(s.drop_last());
    }
}

proof fn lemma_digits_value_prefix(s: Seq<char>, i: int)
    requires
        0 <= i <= s.len(),
        forall|j: int| 0 <= j < s.len() ==> spec_is_digit(s[j]),
    ensures
        spec_digits_value(s.take(i)) <= spec_digits_value(s),
    decreases s.len() - i,
{
    if i < s.len() {
        lemma_digits_value_prefix(s, i + 1);
        assert(s.take(i + 1).drop_last() =~= s.take(i));
        lemma_digits_value_nonneg(s.take(i));
        assert(spec_digits_value(s.take(i + 1)) == spec_digits_value(s.take(i)) * 10 + ((s.take(
            i + 1,
        ).last() as u32) - ('0' as u32)));
        assert(spec_digits_value(s.take(i)) * 10 >= spec_digits_value(s.take(i)))
            by (nonlinear_arith)
            requires
                spec_digits_value(s.take(i)) >= 0,
        ;
    } else {
        assert(s.take(i) =~= s);
    }
}

/// Parses a non-empty string of decimal digits; anything else, or a value
/// beyond the range, is rejected.
fn parse_digits(s: &str) -> (r: Option<u64>)
    ensures
        r matches Some(v) ==> spec_all_digits(s@) && v as int == spec_digits_value(s@),
        r is Some <==> spec_all_digits(s@) && spec_digits_value(s@) <= u64::MAX as int,
{
    let n = s.unicode_len();
    if n == 0 {
        return Option::None;
    }
    let mut acc: u64 = 0;
    let mut i: usize = 0;
    while i < n
        invariant
            i <= n,
            n == s@.len(),
            n > 0,
            acc as int == spec_digits_value(s@.take(i as int)),
            forall|j: int| 0 <= j < i ==> spec_is_digit(s@[j]),
        decreases n - i,
    {
        let c = s.get_char(i);
        let u = c as u32;
        if u < 48 || u > 57 {
            return Option::None;
        }
        let d: u64 = (u - 48) as u64;
        proof {
            assert(s@.take(i as int + 1).drop_last() =~= s@.take(i as int));
        }
        if acc > (u64::MAX - d) / 10 {
            proof {
                if spec_all_digits(s@) {
                    lemma_digits_value_prefix(s@, i as int + 1);
                }
                assert(acc * 10 + d > u64::MAX) by (nonlinear_arith)
                    requires
                        acc > (u64::MAX as int - d) / 10,
                        0 <= d <= 9,
                        acc >= 0,
                ;
            }
            return Option::None;
        }
        proof {
            assert(acc * 10 + d <= u64::MAX) by (nonlinear_arith)
                requires
                    acc <= (u64::MAX as int - d) / 10,
                    0 <= d <= 9,
                    acc >= 0,
            ;
        }
        acc = acc * 10 + d;
        i += 1;
    }
    proof {
        assert(s@.take(n as int) =~= s@);
    }
    Option::Some(acc)
}

/// The milliseconds a plain decimal string of seconds denotes: the whole
/// seconds, plus the first three fractional digits read as milliseconds.
/// At least one digit must be present on one side of the dot.
pub open spec fn spec_seconds_ms(s: Seq<char>) -> Option<int> {
    let dot = spec_field_dot(s);
    let ip = s.take(dot);
    let fp = s.skip(dot + 1);
    if dot == s.len() {
        // no dot: all digits
        if spec_all_digits(s) {
            Option::Some(spec_digits_value(s) * 1000)
        } else {
            Option::None
        }
    } else {
        if (ip.len() == 0 || spec_all_digits(ip)) && (fp.len() == 0 || spec_all_digits(fp)) && ip.len()
            + fp.len() > 0 {
            Option::Some(spec_digits_value(ip) * 1000 + spec_frac_ms(fp))
        } else {
            Option::None
        }
    }
}

/// The position of the first dot, or the length.
pub open spec fn spec_field_dot(s: Seq<char>) -> int
    decreases s.len(),
{
    if s.len() == 0 {
        0
    } else if s.first() == '.' {
        0
    } else {
        1 + spec_field_dot(s.drop_first())
    }
}

/// The first three fractional digits as milliseconds, shorter runs scaled
/// up, longer runs truncated.
pub open spec fn spec_frac_ms(fp: Seq<char>) -> int {
    if fp.len() == 0 {
        0
    } else if fp.len() == 1 {
        spec_digits_value(fp) * 100
    } else if fp.len() == 2 {
        spec_digits_value(fp) * 10
    } else {
        spec_digits_value(fp.take(3))
    }
}

pub(crate) fn find_dot(s: &str) -> (r: usize)
    ensures
        r as int == spec_field_dot(s@),
        r <= s@.len(),
{
    let n = s.unicode_len();
    let mut i: usize = 0;
    proof {
        assert(s@.skip(0) =~= s@);
        lemma_field_dot_bound(s@);
    }
    while i < n
        invariant
            i <= n,
            n == s@.len(),
            spec_field_dot(s@) == i + spec_field_dot(s@.skip(i as int)),
            spec_field_dot(s@) >= i,
        decreases n - i,
    {
        let c = s.get_char(i);
        if c == '.' {
            proof {
                assert(s@.skip(i as int).first() == '.');
            }
            return i;
        }
        proof {
            assert(s@.skip(i as int).drop_first() =~= s@.skip(i as int + 1));
            lemma_field_dot_bound(s@.skip(i as int + 1));
        }
        i += 1;
    }
    proof {
        assert(s@.skip(n as int).len() == 0);
    }
    n
}

proof fn lemma_field_dot_bound(s: Seq<char>)
    ensures
        0 <= spec_field_dot(s) <= s.len(),
    decreases s.len(),
{
    if s.len() > 0 && s.first() != '.' {
        lemma_field_dot_bound(s.drop_first());
    }
}

fn all_digits(s: &str) -> (r: bool)
    ensures
        r == spec_all_digits(s@),
{
    let n = s.unicode_len();
    if n == 0 {
        return false;
    }
    let mut i: usize = 0;
    while i < n
        invariant
            i <= n,
            n == s@.len(),
            forall|j: int| 0 <= j < i ==> spec_is_digit(s@[j]),
        decreases n - i,
    {
        let u = s.get_char(i) as u32;
        if u < 48 || u > 57 {
            return false;
        }
        i += 1;
    }
    true
}

/// Parses a decimal string of seconds into milliseconds.
fn parse_seconds_ms(s: &str) -> (r: Option<u64>)
    ensures
        r matches Some(v) ==> spec_seconds_ms(s@) == Option::Some(v as int),
        r is None ==> (spec_seconds_ms(s@) is None || (spec_seconds_ms(s@) matches Option::Some(m)
            && m > u64::MAX as int)),
{
    let n = s.unicode_len();
    let dot = find_dot(s);
    if dot == n {
        proof {
            assert(s@.take(spec_field_dot(s@)) =~= s@);
        }
        match parse_digits(s) {
            Option::None => {
                proof {
                    if spec_all_digits(s@) {
                        lemma_digits_value_nonneg(s@);
                        assert(spec_digits_value(s@) * 1000 >= spec_digits_value(s@))
                            by (nonlinear_arith)
                            requires
                                spec_digits_value(s@) >= 0,
                        ;
                    }
                }
                Option::None
            },
            Option::Some(v) => {
                if v > u64::MAX / 1000 {
                    proof {
                        assert(v * 1000 > u64::MAX) by (nonlinear_arith)
                            requires
                                v > u64::MAX as int / 1000,
                                v >= 0,
                        ;
                    }
                    Option::None
                } else {
                    proof {
                        assert(v * 1000 <= u64::MAX) by (nonlinear_arith)
                            requires
                                v <= u64::MAX as int / 1000,
                                v >= 0,
                        ;
                    }
                    Option::Some(v * 1000)
                }
            },
        }
    } else {
        let ip = s.substring_char(0, dot);
        let fp = s.substring_char(dot + 1, n);
        proof {
            assert(ip@ =~= s@.take(dot as int));
            assert(fp@ =~= s@.skip(dot as int + 1));
        }
        let ipn = ip.unicode_len();
        let fpn = fp.unicode_len();
        if ipn + fpn == 0 {
            return Option::None;
        }
        if ipn > 0 && !all_digits(ip) {
            return Option::None;
        }
        if fpn > 0 && !all_digits(fp) {
            return Option::None;
        }
        proof {
            lemma_frac_ms_range(fp@);
            lemma_digits_value_nonneg(ip@);
        }
        let iv: u64 = if ipn == 0 {
            0
        } else {
            match parse_digits(ip) {
                Option::None => {
                    // all digits, so only an out-of-range value lands here
                    proof {
                        assert(spec_digits_value(ip@) * 1000 >= spec_digits_value(ip@))
                            by (nonlinear_arith)
                            requires
                                spec_digits_value(ip@) >= 0,
                        ;
                    }
                    return Option::None;
                },
                Option::Some(v) => v,
            }
        };
        let fv: u64 = if fpn == 0 {
            0
        } else {
            let f3 = if fpn > 3 {
                fp.substring_char(0, 3)
            } else {
                fp
            };
            proof {
                if fpn > 3 {
                    assert(f3@ =~= fp@.take(3));
                    assert(forall|i: int| 0 <= i < f3@.len() ==> spec_is_digit(f3@[i]));
                } else {
                    assert(f3@ =~= fp@.take(fp@.len() as int));
                    assert(fp@.take(fp@.len() as int) =~= fp@);
                    if fpn == 3 {
                        assert(fp@.take(3) =~= fp@);
                    }
                }
                lemma_digits_value_bound(
                    f3@,
                    if f3@.len() <= 1 {
                        9int
                    } else if f3@.len() == 2 {
                        99int
                    } else {
                        999int
                    },
                );
            }
            match parse_digits(f3) {
                Option::None => {
                    return Option::None;
                },
                Option::Some(v) => {
                    if fpn == 1 {
                        v * 100
                    } else if fpn == 2 {
                        v * 10
                    } else {
                        v
                    }
                },
            }
        };
        if iv > (u64::MAX - fv) / 1000 {
            proof {
                assert(iv * 1000 + fv > u64::MAX) by (nonlinear_arith)
                    requires
                        iv > (u64::MAX as int - fv) / 1000,
                        iv >= 0,
                        0 <= fv <= 999,
                ;
            }
            return Option::None;
        }
        proof {
            assert(iv * 1000 + fv <= u64::MAX) by (nonlinear_arith)
                requires
                    iv <= (u64::MAX as int - fv) / 1000,
                    iv >= 0,
                    0 <= fv <= 999,
            ;
        }
        Option::Some(iv * 1000 + fv)
    }
}

proof fn lemma_frac_ms_range(fp: Seq<char>)
    requires
        fp.len() == 0 || spec_all_digits(fp),
    ensures
        0 <= spec_frac_ms(fp) <= 999,
{
    lemma_digits_value_nonneg(fp);
    if fp.len() == 1 {
        assert(spec_digits_value(fp) == spec_digits_value(fp.drop_last()) * 10 + ((fp.last()
            as u32) - ('0' as u32)));
        assert(fp.drop_last().len() == 0);
        assert(spec_digits_value(fp) <= 9);
    } else if fp.len() == 2 {
        lemma_digits_value_bound(fp, 99);
    } else if fp.len() >= 3 {
        lemma_digits_value_bound(fp.take(3), 999);
        lemma_digits_value_nonneg(fp.take(3));
    }
}

proof fn lemma_digits_value_bound(s: Seq<char>, bound: int)
    requires
        forall|i: int| 0 <= i < s.len() ==> spec_is_digit(s[i]),
        s.len() <= 3,
        bound == if s.len() <= 1 {
            9int
        } else if s.len() == 2 {
            99int
        } else {
            999int
        },
    ensures
        0 <= spec_digits_value(s) <= bound,
    decreases s.len(),
{
    if s.len() == 0 {
    } else {
        lemma_digits_value_bound(
            s.drop_last(),
            if s.drop_last().len() <= 1 {
                9
            } else if s.drop_last().len() == 2 {
                99
            } else {
                999
            },
        );
    }
}

/// The four leading comma-separated fields of the probe's trimmed output,
/// read as width, height, seconds and frame count. None where a field is
/// missing, malformed or out of range.
pub open spec fn spec_video_meta(out: Seq<char>) -> Option<VideoMeta> {
    let s = spec_trim(out);
    let e0 = spec_field_end(s, 0);
    let e1 = spec_field_end(s, e0 + 1);
    let e2 = spec_field_end(s, e1 + 1);
    let e3 = spec_field_end(s, e2 + 1);
    if e0 == s.len() || e1 == s.len() || e2 == s.len() {
        Option::None
    } else {
        let f0 = s.subrange(0, e0);
        let f1 = s.subrange(e0 + 1, e1);
        let f2 = s.subrange(e1 + 1, e2);
        let f3 = s.subrange(e2 + 1, e3);
        if spec_all_digits(f0) && spec_digits_value(f0) <= u32::MAX as int && spec_all_digits(f1)
            && spec_digits_value(f1) <= u32::MAX as int && (spec_seconds_ms(f2) matches
            Option::Some(ms) && ms <= u64::MAX as int) && spec_all_digits(f3) && spec_digits_value(
            f3,
        ) <= usize::MAX as int {
            Option::Some(
                VideoMeta {
                    width: spec_digits_value(f0) as u32,
                    height: spec_digits_value(f1) as u32,
                    duration_ms: (match spec_seconds_ms(f2) {
                        Option::Some(ms) => ms as u64,
                        Option::None => 0,
                    }),
                    frames: spec_digits_value(f3) as usize,
                },
            )
        } else {
            Option::None
        }
    }
}

proof fn lemma_trim_start_at(s: Seq<char>, i: int)
    requires
        0 <= i <= s.len(),
        forall|j: int| 0 <= j < i ==> spec_is_ws(s[j]),
        i == s.len() || !spec_is_ws(s[i]),
    ensures
        spec_trim_start(s) =~= s.skip(i),
    decreases i,
{
    if i == 0 {
        assert(s.skip(0) =~= s);
    } else {
        assert(spec_is_ws(s.first()));
        lemma_trim_start_at(s.drop_first(), i - 1);
        assert(s.drop_first().skip(i - 1) =~= s.skip(i));
    }
}

proof fn lemma_trim_end_at(s: Seq<char>, b: int)
    requires
        0 <= b <= s.len(),
        forall|j: int| b <= j < s.len() ==> spec_is_ws(s[j]),
        b == 0 || !spec_is_ws(s[b - 1]),
    ensures
        spec_trim_end(s) =~= s.take(b),
    decreases s.len() - b,
{
    if b == s.len() {
        assert(s.take(b) =~= s);
    } else {
        assert(spec_is_ws(s.last()));
        lemma_trim_end_at(s.drop_last(), b);
        assert(s.drop_last().take(b) =~= s.take(b));
    }
}

fn is_ws_char(c: char) -> (r: bool)
    ensures
        r == spec_is_ws(c),
{
    c == ' ' || c == '\t' || c == '\n' || c == '\r'
}

fn trim_str<'a>(s: &'a str) -> (r: &'a str)
    ensures
        r@ == spec_trim(s@),
{
    let n = s.unicode_len();
    let mut a: usize = 0;
    while a < n && is_ws_char(s.get_char(a))
        invariant
            a <= n,
            n == s@.len(),
            forall|j: int| 0 <= j < a ==> spec_is_ws(s@[j]),
        decreases n - a,
    {
        a += 1;
    }
    let mut b: usize = n;
    while b > a && is_ws_char(s.get_char(b - 1))
        invariant
            a <= b <= n,
            n == s@.len(),
            forall|j: int| b <= j < n ==> spec_is_ws(s@[j]),
        decreases b,
    {
        b -= 1;
    }
    let t = s.substring_char(a, b);
    proof {
        lemma_trim_start_at(s@, a as int);
        let m = s@.skip(a as int);
        assert(forall|j: int| b - a <= j < m.len() ==> spec_is_ws(#[trigger] m[j]));
        lemma_trim_end_at(m, b - a);
        assert(m.take(b - a) =~= s@.subrange(a as int, b as int));
        assert(t@ =~= spec_trim(s@));
    }
    t
}

proof fn lemma_field_end_bounds(s: Seq<char>, start: int)
    requires
        0 <= start <= s.len(),
    ensures
        start <= spec_field_end(s, start) <= s.len(),
    decreases s.len() - start,
{
    if start < s.len() && s[start] != ',' {
        lemma_field_end_bounds(s, start + 1);
    }
}

fn find_comma(s: &str, start: usize) -> (r: usize)
    requires
        start <= s@.len(),
    ensures
        r as int == spec_field_end(s@, start as int),
        start <= r <= s@.len(),
{
    let n = s.unicode_len();
    let mut i: usize = start;
    while i < n
        invariant
            start <= i <= n,
            n == s@.len(),
            spec_field_end(s@, start as int) == spec_field_end(s@, i as int),
        decreases n - i,
    {
        if s.get_char(i) == ',' {
            proof {
                lemma_field_end_bounds(s@, start as int);
            }
            return i;
        }
        i += 1;
    }
    i
}

impl FFmpeg {
    /// The metadata line the probe prints for a video, parsed into plain
    /// values: width, height, duration in seconds, and frame count, comma
    /// separated, surrounding whitespace ignored. A missing, malformed or
    /// out-of-range field is rejected.
    pub fn parse_video_meta(output: &str) -> (r: Result<VideoMeta, EditorError>)
        ensures
            r matches Ok(m) ==> spec_video_meta(output@) == Option::Some(m),
            r is Err <==> spec_video_meta(output@) is None,
    {
        let t = trim_str(output);
        let n = t.unicode_len();
        let e0 = find_comma(t, 0);
        if e0 == n {
            return Result::Err(EditorError::FormatFailure { context: output.to_owned() });
        }
        let e1 = find_comma(t, e0 + 1);
        if e1 == n {
            return Result::Err(EditorError::FormatFailure { context: output.to_owned() });
        }
        let e2 = find_comma(t, e1 + 1);
        if e2 == n {
            return Result::Err(EditorError::FormatFailure { context: output.to_owned() });
        }
        let e3 = find_comma(t, e2 + 1);
        let f0 = t.substring_char(0, e0);
        let f1 = t.substring_char(e0 + 1, e1);
        let f2 = t.substring_char(e1 + 1, e2);
        let f3 = t.substring_char(e2 + 1, e3);
        proof {
            assert(f0@ =~= t@.subrange(0, e0 as int));
            assert(f1@ =~= t@.subrange(e0 as int + 1, e1 as int));
            assert(f2@ =~= t@.subrange(e1 as int + 1, e2 as int));
            assert(f3@ =~= t@.subrange(e2 as int + 1, e3 as int));
        }
        let width: u32 = match parse_digits(f0) {
            Option::Some(v) if v <= u32::MAX as u64 => v as u32,
            _ => {
                return Result::Err(EditorError::FormatFailure { context: output.to_owned() });
            },
        };
        let height: u32 = match parse_digits(f1) {
            Option::Some(v) if v <= u32::MAX as u64 => v as u32,
            _ => {
                return Result::Err(EditorError::FormatFailure { context: output.to_owned() });
            },
        };
        let duration_ms: u64 = match parse_seconds_ms(f2) {
            Option::Some(v) => v,
            Option::None => {
                return Result::Err(EditorError::FormatFailure { context: output.to_owned() });
            },
        };
        let frames: usize = match parse_digits(f3) {
            Option::Some(v) if v <= usize::MAX as u64 => v as usize,
            _ => {
                return Result::Err(EditorError::FormatFailure { context: output.to_owned() });
            },
        };
        Result::Ok(VideoMeta { width, height, duration_ms, frames })
    }
}

} // verus!
