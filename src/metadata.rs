//! Interpreting what the media prober reports about a file.
//!
//! Running the prober (a subprocess with a timeout) and decoding its JSON
//! happen outside the library; here the decoded report becomes the media
//! attributes that are stored, and file names are screened before any probe.

use crate::text::{chars_of, starts_with_text, text_equals, text_of};
use vstd::prelude::*;

verus! {

/// Why no media attributes could be had for a file.
#[derive(Debug)]
pub enum MetadataError {
    /// The prober is not installed.
    FfprobeNotFound,
    /// The prober could not be run, or exited with a failure.
    ExecutionFailed(String),
    /// The prober's output could not be decoded.
    ParseError(String),
    /// The file is not a media file; it is never probed again.
    NotMediaFile,
    /// The prober did not finish in time and was killed.
    Timeout,
}

/// One stream of the prober's report. Durations are in seconds, as the
/// prober printed them; a duration that is not a number is left out.
#[derive(Debug, Clone)]
pub struct ProbeStream {
    pub codec_type: Option<String>,
    pub codec_name: Option<String>,
    pub width: Option<u32>,
    pub height: Option<u32>,
    pub duration: Option<String>,
}

/// The container part of the prober's report.
#[derive(Debug, Clone)]
pub struct ProbeFormat {
    pub format_name: Option<String>,
    pub duration: Option<String>,
}

/// The prober's report on one file.
#[derive(Debug, Clone)]
pub struct ProbeOutput {
    pub streams: Option<Vec<ProbeStream>>,
    pub format: Option<ProbeFormat>,
}

/// The media attributes of a file.
#[derive(Debug, Clone)]
pub struct MediaMetadata {
    pub width: Option<u32>,
    pub height: Option<u32>,
    pub duration: Option<String>,
    pub codec: Option<String>,
    pub format: Option<String>,
}

/// The media prober and the checks made before running it.
pub struct MetadataService;

/// The text of an optional string.
pub open spec fn opt_text(o: Option<String>) -> Option<Seq<char>> {
    match o {
        Some(s) => Some(s@),
        None => None,
    }
}

/// The lowercase mapping of a text.
pub uninterp spec fn str_lower_of(s: Seq<char>) -> Seq<char>;

/// Relies on `str::to_lowercase`: the lowercase mapping of the text.
#[verifier::external_body]
fn lowercase(s: &str) -> (r: String)
    ensures
        r@ == str_lower_of(s@),
{
    s.to_lowercase()
}

/// The text after the last `/` of `p`.
pub open spec fn last_segment(p: Seq<char>) -> Seq<char>
    decreases p.len(),
{
    if p.len() == 0 {
        p
    } else if p.last() == '/' {
        Seq::empty()
    } else {
        last_segment(p.drop_last()).push(p.last())
    }
}

/// A path without its trailing separators and trailing `.` components.
pub open spec fn name_end(p: Seq<char>) -> Seq<char>
    decreases p.len(),
{
    if p.len() == 0 {
        p
    } else if p.last() == '/' {
        name_end(p.drop_last())
    } else if p.last() == '.' && (p.len() == 1 || p[p.len() - 2] == '/') {
        name_end(p.drop_last())
    } else {
        p
    }
}

/// The file name of a `/`-separated path, as a path's last component:
/// trailing separators and `.` components are passed over, so `a/b.mp4/`
/// and `a/b.mp4/.` both name `b.mp4`.
pub open spec fn file_name_of(p: Seq<char>) -> Seq<char> {
    last_segment(name_end(p))
}

/// The position of the last `.` of `name`, or -1.
pub open spec fn last_dot(name: Seq<char>) -> int
    decreases name.len(),
{
    if name.len() == 0 {
        -1
    } else if name.last() == '.' {
        name.len() - 1
    } else {
        last_dot(name.drop_last())
    }
}

/// The extension of a file name: what follows its last `.`, where that dot
/// is not the name's first char; none for `..`.
pub open spec fn extension_of(name: Seq<char>) -> Option<Seq<char>> {
    let d = last_dot(name);
    if d <= 0 || name == seq!['.', '.'] {
        None
    } else {
        Some(name.subrange(d + 1, name.len() as int))
    }
}

/// The extensions, in lowercase, of the image, video and audio formats
/// that are worth probing.
pub open spec fn is_media_extension(e: Seq<char>) -> bool {
    ||| e == "jpg"@ ||| e == "jpeg"@ ||| e == "png"@ ||| e == "gif"@ ||| e == "webp"@
    ||| e == "bmp"@ ||| e == "tiff"@ ||| e == "tif"@ ||| e == "svg"@ ||| e == "ico"@
    ||| e == "heic"@ ||| e == "heif"@ ||| e == "avif"@
    ||| e == "mp4"@ ||| e == "mkv"@ ||| e == "avi"@ ||| e == "mov"@ ||| e == "wmv"@
    ||| e == "flv"@ ||| e == "webm"@ ||| e == "m4v"@ ||| e == "mpeg"@ ||| e == "mpg"@
    ||| e == "3gp"@ ||| e == "ts"@ ||| e == "mts"@
    ||| e == "mp3"@ ||| e == "wav"@ ||| e == "flac"@ ||| e == "aac"@ ||| e == "ogg"@
    ||| e == "wma"@ ||| e == "m4a"@ ||| e == "opus"@ ||| e == "aiff"@
}

/// Whether a path names a media file by its extension, compared in lowercase.
pub open spec fn is_media_path(p: Seq<char>) -> bool {
    match extension_of(file_name_of(p)) {
        Some(e) => is_media_extension(str_lower_of(e)),
        None => false,
    }
}

/// A stream whose codec type is `kind`.
pub open spec fn has_kind(s: ProbeStream, kind: Seq<char>) -> bool {
    opt_text(s.codec_type) == Some(kind)
}

/// The first stream of codec type `kind`.
pub open spec fn first_of_kind(ss: Seq<ProbeStream>, kind: Seq<char>) -> Option<ProbeStream>
    decreases ss.len(),
{
    if ss.len() == 0 {
        None
    } else {
        let f = first_of_kind(ss.drop_last(), kind);
        if f is Some {
            f
        } else if has_kind(ss.last(), kind) {
            Some(ss.last())
        } else {
            None
        }
    }
}

/// The duration of the first audio stream that reports one.
pub open spec fn first_audio_duration(ss: Seq<ProbeStream>) -> Option<Seq<char>>
    decreases ss.len(),
{
    if ss.len() == 0 {
        None
    } else {
        let f = first_audio_duration(ss.drop_last());
        if f is Some {
            f
        } else if has_kind(ss.last(), "audio"@) {
            opt_text(ss.last().duration)
        } else {
            None
        }
    }
}

/// The streams of a report, none where it lists none.
pub open spec fn streams_of(out: ProbeOutput) -> Seq<ProbeStream> {
    match out.streams {
        Some(v) => v@,
        None => Seq::empty(),
    }
}

/// The duration a report gives a file: the first video stream's, else the
/// first audio stream's, else the container's.
pub open spec fn probe_duration(out: ProbeOutput) -> Option<Seq<char>> {
    let ss = streams_of(out);
    let video = first_of_kind(ss, "video"@);
    if video is Some && video->0.duration is Some {
        opt_text(video->0.duration)
    } else if first_audio_duration(ss) is Some {
        first_audio_duration(ss)
    } else {
        match out.format {
            Some(f) => opt_text(f.duration),
            None => None,
        }
    }
}

/// The codec a report gives a file: the first video stream's, else the
/// first audio stream's.
pub open spec fn probe_codec(out: ProbeOutput) -> Option<Seq<char>> {
    let ss = streams_of(out);
    match first_of_kind(ss, "video"@) {
        Some(v) => opt_text(v.codec_name),
        None => match first_of_kind(ss, "audio"@) {
            Some(a) => opt_text(a.codec_name),
            None => None,
        },
    }
}

/// A copy of an optional text.
fn copy_text(o: &Option<String>) -> (r: Option<String>)
    ensures
        opt_text(r) == opt_text(*o),
{
    match o {
        Some(s) => Some(s.clone()),
        None => None,
    }
}

/// Whether an optional text is `kind`.
fn is_kind(o: &Option<String>, kind: &str) -> (r: bool)
    ensures
        r == (opt_text(*o) == Some(kind@)),
{
    match o {
        Some(s) => text_equals(s.as_str(), kind),
        None => false,
    }
}

/// The text after the last `/` of a path.
fn file_name(path: &str) -> (r: Vec<char>)
    ensures
        r@ == file_name_of(path@),
{
    let all = chars_of(path);
    let mut end: usize = all.len();
    assert(all@.subrange(0, all@.len() as int) =~= all@);
    while end > 0 && (all[end - 1] == '/' || (all[end - 1] == '.' && (end == 1 || all[end - 2] == '/')))
        invariant
            0 <= end <= all@.len(),
            all@ == path@,
            name_end(path@) == name_end(all@.subrange(0, end as int)),
        decreases end,
    {
        assert(all@.subrange(0, end as int).drop_last() =~= all@.subrange(0, end - 1));
        end -= 1;
    }
    let cs = vstd::slice::slice_to_vec(vstd::slice::slice_subrange(all.as_slice(), 0, end));
    assert(name_end(path@) == cs@);
    last_segment_chars(&cs)
}

/// The chars after the last `/`.
fn last_segment_chars(cs: &Vec<char>) -> (r: Vec<char>)
    ensures
        r@ == last_segment(cs@),
{
    let mut start: usize = cs.len();
    assert(cs@.subrange(0, cs@.len() as int) =~= cs@);
    assert(cs@.subrange(cs@.len() as int, cs@.len() as int) =~= Seq::<char>::empty());
    assert(last_segment(cs@) + Seq::<char>::empty() =~= last_segment(cs@));
    while start > 0 && cs[start - 1] != '/'
        invariant
            0 <= start <= cs@.len(),
            last_segment(cs@) == last_segment(cs@.subrange(0, start as int)) + cs@.subrange(
                start as int,
                cs@.len() as int,
            ),
        decreases start,
    {
        proof {
            let pre = cs@.subrange(0, start as int);
            assert(pre.drop_last() =~= cs@.subrange(0, start - 1));
            assert(cs@.subrange(start - 1, cs@.len() as int) =~= seq![pre.last()] + cs@.subrange(
                start as int,
                cs@.len() as int,
            ));
        }
        start -= 1;
    }
    proof {
        let pre = cs@.subrange(0, start as int);
        assert(last_segment(pre) =~= Seq::<char>::empty());
        assert(cs@.subrange(0, cs@.len() as int) =~= cs@);
    }
    let mut out: Vec<char> = Vec::new();
    let mut k: usize = start;
    while k < cs.len()
        invariant
            start <= k <= cs@.len(),
            out@ == cs@.subrange(start as int, k as int),
        decreases cs@.len() - k,
    {
        out.push(cs[k]);
        assert(cs@.subrange(start as int, k + 1) =~= out@);
        k += 1;
    }
    out
}

/// The stream at the given position, if any.
pub open spec fn stream_at(ss: Seq<ProbeStream>, k: Option<usize>) -> Option<ProbeStream> {
    match k {
        Some(i) => Some(ss[i as int]),
        None => None,
    }
}

/// The positions of the first video stream, the first audio stream and the
/// first audio stream with a duration.
fn locate_streams(ss: &Vec<ProbeStream>) -> (r: (Option<usize>, Option<usize>, Option<usize>))
    ensures
        stream_at(ss@, r.0) == first_of_kind(ss@, "video"@),
        stream_at(ss@, r.1) == first_of_kind(ss@, "audio"@),
        r.0 matches Some(i) ==> i < ss@.len(),
        r.1 matches Some(i) ==> i < ss@.len(),
        r.2 matches Some(i) ==> i < ss@.len() && ss@[i as int].duration is Some && opt_text(ss@[i as int].duration)
            == first_audio_duration(ss@),
        r.2 is None ==> first_audio_duration(ss@) is None,
{
    let mut video: Option<usize> = None;
    let mut audio: Option<usize> = None;
    let mut audio_dur: Option<usize> = None;
    let mut i: usize = 0;
    while i < ss.len()
        invariant
            0 <= i <= ss@.len(),
            stream_at(ss@, video) == first_of_kind(ss@.subrange(0, i as int), "video"@),
            stream_at(ss@, audio) == first_of_kind(ss@.subrange(0, i as int), "audio"@),
            video matches Some(k) ==> k < i,
            audio matches Some(k) ==> k < i,
            audio_dur matches Some(k) ==> k < i && ss@[k as int].duration is Some && opt_text(ss@[k as int].duration)
                == first_audio_duration(ss@.subrange(0, i as int)),
            audio_dur is None ==> first_audio_duration(ss@.subrange(0, i as int)) is None,
        decreases ss@.len() - i,
    {
        let ghost pre = ss@.subrange(0, i + 1);
        assert(pre.drop_last() =~= ss@.subrange(0, i as int));
        assert(pre.last() == ss@[i as int]);
        let is_video = is_kind(&ss[i].codec_type, "video");
        let is_audio = is_kind(&ss[i].codec_type, "audio");
        if video.is_none() && is_video {
            video = Some(i);
        }
        if audio.is_none() && is_audio {
            audio = Some(i);
        }
        if audio_dur.is_none() && is_audio && ss[i].duration.is_some() {
            audio_dur = Some(i);
        }
        proof {
            if audio_dur is None {
                assert(first_audio_duration(pre) is None);
            } else {
                let k = audio_dur->0;
                if k < i {
                    assert(first_audio_duration(pre.drop_last()) is Some);
                }
                assert(opt_text(ss@[k as int].duration) == first_audio_duration(pre));
            }
        }
        i += 1;
    }
    assert(ss@.subrange(0, ss@.len() as int) =~= ss@);
    (video, audio, audio_dur)
}

impl MetadataService {
    /// The media attributes that a probe report gives: width, height and
    /// codec of the first video stream (the first audio stream's codec where
    /// there is no video stream); the first video stream's duration, else the
    /// first audio stream's, else the container's; the container's format.
    pub fn media_from_probe(out: &ProbeOutput) -> (r: MediaMetadata)
        ensures
            r.width == (match first_of_kind(streams_of(*out), "video"@) {
                Some(v) => v.width,
                None => None,
            }),
            r.height == (match first_of_kind(streams_of(*out), "video"@) {
                Some(v) => v.height,
                None => None,
            }),
            opt_text(r.duration) == probe_duration(*out),
            opt_text(r.codec) == probe_codec(*out),
            opt_text(r.format) == (match out.format {
                Some(f) => opt_text(f.format_name),
                None => None,
            }),
    {
        let format = match &out.format {
            Some(f) => copy_text(&f.format_name),
            None => None,
        };
        let container_duration = match &out.format {
            Some(f) => copy_text(&f.duration),
            None => None,
        };
        match &out.streams {
            Some(ss) => {
                let (video, audio, audio_dur) = locate_streams(ss);
                let (width, height, video_codec, video_duration) = match video {
                    Some(v) => (
                        ss[v].width,
                        ss[v].height,
                        copy_text(&ss[v].codec_name),
                        copy_text(&ss[v].duration),
                    ),
                    None => (None, None, None, None),
                };
                let codec = match video {
                    Some(_) => video_codec,
                    None => match audio {
                        Some(a) => copy_text(&ss[a].codec_name),
                        None => None,
                    },
                };
                let duration = if video_duration.is_some() {
                    video_duration
                } else {
                    match audio_dur {
                        Some(a) => copy_text(&ss[a].duration),
                        None => container_duration,
                    }
                };
                MediaMetadata { width, height, duration, codec, format }
            },
            None => {
                assert(streams_of(*out) =~= Seq::<ProbeStream>::empty());
                MediaMetadata {
                    width: None,
                    height: None,
                    duration: container_duration,
                    codec: None,
                    format,
                }
            },
        }
    }

    /// Whether a path's extension, in lowercase, is one of the image, video
    /// or audio formats worth probing. The file name is the path's last
    /// component, trailing separators and `.` components passed over.
    pub fn is_likely_media_file(path: &str) -> (r: bool)
        ensures
            r == is_media_path(path@),
    {
        let name = file_name(path);
        let mut d: usize = name.len();
        assert(name@.subrange(0, name@.len() as int) =~= name@);
        while d > 0 && name[d - 1] != '.'
            invariant
                0 <= d <= name@.len(),
                last_dot(name@) == last_dot(name@.subrange(0, d as int)),
            decreases d,
        {
            assert(name@.subrange(0, d as int).drop_last() =~= name@.subrange(0, d - 1));
            d -= 1;
        }
        assert(name@.subrange(0, name@.len() as int) =~= name@);
        if d == 0 {
            assert(last_dot(name@.subrange(0, 0)) == -1);
            return false;
        }
        assert(last_dot(name@) == d - 1);
        if d == 1 {
            return false;
        }
        if name.len() == 2 && name[0] == '.' && name[1] == '.' {
            assert(name@ =~= seq!['.', '.']);
            return false;
        }
        assert(name@ != seq!['.', '.']);
        let ext = text_of(vstd::slice::slice_subrange(name.as_slice(), d, name.len()));
        let e = lowercase(ext.as_str());
        Self::is_media_extension_text(e.as_str())
    }

    /// Whether a lowercase extension is one of the image, video or audio
    /// formats worth probing.
    pub fn is_media_extension_text(e: &str) -> (r: bool)
        ensures
            r == is_media_extension(e@),
    {
        text_equals(e, "jpg") || text_equals(e, "jpeg") || text_equals(e, "png") || text_equals(
            e,
            "gif",
        ) || text_equals(e, "webp") || text_equals(e, "bmp") || text_equals(e, "tiff")
            || text_equals(e, "tif") || text_equals(e, "svg") || text_equals(e, "ico")
            || text_equals(e, "heic") || text_equals(e, "heif") || text_equals(e, "avif")
            || text_equals(e, "mp4") || text_equals(e, "mkv") || text_equals(e, "avi")
            || text_equals(e, "mov") || text_equals(e, "wmv") || text_equals(e, "flv")
            || text_equals(e, "webm") || text_equals(e, "m4v") || text_equals(e, "mpeg")
            || text_equals(e, "mpg") || text_equals(e, "3gp") || text_equals(e, "ts")
            || text_equals(e, "mts") || text_equals(e, "mp3") || text_equals(e, "wav")
            || text_equals(e, "flac") || text_equals(e, "aac") || text_equals(e, "ogg")
            || text_equals(e, "wma") || text_equals(e, "m4a") || text_equals(e, "opus")
            || text_equals(e, "aiff")
    }
}

} // verus!
