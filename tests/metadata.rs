use filex::metadata::{MetadataService, ProbeFormat, ProbeOutput, ProbeStream};

fn stream(kind: &str, codec: &str, w: Option<u32>, h: Option<u32>, dur: Option<&str>) -> ProbeStream {
    ProbeStream {
        codec_type: Some(kind.to_string()),
        codec_name: Some(codec.to_string()),
        width: w,
        height: h,
        duration: dur.map(|d| d.to_string()),
    }
}

#[test]
fn test_media_file_detection() {
    assert!(MetadataService::is_likely_media_file("video.mp4"));
    assert!(MetadataService::is_likely_media_file("image.jpg"));
    assert!(MetadataService::is_likely_media_file("audio.mp3"));
    assert!(!MetadataService::is_likely_media_file("document.pdf"));
    assert!(!MetadataService::is_likely_media_file("code.rs"));
}

#[test]
fn media_detection_uses_the_last_extension_in_any_case() {
    assert!(MetadataService::is_likely_media_file("/clips/Holiday.MKV"));
    assert!(MetadataService::is_likely_media_file("/a.b/archive.tar.flac"));
    assert!(!MetadataService::is_likely_media_file("/movies.mp4/readme"));
    assert!(!MetadataService::is_likely_media_file("/x/.mp4"));
    assert!(!MetadataService::is_likely_media_file("/x/noext"));
    assert!(!MetadataService::is_likely_media_file(".."));
}

#[test]
fn video_stream_gives_dimensions_codec_and_duration() {
    let out = ProbeOutput {
        streams: Some(vec![
            stream("audio", "aac", None, None, Some("10.0")),
            stream("video", "h264", Some(1920), Some(1080), Some("12.5")),
            stream("video", "hevc", Some(640), Some(480), Some("3.0")),
        ]),
        format: Some(ProbeFormat { format_name: Some("mov,mp4".to_string()), duration: Some("13.0".to_string()) }),
    };
    let m = MetadataService::media_from_probe(&out);
    assert_eq!(m.width, Some(1920));
    assert_eq!(m.height, Some(1080));
    assert_eq!(m.codec.as_deref(), Some("h264"));
    assert_eq!(m.duration.as_deref(), Some("12.5"));
    assert_eq!(m.format.as_deref(), Some("mov,mp4"));
}

#[test]
fn audio_then_container_durations_are_fallbacks() {
    let out = ProbeOutput {
        streams: Some(vec![
            stream("video", "mjpeg", Some(100), Some(50), None),
            stream("audio", "mp3", None, None, Some("201.5")),
        ]),
        format: Some(ProbeFormat { format_name: None, duration: Some("202.0".to_string()) }),
    };
    let m = MetadataService::media_from_probe(&out);
    assert_eq!(m.duration.as_deref(), Some("201.5"));
    assert_eq!(m.codec.as_deref(), Some("mjpeg"));

    let audio_only = ProbeOutput {
        streams: Some(vec![stream("audio", "flac", None, None, None)]),
        format: Some(ProbeFormat { format_name: Some("flac".to_string()), duration: Some("60.0".to_string()) }),
    };
    let m = MetadataService::media_from_probe(&audio_only);
    assert_eq!(m.duration.as_deref(), Some("60.0"));
    assert_eq!(m.codec.as_deref(), Some("flac"));
    assert_eq!(m.width, None);

    let empty = ProbeOutput { streams: None, format: None };
    let m = MetadataService::media_from_probe(&empty);
    assert!(m.duration.is_none() && m.codec.is_none() && m.format.is_none());
}

#[test]
fn trailing_separators_and_dot_components_are_passed_over() {
    assert!(MetadataService::is_likely_media_file("x.mp4/"));
    assert!(MetadataService::is_likely_media_file("/a/x.MP4//"));
    assert!(MetadataService::is_likely_media_file("/a/x.mp4/."));
    assert!(MetadataService::is_likely_media_file("./x.jpg"));
    assert!(!MetadataService::is_likely_media_file("/a/.."));
    assert!(!MetadataService::is_likely_media_file("/"));
    assert!(!MetadataService::is_likely_media_file("."));
}

#[test]
fn media_extension_list() {
    for e in ["jpg", "heif", "avif", "3gp", "ts", "mts", "opus", "aiff"] {
        assert!(MetadataService::is_media_extension_text(e), "{e}");
    }
    for e in ["JPG", "pdf", "", "mp", "mp44", "txt"] {
        assert!(!MetadataService::is_media_extension_text(e), "{e}");
    }
}
