use multipartus_downloader::manifest::Resolution;
use multipartus_downloader::playlist::{transform_playlist, RewriteConfig, TransformOutput};

fn lines_of(text: &str) -> Vec<Vec<u8>> {
    text.lines().map(|l| l.as_bytes().to_vec()).collect()
}

fn cfg() -> RewriteConfig {
    RewriteConfig {
        ttid: 42,
        filename: b"7_Intro".to_vec(),
        resolution: Resolution::HighRes,
        ts_dir: b"/tmp/lec/ts_store".to_vec(),
        key_file_path: b"/tmp/lec/7_Intro.key.key".to_vec(),
    }
}

fn two_camera_source() -> Vec<Vec<u8>> {
    lines_of(
        "#EXTM3U\n\
         #EXT-X-VERSION:3\n\
         #EXT-X-TARGETDURATION:15\n\
         #EXT-X-KEY:METHOD=AES-128,URI=\"https://remote/key\"\n\
         #EXTINF:15.0,\n\
         https://remote/chunk0.ts\n\
         #EXTINF:14.2,\n\
         https://remote/chunk1.ts\n\
         #EXT-X-DISCONTINUITY\n\
         https://remote/switch-marker.ts\n\
         #EXTINF:15.0,\n\
         https://remote/chunk2.ts\n\
         #EXT-X-ENDLIST",
    )
}

fn transform_two_camera() -> TransformOutput {
    transform_playlist(&two_camera_source(), &cfg()).expect("well-formed playlist")
}

#[test]
fn discontinuity_produces_two_sides_ending_in_endlist() {
    let out = transform_two_camera();
    let side2 = out.side2.expect("side 2 present");
    assert!(out.side1.ends_with(b"#EXT-X-ENDLIST"));
    assert!(side2.ends_with(b"#EXT-X-ENDLIST"));
}

#[test]
fn side_two_excludes_switch_marker_uri() {
    let out = transform_two_camera();
    for seg in &out.segments {
        assert_ne!(seg.remote_url, b"https://remote/switch-marker.ts".to_vec());
    }
    assert_eq!(out.segments.len(), 3);
}

#[test]
fn segments_carry_sides_and_ordinals() {
    let out = transform_two_camera();
    assert_eq!(out.segments[0].remote_url, b"https://remote/chunk0.ts".to_vec());
    assert_eq!(out.segments[0].side, 1);
    assert_eq!(out.segments[0].ordinal, 0);
    assert_eq!(out.segments[1].remote_url, b"https://remote/chunk1.ts".to_vec());
    assert_eq!(out.segments[1].side, 1);
    assert_eq!(out.segments[1].ordinal, 1);
    assert_eq!(out.segments[2].remote_url, b"https://remote/chunk2.ts".to_vec());
    assert_eq!(out.segments[2].side, 2);
    assert_eq!(out.segments[2].ordinal, 2);
}

#[test]
fn side_one_rewrite_is_exact() {
    let out = transform_two_camera();
    let expected = "#EXTM3U\n\
        #EXT-X-VERSION:3\n\
        #EXT-X-TARGETDURATION:15\n\
        #EXT-X-KEY:METHOD=AES-128,URI=\"/tmp/lec/7_Intro.key.key\"\n\
        #EXTINF:15.0,\n\
        /tmp/lec/ts_store/tmp_ttid_42_7_Intro_side_1_0_high_res.ts\n\
        #EXTINF:14.2,\n\
        /tmp/lec/ts_store/tmp_ttid_42_7_Intro_side_1_1_high_res.ts\n\
        #EXT-X-ENDLIST";
    assert_eq!(String::from_utf8(out.side1).unwrap(), expected);
}

#[test]
fn side_two_shares_headers_and_holds_its_chunk() {
    let out = transform_two_camera();
    let expected = "#EXTM3U\n\
        #EXT-X-VERSION:3\n\
        #EXT-X-TARGETDURATION:15\n\
        #EXT-X-KEY:METHOD=AES-128,URI=\"/tmp/lec/7_Intro.key.key\"\n\
        #EXTINF:15.0,\n\
        /tmp/lec/ts_store/tmp_ttid_42_7_Intro_side_2_2_high_res.ts\n\
        #EXT-X-ENDLIST";
    assert_eq!(String::from_utf8(out.side2.unwrap()).unwrap(), expected);
}

#[test]
fn no_discontinuity_produces_only_side_one() {
    let src = lines_of(
        "#EXTM3U\n\
         #EXT-X-KEY:METHOD=AES-128,URI=\"https://remote/key\"\n\
         #EXTINF:15.0,\n\
         https://remote/only.ts\n\
         #EXT-X-ENDLIST",
    );
    let out = transform_playlist(&src, &cfg()).expect("well-formed playlist");
    assert!(out.side2.is_none());
    assert_eq!(out.segments.len(), 1);
    assert_eq!(out.segments[0].side, 1);
}

#[test]
fn rerun_rewrite_is_byte_identical() {
    let a = transform_playlist(&two_camera_source(), &cfg()).unwrap();
    let b = transform_playlist(&two_camera_source(), &cfg()).unwrap();
    assert_eq!(a.side1, b.side1);
    assert_eq!(a.side2, b.side2);
    assert_eq!(a.segments.len(), b.segments.len());
}

#[test]
fn key_directive_preserves_method_field() {
    let src = lines_of(
        "#EXT-X-KEY:METHOD=SAMPLE-AES,IV=0xABCD,URI=\"https://remote/key\"\n\
         #EXTINF:1.0,\n\
         https://remote/c.ts\n\
         #EXT-X-ENDLIST",
    );
    let out = transform_playlist(&src, &cfg()).unwrap();
    let text = String::from_utf8(out.side1).unwrap();
    assert!(text.starts_with("#EXT-X-KEY:METHOD=SAMPLE-AES,URI=\"/tmp/lec/7_Intro.key.key\"\n"));
}

#[test]
fn key_file_path_backslashes_are_doubled() {
    let mut c = cfg();
    c.key_file_path = b"C:\\lec\\x.key.key".to_vec();
    let src = lines_of(
        "#EXT-X-KEY:METHOD=AES-128,URI=\"https://remote/key\"\n\
         #EXTINF:1.0,\n\
         https://remote/c.ts\n\
         #EXT-X-ENDLIST",
    );
    let out = transform_playlist(&src, &c).unwrap();
    let text = String::from_utf8(out.side1).unwrap();
    assert!(text.starts_with("#EXT-X-KEY:METHOD=AES-128,URI=\"C:\\\\lec\\\\x.key.key\"\n"));
}

#[test]
fn missing_endlist_is_a_parse_error() {
    let src = lines_of("#EXTM3U\n#EXTINF:1.0,\nhttps://remote/c.ts");
    assert!(transform_playlist(&src, &cfg()).is_err());
}

#[test]
fn directive_without_uri_is_a_parse_error() {
    let src = lines_of("#EXTM3U\n#EXTINF:1.0,");
    assert!(transform_playlist(&src, &cfg()).is_err());
}

#[test]
fn discontinuity_as_last_line_is_a_parse_error() {
    let src = lines_of("#EXTM3U\n#EXTINF:1.0,\nhttps://remote/c.ts\n#EXT-X-DISCONTINUITY");
    assert!(transform_playlist(&src, &cfg()).is_err());
}

#[test]
fn empty_playlist_is_a_parse_error() {
    let src: Vec<Vec<u8>> = Vec::new();
    assert!(transform_playlist(&src, &cfg()).is_err());
}

#[test]
fn endlist_during_headers_yields_header_only_side_one() {
    let src = lines_of("#EXTM3U\n#EXT-X-ENDLIST");
    let out = transform_playlist(&src, &cfg()).unwrap();
    assert_eq!(String::from_utf8(out.side1).unwrap(), "#EXTM3U\n#EXT-X-ENDLIST");
    assert!(out.side2.is_none());
    assert_eq!(out.segments.len(), 0);
}

#[test]
fn low_res_names_use_low_res_label() {
    let mut c = cfg();
    c.resolution = Resolution::LowRes;
    let src = lines_of("#EXTINF:1.0,\nhttps://remote/c.ts\n#EXT-X-ENDLIST");
    let out = transform_playlist(&src, &c).unwrap();
    assert_eq!(
        out.segments[0].local_path,
        b"/tmp/lec/ts_store/tmp_ttid_42_7_Intro_side_1_0_low_res.ts".to_vec()
    );
}
