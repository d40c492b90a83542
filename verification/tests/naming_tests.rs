use multipartus_downloader::decrypt::{decrypt, get_decryption_key};
use multipartus_downloader::error::DownloadError;
use multipartus_downloader::manifest::{
    key_endpoint_url, manifest_info_url, playlist_fetch_url, select_track_url, Resolution, Track,
    TrackInfo, Views,
};
use multipartus_downloader::naming::{
    key_file_path, output_file_name, remove_special, side_playlist_path, video_file_name,
};

fn chars_of(s: &str) -> Vec<char> {
    s.chars().collect()
}

fn string_of(v: Vec<char>) -> String {
    v.into_iter().collect()
}

#[test]
fn remove_special_keeps_word_characters() {
    let r = remove_special(&chars_of("Lecture 12_part.one"));
    assert_eq!(string_of(r), "Lecture 12_part.one");
}

#[test]
fn remove_special_drops_separators_and_pipes() {
    let r = remove_special(&chars_of("a/b|c:d*e\"f"));
    assert_eq!(string_of(r), "abcdef");
}

#[test]
fn remove_special_keeps_unicode_alphanumerics() {
    let r = remove_special(&chars_of("élan-θ42"));
    assert_eq!(string_of(r), "élanθ42");
}

#[test]
fn video_and_output_names_are_exact() {
    let base = video_file_name(7, &b"Sorting".to_vec());
    assert_eq!(base, b"7_Sorting".to_vec());
    let out = output_file_name(&base, Resolution::HighRes);
    assert_eq!(out, b"7_Sorting_high_res.mp4".to_vec());
    let low = output_file_name(&base, Resolution::LowRes);
    assert_eq!(low, b"7_Sorting_low_res.mp4".to_vec());
}

#[test]
fn negative_ordinal_is_rendered_signed() {
    assert_eq!(video_file_name(-3, &b"X".to_vec()), b"-3_X".to_vec());
}

#[test]
fn working_directory_paths_are_exact() {
    let temp = b"/tmp/videos/Lecture_42".to_vec();
    let name = b"7_Sorting".to_vec();
    assert_eq!(
        side_playlist_path(&temp, &name, 1),
        b"/tmp/videos/Lecture_42/7_Sorting_side_1.m3u8".to_vec()
    );
    assert_eq!(
        side_playlist_path(&temp, &name, 2),
        b"/tmp/videos/Lecture_42/7_Sorting_side_2.m3u8".to_vec()
    );
    assert_eq!(
        key_file_path(&temp, &name),
        b"/tmp/videos/Lecture_42/7_Sorting.key.key".to_vec()
    );
}

#[test]
fn endpoint_urls_are_exact() {
    let base = b"https://lex.example/api".to_vec();
    assert_eq!(
        manifest_info_url(&base, 4321),
        b"https://lex.example/api/impartus/ttid/4321/m3u8/info".to_vec()
    );
    assert_eq!(
        key_endpoint_url(&base, 4321),
        b"https://lex.example/api/impartus/ttid/4321/key".to_vec()
    );
    assert_eq!(
        playlist_fetch_url(&b"https://mirror1".to_vec(), &b"https://cdn/x.m3u8".to_vec()),
        b"https://mirror1/api/fetchvideo?tag=LC&inm3u8=https://cdn/x.m3u8".to_vec()
    );
}

fn info(views: Views, tracks: Vec<Track>) -> TrackInfo {
    TrackInfo { tracks, views }
}

#[test]
fn track_selection_takes_last_url_of_requested_resolution() {
    let t = info(
        Views { left: true, right: true },
        vec![
            Track {
                label: b"854x480".to_vec(),
                urls: vec![b"l0".to_vec(), b"l1".to_vec()],
            },
            Track {
                label: b"1280x720".to_vec(),
                urls: vec![b"h0".to_vec(), b"h1".to_vec(), b"h2".to_vec()],
            },
        ],
    );
    assert_eq!(select_track_url(&t, Resolution::HighRes).unwrap(), b"h2".to_vec());
    assert_eq!(select_track_url(&t, Resolution::LowRes).unwrap(), b"l1".to_vec());
}

#[test]
fn missing_resolution_key_is_fatal() {
    let t = info(
        Views { left: true, right: false },
        vec![Track { label: b"854x480".to_vec(), urls: vec![b"l0".to_vec()] }],
    );
    let err = select_track_url(&t, Resolution::HighRes).unwrap_err();
    assert!(matches!(err, DownloadError::Parse { .. }));
}

#[test]
fn empty_url_list_is_fatal() {
    let t = info(
        Views { left: true, right: false },
        vec![Track { label: b"1280x720".to_vec(), urls: Vec::new() }],
    );
    let err = select_track_url(&t, Resolution::HighRes).unwrap_err();
    assert!(matches!(err, DownloadError::Parse { .. }));
}

#[test]
fn error_messages_name_their_cause() {
    assert_eq!(
        DownloadError::Connectivity.message(),
        b"Failed to connect to any hosts! Check your connection and try again.".to_vec()
    );
    assert_eq!(
        DownloadError::Fetch { operation: b"Get key file".to_vec() }.message(),
        b"Failed to fetch data: Get key file".to_vec()
    );
    assert_eq!(DownloadError::Cancelled.message(), b"Cancelled".to_vec());
    assert_eq!(
        DownloadError::Parse { detail: b"bad json".to_vec() }.message(),
        b"bad json".to_vec()
    );
    assert_eq!(
        DownloadError::Filesystem { detail: b"mkdir failed".to_vec() }.message(),
        b"mkdir failed".to_vec()
    );
    assert_eq!(
        DownloadError::Mux { log: b"bad stream".to_vec() }.message(),
        b"bad stream".to_vec()
    );
}

#[test]
fn extreme_ordinals_render_exactly() {
    assert_eq!(video_file_name(i32::MIN, &b"X".to_vec()), b"-2147483648_X".to_vec());
    assert_eq!(video_file_name(i32::MAX, &b"X".to_vec()), b"2147483647_X".to_vec());
    assert_eq!(
        manifest_info_url(&b"h".to_vec(), u64::MAX),
        b"h/impartus/ttid/18446744073709551615/m3u8/info".to_vec()
    );
}

#[test]
fn error_carries_its_message() {
    let e = multipartus_downloader::error::Error::new("key too short".to_string());
    assert_eq!(e.error_string, "key too short");
}

#[test]
fn decryption_key_drops_two_bytes_and_reverses() {
    assert_eq!(get_decryption_key(vec![1, 2, 3, 4]), vec![4, 3]);
    assert_eq!(get_decryption_key(vec![9, 9, 10, 20, 30]), vec![30, 20, 10]);
}

#[test]
fn decrypt_matches_the_aes128_reference_vector() {
    // FIPS-197 appendix C.1: AES-128 of 00112233..eeff under key 000102..0f.
    let key: Vec<u8> = (0u8..16).collect();
    let ciphertext: Vec<u8> = vec![
        0x69, 0xc4, 0xe0, 0xd8, 0x6a, 0x7b, 0x04, 0x30, 0xd8, 0xcd, 0xb7, 0x80, 0x70, 0xb4, 0xc5,
        0x5a,
    ];
    let plaintext: Vec<u8> = vec![
        0x00, 0x11, 0x22, 0x33, 0x44, 0x55, 0x66, 0x77, 0x88, 0x99, 0xaa, 0xbb, 0xcc, 0xdd, 0xee,
        0xff,
    ];
    let mut data = ciphertext.clone();
    decrypt(&mut data, &key).expect("16-byte key");
    // The buffer was padded to two blocks before decryption.
    assert_eq!(data.len(), 32);
    assert_eq!(&data[..16], plaintext.as_slice());
    assert_ne!(&data[..16], ciphertext.as_slice());
}

#[test]
fn decrypt_rejects_wrong_key_length() {
    let mut data = vec![0u8; 16];
    let err = decrypt(&mut data, &vec![1, 2, 3]);
    assert!(err.is_err());
    // The chunk was already padded by a whole extra block.
    assert_eq!(data.len(), 32);
    assert!(data[16..].iter().all(|b| *b == 16));
}
