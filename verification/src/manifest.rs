//! Manifest resolution: the per-lecture track table fetched from the
//! manifest-info endpoint, selection of the resolution-specific playlist
//! URL, and the endpoint URL builders.
use vstd::prelude::*;

verus! {

use vstd::string::StrSliceExecFns;
use vstd::string::StringSliceAdditionalSpecFns;

use crate::error::DownloadError;
use crate::text::append_bytes;
use crate::text::dec_digits;
use crate::text::u64_to_dec;

/// The two resolutions the platform serves, each a track-table key.
#[derive(Debug, Clone, Copy, PartialEq, Eq, Structural)]
pub enum Resolution {
    /// 854x480.
    LowRes,
    /// 1280x720.
    HighRes,
}

impl Resolution {
    /// The track-table key this resolution selects.
    pub open spec fn spec_track_label(self) -> Seq<u8> {
        match self {
            Resolution::HighRes => "1280x720".spec_bytes(),
            Resolution::LowRes => "854x480".spec_bytes(),
        }
    }

    pub fn track_label(&self) -> (r: Vec<u8>)
        ensures
            r@ == self.spec_track_label(),
    {
        match self {
            Resolution::HighRes => ("1280x720").as_bytes_vec(),
            Resolution::LowRes => ("854x480").as_bytes_vec(),
        }
    }

    /// The short name embedded in local file names.
    pub open spec fn spec_name_label(self) -> Seq<u8> {
        match self {
            Resolution::HighRes => "high_res".spec_bytes(),
            Resolution::LowRes => "low_res".spec_bytes(),
        }
    }

    pub fn name_label(&self) -> (r: Vec<u8>)
        ensures
            r@ == self.spec_name_label(),
    {
        match self {
            Resolution::HighRes => ("high_res").as_bytes_vec(),
            Resolution::LowRes => ("low_res").as_bytes_vec(),
        }
    }
}

/// Which camera sides the platform recorded for a lecture.
#[derive(Debug, Clone, Copy, PartialEq, Eq, Structural)]
pub struct Views {
    pub left: bool,
    pub right: bool,
}

/// One entry of the track table: a resolution label and its playlist URLs.
#[derive(Clone)]
pub struct Track {
    pub label: Vec<u8>,
    pub urls: Vec<Vec<u8>>,
}

/// The parsed manifest-info document: the track table and the recorded
/// camera sides.
#[derive(Clone)]
pub struct TrackInfo {
    pub tracks: Vec<Track>,
    pub views: Views,
}

/// Index of the first track carrying `label`, scanning from `i`.
pub open spec fn first_track_with_label(tracks: Seq<Track>, label: Seq<u8>, i: int) -> Option<int>
    decreases tracks.len() - i,
{
    if i < 0 || i >= tracks.len() {
        None
    } else if tracks[i].label@ == label {
        Some(i)
    } else {
        first_track_with_label(tracks, label, i + 1)
    }
}

/// Picks the last URL of the track keyed by the requested resolution; a
/// missing key or an empty URL list is fatal for the video.
pub fn select_track_url(info: &TrackInfo, resolution: Resolution) -> (r: Result<
    Vec<u8>,
    DownloadError,
>)
    ensures
        ({
            let found = first_track_with_label(info.tracks@, resolution.spec_track_label(), 0);
            match r {
                Ok(url) => {
                    &&& found is Some
                    &&& info.tracks@[found->0].urls@.len() > 0
                    &&& url@ == info.tracks@[found->0].urls@.last()@
                },
                Err(e) => {
                    &&& (found is None || info.tracks@[found->0].urls@.len() == 0)
                    &&& e is Parse
                },
            }
        }),
{
    let label = resolution.track_label();
    let mut i: usize = 0;
    while i < info.tracks.len()
        invariant
            i <= info.tracks.len(),
            label@ == resolution.spec_track_label(),
            first_track_with_label(info.tracks@, label@, 0) == first_track_with_label(
                info.tracks@,
                label@,
                i as int,
            ),
        decreases info.tracks.len() - i,
    {
        if bytes_equal(&info.tracks[i].label, &label) {
            let track = &info.tracks[i];
            if track.urls.len() == 0 {
                return Err(
                    DownloadError::Parse {
                        detail: ("Failed to get a link in the selected resolution's playlist!").as_bytes_vec(),
                    },
                );
            }
            let url = &track.urls[track.urls.len() - 1];
            let mut out: Vec<u8> = Vec::new();
            append_bytes(&mut out, url);
            return Ok(out);
        }
        i += 1;
    }
    Err(
        DownloadError::Parse {
            detail: ("Failed to get the selected resolution's video playlist!").as_bytes_vec(),
        },
    )
}

/// Byte-for-byte equality of two buffers.
pub fn bytes_equal(a: &Vec<u8>, b: &Vec<u8>) -> (r: bool)
    ensures
        r == (a@ == b@),
{
    if a.len() != b.len() {
        assert(a@ != b@);
        return false;
    }
    let mut i: usize = 0;
    while i < a.len()
        invariant
            i <= a.len(),
            a@.len() == b@.len(),
            forall|j: int| 0 <= j < i ==> a@[j] == b@[j],
        decreases a.len() - i,
    {
        if a[i] != b[i] {
            return false;
        }
        i += 1;
    }
    assert(a@ =~= b@);
    true
}

/// `{base}/impartus/ttid/{ttid}/m3u8/info`, the manifest-info endpoint.
pub fn manifest_info_url(base: &Vec<u8>, ttid: u64) -> (r: Vec<u8>)
    ensures
        r@ == base@ + "/impartus/ttid/".spec_bytes() + dec_digits(ttid as nat)
            + "/m3u8/info".spec_bytes(),
{
    let mut r: Vec<u8> = Vec::new();
    append_bytes(&mut r, base);
    let mut part = ("/impartus/ttid/").as_bytes_vec();
    append_bytes(&mut r, &part);
    part = u64_to_dec(ttid);
    append_bytes(&mut r, &part);
    part = ("/m3u8/info").as_bytes_vec();
    append_bytes(&mut r, &part);
    r
}

/// `{base}/impartus/ttid/{ttid}/key`, the decryption-key endpoint.
pub fn key_endpoint_url(base: &Vec<u8>, ttid: u64) -> (r: Vec<u8>)
    ensures
        r@ == base@ + "/impartus/ttid/".spec_bytes() + dec_digits(ttid as nat)
            + "/key".spec_bytes(),
{
    let mut r: Vec<u8> = Vec::new();
    append_bytes(&mut r, base);
    let mut part = ("/impartus/ttid/").as_bytes_vec();
    append_bytes(&mut r, &part);
    part = u64_to_dec(ttid);
    append_bytes(&mut r, &part);
    part = ("/key").as_bytes_vec();
    append_bytes(&mut r, &part);
    r
}

/// `{host}/api/fetchvideo?tag=LC&inm3u8={manifest_url}`, the
/// segment-playlist endpoint on the selected mirror.
pub fn playlist_fetch_url(host: &Vec<u8>, manifest_url: &Vec<u8>) -> (r: Vec<u8>)
    ensures
        r@ == host@ + "/api/fetchvideo?tag=LC&inm3u8=".spec_bytes() + manifest_url@,
{
    let mut r: Vec<u8> = Vec::new();
    append_bytes(&mut r, host);
    let part = ("/api/fetchvideo?tag=LC&inm3u8=").as_bytes_vec();
    append_bytes(&mut r, &part);
    append_bytes(&mut r, manifest_url);
    r
}

} // verus!
