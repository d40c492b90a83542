//! Naming rules: sanitizing user-facing display names for the file
//! system, and the deterministic local file and path names of one
//! lecture's outputs.
use vstd::prelude::*;

verus! {

use vstd::string::StrSliceExecFns;
use vstd::string::StringSliceAdditionalSpecFns;

use crate::manifest::Resolution;
use crate::text::append_bytes;
use crate::text::dec_signed;
use crate::text::i32_to_dec;
use crate::text::u64_to_dec;

/// Whether a character counts as alphanumeric, by the Unicode tables.
pub uninterp spec fn char_is_alphanumeric(c: char) -> bool;

/// Whether a character counts as whitespace, by the Unicode tables.
pub uninterp spec fn char_is_whitespace(c: char) -> bool;

/// Relies on char::is_alphanumeric: the Unicode alphanumeric classes, a
/// function of the character alone.
pub assume_specification[ char::is_alphanumeric ](c: char) -> (r: bool)
    ensures
        r == char_is_alphanumeric(c),
;

/// Relies on char::is_whitespace: the Unicode whitespace class, a
/// function of the character alone.
pub assume_specification[ char::is_whitespace ](c: char) -> (r: bool)
    ensures
        r == char_is_whitespace(c),
;

/// The characters a sanitized name keeps: alphanumerics, whitespace,
/// underscore and dot.
pub open spec fn kept_char(c: char) -> bool {
    char_is_alphanumeric(c) || char_is_whitespace(c) || c == '_' || c == '.'
}

/// A display name with every other character removed.
pub open spec fn spec_remove_special(s: Seq<char>) -> Seq<char>
    decreases s.len(),
{
    if s.len() == 0 {
        Seq::empty()
    } else {
        spec_remove_special(s.drop_last()) + (if kept_char(s.last()) {
            seq![s.last()]
        } else {
            Seq::empty()
        })
    }
}

/// Sanitizes a display name for use inside file names: keeps
/// alphanumerics, whitespace, underscore and dot, drops everything else
/// (path separators and pipes included).
pub fn remove_special(string: &Vec<char>) -> (r: Vec<char>)
    ensures
        r@ == spec_remove_special(string@),
{
    let mut r: Vec<char> = Vec::new();
    let mut i: usize = 0;
    while i < string.len()
        invariant
            i <= string.len(),
            r@ == spec_remove_special(string@.subrange(0, i as int)),
        decreases string.len() - i,
    {
        let c = string[i];
        if c.is_alphanumeric() || c.is_whitespace() || c == '_' || c == '.' {
            r.push(c);
        }
        assert(string@.subrange(0, i + 1 as int).drop_last() =~= string@.subrange(0, i as int));
        assert(r@ =~= spec_remove_special(string@.subrange(0, i + 1 as int)));
        i += 1;
    }
    assert(string@.subrange(0, string@.len() as int) =~= string@);
    r
}

/// The lecture's base file name: the user-facing ordinal, an underscore,
/// and the sanitized topic.
pub fn video_file_name(number: i32, sanitized_topic: &Vec<u8>) -> (r: Vec<u8>)
    ensures
        r@ == dec_signed(number as int) + seq![95u8] + sanitized_topic@,
{
    let mut r = i32_to_dec(number);
    r.push(95);
    append_bytes(&mut r, sanitized_topic);
    r
}

/// The muxed output file's name: base name, resolution label, `.mp4`.
pub fn output_file_name(video_file: &Vec<u8>, resolution: Resolution) -> (r: Vec<u8>)
    ensures
        r@ == video_file@ + seq![95u8] + resolution.spec_name_label() + ".mp4".spec_bytes(),
{
    let mut r: Vec<u8> = Vec::new();
    append_bytes(&mut r, video_file);
    r.push(95);
    let label = resolution.name_label();
    append_bytes(&mut r, &label);
    let tail = (".mp4").as_bytes_vec();
    append_bytes(&mut r, &tail);
    r
}

/// Where one rewritten side playlist lives inside the lecture's working
/// directory.
pub fn side_playlist_path(temp: &Vec<u8>, filename: &Vec<u8>, side: u8) -> (r: Vec<u8>)
    ensures
        r@ == temp@ + seq![47u8] + filename@ + "_side_".spec_bytes() + crate::text::dec_digits(
            side as nat,
        ) + ".m3u8".spec_bytes(),
{
    let mut r: Vec<u8> = Vec::new();
    append_bytes(&mut r, temp);
    r.push(47);
    append_bytes(&mut r, filename);
    let mut part = ("_side_").as_bytes_vec();
    append_bytes(&mut r, &part);
    part = u64_to_dec(side as u64);
    append_bytes(&mut r, &part);
    part = (".m3u8").as_bytes_vec();
    append_bytes(&mut r, &part);
    r
}

/// Where the fetched key bytes are persisted for the muxer, inside the
/// lecture's working directory.
pub fn key_file_path(temp: &Vec<u8>, filename: &Vec<u8>) -> (r: Vec<u8>)
    ensures
        r@ == temp@ + seq![47u8] + filename@ + ".key.key".spec_bytes(),
{
    let mut r: Vec<u8> = Vec::new();
    append_bytes(&mut r, temp);
    r.push(47);
    append_bytes(&mut r, filename);
    let tail = (".key.key").as_bytes_vec();
    append_bytes(&mut r, &tail);
    r
}

} // verus!
