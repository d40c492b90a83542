//! The playlist transformer: parses the raw line-oriented HLS playlist and
//! rewrites it into up to two local playlists (camera sides), substituting
//! the encryption-key reference and each remote URI with local paths.
//!
//! The parser is an explicit state machine: `Header` until the first
//! segment-duration directive, then `Side1`, switching to `Side2` at a
//! discontinuity directive, finished by the end-of-playlist directive.
use vstd::prelude::*;

verus! {

use vstd::slice::slice_subrange;
use vstd::slice::slice_to_vec;
use vstd::string::StrSliceExecFns;
use vstd::string::StringSliceAdditionalSpecFns;

use crate::error::DownloadError;
use crate::manifest::Resolution;
use crate::text::append_bytes;
use crate::text::dec_digits;
use crate::text::line_has_prefix;
use crate::text::prefix_matches;
use crate::text::u64_to_dec;

/// Parser states. `Done` is implicit: the transformer returns at the
/// end-of-playlist directive.
#[derive(Debug, Clone, Copy, PartialEq, Eq, Structural)]
pub enum ParseState {
    Header,
    Side1,
    Side2,
}

/// One chunk referenced by the playlist: where it lives remotely, where the
/// rewritten playlist expects it locally, which camera side it belongs to,
/// and its position in the combined chunk numbering.
pub struct Segment {
    pub remote_url: Vec<u8>,
    pub local_path: Vec<u8>,
    pub side: u8,
    pub ordinal: u64,
}

/// Mathematical image of a [`Segment`].
#[verifier::ext_equal]
pub ghost struct GSegment {
    pub remote_url: Seq<u8>,
    pub local_path: Seq<u8>,
    pub side: u8,
    pub ordinal: nat,
}

impl View for Segment {
    type V = GSegment;

    open spec fn view(&self) -> GSegment {
        GSegment {
            remote_url: self.remote_url@,
            local_path: self.local_path@,
            side: self.side,
            ordinal: self.ordinal as nat,
        }
    }
}

impl DeepView for Segment {
    type V = GSegment;

    open spec fn deep_view(&self) -> GSegment {
        self.view()
    }
}

/// Everything the rewrite needs besides the playlist text: the local key
/// file, the lecture identity and naming inputs for deterministic local
/// segment file names, and the segment cache directory.
pub struct RewriteConfig {
    pub ttid: u64,
    pub filename: Vec<u8>,
    pub resolution: Resolution,
    pub ts_dir: Vec<u8>,
    pub key_file_path: Vec<u8>,
}

/// The rewritten playlists and the chunks they reference. `side2` is
/// present exactly when the source playlist contained a discontinuity
/// directive.
pub struct TransformOutput {
    pub side1: Vec<u8>,
    pub side2: Option<Vec<u8>>,
    pub segments: Vec<Segment>,
}

/// Mathematical image of a [`TransformOutput`].
#[verifier::ext_equal]
pub ghost struct GTransform {
    pub side1: Seq<u8>,
    pub side2: Option<Seq<u8>>,
    pub segments: Seq<GSegment>,
}

impl TransformOutput {
    pub open spec fn spec_done(&self) -> GTransform {
        GTransform {
            side1: self.side1@,
            side2: match self.side2 {
                Some(v) => Some(v@),
                None => None,
            },
            segments: self.segments.deep_view(),
        }
    }
}

/// Accumulated transformer state while lines are consumed.
#[verifier::ext_equal]
pub ghost struct TAcc {
    pub state: ParseState,
    pub out1: Seq<u8>,
    pub out2: Seq<u8>,
    pub has2: bool,
    pub segs: Seq<GSegment>,
    pub ordinal: nat,
}

pub open spec fn initial_acc() -> TAcc {
    TAcc {
        state: ParseState::Header,
        out1: Seq::empty(),
        out2: Seq::empty(),
        has2: false,
        segs: Seq::empty(),
        ordinal: 0,
    }
}

pub open spec fn extinf_prefix() -> Seq<u8> {
    "#EXTINF".spec_bytes()
}

pub open spec fn discontinuity_prefix() -> Seq<u8> {
    "#EXT-X-DISCONTINUITY".spec_bytes()
}

pub open spec fn endlist_directive() -> Seq<u8> {
    "#EXT-X-ENDLIST".spec_bytes()
}

pub open spec fn key_method_prefix() -> Seq<u8> {
    "#EXT-X-KEY:METHOD=".spec_bytes()
}

pub open spec fn nl() -> Seq<u8> {
    seq![10u8]
}

/// Index of the first comma at or after `i`, or the line's length.
pub open spec fn first_comma_from(line: Seq<u8>, i: int) -> int
    decreases line.len() - i,
{
    if i < 0 || i >= line.len() {
        line.len() as int
    } else if line[i] == 44 {
        i
    } else {
        first_comma_from(line, i + 1)
    }
}

/// Each backslash doubled, so the path survives m3u8 attribute quoting.
pub open spec fn escape_backslashes(s: Seq<u8>) -> Seq<u8>
    decreases s.len(),
{
    if s.len() == 0 {
        Seq::empty()
    } else {
        escape_backslashes(s.drop_last()) + (if s.last() == 92 {
            seq![92u8, 92u8]
        } else {
            seq![s.last()]
        })
    }
}

/// The rewritten encryption-key directive: the method field of the source
/// line, then a URI attribute naming the local key file.
pub open spec fn key_line_rewrite(line: Seq<u8>, key_path: Seq<u8>) -> Seq<u8> {
    line.subrange(0, first_comma_from(line, 0)) + ",URI=\"".spec_bytes() + escape_backslashes(
        key_path,
    ) + "\"".spec_bytes() + nl()
}

/// Deterministic local file name of one chunk, a function of the lecture
/// id, the sanitized display name, the side, the ordinal and the
/// resolution.
pub open spec fn segment_file_name(cfg: RewriteConfig, side: u8, ordinal: nat) -> Seq<u8> {
    "tmp_ttid_".spec_bytes() + dec_digits(cfg.ttid as nat) + seq![95u8] + cfg.filename@
        + "_side_".spec_bytes() + dec_digits(side as nat) + seq![95u8] + dec_digits(ordinal)
        + seq![95u8] + cfg.resolution.spec_name_label() + ".ts".spec_bytes()
}

pub open spec fn local_segment_path(cfg: RewriteConfig, side: u8, ordinal: nat) -> Seq<u8> {
    cfg.ts_dir@ + seq![47u8] + segment_file_name(cfg, side, ordinal)
}

pub open spec fn state_rank(s: ParseState) -> int {
    if s is Header {
        1
    } else {
        0
    }
}

/// The transformer, one line-consuming step per recursive call, starting
/// from line `i` with accumulated state `acc`. `None` is a fatal parse
/// error: the playlist ended without the end-of-playlist directive, or a
/// directive's expected following line is missing.
pub open spec fn spec_transform_from(
    lines: Seq<Seq<u8>>,
    i: int,
    acc: TAcc,
    cfg: RewriteConfig,
) -> Option<GTransform>
    decreases lines.len() - i, state_rank(acc.state),
{
    if i < 0 || i >= lines.len() {
        None
    } else {
        let line = lines[i];
        if acc.state is Header && prefix_matches(line, extinf_prefix()) {
            // The header block ends: duplicate it as side 2's header, then
            // reprocess this directive as side 1's first chunk.
            spec_transform_from(
                lines,
                i,
                TAcc { state: ParseState::Side1, out2: acc.out1, ..acc },
                cfg,
            )
        } else if prefix_matches(line, discontinuity_prefix()) {
            // Camera switch: the URI line that follows marks the switch,
            // not a chunk, and is consumed and discarded.
            if i + 1 < lines.len() {
                spec_transform_from(
                    lines,
                    i + 2,
                    TAcc { state: ParseState::Side2, has2: true, ..acc },
                    cfg,
                )
            } else {
                None
            }
        } else if prefix_matches(line, endlist_directive()) {
            Some(
                GTransform {
                    side1: acc.out1 + endlist_directive(),
                    side2: if acc.has2 {
                        Some(acc.out2 + endlist_directive())
                    } else {
                        None
                    },
                    segments: acc.segs,
                },
            )
        } else if acc.state is Header {
            let appended = if prefix_matches(line, key_method_prefix()) {
                key_line_rewrite(line, cfg.key_file_path@)
            } else {
                line + nl()
            };
            spec_transform_from(lines, i + 1, TAcc { out1: acc.out1 + appended, ..acc }, cfg)
        } else {
            // A segment-duration directive and the remote URI that follows.
            if i + 1 < lines.len() {
                let uri = lines[i + 1];
                let side: u8 = if acc.state is Side1 {
                    1
                } else {
                    2
                };
                let local = local_segment_path(cfg, side, acc.ordinal);
                let entry = line + nl() + local + nl();
                let seg = GSegment {
                    remote_url: uri,
                    local_path: local,
                    side: side,
                    ordinal: acc.ordinal,
                };
                if acc.state is Side1 {
                    spec_transform_from(
                        lines,
                        i + 2,
                        TAcc {
                            out1: acc.out1 + entry,
                            segs: acc.segs.push(seg),
                            ordinal: acc.ordinal + 1,
                            ..acc
                        },
                        cfg,
                    )
                } else {
                    spec_transform_from(
                        lines,
                        i + 2,
                        TAcc {
                            out2: acc.out2 + entry,
                            segs: acc.segs.push(seg),
                            ordinal: acc.ordinal + 1,
                            ..acc
                        },
                        cfg,
                    )
                }
            } else {
                None
            }
        }
    }
}

/// The whole transformation, from the first line in the header state.
pub open spec fn spec_transform(lines: Seq<Seq<u8>>, cfg: RewriteConfig) -> Option<GTransform> {
    spec_transform_from(lines, 0, initial_acc(), cfg)
}

proof fn lemma_no_disc_from(lines: Seq<Seq<u8>>, i: int, acc: TAcc, cfg: RewriteConfig, t: GTransform)
    requires
        !acc.has2,
        forall|k: int| 0 <= k < lines.len() ==> !prefix_matches(lines[k], discontinuity_prefix()),
        spec_transform_from(lines, i, acc, cfg) == Some(t),
    ensures
        t.side2 is None,
    decreases lines.len() - i, state_rank(acc.state),
{
    if i < 0 || i >= lines.len() {
    } else {
        let line = lines[i];
        if acc.state is Header && prefix_matches(line, extinf_prefix()) {
            lemma_no_disc_from(
                lines,
                i,
                TAcc { state: ParseState::Side1, out2: acc.out1, ..acc },
                cfg,
                t,
            );
        } else if prefix_matches(line, discontinuity_prefix()) {
            // excluded by hypothesis
        } else if prefix_matches(line, endlist_directive()) {
        } else if acc.state is Header {
            let appended = if prefix_matches(line, key_method_prefix()) {
                key_line_rewrite(line, cfg.key_file_path@)
            } else {
                line + nl()
            };
            lemma_no_disc_from(lines, i + 1, TAcc { out1: acc.out1 + appended, ..acc }, cfg, t);
        } else if i + 1 < lines.len() {
            let uri = lines[i + 1];
            let side: u8 = if acc.state is Side1 {
                1
            } else {
                2
            };
            let local = local_segment_path(cfg, side, acc.ordinal);
            let entry = line + nl() + local + nl();
            let seg = GSegment { remote_url: uri, local_path: local, side: side, ordinal: acc.ordinal };
            if acc.state is Side1 {
                lemma_no_disc_from(
                    lines,
                    i + 2,
                    TAcc {
                        out1: acc.out1 + entry,
                        segs: acc.segs.push(seg),
                        ordinal: acc.ordinal + 1,
                        ..acc
                    },
                    cfg,
                    t,
                );
            } else {
                lemma_no_disc_from(
                    lines,
                    i + 2,
                    TAcc {
                        out2: acc.out2 + entry,
                        segs: acc.segs.push(seg),
                        ordinal: acc.ordinal + 1,
                        ..acc
                    },
                    cfg,
                    t,
                );
            }
        }
    }
}

/// Law: a source playlist without a discontinuity directive produces only
/// side 1.
pub proof fn lemma_no_discontinuity_single_side(
    lines: Seq<Seq<u8>>,
    cfg: RewriteConfig,
    t: GTransform,
)
    requires
        forall|k: int| 0 <= k < lines.len() ==> !prefix_matches(lines[k], discontinuity_prefix()),
        spec_transform(lines, cfg) == Some(t),
    ensures
        t.side2 is None,
{
    lemma_no_disc_from(lines, 0, initial_acc(), cfg, t);
}

proof fn lemma_endlist_suffix_from(
    lines: Seq<Seq<u8>>,
    i: int,
    acc: TAcc,
    cfg: RewriteConfig,
    t: GTransform,
)
    requires
        spec_transform_from(lines, i, acc, cfg) == Some(t),
    ensures
        exists|p: Seq<u8>| t.side1 == p + endlist_directive(),
        t.side2 matches Some(s2) ==> exists|p: Seq<u8>| s2 == p + endlist_directive(),
    decreases lines.len() - i, state_rank(acc.state),
{
    if i < 0 || i >= lines.len() {
    } else {
        let line = lines[i];
        if acc.state is Header && prefix_matches(line, extinf_prefix()) {
            lemma_endlist_suffix_from(
                lines,
                i,
                TAcc { state: ParseState::Side1, out2: acc.out1, ..acc },
                cfg,
                t,
            );
        } else if prefix_matches(line, discontinuity_prefix()) {
            if i + 1 < lines.len() {
                lemma_endlist_suffix_from(
                    lines,
                    i + 2,
                    TAcc { state: ParseState::Side2, has2: true, ..acc },
                    cfg,
                    t,
                );
            }
        } else if prefix_matches(line, endlist_directive()) {
            assert(t.side1 == acc.out1 + endlist_directive());
            if acc.has2 {
                assert(t.side2 == Some(acc.out2 + endlist_directive()));
            }
        } else if acc.state is Header {
            let appended = if prefix_matches(line, key_method_prefix()) {
                key_line_rewrite(line, cfg.key_file_path@)
            } else {
                line + nl()
            };
            lemma_endlist_suffix_from(
                lines,
                i + 1,
                TAcc { out1: acc.out1 + appended, ..acc },
                cfg,
                t,
            );
        } else if i + 1 < lines.len() {
            let uri = lines[i + 1];
            let side: u8 = if acc.state is Side1 {
                1
            } else {
                2
            };
            let local = local_segment_path(cfg, side, acc.ordinal);
            let entry = line + nl() + local + nl();
            let seg = GSegment { remote_url: uri, local_path: local, side: side, ordinal: acc.ordinal };
            if acc.state is Side1 {
                lemma_endlist_suffix_from(
                    lines,
                    i + 2,
                    TAcc {
                        out1: acc.out1 + entry,
                        segs: acc.segs.push(seg),
                        ordinal: acc.ordinal + 1,
                        ..acc
                    },
                    cfg,
                    t,
                );
            } else {
                lemma_endlist_suffix_from(
                    lines,
                    i + 2,
                    TAcc {
                        out2: acc.out2 + entry,
                        segs: acc.segs.push(seg),
                        ordinal: acc.ordinal + 1,
                        ..acc
                    },
                    cfg,
                    t,
                );
            }
        }
    }
}

/// Law: the rewrite is a function of the source playlist and the rewrite
/// configuration alone, so a re-run over the same source reproduces the
/// local playlists byte for byte. (That a full cache also plans zero
/// network calls is [`crate::fetch::lemma_resume_makes_no_fetches`].)
pub proof fn lemma_rewrite_deterministic(
    lines: Seq<Seq<u8>>,
    cfg: RewriteConfig,
    a: GTransform,
    b: GTransform,
)
    requires
        spec_transform(lines, cfg) == Some(a),
        spec_transform(lines, cfg) == Some(b),
    ensures
        a == b,
{
}

/// Law: every produced side ends in the end-of-playlist directive.
pub proof fn lemma_sides_end_with_endlist(lines: Seq<Seq<u8>>, cfg: RewriteConfig, t: GTransform)
    requires
        spec_transform(lines, cfg) == Some(t),
    ensures
        exists|p: Seq<u8>| t.side1 == p + endlist_directive(),
        t.side2 matches Some(s2) ==> exists|p: Seq<u8>| s2 == p + endlist_directive(),
{
    lemma_endlist_suffix_from(lines, 0, initial_acc(), cfg, t);
}

/// The segments one run of directive/URI pairs contributes to one side,
/// ordinals counting on from `start_ord`.
pub open spec fn pair_segs(
    pairs: Seq<(Seq<u8>, Seq<u8>)>,
    cfg: RewriteConfig,
    side: u8,
    start_ord: nat,
) -> Seq<GSegment>
    decreases pairs.len(),
{
    if pairs.len() == 0 {
        Seq::empty()
    } else {
        seq![
            GSegment {
                remote_url: pairs[0].1,
                local_path: local_segment_path(cfg, side, start_ord),
                side: side,
                ordinal: start_ord,
            },
        ] + pair_segs(pairs.drop_first(), cfg, side, start_ord + 1)
    }
}

proof fn lemma_pair_segs_props(pairs: Seq<(Seq<u8>, Seq<u8>)>, cfg: RewriteConfig, side: u8, start_ord: nat)
    ensures
        pair_segs(pairs, cfg, side, start_ord).len() == pairs.len(),
        forall|k: int|
            0 <= k < pairs.len() ==> #[trigger] pair_segs(pairs, cfg, side, start_ord)[k]
                == (GSegment {
                remote_url: pairs[k].1,
                local_path: local_segment_path(cfg, side, (start_ord + k) as nat),
                side: side,
                ordinal: (start_ord + k) as nat,
            }),
    decreases pairs.len(),
{
    if pairs.len() > 0 {
        lemma_pair_segs_props(pairs.drop_first(), cfg, side, start_ord + 1);
    }
}

/// A line that carries the end-of-playlist directive cannot be read as a
/// discontinuity directive: the two differ within their shared length.
proof fn lemma_endlist_not_discontinuity(line: Seq<u8>)
    requires
        prefix_matches(line, endlist_directive()),
    ensures
        !prefix_matches(line, discontinuity_prefix()),
{
    reveal_strlit("#EXT-X-ENDLIST");
    reveal_strlit("#EXT-X-DISCONTINUITY");
    let e = "#EXT-X-ENDLIST"@;
    let d = "#EXT-X-DISCONTINUITY"@;
    assert(vstd::utf8::is_ascii_chars(e));
    assert(vstd::utf8::is_ascii_chars(d));
    vstd::utf8::is_ascii_chars_encode_utf8(e);
    vstd::utf8::is_ascii_chars_encode_utf8(d);
    assert(endlist_directive()[7] == 'E' as u8);
    assert(discontinuity_prefix()[7] == 'D' as u8);
    if prefix_matches(line, discontinuity_prefix()) {
        assert(line[7] == 'D' as u8);
        assert(line[7] == 'E' as u8);
        assert(false);
    }
}

#[verifier::rlimit(50)]
proof fn lemma_header_run(lines: Seq<Seq<u8>>, i: int, acc: TAcc, cfg: RewriteConfig, n: int)
    requires
        acc.state is Header,
        0 <= i,
        0 <= n,
        i + n <= lines.len(),
        forall|j: int|
            i <= j < i + n ==> !prefix_matches(#[trigger] lines[j], extinf_prefix())
                && !prefix_matches(lines[j], discontinuity_prefix()) && !prefix_matches(
                lines[j],
                endlist_directive(),
            ),
    ensures
        exists|o1: Seq<u8>|
            spec_transform_from(lines, i, acc, cfg) == spec_transform_from(
                lines,
                i + n,
                TAcc { out1: o1, ..acc },
                cfg,
            ),
    decreases n,
{
    if n == 0 {
        assert(TAcc { out1: acc.out1, ..acc } =~= acc);
        assert(spec_transform_from(lines, i, acc, cfg) == spec_transform_from(
            lines,
            i + 0,
            TAcc { out1: acc.out1, ..acc },
            cfg,
        ));
    } else {
        let line = lines[i];
        let appended = if prefix_matches(line, key_method_prefix()) {
            key_line_rewrite(line, cfg.key_file_path@)
        } else {
            line + nl()
        };
        let acc1 = TAcc { out1: acc.out1 + appended, ..acc };
        assert(spec_transform_from(lines, i, acc, cfg) == spec_transform_from(
            lines,
            i + 1,
            acc1,
            cfg,
        ));
        lemma_header_run(lines, i + 1, acc1, cfg, n - 1);
        let o1p = choose|o: Seq<u8>|
            spec_transform_from(lines, i + 1, acc1, cfg) == spec_transform_from(
                lines,
                i + n,
                TAcc { out1: o, ..acc1 },
                cfg,
            );
        assert(TAcc { out1: o1p, ..acc1 } =~= TAcc { out1: o1p, ..acc });
        assert(spec_transform_from(lines, i, acc, cfg) == spec_transform_from(
            lines,
            i + n,
            TAcc { out1: o1p, ..acc },
            cfg,
        ));
    }
}

proof fn lemma_pair_run(
    lines: Seq<Seq<u8>>,
    i: int,
    acc: TAcc,
    cfg: RewriteConfig,
    pairs: Seq<(Seq<u8>, Seq<u8>)>,
    side: u8,
)
    requires
        0 <= i,
        i + 2 * pairs.len() <= lines.len(),
        (acc.state is Side1 && side == 1) || (acc.state is Side2 && side == 2),
        forall|k: int|
            0 <= k < pairs.len() ==> lines[i + 2 * k] == (#[trigger] pairs[k]).0 && lines[i + 2 * k
                + 1] == pairs[k].1,
        forall|k: int|
            0 <= k < pairs.len() ==> !prefix_matches((#[trigger] pairs[k]).0, discontinuity_prefix())
                && !prefix_matches(pairs[k].0, endlist_directive()),
    ensures
        exists|o1: Seq<u8>, o2: Seq<u8>|
            spec_transform_from(lines, i, acc, cfg) == #[trigger] spec_transform_from(
                lines,
                i + 2 * pairs.len(),
                TAcc {
                    out1: o1,
                    out2: o2,
                    segs: acc.segs + pair_segs(pairs, cfg, side, acc.ordinal),
                    ordinal: (acc.ordinal + pairs.len()) as nat,
                    ..acc
                },
                cfg,
            ),
    decreases pairs.len(),
{
    if pairs.len() == 0 {
        let accz = TAcc {
            out1: acc.out1,
            out2: acc.out2,
            segs: acc.segs + pair_segs(pairs, cfg, side, acc.ordinal),
            ordinal: (acc.ordinal + pairs.len()) as nat,
            ..acc
        };
        assert(acc.segs + pair_segs(pairs, cfg, side, acc.ordinal) =~= acc.segs);
        assert(accz =~= acc);
        assert(spec_transform_from(lines, i, acc, cfg) == spec_transform_from(
            lines,
            i + 2 * pairs.len(),
            accz,
            cfg,
        ));
    } else {
        let line = lines[i];
        let uri = lines[i + 1];
        assert(line == pairs[0].0 && uri == pairs[0].1);
        let local = local_segment_path(cfg, side, acc.ordinal);
        let entry = line + nl() + local + nl();
        let seg = GSegment { remote_url: uri, local_path: local, side: side, ordinal: acc.ordinal };
        let acc1 = if acc.state is Side1 {
            TAcc { out1: acc.out1 + entry, segs: acc.segs.push(seg), ordinal: acc.ordinal + 1, ..acc }
        } else {
            TAcc { out2: acc.out2 + entry, segs: acc.segs.push(seg), ordinal: acc.ordinal + 1, ..acc }
        };
        assert(spec_transform_from(lines, i, acc, cfg) == spec_transform_from(
            lines,
            i + 2,
            acc1,
            cfg,
        ));
        let rest = pairs.drop_first();
        assert forall|k: int| 0 <= k < rest.len() implies lines[i + 2 + 2 * k] == (#[trigger] rest[k]).0
            && lines[i + 2 + 2 * k + 1] == rest[k].1 && !prefix_matches(
            rest[k].0,
            discontinuity_prefix(),
        ) && !prefix_matches(rest[k].0, endlist_directive()) by {
            assert(rest[k] == pairs[k + 1]);
            assert(lines[i + 2 * (k + 1)] == pairs[k + 1].0 && lines[i + 2 * (k + 1) + 1] == pairs[k
                + 1].1);
            assert(i + 2 + 2 * k == i + 2 * (k + 1));
        }
        lemma_pair_run(lines, i + 2, acc1, cfg, rest, side);
        let (o1p, o2p): (Seq<u8>, Seq<u8>) = choose|o1: Seq<u8>, o2: Seq<u8>|
            spec_transform_from(lines, i + 2, acc1, cfg) == #[trigger] spec_transform_from(
                lines,
                i + 2 + 2 * rest.len(),
                TAcc {
                    out1: o1,
                    out2: o2,
                    segs: acc1.segs + pair_segs(rest, cfg, side, acc1.ordinal),
                    ordinal: (acc1.ordinal + rest.len()) as nat,
                    ..acc1
                },
                cfg,
            );
        assert(acc1.segs + pair_segs(rest, cfg, side, acc1.ordinal) =~= acc.segs + pair_segs(
            pairs,
            cfg,
            side,
            acc.ordinal,
        ));
        assert(TAcc {
            out1: o1p,
            out2: o2p,
            segs: acc1.segs + pair_segs(rest, cfg, side, acc1.ordinal),
            ordinal: (acc1.ordinal + rest.len()) as nat,
            ..acc1
        } =~= TAcc {
            out1: o1p,
            out2: o2p,
            segs: acc.segs + pair_segs(pairs, cfg, side, acc.ordinal),
            ordinal: (acc.ordinal + pairs.len()) as nat,
            ..acc
        });
        assert(spec_transform_from(lines, i, acc, cfg) == spec_transform_from(
            lines,
            i + 2 * pairs.len(),
            TAcc {
                out1: o1p,
                out2: o2p,
                segs: acc.segs + pair_segs(pairs, cfg, side, acc.ordinal),
                ordinal: (acc.ordinal + pairs.len()) as nat,
                ..acc
            },
            cfg,
        ));
    }
}

/// Law: a source playlist of the two-camera shape — header lines, side
/// 1's directive/URI pairs opened by a segment-duration directive, a
/// discontinuity directive with its camera-switch URI, side 2's pairs,
/// and the end-of-playlist directive — transforms into exactly two sides,
/// whose segments are exactly the two pair runs' URIs: side 1's pairs on
/// side 1, side 2's pairs on side 2, and the switch URI in neither.
pub proof fn lemma_two_camera_split(
    lines: Seq<Seq<u8>>,
    hl: int,
    pairs1: Seq<(Seq<u8>, Seq<u8>)>,
    marker: Seq<u8>,
    pairs2: Seq<(Seq<u8>, Seq<u8>)>,
    cfg: RewriteConfig,
)
    requires
        0 <= hl,
        lines.len() == hl + 2 * pairs1.len() + 2 + 2 * pairs2.len() + 1,
        forall|j: int|
            0 <= j < hl ==> !prefix_matches(#[trigger] lines[j], extinf_prefix())
                && !prefix_matches(lines[j], discontinuity_prefix()) && !prefix_matches(
                lines[j],
                endlist_directive(),
            ),
        pairs1.len() >= 1,
        prefix_matches(pairs1[0].0, extinf_prefix()),
        forall|k: int|
            0 <= k < pairs1.len() ==> lines[hl + 2 * k] == (#[trigger] pairs1[k]).0 && lines[hl + 2
                * k + 1] == pairs1[k].1,
        forall|k: int|
            0 <= k < pairs1.len() ==> !prefix_matches(
                (#[trigger] pairs1[k]).0,
                discontinuity_prefix(),
            ) && !prefix_matches(pairs1[k].0, endlist_directive()),
        prefix_matches(lines[hl + 2 * pairs1.len()], discontinuity_prefix()),
        marker == lines[hl + 2 * pairs1.len() + 1],
        forall|k: int|
            0 <= k < pairs2.len() ==> lines[hl + 2 * pairs1.len() + 2 + 2 * k] == (
            #[trigger] pairs2[k]).0 && lines[hl + 2 * pairs1.len() + 2 + 2 * k + 1] == pairs2[k].1,
        forall|k: int|
            0 <= k < pairs2.len() ==> !prefix_matches(
                (#[trigger] pairs2[k]).0,
                discontinuity_prefix(),
            ) && !prefix_matches(pairs2[k].0, endlist_directive()),
        prefix_matches(lines[lines.len() - 1], endlist_directive()),
    ensures
        spec_transform(lines, cfg) matches Some(t) && t.side2 is Some && t.segments == pair_segs(
            pairs1,
            cfg,
            1,
            0,
        ) + pair_segs(pairs2, cfg, 2, pairs1.len() as nat),
{
    let acc0 = initial_acc();
    lemma_header_run(lines, 0, acc0, cfg, hl);
    let o1a = choose|o: Seq<u8>|
        spec_transform_from(lines, 0, acc0, cfg) == spec_transform_from(
            lines,
            hl,
            TAcc { out1: o, ..acc0 },
            cfg,
        );
    let acc_a = TAcc { out1: o1a, ..acc0 };
    // The first segment-duration directive ends the header.
    assert(lines[hl] == pairs1[0].0);
    let acc_b = TAcc { state: ParseState::Side1, out2: acc_a.out1, ..acc_a };
    assert(spec_transform_from(lines, hl, acc_a, cfg) == spec_transform_from(
        lines,
        hl,
        acc_b,
        cfg,
    ));
    lemma_pair_run(lines, hl, acc_b, cfg, pairs1, 1);
    let (o1c, o2c): (Seq<u8>, Seq<u8>) = choose|o1: Seq<u8>, o2: Seq<u8>|
        spec_transform_from(lines, hl, acc_b, cfg) == #[trigger] spec_transform_from(
            lines,
            hl + 2 * pairs1.len(),
            TAcc {
                out1: o1,
                out2: o2,
                segs: acc_b.segs + pair_segs(pairs1, cfg, 1, acc_b.ordinal),
                ordinal: (acc_b.ordinal + pairs1.len()) as nat,
                ..acc_b
            },
            cfg,
        );
    let i2 = hl + 2 * pairs1.len();
    let acc_c = TAcc {
        out1: o1c,
        out2: o2c,
        segs: acc_b.segs + pair_segs(pairs1, cfg, 1, acc_b.ordinal),
        ordinal: (acc_b.ordinal + pairs1.len()) as nat,
        ..acc_b
    };
    assert(acc_c.segs =~= pair_segs(pairs1, cfg, 1, 0));
    // The discontinuity: its camera-switch URI is consumed and discarded.
    let acc_d = TAcc { state: ParseState::Side2, has2: true, ..acc_c };
    assert(spec_transform_from(lines, i2, acc_c, cfg) == spec_transform_from(
        lines,
        i2 + 2,
        acc_d,
        cfg,
    ));
    assert forall|k: int| 0 <= k < pairs2.len() implies lines[i2 + 2 + 2 * k] == (
        #[trigger] pairs2[k]).0 && lines[i2 + 2 + 2 * k + 1] == pairs2[k].1 by {
        assert(lines[hl + 2 * pairs1.len() + 2 + 2 * k] == pairs2[k].0);
    }
    lemma_pair_run(lines, i2 + 2, acc_d, cfg, pairs2, 2);
    let (o1e, o2e): (Seq<u8>, Seq<u8>) = choose|o1: Seq<u8>, o2: Seq<u8>|
        spec_transform_from(lines, i2 + 2, acc_d, cfg) == #[trigger] spec_transform_from(
            lines,
            i2 + 2 + 2 * pairs2.len(),
            TAcc {
                out1: o1,
                out2: o2,
                segs: acc_d.segs + pair_segs(pairs2, cfg, 2, acc_d.ordinal),
                ordinal: (acc_d.ordinal + pairs2.len()) as nat,
                ..acc_d
            },
            cfg,
        );
    let i3 = i2 + 2 + 2 * pairs2.len();
    let acc_e = TAcc {
        out1: o1e,
        out2: o2e,
        segs: acc_d.segs + pair_segs(pairs2, cfg, 2, acc_d.ordinal),
        ordinal: (acc_d.ordinal + pairs2.len()) as nat,
        ..acc_d
    };
    // The end-of-playlist directive finishes both sides.
    assert(i3 == lines.len() - 1);
    assert(prefix_matches(lines[i3], endlist_directive()));
    lemma_endlist_not_discontinuity(lines[i3]);
    assert(spec_transform_from(lines, i3, acc_e, cfg) == Some(
        GTransform {
            side1: acc_e.out1 + endlist_directive(),
            side2: Some(acc_e.out2 + endlist_directive()),
            segments: acc_e.segs,
        },
    ));
    assert(acc_e.segs =~= pair_segs(pairs1, cfg, 1, 0) + pair_segs(
        pairs2,
        cfg,
        2,
        pairs1.len() as nat,
    ));
}

/// Law: in the two-camera shape, side 2's segments exclude the URI
/// immediately following the discontinuity marker (stated for playlists
/// whose chunk URIs differ from that switch URI).
pub proof fn lemma_switch_marker_excluded(
    lines: Seq<Seq<u8>>,
    hl: int,
    pairs1: Seq<(Seq<u8>, Seq<u8>)>,
    marker: Seq<u8>,
    pairs2: Seq<(Seq<u8>, Seq<u8>)>,
    cfg: RewriteConfig,
    t: GTransform,
)
    requires
        0 <= hl,
        lines.len() == hl + 2 * pairs1.len() + 2 + 2 * pairs2.len() + 1,
        forall|j: int|
            0 <= j < hl ==> !prefix_matches(#[trigger] lines[j], extinf_prefix())
                && !prefix_matches(lines[j], discontinuity_prefix()) && !prefix_matches(
                lines[j],
                endlist_directive(),
            ),
        pairs1.len() >= 1,
        prefix_matches(pairs1[0].0, extinf_prefix()),
        forall|k: int|
            0 <= k < pairs1.len() ==> lines[hl + 2 * k] == (#[trigger] pairs1[k]).0 && lines[hl + 2
                * k + 1] == pairs1[k].1,
        forall|k: int|
            0 <= k < pairs1.len() ==> !prefix_matches(
                (#[trigger] pairs1[k]).0,
                discontinuity_prefix(),
            ) && !prefix_matches(pairs1[k].0, endlist_directive()),
        prefix_matches(lines[hl + 2 * pairs1.len()], discontinuity_prefix()),
        marker == lines[hl + 2 * pairs1.len() + 1],
        forall|k: int|
            0 <= k < pairs2.len() ==> lines[hl + 2 * pairs1.len() + 2 + 2 * k] == (
            #[trigger] pairs2[k]).0 && lines[hl + 2 * pairs1.len() + 2 + 2 * k + 1] == pairs2[k].1,
        forall|k: int|
            0 <= k < pairs2.len() ==> !prefix_matches(
                (#[trigger] pairs2[k]).0,
                discontinuity_prefix(),
            ) && !prefix_matches(pairs2[k].0, endlist_directive()),
        prefix_matches(lines[lines.len() - 1], endlist_directive()),
        forall|k: int| 0 <= k < pairs2.len() ==> (#[trigger] pairs2[k]).1 != marker,
        spec_transform(lines, cfg) == Some(t),
    ensures
        t.side2 is Some,
        forall|j: int|
            0 <= j < t.segments.len() && (#[trigger] t.segments[j]).side == 2
                ==> t.segments[j].remote_url != marker,
{
    lemma_two_camera_split(lines, hl, pairs1, marker, pairs2, cfg);
    lemma_pair_segs_props(pairs1, cfg, 1, 0);
    lemma_pair_segs_props(pairs2, cfg, 2, pairs1.len() as nat);
    assert forall|j: int|
        0 <= j < t.segments.len() && (#[trigger] t.segments[j]).side == 2
            implies t.segments[j].remote_url != marker by {
        if j < pairs1.len() {
            assert(t.segments[j] == pair_segs(pairs1, cfg, 1, 0)[j]);
            assert(t.segments[j].side == 1);
        } else {
            let k = j - pairs1.len();
            assert(t.segments[j] == pair_segs(pairs2, cfg, 2, pairs1.len() as nat)[k]);
            assert(t.segments[j].remote_url == pairs2[k].1);
        }
    }
}

fn first_comma(line: &Vec<u8>) -> (r: usize)
    ensures
        r == first_comma_from(line@, 0),
        r <= line@.len(),
{
    let mut i: usize = 0;
    while i < line.len()
        invariant
            i <= line.len(),
            first_comma_from(line@, 0) == first_comma_from(line@, i as int),
        decreases line.len() - i,
    {
        if line[i] == 44 {
            return i;
        }
        i += 1;
    }
    i
}

fn escape_backslashes_exec(s: &Vec<u8>) -> (r: Vec<u8>)
    ensures
        r@ == escape_backslashes(s@),
{
    let mut r: Vec<u8> = Vec::new();
    let mut i: usize = 0;
    while i < s.len()
        invariant
            i <= s.len(),
            r@ == escape_backslashes(s@.subrange(0, i as int)),
        decreases s.len() - i,
    {
        let b = s[i];
        if b == 92 {
            r.push(92);
            r.push(92);
        } else {
            r.push(b);
        }
        assert(s@.subrange(0, i + 1 as int).drop_last() =~= s@.subrange(0, i as int));
        assert(s@.subrange(0, i + 1 as int).last() == s@[i as int]);
        assert(r@ =~= escape_backslashes(s@.subrange(0, i + 1 as int)));
        i += 1;
    }
    assert(s@.subrange(0, s@.len() as int) =~= s@);
    r
}

fn key_line_rewrite_exec(line: &Vec<u8>, key_path: &Vec<u8>) -> (r: Vec<u8>)
    ensures
        r@ == key_line_rewrite(line@, key_path@),
{
    let end = first_comma(line);
    let mut r = slice_to_vec(slice_subrange(line.as_slice(), 0, end));
    let part = (",URI=\"").as_bytes_vec();
    append_bytes(&mut r, &part);
    let escaped = escape_backslashes_exec(key_path);
    append_bytes(&mut r, &escaped);
    let quote = ("\"").as_bytes_vec();
    append_bytes(&mut r, &quote);
    r.push(10);
    assert(r@ =~= key_line_rewrite(line@, key_path@));
    r
}

fn local_segment_path_exec(cfg: &RewriteConfig, side: u8, ordinal: u64) -> (r: Vec<u8>)
    ensures
        r@ == local_segment_path(*cfg, side, ordinal as nat),
{
    let mut r: Vec<u8> = Vec::new();
    append_bytes(&mut r, &cfg.ts_dir);
    r.push(47);
    let mut part = ("tmp_ttid_").as_bytes_vec();
    append_bytes(&mut r, &part);
    part = u64_to_dec(cfg.ttid);
    append_bytes(&mut r, &part);
    r.push(95);
    append_bytes(&mut r, &cfg.filename);
    part = ("_side_").as_bytes_vec();
    append_bytes(&mut r, &part);
    part = u64_to_dec(side as u64);
    append_bytes(&mut r, &part);
    r.push(95);
    part = u64_to_dec(ordinal);
    append_bytes(&mut r, &part);
    r.push(95);
    part = cfg.resolution.name_label();
    append_bytes(&mut r, &part);
    part = (".ts").as_bytes_vec();
    append_bytes(&mut r, &part);
    assert(r@ =~= local_segment_path(*cfg, side, ordinal as nat));
    r
}

/// Rewrites the raw playlist lines into local playlists. The result is
/// exactly the state machine's outcome; `Err` reports the fatal parse
/// errors: a playlist that ends without the end-of-playlist directive, or
/// a directive with no following line.
pub fn transform_playlist(lines: &Vec<Vec<u8>>, cfg: &RewriteConfig) -> (r: Result<
    TransformOutput,
    DownloadError,
>)
    ensures
        match r {
            Ok(out) => spec_transform(lines.deep_view(), *cfg) == Some(out.spec_done()),
            Err(e) => spec_transform(lines.deep_view(), *cfg) is None && e is Parse,
        },
{
    let ghost dv = lines.deep_view();
    let extinf = ("#EXTINF").as_bytes_vec();
    let discontinuity = ("#EXT-X-DISCONTINUITY").as_bytes_vec();
    let endlist = ("#EXT-X-ENDLIST").as_bytes_vec();
    let key_method = ("#EXT-X-KEY:METHOD=").as_bytes_vec();

    let mut state = ParseState::Header;
    let mut out1: Vec<u8> = Vec::new();
    let mut out2: Vec<u8> = Vec::new();
    let mut has2: bool = false;
    let mut segs: Vec<Segment> = Vec::new();
    let mut ordinal: u64 = 0;
    let mut i: usize = 0;

    assert(segs.deep_view() =~= Seq::<GSegment>::empty());
    assert(TAcc {
        state: state,
        out1: out1@,
        out2: out2@,
        has2: has2,
        segs: segs.deep_view(),
        ordinal: ordinal as nat,
    } =~= initial_acc());

    loop
        invariant
            i <= lines.len(),
            ordinal as nat <= i as nat,
            dv == lines.deep_view(),
            extinf@ == extinf_prefix(),
            discontinuity@ == discontinuity_prefix(),
            endlist@ == endlist_directive(),
            key_method@ == key_method_prefix(),
            spec_transform_from(
                dv,
                i as int,
                TAcc {
                    state: state,
                    out1: out1@,
                    out2: out2@,
                    has2: has2,
                    segs: segs.deep_view(),
                    ordinal: ordinal as nat,
                },
                *cfg,
            ) == spec_transform(dv, *cfg),
        decreases lines.len() - i, state_rank(state),
    {
        let ghost prev = TAcc {
            state: state,
            out1: out1@,
            out2: out2@,
            has2: has2,
            segs: segs.deep_view(),
            ordinal: ordinal as nat,
        };
        if i >= lines.len() {
            return Err(
                DownloadError::Parse { detail: ("Failed to read input playlist!").as_bytes_vec() },
            );
        }
        let line = &lines[i];
        assert(dv[i as int] == lines@[i as int]@);
        let in_header = match state {
            ParseState::Header => true,
            _ => false,
        };
        if in_header && line_has_prefix(line, &extinf) {
            out2 = slice_to_vec(out1.as_slice());
            state = ParseState::Side1;
            assert(spec_transform_from(
                dv,
                i as int,
                TAcc { state: ParseState::Side1, out2: prev.out1, ..prev },
                *cfg,
            ) == spec_transform(dv, *cfg));
        } else if line_has_prefix(line, &discontinuity) {
            if i + 1 >= lines.len() {
                assert(spec_transform_from(dv, i as int, prev, *cfg) is None);
                return Err(
                    DownloadError::Parse {
                        detail: (
                        "Expected a new line in the playlist file, but found nothing! Maybe the video is corrupted?").as_bytes_vec(),
                    },
                );
            }
            has2 = true;
            state = ParseState::Side2;
            i = i + 2;
            assert(spec_transform_from(
                dv,
                i as int,
                TAcc { state: ParseState::Side2, has2: true, ..prev },
                *cfg,
            ) == spec_transform(dv, *cfg));
        } else if line_has_prefix(line, &endlist) {
            append_bytes(&mut out1, &endlist);
            let side2: Option<Vec<u8>> = if has2 {
                append_bytes(&mut out2, &endlist);
                Some(out2)
            } else {
                None
            };
            let out = TransformOutput { side1: out1, side2: side2, segments: segs };
            assert(out.spec_done() =~= GTransform {
                side1: prev.out1 + endlist_directive(),
                side2: if prev.has2 {
                    Some(prev.out2 + endlist_directive())
                } else {
                    None
                },
                segments: prev.segs,
            });
            return Ok(out);
        } else if in_header {
            if line_has_prefix(line, &key_method) {
                let rewritten = key_line_rewrite_exec(line, &cfg.key_file_path);
                append_bytes(&mut out1, &rewritten);
            } else {
                append_bytes(&mut out1, line);
                out1.push(10);
                assert(out1@ =~= prev.out1 + (dv[i as int] + nl()));
            }
            i = i + 1;
            assert(spec_transform_from(
                dv,
                i as int,
                TAcc { out1: out1@, ..prev },
                *cfg,
            ) == spec_transform(dv, *cfg));
        } else {
            if i + 1 >= lines.len() {
                assert(spec_transform_from(dv, i as int, prev, *cfg) is None);
                return Err(
                    DownloadError::Parse {
                        detail: (
                        "Expected a new line in the playlist file, but found nothing! Maybe the video is corrupted?").as_bytes_vec(),
                    },
                );
            }
            let uri = &lines[i + 1];
            assert(dv[i + 1 as int] == lines@[i + 1 as int]@);
            let side: u8 = match state {
                ParseState::Side1 => 1,
                _ => 2,
            };
            let local = local_segment_path_exec(cfg, side, ordinal);
            let mut remote: Vec<u8> = Vec::new();
            append_bytes(&mut remote, uri);
            if side == 1 {
                append_bytes(&mut out1, line);
                out1.push(10);
                append_bytes(&mut out1, &local);
                out1.push(10);
                assert(out1@ =~= prev.out1 + (dv[i as int] + nl() + local_segment_path(
                    *cfg,
                    side,
                    ordinal as nat,
                ) + nl()));
            } else {
                append_bytes(&mut out2, line);
                out2.push(10);
                append_bytes(&mut out2, &local);
                out2.push(10);
                assert(out2@ =~= prev.out2 + (dv[i as int] + nl() + local_segment_path(
                    *cfg,
                    side,
                    ordinal as nat,
                ) + nl()));
            }
            let seg = Segment {
                remote_url: remote,
                local_path: local,
                side: side,
                ordinal: ordinal,
            };
            segs.push(seg);
            assert(segs.deep_view() =~= prev.segs.push(
                GSegment {
                    remote_url: dv[i + 1 as int],
                    local_path: local_segment_path(*cfg, side, ordinal as nat),
                    side: side,
                    ordinal: ordinal as nat,
                },
            ));
            ordinal = ordinal + 1;
            i = i + 2;
            assert(spec_transform_from(
                dv,
                i as int,
                TAcc {
                    state: state,
                    out1: out1@,
                    out2: out2@,
                    has2: has2,
                    segs: segs.deep_view(),
                    ordinal: ordinal as nat,
                },
                *cfg,
            ) == spec_transform(dv, *cfg));
        }
    }
}

} // verus!
