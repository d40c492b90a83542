//! The muxer adapter: builds the argument list for the external combiner
//! process, interprets its event stream, estimates progress from the
//! diagnostic line count, and classifies the exit as success, cancel or
//! failure.
use vstd::prelude::*;

verus! {

use vstd::arithmetic::div_mod::lemma_div_by_multiple;
use vstd::arithmetic::div_mod::lemma_div_is_ordered;
use vstd::arithmetic::mul::lemma_mul_inequality;
use vstd::string::StrSliceExecFns;
use vstd::string::StringSliceAdditionalSpecFns;

use crate::error::DownloadError;
use crate::text::append_bytes;

/// The muxer's normal exit code.
pub const MUX_SUCCESS_EXIT: i32 = 0;

/// The muxer's designated user-cancelled exit code, also a non-failure.
pub const MUX_CANCEL_EXIT: i32 = 4;

/// Coarse estimate of how many diagnostic outputs a single-side mux emits.
pub const ONE_SIDE_EXPECTED_OUTPUTS: u64 = 1400;

/// Coarse estimate of how many diagnostic outputs a two-side mux emits.
pub const TWO_SIDE_EXPECTED_OUTPUTS: u64 = 2800;

/// One event of the muxer's stream. The tool intermixes informational and
/// error text on one diagnostic stream, so diagnostic lines are buffered
/// until the exit code decides whether they mattered.
pub enum MuxEvent {
    DiagnosticLine(Vec<u8>),
    ErrorText(Vec<u8>),
    Terminated(Option<i32>),
    Other,
}

/// Watches one muxer run: the buffered diagnostic text, the line counter
/// driving the progress estimate, and the exit code once seen.
pub struct MuxMonitor {
    pub error_log: Vec<u8>,
    pub output_count: u64,
    pub expected_outputs: u64,
    pub exit_code: Option<i32>,
}

/// Mathematical image of a [`MuxMonitor`].
#[verifier::ext_equal]
pub ghost struct GMonitor {
    pub error_log: Seq<u8>,
    pub output_count: u64,
    pub expected_outputs: u64,
    pub exit_code: Option<i32>,
}

impl View for MuxMonitor {
    type V = GMonitor;

    open spec fn view(&self) -> GMonitor {
        GMonitor {
            error_log: self.error_log@,
            output_count: self.output_count,
            expected_outputs: self.expected_outputs,
            exit_code: self.exit_code,
        }
    }
}

/// Effect of one diagnostic line: it is buffered (with a newline) and the
/// counter advances, capped at the expected total.
pub open spec fn spec_diagnostic(m: GMonitor, line: Seq<u8>) -> GMonitor {
    GMonitor {
        error_log: m.error_log + line + seq![10u8],
        output_count: if m.output_count + 1 <= m.expected_outputs {
            (m.output_count + 1) as u64
        } else {
            m.expected_outputs
        },
        ..m
    }
}

/// Effect of an explicit error event: its text joins the same buffer.
pub open spec fn spec_error_text(m: GMonitor, text: Seq<u8>) -> GMonitor {
    GMonitor { error_log: m.error_log + text + seq![10u8], ..m }
}

/// Effect of termination: the exit code is recorded, and a normal or
/// user-cancelled exit clears the buffer regardless of its content.
pub open spec fn spec_terminated(m: GMonitor, code: Option<i32>) -> GMonitor {
    GMonitor {
        error_log: if code == Some(MUX_SUCCESS_EXIT) || code == Some(MUX_CANCEL_EXIT) {
            Seq::empty()
        } else {
            m.error_log
        },
        exit_code: code,
        ..m
    }
}

/// The count-based progress estimate, on the second half of the scale.
pub open spec fn spec_mux_percent(m: GMonitor) -> int {
    50 + m.output_count as int * 50 / m.expected_outputs as int
}

/// A run counts as a success exactly when it terminated normally or by
/// user cancel and no diagnostic text is left in the buffer.
pub open spec fn spec_mux_success(m: GMonitor) -> bool {
    &&& m.error_log.len() == 0
    &&& (m.exit_code == Some(MUX_SUCCESS_EXIT) || m.exit_code == Some(MUX_CANCEL_EXIT))
}

/// Law: a termination event with the designated cancel exit code (or the
/// normal one) clears the buffer, so the run is a success even when
/// diagnostic lines had been buffered before it.
pub proof fn lemma_cancel_exit_counts_as_success(m: GMonitor)
    ensures
        spec_mux_success(spec_terminated(m, Some(MUX_CANCEL_EXIT))),
        spec_mux_success(spec_terminated(m, Some(MUX_SUCCESS_EXIT))),
{
}

impl MuxMonitor {
    pub open spec fn wf(self) -> bool {
        &&& (self.expected_outputs == ONE_SIDE_EXPECTED_OUTPUTS || self.expected_outputs
            == TWO_SIDE_EXPECTED_OUTPUTS)
        &&& self.output_count <= self.expected_outputs
    }

    pub fn new(two_sides: bool) -> (r: MuxMonitor)
        ensures
            r.wf(),
            r@ == (GMonitor {
                error_log: Seq::empty(),
                output_count: 0,
                expected_outputs: if two_sides {
                    TWO_SIDE_EXPECTED_OUTPUTS
                } else {
                    ONE_SIDE_EXPECTED_OUTPUTS
                },
                exit_code: None,
            }),
    {
        let r = MuxMonitor {
            error_log: Vec::new(),
            output_count: 0,
            expected_outputs: if two_sides {
                TWO_SIDE_EXPECTED_OUTPUTS
            } else {
                ONE_SIDE_EXPECTED_OUTPUTS
            },
            exit_code: None,
        };
        assert(r@ =~= GMonitor {
            error_log: Seq::empty(),
            output_count: 0,
            expected_outputs: if two_sides {
                TWO_SIDE_EXPECTED_OUTPUTS
            } else {
                ONE_SIDE_EXPECTED_OUTPUTS
            },
            exit_code: None,
        });
        r
    }

    /// The percent reported for this run's state, always within [50,100]
    /// and non-decreasing in the line counter.
    pub fn progress_percent(&self) -> (r: u64)
        requires
            self.wf(),
        ensures
            r == spec_mux_percent(self@),
            50 <= r <= 100,
    {
        proof {
            lemma_mul_inequality(self.output_count as int, self.expected_outputs as int, 50);
            lemma_div_is_ordered(
                self.output_count as int * 50,
                self.expected_outputs as int * 50,
                self.expected_outputs as int,
            );
            lemma_div_by_multiple(50, self.expected_outputs as int);
            assert(self.expected_outputs as int * 50 == 50 * (self.expected_outputs as int))
                by (nonlinear_arith);
        }
        50 + self.output_count * 50 / self.expected_outputs
    }

    /// Consumes one stream event. A diagnostic line also yields the percent
    /// to emit, computed before the counter advances.
    pub fn on_event(&mut self, event: MuxEvent) -> (emit: Option<u64>)
        requires
            old(self).wf(),
        ensures
            final(self).wf(),
            match event {
                MuxEvent::DiagnosticLine(line) => final(self)@ == spec_diagnostic(
                    old(self)@,
                    line@,
                ) && emit == Some((spec_mux_percent(old(self)@)) as u64),
                MuxEvent::ErrorText(text) => final(self)@ == spec_error_text(old(self)@, text@)
                    && emit is None,
                MuxEvent::Terminated(code) => final(self)@ == spec_terminated(old(self)@, code)
                    && emit is None,
                MuxEvent::Other => final(self)@ == old(self)@ && emit is None,
            },
    {
        match event {
            MuxEvent::DiagnosticLine(line) => {
                append_bytes(&mut self.error_log, &line);
                self.error_log.push(10);
                let percent = self.progress_percent();
                if self.output_count + 1 <= self.expected_outputs {
                    self.output_count = self.output_count + 1;
                } else {
                    self.output_count = self.expected_outputs;
                }
                assert(self@ =~= spec_diagnostic(old(self)@, line@));
                Some(percent)
            },
            MuxEvent::ErrorText(text) => {
                append_bytes(&mut self.error_log, &text);
                self.error_log.push(10);
                assert(self@ =~= spec_error_text(old(self)@, text@));
                None
            },
            MuxEvent::Terminated(code) => {
                let clears = match code {
                    Some(c) => c == MUX_SUCCESS_EXIT || c == MUX_CANCEL_EXIT,
                    None => false,
                };
                if clears {
                    self.error_log = Vec::new();
                }
                self.exit_code = code;
                assert(self@ =~= spec_terminated(old(self)@, code));
                None
            },
            MuxEvent::Other => {
                assert(self@ =~= old(self)@);
                None
            },
        }
    }

    /// Classifies the finished run: success exactly when the muxer exited
    /// normally or by user cancel and left no diagnostic text; otherwise a
    /// mux failure carrying the buffered text.
    pub fn finish(&self) -> (r: Result<(), DownloadError>)
        ensures
            r is Ok <==> spec_mux_success(self@),
            r matches Err(e) ==> (e matches DownloadError::Mux{log} && log@ == self.error_log@),
    {
        let exit_ok = match self.exit_code {
            Some(c) => c == MUX_SUCCESS_EXIT || c == MUX_CANCEL_EXIT,
            None => false,
        };
        if exit_ok && self.error_log.len() == 0 {
            assert(self.error_log@.len() == 0);
            Ok(())
        } else {
            let mut log: Vec<u8> = Vec::new();
            append_bytes(&mut log, &self.error_log);
            assert(log@ =~= self.error_log@);
            Err(DownloadError::Mux { log })
        }
    }
}

/// The skip rule: when the target output file already exists the muxer is
/// not invoked and the task reports complete at once.
pub fn skip_existing_output(output_exists: bool) -> (r: Option<u64>)
    ensures
        r == if output_exists {
            Some(100u64)
        } else {
            None::<u64>
        },
{
    if output_exists {
        Some(100)
    } else {
        None
    }
}

/// The muxer's argument list: playlist-extension checks disabled, one
/// input per side, stream copy without re-encode; with two sides both are
/// mapped into the one output container.
pub fn mux_args(side1: &Vec<u8>, side2: &Option<Vec<u8>>, output: &Vec<u8>) -> (r: Vec<Vec<u8>>)
    ensures
        match side2 {
            None => r.deep_view() == seq![
                "-allowed_extensions".spec_bytes(),
                "ALL".spec_bytes(),
                "-i".spec_bytes(),
                side1@,
                "-c".spec_bytes(),
                "copy".spec_bytes(),
                output@,
            ],
            Some(s2) => r.deep_view() == seq![
                "-allowed_extensions".spec_bytes(),
                "ALL".spec_bytes(),
                "-i".spec_bytes(),
                side1@,
                "-allowed_extensions".spec_bytes(),
                "ALL".spec_bytes(),
                "-i".spec_bytes(),
                s2@,
                "-map".spec_bytes(),
                "0".spec_bytes(),
                "-map".spec_bytes(),
                "1".spec_bytes(),
                "-c".spec_bytes(),
                "copy".spec_bytes(),
                output@,
            ],
        },
{
    let mut r: Vec<Vec<u8>> = Vec::new();
    r.push(("-allowed_extensions").as_bytes_vec());
    r.push(("ALL").as_bytes_vec());
    r.push(("-i").as_bytes_vec());
    let mut s1: Vec<u8> = Vec::new();
    append_bytes(&mut s1, side1);
    r.push(s1);
    match side2 {
        Some(second) => {
            r.push(("-allowed_extensions").as_bytes_vec());
            r.push(("ALL").as_bytes_vec());
            r.push(("-i").as_bytes_vec());
            let mut s2: Vec<u8> = Vec::new();
            append_bytes(&mut s2, second);
            r.push(s2);
            r.push(("-map").as_bytes_vec());
            r.push(("0").as_bytes_vec());
            r.push(("-map").as_bytes_vec());
            r.push(("1").as_bytes_vec());
            r.push(("-c").as_bytes_vec());
            r.push(("copy").as_bytes_vec());
            let mut out: Vec<u8> = Vec::new();
            append_bytes(&mut out, output);
            r.push(out);
            assert(r.deep_view() =~~= seq![
                "-allowed_extensions".spec_bytes(),
                "ALL".spec_bytes(),
                "-i".spec_bytes(),
                side1@,
                "-allowed_extensions".spec_bytes(),
                "ALL".spec_bytes(),
                "-i".spec_bytes(),
                second@,
                "-map".spec_bytes(),
                "0".spec_bytes(),
                "-map".spec_bytes(),
                "1".spec_bytes(),
                "-c".spec_bytes(),
                "copy".spec_bytes(),
                output@,
            ]);
        },
        None => {
            r.push(("-c").as_bytes_vec());
            r.push(("copy").as_bytes_vec());
            let mut out: Vec<u8> = Vec::new();
            append_bytes(&mut out, output);
            r.push(out);
            assert(r.deep_view() =~~= seq![
                "-allowed_extensions".spec_bytes(),
                "ALL".spec_bytes(),
                "-i".spec_bytes(),
                side1@,
                "-c".spec_bytes(),
                "copy".spec_bytes(),
                output@,
            ]);
        },
    }
    r
}

} // verus!
