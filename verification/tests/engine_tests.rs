use multipartus_downloader::error::DownloadError;
use multipartus_downloader::fetch::{expected_segment_count, fetch_percent, plan_fetches, scale_segment_phase};
use multipartus_downloader::host::{probe_success, select_host, ProbeResult};
use multipartus_downloader::mux::{
    mux_args, skip_existing_output, MuxEvent, MuxMonitor, MUX_CANCEL_EXIT,
};
use multipartus_downloader::retry::{retry_resolution, should_retry};
use multipartus_downloader::session::{
    report_task_outcome, resolve_settings, Session, Settings, TaskOutcome, TaskReport,
};
use multipartus_downloader::manifest::Resolution;

fn probe(host: &str, ok: bool) -> ProbeResult {
    ProbeResult { host: host.as_bytes().to_vec(), ok }
}

#[test]
fn unique_success_wins_regardless_of_position() {
    for winner in 0..3usize {
        let arrivals: Vec<ProbeResult> = (0..3)
            .map(|i| probe(&format!("https://mirror{i}"), i == winner))
            .collect();
        let selected = select_host(&None, &arrivals).expect("one host answers");
        assert_eq!(selected, format!("https://mirror{winner}").into_bytes());
    }
}

#[test]
fn first_arrival_wins_among_successes() {
    let arrivals = vec![probe("a", false), probe("b", true), probe("c", true)];
    assert_eq!(select_host(&None, &arrivals).unwrap(), b"b".to_vec());
}

#[test]
fn no_success_is_a_connectivity_error() {
    let arrivals = vec![probe("a", false), probe("b", false)];
    let err = select_host(&None, &arrivals).unwrap_err();
    assert!(matches!(err, DownloadError::Connectivity));
    let none = select_host(&None, &Vec::new()).unwrap_err();
    assert!(matches!(none, DownloadError::Connectivity));
}

#[test]
fn override_host_skips_probing() {
    let arrivals = vec![probe("a", false)];
    let selected = select_host(&Some(b"https://fixed".to_vec()), &arrivals).unwrap();
    assert_eq!(selected, b"https://fixed".to_vec());
}

#[test]
fn probe_success_is_any_2xx() {
    assert!(!probe_success(199));
    assert!(probe_success(200));
    assert!(probe_success(204));
    assert!(probe_success(299));
    assert!(!probe_success(300));
    assert!(!probe_success(503));
}

#[test]
fn retry_returns_first_success() {
    assert_eq!(retry_resolution(&vec![false, true, true], 3), Some(1));
    assert_eq!(retry_resolution(&vec![true, false, false], 3), Some(0));
    assert_eq!(retry_resolution(&vec![false, false, false], 3), None);
    assert_eq!(retry_resolution(&Vec::new(), 0), None);
}

#[test]
fn retry_stops_after_max_attempts() {
    assert!(should_retry(0, 3));
    assert!(should_retry(2, 3));
    assert!(!should_retry(3, 3));
    assert!(!should_retry(0, 0));
}

#[test]
fn resume_plans_only_missing_chunks() {
    let plan = plan_fetches(&vec![true, false, true, false]);
    assert_eq!(plan, vec![1usize, 3]);
}

#[test]
fn full_cache_plans_zero_fetches() {
    let plan = plan_fetches(&vec![true, true, true]);
    assert!(plan.is_empty());
}

#[test]
fn fetch_percent_values_are_exact() {
    assert_eq!(fetch_percent(0, 4), 0);
    assert_eq!(fetch_percent(1, 4), 25);
    assert_eq!(fetch_percent(3, 4), 75);
    assert_eq!(fetch_percent(4, 4), 100);
    assert_eq!(fetch_percent(1, 3), 33);
}

#[test]
fn expected_segment_count_subtracts_headers_and_pairs() {
    assert_eq!(expected_segment_count(0), 0);
    assert_eq!(expected_segment_count(8), 0);
    assert_eq!(expected_segment_count(9), 0);
    assert_eq!(expected_segment_count(10), 1);
    assert_eq!(expected_segment_count(708), 350);
}

#[test]
fn segment_phase_is_half_scale() {
    assert_eq!(scale_segment_phase(0), 0);
    assert_eq!(scale_segment_phase(50), 25);
    assert_eq!(scale_segment_phase(100), 50);
}

#[test]
fn cancel_exit_with_buffered_diagnostics_is_success() {
    let mut m = MuxMonitor::new(true);
    m.on_event(MuxEvent::DiagnosticLine(b"frame= 100".to_vec()));
    m.on_event(MuxEvent::DiagnosticLine(b"frame= 200".to_vec()));
    m.on_event(MuxEvent::Terminated(Some(MUX_CANCEL_EXIT)));
    assert!(m.finish().is_ok());
}

#[test]
fn normal_exit_clears_buffer_and_succeeds() {
    let mut m = MuxMonitor::new(false);
    m.on_event(MuxEvent::ErrorText(b"deprecated option".to_vec()));
    m.on_event(MuxEvent::Terminated(Some(0)));
    assert!(m.finish().is_ok());
}

#[test]
fn other_exit_code_fails_with_buffered_text() {
    let mut m = MuxMonitor::new(false);
    m.on_event(MuxEvent::DiagnosticLine(b"broken input".to_vec()));
    m.on_event(MuxEvent::Terminated(Some(1)));
    match m.finish() {
        Err(DownloadError::Mux { log }) => {
            assert_eq!(log, b"broken input\n".to_vec());
        }
        other => panic!("expected mux failure, got {:?}", other.is_ok()),
    }
}

#[test]
fn missing_termination_fails() {
    let m = MuxMonitor::new(false);
    assert!(m.finish().is_err());
}

#[test]
fn mux_progress_is_bounded_and_monotone() {
    let mut m = MuxMonitor::new(false);
    assert_eq!(m.progress_percent(), 50);
    let mut last = 50;
    for _ in 0..3000 {
        m.on_event(MuxEvent::DiagnosticLine(b"x".to_vec()));
        let p = m.progress_percent();
        assert!(p >= last && p <= 100);
        last = p;
    }
    assert_eq!(last, 100);
}

#[test]
fn diagnostic_emission_uses_count_before_increment() {
    let mut m = MuxMonitor::new(false);
    let first = m.on_event(MuxEvent::DiagnosticLine(b"a".to_vec()));
    assert_eq!(first, Some(50));
    let second = m.on_event(MuxEvent::DiagnosticLine(b"b".to_vec()));
    assert_eq!(second, Some(50 + 50 / 1400));
}

#[test]
fn mux_args_single_side_is_exact() {
    let args = mux_args(&b"s1.m3u8".to_vec(), &None, &b"out.mp4".to_vec());
    let expected: Vec<Vec<u8>> = ["-allowed_extensions", "ALL", "-i", "s1.m3u8", "-c", "copy", "out.mp4"]
        .iter()
        .map(|s| s.as_bytes().to_vec())
        .collect();
    assert_eq!(args, expected);
}

#[test]
fn mux_args_two_sides_maps_both_inputs() {
    let args = mux_args(&b"s1.m3u8".to_vec(), &Some(b"s2.m3u8".to_vec()), &b"out.mp4".to_vec());
    let expected: Vec<Vec<u8>> = [
        "-allowed_extensions", "ALL", "-i", "s1.m3u8",
        "-allowed_extensions", "ALL", "-i", "s2.m3u8",
        "-map", "0", "-map", "1", "-c", "copy", "out.mp4",
    ]
    .iter()
    .map(|s| s.as_bytes().to_vec())
    .collect();
    assert_eq!(args, expected);
}

#[test]
fn existing_output_skips_mux_at_full_percent() {
    assert_eq!(skip_existing_output(true), Some(100));
    assert_eq!(skip_existing_output(false), None);
}

#[test]
fn progress_slots_are_clamped_and_monotone() {
    let mut s = Session::new(2);
    s.record_progress(0, 60);
    assert_eq!(s.progress[0], 60);
    s.record_progress(0, 40);
    assert_eq!(s.progress[0], 60);
    s.record_progress(0, 250);
    assert_eq!(s.progress[0], 100);
    assert_eq!(s.progress[1], 0);
}

#[test]
fn mean_percent_is_the_arithmetic_mean() {
    let mut s = Session::new(4);
    s.record_progress(0, 100);
    s.record_progress(1, 50);
    assert_eq!(s.mean_percent(), 37);
    s.record_progress(2, 100);
    s.record_progress(3, 100);
    assert_eq!(s.mean_percent(), 87);
}

#[test]
fn cancelled_session_gates_unstarted_tasks() {
    let mut s = Session::new(3);
    assert!(s.task_gate().is_ok());
    s.cancel();
    let gate = s.task_gate().unwrap_err();
    assert!(matches!(gate, DownloadError::Cancelled));
    // The orchestrator keeps draining: reporting the cancelled task leaves
    // the session intact and produces one itemized error event.
    let report = report_task_outcome(&TaskOutcome::Failed { number: 7, error: gate });
    match report {
        TaskReport::EmitErrors { event } => {
            assert_eq!(event.errors.len(), 2);
            assert_eq!(event.errors[0], b"Failed to download Lecture-7".to_vec());
            assert_eq!(event.errors[1], b"Cancelled".to_vec());
        }
        TaskReport::RemoveCache { .. } => panic!("a cancelled task must be reported"),
    }
    assert!(s.cancelled);
    assert_eq!(s.progress.len(), 3);
}

#[test]
fn completed_task_removes_its_cache_entry() {
    let report = report_task_outcome(&TaskOutcome::Completed { ttid: 9001 });
    match report {
        TaskReport::RemoveCache { dir_name } => assert_eq!(dir_name, b"Lecture_9001".to_vec()),
        TaskReport::EmitErrors { .. } => panic!("a completed task is not an error"),
    }
}

#[test]
fn second_video_failing_after_retries_is_itemized_once() {
    // Three requested videos; video 2's chunk fetch fails on every allowed
    // attempt while videos 1 and 3 complete.
    let mut s = Session::new(3);
    let attempts = vec![false, false, false];
    assert_eq!(retry_resolution(&attempts, 3), None);
    let failure = DownloadError::Fetch { operation: b"Get chunk data".to_vec() };

    s.record_progress(0, 100);
    s.record_progress(2, 100);
    s.record_progress(1, 40);

    let mut error_sink: Vec<Vec<Vec<u8>>> = Vec::new();
    let outcomes = vec![
        TaskOutcome::Completed { ttid: 101 },
        TaskOutcome::Failed { number: 2, error: failure },
        TaskOutcome::Completed { ttid: 103 },
    ];
    for outcome in &outcomes {
        if let TaskReport::EmitErrors { event } = report_task_outcome(outcome) {
            error_sink.push(event.errors);
        }
    }

    assert_eq!(error_sink.len(), 1);
    assert_eq!(error_sink[0][0], b"Failed to download Lecture-2".to_vec());
    assert_eq!(
        error_sink[0][1],
        b"Failed to fetch data: Get chunk data".to_vec()
    );
    assert_eq!(s.progress[0], 100);
    assert_eq!(s.progress[2], 100);
    assert_eq!(s.progress[1], 40);
    assert_eq!(s.mean_percent(), 80);
}

#[test]
fn settings_default_to_high_res_without_a_fixed_host() {
    let r = resolve_settings(None);
    assert!(matches!(r.resolution, Resolution::HighRes));
    assert!(r.base.is_none());
    let kept = resolve_settings(Some(Settings {
        resolution: Resolution::LowRes,
        base: Some("https://fixed".to_string()),
    }));
    assert!(matches!(kept.resolution, Resolution::LowRes));
    assert_eq!(kept.base.as_deref(), Some("https://fixed"));
}
