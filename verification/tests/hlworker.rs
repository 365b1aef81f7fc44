use coder::hlworker::{coalesce, highlight_request, HlJob};

fn job(version: u64, dirty_from: usize, wide: bool) -> HlJob {
    HlJob {
        tab: 0,
        version,
        path: Some("/a.rs".to_string()),
        theme_name: "t".to_string(),
        reset: false,
        text: format!("v{version}"),
        dirty_from,
        wide,
        scroll_y: 0,
        needed: 10,
    }
}

#[test]
fn newest_job_wins_with_the_lowest_dirty_line() {
    let r = coalesce(job(1, 5, false), vec![job(2, 5, false), job(3, 3, false)]);
    assert_eq!(r.version, 3);
    assert_eq!(r.text, "v3");
    assert_eq!(r.dirty_from, 3);
    assert!(r.wide, "edits on different lines rebuild the tail");
}

#[test]
fn same_line_edits_stay_narrow() {
    let r = coalesce(job(1, 4, false), vec![job(2, 4, false)]);
    assert_eq!(r.dirty_from, 4);
    assert!(!r.wide);
    let r = coalesce(job(1, 4, false), vec![]);
    assert_eq!(r.version, 1);
}

#[test]
fn stale_highlight_results_are_dropped() {
    assert!(coder::hlworker::accepts_result(None, 0, 1));
    assert!(coder::hlworker::accepts_result(Some((0, 3)), 0, 3));
    assert!(coder::hlworker::accepts_result(Some((0, 3)), 0, 4));
    assert!(!coder::hlworker::accepts_result(Some((0, 5)), 0, 4));
    assert!(coder::hlworker::accepts_result(Some((1, 5)), 0, 4));
}

#[test]
fn a_highlight_job_is_sent_only_when_the_viewport_is_not_covered() {
    assert_eq!(highlight_request(false, None, 0, 1, 10, 40), Some(58));
    assert_eq!(highlight_request(false, Some((0, 1, 10, 58)), 0, 1, 10, 40), None);
    assert_eq!(highlight_request(true, Some((0, 1, 10, 58)), 0, 1, 10, 40), Some(58));
    assert_eq!(highlight_request(false, Some((0, 1, 10, 58)), 0, 2, 10, 40), Some(58));
    assert_eq!(highlight_request(false, Some((0, 1, 12, 70)), 0, 1, 10, 40), Some(58));
    assert_eq!(highlight_request(false, Some((0, 1, 5, 50)), 0, 1, 10, 40), Some(58));
}
