use website_status_checker::build_result;
use website_status_checker::CheckResult;
use website_status_checker::CheckTarget;
use website_status_checker::Coordinator;
use website_status_checker::Dispatcher;
use website_status_checker::Outcome;

fn targets(urls: &[&str]) -> Vec<CheckTarget> {
    urls.iter().map(|u| CheckTarget::new(u.to_string())).collect()
}

/// Drives one simulated worker to exhaustion: claim, "check", record.
fn drain_with_one_worker(c: &mut Coordinator) {
    while let Some(t) = c.claim() {
        let r = build_result(t.url, Ok(200), 1, 0);
        assert!(c.record(r));
    }
}

#[test]
fn empty_input_completes_immediately() {
    let c = Coordinator::new(Vec::new());
    assert!(c.is_complete());
    let results: Vec<CheckResult> = c.into_results();
    assert!(results.is_empty());
}

#[test]
fn empty_input_offers_no_work() {
    let mut c = Coordinator::new(Vec::new());
    assert!(c.claim().is_none());
    assert!(c.is_complete());
}

#[test]
fn one_result_per_target() {
    let mut c = Coordinator::new(targets(&["http://a.test/", "http://b.test/", "http://c.test/"]));
    drain_with_one_worker(&mut c);
    assert!(c.is_complete());
    let results = c.into_results();
    assert_eq!(results.len(), 3);
    let mut urls: Vec<String> = results.into_iter().map(|r| r.url).collect();
    urls.sort();
    assert_eq!(urls, vec!["http://a.test/", "http://b.test/", "http://c.test/"]);
}

#[test]
fn duplicate_targets_are_independent() {
    let mut c = Coordinator::new(targets(&["http://same.test/", "http://same.test/"]));
    let first = c.claim().expect("one target left");
    let second = c.claim().expect("another target left");
    assert!(c.claim().is_none());
    assert_eq!(first.url, "http://same.test/");
    assert_eq!(second.url, "http://same.test/");
    assert!(c.record(build_result(first.url, Ok(200), 1, 0)));
    assert!(c.record(build_result(second.url, Err("refused".to_string()), 2, 0)));
    assert!(c.is_complete());
    assert_eq!(c.into_results().len(), 2);
}

#[test]
fn idle_workers_are_noops() {
    let mut c = Coordinator::new(targets(&["http://only.test/"]));
    // Four workers race for one target: one wins, the others find nothing,
    // change nothing and exit.
    let won = c.claim().expect("the single target");
    assert!(c.claim().is_none());
    assert!(c.claim().is_none());
    assert!(c.claim().is_none());
    assert!(c.record(build_result(won.url, Ok(204), 8, 0)));
    assert!(c.is_complete());
    let results = c.into_results();
    assert_eq!(results.len(), 1);
    assert_eq!(results[0].outcome, Outcome::Success(204));
}

#[test]
fn not_complete_while_work_is_pending() {
    let mut c = Coordinator::new(targets(&["http://a.test/", "http://b.test/"]));
    assert!(!c.is_complete());
    let t = c.claim().expect("work available");
    // Claimed but not yet recorded: the run must not look finished.
    assert!(!c.is_complete());
    assert!(c.record(build_result(t.url, Ok(200), 1, 0)));
    assert!(!c.is_complete());
    drain_with_one_worker(&mut c);
    assert!(c.is_complete());
}

#[test]
fn record_without_claim_is_refused() {
    let mut c = Coordinator::new(targets(&["http://a.test/"]));
    // Nothing has been claimed yet: no result can be delivered.
    let early = build_result("http://a.test/".to_string(), Ok(200), 1, 0);
    assert!(!c.record(early));
    let t = c.claim().expect("the single target");
    // A URL no worker holds an open claim for is refused even while another
    // claim is outstanding.
    let stray = build_result("http://stray.test/".to_string(), Ok(200), 1, 0);
    assert!(!c.record(stray));
    assert!(c.record(build_result(t.url, Ok(200), 1, 0)));
    assert_eq!(c.into_results().len(), 1);
}

#[test]
fn second_result_for_one_claim_is_refused() {
    let mut c = Coordinator::new(targets(&["http://once.test/"]));
    let t = c.claim().expect("the single target");
    assert!(c.record(build_result(t.url.clone(), Ok(200), 1, 0)));
    // The claim is settled: a duplicate report for the same URL is refused.
    assert!(!c.record(build_result(t.url, Ok(200), 2, 0)));
    let results = c.into_results();
    assert_eq!(results.len(), 1);
    assert_eq!(results[0].elapsed_ms, 1);
}

#[test]
fn interleaved_claims_and_records() {
    let mut c = Coordinator::new(targets(&["http://a.test/", "http://b.test/"]));
    // Two workers hold one claim each before either reports back.
    let t1 = c.claim().expect("first claim");
    let t2 = c.claim().expect("second claim");
    assert!(c.claim().is_none());
    assert!(!c.is_complete());
    assert!(c.record(build_result(t2.url, Ok(301), 4, 0)));
    assert!(c.record(build_result(t1.url, Ok(200), 9, 0)));
    assert!(c.is_complete());
    assert_eq!(c.into_results().len(), 2);
}

#[test]
fn dispatcher_hands_each_target_out_once() {
    let mut d = Dispatcher::new(targets(&["http://a.test/", "http://b.test/", "http://c.test/"]));
    assert_eq!(d.remaining_count(), 3);
    let mut seen: Vec<String> = Vec::new();
    while let Some(t) = d.claim_next() {
        seen.push(t.url);
    }
    assert_eq!(d.remaining_count(), 0);
    assert!(d.claim_next().is_none());
    seen.sort();
    assert_eq!(seen, vec!["http://a.test/", "http://b.test/", "http://c.test/"]);
}

#[test]
fn dispatcher_empty_queue_yields_nothing() {
    let mut d = Dispatcher::new(Vec::new());
    assert_eq!(d.remaining_count(), 0);
    assert!(d.claim_next().is_none());
}
