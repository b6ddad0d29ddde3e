use aem_eye::config::{parse_u64, read_setting};
use aem_eye::dispatch::Dispatcher;
use aem_eye::limiter::{Admission, TokenBucket, DEFAULT_RATE};
use aem_eye::pattern::{PatternError, PatternSet};
use aem_eye::target::{normalize_target, target_of, UrlParts};
use aem_eye::worker::{Job, Probe, Scan};

fn aem_patterns() -> PatternSet {
    let entries = vec![
        ("dam".to_string(), "/content/dam.*".to_string()),
        ("clientlibs".to_string(), "/etc.clientlibs.*".to_string()),
    ];
    match PatternSet::new(entries) {
        Ok(s) => s,
        Err(_) => panic!("patterns refused"),
    }
}

fn scan_of(target: &str) -> Scan {
    Scan::new(Job::new(target.to_string(), aem_patterns()))
}

#[test]
fn dam_body_reports_target_once() {
    let mut scan = scan_of("http://example.test");
    let body = "<a href=\"/content/dam/foo\">x</a>";
    let r = scan.advance(Some(body)).expect("a match");
    assert_eq!(r.data, "http://example.test");
    assert_eq!(r.pattern, "dam");
    assert!(scan.is_finished());
}

#[test]
fn body_without_either_pattern_reports_nothing() {
    let mut scan = scan_of("http://example.test");
    assert!(scan.advance(Some("<html>plain</html>")).is_none());
    assert!(!scan.is_finished());
    assert!(scan.advance(Some("<html>plain</html>")).is_none());
    assert!(scan.is_finished());
}

#[test]
fn malformed_target_dropped_and_dispatch_continues() {
    let mut d = Dispatcher::new(aem_patterns());
    assert!(d.offer("not a url").is_none());
    let job = d.offer("https://good.test/some/path?q=1").expect("a job");
    assert_eq!(job.target(), "https://good.test");
}

#[test]
fn second_pattern_not_tried_after_first_matches() {
    let mut scan = scan_of("http://a.test");
    assert_eq!(scan.next_pattern(), 0);
    let r = scan.advance(Some("/content/dam/x"));
    assert!(r.is_some());
    assert!(scan.is_finished());
}

#[test]
fn later_pattern_matches_after_a_miss() {
    let mut scan = scan_of("http://a.test");
    assert!(scan.advance(Some("nothing here")).is_none());
    assert_eq!(scan.next_pattern(), 1);
    let r = scan.advance(Some("/etc.clientlibs/site.js")).expect("a match");
    assert_eq!(r.pattern, "clientlibs");
    assert!(scan.is_finished());
}

#[test]
fn failed_fetch_reports_nothing_and_moves_on() {
    let mut scan = scan_of("http://down.test");
    assert!(scan.advance(None).is_none());
    assert!(!scan.is_finished());
    assert!(scan.advance(None).is_none());
    assert!(scan.is_finished());
}

#[test]
fn same_responses_same_result() {
    let bodies = [None, Some("/etc.clientlibs/a")];
    let mut results = Vec::new();
    for _ in 0..2 {
        let mut scan = scan_of("http://b.test");
        let mut found = None;
        let mut i = 0;
        while !scan.is_finished() {
            if let Some(r) = scan.advance(bodies[i]) {
                found = Some(r.pattern);
            }
            i += 1;
        }
        results.push(found);
    }
    assert_eq!(results[0], results[1]);
    assert_eq!(results[0], Some("clientlibs".to_string()));
}

#[test]
fn record_takes_probes_in_order() {
    let mut scan = scan_of("http://c.test");
    assert!(scan.record(Probe::Failed).is_none());
    let r = scan.record(Probe::Hit).expect("a report");
    assert_eq!(r.data, "http://c.test");
    assert_eq!(r.pattern, "clientlibs");
    assert!(scan.is_finished());
}

#[test]
fn duplicate_target_gets_one_job() {
    let mut d = Dispatcher::new(aem_patterns());
    assert!(d.offer("http://dup.test/a").is_some());
    assert!(d.offer("http://dup.test/b").is_none());
    assert!(d.offer("https://dup.test/").is_some());
}

#[test]
fn empty_pattern_set_finishes_at_once() {
    let set = PatternSet::new(Vec::new()).ok().expect("empty set");
    let scan = Scan::new(Job::new("http://e.test".to_string(), set));
    assert!(scan.is_finished());
}

#[test]
fn duplicate_pattern_name_refused() {
    let entries = vec![
        ("dam".to_string(), "a".to_string()),
        ("dam".to_string(), "b".to_string()),
    ];
    assert!(matches!(PatternSet::new(entries), Err(PatternError::DuplicateName(n)) if n == "dam"));
}

#[test]
fn invalid_pattern_refused() {
    let entries = vec![
        ("ok".to_string(), "a+".to_string()),
        ("bad".to_string(), "(unclosed".to_string()),
    ];
    assert!(matches!(PatternSet::new(entries), Err(PatternError::InvalidPattern(n)) if n == "bad"));
}

#[test]
fn normalization_keeps_scheme_and_host() {
    assert_eq!(normalize_target("https://Example.COM:8443/x/y?z#f"), Some("https://example.com".to_string()));
    assert_eq!(normalize_target("http://10.0.0.1/"), Some("http://10.0.0.1".to_string()));
    assert_eq!(normalize_target("example.com"), None);
    assert_eq!(normalize_target("mailto:someone@example.com"), None);
}

#[test]
fn target_from_parts() {
    let p = UrlParts { scheme: "http".to_string(), host: Some("h.test".to_string()) };
    assert_eq!(target_of(&p), Some("http://h.test".to_string()));
    let q = UrlParts { scheme: "data".to_string(), host: None };
    assert_eq!(target_of(&q), None);
}

#[test]
fn bucket_spaces_admissions() {
    let (mut b, fell_back) = TokenBucket::new(2);
    assert!(!fell_back);
    assert_eq!(b.acquire(0), Admission::Granted);
    assert_eq!(b.acquire(0), Admission::Wait(500_000_000));
    assert_eq!(b.acquire(499_999_999), Admission::Wait(1));
    assert_eq!(b.acquire(500_000_000), Admission::Granted);
    assert_eq!(b.acquire(1_000_000_000), Admission::Granted);
}

#[test]
fn bucket_refills_to_capacity_only() {
    let (mut b, _) = TokenBucket::new(3);
    assert_eq!(b.acquire(5), Admission::Granted);
    let later = 100_000_000_000u64;
    for _ in 0..3 {
        assert_eq!(b.acquire(later), Admission::Granted);
    }
    assert_eq!(b.acquire(later), Admission::Wait(333_333_334));
}

#[test]
fn zero_rate_falls_back_to_default() {
    let (b, fell_back) = TokenBucket::new(0);
    assert!(fell_back);
    assert_eq!(b.rate_per_sec(), DEFAULT_RATE as u64);
}

#[test]
fn decimal_parsing() {
    assert_eq!(parse_u64("1000"), Some(1000));
    assert_eq!(parse_u64("+7"), Some(7));
    assert_eq!(parse_u64("18446744073709551615"), Some(u64::MAX));
    assert_eq!(parse_u64("18446744073709551616"), None);
    assert_eq!(parse_u64(""), None);
    assert_eq!(parse_u64("+"), None);
    assert_eq!(parse_u64("-3"), None);
    assert_eq!(parse_u64("12a"), None);
}

#[test]
fn settings_default_when_not_positive() {
    assert_eq!(read_setting("250", 100).value, 250);
    assert!(!read_setting("250", 100).defaulted);
    let z = read_setting("0", 1000);
    assert_eq!(z.value, 1000);
    assert!(z.defaulted);
    assert!(read_setting("fast", 3).defaulted);
}
