use job_keywords::arbiter::{Mailbox, SubmitError, WorkerAction};
use job_keywords::cache::{cache_file_name, decimal_string, decode_entry, CacheEntry, CacheError};
use job_keywords::gather::{gather, Outcome};
use job_keywords::keywords::WEIGHT_UNIT;
use job_keywords::page::ExtractionResult;
use job_keywords::pipeline::{run_succeeded, Action, Event, SourceTask, Stage};
use job_keywords::scrapers::{ScraperKind, Step};
use job_keywords::source::SourceId;

fn sample() -> ExtractionResult {
    let mut r = ExtractionResult::new("https://acme.wd1.myworkdaysite.com/x/acme".to_string());
    r.job_title = "Engineer".to_string();
    r.company = "acme".to_string();
    r.keywords.add("rust".to_string(), 5);
    r.keywords.add("api".to_string(), 7);
    r
}

#[test]
fn cache_round_trip() {
    let bytes = CacheEntry::Data(sample()).encode();
    match decode_entry(&bytes) {
        Ok(CacheEntry::Data(r)) => {
            let s = sample();
            assert_eq!(r.source, s.source);
            assert_eq!(r.job_title, s.job_title);
            assert_eq!(r.company, s.company);
            let mut a = r.keywords.to_entries();
            let mut b = s.keywords.to_entries();
            a.sort();
            b.sort();
            assert_eq!(a, b);
        }
        _ => panic!("expected data"),
    }
}

#[test]
fn tombstone_round_trip() {
    let bytes = CacheEntry::NoData.encode();
    assert!(matches!(decode_entry(&bytes), Ok(CacheEntry::NoData)));
}

#[test]
fn corrupt_entry_is_an_error() {
    let r = decode_entry(&[0xde, 0xad, 0xbe, 0xef, 0x01]);
    assert!(matches!(r, Err(CacheError::Corrupt)));
    assert!(CacheError::Corrupt.remedy().contains("deleting"));
}

#[test]
fn file_name_is_decimal_hash() {
    assert_eq!(decimal_string(0), "0");
    assert_eq!(decimal_string(1234567890), "1234567890");
    assert_eq!(decimal_string(u64::MAX), "18446744073709551615");
    let a = SourceId::parse("https://a.example/1").unwrap();
    let b = SourceId::parse("https://a.example/1").unwrap();
    let c = SourceId::parse("https://a.example/2").unwrap();
    let na = cache_file_name(&a);
    assert_eq!(na, cache_file_name(&b));
    assert_ne!(na, cache_file_name(&c));
    assert!(na.chars().all(|ch| ch.is_ascii_digit()));
    assert_ne!(na, "0");
}

#[test]
fn mailbox_serves_in_submission_order() {
    let mut m = Mailbox::new();
    for i in 0..5u64 {
        assert_eq!(m.submit(vec![format!("fragment {i}")]), Ok(i));
    }
    for i in 0..5u64 {
        match m.take() {
            WorkerAction::Serve(r) => {
                assert_eq!(r.tag, i);
                assert_eq!(r.fragments, vec![format!("fragment {i}")]);
            }
            _ => panic!("expected a request"),
        }
    }
    assert!(matches!(m.take(), WorkerAction::Wait));
    m.close();
    assert!(matches!(m.take(), WorkerAction::Exit));
    assert_eq!(m.submit(vec![]), Err(SubmitError::Closed));
}

#[test]
fn abandoned_reply_does_not_stop_service() {
    let mut m = Mailbox::new();
    m.submit(vec!["a".to_string()]).unwrap();
    m.submit(vec!["b".to_string()]).unwrap();
    assert!(matches!(m.take(), WorkerAction::Serve(_)));
    m.settle(false);
    assert_eq!(m.abandoned(), 1);
    match m.take() {
        WorkerAction::Serve(r) => assert_eq!(r.fragments, vec!["b"]),
        _ => panic!("expected the second request"),
    }
    m.settle(true);
    assert_eq!(m.abandoned(), 1);
}

fn run_extractors(source: &SourceId, html: &str) -> Vec<Outcome> {
    let enabled = vec!["simplify".to_string(), "workday".to_string()];
    [ScraperKind::Simplify, ScraperKind::Workday]
        .iter()
        .map(|k| match k.begin(&enabled, source, html).into_outcome() {
            Ok(o) => o,
            Err(p) => {
                let scores = p
                    .fragments
                    .iter()
                    .map(|_| vec![("api".to_string(), WEIGHT_UNIT)])
                    .collect();
                Outcome::Produced(p.finish(&scores))
            }
        })
        .collect()
}

const HTML: &str = "<h2 data-automation-id=\"jobPostingHeader\">Dev</h2>\
    <div data-automation-id=\"jobPostingDescription\"><li>Build APIs</li><li>Build APIs</li></div>";

#[test]
fn fresh_source_runs_end_to_end() {
    let source = SourceId::parse("https://acme.wd1.myworkdaysite.com/en-US/acme/job/1").unwrap();
    let mut task = SourceTask::new();
    assert!(matches!(task.step(Event::CacheMissing), Action::Fetch));
    let html = match task.step(Event::Fetched(HTML.to_string())) {
        Action::Extract(h) => h,
        _ => panic!("expected extraction"),
    };
    let g = gather(run_extractors(&source, &html));
    let bytes = match task.step(Event::Extracted(g)) {
        Action::Write(b, errors) => {
            assert!(errors.is_empty());
            b
        }
        _ => panic!("expected a write"),
    };
    let first = match task.step(Event::Persisted) {
        Action::Emit(Some(r)) => r,
        _ => panic!("expected a result"),
    };
    assert_eq!(task.current_stage(), Stage::Done);
    assert_eq!(first.keywords.to_entries(), vec![("api".to_string(), 2 * WEIGHT_UNIT)]);

    // A second run reads the entry back and never fetches.
    let mut again = SourceTask::new();
    match again.step(Event::CacheFound(bytes)) {
        Action::Emit(Some(r)) => {
            assert_eq!(r.keywords.to_entries(), first.keywords.to_entries());
            assert_eq!(r.job_title, first.job_title);
            assert_eq!(r.company, first.company);
        }
        _ => panic!("expected the cached result"),
    }
    assert_eq!(again.current_stage(), Stage::Done);
}

#[test]
fn tombstone_yields_empty_result_without_fetch() {
    let mut task = SourceTask::new();
    let action = task.step(Event::CacheFound(CacheEntry::NoData.encode()));
    assert!(matches!(action, Action::Emit(None)));
    assert_eq!(task.current_stage(), Stage::Done);
}

#[test]
fn failures_are_terminal_and_counted() {
    let mut task = SourceTask::new();
    task.step(Event::CacheMissing);
    match task.step(Event::FetchFailed("navigation failed".to_string())) {
        Action::Fail(m) => assert_eq!(m, "navigation failed"),
        _ => panic!("expected failure"),
    }
    assert_eq!(task.current_stage(), Stage::Failed);
    assert!(matches!(task.step(Event::Persisted), Action::Ignore));
    let mut bad = SourceTask::new();
    assert!(matches!(bad.step(Event::CacheFound(vec![1, 2, 3])), Action::Fail(_)));
    assert!(!run_succeeded(&vec![Stage::Done, Stage::Failed]));
    assert!(run_succeeded(&vec![Stage::Done, Stage::Done]));
}

#[test]
fn entry_with_invalid_source_is_corrupt() {
    let mut r = ExtractionResult::new("not a url".to_string());
    r.keywords.add("rust".to_string(), 5);
    let bytes = CacheEntry::Data(r).encode();
    assert!(matches!(decode_entry(&bytes), Err(CacheError::Corrupt)));
    let mut task = SourceTask::new();
    match task.step(Event::CacheFound(bytes)) {
        Action::Fail(m) => assert!(m.contains("deleting")),
        _ => panic!("expected failure"),
    }
    assert_eq!(task.current_stage(), Stage::Failed);
}

#[test]
fn steps_convert_to_outcomes() {
    let w = SourceId::parse("https://acme.wd1.myworkdaysite.com/en-US/acme/job/1").unwrap();
    let enabled = vec!["simplify".to_string(), "workday".to_string()];
    assert!(matches!(
        ScraperKind::Simplify.begin(&enabled, &w, HTML).into_outcome(),
        Ok(Outcome::Skipped)
    ));
    match ScraperKind::Workday.begin(&enabled, &w, HTML).into_outcome() {
        Err(p) => assert_eq!(p.fragments, vec!["Build APIs", "Build APIs"]),
        _ => panic!("expected a pending extraction"),
    }
    let s = SourceId::parse("https://simplify.jobs/p/1").unwrap();
    match ScraperKind::Simplify.begin(&enabled, &s, "").into_outcome() {
        Ok(Outcome::Produced(r)) => assert_eq!(r.source, "https://simplify.jobs/p/1"),
        _ => panic!("expected a result"),
    }
    assert!(matches!(
        Step::Failed("boom".to_string()).into_outcome(),
        Ok(Outcome::Failed(m)) if m == "boom"
    ));
}
