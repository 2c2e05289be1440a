use job_keywords::gather::{gather, Gathered, Outcome};
use job_keywords::keywords::WEIGHT_UNIT;
use job_keywords::scrapers::{enabled_names, list_contains, ScraperKind, Step};
use job_keywords::source::SourceId;
use job_keywords::text::{contains_text, join_plain};

const WORKDAY_URL: &str = "https://acme.wd1.myworkdaysite.com/en-US/acme_careers/job/123";

fn posting(items: &[&str]) -> String {
    let lis: String = items.iter().map(|i| format!("<li>{i}</li>")).collect();
    format!(
        "<html><body><h2 data-automation-id=\"jobPostingHeader\">Senior\u{a0}Engineer</h2>\
         <div data-automation-id=\"jobPostingDescription\"><ul>{lis}</ul></div>\
         <ul><li>Footer</li></ul></body></html>"
    )
}

fn all_enabled() -> Vec<String> {
    vec!["simplify".to_string(), "workday".to_string()]
}

#[test]
fn text_helpers() {
    assert!(contains_text("acme.wd1.myworkdaysite.com", "myworkdaysite.com"));
    assert!(!contains_text("example.com", "myworkdaysite.com"));
    assert!(contains_text("abc", ""));
    assert_eq!(join_plain(&vec!["a\u{a0}b".to_string(), " c".to_string()]), "a b c");
}

#[test]
fn source_parsing() {
    let s = SourceId::parse(WORKDAY_URL).unwrap();
    assert_eq!(s.host.as_deref(), Some("acme.wd1.myworkdaysite.com"));
    assert_eq!(
        s.segments.unwrap(),
        vec!["en-US", "acme_careers", "job", "123"]
    );
    assert!(SourceId::parse("not a url").is_none());
}

#[test]
fn enabled_set_filters_defaults() {
    let names = enabled_names(&vec!["workday".to_string()], &vec!["extra".to_string()]);
    assert!(list_contains(&names, "simplify"));
    assert!(!list_contains(&names, "workday"));
    assert!(list_contains(&names, "extra"));
}

#[test]
fn applicability_follows_host() {
    let w = SourceId::parse(WORKDAY_URL).unwrap();
    let s = SourceId::parse("https://simplify.jobs/p/1").unwrap();
    assert!(ScraperKind::Workday.is_applicable(&w));
    assert!(!ScraperKind::Simplify.is_applicable(&w));
    assert!(ScraperKind::Simplify.is_applicable(&s));
    assert_eq!(ScraperKind::Workday.name(), "workday");
}

#[test]
fn inapplicable_extractor_contributes_nothing() {
    let source = SourceId::parse("https://example.com/jobs/1").unwrap();
    let html = posting(&["Build APIs"]);
    let step = ScraperKind::Workday.begin(&all_enabled(), &source, &html);
    assert!(matches!(step, Step::NotApplicable));
    let w = SourceId::parse(WORKDAY_URL).unwrap();
    let disabled = ScraperKind::Workday.begin(&vec!["simplify".to_string()], &w, &html);
    assert!(matches!(disabled, Step::NotApplicable));
}

#[test]
fn workday_reads_title_company_and_items() {
    let source = SourceId::parse(WORKDAY_URL).unwrap();
    let html = posting(&["Build APIs", "Write\u{a0}tests"]);
    match ScraperKind::Workday.begin(&all_enabled(), &source, &html) {
        Step::NeedsScores(p) => {
            assert_eq!(p.partial.job_title, "Senior Engineer");
            assert_eq!(p.partial.company, "acme_careers");
            assert_eq!(p.fragments, vec!["Build APIs", "Write tests"]);
        }
        _ => panic!("expected a pending extraction"),
    }
}

#[test]
fn workday_without_description_is_not_applicable() {
    let source = SourceId::parse(WORKDAY_URL).unwrap();
    let html = "<h2 data-automation-id=\"jobPostingHeader\">T</h2>";
    assert!(matches!(
        ScraperKind::Workday.begin(&all_enabled(), &source, html),
        Step::NotApplicable
    ));
}

#[test]
fn scored_fragments_sum_into_keywords() {
    let source = SourceId::parse(WORKDAY_URL).unwrap();
    let html = posting(&["Build APIs", "Build APIs"]);
    let pending = match ScraperKind::Workday.begin(&all_enabled(), &source, &html) {
        Step::NeedsScores(p) => p,
        _ => panic!("expected a pending extraction"),
    };
    let scores: Vec<Vec<(String, u64)>> = pending
        .fragments
        .iter()
        .map(|_| vec![("api".to_string(), WEIGHT_UNIT)])
        .collect();
    let r = pending.finish(&scores);
    assert_eq!(r.keywords.to_entries(), vec![("api".to_string(), 2 * WEIGHT_UNIT)]);
}

#[test]
fn simplify_produces_empty_result() {
    let s = SourceId::parse("https://simplify.jobs/p/1").unwrap();
    match ScraperKind::Simplify.begin(&all_enabled(), &s, "<html></html>") {
        Step::Ready(r) => {
            assert_eq!(r.keywords.len(), 0);
            assert_eq!(r.source, "https://simplify.jobs/p/1");
        }
        _ => panic!("expected a result"),
    }
}

fn produced(title: &str, kw: &str, w: u64) -> Outcome {
    let mut r = job_keywords::page::ExtractionResult::new("https://x.example/".to_string());
    r.job_title = title.to_string();
    r.keywords.add(kw.to_string(), w);
    Outcome::Produced(r)
}

#[test]
fn gather_combines_data_and_errors() {
    let g = gather(vec![
        produced("", "a", 1),
        Outcome::Failed("e1".to_string()),
        Outcome::Skipped,
        produced("Second", "a", 2),
        produced("Third", "b", 5),
        Outcome::Failed("e2".to_string()),
    ]);
    let data = g.data.unwrap();
    assert_eq!(data.job_title, "Second");
    assert_eq!(data.keywords.weight(&"a".to_string()), Some(3));
    assert_eq!(data.keywords.weight(&"b".to_string()), Some(5));
    let mut errors = g.errors;
    errors.sort();
    assert_eq!(errors, vec!["e1", "e2"]);
}

#[test]
fn gather_of_skipped_only_has_no_data() {
    let g = gather(vec![Outcome::Skipped, Outcome::Skipped]);
    assert!(g.data.is_none());
    assert!(g.errors.is_empty());
    let none = gather(vec![]);
    assert!(none.data.is_none());
}

#[test]
fn combine_appends_shorter_error_list() {
    let a = Gathered { data: None, errors: vec!["a1".to_string()] };
    let b = Gathered { data: None, errors: vec!["b1".to_string(), "b2".to_string()] };
    let c = a.combine(b);
    assert_eq!(c.errors, vec!["b1", "b2", "a1"]);
}
