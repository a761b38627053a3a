use job_alerts::extract::{first_attr, first_text, get_jobs, RawListing};

fn pieces(p: &[&str]) -> Option<Vec<String>> {
    Some(p.iter().map(|s| s.to_string()).collect())
}

fn listing(has_logo: bool, title: &str) -> RawListing {
    RawListing {
        has_logo,
        title: pieces(&["\n   ", title, "  "]),
        company: pieces(&["Acme"]),
        location: pieces(&[" Perth,", "WA "]),
        link: Some(" https://example.com/a ".to_string()),
        logo_url: None,
        posted: None,
    }
}

#[test]
fn first_text_joins_and_trims() {
    assert_eq!(first_text(&pieces(&["  Senior", "Engineer \t"])), "Senior Engineer");
    assert_eq!(first_text(&pieces(&[])), "");
    assert_eq!(first_text(&pieces(&["\u{3000}x\u{a0}"])), "x");
    assert_eq!(first_text(&None), "");
}

#[test]
fn first_attr_trims_or_defaults() {
    assert_eq!(first_attr(&Some("\n /logo.png ".to_string())), "/logo.png");
    assert_eq!(first_attr(&None), "");
}

#[test]
fn get_jobs_keeps_only_listings_with_logo() {
    let jobs = get_jobs(&[listing(true, "One"), listing(false, "Two"), listing(true, "Three")]);
    assert_eq!(jobs.len(), 2);
    assert_eq!(jobs[0].title, "One");
    assert_eq!(jobs[1].title, "Three");
    assert_eq!(jobs[0].company, "Acme");
    assert_eq!(jobs[0].location, "Perth, WA");
    assert_eq!(jobs[0].link, "https://example.com/a");
    assert_eq!(jobs[0].logo_url, "");
    assert_eq!(jobs[0].posted, "");
}

#[test]
fn get_jobs_of_empty_page() {
    assert!(get_jobs(&[]).is_empty());
}
