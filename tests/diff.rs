use job_alerts::config::ConfigError;
use job_alerts::diff::diff;
use job_alerts::job::Job;
use job_alerts::run::{plan_run, RunError};
use job_alerts::snapshot::{decode_snapshot, load_snapshot, StorageError};

fn job(title: &str, posted: &str) -> Job {
    Job {
        title: title.to_string(),
        company: format!("{title} Pty Ltd"),
        location: "Adelaide, SA".to_string(),
        link: format!("https://example.com/jobs/{title}"),
        logo_url: format!("https://example.com/logos/{title}.png"),
        posted: posted.to_string(),
    }
}

#[test]
fn diff_against_empty_previous_keeps_all_in_order() {
    let current = vec![job("a", "1 day ago"), job("b", "2 days ago"), job("c", "3 days ago")];
    assert_eq!(diff(&current, &[]), current);
}

#[test]
fn diff_of_empty_current_is_empty() {
    let previous = vec![job("a", "1 day ago"), job("b", "2 days ago")];
    assert_eq!(diff(&[], &previous), Vec::<Job>::new());
}

#[test]
fn diff_with_itself_is_empty() {
    let jobs = vec![job("a", "1 day ago"), job("b", "2 days ago"), job("a", "1 day ago")];
    assert!(diff(&jobs, &jobs).is_empty());
}

#[test]
fn diff_members_are_in_current_and_not_previous() {
    let current = vec![job("a", "1 day ago"), job("b", "2 days ago"), job("c", "today")];
    let previous = vec![job("b", "2 days ago"), job("z", "today")];
    let out = diff(&current, &previous);
    assert_eq!(out, vec![job("a", "1 day ago"), job("c", "today")]);
    for j in &out {
        assert!(current.contains(j));
        assert!(!previous.contains(j));
    }
}

#[test]
fn diff_ignores_order_of_previous() {
    let current = vec![job("a", "x"), job("b", "x"), job("c", "x")];
    let p1 = vec![job("c", "x"), job("a", "x")];
    let p2 = vec![job("a", "x"), job("c", "x")];
    assert_eq!(diff(&current, &p1), diff(&current, &p2));
    assert_eq!(diff(&current, &p1), vec![job("b", "x")]);
}

#[test]
fn changed_field_makes_posting_new() {
    let previous = vec![job("a", "posted 2 days ago"), job("b", "posted 1 day ago")];
    let mut current = previous.clone();
    current[0].posted = "posted 3 days ago".to_string();
    assert_eq!(diff(&current, &previous), vec![job("a", "posted 3 days ago")]);
}

#[test]
fn scenario_previous_ab_current_bc() {
    let job_a = job("a", "1 day ago");
    let job_b = job("b", "1 day ago");
    let job_c = job("c", "today");
    let previous = vec![job_a.clone(), job_b.clone()];
    let current = vec![job_b.clone(), job_c.clone()];
    let plan = match plan_run(&previous, Ok(current.clone())) {
        Ok(plan) => plan,
        Err(e) => panic!("unexpected {e:?}"),
    };
    assert_eq!(plan.notify, vec![job_c.clone()]);
    assert_eq!(decode_snapshot(&plan.save), Ok(vec![job_b, job_c]));
}

#[test]
fn scenario_first_run_reports_everything() {
    let previous = load_snapshot(None).unwrap();
    assert!(previous.is_empty());
    let job_a = job("a", "today");
    let plan = plan_run(&previous, Ok(vec![job_a.clone()])).unwrap();
    assert_eq!(plan.notify, vec![job_a]);
}

#[test]
fn scenario_empty_scrape_still_overwrites_snapshot() {
    let previous = vec![job("a", "today")];
    let plan = plan_run(&previous, Ok(Vec::new())).unwrap();
    assert!(plan.notify.is_empty());
    assert_eq!(decode_snapshot(&plan.save), Ok(Vec::new()));
}

#[test]
fn scenario_fetch_failure_keeps_snapshot() {
    let previous = vec![job("a", "today")];
    match plan_run(&previous, Err("connection refused".to_string())) {
        Err(RunError::Fetch(m)) => assert_eq!(m, "connection refused"),
        other => panic!("unexpected {other:?}"),
    }
}

#[test]
fn scenario_duplicates_in_current_both_reported() {
    let job_a = job("a", "today");
    let current = vec![job_a.clone(), job_a.clone()];
    assert_eq!(diff(&current, &[]), vec![job_a.clone(), job_a]);
}

#[test]
fn job_equality_compares_every_field() {
    let a = job("a", "today");
    let fields: Vec<fn(&mut Job)> = vec![
        |j| j.title.push('!'),
        |j| j.company.push('!'),
        |j| j.location.push('!'),
        |j| j.link.push('!'),
        |j| j.logo_url.push('!'),
        |j| j.posted.push('!'),
    ];
    for change in fields {
        let mut b = a.clone();
        change(&mut b);
        assert_ne!(a, b);
        assert_eq!(diff(&[b.clone()], &[a.clone()]), vec![b]);
    }
}

#[test]
fn only_delivery_failure_lets_run_continue() {
    assert!(!RunError::Delivery("rejected".to_string()).aborts_run());
    assert!(RunError::Fetch("timeout".to_string()).aborts_run());
    assert!(RunError::Storage(StorageError::Unwritable).aborts_run());
    assert!(RunError::Configuration(ConfigError::Missing(vec!["SMTP_HOST".to_string()])).aborts_run());
}
