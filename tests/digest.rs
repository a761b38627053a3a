use job_alerts::html::generate_html;
use job_alerts::job::Job;

fn posting(title: &str) -> Job {
    Job {
        title: title.to_string(),
        company: "Acme".to_string(),
        location: "Perth, WA".to_string(),
        link: format!("https://example.com/{title}"),
        logo_url: "https://example.com/logo.png".to_string(),
        posted: "2 days ago".to_string(),
    }
}

#[test]
fn digest_without_postings_says_none() {
    let page = generate_html(&[]);
    assert!(page.contains("There are no new jobs today"));
    assert!(!page.contains("job-card"));
}

#[test]
fn digest_with_one_posting_is_singular() {
    let page = generate_html(&[posting("Engineer")]);
    assert!(page.contains("there are 1 new job:</h2>"));
    assert!(page.contains(r#"<a href="https://example.com/Engineer">Engineer</a>"#));
    assert!(page.contains(r#"src="https://example.com/logo.png""#));
    assert!(page.contains(r#"alt="Acme logo""#));
    assert!(page.contains("Acme &bull; Perth, WA"));
    assert!(page.contains("2 days ago"));
    assert_eq!(page.matches("<article").count(), 1);
}

#[test]
fn digest_counts_and_orders_cards() {
    let jobs: Vec<Job> = (0..12).map(|i| posting(&format!("Role{i}"))).collect();
    let page = generate_html(&jobs);
    assert!(page.contains("there are 12 new jobs:</h2>"));
    assert_eq!(page.matches("<article").count(), 12);
    let first = page.find("Role0<").unwrap();
    let last = page.find("Role11<").unwrap();
    assert!(first < last);
    assert!(page.trim_end().ends_with("</html>"));
}
