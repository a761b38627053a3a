use job_alerts::page::parse_jobs_from_string;

const PAGE: &str = r#"<!DOCTYPE html>
<html><body>
<ul class="job_listings">
  <li class="job_listing">
    <a href=" https://example.com/jobs/1 ">
      <div class="job-listing-company-logo"><img src="https://example.com/l1.png"></div>
      <h3 class="job-listing-loop-job__title">  Systems <em>Engineer</em>
      </h3>
      <div class="job-listing-company company"><strong>Acme Defence</strong></div>
      <div class="job-location location">
         Adelaide, SA
      </div>
      <span class="job-published-date"><time>Posted 2 days ago</time></span>
    </a>
  </li>
  <li class="job_listing">
    <a href="https://example.com/jobs/2"><h3 class="job-listing-loop-job__title">No logo</h3></a>
  </li>
  <li class="job_listing">
    <div class="job-listing-company-logo"></div>
    <h3 class="job-listing-loop-job__title">Analyst</h3>
  </li>
</ul>
</body></html>"#;

#[test]
fn page_listings_become_postings() {
    let jobs = parse_jobs_from_string(PAGE).unwrap();
    assert_eq!(jobs.len(), 2);
    assert_eq!(jobs[0].title, "Systems  Engineer");
    assert_eq!(jobs[0].company, "Acme Defence");
    assert_eq!(jobs[0].location, "Adelaide, SA");
    assert_eq!(jobs[0].link, "https://example.com/jobs/1");
    assert_eq!(jobs[0].logo_url, "https://example.com/l1.png");
    assert_eq!(jobs[0].posted, "Posted 2 days ago");
    assert_eq!(jobs[1].title, "Analyst");
    assert_eq!(jobs[1].company, "");
    assert_eq!(jobs[1].link, "");
    assert_eq!(jobs[1].logo_url, "");
}

#[test]
fn page_without_listings_has_no_postings() {
    let jobs = parse_jobs_from_string("<html><body><p>Nothing</p></body></html>").unwrap();
    assert!(jobs.is_empty());
}
