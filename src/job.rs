use vstd::prelude::*;

verus! {

/// One job listing as scraped from the page: six verbatim text fields.
#[derive(Clone, Debug)]
pub struct Job {
    pub title: String,
    pub company: String,
    pub location: String,
    pub link: String,
    pub logo_url: String,
    pub posted: String,
}

/// The mathematical value of a [`Job`]: its six fields as character sequences.
pub struct JobView {
    pub title: Seq<char>,
    pub company: Seq<char>,
    pub location: Seq<char>,
    pub link: Seq<char>,
    pub logo_url: Seq<char>,
    pub posted: Seq<char>,
}

impl View for Job {
    type V = JobView;

    open spec fn view(&self) -> JobView {
        JobView {
            title: self.title@,
            company: self.company@,
            location: self.location@,
            link: self.link@,
            logo_url: self.logo_url@,
            posted: self.posted@,
        }
    }
}

/// The values of a list of postings.
pub open spec fn postings_view(jobs: Seq<Job>) -> Seq<JobView> {
    jobs.map_values(|j: Job| j@)
}

impl Job {
    /// A field-by-field copy.
    pub fn duplicate(&self) -> (r: Job)
        ensures
            r@ == self@,
    {
        Job {
            title: self.title.clone(),
            company: self.company.clone(),
            location: self.location.clone(),
            link: self.link.clone(),
            logo_url: self.logo_url.clone(),
            posted: self.posted.clone(),
        }
    }

    /// Structural equality: all six fields equal.
    pub fn same_as(&self, other: &Job) -> (r: bool)
        ensures
            r == (self@ == other@),
    {
        self.title == other.title && self.company == other.company && self.location
            == other.location && self.link == other.link && self.logo_url == other.logo_url
            && self.posted == other.posted
    }
}

impl PartialEq for Job {
    fn eq(&self, other: &Job) -> (r: bool) {
        self.same_as(other)
    }
}

impl vstd::std_specs::cmp::PartialEqSpecImpl for Job {
    open spec fn obeys_eq_spec() -> bool {
        true
    }

    open spec fn eq_spec(&self, other: &Job) -> bool {
        self@ == other@
    }
}

impl Eq for Job {

}

} // verus!
