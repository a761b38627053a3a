use vstd::prelude::*;

use scraper::{Html, Selector};

use crate::extract::{first_attr, first_text, has_logo, listing_posting, page_postings, ListingView};
use crate::job::{postings_view, Job};

verus! {

pub const LISTING_QUERY: &'static str = "ul.job_listings li.job_listing";

pub const LOGO_BLOCK_QUERY: &'static str = "div.job-listing-company-logo";

pub const TITLE_QUERY: &'static str = "h3.job-listing-loop-job__title";

pub const COMPANY_QUERY: &'static str = "div.job-listing-company.company strong";

pub const LOCATION_QUERY: &'static str = "div.job-location.location";

pub const LINK_QUERY: &'static str = "a";

pub const LOGO_IMG_QUERY: &'static str = "div.job-listing-company-logo img";

pub const POSTED_QUERY: &'static str = "span.job-published-date time";

pub const HREF_ATTR: &'static str = "href";

pub const SRC_ATTR: &'static str = "src";

/// Whether scraper accepts `query` as a CSS selector group.
pub uninterp spec fn query_parses(query: Seq<char>) -> bool;

/// How many elements of the markup `html` the selector `listing` matches.
pub uninterp spec fn listing_count(html: Seq<char>, listing: Seq<char>) -> nat;

/// For each element that `listing` matches, whether some element below it
/// matches `field`.
pub uninterp spec fn listing_matches(html: Seq<char>, listing: Seq<char>, field: Seq<char>) -> Seq<
    bool,
>;

/// For each element that `listing` matches, the text pieces below the first
/// element below it that `field` matches (`None`: no such element).
pub uninterp spec fn listing_texts(html: Seq<char>, listing: Seq<char>, field: Seq<char>) -> Seq<
    Option<Seq<Seq<char>>>,
>;

/// For each element that `listing` matches, the attribute `attr` of the
/// first element below it that `field` matches (`None`: no such element or
/// attribute).
pub uninterp spec fn listing_attrs(
    html: Seq<char>,
    listing: Seq<char>,
    field: Seq<char>,
    attr: Seq<char>,
) -> Seq<Option<Seq<char>>>;

pub open spec fn texts_view(v: Seq<Option<Vec<String>>>) -> Seq<Option<Seq<Seq<char>>>> {
    v.map_values(
        |o: Option<Vec<String>>|
            match o {
                None => None,
                Some(p) => Some(p@.map_values(|s: String| s@)),
            },
    )
}

pub open spec fn attrs_view(v: Seq<Option<String>>) -> Seq<Option<Seq<char>>> {
    v.map_values(
        |o: Option<String>|
            match o {
                None => None,
                Some(s) => Some(s@),
            },
    )
}

/// Relies on scraper's Selector::parse, Html::parse_document, Html::select
/// and ElementRef::select: parsing fails only on a query that is no selector
/// group, and then the result is the same for the same markup and queries.
#[verifier::external_body]
fn matches_below(html: &str, listing_q: &str, field_q: &str) -> (r: Option<Vec<bool>>)
    ensures
        r is Some == (query_parses(listing_q@) && query_parses(field_q@)),
        r matches Some(v) ==> v@ == listing_matches(html@, listing_q@, field_q@) && v@.len()
            == listing_count(html@, listing_q@),
{
    let listing = Selector::parse(listing_q).ok()?;
    let field = Selector::parse(field_q).ok()?;
    let document = Html::parse_document(html);
    Some(document.select(&listing).map(|e| e.select(&field).next().is_some()).collect())
}

/// Relies on scraper's Selector::parse, Html::parse_document, Html::select,
/// ElementRef::select and ElementRef::text, as `matches_below` does.
#[verifier::external_body]
fn texts_below(html: &str, listing_q: &str, field_q: &str) -> (r: Option<
    Vec<Option<Vec<String>>>,
>)
    ensures
        r is Some == (query_parses(listing_q@) && query_parses(field_q@)),
        r matches Some(v) ==> texts_view(v@) == listing_texts(html@, listing_q@, field_q@)
            && v@.len() == listing_count(html@, listing_q@),
{
    let listing = Selector::parse(listing_q).ok()?;
    let field = Selector::parse(field_q).ok()?;
    let document = Html::parse_document(html);
    Some(
        document.select(&listing).map(
            |e| e.select(&field).next().map(|n| n.text().map(String::from).collect()),
        ).collect(),
    )
}

/// Relies on scraper's Selector::parse, Html::parse_document, Html::select,
/// ElementRef::select and ElementRef::attr, as `matches_below` does.
#[verifier::external_body]
fn attrs_below(html: &str, listing_q: &str, field_q: &str, attr: &str) -> (r: Option<
    Vec<Option<String>>,
>)
    ensures
        r is Some == (query_parses(listing_q@) && query_parses(field_q@)),
        r matches Some(v) ==> attrs_view(v@) == listing_attrs(html@, listing_q@, field_q@, attr@)
            && v@.len() == listing_count(html@, listing_q@),
{
    let listing = Selector::parse(listing_q).ok()?;
    let field = Selector::parse(field_q).ok()?;
    let document = Html::parse_document(html);
    Some(
        document.select(&listing).map(|e| e.select(&field).next().and_then(|n| n.attr(attr)).map(
            String::from,
        )).collect(),
    )
}

/// Every query of the placements page parses.
pub open spec fn page_queries_parse() -> bool {
    query_parses(LISTING_QUERY@) && query_parses(LOGO_BLOCK_QUERY@) && query_parses(TITLE_QUERY@)
        && query_parses(COMPANY_QUERY@) && query_parses(LOCATION_QUERY@) && query_parses(
        LINK_QUERY@,
    ) && query_parses(LOGO_IMG_QUERY@) && query_parses(POSTED_QUERY@)
}

/// The listing elements of the placements page as read with its queries: the
/// logo block decides whether a listing counts; title, company, location and
/// posting date are texts; link and logo are the `href` and `src` values.
pub open spec fn page_listings(html: Seq<char>) -> Seq<ListingView> {
    Seq::new(
        listing_count(html, LISTING_QUERY@),
        |i: int|
            ListingView {
                has_logo: listing_matches(html, LISTING_QUERY@, LOGO_BLOCK_QUERY@)[i],
                title: listing_texts(html, LISTING_QUERY@, TITLE_QUERY@)[i],
                company: listing_texts(html, LISTING_QUERY@, COMPANY_QUERY@)[i],
                location: listing_texts(html, LISTING_QUERY@, LOCATION_QUERY@)[i],
                link: listing_attrs(html, LISTING_QUERY@, LINK_QUERY@, HREF_ATTR@)[i],
                logo_url: listing_attrs(html, LISTING_QUERY@, LOGO_IMG_QUERY@, SRC_ATTR@)[i],
                posted: listing_texts(html, LISTING_QUERY@, POSTED_QUERY@)[i],
            },
    )
}

/// The postings of the page's markup: one for each listing element that has
/// a logo block, in the order scraper yields the listings, each field trimmed
/// and empty where absent. `None` exactly where a query of the page does not
/// parse.
pub fn parse_jobs_from_string(html: &str) -> (r: Option<Vec<Job>>)
    ensures
        r is Some <==> page_queries_parse(),
        r matches Some(jobs) ==> postings_view(jobs@) == page_postings(page_listings(html@)),
{
    let logos = matches_below(html, LISTING_QUERY, LOGO_BLOCK_QUERY)?;
    let titles = texts_below(html, LISTING_QUERY, TITLE_QUERY)?;
    let companies = texts_below(html, LISTING_QUERY, COMPANY_QUERY)?;
    let locations = texts_below(html, LISTING_QUERY, LOCATION_QUERY)?;
    let links = attrs_below(html, LISTING_QUERY, LINK_QUERY, HREF_ATTR)?;
    let logo_urls = attrs_below(html, LISTING_QUERY, LOGO_IMG_QUERY, SRC_ATTR)?;
    let posted = texts_below(html, LISTING_QUERY, POSTED_QUERY)?;
    let ghost lv = page_listings(html@);
    let ghost pred = |l: ListingView| has_logo(l);
    let ghost f = |l: ListingView| listing_posting(l);
    let mut out: Vec<Job> = Vec::new();
    let mut i: usize = 0;
    while i < logos.len()
        invariant
            i <= logos@.len(),
            lv == page_listings(html@),
            lv.len() == logos@.len(),
            logos@ == listing_matches(html@, LISTING_QUERY@, LOGO_BLOCK_QUERY@),
            titles@.len() == lv.len() && texts_view(titles@) == listing_texts(html@, LISTING_QUERY@, TITLE_QUERY@),
            companies@.len() == lv.len() && texts_view(companies@) == listing_texts(html@, LISTING_QUERY@, COMPANY_QUERY@),
            locations@.len() == lv.len() && texts_view(locations@) == listing_texts(html@, LISTING_QUERY@, LOCATION_QUERY@),
            posted@.len() == lv.len() && texts_view(posted@) == listing_texts(html@, LISTING_QUERY@, POSTED_QUERY@),
            links@.len() == lv.len() && attrs_view(links@) == listing_attrs(html@, LISTING_QUERY@, LINK_QUERY@, HREF_ATTR@),
            logo_urls@.len() == lv.len() && attrs_view(logo_urls@) == listing_attrs(html@, LISTING_QUERY@, LOGO_IMG_QUERY@, SRC_ATTR@),
            pred == (|l: ListingView| has_logo(l)),
            f == (|l: ListingView| listing_posting(l)),
            postings_view(out@) == lv.take(i as int).filter(pred).map_values(f),
        decreases logos@.len() - i,
    {
        proof {
            assert(lv.take(i + 1) == lv.take(i as int).push(lv[i as int]));
            lv.take(i as int).lemma_filter_push(lv[i as int], pred);
        }
        if logos[i] {
            let job = Job {
                title: first_text(&titles[i]),
                company: first_text(&companies[i]),
                location: first_text(&locations[i]),
                link: first_attr(&links[i]),
                logo_url: first_attr(&logo_urls[i]),
                posted: first_text(&posted[i]),
            };
            let ghost before = lv.take(i as int).filter(pred);
            assert(texts_view(titles@)[i as int] == lv[i as int].title);
            assert(texts_view(companies@)[i as int] == lv[i as int].company);
            assert(texts_view(locations@)[i as int] == lv[i as int].location);
            assert(texts_view(posted@)[i as int] == lv[i as int].posted);
            assert(attrs_view(links@)[i as int] == lv[i as int].link);
            assert(attrs_view(logo_urls@)[i as int] == lv[i as int].logo_url);
            assert(job@ == f(lv[i as int]));
            assert(before.push(lv[i as int]).map_values(f) =~= before.map_values(f).push(job@));
            out.push(job);
        }
        i = i + 1;
    }
    assert(lv.take(lv.len() as int) == lv);
    Some(out)
}

} // verus!
