use vstd::prelude::*;

use crate::job::{postings_view, Job, JobView};

verus! {

/// What the page holds for one listing element, as found by the selectors:
/// whether it has a company-logo block, the text pieces of the first element
/// that each text field's selector matches, and the attribute value that each
/// link field's selector finds (`None`: no such element or attribute).
#[derive(Debug, Clone)]
pub struct RawListing {
    pub has_logo: bool,
    pub title: Option<Vec<String>>,
    pub company: Option<Vec<String>>,
    pub location: Option<Vec<String>>,
    pub link: Option<String>,
    pub logo_url: Option<String>,
    pub posted: Option<Vec<String>>,
}

/// Unicode's White_Space property.
pub open spec fn is_white_space(c: char) -> bool {
    let u = c as u32;
    (0x9 <= u <= 0xd) || u == 0x20 || u == 0x85 || u == 0xa0 || u == 0x1680 || (0x2000 <= u
        <= 0x200a) || u == 0x2028 || u == 0x2029 || u == 0x202f || u == 0x205f || u == 0x3000
}

pub open spec fn trim_start(s: Seq<char>) -> Seq<char>
    decreases s.len(),
{
    if s.len() > 0 && is_white_space(s[0]) {
        trim_start(s.skip(1))
    } else {
        s
    }
}

pub open spec fn trim_end(s: Seq<char>) -> Seq<char>
    decreases s.len(),
{
    if s.len() > 0 && is_white_space(s.last()) {
        trim_end(s.drop_last())
    } else {
        s
    }
}

/// `s` without leading and trailing white space.
pub open spec fn trimmed(s: Seq<char>) -> Seq<char> {
    trim_end(trim_start(s))
}

/// The pieces, one space between each two.
pub open spec fn joined(pieces: Seq<Seq<char>>) -> Seq<char>
    decreases pieces.len(),
{
    if pieces.len() == 0 {
        Seq::empty()
    } else if pieces.len() == 1 {
        pieces[0]
    } else {
        joined(pieces.drop_last()) + seq![' '] + pieces.last()
    }
}

pub open spec fn pieces_view(pieces: Vec<String>) -> Seq<Seq<char>> {
    pieces@.map_values(|s: String| s@)
}

pub open spec fn node_view(node: Option<Vec<String>>) -> Option<Seq<Seq<char>>> {
    match node {
        None => None,
        Some(pieces) => Some(pieces_view(pieces)),
    }
}

pub open spec fn value_view(value: Option<String>) -> Option<Seq<char>> {
    match value {
        None => None,
        Some(v) => Some(v@),
    }
}

/// The value of a [`RawListing`].
pub struct ListingView {
    pub has_logo: bool,
    pub title: Option<Seq<Seq<char>>>,
    pub company: Option<Seq<Seq<char>>>,
    pub location: Option<Seq<Seq<char>>>,
    pub link: Option<Seq<char>>,
    pub logo_url: Option<Seq<char>>,
    pub posted: Option<Seq<Seq<char>>>,
}

impl View for RawListing {
    type V = ListingView;

    open spec fn view(&self) -> ListingView {
        ListingView {
            has_logo: self.has_logo,
            title: node_view(self.title),
            company: node_view(self.company),
            location: node_view(self.location),
            link: value_view(self.link),
            logo_url: value_view(self.logo_url),
            posted: node_view(self.posted),
        }
    }
}

/// The values of a list of listings.
pub open spec fn listings_view(listings: Seq<RawListing>) -> Seq<ListingView> {
    listings.map_values(|l: RawListing| l@)
}

/// A text field: its pieces joined and trimmed, empty where nothing matched.
pub open spec fn text_field(node: Option<Seq<Seq<char>>>) -> Seq<char> {
    match node {
        None => Seq::empty(),
        Some(pieces) => trimmed(joined(pieces)),
    }
}

/// A link field: the attribute value trimmed, empty where there is none.
pub open spec fn attr_field(value: Option<Seq<char>>) -> Seq<char> {
    match value {
        None => Seq::empty(),
        Some(v) => trimmed(v),
    }
}

/// The posting that a listing element gives.
pub open spec fn listing_posting(l: ListingView) -> JobView {
    JobView {
        title: text_field(l.title),
        company: text_field(l.company),
        location: text_field(l.location),
        link: attr_field(l.link),
        logo_url: attr_field(l.logo_url),
        posted: text_field(l.posted),
    }
}

pub open spec fn has_logo(l: ListingView) -> bool {
    l.has_logo
}

/// The postings of a page: one per listing element with a logo block, in
/// page order.
pub open spec fn page_postings(listings: Seq<ListingView>) -> Seq<JobView> {
    listings.filter(|l: ListingView| has_logo(l)).map_values(|l: ListingView| listing_posting(l))
}

/// Relies on str::trim: leading and trailing characters with Unicode's
/// White_Space property are removed, nothing else.
#[verifier::external_body]
fn trim_text(s: &str) -> (r: String)
    ensures
        r@ == trimmed(s@),
{
    String::from(s.trim())
}

fn join_pieces(pieces: &Vec<String>) -> (r: String)
    ensures
        r@ == joined(pieces_view(*pieces)),
{
    let ghost ps = pieces_view(*pieces);
    let mut out = String::new();
    let mut i: usize = 0;
    while i < pieces.len()
        invariant
            i <= pieces@.len(),
            ps == pieces_view(*pieces),
            out@ == joined(ps.take(i as int)),
        decreases pieces@.len() - i,
    {
        assert(ps.take(i + 1).drop_last() == ps.take(i as int));
        if i > 0 {
            proof {
                reveal_strlit(" ");
            }
            out.append(" ");
        } else {
            assert(ps.take(1) == seq![ps[0]]);
        }
        out.append(pieces[i].as_str());
        i = i + 1;
    }
    assert(ps.take(pieces@.len() as int) == ps);
    out
}

/// A text field from the pieces of text of the first matching element.
pub fn first_text(node: &Option<Vec<String>>) -> (r: String)
    ensures
        r@ == text_field(node_view(*node)),
{
    match node {
        None => String::new(),
        Some(pieces) => {
            let whole = join_pieces(pieces);
            trim_text(whole.as_str())
        },
    }
}

/// A link field from the attribute value of the first matching element.
pub fn first_attr(value: &Option<String>) -> (r: String)
    ensures
        r@ == attr_field(value_view(*value)),
{
    match value {
        None => String::new(),
        Some(v) => trim_text(v.as_str()),
    }
}

/// The postings of a page from its listing elements: those with a logo
/// block, in page order, each field trimmed and empty where absent.
pub fn get_jobs(listings: &[RawListing]) -> (r: Vec<Job>)
    ensures
        postings_view(r@) == page_postings(listings_view(listings@)),
{
    let ghost lv = listings_view(listings@);
    let ghost pred = |l: ListingView| has_logo(l);
    let ghost f = |l: ListingView| listing_posting(l);
    let mut out: Vec<Job> = Vec::new();
    let mut i: usize = 0;
    while i < listings.len()
        invariant
            i <= listings@.len(),
            lv == listings_view(listings@),
            pred == (|l: ListingView| has_logo(l)),
            f == (|l: ListingView| listing_posting(l)),
            postings_view(out@) == lv.take(i as int).filter(pred).map_values(f),
        decreases listings@.len() - i,
    {
        let l = &listings[i];
        proof {
            assert(lv[i as int] == l@);
            assert(lv.take(i + 1) == lv.take(i as int).push(lv[i as int]));
            lv.take(i as int).lemma_filter_push(lv[i as int], pred);
        }
        if l.has_logo {
            let job = Job {
                title: first_text(&l.title),
                company: first_text(&l.company),
                location: first_text(&l.location),
                link: first_attr(&l.link),
                logo_url: first_attr(&l.logo_url),
                posted: first_text(&l.posted),
            };
            let ghost before = lv.take(i as int).filter(pred);
            assert(job@ == f(lv[i as int]));
            assert(before.push(lv[i as int]).map_values(f) =~= before.map_values(f).push(job@));
            out.push(job);
            assert(postings_view(out@) =~= before.push(lv[i as int]).map_values(f));
        }
        i = i + 1;
    }
    assert(lv.take(lv.len() as int) == lv);
    out
}

} // verus!
