use vstd::prelude::*;

use crate::job::{postings_view, Job, JobView};

verus! {

pub const NO_JOBS_PAGE: &'static str = r#"<html lang="en">
    <head>
        <meta charset="UTF-8" />
        <meta name="viewport" content="width=device-width, initial-scale=1.0" />
        <title>Job Update</title>
    </head>
    <body style="font-family: Arial, sans-serif;">
        <h2>There are no new jobs today</h2>
    </body>
</html>
"#;

pub const PAGE_HEAD: &'static str = r#"<html lang="en">
    <head>
        <meta charset="UTF-8" />
        <meta name="viewport" content="width=device-width, initial-scale=1.0" />
        <title>Job Update</title>
        <style>
            .job-card { display: flex; gap: 12px; align-items: flex-start; max-width: 720px; padding: 12px; border: 1px solid #ddd; border-radius: 10px; font-family: Arial, sans-serif; margin-bottom: 12px; }
            .job-logo { width: 56px; height: 56px; object-fit: contain; border: 1px solid #eee; border-radius: 8px; background: #fff; flex-shrink: 0; }
            .job-title { margin: 0 0 6px; font-size: 1.05rem; }
            .job-meta { margin: 0; color: #555; font-size: 0.95rem; }
            .job-time { margin-top: 6px; color: #777; font-size: 0.85rem; }
        </style>
    </head>
    <body>
        <h2 class="job-title">Good Morning, there are "#;

pub const JOB_WORD: &'static str = " new job";

pub const HEADING_END: &'static str = ":</h2>\n";

pub const PAGE_TAIL: &'static str = "\n    </body>\n</html>\n";

pub const CARD_LOGO: &'static str = r#"<article class="job-card">
    <img class="job-logo" src=""#;

pub const CARD_ALT: &'static str = r#"" alt=""#;

pub const CARD_LINK: &'static str = r#" logo" />
    <div>
        <h2 class="job-title"><a href=""#;

pub const CARD_TITLE: &'static str = r#"">"#;

pub const CARD_META: &'static str = r#"</a></h2>
        <p class="job-meta">"#;

pub const CARD_SEP: &'static str = " &bull; ";

pub const CARD_TIME: &'static str = r#"</p>
        <p class="job-time">"#;

pub const CARD_END: &'static str = r#"</p>
    </div>
</article>"#;

/// One card of the digest: logo, title as a link, company, location, and
/// when it was posted.
pub open spec fn card_html(j: JobView) -> Seq<char> {
    CARD_LOGO@ + j.logo_url + CARD_ALT@ + j.company + CARD_LINK@ + j.link + CARD_TITLE@ + j.title
        + CARD_META@ + j.company + CARD_SEP@ + j.location + CARD_TIME@ + j.posted + CARD_END@
}

/// The cards of the postings in order, a line break between each two.
pub open spec fn cards_html(jobs: Seq<JobView>) -> Seq<char>
    decreases jobs.len(),
{
    if jobs.len() == 0 {
        Seq::empty()
    } else if jobs.len() == 1 {
        card_html(jobs[0])
    } else {
        cards_html(jobs.drop_last()) + seq!['\n'] + card_html(jobs.last())
    }
}

pub open spec fn digit_char(d: nat) -> char {
    if d == 0 {
        '0'
    } else if d == 1 {
        '1'
    } else if d == 2 {
        '2'
    } else if d == 3 {
        '3'
    } else if d == 4 {
        '4'
    } else if d == 5 {
        '5'
    } else if d == 6 {
        '6'
    } else if d == 7 {
        '7'
    } else if d == 8 {
        '8'
    } else {
        '9'
    }
}

/// `n` in decimal, without leading zeros.
pub open spec fn decimal(n: nat) -> Seq<char>
    decreases n,
{
    if n < 10 {
        seq![digit_char(n)]
    } else {
        decimal(n / 10).push(digit_char(n % 10))
    }
}

/// The digest page for the new postings: a "no new jobs" page when there are
/// none, else a heading with their number and one card each.
pub open spec fn digest_html(jobs: Seq<JobView>) -> Seq<char> {
    if jobs.len() == 0 {
        NO_JOBS_PAGE@
    } else {
        PAGE_HEAD@ + decimal(jobs.len()) + JOB_WORD@ + (if jobs.len() == 1 {
            Seq::empty()
        } else {
            seq!['s']
        }) + HEADING_END@ + cards_html(jobs) + PAGE_TAIL@
    }
}

fn digit_text(d: usize) -> (r: &'static str)
    requires
        d < 10,
    ensures
        r@ == seq![digit_char(d as nat)],
{
    if d == 0 {
        proof { reveal_strlit("0"); }
        "0"
    } else if d == 1 {
        proof { reveal_strlit("1"); }
        "1"
    } else if d == 2 {
        proof { reveal_strlit("2"); }
        "2"
    } else if d == 3 {
        proof { reveal_strlit("3"); }
        "3"
    } else if d == 4 {
        proof { reveal_strlit("4"); }
        "4"
    } else if d == 5 {
        proof { reveal_strlit("5"); }
        "5"
    } else if d == 6 {
        proof { reveal_strlit("6"); }
        "6"
    } else if d == 7 {
        proof { reveal_strlit("7"); }
        "7"
    } else if d == 8 {
        proof { reveal_strlit("8"); }
        "8"
    } else {
        proof { reveal_strlit("9"); }
        "9"
    }
}

fn decimal_text(n: usize) -> (r: String)
    ensures
        r@ == decimal(n as nat),
    decreases n,
{
    if n < 10 {
        String::from_str(digit_text(n))
    } else {
        let mut s = decimal_text(n / 10);
        s.append(digit_text(n % 10));
        s
    }
}

fn append_card(out: &mut String, j: &Job)
    ensures
        final(out)@ == old(out)@ + card_html(j@),
{
    out.append(CARD_LOGO);
    out.append(j.logo_url.as_str());
    out.append(CARD_ALT);
    out.append(j.company.as_str());
    out.append(CARD_LINK);
    out.append(j.link.as_str());
    out.append(CARD_TITLE);
    out.append(j.title.as_str());
    out.append(CARD_META);
    out.append(j.company.as_str());
    out.append(CARD_SEP);
    out.append(j.location.as_str());
    out.append(CARD_TIME);
    out.append(j.posted.as_str());
    out.append(CARD_END);
    assert(final(out)@ =~= old(out)@ + card_html(j@));
}

/// The body of the digest mail for the new postings.
pub fn generate_html(jobs: &[Job]) -> (r: String)
    ensures
        r@ == digest_html(postings_view(jobs@)),
{
    let ghost js = postings_view(jobs@);
    if jobs.len() == 0 {
        return String::from_str(NO_JOBS_PAGE);
    }
    let mut out = String::from_str(PAGE_HEAD);
    let count = decimal_text(jobs.len());
    out.append(count.as_str());
    out.append(JOB_WORD);
    if jobs.len() != 1 {
        proof { reveal_strlit("s"); }
        out.append("s");
    }
    out.append(HEADING_END);
    let ghost head = out@;
    let mut i: usize = 0;
    while i < jobs.len()
        invariant
            1 <= jobs@.len(),
            i <= jobs@.len(),
            js == postings_view(jobs@),
            out@ == head + cards_html(js.take(i as int)),
        decreases jobs@.len() - i,
    {
        assert(js.take(i + 1).drop_last() == js.take(i as int));
        if i > 0 {
            proof { reveal_strlit("\n"); }
            out.append("\n");
        } else {
            assert(js.take(1) == seq![js[0]]);
        }
        append_card(&mut out, &jobs[i]);
        assert(out@ =~= head + cards_html(js.take(i + 1)));
        i = i + 1;
    }
    assert(js.take(jobs@.len() as int) == js);
    out.append(PAGE_TAIL);
    assert(out@ =~= digest_html(js));
    out
}

} // verus!
