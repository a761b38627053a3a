use vstd::prelude::*;
use vstd::utf8::{
    decode_utf8, decode_utf8_encode_utf8, encode_utf8, encode_utf8_decode_utf8,
    encode_utf8_valid_utf8, valid_utf8,
};

use crate::job::{postings_view, Job, JobView};

verus! {

// The stored form of a snapshot: each posting in order, each posting as its
// six fields in order, each field as its UTF-8 byte length (eight bytes,
// least significant first) followed by those bytes.

/// `n` as eight bytes, least significant first.
pub open spec fn le_bytes(n: u64) -> Seq<u8> {
    seq![
        n as u8,
        (n >> 8u64) as u8,
        (n >> 16u64) as u8,
        (n >> 24u64) as u8,
        (n >> 32u64) as u8,
        (n >> 40u64) as u8,
        (n >> 48u64) as u8,
        (n >> 56u64) as u8,
    ]
}

/// The number whose eight bytes, least significant first, begin `b`.
pub open spec fn le_value(b: Seq<u8>) -> u64
    recommends
        b.len() >= 8,
{
    (b[0] as u64) | ((b[1] as u64) << 8u64) | ((b[2] as u64) << 16u64) | ((b[3] as u64) << 24u64)
        | ((b[4] as u64) << 32u64) | ((b[5] as u64) << 40u64) | ((b[6] as u64) << 48u64) | ((
    b[7] as u64) << 56u64)
}

/// A field's text fits the eight-byte length prefix.
pub open spec fn field_fits(s: Seq<char>) -> bool {
    encode_utf8(s).len() <= u64::MAX
}

/// Every field of the posting fits the eight-byte length prefix.
pub open spec fn posting_fits(j: JobView) -> bool {
    field_fits(j.title) && field_fits(j.company) && field_fits(j.location) && field_fits(j.link)
        && field_fits(j.logo_url) && field_fits(j.posted)
}

/// Every field of every posting fits the eight-byte length prefix (always
/// true of postings held in memory).
pub open spec fn snapshot_fits(jobs: Seq<JobView>) -> bool {
    forall|i: int| 0 <= i < jobs.len() ==> #[trigger] posting_fits(jobs[i])
}

pub open spec fn field_bytes(s: Seq<char>) -> Seq<u8> {
    le_bytes(encode_utf8(s).len() as u64) + encode_utf8(s)
}

pub open spec fn fields_of(j: JobView) -> Seq<Seq<char>> {
    seq![j.title, j.company, j.location, j.link, j.logo_url, j.posted]
}

pub open spec fn posting_of(fields: Seq<Seq<char>>) -> JobView {
    JobView {
        title: fields[0],
        company: fields[1],
        location: fields[2],
        link: fields[3],
        logo_url: fields[4],
        posted: fields[5],
    }
}

pub open spec fn fields_bytes(fields: Seq<Seq<char>>) -> Seq<u8>
    decreases fields.len(),
{
    if fields.len() == 0 {
        Seq::empty()
    } else {
        field_bytes(fields[0]) + fields_bytes(fields.skip(1))
    }
}

pub open spec fn posting_bytes(j: JobView) -> Seq<u8> {
    field_bytes(j.title) + field_bytes(j.company) + field_bytes(j.location) + field_bytes(j.link)
        + field_bytes(j.logo_url) + field_bytes(j.posted)
}

/// The stored form of a whole snapshot.
pub open spec fn snapshot_bytes(jobs: Seq<JobView>) -> Seq<u8>
    decreases jobs.len(),
{
    if jobs.len() == 0 {
        Seq::empty()
    } else {
        posting_bytes(jobs[0]) + snapshot_bytes(jobs.skip(1))
    }
}

/// Reads one field from the front of `b`: its text and the bytes it took.
pub open spec fn parse_field(b: Seq<u8>) -> Option<(Seq<char>, int)> {
    if b.len() < 8 {
        None
    } else {
        let n = le_value(b) as int;
        if n <= b.len() - 8 && valid_utf8(b.subrange(8, 8 + n)) {
            Some((decode_utf8(b.subrange(8, 8 + n)), 8 + n))
        } else {
            None
        }
    }
}

/// Reads `k` fields from the front of `b`.
pub open spec fn parse_fields(b: Seq<u8>, k: nat) -> Option<(Seq<Seq<char>>, int)>
    decreases k,
{
    if k == 0 {
        Some((Seq::empty(), 0))
    } else {
        match parse_field(b) {
            None => None,
            Some((s, n)) => match parse_fields(b.skip(n), (k - 1) as nat) {
                None => None,
                Some((rest, m)) => Some((seq![s] + rest, n + m)),
            },
        }
    }
}

/// Reads one posting from the front of `b`.
pub open spec fn parse_posting(b: Seq<u8>) -> Option<(JobView, int)> {
    match parse_fields(b, 6) {
        None => None,
        Some((fields, n)) => Some((posting_of(fields), n)),
    }
}

/// Reads a whole snapshot: postings one after another up to the last byte.
pub open spec fn parse_snapshot(b: Seq<u8>) -> Option<Seq<JobView>>
    decreases b.len(),
{
    if b.len() == 0 {
        Some(Seq::empty())
    } else {
        match parse_posting(b) {
            None => None,
            Some((j, n)) => if 0 < n <= b.len() {
                match parse_snapshot(b.skip(n)) {
                    None => None,
                    Some(rest) => Some(seq![j] + rest),
                }
            } else {
                None
            },
        }
    }
}

proof fn lemma_le_round(n: u64)
    ensures
        le_value(le_bytes(n)) == n,
{
    let b = le_bytes(n);
    assert(le_value(b) == ((n as u8) as u64) | (((n >> 8u64) as u8) as u64) << 8u64 | (((n
        >> 16u64) as u8) as u64) << 16u64 | (((n >> 24u64) as u8) as u64) << 24u64 | (((n
        >> 32u64) as u8) as u64) << 32u64 | (((n >> 40u64) as u8) as u64) << 40u64 | (((n
        >> 48u64) as u8) as u64) << 48u64 | (((n >> 56u64) as u8) as u64) << 56u64);
    assert(((n as u8) as u64) | (((n >> 8u64) as u8) as u64) << 8u64 | (((n >> 16u64) as u8)
        as u64) << 16u64 | (((n >> 24u64) as u8) as u64) << 24u64 | (((n >> 32u64) as u8)
        as u64) << 32u64 | (((n >> 40u64) as u8) as u64) << 40u64 | (((n >> 48u64) as u8)
        as u64) << 48u64 | (((n >> 56u64) as u8) as u64) << 56u64 == n) by (bit_vector);
}

proof fn lemma_le_canonical(b: Seq<u8>)
    requires
        b.len() >= 8,
    ensures
        le_bytes(le_value(b)) == b.take(8),
{
    let (b0, b1, b2, b3, b4, b5, b6, b7) = (b[0], b[1], b[2], b[3], b[4], b[5], b[6], b[7]);
    let v = le_value(b);
    assert(v == (b0 as u64) | ((b1 as u64) << 8u64) | ((b2 as u64) << 16u64) | ((b3 as u64)
        << 24u64) | ((b4 as u64) << 32u64) | ((b5 as u64) << 40u64) | ((b6 as u64) << 48u64) | ((
    b7 as u64) << 56u64));
    assert(v as u8 == b0 && (v >> 8u64) as u8 == b1 && (v >> 16u64) as u8 == b2 && (v >> 24u64)
        as u8 == b3 && (v >> 32u64) as u8 == b4 && (v >> 40u64) as u8 == b5 && (v >> 48u64) as u8
        == b6 && (v >> 56u64) as u8 == b7) by (bit_vector)
        requires
            v == (b0 as u64) | ((b1 as u64) << 8u64) | ((b2 as u64) << 16u64) | ((b3 as u64)
                << 24u64) | ((b4 as u64) << 32u64) | ((b5 as u64) << 40u64) | ((b6 as u64)
                << 48u64) | ((b7 as u64) << 56u64),
    ;
    assert(le_bytes(v) =~= b.take(8));
}

proof fn lemma_field_round(s: Seq<char>, rest: Seq<u8>)
    requires
        field_fits(s),
    ensures
        parse_field(field_bytes(s) + rest) == Some((s, field_bytes(s).len() as int)),
        field_bytes(s).len() >= 8,
{
    let e = encode_utf8(s);
    let b = field_bytes(s) + rest;
    lemma_le_round(e.len() as u64);
    assert(b.take(8) =~= le_bytes(e.len() as u64));
    assert(le_value(b) == le_value(le_bytes(e.len() as u64)));
    assert(b.subrange(8, 8 + e.len() as int) =~= e);
    encode_utf8_valid_utf8(s);
    encode_utf8_decode_utf8(s);
}

proof fn lemma_field_canonical(b: Seq<u8>)
    requires
        parse_field(b) is Some,
    ensures
        ({
            let (s, n) = parse_field(b)->0;
            &&& 8 <= n <= b.len()
            &&& b.take(n) == field_bytes(s)
            &&& field_fits(s)
        }),
{
    let (s, n) = parse_field(b)->0;
    let body = b.subrange(8, n);
    decode_utf8_encode_utf8(body);
    lemma_le_canonical(b);
    assert(encode_utf8(s).len() as u64 == le_value(b));
    assert(b.take(n) =~= b.take(8) + body);
}

proof fn lemma_fields_round(fields: Seq<Seq<char>>, rest: Seq<u8>)
    requires
        forall|i: int| 0 <= i < fields.len() ==> field_fits(#[trigger] fields[i]),
    ensures
        parse_fields(fields_bytes(fields) + rest, fields.len()) == Some(
            (fields, fields_bytes(fields).len() as int),
        ),
        fields_bytes(fields).len() >= 8 * fields.len(),
    decreases fields.len(),
{
    if fields.len() > 0 {
        let tail = fields.skip(1);
        assert forall|i: int| 0 <= i < tail.len() implies field_fits(#[trigger] tail[i]) by {
            assert(tail[i] == fields[i + 1]);
        }
        lemma_fields_round(tail, rest);
        let head = field_bytes(fields[0]);
        let b = fields_bytes(fields) + rest;
        assert(b =~= head + (fields_bytes(tail) + rest));
        lemma_field_round(fields[0], fields_bytes(tail) + rest);
        assert(b.skip(head.len() as int) =~= fields_bytes(tail) + rest);
        assert(seq![fields[0]] + tail =~= fields);
    }
}

proof fn lemma_fields_canonical(b: Seq<u8>, k: nat)
    requires
        parse_fields(b, k) is Some,
    ensures
        ({
            let (fields, n) = parse_fields(b, k)->0;
            &&& fields.len() == k
            &&& 8 * k <= n <= b.len()
            &&& b.take(n) == fields_bytes(fields)
            &&& forall|i: int| 0 <= i < fields.len() ==> field_fits(#[trigger] fields[i])
        }),
    decreases k,
{
    if k > 0 {
        lemma_field_canonical(b);
        let (s, n) = parse_field(b)->0;
        let tail_bytes = b.skip(n);
        lemma_fields_canonical(tail_bytes, (k - 1) as nat);
        let (rest, m) = parse_fields(tail_bytes, (k - 1) as nat)->0;
        let fields = seq![s] + rest;
        assert(fields.skip(1) =~= rest);
        assert(fields[0] == s);
        assert(b.take(n + m) =~= b.take(n) + tail_bytes.take(m));
        assert forall|i: int| 0 <= i < fields.len() implies field_fits(#[trigger] fields[i]) by {
            if i > 0 {
                assert(fields[i] == rest[i - 1]);
            }
        }
    }
}

proof fn lemma_posting_fields(j: JobView)
    ensures
        fields_bytes(fields_of(j)) == posting_bytes(j),
        posting_of(fields_of(j)) == j,
{
    let f = fields_of(j);
    reveal_with_fuel(fields_bytes, 7);
    assert(f.skip(1) =~= seq![j.company, j.location, j.link, j.logo_url, j.posted]);
    assert(f.skip(1).skip(1) =~= seq![j.location, j.link, j.logo_url, j.posted]);
    assert(f.skip(1).skip(1).skip(1) =~= seq![j.link, j.logo_url, j.posted]);
    assert(f.skip(1).skip(1).skip(1).skip(1) =~= seq![j.logo_url, j.posted]);
    assert(f.skip(1).skip(1).skip(1).skip(1).skip(1) =~= seq![j.posted]);
    assert(f.skip(1).skip(1).skip(1).skip(1).skip(1).skip(1) =~= Seq::<Seq<char>>::empty());
    assert(fields_bytes(f) =~= posting_bytes(j));
}

/// Loading what was saved gives back exactly the saved postings, in order:
/// reading back the stored form of a snapshot gives that snapshot.
pub proof fn lemma_snapshot_round_trip(jobs: Seq<JobView>)
    requires
        snapshot_fits(jobs),
    ensures
        parse_snapshot(snapshot_bytes(jobs)) == Some(jobs),
        stored_snapshot(Some(snapshot_bytes(jobs))) == Some(jobs),
    decreases jobs.len(),
{
    if jobs.len() > 0 {
        let j = jobs[0];
        let tail = jobs.skip(1);
        assert forall|i: int| 0 <= i < tail.len() implies #[trigger] posting_fits(tail[i]) by {
            assert(tail[i] == jobs[i + 1]);
        }
        lemma_snapshot_round_trip(tail);
        assert(posting_fits(jobs[0]));
        let f = fields_of(j);
        assert forall|i: int| 0 <= i < f.len() implies field_fits(#[trigger] f[i]) by {}
        lemma_posting_fields(j);
        lemma_fields_round(f, snapshot_bytes(tail));
        let b = snapshot_bytes(jobs);
        let n = posting_bytes(j).len() as int;
        assert(b.skip(n) =~= snapshot_bytes(tail));
        assert(seq![j] + tail =~= jobs);
    }
}

/// Whatever reads as a snapshot is exactly that snapshot's stored form.
pub proof fn lemma_snapshot_canonical(b: Seq<u8>)
    requires
        parse_snapshot(b) is Some,
    ensures
        snapshot_bytes(parse_snapshot(b)->0) == b,
        snapshot_fits(parse_snapshot(b)->0),
    decreases b.len(),
{
    if b.len() > 0 {
        lemma_fields_canonical(b, 6);
        let (fields, n) = parse_fields(b, 6)->0;
        let j = posting_of(fields);
        assert(fields_of(j) =~= fields);
        lemma_posting_fields(j);
        let tail_bytes = b.skip(n);
        lemma_snapshot_canonical(tail_bytes);
        let tail = parse_snapshot(tail_bytes)->0;
        let jobs = seq![j] + tail;
        assert(jobs.skip(1) =~= tail);
        assert(jobs[0] == j);
        assert(b =~= b.take(n) + tail_bytes);
        assert(posting_fits(j)) by {
            assert(field_fits(fields[0]) && field_fits(fields[1]) && field_fits(fields[2])
                && field_fits(fields[3]) && field_fits(fields[4]) && field_fits(fields[5]));
        }
        assert forall|i: int| 0 <= i < jobs.len() implies #[trigger] posting_fits(jobs[i]) by {
            if i > 0 {
                assert(jobs[i] == tail[i - 1]);
            }
        }
    }
}

/// Appending a posting appends its stored form.
proof fn lemma_snapshot_bytes_push(jobs: Seq<JobView>, j: JobView)
    ensures
        snapshot_bytes(jobs.push(j)) == snapshot_bytes(jobs) + posting_bytes(j),
    decreases jobs.len(),
{
    if jobs.len() == 0 {
        let one = jobs.push(j);
        assert(one.skip(1) =~= Seq::<JobView>::empty());
        assert(one[0] == j);
        assert(snapshot_bytes(one.skip(1)) == Seq::<u8>::empty());
        assert(snapshot_bytes(one) =~= posting_bytes(j));
        assert(snapshot_bytes(jobs) == Seq::<u8>::empty());
    } else {
        assert(jobs.push(j).skip(1) =~= jobs.skip(1).push(j));
        lemma_snapshot_bytes_push(jobs.skip(1), j);
        assert(snapshot_bytes(jobs.push(j)) =~= snapshot_bytes(jobs) + posting_bytes(j));
    }
}

/// Why a stored snapshot could not be used.
#[derive(Debug, Clone, Copy, PartialEq, Eq, Structural)]
pub enum StorageError {
    /// The stored bytes are not the stored form of any snapshot.
    Corrupt,
    /// The storage medium could not be read.
    Unreadable,
    /// The storage medium could not be written.
    Unwritable,
}

/// Relies on std::str::from_utf8: it accepts exactly the valid UTF-8 byte
/// strings, and the text is then the characters those bytes encode.
#[verifier::external_body]
fn text_from_utf8(b: &[u8]) -> (r: Option<String>)
    ensures
        r is Some <==> valid_utf8(b@),
        r matches Some(s) ==> s@ == decode_utf8(b@),
{
    match std::str::from_utf8(b) {
        Ok(s) => Some(String::from(s)),
        Err(_) => None,
    }
}

fn append_bytes(out: &mut Vec<u8>, b: &[u8])
    ensures
        final(out)@ == old(out)@ + b@,
{
    let mut i: usize = 0;
    while i < b.len()
        invariant
            i <= b@.len(),
            out@ == old(out)@ + b@.take(i as int),
        decreases b@.len() - i,
    {
        out.push(b[i]);
        assert(b@.take(i + 1) == b@.take(i as int).push(b@[i as int]));
        i = i + 1;
    }
    assert(b@.take(b@.len() as int) == b@);
}

fn append_field(out: &mut Vec<u8>, s: &String)
    ensures
        final(out)@ == old(out)@ + field_bytes(s@),
        field_fits(s@),
{
    let bytes = s.as_str().as_bytes();
    let n = bytes.len() as u64;
    let prefix: [u8; 8] = [
        n as u8,
        (n >> 8u64) as u8,
        (n >> 16u64) as u8,
        (n >> 24u64) as u8,
        (n >> 32u64) as u8,
        (n >> 40u64) as u8,
        (n >> 48u64) as u8,
        (n >> 56u64) as u8,
    ];
    assert(prefix@ =~= le_bytes(n));
    append_bytes(out, prefix.as_slice());
    append_bytes(out, bytes);
    assert(final(out)@ =~= old(out)@ + field_bytes(s@));
}

fn append_posting(out: &mut Vec<u8>, j: &Job)
    ensures
        final(out)@ == old(out)@ + posting_bytes(j@),
        posting_fits(j@),
{
    append_field(out, &j.title);
    append_field(out, &j.company);
    append_field(out, &j.location);
    append_field(out, &j.link);
    append_field(out, &j.logo_url);
    append_field(out, &j.posted);
    assert(final(out)@ =~= old(out)@ + posting_bytes(j@));
}

/// The stored form of a snapshot.
pub fn encode_snapshot(jobs: &[Job]) -> (r: Vec<u8>)
    ensures
        r@ == snapshot_bytes(postings_view(jobs@)),
        snapshot_fits(postings_view(jobs@)),
        stored_snapshot(Some(r@)) == Some(postings_view(jobs@)),
{
    let ghost views = postings_view(jobs@);
    let mut out: Vec<u8> = Vec::new();
    let mut i: usize = 0;
    while i < jobs.len()
        invariant
            i <= jobs@.len(),
            views == postings_view(jobs@),
            out@ == snapshot_bytes(views.take(i as int)),
            forall|k: int| 0 <= k < i ==> #[trigger] posting_fits(views[k]),
        decreases jobs@.len() - i,
    {
        append_posting(&mut out, &jobs[i]);
        proof {
            assert(views.take(i + 1) == views.take(i as int).push(views[i as int]));
            lemma_snapshot_bytes_push(views.take(i as int), views[i as int]);
        }
        i = i + 1;
    }
    assert(views.take(jobs@.len() as int) == views);
    proof {
        lemma_snapshot_round_trip(views);
    }
    out
}

/// What a field read gives, as offsets from `start`.
pub open spec fn field_read(r: Option<(String, usize)>, start: int) -> Option<(Seq<char>, int)> {
    match r {
        None => None,
        Some((s, end)) => Some((s@, end - start)),
    }
}

/// What a posting read gives, as offsets from `start`.
pub open spec fn posting_read(r: Option<(Job, usize)>, start: int) -> Option<(JobView, int)> {
    match r {
        None => None,
        Some((j, end)) => Some((j@, end - start)),
    }
}

fn read_field(b: &[u8], start: usize) -> (r: Option<(String, usize)>)
    requires
        start <= b@.len(),
    ensures
        field_read(r, start as int) == parse_field(b@.skip(start as int)),
{
    let ghost rest = b@.skip(start as int);
    if b.len() - start < 8 {
        return None;
    }
    let n: u64 = (b[start] as u64) | ((b[start + 1] as u64) << 8u64) | ((b[start + 2] as u64)
        << 16u64) | ((b[start + 3] as u64) << 24u64) | ((b[start + 4] as u64) << 32u64) | ((b[start
        + 5] as u64) << 40u64) | ((b[start + 6] as u64) << 48u64) | ((b[start + 7] as u64)
        << 56u64);
    assert(n == le_value(rest));
    if n > (b.len() - start - 8) as u64 {
        return None;
    }
    let body_start = start + 8;
    let body_end = body_start + n as usize;
    let body = &b[body_start..body_end];
    assert(body@ =~= rest.subrange(8, 8 + n as int));
    match text_from_utf8(body) {
        None => None,
        Some(s) => Some((s, body_end)),
    }
}

pub open spec fn prepend_fields(
    acc: Seq<Seq<char>>,
    offset: int,
    r: Option<(Seq<Seq<char>>, int)>,
) -> Option<(Seq<Seq<char>>, int)> {
    match r {
        None => None,
        Some((fields, n)) => Some((acc + fields, offset + n)),
    }
}

fn read_posting(b: &[u8], start: usize) -> (r: Option<(Job, usize)>)
    requires
        start <= b@.len(),
    ensures
        posting_read(r, start as int) == parse_posting(b@.skip(start as int)),
{
    let ghost whole = parse_fields(b@.skip(start as int), 6);
    let mut fields: Vec<String> = Vec::new();
    let mut pos: usize = start;
    let mut k: usize = 0;
    while k < 6
        invariant
            start <= pos <= b@.len(),
            k <= 6,
            fields@.len() == k,
            whole == parse_fields(b@.skip(start as int), 6),
            whole == prepend_fields(
                fields@.map_values(|s: String| s@),
                pos - start,
                parse_fields(b@.skip(pos as int), (6 - k) as nat),
            ),
        decreases 6 - k,
    {
        let ghost here = b@.skip(pos as int);
        match read_field(b, pos) {
            None => {
                return None;
            },
            Some((s, end)) => {
                proof {
                    let n = end - pos;
                    assert(here.skip(n) =~= b@.skip(end as int));
                    let acc = fields@.map_values(|s: String| s@);
                    assert(acc.push(s@) =~= fields@.push(s).map_values(|s: String| s@));
                    match parse_fields(b@.skip(end as int), (5 - k) as nat) {
                        None => {},
                        Some((more, m)) => {
                            assert(acc.push(s@) + more =~= acc + (seq![s@] + more));
                        },
                    }
                }
                fields.push(s);
                pos = end;
            },
        }
        k = k + 1;
    }
    let ghost fs = fields@.map_values(|s: String| s@);
    assert(whole == Some((fs, pos - start)));
    let posted = fields.pop().unwrap();
    let logo_url = fields.pop().unwrap();
    let link = fields.pop().unwrap();
    let location = fields.pop().unwrap();
    let company = fields.pop().unwrap();
    let title = fields.pop().unwrap();
    let job = Job { title, company, location, link, logo_url, posted };
    assert(job@ == posting_of(fs));
    Some((job, pos))
}

/// The snapshot whose stored form is `bytes`, or `Corrupt` where `bytes` is
/// the stored form of no snapshot.
pub fn decode_snapshot(bytes: &[u8]) -> (r: Result<Vec<Job>, StorageError>)
    ensures
        match r {
            Ok(jobs) => parse_snapshot(bytes@) == Some(postings_view(jobs@)) && snapshot_bytes(
                postings_view(jobs@),
            ) == bytes@,
            Err(e) => parse_snapshot(bytes@) is None && e is Corrupt && forall|x: Seq<JobView>|
                snapshot_fits(x) ==> #[trigger] snapshot_bytes(x) != bytes@,
        },
{
    let ghost whole = parse_snapshot(bytes@);
    let mut jobs: Vec<Job> = Vec::new();
    let mut pos: usize = 0;
    assert(bytes@.skip(0) =~= bytes@);
    assert(forall|rest: Seq<JobView>| Seq::<JobView>::empty() + rest =~= rest);
    while pos < bytes.len()
        invariant
            pos <= bytes@.len(),
            whole == parse_snapshot(bytes@),
            whole == match parse_snapshot(bytes@.skip(pos as int)) {
                None => None,
                Some(rest) => Some(postings_view(jobs@) + rest),
            },
        decreases bytes@.len() - pos,
    {
        let ghost here = bytes@.skip(pos as int);
        match read_posting(bytes, pos) {
            None => {
                proof {
                    lemma_not_stored_form(bytes@);
                }
                return Err(StorageError::Corrupt);
            },
            Some((job, end)) => {
                if end <= pos {
                    proof {
                        lemma_not_stored_form(bytes@);
                    }
                    return Err(StorageError::Corrupt);
                }
                proof {
                    lemma_fields_canonical(here, 6);
                    let n = end - pos;
                    assert(here.skip(n) =~= bytes@.skip(end as int));
                    let acc = postings_view(jobs@);
                    assert(acc.push(job@) =~= postings_view(jobs@.push(job)));
                    match parse_snapshot(bytes@.skip(end as int)) {
                        None => {},
                        Some(more) => {
                            assert(acc.push(job@) + more =~= acc + (seq![job@] + more));
                        },
                    }
                }
                jobs.push(job);
                pos = end;
            },
        }
    }
    proof {
        assert(bytes@.skip(pos as int) =~= Seq::<u8>::empty());
        assert(postings_view(jobs@) + Seq::<JobView>::empty() =~= postings_view(jobs@));
        lemma_snapshot_canonical(bytes@);
    }
    Ok(jobs)
}

proof fn lemma_not_stored_form(b: Seq<u8>)
    requires
        parse_snapshot(b) is None,
    ensures
        forall|x: Seq<JobView>| snapshot_fits(x) ==> #[trigger] snapshot_bytes(x) != b,
{
    assert forall|x: Seq<JobView>| snapshot_fits(x) implies #[trigger] snapshot_bytes(x) != b by {
        lemma_snapshot_round_trip(x);
    }
}

/// The snapshot held by the store: none stored reads as empty, stored bytes
/// read as the snapshot they are the stored form of.
pub open spec fn stored_snapshot(stored: Option<Seq<u8>>) -> Option<Seq<JobView>> {
    match stored {
        None => Some(Seq::empty()),
        Some(b) => parse_snapshot(b),
    }
}

pub open spec fn stored_bytes(stored: Option<&[u8]>) -> Option<Seq<u8>> {
    match stored {
        None => None,
        Some(b) => Some(b@),
    }
}

/// The previous snapshot, from what the store holds (`None`: nothing was
/// ever saved). An absent snapshot is empty; unreadable bytes are an error,
/// never an empty snapshot.
pub fn load_snapshot(stored: Option<&[u8]>) -> (r: Result<Vec<Job>, StorageError>)
    ensures
        match r {
            Ok(jobs) => stored_snapshot(stored_bytes(stored)) == Some(postings_view(jobs@)),
            Err(e) => stored_snapshot(stored_bytes(stored)) is None && e is Corrupt,
        },
{
    match stored {
        None => {
            let jobs: Vec<Job> = Vec::new();
            assert(postings_view(jobs@) =~= Seq::<JobView>::empty());
            Ok(jobs)
        },
        Some(b) => decode_snapshot(b),
    }
}

} // verus!
