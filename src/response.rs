use vstd::prelude::*;

use crate::checksum::{all_digits, is_ascii_digit};

verus! {

/// `"RESP_OK:"`, the tag that opens a success response.
pub open spec fn ok_tag() -> Seq<u8> {
    seq![82u8, 69u8, 83u8, 80u8, 95u8, 79u8, 75u8, 58u8]
}

/// `"RESP_ERR:"`, the tag that opens a failure response.
pub open spec fn err_tag() -> Seq<u8> {
    seq![82u8, 69u8, 83u8, 80u8, 95u8, 69u8, 82u8, 82u8, 58u8]
}

/// `" CRC:"`, which separates a response's payload from its CRC field.
pub open spec fn crc_sep() -> Seq<u8> {
    seq![32u8, 67u8, 82u8, 67u8, 58u8]
}

/// The newline byte that ends a response.
pub const NEWLINE: u8 = 10;

fn ok_tag_bytes() -> (r: Vec<u8>)
    ensures
        r@ == ok_tag(),
{
    let r = vec![82u8, 69u8, 83u8, 80u8, 95u8, 79u8, 75u8, 58u8];
    assert(r@ =~= ok_tag());
    r
}

fn err_tag_bytes() -> (r: Vec<u8>)
    ensures
        r@ == err_tag(),
{
    let r = vec![82u8, 69u8, 83u8, 80u8, 95u8, 69u8, 82u8, 82u8, 58u8];
    assert(r@ =~= err_tag());
    r
}

fn crc_sep_bytes() -> (r: Vec<u8>)
    ensures
        r@ == crc_sep(),
{
    let r = vec![32u8, 67u8, 82u8, 67u8, 58u8];
    assert(r@ =~= crc_sep());
    r
}

/// `pat` occurs in `buf` at offset `p`.
pub open spec fn matches_at(buf: Seq<u8>, pat: Seq<u8>, p: int) -> bool {
    0 <= p && p + pat.len() <= buf.len() && buf.subrange(p, p + pat.len()) == pat
}

/// The first offset at or after `p` where `pat` occurs in `buf`.
pub open spec fn first_occurrence(buf: Seq<u8>, pat: Seq<u8>, p: int) -> Option<int>
    decreases buf.len() + 1 - p,
{
    if p < 0 || p + pat.len() > buf.len() {
        None
    } else if matches_at(buf, pat, p) {
        Some(p)
    } else {
        first_occurrence(buf, pat, p + 1)
    }
}

/// An occurrence found at or after `p` lies within the buffer.
pub proof fn lemma_first_occurrence_bounds(buf: Seq<u8>, pat: Seq<u8>, p: int)
    ensures
        first_occurrence(buf, pat, p) matches Some(i) ==> p <= i && i + pat.len() <= buf.len(),
    decreases buf.len() + 1 - p,
{
    if !(p < 0 || p + pat.len() > buf.len()) && !matches_at(buf, pat, p) {
        lemma_first_occurrence_bounds(buf, pat, p + 1);
    }
}

/// The offset of the first newline at or after `s`.
pub open spec fn line_end(buf: Seq<u8>, s: int) -> Option<int>
    decreases buf.len() - s,
{
    if s < 0 || s >= buf.len() {
        None
    } else if buf[s] == NEWLINE {
        Some(s)
    } else {
        line_end(buf, s + 1)
    }
}

/// Where the run of digits that ends just before `n` starts, going no lower
/// than `lo`.
pub open spec fn digit_run_start(buf: Seq<u8>, lo: int, n: int) -> int
    decreases n - lo,
{
    if n > lo && is_ascii_digit(buf[n - 1]) {
        digit_run_start(buf, lo, n - 1)
    } else {
        n
    }
}

/// The response that opens with `tag` at offset `p`, as (payload, CRC
/// field): `tag`, then the rest of the line up to the first newline, which
/// must end in `" CRC:"` followed by one or more digits. The payload is what
/// lies between the tag and that `" CRC:"`.
pub open spec fn frame_at(buf: Seq<u8>, tag: Seq<u8>, p: int) -> Option<(Seq<u8>, Seq<u8>)> {
    if matches_at(buf, tag, p) {
        let s = p + tag.len();
        match line_end(buf, s) {
            Some(n) => {
                let d = digit_run_start(buf, s, n);
                if d < n && s + crc_sep().len() <= d && buf.subrange(d - crc_sep().len(), d)
                    == crc_sep() {
                    Some((buf.subrange(s, d - crc_sep().len()), buf.subrange(d, n)))
                } else {
                    None
                }
            },
            None => None,
        }
    } else {
        None
    }
}

/// The leftmost response opening with `tag` at or after offset `p`.
pub open spec fn first_frame(buf: Seq<u8>, tag: Seq<u8>, p: int) -> Option<(Seq<u8>, Seq<u8>)>
    decreases buf.len() - p,
{
    if p < 0 || p >= buf.len() {
        None
    } else {
        match frame_at(buf, tag, p) {
            Some(x) => Some(x),
            None => first_frame(buf, tag, p + 1),
        }
    }
}

/// `s` holds no newline byte.
pub open spec fn no_newline(s: Seq<u8>) -> bool {
    forall|i: int| 0 <= i < s.len() ==> s[i] != NEWLINE
}

/// The response line opening with `tag` that carries `payload` and the CRC
/// field `crc`.
pub open spec fn response_line(tag: Seq<u8>, payload: Seq<u8>, crc: Seq<u8>) -> Seq<u8> {
    tag + payload + crc_sep() + crc + seq![NEWLINE]
}

proof fn lemma_line_end_of_line(buf: Seq<u8>, k: int, n: int)
    requires
        0 <= k <= n < buf.len(),
        buf[n] == NEWLINE,
        forall|i: int| k <= i < n ==> buf[i] != NEWLINE,
    ensures
        line_end(buf, k) == Some(n),
    decreases n - k,
{
    if k < n {
        lemma_line_end_of_line(buf, k + 1, n);
    }
}

proof fn lemma_digit_run_of_line(buf: Seq<u8>, lo: int, d: int, k: int)
    requires
        lo < d <= k <= buf.len(),
        !is_ascii_digit(buf[d - 1]),
        forall|i: int| d <= i < k ==> is_ascii_digit(buf[i]),
    ensures
        digit_run_start(buf, lo, k) == d,
    decreases k - d,
{
    if k > d {
        lemma_digit_run_of_line(buf, lo, d, k - 1);
    }
}

/// Round trip of the wire format: a line made of `tag`, a payload without
/// newlines, `" CRC:"`, a run of digits and a newline is read back as
/// exactly that payload and CRC field; for the success tag, it is the
/// response found.
pub proof fn lemma_response_round_trip(tag: Seq<u8>, payload: Seq<u8>, crc: Seq<u8>)
    requires
        no_newline(tag),
        no_newline(payload),
        all_digits(crc),
    ensures
        first_frame(response_line(tag, payload, crc), tag, 0) == Some((payload, crc)),
        tag == ok_tag() ==> response_in(response_line(tag, payload, crc)) == Some(
            (ResponseKind::Success, payload, crc),
        ),
{
    let buf = response_line(tag, payload, crc);
    let s = tag.len() as int;
    let d = s + payload.len() + crc_sep().len();
    let n = d + crc.len();
    assert(buf.len() == n + 1);
    assert(buf.subrange(0, s) =~= tag);
    assert forall|i: int| s <= i < n implies buf[i] != NEWLINE by {
        if i < s + payload.len() {
            assert(buf[i] == payload[i - s]);
        } else if i < d {
            assert(buf[i] == crc_sep()[i - s - payload.len()]);
        } else {
            assert(buf[i] == crc[i - d]);
        }
    }
    assert(buf[n] == NEWLINE);
    lemma_line_end_of_line(buf, s, n);
    assert(buf[d - 1] == crc_sep()[4]);
    assert forall|i: int| d <= i < n implies is_ascii_digit(buf[i]) by {
        assert(buf[i] == crc[i - d]);
    }
    lemma_digit_run_of_line(buf, s, d, n);
    assert(buf.subrange(d - crc_sep().len(), d) =~= crc_sep());
    assert(buf.subrange(s, d - crc_sep().len()) =~= payload);
    assert(buf.subrange(d, n) =~= crc);
    assert(frame_at(buf, tag, 0) == Some((payload, crc)));
}

/// Which of the two response markers was seen.
#[derive(Clone, Copy, Debug, PartialEq, Eq, Structural)]
pub enum ResponseKind {
    Success,
    Failure,
}

/// The response found in a console buffer: a success response anywhere in
/// the buffer wins over a failure response; of each kind the leftmost counts.
pub open spec fn response_in(buf: Seq<u8>) -> Option<(ResponseKind, Seq<u8>, Seq<u8>)> {
    match first_frame(buf, ok_tag(), 0) {
        Some(x) => Some((ResponseKind::Success, x.0, x.1)),
        None => match first_frame(buf, err_tag(), 0) {
            Some(x) => Some((ResponseKind::Failure, x.0, x.1)),
            None => None,
        },
    }
}

/// A response read from the console: its kind, its payload bytes and its
/// decimal CRC field.
#[derive(Debug, PartialEq, Eq)]
pub struct Envelope {
    pub kind: ResponseKind,
    pub payload: Vec<u8>,
    pub crc: Vec<u8>,
}

impl Envelope {
    pub open spec fn parts(self) -> (ResponseKind, Seq<u8>, Seq<u8>) {
        (self.kind, self.payload@, self.crc@)
    }
}

/// Whether `pat` occurs in `buf` at offset `p`.
pub fn bytes_match_at(buf: &[u8], pat: &[u8], p: usize) -> (r: bool)
    ensures
        r == matches_at(buf@, pat@, p as int),
{
    if p > buf.len() || pat.len() > buf.len() - p {
        return false;
    }
    let mut i: usize = 0;
    while i < pat.len()
        invariant
            p + pat@.len() <= buf@.len(),
            p + pat.len() <= buf.len(),
            i <= pat@.len(),
            forall|k: int| 0 <= k < i ==> buf@[p + k] == pat@[k],
        decreases pat@.len() - i,
    {
        if buf[p + i] != pat[i] {
            assert(buf@.subrange(p as int, p + pat@.len())[i as int] != pat@[i as int]);
            return false;
        }
        i = i + 1;
    }
    assert(buf@.subrange(p as int, p + pat@.len()) =~= pat@);
    true
}

/// The first offset where `pat` occurs in `buf`; an empty `pat` occurs at 0.
pub fn find_subsequence(buf: &[u8], pat: &[u8]) -> (r: Option<usize>)
    ensures
        r matches Some(i) ==> first_occurrence(buf@, pat@, 0) == Some(i as int),
        r is None ==> first_occurrence(buf@, pat@, 0) is None,
{
    if pat.len() > buf.len() {
        return None;
    }
    let last = buf.len() - pat.len();
    let mut p: usize = 0;
    loop
        invariant
            last + pat@.len() == buf@.len(),
            p <= last,
            first_occurrence(buf@, pat@, 0) == first_occurrence(buf@, pat@, p as int),
        decreases last - p,
    {
        if bytes_match_at(buf, pat, p) {
            return Some(p);
        }
        if p == last {
            assert(first_occurrence(buf@, pat@, p + 1) is None);
            return None;
        }
        p = p + 1;
    }
}

fn find_line_end(buf: &[u8], s: usize) -> (r: Option<usize>)
    ensures
        r matches Some(n) ==> line_end(buf@, s as int) == Some(n as int),
        r is None ==> line_end(buf@, s as int) is None,
{
    let mut i: usize = s;
    while i < buf.len()
        invariant
            s <= i,
            line_end(buf@, s as int) == line_end(buf@, i as int),
        decreases buf@.len() - i,
    {
        if buf[i] == NEWLINE {
            return Some(i);
        }
        i = i + 1;
    }
    None
}

fn find_digit_run_start(buf: &[u8], lo: usize, n: usize) -> (r: usize)
    requires
        lo <= n <= buf@.len(),
    ensures
        r == digit_run_start(buf@, lo as int, n as int),
        lo <= r <= n,
        forall|k: int| r <= k < n ==> is_ascii_digit(#[trigger] buf@[k]),
{
    let mut d: usize = n;
    while d > lo && 48u8 <= buf[d - 1] && buf[d - 1] <= 57u8
        invariant
            lo <= d <= n,
            n <= buf@.len(),
            digit_run_start(buf@, lo as int, n as int) == digit_run_start(buf@, lo as int, d as int),
            forall|k: int| d <= k < n ==> is_ascii_digit(#[trigger] buf@[k]),
        decreases d - lo,
    {
        d = d - 1;
    }
    d
}

/// Copies `buf[a..b]` into a new vector.
pub(crate) fn copy_range(buf: &[u8], a: usize, b: usize) -> (r: Vec<u8>)
    requires
        a <= b <= buf@.len(),
    ensures
        r@ == buf@.subrange(a as int, b as int),
{
    let mut r: Vec<u8> = Vec::new();
    let mut i: usize = a;
    while i < b
        invariant
            a <= i <= b,
            b <= buf@.len(),
            r@ == buf@.subrange(a as int, i as int),
        decreases b - i,
    {
        r.push(buf[i]);
        i = i + 1;
        assert(r@ =~= buf@.subrange(a as int, i as int));
    }
    r
}

fn parse_frame_at(buf: &[u8], tag: &[u8], sep: &[u8], p: usize) -> (r: Option<(Vec<u8>, Vec<u8>)>)
    requires
        sep@ == crc_sep(),
    ensures
        r matches Some(x) ==> frame_at(buf@, tag@, p as int) == Some((x.0@, x.1@)),
        r is None ==> frame_at(buf@, tag@, p as int) is None,
{
    if !bytes_match_at(buf, tag, p) {
        return None;
    }
    let blen = buf.len();
    assert(p + tag@.len() <= blen);
    let s = p + tag.len();
    match find_line_end(buf, s) {
        Some(n) => {
            proof {
                reveal_with_fuel(line_end, 1);
            }
            assert(s <= n < buf@.len()) by {
                lemma_line_end_bounds(buf@, s as int);
            }
            let d = find_digit_run_start(buf, s, n);
            if d < n && d >= sep.len() && d - sep.len() >= s && bytes_match_at(buf, sep, d - sep.len()) {
                Some((copy_range(buf, s, d - sep.len()), copy_range(buf, d, n)))
            } else {
                None
            }
        },
        None => None,
    }
}

proof fn lemma_line_end_bounds(buf: Seq<u8>, s: int)
    ensures
        line_end(buf, s) matches Some(n) ==> s <= n < buf.len() && buf[n] == NEWLINE,
    decreases buf.len() - s,
{
    if 0 <= s < buf.len() && buf[s] != NEWLINE {
        lemma_line_end_bounds(buf, s + 1);
    }
}

fn find_first_frame(buf: &[u8], tag: &[u8], sep: &[u8]) -> (r: Option<(Vec<u8>, Vec<u8>)>)
    requires
        sep@ == crc_sep(),
    ensures
        r matches Some(x) ==> first_frame(buf@, tag@, 0) == Some((x.0@, x.1@)),
        r is None ==> first_frame(buf@, tag@, 0) is None,
{
    let mut p: usize = 0;
    while p < buf.len()
        invariant
            sep@ == crc_sep(),
            first_frame(buf@, tag@, 0) == first_frame(buf@, tag@, p as int),
        decreases buf@.len() - p,
    {
        match parse_frame_at(buf, tag, sep, p) {
            Some(x) => {
                return Some(x);
            },
            None => {},
        }
        p = p + 1;
    }
    None
}

/// Looks for a response in the bytes read so far, as `response_in` states.
pub fn find_response(buf: &[u8]) -> (r: Option<Envelope>)
    ensures
        r matches Some(e) ==> response_in(buf@) == Some(e.parts()),
        r is None ==> response_in(buf@) is None,
{
    let sep = crc_sep_bytes();
    let ok = ok_tag_bytes();
    match find_first_frame(buf, ok.as_slice(), sep.as_slice()) {
        Some(x) => {
            return Some(Envelope { kind: ResponseKind::Success, payload: x.0, crc: x.1 });
        },
        None => {},
    }
    let err = err_tag_bytes();
    match find_first_frame(buf, err.as_slice(), sep.as_slice()) {
        Some(x) => Some(Envelope { kind: ResponseKind::Failure, payload: x.0, crc: x.1 }),
        None => None,
    }
}

} // verus!
