//! The wire-format parser: from a raw byte buffer to a structured request.
//!
//! A buffer is read as lines ended by `\n` (a final `\r` before the `\n` is
//! dropped); lines are collected until the first empty line or the end of the
//! buffer. The first line must hold exactly three space-separated tokens:
//! method, path and protocol version. Later lines holding a `": "` separator
//! become header pairs; lines without one are dropped silently. When a
//! `Content-Length` header holds a plain decimal numeral that fits in
//! `usize`, exactly that many bytes after the blank line become the body, and
//! fewer available bytes are a failure; otherwise the body is empty.
//!
//! A buffer that fails to parse yields an error value and never a partially
//! populated request; callers are expected to answer such a connection with
//! an explicit error response rather than treat it as an empty request.
use vstd::prelude::*;

verus! {

use crate::error::ParseErrorKind;
use crate::error::ParseErrorView;
use crate::error::ParseSteamError;
use crate::headers::header_get;
use crate::headers::header_insert;
use crate::headers::hview;
use crate::headers::spec_insert;
use crate::headers::spec_lookup;
use crate::headers::unique_keys;
use crate::num::dec_opt;
use crate::request::method_of;
use crate::request::Method;
use crate::request::Request;
use crate::request::RequestView;
use crate::text::ascii;
use crate::text::lit;

/// The first position at or after `pos` holding byte `b`, or the length.
pub open spec fn scan(s: Seq<u8>, b: u8, pos: int) -> int
    decreases s.len() - pos,
{
    if pos < 0 || pos >= s.len() {
        s.len() as int
    } else if s[pos] == b {
        pos
    } else {
        scan(s, b, pos + 1)
    }
}

pub proof fn lemma_scan_bounds(s: Seq<u8>, b: u8, pos: int)
    requires
        0 <= pos <= s.len(),
    ensures
        pos <= scan(s, b, pos) <= s.len(),
        scan(s, b, pos) < s.len() ==> s[scan(s, b, pos)] == b,
        forall|j: int| pos <= j < scan(s, b, pos) ==> s[j] != b,
    decreases s.len() - pos,
{
    if pos < s.len() && s[pos] != b {
        lemma_scan_bounds(s, b, pos + 1);
    }
}

/// The first position at or after `from` holding byte `b`, or the length.
fn scan_byte(s: &[u8], b: u8, from: usize) -> (r: usize)
    requires
        from <= s@.len(),
    ensures
        r == scan(s@, b, from as int),
        from <= r <= s@.len(),
        r < s@.len() ==> s@[r as int] == b,
{
    let mut i = from;
    while i < s.len() && s[i] != b
        invariant
            from <= i <= s@.len(),
            scan(s@, b, from as int) == scan(s@, b, i as int),
        decreases s@.len() - i,
    {
        i += 1;
    }
    proof {
        lemma_scan_bounds(s@, b, from as int);
    }
    i
}

/// The position of the `\n` ending the line that starts at `pos`, or the
/// buffer's length when no `\n` follows.
pub open spec fn line_end(s: Seq<u8>, pos: int) -> int {
    scan(s, '\n' as u8, pos)
}

/// The line starting at `pos`: the bytes up to its `\n`, with one final `\r`
/// dropped when the `\n` was found.
pub open spec fn line_at(s: Seq<u8>, pos: int) -> Seq<u8> {
    let e = line_end(s, pos);
    let raw = s.subrange(pos, e);
    if e < s.len() && raw.len() > 0 && raw.last() == '\r' as u8 {
        raw.drop_last()
    } else {
        raw
    }
}

/// The position just past the line starting at `pos`.
pub open spec fn next_line_pos(s: Seq<u8>, pos: int) -> int {
    let e = line_end(s, pos);
    if e < s.len() {
        e + 1
    } else {
        e
    }
}

/// The lines before the first empty line (or the buffer's end), in order.
pub open spec fn header_lines(s: Seq<u8>, pos: int) -> Seq<Seq<u8>>
    decreases s.len() - pos
        when 0 <= pos <= s.len()
        via header_lines_dec
{
    if pos >= s.len() {
        Seq::empty()
    } else if line_at(s, pos).len() == 0 {
        Seq::empty()
    } else {
        seq![line_at(s, pos)] + header_lines(s, next_line_pos(s, pos))
    }
}

#[via_fn]
proof fn header_lines_dec(s: Seq<u8>, pos: int) {
    lemma_scan_bounds(s, '\n' as u8, pos);
}

/// The position just past the first empty line, or the buffer's length when
/// every line is non-empty.
pub open spec fn body_start(s: Seq<u8>, pos: int) -> int
    decreases s.len() - pos
        when 0 <= pos <= s.len()
        via body_start_dec
{
    if pos >= s.len() {
        s.len() as int
    } else if line_at(s, pos).len() == 0 {
        next_line_pos(s, pos)
    } else {
        body_start(s, next_line_pos(s, pos))
    }
}

#[via_fn]
proof fn body_start_dec(s: Seq<u8>, pos: int) {
    lemma_scan_bounds(s, '\n' as u8, pos);
}

/// The position of the first space of a start line.
pub open spec fn sp1(line: Seq<u8>) -> int {
    scan(line, ' ' as u8, 0)
}

/// The position of the second space of a start line.
pub open spec fn sp2(line: Seq<u8>) -> int {
    scan(line, ' ' as u8, sp1(line) + 1)
}

/// Whether a start line splits into exactly three space-separated tokens:
/// two spaces are present and no third one follows them.
pub open spec fn start_tokens_ok(line: Seq<u8>) -> bool {
    &&& sp1(line) < line.len()
    &&& sp2(line) < line.len()
    &&& scan(line, ' ' as u8, sp2(line) + 1) == line.len()
}

/// The first token of a start line: the method.
pub open spec fn method_token(line: Seq<u8>) -> Seq<u8> {
    line.subrange(0, sp1(line))
}

/// The second token of a start line: the path.
pub open spec fn path_token(line: Seq<u8>) -> Seq<u8>
    recommends
        start_tokens_ok(line),
{
    line.subrange(sp1(line) + 1, sp2(line))
}

/// The first position at or after `pos` where a `": "` separator starts, or
/// the line's length when there is none.
pub open spec fn sep_pos(line: Seq<u8>, pos: int) -> int
    decreases line.len() - pos,
{
    if pos < 0 || pos >= line.len() {
        line.len() as int
    } else if line[pos] == ':' as u8 && pos + 1 < line.len() && line[pos + 1] == ' ' as u8 {
        pos
    } else {
        sep_pos(line, pos + 1)
    }
}

/// The header pair a line yields: name before the first `": "`, value after
/// it; `None` for a line without that separator.
pub open spec fn header_entry(line: Seq<u8>) -> Option<(Seq<u8>, Seq<u8>)> {
    let i = sep_pos(line, 0);
    if i < line.len() {
        Some((line.subrange(0, i), line.subrange(i + 2, line.len() as int)))
    } else {
        None
    }
}

/// The header mapping a sequence of lines yields, built by insertion in
/// order; separator-less lines contribute nothing.
pub open spec fn headers_of(lines: Seq<Seq<u8>>) -> Seq<(Seq<u8>, Seq<u8>)>
    decreases lines.len(),
{
    if lines.len() == 0 {
        Seq::empty()
    } else {
        let prev = headers_of(lines.drop_last());
        match header_entry(lines.last()) {
            Some(p) => spec_insert(prev, p.0, p.1),
            None => prev,
        }
    }
}

/// The declared body length: the `Content-Length` value when it is a decimal
/// numeral fitting in `usize`, else `None`.
pub open spec fn content_length_of(hs: Seq<(Seq<u8>, Seq<u8>)>) -> Option<usize> {
    match spec_lookup(hs, ascii("Content-Length"@)) {
        Some(v) => dec_opt(v),
        None => None,
    }
}

/// What parsing a buffer yields: the structured request, or the first
/// failure in reading order.
pub open spec fn spec_parse(buf: Seq<u8>) -> Result<RequestView, ParseErrorView> {
    let hl = header_lines(buf, 0);
    if hl.len() == 0 {
        Err(ParseErrorView { kind: ParseErrorKind::EmptyInput, token: Seq::empty() })
    } else if !start_tokens_ok(hl[0]) {
        Err(ParseErrorView { kind: ParseErrorKind::MalformedStartLine, token: Seq::empty() })
    } else {
        match method_of(method_token(hl[0])) {
            None => Err(
                ParseErrorView { kind: ParseErrorKind::UnknownMethod, token: method_token(hl[0]) },
            ),
            Some(m) => {
                let hs = headers_of(hl.drop_first());
                let bs = body_start(buf, 0);
                match content_length_of(hs) {
                    Some(n) => if bs + n <= buf.len() {
                        Ok(
                            RequestView {
                                method: m,
                                path: path_token(hl[0]),
                                headers: hs,
                                body: buf.subrange(bs, bs + n),
                            },
                        )
                    } else {
                        Err(
                            ParseErrorView {
                                kind: ParseErrorKind::BodyTruncated,
                                token: Seq::empty(),
                            },
                        )
                    },
                    None => Ok(
                        RequestView {
                            method: m,
                            path: path_token(hl[0]),
                            headers: hs,
                            body: Seq::empty(),
                        },
                    ),
                }
            },
        }
    }
}

/// The byte sequences of a sequence of byte vectors.
pub open spec fn lview(ls: Seq<Vec<u8>>) -> Seq<Seq<u8>> {
    ls.map_values(|v: Vec<u8>| v@)
}

/// Copies the line starting at `pos` and returns it with the position just
/// past it.
fn take_line(buf: &[u8], pos: usize) -> (r: (Vec<u8>, usize))
    requires
        pos <= buf@.len(),
    ensures
        r.0@ == line_at(buf@, pos as int),
        r.1 == next_line_pos(buf@, pos as int),
        pos <= r.1 <= buf@.len(),
        pos < buf@.len() ==> r.1 > pos,
{
    let e = scan_byte(buf, '\n' as u8, pos);
    proof {
        lemma_scan_bounds(buf@, '\n' as u8, pos as int);
    }
    let raw: &[u8] = &buf[pos..e];
    if e < buf.len() {
        if raw.len() > 0 && raw[raw.len() - 1] == '\r' as u8 {
            let line = vstd::slice::slice_to_vec(&raw[0..raw.len() - 1]);
            proof {
                assert(raw@.subrange(0, raw@.len() - 1) =~= raw@.drop_last());
            }
            (line, e + 1)
        } else {
            (vstd::slice::slice_to_vec(raw), e + 1)
        }
    } else {
        (vstd::slice::slice_to_vec(raw), e)
    }
}

/// The position of the first `": "` separator of `line`, or its length.
fn find_sep(line: &[u8]) -> (r: usize)
    ensures
        r == sep_pos(line@, 0),
        0 <= r <= line@.len(),
        r < line@.len() ==> r + 2 <= line@.len(),
{
    let mut i: usize = 0;
    while i < line.len()
        invariant
            0 <= i <= line@.len(),
            sep_pos(line@, 0) == sep_pos(line@, i as int),
        decreases line@.len() - i,
    {
        if line[i] == ':' as u8 && i + 1 < line.len() && line[i + 1] == ' ' as u8 {
            return i;
        }
        i += 1;
    }
    line.len()
}

/// Parses a request buffer. Returns the structured request, or the first
/// failure in reading order: no header line at all, a start line without
/// exactly three tokens, an unknown method token, or fewer body bytes than
/// `Content-Length` declared.
#[verifier::loop_isolation(false)]
pub fn parse_request(buf: &[u8]) -> (r: Result<Request, ParseSteamError>)
    ensures
        match r {
            Ok(req) => spec_parse(buf@) == Ok::<RequestView, ParseErrorView>(req@) && req.wf(),
            Err(e) => spec_parse(buf@) == Err::<RequestView, ParseErrorView>(e@),
        },
{
    let ghost s = buf@;

    let mut lines: Vec<Vec<u8>> = Vec::new();
    let mut pos: usize = 0;
    let mut blank = false;
    while pos < buf.len() && !blank
        invariant
            0 <= pos <= s.len(),
            !blank ==> header_lines(s, 0) == lview(lines@) + header_lines(s, pos as int),
            blank ==> header_lines(s, 0) == lview(lines@),
            !blank ==> body_start(s, 0) == body_start(s, pos as int),
            blank ==> body_start(s, 0) == pos as int,
        decreases s.len() - pos,
    {
        let (line, next) = take_line(buf, pos);
        if line.len() == 0 {
            blank = true;
            pos = next;
        } else {
            proof {
                assert(lview(lines@.push(line)) =~= lview(lines@) + seq![line@]);
                assert(header_lines(s, pos as int) == seq![line_at(s, pos as int)] + header_lines(
                    s,
                    next_line_pos(s, pos as int),
                ));
                assert((lview(lines@) + seq![line@]) + header_lines(s, next as int) =~= lview(
                    lines@,
                ) + header_lines(s, pos as int));
            }
            lines.push(line);
            pos = next;
        }
    }
    let bs = pos;
    proof {
        assert(header_lines(s, 0) == lview(lines@));
        assert(body_start(s, 0) == bs as int);
    }
    let ghost hl = header_lines(s, 0);

    if lines.len() == 0 {
        return Err(ParseSteamError::new(ParseErrorKind::EmptyInput));
    }

    let start_line = lines[0].as_slice();
    let ghost l0 = lines@[0]@;
    proof {
        assert(hl[0] == l0);
    }
    let i1 = scan_byte(start_line, ' ' as u8, 0);
    if i1 == start_line.len() {
        return Err(ParseSteamError::new(ParseErrorKind::MalformedStartLine));
    }
    let i2 = scan_byte(start_line, ' ' as u8, i1 + 1);
    if i2 == start_line.len() {
        return Err(ParseSteamError::new(ParseErrorKind::MalformedStartLine));
    }
    let i3 = scan_byte(start_line, ' ' as u8, i2 + 1);
    if i3 < start_line.len() {
        return Err(ParseSteamError::new(ParseErrorKind::MalformedStartLine));
    }
    proof {
        assert(start_tokens_ok(l0));
    }

    let method_tok = &start_line[0..i1];
    let method = match Method::from_str(method_tok) {
        Ok(m) => m,
        Err(e) => {
            return Err(e);
        },
    };
    let path = vstd::slice::slice_to_vec(&start_line[i1 + 1..i2]);

    let mut header: Vec<(Vec<u8>, Vec<u8>)> = Vec::new();
    let mut i: usize = 1;
    while i < lines.len()
        invariant
            1 <= i <= lines@.len(),
            hview(header@) == headers_of(lview(lines@).subrange(1, i as int)),
            unique_keys(hview(header@)),
        decreases lines@.len() - i,
    {
        let ghost before = hview(header@);
        let line = lines[i].as_slice();
        let sp = find_sep(line);
        if sp < line.len() {
            let k = vstd::slice::slice_to_vec(&line[0..sp]);
            let v = vstd::slice::slice_to_vec(&line[sp + 2..line.len()]);
            header_insert(&mut header, k, v);
        }
        proof {
            let lv = lview(lines@);
            let sub1 = lv.subrange(1, i + 1);
            assert(sub1.drop_last() =~= lv.subrange(1, i as int));
            assert(sub1.last() == lv[i as int]);
            assert(lv[i as int] == lines@[i as int]@);
            assert(hview(header@) == headers_of(sub1));
        }
        i += 1;
    }
    proof {
        assert(lview(lines@).subrange(1, lines@.len() as int) =~= hl.drop_first());
    }
    let ghost hs = hview(header@);

    proof {
        reveal_strlit("Content-Length");
    }
    let cl_key = lit("Content-Length");
    let n_opt = match header_get(&header, cl_key.as_slice()) {
        Some(v) => crate::num::parse_dec(v.as_slice()),
        None => None,
    };
    proof {
        assert(n_opt == content_length_of(hs));
    }

    let body: Vec<u8>;
    match n_opt {
        Some(n) => {
            if n <= buf.len() - bs {
                body = vstd::slice::slice_to_vec(&buf[bs..bs + n]);
            } else {
                return Err(ParseSteamError::new(ParseErrorKind::BodyTruncated));
            }
        },
        None => {
            body = Vec::new();
            proof {
                assert(body@ =~= Seq::<u8>::empty());
            }
        },
    }

    let req = Request { method, path, header, body };
    proof {
        assert(req@.path == path_token(l0));
        assert(req@.headers == hs);
        assert(spec_parse(s) == Ok::<RequestView, ParseErrorView>(req@));
    }
    Ok(req)
}

pub proof fn lemma_body_start_bounds(s: Seq<u8>, pos: int)
    requires
        0 <= pos <= s.len(),
    ensures
        pos <= body_start(s, pos) <= s.len(),
    decreases s.len() - pos,
{
    if pos < s.len() {
        lemma_scan_bounds(s, '\n' as u8, pos);
        if line_at(s, pos).len() != 0 {
            lemma_body_start_bounds(s, next_line_pos(s, pos));
        }
    }
}

/// For a buffer that parses successfully with a correct `Content-Length` —
/// the declared value equals the count of bytes after the blank line — the
/// parsed body's length is exactly the declared value, and its bytes are
/// exactly the buffer's trailing bytes.
pub proof fn lemma_body_matches_content_length(buf: Seq<u8>, req: RequestView)
    requires
        spec_parse(buf) == Ok::<RequestView, ParseErrorView>(req),
        content_length_of(req.headers) is Some,
        content_length_of(req.headers).unwrap() as int == buf.len() - body_start(buf, 0),
    ensures
        req.body.len() == content_length_of(req.headers).unwrap(),
        req.body == buf.subrange(
            buf.len() - content_length_of(req.headers).unwrap(),
            buf.len() as int,
        ),
{
    let hl = header_lines(buf, 0);
    let hs = headers_of(hl.drop_first());
    let bs = body_start(buf, 0);
    let n = content_length_of(req.headers).unwrap();
    lemma_body_start_bounds(buf, 0);
    assert(req.headers == hs);
    assert(req.body == buf.subrange(bs, bs + n));
    assert(bs + n == buf.len());
}

/// The number of space bytes of `line` at or after `pos`.
pub open spec fn space_count(line: Seq<u8>, pos: int) -> nat
    decreases line.len() - pos,
{
    if pos < 0 || pos >= line.len() {
        0
    } else if line[pos] == ' ' as u8 {
        1 + space_count(line, pos + 1)
    } else {
        space_count(line, pos + 1)
    }
}

proof fn lemma_space_count_scan(line: Seq<u8>, pos: int)
    requires
        0 <= pos <= line.len(),
    ensures
        space_count(line, pos) == if scan(line, ' ' as u8, pos) < line.len() {
            1 + space_count(line, scan(line, ' ' as u8, pos) + 1)
        } else {
            0nat
        },
    decreases line.len() - pos,
{
    if pos < line.len() && line[pos] != ' ' as u8 {
        lemma_space_count_scan(line, pos + 1);
    }
}

/// A start line splits into exactly three space-separated tokens exactly
/// when it holds exactly two space bytes.
pub proof fn lemma_start_tokens_count(line: Seq<u8>)
    ensures
        start_tokens_ok(line) <==> space_count(line, 0) == 2,
{
    lemma_space_count_scan(line, 0);
    lemma_scan_bounds(line, ' ' as u8, 0);
    let i1 = sp1(line);
    if i1 < line.len() {
        lemma_space_count_scan(line, i1 + 1);
        lemma_scan_bounds(line, ' ' as u8, i1 + 1);
        let i2 = sp2(line);
        if i2 < line.len() {
            lemma_space_count_scan(line, i2 + 1);
            lemma_scan_bounds(line, ' ' as u8, i2 + 1);
            let i3 = scan(line, ' ' as u8, i2 + 1);
            if i3 < line.len() {
                lemma_space_count_scan(line, i3 + 1);
            }
        }
    }
}

/// An input with no start line at all, or whose start line does not hold
/// exactly three space-separated tokens, fails to parse: no request value,
/// partially populated or otherwise, is produced.
pub proof fn lemma_malformed_start_fails(buf: Seq<u8>)
    requires
        header_lines(buf, 0).len() == 0 || space_count(header_lines(buf, 0)[0], 0) != 2,
    ensures
        spec_parse(buf) is Err,
{
    let hl = header_lines(buf, 0);
    if hl.len() > 0 {
        lemma_start_tokens_count(hl[0]);
    }
}

/// A header line without a `": "` separator is dropped: the header mapping
/// built from all the lines equals the one built without that line.
pub proof fn lemma_separatorless_line_dropped(lines: Seq<Seq<u8>>, i: int)
    requires
        0 <= i < lines.len(),
        header_entry(lines[i]) is None,
    ensures
        headers_of(lines) == headers_of(lines.remove(i)),
    decreases lines.len(),
{
    if i == lines.len() - 1 {
        assert(lines.remove(i) =~= lines.drop_last());
    } else {
        assert(lines.remove(i).drop_last() =~= lines.drop_last().remove(i));
        assert(lines.remove(i).last() == lines.last());
        assert(lines.drop_last()[i] == lines[i]);
        lemma_separatorless_line_dropped(lines.drop_last(), i);
    }
}

} // verus!
