//! The HTTP/1.1 request parser: request line, header block, body.
//!
//! The grammar: a method token (alphanumeric run), one or more spaces, a
//! path token, one or more spaces, the literal `HTTP/`, a version token,
//! then whitespace, then header lines of the shape `name ':' value
//! line-ending`, ending at a blank line or at the first line that is no
//! header, then the body: the trimmed remainder.
use vstd::prelude::*;

use crate::headers::Headers;
use crate::headers::map_of;
use crate::text::CharClass;
use crate::text::class_holds;
use crate::text::lemma_run_end_bounds;
use crate::text::lemma_run_end_is;
use crate::text::lower_seq;
use crate::text::norm_slashes;
use crate::text::normalize_slashes;
use crate::text::run_end;
use crate::text::scan_while;
use crate::text::str_eq_ignore_case;
use crate::text::trim_seq;
use crate::text::trim_str;
use crate::types::HttpMethod;
use crate::types::ParseError;
use crate::types::Request;
use vstd::utf8::valid_utf8;
use vstd::utf8::decode_utf8;
use vstd::string::StringSliceAdditionalSpecFns;

verus! {

/// The length of the line ending at `i`: 1 for `\n`, 2 for `\r\n`,
/// 0 when no line ending starts there.
pub open spec fn line_ending_len(s: Seq<char>, i: int) -> int
    recommends
        0 <= i,
{
    if i < s.len() && s[i] == '\n' {
        1
    } else if i + 1 < s.len() && s[i] == '\r' && s[i + 1] == '\n' {
        2
    } else {
        0
    }
}

/// Where the header name that starts at `i` ends.
pub open spec fn hdr_name_end(s: Seq<char>, i: int) -> int {
    run_end(s, i, CharClass::Token)
}

/// Where the header value that starts after the colon at `i`'s name begins:
/// spaces after the colon are skipped.
pub open spec fn hdr_val_start(s: Seq<char>, i: int) -> int {
    run_end(s, hdr_name_end(s, i) + 1, CharClass::Space)
}

/// Where the header value ends: at the first line-ending character.
pub open spec fn hdr_val_end(s: Seq<char>, i: int) -> int {
    run_end(s, hdr_val_start(s, i), CharClass::Value)
}

/// The length of the line ending that closes the header at `i`.
pub open spec fn hdr_le(s: Seq<char>, i: int) -> int {
    line_ending_len(s, hdr_val_end(s, i))
}

/// Whether a whole header line stands at `i`: a name run, a colon, a value
/// run, and a line ending.
pub open spec fn header_matches(s: Seq<char>, i: int) -> bool {
    &&& hdr_name_end(s, i) < s.len()
    &&& s[hdr_name_end(s, i)] == ':'
    &&& hdr_le(s, i) > 0
}

/// Where the line after the header at `i` starts; spaces that open that
/// line are tolerated and skipped.
pub open spec fn hdr_next(s: Seq<char>, i: int) -> int {
    run_end(s, hdr_val_end(s, i) + hdr_le(s, i), CharClass::Space)
}

/// The name of the header at `i`.
pub open spec fn hdr_name(s: Seq<char>, i: int) -> Seq<char> {
    s.subrange(i, hdr_name_end(s, i))
}

/// The value of the header at `i`, trimmed.
pub open spec fn hdr_value(s: Seq<char>, i: int) -> Seq<char> {
    trim_seq(s.subrange(hdr_val_start(s, i), hdr_val_end(s, i)))
}

pub proof fn lemma_header_positions(s: Seq<char>, i: int)
    requires
        0 <= i <= s.len(),
        header_matches(s, i),
    ensures
        i <= hdr_name_end(s, i) < s.len(),
        hdr_name_end(s, i) + 1 <= hdr_val_start(s, i) <= hdr_val_end(s, i) <= s.len(),
        hdr_val_end(s, i) + hdr_le(s, i) <= s.len(),
        i + 2 <= hdr_next(s, i) <= s.len(),
{
    lemma_run_end_bounds(s, i, CharClass::Token);
    lemma_run_end_bounds(s, hdr_name_end(s, i) + 1, CharClass::Space);
    lemma_run_end_bounds(s, hdr_val_start(s, i), CharClass::Value);
    lemma_run_end_bounds(s, hdr_val_end(s, i) + hdr_le(s, i), CharClass::Space);
}

/// The header block that starts at `i`: the (name, trimmed value) pairs in
/// order, and the position where the body starts. The block ends at a blank
/// line, whose whitespace is consumed, or at the first line that matches no
/// header, which is left in place.
pub open spec fn spec_headers(s: Seq<char>, i: int) -> (Seq<(Seq<char>, Seq<char>)>, int)
    decreases s.len() - i
        when 0 <= i <= s.len()
        via spec_headers_dec
{
    if line_ending_len(s, i) > 0 {
        (
            Seq::<(Seq<char>, Seq<char>)>::empty(),
            run_end(s, i + line_ending_len(s, i), CharClass::Whitespace),
        )
    } else if header_matches(s, i) {
        let rest = spec_headers(s, hdr_next(s, i));
        (seq![(hdr_name(s, i), hdr_value(s, i))] + rest.0, rest.1)
    } else {
        (Seq::<(Seq<char>, Seq<char>)>::empty(), i)
    }
}

#[via_fn]
proof fn spec_headers_dec(s: Seq<char>, i: int) {
    if line_ending_len(s, i) == 0 && header_matches(s, i) {
        lemma_header_positions(s, i);
    }
}

/// Where the method token ends.
pub open spec fn method_end(s: Seq<char>) -> int {
    run_end(s, 0, CharClass::Alnum)
}

/// Where the spaces after the method end.
pub open spec fn sp1_end(s: Seq<char>) -> int {
    run_end(s, method_end(s), CharClass::Space)
}

/// Where the path token ends.
pub open spec fn path_end(s: Seq<char>) -> int {
    run_end(s, sp1_end(s), CharClass::Path)
}

/// Where the spaces after the path end.
pub open spec fn sp2_end(s: Seq<char>) -> int {
    run_end(s, path_end(s), CharClass::Space)
}

/// Whether the literal `HTTP/` stands right after the spaces that follow
/// the path.
pub open spec fn http_tag_ok(s: Seq<char>) -> bool {
    sp2_end(s) + 5 <= s.len() && s.subrange(sp2_end(s), sp2_end(s) + 5) == "HTTP/"@
}

/// Where the version token ends.
pub open spec fn version_end(s: Seq<char>) -> int {
    run_end(s, sp2_end(s) + 5, CharClass::Version)
}

/// Where the header block starts: after the whitespace that follows the
/// request line.
pub open spec fn headers_start(s: Seq<char>) -> int {
    run_end(s, version_end(s), CharClass::Whitespace)
}

/// What a text parses to: the raw method, path and version tokens, the
/// header pairs, and the trimmed body.
pub struct ParsedParts {
    pub method: Seq<char>,
    pub path: Seq<char>,
    pub version: Seq<char>,
    pub pairs: Seq<(Seq<char>, Seq<char>)>,
    pub body: Seq<char>,
}

/// The meaning of a request text: its parts, or the reason parsing fails.
pub open spec fn spec_parse(s: Seq<char>) -> Result<ParsedParts, ParseError> {
    if method_end(s) == 0 {
        Err(ParseError::EmptyMethod)
    } else if sp1_end(s) == method_end(s) {
        Err(ParseError::MissingSpaceAfterMethod)
    } else if sp2_end(s) == path_end(s) {
        Err(ParseError::MissingSpaceAfterPath)
    } else if !http_tag_ok(s) {
        Err(ParseError::MissingHttpPrefix)
    } else {
        let hp = spec_headers(s, headers_start(s));
        Ok(
            ParsedParts {
                method: s.subrange(0, method_end(s)),
                path: s.subrange(sp1_end(s), path_end(s)),
                version: s.subrange(sp2_end(s) + 5, version_end(s)),
                pairs: hp.0,
                body: trim_seq(s.subrange(hp.1, s.len() as int)),
            },
        )
    }
}

/// The method variant a raw method token denotes, compared without regard
/// to ASCII case; an unrecognized verb is `UNKNOWN`.
pub open spec fn method_of(m: Seq<char>) -> HttpMethod {
    let l = lower_seq(m);
    if l == "get"@ {
        HttpMethod::GET
    } else if l == "post"@ {
        HttpMethod::POST
    } else if l == "patch"@ {
        HttpMethod::PATCH
    } else if l == "put"@ {
        HttpMethod::PUT
    } else if l == "delete"@ {
        HttpMethod::DELETE
    } else {
        HttpMethod::UNKNOWN
    }
}

/// Maps a raw method token to its variant, without regard to ASCII case.
pub fn method_from_str(m: &str) -> (h: HttpMethod)
    ensures
        h == method_of(m@),
{
    proof {
        reveal_strlit("get");
        reveal_strlit("post");
        reveal_strlit("patch");
        reveal_strlit("put");
        reveal_strlit("delete");
        assert(lower_seq("get"@) =~= "get"@);
        assert(lower_seq("post"@) =~= "post"@);
        assert(lower_seq("patch"@) =~= "patch"@);
        assert(lower_seq("put"@) =~= "put"@);
        assert(lower_seq("delete"@) =~= "delete"@);
    }
    if str_eq_ignore_case(m, "get") {
        HttpMethod::GET
    } else if str_eq_ignore_case(m, "post") {
        HttpMethod::POST
    } else if str_eq_ignore_case(m, "patch") {
        HttpMethod::PATCH
    } else if str_eq_ignore_case(m, "put") {
        HttpMethod::PUT
    } else if str_eq_ignore_case(m, "delete") {
        HttpMethod::DELETE
    } else {
        HttpMethod::UNKNOWN
    }
}

/// The length of the line ending at `i`, executably.
fn line_ending_at(s: &str, len: usize, i: usize) -> (le: usize)
    requires
        len == s@.len(),
        i <= len,
    ensures
        le == line_ending_len(s@, i as int),
{
    if i >= len {
        0
    } else if s.get_char(i) == '\n' {
        1
    } else if i + 1 < len && s.get_char(i) == '\r' && s.get_char(i + 1) == '\n' {
        2
    } else {
        0
    }
}

/// Whether the literal `HTTP/` stands at `i`.
fn http_tag_at(s: &str, len: usize, i: usize) -> (b: bool)
    requires
        len == s@.len(),
        i <= len,
    ensures
        b == (i + 5 <= s@.len() && s@.subrange(i as int, i + 5) == "HTTP/"@),
{
    proof {
        reveal_strlit("HTTP/");
    }
    if len - i < 5 {
        return false;
    }
    let b = s.get_char(i) == 'H' && s.get_char(i + 1) == 'T' && s.get_char(i + 2) == 'T'
        && s.get_char(i + 3) == 'P' && s.get_char(i + 4) == '/';
    proof {
        if b {
            assert(s@.subrange(i as int, i + 5) =~= "HTTP/"@);
        } else {
            assert(s@.subrange(i as int, i + 5) != "HTTP/"@) by {
                if s@.subrange(i as int, i + 5) == "HTTP/"@ {
                    assert(s@.subrange(i as int, i + 5)[0] == s@[i as int]);
                    assert(s@.subrange(i as int, i + 5)[1] == s@[i + 1]);
                    assert(s@.subrange(i as int, i + 5)[2] == s@[i + 2]);
                    assert(s@.subrange(i as int, i + 5)[3] == s@[i + 3]);
                    assert(s@.subrange(i as int, i + 5)[4] == s@[i + 4]);
                }
            }
        }
    }
    b
}

/// Parses the header block that starts at `start`, returning the headers
/// and where the body begins.
fn parse_headers(input: &str, len: usize, start: usize) -> (r: (Headers, usize))
    requires
        len == input@.len(),
        start <= len,
    ensures
        r.0.pairs_view() == spec_headers(input@, start as int).0,
        r.1 == spec_headers(input@, start as int).1,
        r.1 <= len,
{
    let mut hs = Headers::new();
    let mut i: usize = start;
    loop
        invariant
            len == input@.len(),
            start <= i <= len,
            spec_headers(input@, start as int).0 == hs.pairs_view() + spec_headers(
                input@,
                i as int,
            ).0,
            spec_headers(input@, start as int).1 == spec_headers(input@, i as int).1,
        decreases len - i,
    {
        let le = line_ending_at(input, len, i);
        if le > 0 {
            let b = scan_while(input, len, i + le, CharClass::Whitespace);
            proof {
                assert(spec_headers(input@, i as int).0 =~= Seq::<(Seq<char>, Seq<char>)>::empty());
                assert(hs.pairs_view() + spec_headers(input@, i as int).0 =~= hs.pairs_view());
            }
            return (hs, b);
        }
        let ne = scan_while(input, len, i, CharClass::Token);
        if ne == len || input.get_char(ne) != ':' {
            proof {
                assert(!header_matches(input@, i as int));
                assert(hs.pairs_view() + spec_headers(input@, i as int).0 =~= hs.pairs_view());
            }
            return (hs, i);
        }
        let vs = scan_while(input, len, ne + 1, CharClass::Space);
        let ve = scan_while(input, len, vs, CharClass::Value);
        let le2 = line_ending_at(input, len, ve);
        if le2 == 0 {
            proof {
                assert(!header_matches(input@, i as int));
                assert(hs.pairs_view() + spec_headers(input@, i as int).0 =~= hs.pairs_view());
            }
            return (hs, i);
        }
        proof {
            assert(header_matches(input@, i as int));
            lemma_header_positions(input@, i as int);
        }
        let name = input.substring_char(i, ne).to_owned();
        let value = trim_str(input.substring_char(vs, ve));
        let ghost pre = hs.pairs_view();
        hs.insert(name, value);
        let next = scan_while(input, len, ve + le2, CharClass::Space);
        proof {
            assert(spec_headers(input@, i as int).0 == seq![
                (hdr_name(input@, i as int), hdr_value(input@, i as int)),
            ] + spec_headers(input@, next as int).0);
            assert(hs.pairs_view() == pre.push(
                (hdr_name(input@, i as int), hdr_value(input@, i as int)),
            ));
            assert(pre + spec_headers(input@, i as int).0 =~= hs.pairs_view() + spec_headers(
                input@,
                next as int,
            ).0);
        }
        i = next;
    }
}

/// Law: a well-formed request line is recovered exactly. For any text
/// `m ++ sp1 ++ p ++ sp2 ++ "HTTP/" ++ v ++ rest` in which `m` is a
/// nonempty alphanumeric run, `sp1` and `sp2` are nonempty space runs, `p`
/// is a nonempty path-token run, `v` is a version run and `rest` does not
/// open with a version character, parsing succeeds and yields exactly the
/// method variant of `m`, the path `p` with backslashes normalized, and the
/// version `v`.
pub proof fn lemma_request_line_round_trip(
    m: Seq<char>,
    sp1: Seq<char>,
    p: Seq<char>,
    sp2: Seq<char>,
    v: Seq<char>,
    rest: Seq<char>,
)
    requires
        m.len() > 0,
        forall|i: int| 0 <= i < m.len() ==> crate::text::alnum_char(#[trigger] m[i]),
        sp1.len() > 0,
        forall|i: int| 0 <= i < sp1.len() ==> crate::text::space_char(#[trigger] sp1[i]),
        p.len() > 0,
        forall|i: int| 0 <= i < p.len() ==> crate::text::path_char(#[trigger] p[i]),
        sp2.len() > 0,
        forall|i: int| 0 <= i < sp2.len() ==> crate::text::space_char(#[trigger] sp2[i]),
        forall|i: int| 0 <= i < v.len() ==> crate::text::version_char(#[trigger] v[i]),
        rest.len() == 0 || !crate::text::version_char(rest[0]),
    ensures
        ({
            let s = m + sp1 + p + sp2 + "HTTP/"@ + v + rest;
            &&& spec_parse(s) is Ok
            &&& spec_parse(s)->Ok_0.method == m
            &&& spec_parse(s)->Ok_0.path == p
            &&& spec_parse(s)->Ok_0.version == v
            &&& method_of(spec_parse(s)->Ok_0.method) == method_of(m)
            &&& norm_slashes(spec_parse(s)->Ok_0.path) == norm_slashes(p)
        }),
{
    reveal_strlit("HTTP/");
    let s = m + sp1 + p + sp2 + "HTTP/"@ + v + rest;
    let a = m.len() as int;
    let b = a + sp1.len() as int;
    let c = b + p.len() as int;
    let d = c + sp2.len() as int;
    let e = d + 5;
    let f = e + v.len() as int;
    assert(s.len() == f + rest.len());
    assert forall|i: int| 0 <= i < a implies class_holds(CharClass::Alnum, s[i]) by {
        assert(s[i] == m[i]);
    }
    assert(!class_holds(CharClass::Alnum, s[a]));
    lemma_run_end_is(s, 0, a, CharClass::Alnum);
    assert forall|i: int| a <= i < b implies class_holds(CharClass::Space, s[i]) by {
        assert(s[i] == sp1[i - a]);
    }
    assert(s[b] == p[0]);
    assert(!class_holds(CharClass::Space, s[b]));
    lemma_run_end_is(s, a, b, CharClass::Space);
    assert forall|i: int| b <= i < c implies class_holds(CharClass::Path, s[i]) by {
        assert(s[i] == p[i - b]);
    }
    assert(s[c] == sp2[0]);
    assert(!class_holds(CharClass::Path, s[c]));
    lemma_run_end_is(s, b, c, CharClass::Path);
    assert forall|i: int| c <= i < d implies class_holds(CharClass::Space, s[i]) by {
        assert(s[i] == sp2[i - c]);
    }
    assert(s[d] == "HTTP/"@[0]);
    assert(!class_holds(CharClass::Space, s[d]));
    lemma_run_end_is(s, c, d, CharClass::Space);
    assert(s.subrange(d, e) =~= "HTTP/"@);
    assert forall|i: int| e <= i < f implies class_holds(CharClass::Version, s[i]) by {
        assert(s[i] == v[i - e]);
    }
    if rest.len() > 0 {
        assert(s[f] == rest[0]);
    }
    lemma_run_end_is(s, e, f, CharClass::Version);
    assert(method_end(s) == a);
    assert(sp1_end(s) == b);
    assert(path_end(s) == c);
    assert(sp2_end(s) == d);
    assert(http_tag_ok(s));
    assert(version_end(s) == f);
    assert(spec_parse(s)->Ok_0.method =~= m);
    assert(spec_parse(s)->Ok_0.path =~= p);
    assert(spec_parse(s)->Ok_0.version =~= v);
}

/// Whether `req` is exactly the structured reading of the text `s`: the
/// method variant of the raw method token, the path with backslashes turned
/// into slashes, the bare version, the header mapping in which a repeated
/// name keeps its last value, and the trimmed body.
pub open spec fn request_matches(req: Request, s: Seq<char>) -> bool {
    let parts = spec_parse(s)->Ok_0;
    &&& spec_parse(s) is Ok
    &&& req.method == method_of(parts.method)
    &&& req.path@ == norm_slashes(parts.path)
    &&& req.version@ == parts.version
    &&& req.headers.pairs_view() == parts.pairs
    &&& req.headers@ == map_of(parts.pairs)
    &&& req.body@ == parts.body
}

/// Parses a complete request text into a structured request.
///
/// On success the request is exactly the structured reading of the text;
/// each parse error comes exactly on the inputs `spec_parse` maps to it.
pub fn parse_http_request(input: &str) -> (r: Result<Request, ParseError>)
    ensures
        r is Ok <==> spec_parse(input@) is Ok,
        r matches Ok(req) ==> request_matches(req, input@),
        r matches Err(e) ==> spec_parse(input@) == Err::<ParsedParts, ParseError>(e),
{
    let len = input.unicode_len();
    let m_end = scan_while(input, len, 0, CharClass::Alnum);
    if m_end == 0 {
        return Err(ParseError::EmptyMethod);
    }
    let sp1 = scan_while(input, len, m_end, CharClass::Space);
    if sp1 == m_end {
        return Err(ParseError::MissingSpaceAfterMethod);
    }
    let p_end = scan_while(input, len, sp1, CharClass::Path);
    let sp2 = scan_while(input, len, p_end, CharClass::Space);
    if sp2 == p_end {
        return Err(ParseError::MissingSpaceAfterPath);
    }
    if !http_tag_at(input, len, sp2) {
        return Err(ParseError::MissingHttpPrefix);
    }
    let v_end = scan_while(input, len, sp2 + 5, CharClass::Version);
    let h_start = scan_while(input, len, v_end, CharClass::Whitespace);
    let (headers, body_start) = parse_headers(input, len, h_start);
    let method = method_from_str(input.substring_char(0, m_end));
    let path = normalize_slashes(input.substring_char(sp1, p_end));
    let version = input.substring_char(sp2 + 5, v_end).to_owned();
    let body = trim_str(input.substring_char(body_start, len));
    Ok(Request { method, path, version, headers, body })
}

/// Relies on `core::str::from_utf8`: it succeeds exactly on valid UTF-8,
/// and the returned text is the one whose UTF-8 encoding is the input.
#[verifier::external_body]
fn utf8_to_str(bytes: &[u8]) -> (r: Option<&str>)
    ensures
        r is Some <==> valid_utf8(bytes@),
        r matches Some(s) ==> s.spec_bytes() == bytes@,
{
    core::str::from_utf8(bytes).ok()
}

/// Parses one raw message. The bytes are decoded as UTF-8 — anything else
/// is a parse failure — and the decoded text is parsed as a request.
pub fn parse_request(input: &[u8]) -> (r: Result<Request, ParseError>)
    ensures
        !valid_utf8(input@) ==> r == Err::<Request, ParseError>(ParseError::InvalidUtf8),
        valid_utf8(input@) ==> {
            let s = decode_utf8(input@);
            &&& (r is Ok <==> spec_parse(s) is Ok)
            &&& (r matches Ok(req) ==> request_matches(req, s))
            &&& (r matches Err(e) ==> spec_parse(s) == Err::<ParsedParts, ParseError>(e))
        },
{
    match utf8_to_str(input) {
        Some(s) => {
            proof {
                vstd::utf8::encode_utf8_decode_utf8(s@);
            }
            parse_http_request(s)
        },
        None => Err(ParseError::InvalidUtf8),
    }
}

} // verus!
