//! The one-shot HTTP layer: a request model, its exact wire serialization,
//! and a parser for the raw response bytes read back from the stream.

use vstd::prelude::*;

use crate::errors::Error;

verus! {

/// HTTP methods available to a request.
#[derive(Debug, Clone, Copy, PartialEq, Eq, Structural)]
pub enum Method {
    /// GET
    Get,
    /// HEAD
    Head,
    /// POST
    Post,
    /// PUT
    Put,
    /// DELETE
    Delete,
    /// OPTIONS
    Options,
    /// TRACE
    Trace,
    /// PATCH
    Patch,
}

/// The protocol versions a request or response can carry.
#[derive(Debug, Clone, Copy, PartialEq, Eq, Structural)]
pub enum Version {
    /// HTTP/1.0
    Http10,
    /// HTTP/1.1
    Http11,
}

/// The ASCII name of a method.
pub open spec fn method_bytes(m: Method) -> Seq<u8> {
    match m {
        Method::Get => seq![71u8, 69u8, 84u8],
        Method::Head => seq![72u8, 69u8, 65u8, 68u8],
        Method::Post => seq![80u8, 79u8, 83u8, 84u8],
        Method::Put => seq![80u8, 85u8, 84u8],
        Method::Delete => seq![68u8, 69u8, 76u8, 69u8, 84u8, 69u8],
        Method::Options => seq![79u8, 80u8, 84u8, 73u8, 79u8, 78u8, 83u8],
        Method::Trace => seq![84u8, 82u8, 65u8, 67u8, 69u8],
        Method::Patch => seq![80u8, 65u8, 84u8, 67u8, 72u8],
    }
}

/// The ASCII rendering of a version, as the request line carries it.
pub open spec fn version_bytes(v: Version) -> Seq<u8> {
    match v {
        Version::Http10 => seq![72u8, 84u8, 84u8, 80u8, 47u8, 49u8, 46u8, 48u8],
        Version::Http11 => seq![72u8, 84u8, 84u8, 80u8, 47u8, 49u8, 46u8, 49u8],
    }
}

/// One header: a name and a value, both raw bytes.
#[derive(Debug, Clone)]
pub struct Header {
    /// The header's name.
    pub name: Vec<u8>,
    /// The header's value.
    pub value: Vec<u8>,
}

/// The ghost value of a header.
pub open spec fn header_model(h: Header) -> (Seq<u8>, Seq<u8>) {
    (h.name@, h.value@)
}

/// The ghost value of a header list.
pub open spec fn headers_model(hs: Seq<Header>) -> Seq<(Seq<u8>, Seq<u8>)> {
    Seq::new(hs.len(), |i: int| header_model(hs[i]))
}

/// An HTTP request: one method, a host and port to connect to, the request
/// target, a version, headers and a body.
pub struct Request {
    /// The request method.
    pub method: Method,
    /// The host to connect (and handshake TLS) to.
    pub host: Vec<u8>,
    /// The TCP port to connect to.
    pub port: u16,
    /// The request target: path and query.
    pub target: Vec<u8>,
    /// The protocol version; only HTTP/1.0 can be sent.
    pub version: Version,
    /// The request headers.
    pub headers: Vec<Header>,
    /// The request body.
    pub body: Vec<u8>,
}

/// An HTTP response: status code, the version echoed from the wire, at most
/// sixteen headers, and the body bytes.
#[derive(Debug, Clone)]
pub struct Response {
    /// The status code.
    pub status: u16,
    /// The version the server answered with.
    pub version: Version,
    /// The response headers, capped at sixteen.
    pub headers: Vec<Header>,
    /// The response body.
    pub body: Vec<u8>,
}

/// One serialized header line: `name: value` and a line feed.
pub open spec fn header_line_bytes(h: (Seq<u8>, Seq<u8>)) -> Seq<u8> {
    h.0 + seq![58u8, 32u8] + h.1 + seq![10u8]
}

/// The serialized header block.
pub open spec fn headers_bytes(hs: Seq<(Seq<u8>, Seq<u8>)>) -> Seq<u8>
    decreases hs.len(),
{
    if hs.len() == 0 {
        seq![]
    } else {
        header_line_bytes(hs[0]) + headers_bytes(hs.skip(1))
    }
}

/// The full wire form of a request: request line, header block, blank line,
/// body, every line ended by a bare line feed.
pub open spec fn serialized_request(r: Request) -> Seq<u8> {
    method_bytes(r.method) + seq![32u8] + r.target@ + seq![32u8] + version_bytes(r.version) + seq![
        10u8,
    ] + headers_bytes(headers_model(r.headers@)) + seq![10u8] + r.body@
}

impl Request {
    /// Build a request.  The `Host` header demanded by the request contract
    /// is put first, ahead of the caller's headers; the version is pinned to
    /// HTTP/1.0; a missing port defaults to 443.
    pub fn new(
        method: Method,
        host: Vec<u8>,
        port: Option<u16>,
        target: Vec<u8>,
        headers: Vec<Header>,
        body: Vec<u8>,
    ) -> (r: Request)
        ensures
            r.method == method,
            r.host@ == host@,
            r.port == (match port {
                Option::Some(p) => p,
                Option::None => 443u16,
            }),
            r.target@ == target@,
            r.version is Http10,
            r.body@ == body@,
            headers_model(r.headers@) == seq![
                (seq![72u8, 111u8, 115u8, 116u8], host@),
            ] + headers_model(headers@),
    {
        let mut hs: Vec<Header> = Vec::new();
        let mut host_name: Vec<u8> = Vec::new();
        host_name.push(72);  // 'H'
        host_name.push(111);  // 'o'
        host_name.push(115);  // 's'
        host_name.push(116);  // 't'
        hs.push(Header { name: host_name, value: crate::idlist::copy_bytes(&host) });
        let mut rest = headers;
        let mut i: usize = 0;
        proof {
            assert(host_name@ =~= seq![72u8, 111u8, 115u8, 116u8]);
        }
        while i < rest.len()
            invariant
                i <= rest@.len(),
                hs@.len() == i + 1,
                headers_model(hs@) =~= seq![
                    (seq![72u8, 111u8, 115u8, 116u8], host@),
                ] + headers_model(rest@.take(i as int)),
                rest@ == headers@,
            decreases rest@.len() - i,
        {
            let h = Header {
                name: crate::idlist::copy_bytes(&rest[i].name),
                value: crate::idlist::copy_bytes(&rest[i].value),
            };
            let ghost hm0 = headers_model(hs@);
            hs.push(h);
            proof {
                assert(header_model(hs@[hs@.len() - 1]) == header_model(rest@[i as int]));
                assert(headers_model(hs@) =~= hm0.push(header_model(rest@[i as int])));
                assert(rest@.take(i + 1) =~= rest@.take(i as int).push(rest@[i as int]));
                assert(headers_model(rest@.take(i + 1)) =~= headers_model(rest@.take(i as int)).push(
                    header_model(rest@[i as int]),
                ));
                assert(headers_model(hs@) =~= seq![(seq![72u8, 111u8, 115u8, 116u8], host@)]
                    + headers_model(rest@.take(i + 1)));
            }
            i = i + 1;
        }
        proof {
            assert(rest@.take(rest@.len() as int) =~= rest@);
        }
        let prt = match port {
            Some(p) => p,
            None => 443,
        };
        Request { method, host, port: prt, target, version: Version::Http10, headers: hs, body }
    }
}

/// Append a byte slice to a buffer.
fn extend_bytes(out: &mut Vec<u8>, src: &[u8])
    ensures
        final(out)@ == old(out)@ + src@,
{
    let mut i: usize = 0;
    while i < src.len()
        invariant
            i <= src@.len(),
            out@ == old(out)@ + src@.take(i as int),
        decreases src@.len() - i,
    {
        out.push(src[i]);
        proof {
            assert(old(out)@ + src@.take(i + 1) =~= (old(out)@ + src@.take(i as int)).push(
                src@[i as int],
            ));
        }
        i = i + 1;
    }
    proof {
        assert(src@.take(src@.len() as int) =~= src@);
    }
}

/// The ASCII name of a method.
fn method_name(m: &Method) -> (r: Vec<u8>)
    ensures
        r@ == method_bytes(*m),
{
    let mut v: Vec<u8> = Vec::new();
    match m {
        Method::Get => {
            v.push(71);
            v.push(69);
            v.push(84);
        },
        Method::Head => {
            v.push(72);
            v.push(69);
            v.push(65);
            v.push(68);
        },
        Method::Post => {
            v.push(80);
            v.push(79);
            v.push(83);
            v.push(84);
        },
        Method::Put => {
            v.push(80);
            v.push(85);
            v.push(84);
        },
        Method::Delete => {
            v.push(68);
            v.push(69);
            v.push(76);
            v.push(69);
            v.push(84);
            v.push(69);
        },
        Method::Options => {
            v.push(79);
            v.push(80);
            v.push(84);
            v.push(73);
            v.push(79);
            v.push(78);
            v.push(83);
        },
        Method::Trace => {
            v.push(84);
            v.push(82);
            v.push(65);
            v.push(67);
            v.push(69);
        },
        Method::Patch => {
            v.push(80);
            v.push(65);
            v.push(84);
            v.push(67);
            v.push(72);
        },
    }
    proof {
        assert(v@ =~= method_bytes(*m));
    }
    v
}

/// The ASCII rendering of a version.
fn version_name(v: &Version) -> (r: Vec<u8>)
    ensures
        r@ == version_bytes(*v),
{
    let mut o: Vec<u8> = Vec::new();
    o.push(72);  // 'H'
    o.push(84);  // 'T'
    o.push(84);  // 'T'
    o.push(80);  // 'P'
    o.push(47);  // '/'
    o.push(49);  // '1'
    o.push(46);  // '.'
    match v {
        Version::Http10 => o.push(48),
        Version::Http11 => o.push(49),
    }
    proof {
        assert(o@ =~= version_bytes(*v));
    }
    o
}

/// Serialize a request into its raw wire bytes: request line, headers, blank
/// line, body.
pub fn request_to_raw(req: &Request) -> (r: Vec<u8>)
    ensures
        r@ == serialized_request(*req),
{
    let mut out: Vec<u8> = Vec::new();
    let m = method_name(&req.method);
    extend_bytes(&mut out, m.as_slice());
    out.push(32);
    extend_bytes(&mut out, req.target.as_slice());
    out.push(32);
    let v = version_name(&req.version);
    extend_bytes(&mut out, v.as_slice());
    out.push(10);
    let ghost pre = out@;
    let ghost hm = headers_model(req.headers@);
    let mut i: usize = 0;
    proof {
        assert(hm.skip(0) =~= hm);
        assert(pre + Seq::<u8>::empty() =~= pre);
    }
    while i < req.headers.len()
        invariant
            i <= req.headers@.len(),
            hm == headers_model(req.headers@),
            pre + headers_bytes(hm) == out@ + headers_bytes(hm.skip(i as int)),
        decreases req.headers@.len() - i,
    {
        let ghost rest = hm.skip(i as int);
        let ghost out0 = out@;
        proof {
            assert(rest.skip(1) =~= hm.skip(i + 1));
            assert(rest[0] == header_model(req.headers@[i as int]));
        }
        extend_bytes(&mut out, req.headers[i].name.as_slice());
        out.push(58);  // ':'
        out.push(32);
        extend_bytes(&mut out, req.headers[i].value.as_slice());
        out.push(10);
        proof {
            assert(out@ =~= out0 + header_line_bytes(rest[0]));
            assert(out0 + (header_line_bytes(rest[0]) + headers_bytes(rest.skip(1))) =~= out@
                + headers_bytes(rest.skip(1)));
        }
        i = i + 1;
    }
    proof {
        assert(hm.skip(i as int) =~= Seq::<(Seq<u8>, Seq<u8>)>::empty());
        assert(out@ + Seq::<u8>::empty() =~= out@);
    }
    out.push(10);
    extend_bytes(&mut out, req.body.as_slice());
    proof {
        assert(out@ =~= serialized_request(*req));
    }
    out
}

/// Serialize a request for sending, enforcing the protocol contract: only
/// HTTP/1.0 requests can be sent.
pub fn prepare_send(req: &Request) -> (r: Result<Vec<u8>, crate::errors::Error>)
    ensures
        r is Ok <==> req.version is Http10,
        r matches Ok(v) ==> v@ == serialized_request(*req),
        r matches Err(e) ==> e is UnsupportedVersion,
{
    match req.version {
        Version::Http10 => Ok(request_to_raw(req)),
        Version::Http11 => Err(crate::errors::Error::UnsupportedVersion),
    }
}

/// Is `c` an ASCII digit?
pub open spec fn is_digit(c: u8) -> bool {
    48 <= c <= 57
}

/// A well-formed status line: `HTTP/1.<0|1> <three digits>` followed by
/// nothing or by a space and a reason phrase.
pub open spec fn status_line_ok(l: Seq<u8>) -> bool {
    &&& l.len() >= 12
    &&& l[0] == 72 && l[1] == 84 && l[2] == 84 && l[3] == 80  // "HTTP"
    &&& l[4] == 47 && l[5] == 49 && l[6] == 46  // "/1."
    &&& (l[7] == 48 || l[7] == 49)
    &&& l[8] == 32
    &&& is_digit(l[9]) && is_digit(l[10]) && is_digit(l[11])
    &&& (l.len() == 12 || l[12] == 32)
}

/// The version a status line names.
pub open spec fn status_line_version(l: Seq<u8>) -> Version {
    if l[7] == 48 {
        Version::Http10
    } else {
        Version::Http11
    }
}

/// The status code a status line carries.
pub open spec fn status_line_code(l: Seq<u8>) -> int {
    100 * (l[9] - 48) + 10 * (l[10] - 48) + (l[11] - 48)
}

/// Index of the first colon in `l`, or `l.len()` when there is none.
pub open spec fn first_colon(l: Seq<u8>) -> int
    decreases l.len(),
{
    if l.len() == 0 {
        0
    } else if l[0] == 58 {
        0
    } else {
        1 + first_colon(l.skip(1))
    }
}

/// Remove leading spaces and horizontal tabs.
pub open spec fn strip_ws(v: Seq<u8>) -> Seq<u8>
    decreases v.len(),
{
    if v.len() > 0 && (v[0] == 32 || v[0] == 9) {
        strip_ws(v.skip(1))
    } else {
        v
    }
}

/// Parse one header line: a non-empty name before the first colon, then the
/// value with leading whitespace removed.
pub open spec fn parse_header_line(l: Seq<u8>) -> Option<(Seq<u8>, Seq<u8>)> {
    let i = first_colon(l);
    if 0 < i < l.len() {
        Some((l.take(i), strip_ws(l.skip(i + 1))))
    } else {
        None
    }
}

/// Parse the header block: lines up to the first empty line, each a header;
/// what follows the empty line is the body.  `None` when the bytes run out
/// before the empty line or some line has no colon.
pub open spec fn parse_header_section(s: Seq<u8>) -> Option<(Seq<(Seq<u8>, Seq<u8>)>, Seq<u8>)>
    decreases s.len(),
{
    let i = crate::lines::first_nl(s);
    if !(0 <= i && i < s.len()) {
        None
    } else {
        let line = crate::lines::strip_cr(s.take(i));
        let rest = s.skip(i + 1);
        if line.len() == 0 {
            Some((seq![], rest))
        } else {
            match parse_header_line(line) {
                None => None,
                Some(h) => match parse_header_section(rest) {
                    None => None,
                    Some(p) => Some((seq![h] + p.0, p.1)),
                },
            }
        }
    }
}

/// Cap a header list at sixteen entries, dropping the excess.
pub open spec fn take16(hs: Seq<(Seq<u8>, Seq<u8>)>) -> Seq<(Seq<u8>, Seq<u8>)> {
    if hs.len() <= 16 {
        hs
    } else {
        hs.take(16)
    }
}

/// The ghost value of a parsed response.
pub struct ResponseSpec {
    /// The version the status line names.
    pub version: Version,
    /// The status code.
    pub status: int,
    /// The headers kept, capped at sixteen.
    pub headers: Seq<(Seq<u8>, Seq<u8>)>,
    /// The body bytes.
    pub body: Seq<u8>,
}

/// What a raw response denotes: a status line, a header block ended by an
/// empty line, and the remaining bytes as body.  `None` when the bytes are
/// truncated or malformed.
pub open spec fn response_of(s: Seq<u8>) -> Option<ResponseSpec> {
    let i = crate::lines::first_nl(s);
    if !(0 <= i && i < s.len()) {
        None
    } else {
        let line = crate::lines::strip_cr(s.take(i));
        if !status_line_ok(line) {
            None
        } else {
            match parse_header_section(s.skip(i + 1)) {
                None => None,
                Some(p) => Some(
                    ResponseSpec {
                        version: status_line_version(line),
                        status: status_line_code(line),
                        headers: take16(p.0),
                        body: p.1,
                    },
                ),
            }
        }
    }
}

proof fn lemma_first_colon_at(l: Seq<u8>, m: int)
    requires
        0 <= m <= l.len(),
        forall|k: int| 0 <= k < m ==> l[k] != 58,
        m == l.len() || l[m] == 58,
    ensures
        first_colon(l) == m,
    decreases l.len(),
{
    if l.len() != 0 && l[0] != 58 {
        assert(forall|k: int| 0 <= k < m - 1 ==> l.skip(1)[k] == l[k + 1]);
        lemma_first_colon_at(l.skip(1), m - 1);
    }
}

proof fn lemma_strip_ws_at(v: Seq<u8>, k: int)
    requires
        0 <= k <= v.len(),
        forall|m: int| 0 <= m < k ==> (v[m] == 32 || v[m] == 9),
        k == v.len() || !(v[k] == 32 || v[k] == 9),
    ensures
        strip_ws(v) == v.skip(k),
    decreases k,
{
    if k == 0 {
        assert(v.skip(0) =~= v);
    } else {
        assert(forall|m: int| 0 <= m < k - 1 ==> (v.skip(1)[m] == 32 || v.skip(1)[m] == 9));
        lemma_strip_ws_at(v.skip(1), k - 1);
        assert(v.skip(1).skip(k - 1) =~= v.skip(k));
    }
}

/// Find the first line feed at or after `from`, if any.
fn find_nl(s: &[u8], from: usize) -> (r: Option<usize>)
    requires
        from <= s@.len(),
    ensures
        r matches Some(j) ==> from <= j < s@.len() && s@[j as int] == 10 && (forall|k: int|
            from <= k < j ==> s@[k] != 10) && crate::lines::first_nl(s@.skip(from as int)) == j
            - from,
        r is None ==> (forall|k: int| from <= k < s@.len() ==> s@[k] != 10)
            && crate::lines::first_nl(s@.skip(from as int)) == s@.len() - from,
{
    let mut j: usize = from;
    while j < s.len() && s[j] != 10
        invariant
            from <= j <= s@.len(),
            forall|k: int| from <= k < j ==> s@[k] != 10,
        decreases s@.len() - j,
    {
        j = j + 1;
    }
    proof {
        assert(forall|k: int|
            0 <= k < j - from ==> s@.skip(from as int)[k] == s@[from + k]);
        crate::lines::lemma_first_nl_at(s@.skip(from as int), j - from);
    }
    if j < s.len() {
        Some(j)
    } else {
        None
    }
}

/// Parse raw response bytes into a response.
///
/// Succeeds exactly on the byte sequences the response grammar accepts:
/// a status line, then headers up to an empty line, then the body.  Headers
/// beyond the sixteenth are dropped without error.
#[verifier::rlimit(80)]
pub fn raw_to_response(s: &[u8]) -> (r: Result<Response, crate::errors::Error>)
    ensures
        r is Ok <==> response_of(s@) is Some,
        r matches Ok(resp) ==> {
            let m = response_of(s@).unwrap();
            &&& resp.version == m.version
            &&& resp.status as int == m.status
            &&& headers_model(resp.headers@) == m.headers
            &&& resp.body@ == m.body
        },
        r matches Err(e) ==> e matches Error::InvalidResponse(_),
{
    // Status line
    let j0 = match find_nl(s, 0) {
        Some(j) => j,
        None => {
            proof {
                assert(s@.skip(0) =~= s@);
            }
            return Err(Error::InvalidResponse(String::from_str("unfinished response")));
        },
    };
    let line_end: usize = if j0 > 0 && s[j0 - 1] == 13 {
        j0 - 1
    } else {
        j0
    };
    let line = crate::idlist::copy_range(s, 0, line_end);
    let ghost lseq = crate::lines::strip_cr(s@.take(j0 as int));
    proof {
        assert(s@.skip(0) =~= s@);
        let t = s@.take(j0 as int);
        if j0 > 0 && t[j0 as int - 1] == 13 {
            assert(t.take(j0 as int - 1) =~= s@.take(j0 as int - 1));
        }
        assert(lseq =~= line@);
    }
    if !(line.len() >= 12 && line[0] == 72 && line[1] == 84 && line[2] == 84 && line[3] == 80
        && line[4] == 47 && line[5] == 49 && line[6] == 46 && (line[7] == 48 || line[7] == 49)
        && line[8] == 32 && 48 <= line[9] && line[9] <= 57 && 48 <= line[10] && line[10] <= 57
        && 48 <= line[11] && line[11] <= 57 && (line.len() == 12 || line[12] == 32)) {
        proof {
            assert(!status_line_ok(lseq));
        }
        return Err(Error::InvalidResponse(String::from_str("unable to parse response")));
    }
    let version = if line[7] == 48 {
        Version::Http10
    } else {
        Version::Http11
    };
    let status: u16 = (line[9] - 48) as u16 * 100 + (line[10] - 48) as u16 * 10 + (line[11]
        - 48) as u16;
    // Header block
    let mut headers: Vec<Header> = Vec::new();
    let ghost mut all_seen: Seq<(Seq<u8>, Seq<u8>)> = Seq::empty();
    let mut pos: usize = j0 + 1;
    proof {
        assert(headers_model(headers@) =~= take16(all_seen));
    }
    loop
        invariant
            j0 + 1 <= pos <= s@.len(),
            s@.len() <= usize::MAX,
            status_line_ok(lseq),
            version == status_line_version(lseq),
            status as int == status_line_code(lseq),
            headers_model(headers@) == take16(all_seen),
            headers@.len() <= 16,
            headers@.len() <= all_seen.len(),
            response_of(s@) == (match parse_header_section(s@.skip(pos as int)) {
                Option::None => Option::None::<ResponseSpec>,
                Option::Some(p) => Option::Some(
                    ResponseSpec {
                        version: status_line_version(lseq),
                        status: status_line_code(lseq),
                        headers: take16(all_seen + p.0),
                        body: p.1,
                    },
                ),
            }),
        decreases s@.len() - pos,
    {
        let ghost rest = s@.skip(pos as int);
        let j = match find_nl(s, pos) {
            Some(j) => j,
            None => {
                return Err(Error::InvalidResponse(String::from_str("unfinished response")));
            },
        };
        let hline_end: usize = if j > pos && s[j - 1] == 13 {
            j - 1
        } else {
            j
        };
        let ghost hline = crate::lines::strip_cr(rest.take(j - pos));
        proof {
            let t = rest.take(j - pos);
            assert(t =~= s@.subrange(pos as int, j as int));
            if j > pos && t[j - pos - 1] == 13 {
                assert(t.take(j - pos - 1) =~= s@.subrange(pos as int, j as int - 1));
            }
            assert(hline =~= s@.subrange(pos as int, hline_end as int));
            assert(rest.skip(j - pos + 1) =~= s@.skip(j + 1));
        }
        if hline_end == pos {
            // Empty line: the rest is the body.
            let body = crate::idlist::copy_range(s, j + 1, s.len());
            proof {
                assert(hline.len() == 0);
                assert(body@ =~= s@.skip(j + 1));
                assert(all_seen + Seq::<(Seq<u8>, Seq<u8>)>::empty() =~= all_seen);
            }
            return Ok(Response { status, version, headers, body });
        }
        // A header line: name before the first colon, value after.
        let mut c: usize = pos;
        while c < hline_end && s[c] != 58
            invariant
                pos <= c <= hline_end <= s@.len(),
                forall|k: int| pos <= k < c ==> s@[k] != 58,
            decreases hline_end - c,
        {
            c = c + 1;
        }
        proof {
            assert(forall|k: int| 0 <= k < c - pos ==> hline[k] == s@[pos + k]);
            lemma_first_colon_at(hline, c - pos);
        }
        if c == hline_end || c == pos {
            proof {
                assert(parse_header_line(hline) is None);
            }
            return Err(Error::InvalidResponse(String::from_str("unable to parse response")));
        }
        let name = crate::idlist::copy_range(s, pos, c);
        let mut w: usize = c + 1;
        while w < hline_end && (s[w] == 32 || s[w] == 9)
            invariant
                c + 1 <= w <= hline_end <= s@.len(),
                forall|k: int| c + 1 <= k < w ==> (s@[k] == 32 || s@[k] == 9),
            decreases hline_end - w,
        {
            w = w + 1;
        }
        let value = crate::idlist::copy_range(s, w, hline_end);
        let ghost h = (name@, value@);
        proof {
            let vtail = hline.skip(c - pos + 1);
            assert(forall|k: int| 0 <= k < vtail.len() ==> vtail[k] == s@[c + 1 + k]);
            lemma_strip_ws_at(vtail, w - c - 1);
            assert(vtail.skip(w - c - 1) =~= s@.subrange(w as int, hline_end as int));
            assert(hline.take(c - pos) =~= s@.subrange(pos as int, c as int));
            assert(parse_header_line(hline) == Some(h));
        }
        if headers.len() < 16 {
            let ghost hm0 = headers_model(headers@);
            headers.push(Header { name, value });
            proof {
                assert(headers_model(headers@) =~= hm0.push(h));
            }
        }
        proof {
            let p_rest = parse_header_section(s@.skip(j + 1));
            if p_rest is Some {
                assert((all_seen.push(h)) + p_rest.unwrap().0 =~= all_seen + (seq![h]
                    + p_rest.unwrap().0));
            }
            all_seen = all_seen.push(h);
            if all_seen.len() <= 16 {
                assert(take16(all_seen) =~= headers_model(headers@));
            } else {
                assert(take16(all_seen) =~= all_seen.take(16));
                assert(take16(all_seen) =~= headers_model(headers@));
            }
        }
        pos = j + 1;
    }
}

} // verus!
