use vstd::prelude::*;
use crate::shell::append_bytes;
use crate::text::{
    content_length_head,
    content_length_head_spec,
    content_type_head,
    content_type_head_spec,
    crlf2,
    crlf2_spec,
    header_end,
    header_end_spec,
    method_get,
    method_get_spec,
    not_allowed,
    not_allowed_spec,
    not_found,
    not_found_spec,
    path_html,
    path_html_spec,
    path_js,
    path_js_spec,
    path_root,
    path_root_spec,
    status_line_start,
    status_line_start_spec,
    status_ok,
    status_ok_spec,
    type_html,
    type_html_spec,
    type_js,
    type_js_spec,
};
use crate::util::{bytes_equal, decimal_spec, decimal_text, first_space};
use crate::ws::{first_occurrence, handle_websocket_connection, handshake_spec, is_upgrade_spec, is_websocket_upgrade};

verus! {

/// End of the request path starting at `j`: the first space, `?` or the end.
pub open spec fn path_end(s: Seq<u8>, j: int) -> int
    decreases s.len() - j,
{
    if j < 0 || j >= s.len() || s[j] == 32u8 || s[j] == 63u8 {
        j
    } else {
        path_end(s, j + 1)
    }
}

/// Method, path and body of a request. Without a space the request counts as `GET /`;
/// an empty path is `/`; the body follows the first blank line.
pub open spec fn request_parts(req: Seq<u8>) -> (Seq<u8>, Seq<u8>, Seq<u8>) {
    match first_space(req) {
        None => (method_get_spec(), path_root_spec(), seq![]),
        Some(me) => {
            let ps = me + 1;
            let pe = path_end(req, ps as int);
            let path = if pe > ps {
                req.subrange(ps as int, pe)
            } else {
                path_root_spec()
            };
            let body = match first_occurrence(req, crlf2_spec(), 0) {
                Some(i) => if i + 4 < req.len() {
                    req.skip(i + 4)
                } else {
                    seq![]
                },
                None => seq![],
            };
            (req.take(me as int), path, body)
        },
    }
}

/// A complete response with a status, a content type and a body.
pub open spec fn simple_response_spec(status: Seq<u8>, ctype: Seq<u8>, body: Seq<u8>) -> Seq<u8> {
    status_line_start_spec() + status + content_type_head_spec() + ctype + content_length_head_spec()
        + decimal_spec(body.len()) + header_end_spec() + body
}

/// The response to a plain HTTP request: 405 for other methods than GET, the terminal
/// page at `/` and `/terminal.html`, its script at `/terminal.js`, 404 otherwise.
pub open spec fn http_response_spec(req: Seq<u8>, html: Seq<u8>, js: Seq<u8>) -> Seq<u8> {
    let (m, p, _b) = request_parts(req);
    if m != method_get_spec() {
        not_allowed_spec()
    } else if p == path_root_spec() || p == path_html_spec() {
        simple_response_spec(status_ok_spec(), type_html_spec(), html)
    } else if p == path_js_spec() {
        simple_response_spec(status_ok_spec(), type_js_spec(), js)
    } else {
        not_found_spec()
    }
}

fn find_path_end(s: &[u8], j: usize) -> (r: usize)
    requires
        j <= s@.len(),
    ensures
        r == path_end(s@, j as int),
        j <= r <= s@.len(),
{
    let mut k: usize = j;
    while k < s.len() && s[k] != 32u8 && s[k] != 63u8
        invariant
            j <= k <= s@.len(),
            path_end(s@, j as int) == path_end(s@, k as int),
        decreases s@.len() - k,
    {
        k += 1;
    }
    k
}

fn find_blank_line(s: &[u8]) -> (r: Option<usize>)
    ensures
        match r {
            Some(k) => first_occurrence(s@, crlf2_spec(), 0) == Some(k as int) && k + 4 <= s@.len(),
            None => first_occurrence(s@, crlf2_spec(), 0).is_none(),
        },
{
    let pat = crlf2();
    let mut i: usize = 0;
    if s.len() < 4 {
        return None;
    }
    while i <= s.len() - 4
        invariant
            s@.len() >= 4,
            i <= s@.len() - 3,
            pat@ == crlf2_spec(),
            first_occurrence(s@, pat@, 0) == first_occurrence(s@, pat@, i as int),
        decreases s@.len() - i,
    {
        if s[i] == 13u8 && s[i + 1] == 10u8 && s[i + 2] == 13u8 && s[i + 3] == 10u8 {
            proof {
                assert(s@.subrange(i as int, i + 4) =~= pat@);
            }
            return Some(i);
        }
        proof {
            assert(s@.subrange(i as int, i + 4)[0] == s@[i as int]);
            assert(s@.subrange(i as int, i + 4)[1] == s@[i + 1]);
            assert(s@.subrange(i as int, i + 4)[2] == s@[i + 2]);
            assert(s@.subrange(i as int, i + 4)[3] == s@[i + 3]);
        }
        i += 1;
    }
    None
}

/// Splits a request into method, path and body (see `request_parts`).
pub fn parse_http_request(request: &[u8]) -> (r: (Vec<u8>, Vec<u8>, Vec<u8>))
    ensures
        (r.0@, r.1@, r.2@) == request_parts(request@),
{
    let mut me: usize = 0;
    proof {
        assert(request@.skip(0) =~= request@);
    }
    while me < request.len() && request[me] != 32u8
        invariant
            me <= request@.len(),
            first_space(request@) == (match first_space(request@.skip(me as int)) {
                Some(j) => Some((j + me) as nat),
                None => None::<nat>,
            }),
        decreases request@.len() - me,
    {
        assert(request@.skip(me as int).drop_first() =~= request@.skip(me + 1));
        me += 1;
    }
    if me >= request.len() {
        proof {
            assert(request@.skip(me as int).len() == 0);
        }
        return (method_get(), path_root(), Vec::new());
    }
    proof {
        assert(request@.skip(me as int)[0] == 32u8);
        assert(first_space(request@) == Some(me as nat));
    }
    let method = vstd::slice::slice_to_vec(vstd::slice::slice_subrange(request, 0, me));
    let ps = me + 1;
    let pe = find_path_end(request, ps);
    let path = if pe > ps {
        vstd::slice::slice_to_vec(vstd::slice::slice_subrange(request, ps, pe))
    } else {
        path_root()
    };
    let body = match find_blank_line(request) {
        Some(i) => {
            if i < request.len() - 4 {
                let b = vstd::slice::slice_subrange(request, i + 4, request.len());
                proof {
                    assert(b@ =~= request@.skip(i + 4));
                }
                let v = vstd::slice::slice_to_vec(b);
                proof {
                    assert(v@ == request_parts(request@).2);
                }
                v
            } else {
                let v: Vec<u8> = Vec::new();
                proof {
                    assert(v@ =~= request_parts(request@).2);
                }
                v
            }
        },
        None => {
            let v: Vec<u8> = Vec::new();
            proof {
                assert(v@ =~= request_parts(request@).2);
            }
            v
        },
    };
    proof {
        let parts = request_parts(request@);
        assert(method@ =~= parts.0);
    }
    (method, path, body)
}

/// A response with the given status, content type and body, and its `Content-Length`.
pub fn send_simple_response(status: &[u8], content_type: &[u8], body: &[u8]) -> (r: Vec<u8>)
    ensures
        r@ == simple_response_spec(status@, content_type@, body@),
{
    let mut out = status_line_start();
    append_bytes(&mut out, status);
    let h = content_type_head();
    append_bytes(&mut out, h.as_slice());
    append_bytes(&mut out, content_type);
    let l = content_length_head();
    append_bytes(&mut out, l.as_slice());
    let d = decimal_text(body.len() as u64);
    append_bytes(&mut out, d.as_slice());
    let e = header_end();
    append_bytes(&mut out, e.as_slice());
    append_bytes(&mut out, body);
    out
}

/// The response to a plain HTTP request, serving the terminal page and script given
/// (see `http_response_spec`).
pub fn handle_http_request_inline(request: &[u8], html: &[u8], js: &[u8]) -> (r: Vec<u8>)
    ensures
        r@ == http_response_spec(request@, html@, js@),
{
    let (method, path, _body) = parse_http_request(request);
    let get = method_get();
    if !bytes_equal(method.as_slice(), get.as_slice()) {
        return not_allowed();
    }
    let root = path_root();
    let page = path_html();
    let script = path_js();
    if bytes_equal(path.as_slice(), root.as_slice()) || bytes_equal(path.as_slice(), page.as_slice()) {
        let s = status_ok();
        let t = type_html();
        send_simple_response(s.as_slice(), t.as_slice(), html)
    } else if bytes_equal(path.as_slice(), script.as_slice()) {
        let s = status_ok();
        let t = type_js();
        send_simple_response(s.as_slice(), t.as_slice(), js)
    } else {
        not_found()
    }
}

/// What the listener does with one accepted connection.
pub enum ListenerAction {
    /// Shutdown was requested: close the server socket and return.
    CloseServer,
    /// Send this 101 response and hand the socket to a worker.
    Upgrade(Vec<u8>),
    /// Close the connection without answering.
    Reject,
    /// Send this response, then close the connection.
    Respond(Vec<u8>),
}

/// Decides one turn of the accept loop: stop once shutdown is requested; otherwise upgrade
/// WebSocket requests that carry a key, reject other upgrades and empty reads, and answer
/// plain requests.
pub fn route_connection(shutdown: bool, request: &[u8], html: &[u8], js: &[u8]) -> (r: ListenerAction)
    ensures
        shutdown ==> r is CloseServer,
        !shutdown && request@.len() == 0 ==> r is Reject,
        !shutdown && request@.len() > 0 && is_upgrade_spec(request@) ==> match handshake_spec(
            request@,
        ) {
            Some(resp) => r matches ListenerAction::Upgrade(v) && v@ == resp,
            None => r is Reject,
        },
        !shutdown && request@.len() > 0 && !is_upgrade_spec(request@) ==> (r matches ListenerAction::Respond(
            v,
        ) && v@ == http_response_spec(request@, html@, js@)),
{
    if shutdown {
        return ListenerAction::CloseServer;
    }
    if request.len() == 0 {
        return ListenerAction::Reject;
    }
    if is_websocket_upgrade(request) {
        match handle_websocket_connection(request) {
            Some(resp) => ListenerAction::Upgrade(resp),
            None => ListenerAction::Reject,
        }
    } else {
        ListenerAction::Respond(handle_http_request_inline(request, html, js))
    }
}

} // verus!
