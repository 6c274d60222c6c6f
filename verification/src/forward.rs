//! Local HTTP forwarding rules.
//!
//! Each request from the relay is written to the local target as an HTTP/1.1
//! request head followed by the body chunks; the local response head is read
//! until the blank line, parsed, and sent back as `ResponseStart`, one or more
//! `ResponseChunk`s and `ResponseEnd`. On any error a single `ResponseError`
//! is sent instead. The sockets live around the library; here stand the
//! rules that decide what is written, what is read and what is sent.

use vstd::prelude::*;

use crate::cli::{host_port_text, LocalTarget};
use crate::error::LocalForwardError;
use crate::protocol::{Header, Message, Payload, ResponseErrorCode, StreamMessage};
use crate::text::{concat2, concat3, push_decimal};

verus! {

/// Read buffer size when streaming the local response body.
pub const READ_BUF: usize = 65536;

/// Maximum HTTP response header block we'll try to parse (8 KiB).
pub const MAX_HEADER_BUF: usize = 8192;

// ── Request head ─────────────────────────────────────────────────────────────
/// The code of `c` after ASCII lower-casing.
pub open spec fn lower_code(c: char) -> int {
    if 'A' <= c && c <= 'Z' {
        (c as u32) + 32
    } else {
        c as u32 as int
    }
}

/// Whether `name` equals the lower-case `lower` when ASCII case is ignored.
pub open spec fn same_name(name: Seq<char>, lower: Seq<char>) -> bool {
    name.len() == lower.len() && forall|i: int|
        0 <= i < name.len() ==> lower_code(#[trigger] name[i]) == lower[i] as u32 as int
}

/// Whether `name` starts with the lower-case `prefix` when ASCII case is
/// ignored.
pub open spec fn has_name_prefix(name: Seq<char>, prefix: Seq<char>) -> bool {
    name.len() >= prefix.len() && same_name(name.take(prefix.len() as int), prefix)
}

/// Hop-by-hop and WebSocket-upgrade headers: `Connection`, `Upgrade`, `TE`,
/// `Trailer`, `Transfer-Encoding` and every `Sec-WebSocket-*` header.
pub open spec fn is_hop_by_hop(name: Seq<char>) -> bool {
    ||| same_name(name, "connection"@)
    ||| same_name(name, "upgrade"@)
    ||| same_name(name, "te"@)
    ||| same_name(name, "trailer"@)
    ||| same_name(name, "transfer-encoding"@)
    ||| has_name_prefix(name, "sec-websocket-"@)
}

/// A header as `(name, value)`.
pub open spec fn header_pair(h: Header) -> (Seq<char>, Seq<char>) {
    (h.name@, h.value@)
}

/// The relay's headers that are passed on: all but the hop-by-hop ones, in order.
pub open spec fn kept_headers(hs: Seq<Header>) -> Seq<(Seq<char>, Seq<char>)>
    decreases hs.len(),
{
    if hs.len() == 0 {
        Seq::empty()
    } else if is_hop_by_hop(hs.last().name@) {
        kept_headers(hs.drop_last())
    } else {
        kept_headers(hs.drop_last()).push(header_pair(hs.last()))
    }
}

/// Whether a header named `lower` (in any case) is among `hs`.
pub open spec fn has_named_header(hs: Seq<Header>, lower: Seq<char>) -> bool {
    exists|i: int| 0 <= i < hs.len() && same_name(#[trigger] hs[i].name@, lower)
}

/// The headers written to the local target: the kept relay headers; `Host`
/// when the relay sent none; `X-Forwarded-For: unknown` when the relay sent
/// none, since the client's address never reaches the tunnel client; the
/// other forwarding headers; and `Connection: close`.
pub open spec fn forwarded_headers(hs: Seq<Header>, host_label: Seq<char>) -> Seq<
    (Seq<char>, Seq<char>),
> {
    let base = kept_headers(hs);
    let with_host = if has_named_header(hs, "host"@) {
        base
    } else {
        base.push(("Host"@, host_label))
    };
    let with_for = if has_named_header(hs, "x-forwarded-for"@) {
        with_host
    } else {
        with_host.push(("X-Forwarded-For"@, "unknown"@))
    };
    with_for.push(("X-Forwarded-Proto"@, "http"@)).push(("X-Forwarded-Host"@, host_label)).push(
        ("Connection"@, "close"@),
    )
}

/// Header lines, each `name: value\r\n`.
pub open spec fn header_lines(ls: Seq<(Seq<char>, Seq<char>)>) -> Seq<char>
    decreases ls.len(),
{
    if ls.len() == 0 {
        Seq::empty()
    } else {
        header_lines(ls.drop_last()) + ls.last().0 + ": "@ + ls.last().1 + "\r\n"@
    }
}

proof fn lemma_header_lines_push(ls: Seq<(Seq<char>, Seq<char>)>, p: (Seq<char>, Seq<char>))
    ensures
        header_lines(ls.push(p)) == header_lines(ls) + p.0 + ": "@ + p.1 + "\r\n"@,
{
    assert(ls.push(p).drop_last() =~= ls);
}

/// The request head written to the local target.
pub open spec fn request_head_text(
    method: Seq<char>,
    path: Seq<char>,
    hs: Seq<Header>,
    target: LocalTarget,
) -> Seq<char> {
    method + " "@ + path + " HTTP/1.1\r\n"@ + header_lines(
        forwarded_headers(hs, host_port_text(target.host@, target.port)),
    ) + "\r\n"@
}

/// Whether `name` equals the lower-case `lower` when ASCII case is ignored.
fn name_is(name: &str, lower: &str) -> (b: bool)
    ensures
        b == same_name(name@, lower@),
{
    let a = crate::text::chars_of(name);
    let l = crate::text::chars_of(lower);
    if a.len() != l.len() {
        return false;
    }
    let mut i: usize = 0;
    while i < a.len()
        invariant
            a@ == name@,
            l@ == lower@,
            a@.len() == l@.len(),
            i <= a@.len(),
            forall|j: int| 0 <= j < i ==> lower_code(#[trigger] a@[j]) == l@[j] as u32 as int,
        decreases a@.len() - i,
    {
        let c = a[i];
        let lc: u32 = if 'A' <= c && c <= 'Z' {
            (c as u32) + 32
        } else {
            c as u32
        };
        if lc != (l[i] as u32) {
            return false;
        }
        i = i + 1;
    }
    true
}

/// Whether `name` starts with the lower-case `prefix` when ASCII case is
/// ignored.
fn name_starts(name: &str, prefix: &str) -> (b: bool)
    ensures
        b == has_name_prefix(name@, prefix@),
{
    let a = crate::text::chars_of(name);
    let l = crate::text::chars_of(prefix);
    if a.len() < l.len() {
        return false;
    }
    let ghost head = name@.take(prefix@.len() as int);
    let mut i: usize = 0;
    while i < l.len()
        invariant
            a@ == name@,
            l@ == prefix@,
            l@.len() <= a@.len(),
            head == name@.take(prefix@.len() as int),
            i <= l@.len(),
            forall|j: int| 0 <= j < i ==> lower_code(#[trigger] a@[j]) == l@[j] as u32 as int,
        decreases l@.len() - i,
    {
        let c = a[i];
        let lc: u32 = if 'A' <= c && c <= 'Z' {
            (c as u32) + 32
        } else {
            c as u32
        };
        if lc != (l[i] as u32) {
            assert(head[i as int] == a@[i as int]);
            return false;
        }
        i = i + 1;
    }
    assert forall|j: int| 0 <= j < head.len() implies lower_code(#[trigger] head[j])
        == prefix@[j] as u32 as int by {
        assert(head[j] == a@[j]);
    }
    true
}

fn hop_by_hop(name: &str) -> (b: bool)
    ensures
        b == is_hop_by_hop(name@),
{
    name_is(name, "connection") || name_is(name, "upgrade") || name_is(name, "te") || name_is(
        name,
        "trailer",
    ) || name_is(name, "transfer-encoding") || name_starts(name, "sec-websocket-")
}

fn push_header_line(out: &mut String, name: &str, value: &str)
    ensures
        final(out)@ == old(out)@ + name@ + ": "@ + value@ + "\r\n"@,
{
    out.append(name);
    out.append(": ");
    out.append(value);
    out.append("\r\n");
}

/// A hop-by-hop header is never a `Host` or an `X-Forwarded-For` header.
proof fn lemma_hop_excludes(name: Seq<char>)
    ensures
        is_hop_by_hop(name) ==> !same_name(name, "host"@) && !same_name(
            name,
            "x-forwarded-for"@,
        ),
{
    reveal_strlit("host");
    reveal_strlit("x-forwarded-for");
    reveal_strlit("connection");
    reveal_strlit("upgrade");
    reveal_strlit("te");
    reveal_strlit("trailer");
    reveal_strlit("transfer-encoding");
    reveal_strlit("sec-websocket-");
    if name.len() > 0 {
        assert(lower_code("te"@[0]) == "transfer-encoding"@[0] as u32 as int);
        if has_name_prefix(name, "sec-websocket-"@) {
            assert(name.take(14)[0] == name[0]);
            assert(lower_code(name.take(14)[0]) == "sec-websocket-"@[0] as u32 as int);
        }
    }
}

proof fn lemma_head_step(hs: Seq<Header>, i: int, lower: Seq<char>)
    requires
        0 <= i < hs.len(),
    ensures
        kept_headers(hs.subrange(0, i + 1)) == (if is_hop_by_hop(hs[i].name@) {
            kept_headers(hs.subrange(0, i))
        } else {
            kept_headers(hs.subrange(0, i)).push(header_pair(hs[i]))
        }),
        has_named_header(hs.subrange(0, i + 1), lower) == (has_named_header(hs.subrange(0, i), lower)
            || same_name(hs[i].name@, lower)),
{
    let prefix = hs.subrange(0, i);
    let next = hs.subrange(0, i + 1);
    assert(next.drop_last() =~= prefix);
    assert(next.last() == hs[i]);
    if has_named_header(next, lower) {
        let j = choose|j: int| 0 <= j < next.len() && same_name(#[trigger] next[j].name@, lower);
        if j < i {
            assert(prefix[j] == next[j]);
        }
    }
    if has_named_header(prefix, lower) {
        let j = choose|j: int| 0 <= j < prefix.len() && same_name(#[trigger] prefix[j].name@, lower);
        assert(next[j] == prefix[j]);
    }
    if same_name(hs[i].name@, lower) {
        assert(next[i] == hs[i]);
    }
}

proof fn lemma_append_line(
    line: Seq<char>,
    ls: Seq<(Seq<char>, Seq<char>)>,
    p: (Seq<char>, Seq<char>),
    before: Seq<char>,
    after: Seq<char>,
)
    requires
        before == line + header_lines(ls),
        after == before + p.0 + ": "@ + p.1 + "\r\n"@,
    ensures
        after == line + header_lines(ls.push(p)),
{
    lemma_header_lines_push(ls, p);
    assert(after =~= line + header_lines(ls.push(p)));
}

/// Builds the raw HTTP/1.1 request head (request line + headers + blank line)
/// that will be written verbatim to the local TCP stream.
///
/// Header normalisation rules:
/// - `Connection`, `Upgrade`, `TE`, `Trailer`, `Transfer-Encoding` and every
///   `Sec-WebSocket-*` header are stripped.
/// - `Host` is preserved if present; injected as `host:port` otherwise.
/// - `X-Forwarded-For` is preserved if present; injected as `unknown`
///   otherwise. `X-Forwarded-Proto` and `X-Forwarded-Host` are appended.
/// - `Connection: close` ends the header block.
pub fn build_request_head(method: &str, path: &str, headers: &[Header], target: &LocalTarget) -> (s:
    String)
    ensures
        s@ == request_head_text(method@, path@, headers@, *target),
{
    let mut host_label = target.host.clone();
    host_label.append(":");
    push_decimal(&mut host_label, target.port as u64);
    let ghost hl = host_port_text(target.host@, target.port);
    assert(host_label@ == hl);
    let mut out = concat3(method, " ", path);
    out.append(" HTTP/1.1\r\n");
    let ghost line = out@;
    let mut wrote_host = false;
    let mut wrote_for = false;
    let mut i: usize = 0;
    assert(headers@.subrange(0, 0) =~= Seq::<Header>::empty());
    assert(out@ =~= line + header_lines(Seq::empty()));
    while i < headers.len()
        invariant
            i <= headers@.len(),
            out@ == line + header_lines(kept_headers(headers@.subrange(0, i as int))),
            wrote_host == has_named_header(headers@.subrange(0, i as int), "host"@),
            wrote_for == has_named_header(headers@.subrange(0, i as int), "x-forwarded-for"@),
        decreases headers@.len() - i,
    {
        let h = &headers[i];
        proof {
            lemma_head_step(headers@, i as int, "host"@);
            lemma_head_step(headers@, i as int, "x-forwarded-for"@);
            lemma_hop_excludes(h.name@);
        }
        if !hop_by_hop(h.name.as_str()) {
            if name_is(h.name.as_str(), "host") {
                wrote_host = true;
            }
            if name_is(h.name.as_str(), "x-forwarded-for") {
                wrote_for = true;
            }
            let ghost before = out@;
            push_header_line(&mut out, h.name.as_str(), h.value.as_str());
            proof {
                lemma_append_line(
                    line,
                    kept_headers(headers@.subrange(0, i as int)),
                    header_pair(*h),
                    before,
                    out@,
                );
            }
        }
        i = i + 1;
    }
    assert(headers@.subrange(0, headers@.len() as int) =~= headers@);
    let ghost base = kept_headers(headers@);
    let ghost with_host = if has_named_header(headers@, "host"@) {
        base
    } else {
        base.push(("Host"@, hl))
    };
    let ghost with_for = if has_named_header(headers@, "x-forwarded-for"@) {
        with_host
    } else {
        with_host.push(("X-Forwarded-For"@, "unknown"@))
    };
    if !wrote_host {
        let ghost before = out@;
        push_header_line(&mut out, "Host", host_label.as_str());
        proof {
            lemma_append_line(line, base, ("Host"@, hl), before, out@);
        }
    }
    if !wrote_for {
        let ghost before = out@;
        push_header_line(&mut out, "X-Forwarded-For", "unknown");
        proof {
            lemma_append_line(line, with_host, ("X-Forwarded-For"@, "unknown"@), before, out@);
        }
    }
    let ghost w2 = with_for.push(("X-Forwarded-Proto"@, "http"@));
    let ghost w3 = w2.push(("X-Forwarded-Host"@, hl));
    let ghost w4 = w3.push(("Connection"@, "close"@));
    let ghost before = out@;
    push_header_line(&mut out, "X-Forwarded-Proto", "http");
    proof {
        lemma_append_line(line, with_for, ("X-Forwarded-Proto"@, "http"@), before, out@);
    }
    let ghost before = out@;
    push_header_line(&mut out, "X-Forwarded-Host", host_label.as_str());
    proof {
        lemma_append_line(line, w2, ("X-Forwarded-Host"@, hl), before, out@);
    }
    let ghost before = out@;
    push_header_line(&mut out, "Connection", "close");
    proof {
        lemma_append_line(line, w3, ("Connection"@, "close"@), before, out@);
    }
    out.append("\r\n");
    assert(w4 == forwarded_headers(headers@, hl));
    assert(out@ =~= request_head_text(method@, path@, headers@, *target));
    out
}

/// How many of the lines in `ls` are named `lower` (in any case).
pub open spec fn named_line_count(ls: Seq<(Seq<char>, Seq<char>)>, lower: Seq<char>) -> nat
    decreases ls.len(),
{
    if ls.len() == 0 {
        0
    } else {
        named_line_count(ls.drop_last(), lower) + if same_name(ls.last().0, lower) {
            1nat
        } else {
            0nat
        }
    }
}

/// How many of the headers in `hs` are named `lower` (in any case).
pub open spec fn named_header_count(hs: Seq<Header>, lower: Seq<char>) -> nat
    decreases hs.len(),
{
    if hs.len() == 0 {
        0
    } else {
        named_header_count(hs.drop_last(), lower) + if same_name(hs.last().name@, lower) {
            1nat
        } else {
            0nat
        }
    }
}

proof fn lemma_added_names()
    ensures
        same_name("Host"@, "host"@),
        !same_name("Host"@, "x-forwarded-for"@),
        !is_hop_by_hop("Host"@),
        same_name("X-Forwarded-For"@, "x-forwarded-for"@),
        !same_name("X-Forwarded-For"@, "host"@),
        !is_hop_by_hop("X-Forwarded-For"@),
        !same_name("X-Forwarded-Proto"@, "host"@),
        !same_name("X-Forwarded-Proto"@, "x-forwarded-for"@),
        !is_hop_by_hop("X-Forwarded-Proto"@),
        !same_name("X-Forwarded-Host"@, "host"@),
        !same_name("X-Forwarded-Host"@, "x-forwarded-for"@),
        !is_hop_by_hop("X-Forwarded-Host"@),
        !same_name("Connection"@, "host"@),
        !same_name("Connection"@, "x-forwarded-for"@),
{
    reveal_strlit("host");
    reveal_strlit("x-forwarded-for");
    reveal_strlit("Host");
    reveal_strlit("X-Forwarded-For");
    reveal_strlit("X-Forwarded-Proto");
    reveal_strlit("X-Forwarded-Host");
    reveal_strlit("Connection");
    reveal_strlit("connection");
    reveal_strlit("upgrade");
    reveal_strlit("te");
    reveal_strlit("trailer");
    reveal_strlit("transfer-encoding");
    reveal_strlit("sec-websocket-");
    assert(lower_code("Host"@[0]) != "te"@[0] as u32 as int);
    assert(lower_code("X-Forwarded-Host"@[0]) != "host"@[0] as u32 as int);
    assert(lower_code("Connection"@[0]) != "host"@[0] as u32 as int);
    assert(lower_code("X-Forwarded-For"@[0]) != "transfer-encoding"@[0] as u32 as int);
    assert(lower_code("X-Forwarded-Proto"@[0]) != "transfer-encoding"@[0] as u32 as int);
    assert(lower_code("X-Forwarded-Host"@[0]) != "transfer-encoding"@[0] as u32 as int);
    assert(lower_code("X-Forwarded-For"@.take(14)[0]) != "sec-websocket-"@[0] as u32 as int);
    assert(lower_code("X-Forwarded-Proto"@.take(14)[0]) != "sec-websocket-"@[0] as u32 as int);
    assert(lower_code("X-Forwarded-Host"@.take(14)[0]) != "sec-websocket-"@[0] as u32 as int);
}

proof fn lemma_kept_headers_facts(hs: Seq<Header>, lower: Seq<char>)
    requires
        lower == "host"@ || lower == "x-forwarded-for"@,
    ensures
        named_line_count(kept_headers(hs), lower) == named_header_count(hs, lower),
        has_named_header(hs, lower) <==> named_header_count(hs, lower) > 0,
        forall|i: int|
            0 <= i < kept_headers(hs).len() ==> !is_hop_by_hop(#[trigger] kept_headers(hs)[i].0),
    decreases hs.len(),
{
    if hs.len() > 0 {
        let prev = hs.drop_last();
        lemma_kept_headers_facts(prev, lower);
        lemma_hop_excludes(hs.last().name@);
        let k = kept_headers(prev);
        if !is_hop_by_hop(hs.last().name@) {
            assert(k.push(header_pair(hs.last())).drop_last() =~= k);
        }
        if has_named_header(hs, lower) {
            let j = choose|j: int| 0 <= j < hs.len() && same_name(#[trigger] hs[j].name@, lower);
            if j < hs.len() - 1 {
                assert(prev[j] == hs[j]);
            }
        }
        if has_named_header(prev, lower) {
            let j = choose|j: int| 0 <= j < prev.len() && same_name(#[trigger] prev[j].name@, lower);
            assert(hs[j] == prev[j]);
        }
        if same_name(hs.last().name@, lower) {
            assert(hs[hs.len() - 1] == hs.last());
        }
    }
}

proof fn lemma_forwarded_count(hs: Seq<Header>, host_label: Seq<char>, lower: Seq<char>)
    requires
        lower == "host"@ || lower == "x-forwarded-for"@,
    ensures
        named_line_count(forwarded_headers(hs, host_label), lower) == if named_header_count(
            hs,
            lower,
        ) == 0 {
            1
        } else {
            named_header_count(hs, lower)
        },
{
    lemma_added_names();
    lemma_kept_headers_facts(hs, "host"@);
    lemma_kept_headers_facts(hs, "x-forwarded-for"@);
    let base = kept_headers(hs);
    let with_host = if has_named_header(hs, "host"@) {
        base
    } else {
        base.push(("Host"@, host_label))
    };
    let with_for = if has_named_header(hs, "x-forwarded-for"@) {
        with_host
    } else {
        with_host.push(("X-Forwarded-For"@, "unknown"@))
    };
    let w2 = with_for.push(("X-Forwarded-Proto"@, "http"@));
    let w3 = w2.push(("X-Forwarded-Host"@, host_label));
    let w4 = w3.push(("Connection"@, "close"@));
    assert(base.push(("Host"@, host_label)).drop_last() =~= base);
    assert(with_host.push(("X-Forwarded-For"@, "unknown"@)).drop_last() =~= with_host);
    assert(named_line_count(with_host, lower) == named_line_count(base, lower) + if !has_named_header(
        hs,
        "host"@,
    ) && lower == "host"@ {
        1nat
    } else {
        0nat
    });
    assert(named_line_count(with_for, lower) == named_line_count(with_host, lower) + if !has_named_header(
        hs,
        "x-forwarded-for"@,
    ) && lower == "x-forwarded-for"@ {
        1nat
    } else {
        0nat
    });
    assert(w2.drop_last() =~= with_for);
    assert(named_line_count(w2, lower) == named_line_count(with_for, lower));
    assert(w3.drop_last() =~= w2);
    assert(named_line_count(w3, lower) == named_line_count(w2, lower));
    assert(w4.drop_last() =~= w3);
    assert(named_line_count(w4, lower) == named_line_count(w3, lower));
}

/// The request head never duplicates `Host` or `X-Forwarded-For`: it
/// carries the relay's such headers as they came, and exactly one of its own
/// where the relay sent none.
pub proof fn lemma_forwarded_single_host_and_for(hs: Seq<Header>, host_label: Seq<char>)
    ensures
        named_line_count(forwarded_headers(hs, host_label), "host"@) == if named_header_count(
            hs,
            "host"@,
        ) == 0 {
            1
        } else {
            named_header_count(hs, "host"@)
        },
        named_line_count(forwarded_headers(hs, host_label), "x-forwarded-for"@)
            == if named_header_count(hs, "x-forwarded-for"@) == 0 {
            1
        } else {
            named_header_count(hs, "x-forwarded-for"@)
        },
{
    lemma_forwarded_count(hs, host_label, "host"@);
    lemma_forwarded_count(hs, host_label, "x-forwarded-for"@);
}

/// No hop-by-hop header of the relay reaches the local target: the only
/// such line of the request head is the `Connection: close` that ends it.
pub proof fn lemma_forwarded_drops_hop_by_hop(hs: Seq<Header>, host_label: Seq<char>)
    ensures
        ({
            let f = forwarded_headers(hs, host_label);
            &&& f.last() == ("Connection"@, "close"@)
            &&& forall|i: int| 0 <= i < f.len() - 1 ==> !is_hop_by_hop(#[trigger] f[i].0)
        }),
{
    lemma_added_names();
    lemma_kept_headers_facts(hs, "host"@);
    let f = forwarded_headers(hs, host_label);
    let base = kept_headers(hs);
    assert forall|i: int| 0 <= i < f.len() - 1 implies !is_hop_by_hop(#[trigger] f[i].0) by {
        if i < base.len() {
            assert(f[i] == base[i]);
        }
    }
}

/// Whether the local server gets a relay header of this name: every header
/// but `Connection`, `Upgrade`, `TE`, `Trailer`, `Transfer-Encoding` and
/// `Sec-WebSocket-*`, whatever the case of its name.
pub open spec fn passed_on(name: Seq<char>) -> bool {
    &&& !same_name(name, "connection"@)
    &&& !same_name(name, "upgrade"@)
    &&& !same_name(name, "te"@)
    &&& !same_name(name, "trailer"@)
    &&& !same_name(name, "transfer-encoding"@)
    &&& !(name.len() >= 14 && same_name(name.take(14), "sec-websocket-"@))
}

/// The relay's headers that reach the local server, as `(name, value)`, in
/// the order the relay sent them.
pub open spec fn relay_headers_passed(hs: Seq<Header>) -> Seq<(Seq<char>, Seq<char>)> {
    hs.filter_map(
        |h: Header|
            if passed_on(h.name@) {
                Some((h.name@, h.value@))
            } else {
                None
            },
    )
}

proof fn lemma_kept_is_passed(hs: Seq<Header>)
    ensures
        kept_headers(hs) == relay_headers_passed(hs),
    decreases hs.len(),
{
    reveal_strlit("sec-websocket-");
    if hs.len() > 0 {
        lemma_kept_is_passed(hs.drop_last());
        let name = hs.last().name@;
        assert(is_hop_by_hop(name) == !passed_on(name));
        let prev = kept_headers(hs.drop_last());
        assert(prev.push(header_pair(hs.last())) =~= prev + seq![(name, hs.last().value@)]);
    }
}

proof fn lemma_header_lines_append(a: Seq<(Seq<char>, Seq<char>)>, b: Seq<(Seq<char>, Seq<char>)>)
    ensures
        header_lines(a + b) == header_lines(a) + header_lines(b),
    decreases b.len(),
{
    if b.len() == 0 {
        assert(a + b =~= a);
        assert(header_lines(b) =~= Seq::<char>::empty());
        assert(header_lines(a) + header_lines(b) =~= header_lines(a));
    } else {
        lemma_header_lines_append(a, b.drop_last());
        assert((a + b).drop_last() =~= a + b.drop_last());
        assert((a + b).last() == b.last());
        let l = b.last();
        assert(header_lines(a + b) =~= header_lines(a) + header_lines(b.drop_last()) + l.0 + ": "@
            + l.1 + "\r\n"@);
        assert(header_lines(b) =~= header_lines(b.drop_last()) + l.0 + ": "@ + l.1 + "\r\n"@);
    }
}

/// Every relay header but the hop-by-hop ones is written to the local
/// server unchanged, as its own `name: value` line, in the order the relay
/// sent them: the request head starts with the request line followed by
/// exactly those lines (a `Content-Length` header, for one, is passed on).
pub proof fn lemma_relay_headers_passed_on(
    method: Seq<char>,
    path: Seq<char>,
    hs: Seq<Header>,
    target: LocalTarget,
)
    ensures
        ({
            let label = host_port_text(target.host@, target.port);
            let passed = relay_headers_passed(hs);
            let head = method + " "@ + path + " HTTP/1.1\r\n"@ + header_lines(passed);
            &&& forwarded_headers(hs, label).subrange(0, passed.len() as int) == passed
            &&& request_head_text(method, path, hs, target).subrange(0, head.len() as int) == head
        }),
{
    let label = host_port_text(target.host@, target.port);
    lemma_kept_is_passed(hs);
    let passed = relay_headers_passed(hs);
    let f = forwarded_headers(hs, label);
    let rest = f.subrange(passed.len() as int, f.len() as int);
    assert(f.subrange(0, passed.len() as int) =~= passed);
    assert(f =~= passed + rest);
    lemma_header_lines_append(passed, rest);
    let line = method + " "@ + path + " HTTP/1.1\r\n"@;
    let head = line + header_lines(passed);
    let text = request_head_text(method, path, hs, target);
    assert(text =~= head + (header_lines(rest) + "\r\n"@));
    assert(text.subrange(0, head.len() as int) =~= head);
}

/// After the relay's headers the request head names the target: `Host:
/// host:port` when the relay sent no `Host` (right after the relay's
/// headers), and it always ends with `X-Forwarded-Proto: http`,
/// `X-Forwarded-Host: host:port` and `Connection: close`.
pub proof fn lemma_forwarded_target_lines(hs: Seq<Header>, host_label: Seq<char>)
    ensures
        ({
            let f = forwarded_headers(hs, host_label);
            let n = relay_headers_passed(hs).len() as int;
            &&& f.len() >= n + 3
            &&& f[f.len() - 3] == ("X-Forwarded-Proto"@, "http"@)
            &&& f[f.len() - 2] == ("X-Forwarded-Host"@, host_label)
            &&& f[f.len() - 1] == ("Connection"@, "close"@)
            &&& !has_named_header(hs, "host"@) ==> f[n] == ("Host"@, host_label)
        }),
{
    lemma_kept_is_passed(hs);
}

// ── Response head ────────────────────────────────────────────────────────────
/// Whether `b` holds the blank line `\r\n\r\n` at `i`.
pub open spec fn blank_line_at(b: Seq<u8>, i: int) -> bool {
    0 <= i && i + 4 <= b.len() && b[i] == 13 && b[i + 1] == 10 && b[i + 2] == 13 && b[i + 3]
        == 10
}

/// Scan `buf` for the HTTP header/body delimiter sequence `\r\n\r\n`.
/// Returns the byte index of the first `\r` of the first `\r\n\r\n`, or
/// `None` if the delimiter has not yet been received. (The response reader
/// uses `find_head_end`, which also accepts a `\n\n` boundary.)
pub fn find_header_end(buf: &[u8]) -> (r: Option<usize>)
    ensures
        match r {
            Some(i) => blank_line_at(buf@, i as int) && forall|j: int|
                0 <= j < i ==> !blank_line_at(buf@, j),
            None => forall|j: int| !blank_line_at(buf@, j),
        },
{
    let n = buf.len();
    if n < 4 {
        return None;
    }
    let mut i: usize = 0;
    while i <= n - 4
        invariant
            n == buf@.len(),
            n >= 4,
            i <= n - 3,
            forall|j: int| 0 <= j < i ==> !blank_line_at(buf@, j),
        decreases n - i,
    {
        if buf[i] == 13 && buf[i + 1] == 10 && buf[i + 2] == 13 && buf[i + 3] == 10 {
            return Some(i);
        }
        i = i + 1;
    }
    None
}

/// Whether the first `e` bytes of `b` are a complete response head: they
/// end with the blank line `\r\n\r\n`, or with `\n\n`.
pub open spec fn head_ends_at(b: Seq<u8>, e: int) -> bool {
    ||| (4 <= e <= b.len() && b[e - 4] == 13 && b[e - 3] == 10 && b[e - 2] == 13 && b[e - 1]
        == 10)
    ||| (2 <= e <= b.len() && b[e - 2] == 10 && b[e - 1] == 10)
}

/// The end of the response head in `buf`: the first position after a
/// `\r\n\r\n` or a `\n\n`, or `None` while neither has been received.
pub fn find_head_end(buf: &[u8]) -> (r: Option<usize>)
    ensures
        match r {
            Some(e) => head_ends_at(buf@, e as int) && forall|j: int|
                0 <= j < e ==> !head_ends_at(buf@, j),
            None => forall|j: int| !head_ends_at(buf@, j),
        },
{
    let n = buf.len();
    if n < 2 {
        return None;
    }
    let mut i: usize = 0;
    while i < n - 1
        invariant
            n == buf@.len(),
            n >= 2,
            i <= n - 1,
            forall|j: int| 0 <= j < i + 2 ==> !head_ends_at(buf@, j),
        decreases n - i,
    {
        let e = i + 2;
        if buf[e - 2] == 10 && buf[e - 1] == 10 {
            return Some(e);
        }
        if e >= 4 && buf[e - 4] == 13 && buf[e - 3] == 10 && buf[e - 2] == 13 && buf[e - 1] == 10 {
            return Some(e);
        }
        i = i + 1;
    }
    None
}

/// One step of reading the response head: `chunk` is what the last read
/// returned. An empty chunk means the local server closed the connection
/// before the head was complete. Otherwise the chunk is appended to `raw`;
/// the result is the end of the head (`\r\n\r\n` or `\n\n` included) once
/// it has arrived, or an error once more than `MAX_HEADER_BUF` bytes are
/// buffered without it.
pub fn head_step(raw: &mut Vec<u8>, chunk: &[u8], target: &LocalTarget) -> (r: Result<
    Option<usize>,
    LocalForwardError,
>)
    ensures
        chunk@.len() == 0 ==> final(raw)@ == old(raw)@ && (r matches Err(
            LocalForwardError::StreamEnded(t),
        ) && t@ == host_port_text(target.host@, target.port)),
        chunk@.len() > 0 ==> final(raw)@ == old(raw)@ + chunk@,
        chunk@.len() > 0 ==> match r {
            Ok(Some(end)) => head_ends_at(final(raw)@, end as int) && forall|j: int|
                0 <= j < end ==> !head_ends_at(final(raw)@, j),
            Ok(None) => (forall|j: int| !head_ends_at(final(raw)@, j)) && final(raw)@.len()
                <= MAX_HEADER_BUF,
            Err(e) => (forall|j: int| !head_ends_at(final(raw)@, j)) && final(raw)@.len()
                > MAX_HEADER_BUF && (e matches LocalForwardError::ResponseParse(t, why) && t@
                == host_port_text(target.host@, target.port) && why@
                == "HTTP response headers exceed 8 KiB limit"@),
        },
{
    if chunk.len() == 0 {
        return Err(LocalForwardError::stream_ended(target.host.as_str(), target.port));
    }
    let mut k: usize = 0;
    let ghost start = raw@;
    while k < chunk.len()
        invariant
            k <= chunk@.len(),
            raw@ == start + chunk@.subrange(0, k as int),
        decreases chunk@.len() - k,
    {
        raw.push(chunk[k]);
        k = k + 1;
        assert(raw@ =~= start + chunk@.subrange(0, k as int));
    }
    assert(chunk@.subrange(0, chunk@.len() as int) =~= chunk@);
    match find_head_end(raw.as_slice()) {
        Some(pos) => Ok(Some(pos)),
        None => {
            if raw.len() > MAX_HEADER_BUF {
                Err(
                    LocalForwardError::response_parse(
                        target.host.as_str(),
                        target.port,
                        "HTTP response headers exceed 8 KiB limit",
                    ),
                )
            } else {
                Ok(None)
            }
        },
    }
}

/// A header line as the HTTP parser returns it.
pub struct RawHeader {
    pub name: String,
    pub value: Vec<u8>,
}

/// The outcome of parsing a response head.
pub enum HeadParse {
    /// The head is complete: the status code and the header lines.
    Complete { code: Option<u16>, headers: Vec<RawHeader> },
    /// More bytes are needed.
    Partial,
    /// The bytes are not an HTTP response head: the parser's message.
    Invalid(String),
}

pub open spec fn raw_header_pair(h: RawHeader) -> (Seq<char>, Seq<u8>) {
    (h.name@, h.value@)
}

/// The outcome as plain values: `Ok(Some((code, headers)))` when complete,
/// `Ok(None)` when partial, `Err(message)` when invalid.
pub open spec fn head_parse_view(p: HeadParse) -> Result<
    Option<(Option<u16>, Seq<(Seq<char>, Seq<u8>)>)>,
    Seq<char>,
> {
    match p {
        HeadParse::Complete { code, headers } => Ok(
            Some((code, headers@.map_values(|h: RawHeader| raw_header_pair(h)))),
        ),
        HeadParse::Partial => Ok(None),
        HeadParse::Invalid(m) => Err(m@),
    }
}

/// What `httparse::Response::parse` makes of `bytes` with room for 128
/// headers, as `head_parse_view` lists it.
pub uninterp spec fn http_response_parse(bytes: Seq<u8>) -> Result<
    Option<(Option<u16>, Seq<(Seq<char>, Seq<u8>)>)>,
    Seq<char>,
>;

/// Parses a response head with `httparse::Response::parse`, with room for
/// 128 headers, and keeps the status code and the parsed headers (name and
/// raw value), or the `Display` text of the error. The contract claims only
/// that the outcome is a function of the bytes.
#[verifier::external_body]
fn parse_head_bytes(bytes: &[u8]) -> (r: HeadParse)
    ensures
        head_parse_view(r) == http_response_parse(bytes@),
{
    let mut slots = [httparse::EMPTY_HEADER; 128];
    let mut resp = httparse::Response::new(&mut slots);
    match resp.parse(bytes) {
        Ok(httparse::Status::Complete(_)) => HeadParse::Complete {
            code: resp.code,
            headers: resp.headers.iter().map(
                |h| RawHeader { name: h.name.to_string(), value: h.value.to_vec() },
            ).collect(),
        },
        Ok(httparse::Status::Partial) => HeadParse::Partial,
        Err(e) => HeadParse::Invalid(e.to_string()),
    }
}

/// What `String::from_utf8_lossy` makes of `bytes`.
pub uninterp spec fn utf8_lossy_text(bytes: Seq<u8>) -> Seq<char>;

/// Decodes bytes with `String::from_utf8_lossy`: the text named by
/// `utf8_lossy_text`, which for valid UTF-8 is the decoded text itself.
#[verifier::external_body]
fn utf8_lossy(bytes: &[u8]) -> (s: String)
    ensures
        s@ == utf8_lossy_text(bytes@),
        vstd::utf8::valid_utf8(bytes@) ==> s@ == vstd::utf8::decode_utf8(bytes@),
{
    String::from_utf8_lossy(bytes).into_owned()
}

/// The response headers passed back to the relay: those with a name, the
/// value decoded lossily.
pub open spec fn response_headers(hs: Seq<(Seq<char>, Seq<u8>)>) -> Seq<(Seq<char>, Seq<char>)>
    decreases hs.len(),
{
    if hs.len() == 0 {
        Seq::empty()
    } else if hs.last().0.len() == 0 {
        response_headers(hs.drop_last())
    } else {
        response_headers(hs.drop_last()).push((hs.last().0, utf8_lossy_text(hs.last().1)))
    }
}

/// What a parsed head gives: the status, the headers and the body bytes read
/// past the head, or the reason of the `ResponseParse` error.
pub open spec fn response_head_outcome(
    parsed: Result<Option<(Option<u16>, Seq<(Seq<char>, Seq<u8>)>)>, Seq<char>>,
    raw: Seq<u8>,
    head_end: int,
) -> Result<(u16, Seq<(Seq<char>, Seq<char>)>, Seq<u8>), Seq<char>> {
    match parsed {
        Err(m) => Err("httparse error: "@ + m),
        Ok(None) => Err("incomplete HTTP response headers"@),
        Ok(Some((None, _))) => Err("missing status code in response"@),
        Ok(Some((Some(code), hs))) => Ok(
            (code, response_headers(hs), raw.subrange(head_end, raw.len() as int)),
        ),
    }
}

/// The response headers passed back to the relay: every header the parser
/// found with a non-empty name, in order and duplicates included, its value
/// decoded lossily.
pub open spec fn parsed_headers_passed(hs: Seq<(Seq<char>, Seq<u8>)>) -> Seq<(Seq<char>, Seq<char>)> {
    hs.filter_map(
        |h: (Seq<char>, Seq<u8>)|
            if h.0.len() > 0 {
                Some((h.0, utf8_lossy_text(h.1)))
            } else {
                None
            },
    )
}

proof fn lemma_response_headers_passed(hs: Seq<(Seq<char>, Seq<u8>)>)
    ensures
        response_headers(hs) == parsed_headers_passed(hs),
    decreases hs.len(),
{
    if hs.len() > 0 {
        lemma_response_headers_passed(hs.drop_last());
        let prev = response_headers(hs.drop_last());
        let h = hs.last();
        assert(prev.push((h.0, utf8_lossy_text(h.1))) =~= prev + seq![(h.0, utf8_lossy_text(h.1))]);
    }
}

/// A complete response head with a status gives that status, every header
/// the parser found with a non-empty name (in order, duplicates such as
/// repeated `Set-Cookie` lines included, so their number is the number of
/// such parsed headers), and the bytes read past the head as body.
pub proof fn lemma_complete_head_passes_every_header(
    code: u16,
    hs: Seq<(Seq<char>, Seq<u8>)>,
    raw: Seq<u8>,
    head_end: int,
)
    ensures
        response_head_outcome(Ok(Some((Some(code), hs))), raw, head_end) == Ok::<
            (u16, Seq<(Seq<char>, Seq<char>)>, Seq<u8>),
            Seq<char>,
        >((code, parsed_headers_passed(hs), raw.subrange(head_end, raw.len() as int))),
        parsed_headers_passed(hs).len() == hs.filter(|h: (Seq<char>, Seq<u8>)| h.0.len() > 0).len(),
{
    lemma_response_headers_passed(hs);
    lemma_filter_map_len(hs);
}

proof fn lemma_filter_map_len(hs: Seq<(Seq<char>, Seq<u8>)>)
    ensures
        parsed_headers_passed(hs).len() == hs.filter(|h: (Seq<char>, Seq<u8>)| h.0.len() > 0).len(),
    decreases hs.len(),
{
    reveal(Seq::filter);
    let named = |h: (Seq<char>, Seq<u8>)| h.0.len() > 0;
    if hs.len() > 0 {
        lemma_filter_map_len(hs.drop_last());
        let prev = hs.drop_last().filter(named);
        assert(hs.filter(named) == if named(hs.last()) {
            prev.push(hs.last())
        } else {
            prev
        });
    } else {
        assert(hs.filter(named) =~= hs);
    }
}

/// `r` matches `outcome`, with errors on `target`.
pub open spec fn response_head_is(
    r: Result<(u16, Vec<Header>, Vec<u8>), LocalForwardError>,
    target: LocalTarget,
    outcome: Result<(u16, Seq<(Seq<char>, Seq<char>)>, Seq<u8>), Seq<char>>,
) -> bool {
    match r {
        Ok((code, hs, body)) => outcome == Ok::<
            (u16, Seq<(Seq<char>, Seq<char>)>, Seq<u8>),
            Seq<char>,
        >((code, hs@.map_values(|h: Header| header_pair(h)), body@)),
        Err(e) => e matches LocalForwardError::ResponseParse(t, why) && t@ == host_port_text(
            target.host@,
            target.port,
        ) && outcome == Err::<(u16, Seq<(Seq<char>, Seq<char>)>, Seq<u8>), Seq<char>>(why@),
    }
}

/// Turns the parser's outcome for `raw[..head_end]` into the status,
/// the headers and the body bytes already read.
pub fn response_head_from_parse(
    parsed: HeadParse,
    raw: &[u8],
    head_end: usize,
    target: &LocalTarget,
) -> (r: Result<(u16, Vec<Header>, Vec<u8>), LocalForwardError>)
    requires
        head_end <= raw@.len(),
    ensures
        response_head_is(r, *target, response_head_outcome(head_parse_view(parsed), raw@, head_end as int)),
{
    match parsed {
        HeadParse::Invalid(m) => {
            let why = concat2("httparse error: ", m.as_str());
            Err(LocalForwardError::response_parse(target.host.as_str(), target.port, why.as_str()))
        },
        HeadParse::Partial => Err(
            LocalForwardError::response_parse(
                target.host.as_str(),
                target.port,
                "incomplete HTTP response headers",
            ),
        ),
        HeadParse::Complete { code, headers } => {
            let status = match code {
                Some(c) => c,
                None => {
                    return Err(
                        LocalForwardError::response_parse(
                            target.host.as_str(),
                            target.port,
                            "missing status code in response",
                        ),
                    );
                },
            };
            let ghost raw_pairs = headers@.map_values(|h: RawHeader| raw_header_pair(h));
            let mut out: Vec<Header> = Vec::new();
            let mut i: usize = 0;
            assert(raw_pairs.subrange(0, 0) =~= Seq::<(Seq<char>, Seq<u8>)>::empty());
            while i < headers.len()
                invariant
                    i <= headers@.len(),
                    raw_pairs == headers@.map_values(|h: RawHeader| raw_header_pair(h)),
                    out@.map_values(|h: Header| header_pair(h)) == response_headers(
                        raw_pairs.subrange(0, i as int),
                    ),
                decreases headers@.len() - i,
            {
                let h = &headers[i];
                let ghost prefix = raw_pairs.subrange(0, i as int);
                let ghost next = raw_pairs.subrange(0, i + 1);
                assert(next.drop_last() =~= prefix);
                assert(next.last() == raw_header_pair(*h));
                if !h.name.as_str().is_empty() {
                    let value = utf8_lossy(h.value.as_slice());
                    let ghost before = out@;
                    out.push(Header { name: h.name.clone(), value });
                    assert(out@.map_values(|h: Header| header_pair(h)) =~= before.map_values(
                        |h: Header| header_pair(h),
                    ).push((h.name@, utf8_lossy_text(h.value@))));
                }
                i = i + 1;
            }
            assert(raw_pairs.subrange(0, headers@.len() as int) =~= raw_pairs);
            let mut body: Vec<u8> = Vec::new();
            let total: usize = raw.len();
            let mut k: usize = head_end;
            while k < total
                invariant
                    total == raw@.len(),
                    head_end <= k <= raw@.len(),
                    body@ == raw@.subrange(head_end as int, k as int),
                decreases raw@.len() - k,
            {
                body.push(raw[k]);
                k = k + 1;
                assert(body@ =~= raw@.subrange(head_end as int, k as int));
            }
            Ok((status, out, body))
        },
    }
}

/// Parses the head of the local response held in `raw`, which ends at
/// `head_end`: the status code, the headers, and the bytes of the body that
/// were read along with the head.
pub fn parse_response_head(raw: &[u8], head_end: usize, target: &LocalTarget) -> (r: Result<
    (u16, Vec<Header>, Vec<u8>),
    LocalForwardError,
>)
    requires
        head_end <= raw@.len(),
    ensures
        response_head_is(
            r,
            *target,
            response_head_outcome(
                http_response_parse(raw@.subrange(0, head_end as int)),
                raw@,
                head_end as int,
            ),
        ),
{
    let head = vstd::slice::slice_subrange(raw, 0, head_end);
    let parsed = parse_head_bytes(head);
    response_head_from_parse(parsed, raw, head_end, target)
}

// ── Stream decisions ─────────────────────────────────────────────────────────
/// What the forwarding task does with the next message while it writes the
/// request body.
pub enum BodyStep {
    /// Write these bytes to the local target.
    Write(Vec<u8>),
    /// The body is complete: close the write half and read the response.
    Finish,
    /// The relay cancelled the stream: stop without a response.
    Abort,
    /// Not a body message: ignore it.
    Skip,
}

/// Decides the body-phase step for the next stream message (`None` when the
/// stream's channel is closed).
pub fn body_step(msg: Option<StreamMessage>) -> (s: BodyStep)
    ensures
        match msg {
            Some(StreamMessage::Payload(Payload::RequestChunk { data, .. })) => s matches BodyStep::Write(
                d,
            ) && d@ == data@,
            Some(StreamMessage::Payload(Payload::RequestEnd { .. })) => s is Finish,
            Some(StreamMessage::Payload(Payload::StreamReset { .. })) => s is Abort,
            Some(StreamMessage::Cancel) => s is Abort,
            None => s is Abort,
            _ => s is Skip,
        },
{
    match msg {
        Some(StreamMessage::Payload(Payload::RequestChunk { data, .. })) => BodyStep::Write(data),
        Some(StreamMessage::Payload(Payload::RequestEnd { .. })) => BodyStep::Finish,
        Some(StreamMessage::Payload(Payload::StreamReset { .. })) => BodyStep::Abort,
        Some(StreamMessage::Cancel) => BodyStep::Abort,
        None => BodyStep::Abort,
        _ => BodyStep::Skip,
    }
}

/// Whether a message seen while the response body streams stops the stream.
pub fn stops_response(msg: &StreamMessage) -> (b: bool)
    ensures
        b == (*msg is Cancel || (*msg matches StreamMessage::Payload(
            Payload::StreamReset { .. },
        ))),
{
    match msg {
        StreamMessage::Cancel => true,
        StreamMessage::Payload(Payload::StreamReset { .. }) => true,
        _ => false,
    }
}

/// The code and message of the `ResponseError` sent for a failed stream.
pub open spec fn error_response_parts(e: LocalForwardError) -> (ResponseErrorCode, Seq<char>) {
    match e {
        LocalForwardError::TargetConnectionRefused(t) => (
            ResponseErrorCode::TargetConnectionRefused,
            "Connection refused to "@ + t@ + " — is your local server running?"@,
        ),
        _ => (ResponseErrorCode::LocalIoError, crate::error::forward_error_text(e)),
    }
}

/// The one `ResponseError` message sent to the relay when forwarding a stream
/// failed, so that the relay can answer with a 502.
pub fn error_response(stream_id: u64, e: &LocalForwardError) -> (m: Message)
    ensures
        m.version == crate::protocol::PROTOCOL_VERSION,
        m.payload matches Payload::ResponseError { stream_id: id, code, message } && id
            == stream_id && (code, message@) == error_response_parts(*e),
{
    let (code, message) = match e {
        LocalForwardError::TargetConnectionRefused(t) => (
            ResponseErrorCode::TargetConnectionRefused,
            concat3("Connection refused to ", t.as_str(), " — is your local server running?"),
        ),
        _ => (ResponseErrorCode::LocalIoError, e.message()),
    };
    Message::new(Payload::ResponseError { stream_id, code, message })
}

/// The messages that open the response: `ResponseStart`, then the body bytes
/// read with the head as a `ResponseChunk` when there are any.
pub fn response_opening(
    stream_id: u64,
    status_code: u16,
    headers: Vec<Header>,
    leftover_body: Vec<u8>,
) -> (ms: Vec<Message>)
    ensures
        ms@.len() == (if leftover_body@.len() > 0 {
            2int
        } else {
            1int
        }),
        ms@[0] == Message::new_spec(
            Payload::ResponseStart { stream_id, status_code, headers },
        ),
        leftover_body@.len() > 0 ==> ms@[1] == Message::new_spec(
            Payload::ResponseChunk { stream_id, data: leftover_body },
        ),
{
    let mut ms: Vec<Message> = Vec::new();
    let has_body = leftover_body.len() > 0;
    ms.push(Message::new(Payload::ResponseStart { stream_id, status_code, headers }));
    if has_body {
        ms.push(Message::new(Payload::ResponseChunk { stream_id, data: leftover_body }));
    }
    ms
}

} // verus!
