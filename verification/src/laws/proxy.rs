//! Laws of proxies: which one is used, and how a handshake is read.
use crate::laws::text::{
    law_decimal_reads_back, law_line_after_line, law_number_round_trips, law_prefix_and_rest,
};
use crate::proxy::{
    boundary_at, connect_step, connect_text, endpoint, failure_text, first_line, first_proxy,
    header_end, is_header_end, is_ok_line, lossy_text, proxy_of, request_port, variable_names,
    verdict, ConnectView, UnsupportedUrlScheme, RESPONSE_LIMIT,
};
use crate::text::{
    begins_with, decimal, is_digit, last_index, lines, occurs_at, trim_end, unsigned_value,
};
use vstd::prelude::*;

verus! {

/// A proxy may be written with the scheme `http://`, with `https://`, or without one.
pub proof fn law_scheme_is_optional(value: Seq<char>)
    requires
        value.len() > 0,
        !begins_with(value, "http://"@),
        !begins_with(value, "https://"@),
        !begins_with(value, "socks"@),
    ensures
        proxy_of("http://"@ + value) == proxy_of(value),
        proxy_of("https://"@ + value) == proxy_of(value),
{
    let full = "http://"@ + value;
    assert(full.take("http://"@.len() as int) =~= "http://"@);
    assert(full.skip("http://"@.len() as int) =~= value);
    let secure = "https://"@ + value;
    assert(secure.take("https://"@.len() as int) =~= "https://"@);
    assert(secure.skip("https://"@.len() as int) =~= value);
    reveal_strlit("http://");
    reveal_strlit("https://");
    assert("http://"@[4] == ':');
    assert(secure[4] == 's');
    if begins_with(secure, "http://"@) {
        assert(secure.take(7)[4] == secure[4]);
    }
}

/// Behind either scheme any address names the same proxy.
pub proof fn law_schemes_are_alike(address: Seq<char>)
    ensures
        proxy_of("https://"@ + address) == proxy_of("http://"@ + address),
        proxy_of("http://"@ + address) is Some,
{
    reveal_strlit("http://");
    reveal_strlit("https://");
    law_prefix_and_rest("http://"@ + address, "http://"@, address);
    law_prefix_and_rest("https://"@ + address, "https://"@, address);
    let secure = "https://"@ + address;
    assert(secure[4] == 's');
    if begins_with(secure, "http://"@) {
        assert(secure.take(7)[4] == secure[4]);
        assert("http://"@[4] == ':');
    }
}

/// A number of slashes.
pub open spec fn slashes(n: nat) -> Seq<char> {
    Seq::new(n, |i: int| '/')
}

proof fn lemma_trim_slashes(text: Seq<char>, n: nat)
    ensures
        trim_end(text + slashes(n), '/') == trim_end(text, '/'),
    decreases n,
{
    if n == 0 {
        assert(text + slashes(n) =~= text);
    } else {
        assert((text + slashes(n)).drop_last() =~= text + slashes((n - 1) as nat));
        lemma_trim_slashes(text, (n - 1) as nat);
    }
}

proof fn lemma_prefix_with_slashes(value: Seq<char>, n: nat, prefix: Seq<char>)
    requires
        begins_with(value, prefix),
    ensures
        begins_with(value + slashes(n), prefix),
        (value + slashes(n)).skip(prefix.len() as int) == value.skip(prefix.len() as int)
            + slashes(n),
{
    let full = value + slashes(n);
    assert(full.take(prefix.len() as int) =~= value.take(prefix.len() as int));
    assert(full.skip(prefix.len() as int) =~= value.skip(prefix.len() as int) + slashes(n));
}

/// Slashes at the end of a proxy's address do not count, unless they complete a scheme, as two
/// slashes do behind `http:`.
pub proof fn law_trailing_slashes_do_not_count(value: Seq<char>, n: nat)
    requires
        value.len() > 0,
        begins_with(value + slashes(n), "http://"@) ==> begins_with(value, "http://"@),
        begins_with(value + slashes(n), "https://"@) ==> begins_with(value, "https://"@),
    ensures
        proxy_of(value + slashes(n)) == proxy_of(value),
{
    let full = value + slashes(n);
    if begins_with(value, "http://"@) {
        lemma_prefix_with_slashes(value, n, "http://"@);
        lemma_trim_slashes(value.skip("http://"@.len() as int), n);
    } else if begins_with(value, "https://"@) {
        lemma_prefix_with_slashes(value, n, "https://"@);
        lemma_trim_slashes(value.skip("https://"@.len() as int), n);
    } else {
        lemma_trim_slashes(value, n);
        reveal_strlit("socks");
        if begins_with(value, "socks"@) {
            lemma_prefix_with_slashes(value, n, "socks"@);
        } else if begins_with(full, "socks"@) {
            if value.len() < 5 {
                assert(full.take(5)[value.len() as int] == '/');
            } else {
                assert(full.take(5) =~= value.take(5));
            }
        }
    }
}

/// Text without a character leaves its last place where it was.
proof fn lemma_last_index_before(text: Seq<char>, tail: Seq<char>, c: char)
    requires
        forall|i: int| 0 <= i < tail.len() ==> tail[i] != c,
    ensures
        last_index(text + tail, c) == last_index(text, c),
    decreases tail.len(),
{
    if tail.len() == 0 {
        assert(text + tail =~= text);
    } else {
        assert((text + tail).drop_last() =~= text + tail.drop_last());
        assert((text + tail).last() == tail.last());
        lemma_last_index_before(text, tail.drop_last(), c);
    }
}

/// A proxy's address that was written as `http://host:port` is read as that host and port,
/// whatever the host.
pub proof fn law_address_reads_back(host: Seq<char>, port: u16)
    ensures
        proxy_of("http://"@ + endpoint(host, port)) == Some((host, port)),
{
    reveal_strlit(":");
    law_decimal_reads_back(port as nat);
    law_number_round_trips(port as nat, u16::MAX as nat);
    let digits = decimal(port as nat);
    let text = endpoint(host, port);
    let full = "http://"@ + text;
    assert(full.take("http://"@.len() as int) =~= "http://"@);
    assert(full.skip("http://"@.len() as int) =~= text);
    reveal_strlit("http://");
    assert(full.len() > 0);
    assert(text.last() == digits.last());
    assert(is_digit(digits[digits.len() - 1]));
    assert(trim_end(text, '/') == text);
    let front = host + ":"@;
    assert forall|i: int| 0 <= i < digits.len() implies digits[i] != ':' by {
        assert(is_digit(digits[i]));
    }
    lemma_last_index_before(front, digits, ':');
    assert(front.last() == ':');
    assert(text.take(host.len() as int) =~= host);
    assert(text.skip(host.len() as int + 1) =~= digits);
}

/// Every value but an empty one and a SOCKS address names a proxy.
pub proof fn law_usable_values(value: Seq<char>)
    ensures
        proxy_of(value) is None <==> value.len() == 0 || begins_with(value, "socks"@),
{
    reveal_strlit("http://");
    reveal_strlit("https://");
    reveal_strlit("socks");
    if begins_with(value, "socks"@) {
        assert(value.take(5)[0] == 's');
        assert(value[0] == 's');
        if begins_with(value, "http://"@) {
            assert(value.take(7)[0] == 'h');
        }
        if begins_with(value, "https://"@) {
            assert(value.take(8)[0] == 'h');
        }
    }
}

/// The value names no proxy.
pub open spec fn unusable(value: Option<Seq<char>>) -> bool {
    value matches Some(text) ==> proxy_of(text) is None
}

/// The first variable with a usable value decides, whatever the later ones hold.
pub proof fn law_first_usable_value_decides(values: Seq<Option<Seq<char>>>, at: int)
    requires
        0 <= at < values.len(),
        !unusable(values[at]),
        forall|i: int| 0 <= i < at ==> unusable(#[trigger] values[i]),
    ensures
        first_proxy(values) == proxy_of(values[at]->0),
    decreases at,
{
    if at > 0 {
        assert(unusable(values[0]));
        let rest = values.skip(1);
        assert forall|i: int| 0 <= i < at - 1 implies unusable(#[trigger] rest[i]) by {
            assert(rest[i] == values[i + 1]);
        }
        law_first_usable_value_decides(rest, at - 1);
    }
}

/// Without a usable value there is no proxy.
pub proof fn law_no_usable_value_no_proxy(values: Seq<Option<Seq<char>>>)
    requires
        forall|i: int| 0 <= i < values.len() ==> unusable(#[trigger] values[i]),
    ensures
        first_proxy(values) is None,
    decreases values.len(),
{
    if values.len() > 0 {
        assert(unusable(values[0]));
        let rest = values.skip(1);
        assert forall|i: int| 0 <= i < rest.len() implies unusable(#[trigger] rest[i]) by {
            assert(rest[i] == values[i + 1]);
        }
        law_no_usable_value_no_proxy(rest);
    }
}

/// Bytes behind the end of the headers do not move it.
pub proof fn law_header_end_is_stable(buf: Seq<u8>, more: Seq<u8>)
    requires
        header_end(buf) is Some,
    ensures
        header_end(buf + more) == header_end(buf),
{
    let end = header_end(buf)->0;
    assert(is_header_end(buf, end));
    let all = buf + more;
    assert(boundary_at(all, end - 4));
    assert forall|at: int| at < end - 4 implies !boundary_at(all, at) by {
        if boundary_at(all, at) {
            assert(boundary_at(buf, at));
        }
    }
    assert(is_header_end(all, end));
    let other = header_end(all)->0;
    assert(is_header_end(all, other));
    assert(boundary_at(all, other - 4));
    assert(!(other < end) && !(end < other));
}

/// How the response is cut into pieces does not matter: two pieces in a row lead to what both at
/// once lead to.
pub proof fn law_pieces_do_not_matter(received: Seq<u8>, first: Seq<u8>, second: Seq<u8>)
    requires
        first.len() > 0,
        second.len() > 0,
    ensures
        header_end(received + first) is None ==> connect_step(received + first, second)
            == connect_step(received, first + second),
        header_end(received + first) is Some ==> connect_step(received, first + second)
            == connect_step(received, first),
{
    let all = received + first + second;
    assert(all =~= received + (first + second));
    if header_end(received + first) is Some {
        law_header_end_is_stable(received + first, second);
        let end = header_end(received + first)->0;
        assert(is_header_end(received + first, end));
        assert(all.take(end) =~= (received + first).take(end));
    }
}

/// What the pieces of a response amount to, read one by one until something is decided.
pub open spec fn steps(received: Seq<u8>, pieces: Seq<Seq<u8>>) -> ConnectView
    decreases pieces.len(),
{
    if pieces.len() == 0 {
        ConnectView::ReadMore
    } else {
        let step = connect_step(received, pieces[0]);
        if step == ConnectView::ReadMore {
            steps(received + pieces[0], pieces.drop_first())
        } else {
            step
        }
    }
}

/// A response that fits leads to the same however it is cut into pieces.
pub proof fn law_any_split_will_do(received: Seq<u8>, pieces: Seq<Seq<u8>>)
    requires
        pieces.len() > 0,
        forall|i: int| 0 <= i < pieces.len() ==> (#[trigger] pieces[i]).len() > 0,
        (received + pieces.flatten()).len() <= RESPONSE_LIMIT,
    ensures
        steps(received, pieces) == connect_step(received, pieces.flatten()),
    decreases pieces.len(),
{
    let first = pieces[0];
    let later = pieces.drop_first();
    let rest = later.flatten();
    assert(pieces.flatten() == first + rest);
    if later.len() == 0 {
        assert(first + rest =~= first);
        assert(steps(received + first, later) == ConnectView::ReadMore);
    } else {
        assert(later[0] == pieces[1]);
        assert(rest == later[0] + later.drop_first().flatten());
        assert forall|i: int| 0 <= i < later.len() implies (#[trigger] later[i]).len() > 0 by {
            assert(later[i] == pieces[i + 1]);
        }
        law_pieces_do_not_matter(received, first, rest);
        if header_end(received + first) is None {
            assert(received + first + rest =~= received + (first + rest));
            law_any_split_will_do(received + first, later);
        }
    }
}

/// What follows the last colon of an address is its port where it is a number up to 65535, with
/// what is before the colon as the host; else all of it is the host, and the port is 1080.
pub proof fn law_last_colon_parts_host_and_port(host: Seq<char>, tail: Seq<char>)
    requires
        forall|i: int| 0 <= i < tail.len() ==> tail[i] != ':',
        tail.len() > 0 ==> tail.last() != '/',
    ensures
        proxy_of("http://"@ + (host + seq![':'] + tail)) == (match unsigned_value(tail, 65535) {
            Some(port) => Some((host, port as u16)),
            None => Some((host + seq![':'] + tail, 1080u16)),
        }),
{
    let text = host + seq![':'] + tail;
    law_prefix_and_rest("http://"@ + text, "http://"@, text);
    reveal_strlit("http://");
    assert(trim_end(text, '/') == text);
    let front = host + seq![':'];
    lemma_last_index_before(front, tail, ':');
    assert(front.last() == ':');
    assert(text.take(host.len() as int) =~= host);
    assert(text.skip(host.len() as int + 1) =~= tail);
}

/// An address without a colon is a host with the port 1080.
pub proof fn law_host_alone_has_the_default_port(host: Seq<char>)
    requires
        forall|i: int| 0 <= i < host.len() ==> host[i] != ':',
        host.len() > 0 ==> host.last() != '/',
    ensures
        proxy_of("http://"@ + host) == Some((host, 1080u16)),
{
    law_prefix_and_rest("http://"@ + host, "http://"@, host);
    reveal_strlit("http://");
    assert(trim_end(host, '/') == host);
    lemma_last_index_before(Seq::empty(), host, ':');
    assert(Seq::<char>::empty() + host =~= host);
}

/// Six variables can name a proxy, those for HTTPS before those for HTTP before those for all,
/// and of each two the one in capitals first.
pub proof fn law_order_of_variables()
    ensures
        variable_names().len() == 6,
        variable_names()[0] == "HTTPS_PROXY"@,
        variable_names()[1] == "https_proxy"@,
        variable_names()[2] == "HTTP_PROXY"@,
        variable_names()[3] == "http_proxy"@,
        variable_names()[4] == "ALL_PROXY"@,
        variable_names()[5] == "all_proxy"@,
{
}

/// A host and a port are written with a colon between them, the port in decimal digits.
pub proof fn law_endpoint_is_host_and_port(host: Seq<char>, port: u16)
    ensures
        endpoint(host, port).take(host.len() as int) == host,
        endpoint(host, port)[host.len() as int] == ':',
        unsigned_value(endpoint(host, port).skip(host.len() as int + 1), 65535) == Some(
            port as nat,
        ),
        endpoint(host, port).skip(host.len() as int + 1) == decimal(port as nat),
{
    reveal_strlit(":");
    law_number_round_trips(port as nat, 65535);
    assert(endpoint(host, port).take(host.len() as int) =~= host);
    assert(endpoint(host, port).skip(host.len() as int + 1) =~= decimal(port as nat));
}

/// No two hosts and ports are written alike.
pub proof fn law_endpoints_differ(host1: Seq<char>, port1: u16, host2: Seq<char>, port2: u16)
    requires
        endpoint(host1, port1) == endpoint(host2, port2),
    ensures
        host1 == host2,
        port1 == port2,
{
    law_address_reads_back(host1, port1);
    law_address_reads_back(host2, port2);
}

/// The request for a tunnel begins with its method, the host, a colon, the decimal digits of the
/// port and the protocol; a header names the same host and port, and an empty line ends it.
pub proof fn law_request_names_its_target(host: Seq<char>, port: u16)
    ensures
        ({
            let target = host + seq![':'] + decimal(port as nat);
            connect_text(host, port) == "CONNECT "@ + target + " HTTP/1.1"@ + seq!['\r', '\n']
                + "Host: "@ + target + seq!['\r', '\n', '\r', '\n']
        }),
{
    let target = host + seq![':'] + decimal(port as nat);
    reveal_strlit(":");
    reveal_strlit(" HTTP/1.1\r\nHost: ");
    reveal_strlit(" HTTP/1.1");
    reveal_strlit("Host: ");
    reveal_strlit("\r\n\r\n");
    assert(":"@ =~= seq![':']);
    assert("\r\n\r\n"@ =~= seq!['\r', '\n', '\r', '\n']);
    assert(" HTTP/1.1\r\nHost: "@ =~= " HTTP/1.1"@ + seq!['\r', '\n'] + "Host: "@);
    assert(connect_text(host, port) =~= "CONNECT "@ + target + " HTTP/1.1"@ + seq!['\r', '\n']
        + "Host: "@ + target + seq!['\r', '\n', '\r', '\n']);
}

/// The port is read back from the request line: what stands between the host with its colon and
/// the next space.
pub proof fn law_port_is_read_back(host: Seq<char>, port: u16, end: int)
    requires
        host.len() + 9 <= end < connect_text(host, port).len(),
        connect_text(host, port)[end] == ' ',
        forall|i: int| host.len() + 9 <= i < end ==> connect_text(host, port)[i] != ' ',
    ensures
        begins_with(connect_text(host, port), "CONNECT "@ + host + seq![':']),
        unsigned_value(connect_text(host, port).subrange(host.len() as int + 9, end), 65535)
            == Some(port as nat),
{
    law_request_names_its_target(host, port);
    law_number_round_trips(port as nat, 65535);
    law_decimal_reads_back(port as nat);
    reveal_strlit("CONNECT ");
    reveal_strlit(" HTTP/1.1");
    assert("CONNECT "@.len() == 8);
    let text = connect_text(host, port);
    let digits = decimal(port as nat);
    let from = host.len() as int + 9;
    let front = "CONNECT "@ + host + seq![':'];
    assert(front.len() == from);
    assert(text.take(from) =~= front);
    assert forall|i: int| 0 <= i < digits.len() implies text[from + i] == #[trigger] digits[i] by {}
    let stop = from + digits.len();
    assert(text[stop] == ' ');
    if end < stop {
        assert(is_digit(digits[end - from]));
    }
    assert(end == stop);
    assert(text.subrange(from, end) =~= digits);
}

/// Requests for different targets differ.
pub proof fn law_requests_differ(host1: Seq<char>, port1: u16, host2: Seq<char>, port2: u16)
    requires
        connect_text(host1, port1) == connect_text(host2, port2),
    ensures
        host1 == host2,
        port1 == port2,
{
    law_request_names_its_target(host1, port1);
    law_request_names_its_target(host2, port2);
    let one = host1 + seq![':'] + decimal(port1 as nat);
    let two = host2 + seq![':'] + decimal(port2 as nat);
    let text = connect_text(host1, port1);
    let fixed = "CONNECT "@.len() + " HTTP/1.1"@.len() + 2 + "Host: "@.len() + 4;
    assert(text.len() == fixed + one.len() + one.len());
    assert(text.len() == fixed + two.len() + two.len());
    let from = "CONNECT "@.len() as int;
    assert(text.subrange(from, from + one.len()) =~= one);
    assert(text.subrange(from, from + two.len()) =~= two);
    reveal_strlit(":");
    assert(":"@ =~= seq![':']);
    law_endpoints_differ(host1, port1, host2, port2);
}

/// Headers end right behind the first place of the bytes 13, 10, 13 and 10, and nowhere else.
pub proof fn law_headers_end_at_the_empty_line(buf: Seq<u8>, end: int)
    ensures
        header_end(buf) == Some(end) <==> {
            &&& 4 <= end <= buf.len()
            &&& buf.subrange(end - 4, end) == seq![13u8, 10u8, 13u8, 10u8]
            &&& forall|at: int|
                0 <= at < end - 4 ==> #[trigger] buf.subrange(at, at + 4) != seq![
                    13u8,
                    10u8,
                    13u8,
                    10u8,
                ]
        },
        header_end(buf) is None <==> forall|at: int|
            0 <= at <= buf.len() - 4 ==> #[trigger] buf.subrange(at, at + 4) != seq![
                13u8,
                10u8,
                13u8,
                10u8,
            ],
{
    let mark = seq![13u8, 10u8, 13u8, 10u8];
    assert forall|at: int| 0 <= at <= buf.len() - 4 implies (boundary_at(buf, at)
        <==> #[trigger] buf.subrange(at, at + 4) == mark) by {
        let part = buf.subrange(at, at + 4);
        assert(part[0] == buf[at] && part[1] == buf[at + 1] && part[2] == buf[at + 2] && part[3]
            == buf[at + 3]);
        if boundary_at(buf, at) {
            assert(part =~= mark);
        }
    }
    if exists|at: int| boundary_at(buf, at) {
        let at = choose|at: int| boundary_at(buf, at);
        lemma_has_header_end(buf, at);
        assert(buf.subrange(at, at + 4) == mark);
    }
    if header_end(buf) is Some {
        let found = header_end(buf)->0;
        assert(is_header_end(buf, found));
        assert(buf.subrange(found - 4, found - 4 + 4) == mark);
        assert forall|at: int| 0 <= at < found - 4 implies #[trigger] buf.subrange(at, at + 4)
            != mark by {
            assert(!boundary_at(buf, at));
        }
        if 4 <= end <= buf.len() && buf.subrange(end - 4, end) == mark && forall|at: int|
            0 <= at < end - 4 ==> #[trigger] buf.subrange(at, at + 4) != mark {
            assert(buf.subrange(end - 4, end - 4 + 4) == mark);
            assert(boundary_at(buf, end - 4));
            assert(!(found < end) && !(end < found));
        }
    } else {
        assert forall|at: int| 0 <= at <= buf.len() - 4 implies #[trigger] buf.subrange(
            at,
            at + 4,
        ) != mark by {
            assert(!boundary_at(buf, at));
        }
        if 4 <= end <= buf.len() {
            assert(buf.subrange(end - 4, end - 4 + 4) != mark);
        }
    }
}

proof fn lemma_has_header_end(buf: Seq<u8>, at: int)
    requires
        boundary_at(buf, at),
    ensures
        exists|end: int| is_header_end(buf, end),
    decreases at,
{
    if exists|sooner: int| sooner < at && boundary_at(buf, sooner) {
        lemma_has_header_end(buf, choose|sooner: int| sooner < at && boundary_at(buf, sooner));
    } else {
        assert(is_header_end(buf, at + 4));
    }
}

/// The first line of response headers stands before their first line ending.
pub proof fn law_first_line_comes_first(line: Seq<char>, rest: Seq<char>)
    requires
        forall|i: int| 0 <= i < line.len() ==> line[i] != '\n',
    ensures
        first_line(line + seq!['\r', '\n'] + rest) == line,
        first_line(line) == line,
{
    law_line_after_line(line, rest);
    assert((seq![line] + lines(rest))[0] == line);
    if line.len() == 0 {
        assert(line =~= Seq::empty());
        reveal_strlit("");
        assert(first_line(line) =~= line);
    }
}

/// A tunnel stands where the first line is `HTTP/1.` with one more character, a space, `200`, and
/// nothing or a reason behind another space, whatever the other headers hold.
pub proof fn law_ok_line_establishes(version: char, reason: Seq<char>, rest: Seq<char>)
    requires
        version != '\n',
        forall|i: int| 0 <= i < reason.len() ==> reason[i] != '\n',
        reason.len() > 0 ==> reason[0] == ' ',
    ensures
        verdict("HTTP/1."@ + seq![version] + " 200"@ + reason + seq!['\r', '\n'] + rest)
            == ConnectView::Established,
{
    let line = "HTTP/1."@ + seq![version] + " 200"@ + reason;
    reveal_strlit("HTTP/1.");
    reveal_strlit(" 200");
    reveal_strlit("200");
    assert("HTTP/1."@.len() == 7);
    assert(" 200"@.len() == 4);
    assert forall|i: int| 0 <= i < line.len() implies line[i] != '\n' by {
        if i < 7 {
            assert(line[i] == "HTTP/1."@[i]);
        } else if i > 7 && i < 12 {
            assert(line[i] == " 200"@[i - 8]);
        }
    }
    law_first_line_comes_first(line, rest);
    assert(line.take(7) =~= "HTTP/1."@);
    assert(line[8] == " 200"@[0]);
    assert(line.subrange(9, 12) =~= "200"@);
    if line.len() > 12 {
        assert(line[12] == reason[0]);
    }
}

/// Whatever else stands in the first line, the tunnel is refused with that very line.
pub proof fn law_any_other_line_rejects(line: Seq<char>, rest: Seq<char>)
    requires
        forall|i: int| 0 <= i < line.len() ==> line[i] != '\n',
        !exists|version: char, reason: Seq<char>|
            line == #[trigger] ("HTTP/1."@ + seq![version] + " 200"@ + reason) && (reason.len() == 0
                || reason[0] == ' '),
    ensures
        verdict(line + seq!['\r', '\n'] + rest) == ConnectView::Rejected(line),
{
    law_first_line_comes_first(line, rest);
    if is_ok_line(line) {
        reveal_strlit("HTTP/1.");
        reveal_strlit(" 200");
        reveal_strlit("200");
        assert("HTTP/1."@.len() == 7);
        let version = line[7];
        let reason = line.skip(12);
        assert(" 200"@ =~= seq![' '] + "200"@);
        assert(line.subrange(9, 12) == "200"@);
        let whole = "HTTP/1."@ + seq![version] + " 200"@ + reason;
        assert forall|i: int| 0 <= i < line.len() implies line[i] == whole[i] by {
            if i < 7 {
                assert(line.take(7)[i] == line[i]);
            } else if 9 <= i < 12 {
                assert(line.subrange(9, 12)[i - 9] == line[i]);
            }
        }
        assert(line =~= whole);
        assert(reason.len() == 0 || reason[0] == ' ');
    }
}

/// A closed connection fails; complete headers are judged by their own text alone; others are
/// read on until 4096 bytes have come.
pub proof fn law_response_is_read_until_decided(received: Seq<u8>, chunk: Seq<u8>, end: int)
    ensures
        chunk.len() == 0 ==> connect_step(received, chunk) == ConnectView::Closed,
        chunk.len() > 0 && header_end(received + chunk) == Some(end) ==> connect_step(
            received,
            chunk,
        ) == verdict(lossy_text((received + chunk).take(end))),
        chunk.len() > 0 && header_end(received + chunk) is None && received.len() + chunk.len()
            < 4096 ==> connect_step(received, chunk) == ConnectView::ReadMore,
        chunk.len() > 0 && header_end(received + chunk) is None && received.len() + chunk.len()
            >= 4096 ==> connect_step(received, chunk) == ConnectView::TooLarge,
{
}

/// Each failure has its own text; a refusal quotes the proxy's line.
pub proof fn law_failures_are_told_apart(line: Seq<char>)
    ensures
        failure_text(ConnectView::Closed)
            == "proxy closed connection before completing CONNECT handshake"@,
        failure_text(ConnectView::TooLarge) == "HTTP CONNECT response too large"@,
        failure_text(ConnectView::Rejected(line)) == "HTTP CONNECT proxy rejected: "@ + line,
{
}

/// A request goes to the port that is named, whatever the scheme; without one, to 443 for `wss`
/// and to 80 for `ws`. No other scheme has a port.
pub proof fn law_port_of_a_request(port: u16, scheme: Option<Seq<char>>)
    ensures
        request_port(Some(port), scheme) == Ok::<u16, UnsupportedUrlScheme>(port),
        request_port(None, Some("wss"@)) == Ok::<u16, UnsupportedUrlScheme>(443),
        request_port(None, Some("ws"@)) == Ok::<u16, UnsupportedUrlScheme>(80),
        scheme != Some("wss"@) && scheme != Some("ws"@) ==> request_port(None, scheme) is Err,
{
    reveal_strlit("wss");
    reveal_strlit("ws");
    assert("wss"@.len() != "ws"@.len());
}

} // verus!
