//! Connections through an HTTP proxy: which proxy the environment names, the CONNECT handshake,
//! and the port that a request goes to.
use crate::json::optional_text;
use crate::text::{
    after_prefix, begins_with, characters, decimal, decimal_text, last_index, lines, occurs_at,
    parse_unsigned, same_text, split_last, strip_prefix, text_lines, trim_end, trim_end_of,
    unsigned_value,
};
use vstd::prelude::*;
use vstd::string::StringExecFns;
use vstd::utf8::{decode_utf8, valid_utf8};

verus! {

/// The port of a proxy whose address names none.
pub const DEFAULT_PROXY_PORT: u16 = 1080;

/// The most bytes that a proxy's response headers may take.
pub const RESPONSE_LIMIT: usize = 4096;

/// The names of the environment variables that can name a proxy, in the order in which they are
/// consulted.
pub open spec fn variable_names() -> Seq<Seq<char>> {
    seq![
        "HTTPS_PROXY"@,
        "https_proxy"@,
        "HTTP_PROXY"@,
        "http_proxy"@,
        "ALL_PROXY"@,
        "all_proxy"@,
    ]
}

/// The names of the environment variables that can name a proxy, in the order in which they are
/// consulted.
pub fn proxy_variables() -> (r: Vec<&'static str>)
    ensures
        r@.map_values(|s: &str| s@) == variable_names(),
{
    let r: Vec<&'static str> = vec![
        "HTTPS_PROXY",
        "https_proxy",
        "HTTP_PROXY",
        "http_proxy",
        "ALL_PROXY",
        "all_proxy",
    ];
    assert(r@.map_values(|s: &str| s@) =~= variable_names());
    r
}

/// The host and port that an authority names. Slashes at its end do not count. What follows the
/// last colon is the port where it is a number; else all of it is the host.
pub open spec fn host_and_port(authority: Seq<char>) -> (Seq<char>, u16) {
    let trimmed = trim_end(authority, '/');
    match last_index(trimmed, ':') {
        Some(i) => match unsigned_value(trimmed.skip(i + 1), u16::MAX as nat) {
            Some(port) => (trimmed.take(i), port as u16),
            None => (trimmed, DEFAULT_PROXY_PORT),
        },
        None => (trimmed, DEFAULT_PROXY_PORT),
    }
}

/// The HTTP proxy that a variable's value names: `http://host:port`, `https://host:port` or
/// `host:port`. An empty value and a SOCKS address name none.
pub open spec fn proxy_of(value: Seq<char>) -> Option<(Seq<char>, u16)> {
    if value.len() == 0 {
        None
    } else {
        match after_prefix(value, "http://"@) {
            Some(authority) => Some(host_and_port(authority)),
            None => match after_prefix(value, "https://"@) {
                Some(authority) => Some(host_and_port(authority)),
                None => if begins_with(value, "socks"@) {
                    None
                } else {
                    Some(host_and_port(value))
                },
            },
        }
    }
}

/// The proxy that the first variable with a usable value names.
pub open spec fn first_proxy(values: Seq<Option<Seq<char>>>) -> Option<(Seq<char>, u16)>
    decreases values.len(),
{
    if values.len() == 0 {
        None
    } else {
        match values[0] {
            Some(value) => match proxy_of(value) {
                Some(proxy) => Some(proxy),
                None => first_proxy(values.skip(1)),
            },
            None => first_proxy(values.skip(1)),
        }
    }
}

/// The values of environment variables.
pub open spec fn value_texts(values: Seq<Option<String>>) -> Seq<Option<Seq<char>>> {
    values.map_values(|v: Option<String>| crate::message::optional(v))
}

/// What a host and port are.
pub open spec fn address(proxy: Option<(String, u16)>) -> Option<(Seq<char>, u16)> {
    match proxy {
        Some((host, port)) => Some((host@, port)),
        None => None,
    }
}

fn read_authority(authority: &str) -> (r: (String, u16))
    ensures
        (r.0@, r.1) == host_and_port(authority@),
{
    let trimmed = trim_end_of(authority, '/');
    match split_last(trimmed.as_str(), ':') {
        Some((host, port)) => match parse_unsigned(port.as_str(), 65535) {
            Some(port) => (host, port as u16),
            None => (trimmed, DEFAULT_PROXY_PORT),
        },
        None => (trimmed, DEFAULT_PROXY_PORT),
    }
}

/// The HTTP proxy that a variable's value names.
pub fn read_proxy(value: &str) -> (r: Option<(String, u16)>)
    ensures
        address(r) == proxy_of(value@),
{
    if value.is_empty() {
        return None;
    }
    match strip_prefix(value, "http://") {
        Some(authority) => Some(read_authority(authority.as_str())),
        None => match strip_prefix(value, "https://") {
            Some(authority) => Some(read_authority(authority.as_str())),
            None => match strip_prefix(value, "socks") {
                Some(_) => None,
                None => Some(read_authority(value)),
            },
        },
    }
}

/// Detect an HTTP proxy from the values of the environment variables [`proxy_variables`], in
/// that order. Returns `Some((proxy_host, proxy_port))` if a usable HTTP proxy is found.
pub fn detect_http_proxy(values: &[Option<String>]) -> (r: Option<(String, u16)>)
    ensures
        address(r) == first_proxy(value_texts(values@)),
{
    let ghost all = value_texts(values@);
    let mut i: usize = 0;
    assert(all.skip(0) =~= all);
    while i < values.len()
        invariant
            i <= values@.len(),
            all == value_texts(values@),
            first_proxy(all) == first_proxy(all.skip(i as int)),
        decreases values@.len() - i,
    {
        assert(all.skip(i as int)[0] == all[i as int]);
        assert(all.skip(i as int).skip(1) =~= all.skip(i + 1));
        if let Some(value) = &values[i] {
            let proxy = read_proxy(value.as_str());
            if proxy.is_some() {
                return proxy;
            }
        }
        i += 1;
    }
    None
}

/// The text `host:port`.
pub open spec fn endpoint(host: Seq<char>, port: u16) -> Seq<char> {
    host + ":"@ + decimal(port as nat)
}

/// The text `host:port`.
pub fn socket_address(host: &str, port: u16) -> (r: String)
    ensures
        r@ == endpoint(host@, port),
{
    host.to_owned().concat(":").concat(decimal_text(port as u64).as_str())
}

/// The request for a tunnel to a host and port.
pub open spec fn connect_text(host: Seq<char>, port: u16) -> Seq<char> {
    "CONNECT "@ + endpoint(host, port) + " HTTP/1.1\r\nHost: "@ + endpoint(host, port)
        + "\r\n\r\n"@
}

/// The request for a tunnel to a host and port.
pub fn connect_request(host: &str, port: u16) -> (r: String)
    ensures
        r@ == connect_text(host@, port),
{
    let target = socket_address(host, port);
    "CONNECT ".to_owned().concat(target.as_str()).concat(" HTTP/1.1\r\nHost: ").concat(
        target.as_str(),
    ).concat("\r\n\r\n")
}

/// An empty line, after the line before it, begins at a position.
pub open spec fn boundary_at(buf: Seq<u8>, at: int) -> bool {
    0 <= at && at + 4 <= buf.len() && buf[at] == 13 && buf[at + 1] == 10 && buf[at + 2] == 13
        && buf[at + 3] == 10
}

/// HTTP headers end at a position: right behind the first `\r\n\r\n`.
pub open spec fn is_header_end(buf: Seq<u8>, end: int) -> bool {
    boundary_at(buf, end - 4) && forall|at: int| at < end - 4 ==> !boundary_at(buf, at)
}

/// Where HTTP headers end.
pub open spec fn header_end(buf: Seq<u8>) -> Option<int> {
    if exists|end: int| is_header_end(buf, end) {
        Some(choose|end: int| is_header_end(buf, end))
    } else {
        None
    }
}

/// There is at most one end.
proof fn lemma_header_end(buf: Seq<u8>, end: int)
    requires
        is_header_end(buf, end),
    ensures
        header_end(buf) == Some(end),
{
    let other = choose|other: int| is_header_end(buf, other);
    assert(is_header_end(buf, other));
    assert(!(other < end) && !(end < other));
}

/// Find the end of the `\r\n\r\n` boundary in HTTP headers.
pub fn find_header_end(buf: &[u8]) -> (r: Option<usize>)
    ensures
        header_end(buf@) == match r {
            Some(end) => Some(end as int),
            None => None,
        },
        match r {
            Some(end) => end <= buf@.len() && is_header_end(buf@, end as int),
            None => forall|at: int| !boundary_at(buf@, at),
        },
{
    let size: usize = buf.len();
    let mut at: usize = 0;
    while at < size && size - at >= 4
        invariant
            at <= size == buf@.len(),
            forall|i: int| i < at ==> !boundary_at(buf@, i),
        decreases size - at,
    {
        if buf[at] == 13 && buf[at + 1] == 10 && buf[at + 2] == 13 && buf[at + 3] == 10 {
            proof {
                assert(boundary_at(buf@, at as int));
                lemma_header_end(buf@, at + 4);
            }
            return Some(at + 4);
        }
        at += 1;
    }
    None
}

/// The text that bytes spell, with a replacement character for each malformed part.
pub uninterp spec fn lossy_text(bytes: Seq<u8>) -> Seq<char>;

/// `String::from_utf8_lossy`: the text that bytes spell. Where the bytes are valid UTF-8 it is
/// what they encode; which replacement characters stand for other bytes is left unsaid.
#[verifier::external_body]
fn from_utf8_lossy(bytes: &[u8]) -> (r: String)
    ensures
        r@ == lossy_text(bytes@),
        valid_utf8(bytes@) ==> r@ == decode_utf8(bytes@),
{
    String::from_utf8_lossy(bytes).into_owned()
}

/// Why a tunnel was not established.
#[derive(Debug)]
pub enum ConnectError {
    /// The proxy closed the connection before its response was complete.
    Closed,
    /// The proxy refused, with this first line.
    Rejected(String),
    /// The response headers do not fit.
    TooLarge,
}

/// What to do after bytes have come from the proxy.
#[derive(Debug)]
pub enum ConnectStep {
    /// Read more of the response.
    ReadMore,
    /// The tunnel is established.
    Established,
    /// Give up.
    Failed(ConnectError),
}

/// What a step is.
pub enum ConnectView {
    ReadMore,
    Established,
    Closed,
    Rejected(Seq<char>),
    TooLarge,
}

impl View for ConnectStep {
    type V = ConnectView;

    open spec fn view(&self) -> ConnectView {
        match *self {
            ConnectStep::ReadMore => ConnectView::ReadMore,
            ConnectStep::Established => ConnectView::Established,
            ConnectStep::Failed(ConnectError::Closed) => ConnectView::Closed,
            ConnectStep::Failed(ConnectError::Rejected(line)) => ConnectView::Rejected(line@),
            ConnectStep::Failed(ConnectError::TooLarge) => ConnectView::TooLarge,
        }
    }
}

/// The first line of a text.
pub open spec fn first_line(text: Seq<char>) -> Seq<char> {
    if lines(text).len() > 0 {
        lines(text)[0]
    } else {
        ""@
    }
}

/// The line is a status line with the status 200: `HTTP/1.x 200`, alone or with a reason behind
/// a space.
pub open spec fn is_ok_line(line: Seq<char>) -> bool {
    &&& begins_with(line, "HTTP/1."@)
    &&& line.len() >= 12
    &&& line[8] == ' '
    &&& occurs_at(line, "200"@, 9)
    &&& line.len() == 12 || line[12] == ' '
}

/// What complete response headers mean: the tunnel stands where their first line reports the
/// status 200.
pub open spec fn verdict(head: Seq<char>) -> ConnectView {
    if is_ok_line(first_line(head)) {
        ConnectView::Established
    } else {
        ConnectView::Rejected(first_line(head))
    }
}

/// Whether a line is a status line with the status 200.
fn reports_ok(line: &str) -> (r: bool)
    ensures
        r == is_ok_line(line@),
{
    proof {
        reveal_strlit("HTTP/1.");
        reveal_strlit("200");
        assert("200"@.len() == 3);
        assert("200"@[0] == '2' && "200"@[1] == '0' && "200"@[2] == '0');
    }
    if strip_prefix(line, "HTTP/1.").is_none() {
        return false;
    }
    let chars = characters(line);
    if chars.len() < 12 {
        return false;
    }
    let ghost status = line@.subrange(9, 12);
    assert(status[0] == chars@[9] && status[1] == chars@[10] && status[2] == chars@[11]);
    if !(chars[8] == ' ' && chars[9] == '2' && chars[10] == '0' && chars[11] == '0') {
        return false;
    }
    assert(status =~= "200"@);
    chars.len() == 12 || chars[12] == ' '
}

/// What complete response headers mean.
pub fn judge_response(head: &str) -> (r: ConnectStep)
    ensures
        r@ == verdict(head@),
{
    let list = text_lines(head);
    assert(crate::text::texts(list@).len() == list@.len());
    let line = if list.len() > 0 {
        list[0].clone()
    } else {
        "".to_owned()
    };
    if reports_ok(line.as_str()) {
        ConnectStep::Established
    } else {
        ConnectStep::Failed(ConnectError::Rejected(line))
    }
}

/// What the bytes received so far and the next ones amount to.
pub open spec fn connect_step(received: Seq<u8>, chunk: Seq<u8>) -> ConnectView {
    if chunk.len() == 0 {
        ConnectView::Closed
    } else {
        match header_end(received + chunk) {
            Some(end) => verdict(lossy_text((received + chunk).take(end))),
            None => if (received + chunk).len() >= RESPONSE_LIMIT {
                ConnectView::TooLarge
            } else {
                ConnectView::ReadMore
            },
        }
    }
}

/// The proxy's response to a CONNECT request, as far as it has come.
pub struct ConnectHandshake {
    received: Vec<u8>,
}

impl View for ConnectHandshake {
    type V = Seq<u8>;

    closed spec fn view(&self) -> Seq<u8> {
        self.received@
    }
}

impl ConnectHandshake {
    /// More bytes are awaited.
    pub open spec fn waiting(self) -> bool {
        self@.len() < RESPONSE_LIMIT && header_end(self@) is None
    }

    /// Nothing has come yet.
    pub fn new() -> (r: ConnectHandshake)
        ensures
            r@ == Seq::<u8>::empty(),
            r.waiting(),
    {
        let r = ConnectHandshake { received: Vec::new() };
        assert(forall|end: int| !is_header_end(r@, end));
        r
    }

    /// How many more bytes fit.
    pub fn room(&self) -> (r: usize)
        requires
            self.waiting(),
        ensures
            r == RESPONSE_LIMIT - self@.len(),
            r > 0,
    {
        RESPONSE_LIMIT - self.received.len()
    }

    /// Takes in the next bytes of the response; none mean that the connection was closed.
    pub fn receive(&mut self, chunk: &[u8]) -> (r: ConnectStep)
        requires
            old(self).waiting(),
            chunk@.len() <= RESPONSE_LIMIT - old(self)@.len(),
        ensures
            r@ == connect_step(old(self)@, chunk@),
            final(self)@ == old(self)@ + chunk@,
            r@ == ConnectView::ReadMore ==> final(self).waiting(),
            chunk@.len() > 0 ==> (header_end(old(self)@ + chunk@) matches Some(end) ==> {
                let head = (old(self)@ + chunk@).take(end);
                valid_utf8(head) ==> lossy_text(head) == decode_utf8(head)
            }),
    {
        let ghost before = self.received@;
        let mut i: usize = 0;
        while i < chunk.len()
            invariant
                i <= chunk@.len(),
                self.received@ == before + chunk@.take(i as int),
            decreases chunk@.len() - i,
        {
            self.received.push(chunk[i]);
            i += 1;
            assert(self.received@ =~= before + chunk@.take(i as int));
        }
        assert(chunk@.take(i as int) =~= chunk@);
        if chunk.len() == 0 {
            return ConnectStep::Failed(ConnectError::Closed);
        }
        match find_header_end(self.received.as_slice()) {
            Some(end) => {
                let mut head: Vec<u8> = Vec::new();
                let mut i: usize = 0;
                while i < end
                    invariant
                        i <= end <= self.received@.len(),
                        head@ == self.received@.take(i as int),
                    decreases end - i,
                {
                    head.push(self.received[i]);
                    i += 1;
                    assert(head@ =~= self.received@.take(i as int));
                }
                judge_response(from_utf8_lossy(head.as_slice()).as_str())
            },
            None => if self.received.len() >= RESPONSE_LIMIT {
                ConnectStep::Failed(ConnectError::TooLarge)
            } else {
                ConnectStep::ReadMore
            },
        }
    }
}

/// The text of a failed handshake.
pub open spec fn failure_text(step: ConnectView) -> Seq<char> {
    match step {
        ConnectView::Closed => "proxy closed connection before completing CONNECT handshake"@,
        ConnectView::Rejected(line) => "HTTP CONNECT proxy rejected: "@ + line,
        ConnectView::TooLarge => "HTTP CONNECT response too large"@,
        _ => ""@,
    }
}

impl ConnectError {
    /// The text of the failure.
    pub fn message(&self) -> (r: String)
        ensures
            r@ == failure_text(ConnectStep::Failed(*self)@),
    {
        match self {
            ConnectError::Closed => {
                "proxy closed connection before completing CONNECT handshake".to_owned()
            },
            ConnectError::Rejected(line) => {
                "HTTP CONNECT proxy rejected: ".to_owned().concat(line.as_str())
            },
            ConnectError::TooLarge => "HTTP CONNECT response too large".to_owned(),
        }
    }
}

/// `tungstenite::http::Uri`, of which the port and the scheme are read.
#[verifier::external_type_specification]
#[verifier::external_body]
pub struct ExUri(tungstenite::http::Uri);

/// The port that a URI names.
pub uninterp spec fn uri_port(uri: tungstenite::http::Uri) -> Option<u16>;

/// The scheme of a URI.
pub uninterp spec fn uri_scheme(uri: tungstenite::http::Uri) -> Option<Seq<char>>;

/// `Uri::port_u16`: the port that the URI names.
pub assume_specification[ tungstenite::http::Uri::port_u16 ](uri: &tungstenite::http::Uri) -> (r:
    Option<u16>)
    ensures
        r == uri_port(*uri),
;

/// `Uri::scheme_str`: the scheme of the URI.
pub assume_specification[ tungstenite::http::Uri::scheme_str ](uri: &tungstenite::http::Uri) -> (r:
    Option<&str>)
    ensures
        optional_text(r) == uri_scheme(*uri),
;

/// A request's URI has no port and no scheme with a known one.
#[derive(Debug, Clone, Copy, PartialEq, Eq, Structural)]
pub struct UnsupportedUrlScheme;

/// The port that a request goes to: the one that is named, else that of the scheme.
pub open spec fn request_port(port: Option<u16>, scheme: Option<Seq<char>>) -> Result<
    u16,
    UnsupportedUrlScheme,
> {
    match port {
        Some(port) => Ok(port),
        None => if scheme == Some("wss"@) {
            Ok(443)
        } else if scheme == Some("ws"@) {
            Ok(80)
        } else {
            Err(UnsupportedUrlScheme)
        },
    }
}

/// The port that a request goes to: the one that is named, else that of the scheme.
pub fn choose_port(port: Option<u16>, scheme: Option<&str>) -> (r: Result<
    u16,
    UnsupportedUrlScheme,
>)
    ensures
        r == request_port(port, optional_text(scheme)),
{
    match port {
        Some(port) => Ok(port),
        None => match scheme {
            Some(scheme) => if same_text(scheme, "wss") {
                Ok(443)
            } else if same_text(scheme, "ws") {
                Ok(80)
            } else {
                Err(UnsupportedUrlScheme)
            },
            None => Err(UnsupportedUrlScheme),
        },
    }
}

/// The port that a request for a URI goes to.
pub fn target_port(uri: &tungstenite::http::Uri) -> (r: Result<u16, UnsupportedUrlScheme>)
    ensures
        r == request_port(uri_port(*uri), uri_scheme(*uri)),
{
    choose_port(uri.port_u16(), uri.scheme_str())
}

} // verus!
