use vstd::prelude::*;
use vstd::string::*;
use vstd::utf8::*;
use crate::body::body_error_possible;
use crate::body::body_forwarded;
use crate::body::forward_body;
use crate::errors::Error;
use crate::errors::ErrorKind;
use crate::head::head_error_possible;
use crate::head::opt_int;
use crate::head::parse_head;
use crate::head::read_protocol;
use crate::headers::drop_header;
use crate::headers::lookup_header;
use crate::headers::read_header;
use crate::headers::remove_header;
use crate::headers::upsert_header;
use crate::headers::write_header;
use crate::options::table_lookup;
use crate::options::RouterOptions;
use crate::stream::ConnectError;
use crate::stream::Connection;
use crate::stream::Connector;

verus! {

// The router owns the client connection and, once the relay begins, the
// upstream connection.  One relay runs the strictly ordered sequence:
// receive request head, rewrite the host, connect, forward request head
// and body, receive response head, forward response head and body.

/// The text of a head on the wire: its lines joined by CRLF.
pub open spec fn joined_text(lines: Seq<Seq<char>>) -> Seq<char>
    decreases lines.len(),
{
    if lines.len() == 0 {
        Seq::empty()
    } else if lines.len() == 1 {
        lines[0]
    } else {
        lines[0] + seq!['\r', '\n'] + joined_text(lines.skip(1))
    }
}

/// The bytes of a head on the wire.
pub open spec fn head_bytes(lines: Seq<Seq<char>>) -> Seq<u8> {
    encode_utf8(joined_text(lines))
}

/// Joining after an appended line extends the joined text by a separator
/// and the line.
proof fn lemma_joined_push(t: Seq<Seq<char>>, x: Seq<char>)
    ensures
        joined_text(t.push(x)) == if t.len() == 0 {
            x
        } else {
            joined_text(t) + seq!['\r', '\n'] + x
        },
    decreases t.len(),
{
    if t.len() == 0 {
        assert(t.push(x)[0] == x);
    } else if t.len() == 1 {
        assert(t.push(x).skip(1) =~= t.skip(1).push(x));
        assert(t.push(x).skip(1)[0] == x);
        assert(joined_text(t.push(x).skip(1)) == x);
        assert(joined_text(t) == t[0]);
        assert(joined_text(t.push(x)) == t[0] + seq!['\r', '\n'] + x);
    } else {
        assert(t.push(x).skip(1) =~= t.skip(1).push(x));
        lemma_joined_push(t.skip(1), x);
    }
}

/// Renders a head as the bytes to put on the wire.
fn join_lines(lines: &Vec<String>) -> (r: Vec<u8>)
    ensures
        r@ == head_bytes(lines.deep_view()),
{
    proof {
        reveal_strlit("\r\n");
        assert("\r\n"@ =~= seq!['\r', '\n']);
    }
    let mut s = String::new();
    let n = lines.len();
    let mut i: usize = 0;
    while i < n
        invariant
            i <= n,
            n == lines.len(),
            lines.deep_view().len() == n,
            s@ == joined_text(lines.deep_view().take(i as int)),
            "\r\n"@ == seq!['\r', '\n'],
        decreases n - i,
    {
        if i > 0 {
            s.append("\r\n");
        }
        proof {
            assert(lines.deep_view()[i as int] == lines@[i as int]@);
        }
        s.append(lines[i].as_str());
        proof {
            assert(lines.deep_view().take(i + 1) =~= lines.deep_view().take(i as int).push(
                lines.deep_view()[i as int],
            ));
            lemma_joined_push(lines.deep_view().take(i as int), lines.deep_view()[i as int]);
        }
        i += 1;
    }
    proof {
        assert(lines.deep_view().take(n as int) =~= lines.deep_view());
    }
    s.as_str().as_bytes_vec()
}

/// The host a request is routed to: the table's replacement when the raw
/// host has an entry, the raw host itself otherwise.
pub open spec fn routed_host(table: Seq<(Seq<char>, Seq<char>)>, host: Seq<char>) -> Seq<char> {
    match table_lookup(table, host) {
        Some(t) => t,
        None => host,
    }
}

/// The request head after the host rewrite: the `Host` header is
/// overwritten with the table's replacement when one exists; otherwise
/// the head is unchanged.
pub open spec fn rewritten_request(
    lines: Seq<Seq<char>>,
    table: Seq<(Seq<char>, Seq<char>)>,
) -> Seq<Seq<char>> {
    match lookup_header(lines, "Host"@) {
        Some(h) => match table_lookup(table, h) {
            Some(t) => upsert_header(lines, "Host"@, t),
            None => lines,
        },
        None => lines,
    }
}

/// One relay: the client connection, the lazily opened upstream
/// connection, the two header stores, and four optional byte ceilings.
pub struct Router<C: Connection> {
    stream: C,
    relay: Option<C>,
    request_headers: Vec<String>,
    response_headers: Vec<String>,
    request_headers_size_limit: Option<usize>,
    request_body_size_limit: Option<usize>,
    response_headers_size_limit: Option<usize>,
    response_body_size_limit: Option<usize>,
}

impl<C: Connection> Router<C> {
    /// The client connection.
    pub closed spec fn spec_stream(&self) -> C {
        self.stream
    }

    /// The upstream connection, once the relay has opened it.
    pub closed spec fn spec_relay(&self) -> Option<C> {
        self.relay
    }

    /// The stored request head lines.
    pub closed spec fn req_lines(&self) -> Seq<Seq<char>> {
        self.request_headers.deep_view()
    }

    /// The stored response head lines.
    pub closed spec fn resp_lines(&self) -> Seq<Seq<char>> {
        self.response_headers.deep_view()
    }

    /// The four ceilings: request head, request body, response head,
    /// response body.
    pub closed spec fn limits(&self) -> (
        Option<usize>,
        Option<usize>,
        Option<usize>,
        Option<usize>,
    ) {
        (
            self.request_headers_size_limit,
            self.request_body_size_limit,
            self.response_headers_size_limit,
            self.response_body_size_limit,
        )
    }

    /// A relay for one accepted client connection: no upstream connection,
    /// empty header stores, no ceilings.
    pub fn new(stream: C) -> (r: Self)
        ensures
            r.spec_stream() == stream,
            r.spec_relay() is None,
            r.req_lines().len() == 0,
            r.resp_lines().len() == 0,
            r.limits() == (
                None::<usize>,
                None::<usize>,
                None::<usize>,
                None::<usize>,
            ),
    {
        Router {
            stream,
            relay: None,
            request_headers: Vec::new(),
            response_headers: Vec::new(),
            request_headers_size_limit: None,
            request_body_size_limit: None,
            response_headers_size_limit: None,
            response_body_size_limit: None,
        }
    }

    /// The client connection.
    pub fn stream(&self) -> (r: &C)
        ensures
            *r == self.spec_stream(),
    {
        &self.stream
    }

    /// The stored request head lines.
    pub fn request_headers(&self) -> (r: &Vec<String>)
        ensures
            r.deep_view() == self.req_lines(),
    {
        &self.request_headers
    }

    /// The stored response head lines.
    pub fn response_headers(&self) -> (r: &Vec<String>)
        ensures
            r.deep_view() == self.resp_lines(),
    {
        &self.response_headers
    }

    /// The value of a request header, if present.
    pub fn request_header(&self, name: &str) -> (r: Option<String>)
        ensures
            match r {
                Some(v) => lookup_header(self.req_lines(), name@) == Some(v@),
                None => lookup_header(self.req_lines(), name@) is None,
            },
    {
        read_header(&self.request_headers, name)
    }

    /// The value of a response header, if present.
    pub fn response_header(&self, name: &str) -> (r: Option<String>)
        ensures
            match r {
                Some(v) => lookup_header(self.resp_lines(), name@) == Some(v@),
                None => lookup_header(self.resp_lines(), name@) is None,
            },
    {
        read_header(&self.response_headers, name)
    }

    /// The request head ceiling.
    pub fn request_headers_size_limit(&self) -> (r: &Option<usize>)
        ensures
            r == self.limits().0,
    {
        &self.request_headers_size_limit
    }

    /// The request body ceiling.
    pub fn request_body_size_limit(&self) -> (r: &Option<usize>)
        ensures
            r == self.limits().1,
    {
        &self.request_body_size_limit
    }

    /// The response head ceiling.
    pub fn response_headers_size_limit(&self) -> (r: &Option<usize>)
        ensures
            r == self.limits().2,
    {
        &self.response_headers_size_limit
    }

    /// The response body ceiling.
    pub fn response_body_size_limit(&self) -> (r: &Option<usize>)
        ensures
            r == self.limits().3,
    {
        &self.response_body_size_limit
    }

    /// Inserts or replaces a request header.
    pub fn set_request_header(&mut self, name: &str, value: &str)
        ensures
            final(self).req_lines() == upsert_header(old(self).req_lines(), name@, value@),
            final(self).resp_lines() == old(self).resp_lines(),
            final(self).spec_stream() == old(self).spec_stream(),
            final(self).spec_relay() == old(self).spec_relay(),
            final(self).limits() == old(self).limits(),
    {
        write_header(&mut self.request_headers, name, value);
    }

    /// Inserts or replaces a response header.
    pub fn set_response_header(&mut self, name: &str, value: &str)
        ensures
            final(self).resp_lines() == upsert_header(old(self).resp_lines(), name@, value@),
            final(self).req_lines() == old(self).req_lines(),
            final(self).spec_stream() == old(self).spec_stream(),
            final(self).spec_relay() == old(self).spec_relay(),
            final(self).limits() == old(self).limits(),
    {
        write_header(&mut self.response_headers, name, value);
    }

    /// Sets the request head ceiling.
    pub fn set_request_headers_size_limit(&mut self, limit: usize)
        ensures
            final(self).limits() == (
                Some(limit),
                old(self).limits().1,
                old(self).limits().2,
                old(self).limits().3,
            ),
            final(self).req_lines() == old(self).req_lines(),
            final(self).resp_lines() == old(self).resp_lines(),
            final(self).spec_stream() == old(self).spec_stream(),
            final(self).spec_relay() == old(self).spec_relay(),
    {
        self.request_headers_size_limit = Some(limit);
    }

    /// Sets the request body ceiling.
    pub fn set_request_body_size_limit(&mut self, limit: usize)
        ensures
            final(self).limits() == (
                old(self).limits().0,
                Some(limit),
                old(self).limits().2,
                old(self).limits().3,
            ),
            final(self).req_lines() == old(self).req_lines(),
            final(self).resp_lines() == old(self).resp_lines(),
            final(self).spec_stream() == old(self).spec_stream(),
            final(self).spec_relay() == old(self).spec_relay(),
    {
        self.request_body_size_limit = Some(limit);
    }

    /// Sets the response head ceiling.
    pub fn set_response_headers_size_limit(&mut self, limit: usize)
        ensures
            final(self).limits() == (
                old(self).limits().0,
                old(self).limits().1,
                Some(limit),
                old(self).limits().3,
            ),
            final(self).req_lines() == old(self).req_lines(),
            final(self).resp_lines() == old(self).resp_lines(),
            final(self).spec_stream() == old(self).spec_stream(),
            final(self).spec_relay() == old(self).spec_relay(),
    {
        self.response_headers_size_limit = Some(limit);
    }

    /// Sets the response body ceiling.
    pub fn set_response_body_size_limit(&mut self, limit: usize)
        ensures
            final(self).limits() == (
                old(self).limits().0,
                old(self).limits().1,
                old(self).limits().2,
                Some(limit),
            ),
            final(self).req_lines() == old(self).req_lines(),
            final(self).resp_lines() == old(self).resp_lines(),
            final(self).spec_stream() == old(self).spec_stream(),
            final(self).spec_relay() == old(self).spec_relay(),
    {
        self.response_body_size_limit = Some(limit);
    }

    /// Deletes the first matching request header, if any.
    pub fn remove_request_header(&mut self, name: &str)
        ensures
            final(self).req_lines() == drop_header(old(self).req_lines(), name@),
            final(self).resp_lines() == old(self).resp_lines(),
            final(self).spec_stream() == old(self).spec_stream(),
            final(self).spec_relay() == old(self).spec_relay(),
            final(self).limits() == old(self).limits(),
    {
        remove_header(&mut self.request_headers, name);
    }

    /// Deletes the first matching response header, if any.
    pub fn remove_response_header(&mut self, name: &str)
        ensures
            final(self).resp_lines() == drop_header(old(self).resp_lines(), name@),
            final(self).req_lines() == old(self).req_lines(),
            final(self).spec_stream() == old(self).spec_stream(),
            final(self).spec_relay() == old(self).spec_relay(),
            final(self).limits() == old(self).limits(),
    {
        remove_header(&mut self.response_headers, name);
    }

    /// Clears the request head ceiling.
    pub fn remove_request_headers_size_limit(&mut self)
        ensures
            final(self).limits() == (
                None::<usize>,
                old(self).limits().1,
                old(self).limits().2,
                old(self).limits().3,
            ),
            final(self).req_lines() == old(self).req_lines(),
            final(self).resp_lines() == old(self).resp_lines(),
            final(self).spec_stream() == old(self).spec_stream(),
            final(self).spec_relay() == old(self).spec_relay(),
    {
        self.request_headers_size_limit = None;
    }

    /// Clears the request body ceiling.
    pub fn remove_request_body_size_limit(&mut self)
        ensures
            final(self).limits() == (
                old(self).limits().0,
                None::<usize>,
                old(self).limits().2,
                old(self).limits().3,
            ),
            final(self).req_lines() == old(self).req_lines(),
            final(self).resp_lines() == old(self).resp_lines(),
            final(self).spec_stream() == old(self).spec_stream(),
            final(self).spec_relay() == old(self).spec_relay(),
    {
        self.request_body_size_limit = None;
    }

    /// Clears the response head ceiling.
    pub fn remove_response_headers_size_limit(&mut self)
        ensures
            final(self).limits() == (
                old(self).limits().0,
                old(self).limits().1,
                None::<usize>,
                old(self).limits().3,
            ),
            final(self).req_lines() == old(self).req_lines(),
            final(self).resp_lines() == old(self).resp_lines(),
            final(self).spec_stream() == old(self).spec_stream(),
            final(self).spec_relay() == old(self).spec_relay(),
    {
        self.response_headers_size_limit = None;
    }

    /// Clears the response body ceiling.
    pub fn remove_response_body_size_limit(&mut self)
        ensures
            final(self).limits() == (
                old(self).limits().0,
                old(self).limits().1,
                old(self).limits().2,
                None::<usize>,
            ),
            final(self).req_lines() == old(self).req_lines(),
            final(self).resp_lines() == old(self).resp_lines(),
            final(self).spec_stream() == old(self).spec_stream(),
            final(self).spec_relay() == old(self).spec_relay(),
    {
        self.response_body_size_limit = None;
    }

    /// Receives the request head from the client connection into the
    /// request store (clearing any earlier content), bounded by the
    /// request head ceiling.  Failures are tagged with the request phase.
    pub fn parse_request(&mut self) -> (r: Result<(), Error>)
        ensures
            final(self).spec_relay() == old(self).spec_relay(),
            final(self).resp_lines() == old(self).resp_lines(),
            final(self).limits() == old(self).limits(),
            ({
                let out = parse_head(old(self).spec_stream().inbox(), opt_int(old(self).limits().0));
                match r {
                    Ok(_) => {
                        &&& (out.0 is Complete || out.0 is Truncated)
                        &&& final(self).req_lines() == out.1
                        &&& final(self).spec_stream().inbox() == out.2
                        &&& final(self).spec_stream().outbox() == old(self).spec_stream().outbox()
                        &&& final(self).spec_stream().flushed() == old(
                            self,
                        ).spec_stream().flushed()
                    },
                    Err(e) => e matches Error::Request(k) && head_error_possible(
                        out.0,
                        old(self).limits().0,
                        k,
                    ) && (!(k is ReadFailed) ==> {
                        &&& final(self).req_lines() == out.1
                        &&& final(self).spec_stream().outbox() == old(self).spec_stream().outbox()
                        &&& final(self).spec_stream().flushed() == old(
                            self,
                        ).spec_stream().flushed()
                    }),
                }
            }),
    {
        self.request_headers.clear();
        let limit = self.request_headers_size_limit;
        let ghost cleared = self.request_headers.deep_view();
        proof {
            assert(cleared.len() == 0);
        }
        match read_protocol(&mut self.stream, &mut self.request_headers, limit) {
            Ok(_) => {
                proof {
                    let out = parse_head(old(self).spec_stream().inbox(), opt_int(limit));
                    assert(cleared + out.1 =~= out.1);
                }
                Ok(())
            },
            Err(kind) => {
                proof {
                    let out = parse_head(old(self).spec_stream().inbox(), opt_int(limit));
                    assert(cleared + out.1 =~= out.1);
                }
                Err(Error::Request(kind))
            },
        }
    }

    /// Receives the response head from the upstream connection into the
    /// response store (clearing any earlier content), bounded by the
    /// response head ceiling.  Without an upstream connection it fails at
    /// once; failures are tagged with the response phase.
    pub fn parse_response(&mut self) -> (r: Result<(), Error>)
        ensures
            final(self).spec_stream() == old(self).spec_stream(),
            final(self).req_lines() == old(self).req_lines(),
            final(self).limits() == old(self).limits(),
            ({
                match old(self).spec_relay() {
                    None => {
                        &&& r matches Err(Error::Response(k)) && k is NotConnected
                        &&& *final(self) == *old(self)
                    },
                    Some(up0) => {
                        let out = parse_head(up0.inbox(), opt_int(old(self).limits().2));
                        match r {
                            Ok(_) => {
                                &&& (out.0 is Complete || out.0 is Truncated)
                                &&& final(self).resp_lines() == out.1
                                &&& final(self).spec_relay() matches Some(up) && up.inbox()
                                    == out.2 && up.outbox() == up0.outbox() && up.flushed()
                                    == up0.flushed()
                            },
                            Err(e) => e matches Error::Response(k) && head_error_possible(
                                out.0,
                                old(self).limits().2,
                                k,
                            ) && (!(k is ReadFailed) ==> {
                                &&& final(self).resp_lines() == out.1
                                &&& final(self).spec_relay() matches Some(up) && up.outbox()
                                    == up0.outbox() && up.flushed() == up0.flushed()
                            }),
                        }
                    },
                }
            }),
    {
        let limit = self.response_headers_size_limit;
        match &mut self.relay {
            None => Err(Error::Response(ErrorKind::NotConnected)),
            Some(source) => {
                self.response_headers.clear();
                let ghost cleared = self.response_headers.deep_view();
                match read_protocol(source, &mut self.response_headers, limit) {
                    Ok(_) => {
                        proof {
                            let up0 = old(self).spec_relay()->0;
                            let out = parse_head(up0.inbox(), opt_int(limit));
                            assert(cleared + out.1 =~= out.1);
                        }
                        Ok(())
                    },
                    Err(kind) => {
                        proof {
                            let up0 = old(self).spec_relay()->0;
                            let out = parse_head(up0.inbox(), opt_int(limit));
                            assert(cleared + out.1 =~= out.1);
                        }
                        Err(Error::Response(kind))
                    },
                }
            },
        }
    }

    /// Carries the request upstream: reads the `Host` header (its absence
    /// is a request-phase failure, before any connection attempt),
    /// rewrites it through the routing table, connects to the routed
    /// host, and forwards the request head and body, bounded by the
    /// request body ceiling.  Later failures are tagged with the relay
    /// phase.
    pub fn relay_request<K: Connector<Conn = C>>(
        &mut self,
        options: &RouterOptions,
        connector: &mut K,
    ) -> (r: Result<(), Error>)
        ensures
            final(self).resp_lines() == old(self).resp_lines(),
            final(self).limits() == old(self).limits(),
            ({
                let lines0 = old(self).req_lines();
                let hostv = lookup_header(lines0, "Host"@);
                let newlines = rewritten_request(lines0, options.table());
                match r {
                    Ok(_) => {
                        &&& hostv is Some
                        &&& final(self).req_lines() == newlines
                        &&& final(connector).contacted() == old(connector).contacted().push(
                            routed_host(options.table(), hostv->0),
                        )
                        &&& final(self).spec_relay() matches Some(up) && body_forwarded(
                            newlines,
                            opt_int(old(self).limits().1),
                            old(self).spec_stream().inbox(),
                            final(self).spec_stream().inbox(),
                            head_bytes(newlines),
                            up.outbox(),
                        )
                        &&& final(self).spec_stream().outbox() == old(self).spec_stream().outbox()
                        &&& final(self).spec_stream().flushed() == old(
                            self,
                        ).spec_stream().flushed()
                    },
                    Err(e) => match e {
                        Error::Request(k) => {
                            &&& k matches ErrorKind::MissingHeader(n) && n@ == "Host"@
                            &&& hostv is None
                            &&& *final(self) == *old(self)
                            &&& final(connector).contacted() == old(connector).contacted()
                        },
                        Error::Relay(k) => {
                            &&& hostv is Some
                            &&& final(self).req_lines() == newlines
                            &&& final(connector).contacted() == old(connector).contacted().push(
                                routed_host(options.table(), hostv->0),
                            )
                            &&& match k {
                                // Host resolution failed: no connection was
                                // opened, so nothing was sent upstream.
                                ErrorKind::InvalidHeader(n) => (n@ == "Host"@
                                    && final(self).spec_relay() == old(self).spec_relay()) || (
                                body_error_possible(newlines, opt_int(old(self).limits().1), k)
                                    && final(self).spec_relay() is Some),
                                // Either the connect itself failed, leaving the
                                // upstream slot as it was, or a write failed on
                                // the opened connection.
                                ErrorKind::WriteFailed => final(self).spec_relay()
                                    == old(self).spec_relay() || final(self).spec_relay() is Some,
                                // Reads happen only while forwarding the body,
                                // after the connection was opened.
                                ErrorKind::ReadFailed => body_error_possible(
                                    newlines,
                                    opt_int(old(self).limits().1),
                                    k,
                                ) && final(self).spec_relay() is Some,
                                ErrorKind::SizeLimitExceeded(_) => body_error_possible(
                                    newlines,
                                    opt_int(old(self).limits().1),
                                    k,
                                ) && final(self).spec_relay() is Some,
                                _ => false,
                            }
                        },
                        Error::Response(_) => false,
                    },
                }
            }),
    {
        let host = match read_header(&self.request_headers, "Host") {
            Some(host) => host,
            None => {
                return Err(Error::Request(ErrorKind::MissingHeader(String::from_str("Host"))));
            },
        };
        let routed: String = match options.target(host.as_str()) {
            Some(t) => {
                let t = t.clone();
                write_header(&mut self.request_headers, "Host", t.as_str());
                t
            },
            None => host,
        };
        let upstream = match connector.connect(routed.as_str()) {
            Ok(upstream) => upstream,
            Err(ConnectError::BadHost) => {
                return Err(Error::Relay(ErrorKind::InvalidHeader(String::from_str("Host"))));
            },
            Err(ConnectError::Unreachable) => {
                return Err(Error::Relay(ErrorKind::WriteFailed));
            },
        };
        self.relay = Some(upstream);
        let head = join_lines(&self.request_headers);
        let limit = self.request_body_size_limit;
        match &mut self.relay {
            // The connection was stored just above; this arm cannot run.
            None => Err(Error::Relay(ErrorKind::NotConnected)),
            Some(target) => {
                proof {
                    assert(target.outbox() =~= Seq::<u8>::empty());
                }
                match target.write_all(head.as_slice()) {
                    Ok(_) => {},
                    Err(_) => {
                        return Err(Error::Relay(ErrorKind::WriteFailed));
                    },
                }
                proof {
                    assert(target.outbox() =~= head@);
                }
                match forward_body(&mut self.stream, target, &self.request_headers, limit) {
                    Ok(_) => Ok(()),
                    Err(kind) => Err(Error::Relay(kind)),
                }
            },
        }
    }

    /// Carries the response back to the client: forwards the response head
    /// and then the response body, bounded by the response body ceiling.
    /// Without an upstream connection it fails at once; failures are
    /// tagged with the response phase.
    pub fn relay_response(&mut self) -> (r: Result<(), Error>)
        ensures
            final(self).req_lines() == old(self).req_lines(),
            final(self).resp_lines() == old(self).resp_lines(),
            final(self).limits() == old(self).limits(),
            ({
                match old(self).spec_relay() {
                    None => {
                        &&& r matches Err(Error::Response(k)) && k is NotConnected
                        &&& *final(self) == *old(self)
                    },
                    Some(up0) => match r {
                        Ok(_) => {
                            &&& final(self).spec_relay() matches Some(up) && body_forwarded(
                                old(self).resp_lines(),
                                opt_int(old(self).limits().3),
                                up0.inbox(),
                                up.inbox(),
                                old(self).spec_stream().outbox() + head_bytes(
                                    old(self).resp_lines(),
                                ),
                                final(self).spec_stream().outbox(),
                            ) && up.outbox() == up0.outbox() && up.flushed() == up0.flushed()
                        },
                        Err(e) => match e {
                            Error::Response(k) => match k {
                                ErrorKind::WriteFailed => true,
                                ErrorKind::ReadFailed => true,
                                ErrorKind::InvalidHeader(_) | ErrorKind::SizeLimitExceeded(_) => body_error_possible(
                                    old(self).resp_lines(),
                                    opt_int(old(self).limits().3),
                                    k,
                                ),
                                _ => false,
                            },
                            _ => false,
                        },
                    },
                }
            }),
    {
        let head = join_lines(&self.response_headers);
        let limit = self.response_body_size_limit;
        match &mut self.relay {
            None => Err(Error::Response(ErrorKind::NotConnected)),
            Some(source) => {
                match self.stream.write_all(head.as_slice()) {
                    Ok(_) => {},
                    Err(_) => {
                        return Err(Error::Response(ErrorKind::WriteFailed));
                    },
                }
                match forward_body(source, &mut self.stream, &self.response_headers, limit) {
                    Ok(_) => Ok(()),
                    Err(kind) => Err(Error::Response(kind)),
                }
            },
        }
    }

    /// Writes bytes straight to the client connection, reporting how many
    /// were accepted.
    pub fn write(&mut self, bytes: &[u8]) -> (r: Result<usize, Error>)
        ensures
            final(self).spec_relay() == old(self).spec_relay(),
            final(self).req_lines() == old(self).req_lines(),
            final(self).resp_lines() == old(self).resp_lines(),
            final(self).limits() == old(self).limits(),
            match r {
                Ok(n) => {
                    &&& n == bytes@.len()
                    &&& final(self).spec_stream().outbox() == old(self).spec_stream().outbox()
                        + bytes@
                    &&& final(self).spec_stream().inbox() == old(self).spec_stream().inbox()
                    &&& final(self).spec_stream().flushed() == old(self).spec_stream().flushed()
                },
                Err(e) => e matches Error::Response(k) && k is WriteFailed,
            },
    {
        match self.stream.write_all(bytes) {
            Ok(_) => Ok(bytes.len()),
            Err(_) => Err(Error::Response(ErrorKind::WriteFailed)),
        }
    }
}

} // verus!
