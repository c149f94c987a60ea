use vstd::prelude::*;
use crate::errors::ErrorKind;
use crate::head::opt_int;
use crate::headers::lookup_header;
use crate::headers::read_header;
use crate::stream::Connection;
use crate::text::all_digits;
use crate::text::dec_value;
use crate::text::has_substring;
use crate::text::str_contains;
use crate::text::string_to_usize;

verus! {

broadcast use vstd::seq_lib::group_seq_properties;

// The body forwarder streams body bytes from one connection to another.
// The framing is decided by the headers: a `Transfer-Encoding` containing
// "chunked" selects the chunked relay, otherwise `Content-Length` gives a
// fixed byte count (absent meaning zero).

/// True when the headers select chunked framing.
pub open spec fn is_chunked(hdrs: Seq<Seq<char>>) -> bool {
    match lookup_header(hdrs, "Transfer-Encoding"@) {
        Some(v) => has_substring(v, "chunked"@),
        None => false,
    }
}

/// The body length the headers declare under fixed-length framing: zero
/// when `Content-Length` is absent, its value when it is a decimal number
/// that fits, and nothing when it cannot be read as one.
pub open spec fn declared_length(hdrs: Seq<Seq<char>>) -> Option<int> {
    match lookup_header(hdrs, "Content-Length"@) {
        Some(v) => if v.len() > 0 && all_digits(v) && dec_value(v) <= usize::MAX {
            Some(dec_value(v))
        } else {
            None
        },
        None => Some(0),
    }
}

/// The chunked terminator on the wire: a zero-length final chunk followed
/// by its line break and the empty-trailer line break.
pub open spec fn terminator() -> Seq<u8> {
    seq![48u8, 13u8, 10u8, 13u8, 10u8]
}

/// True when a transferred prefix ends with the chunked terminator.
pub open spec fn chunk_end(p: Seq<u8>) -> bool {
    p.len() >= 5 && p.skip(p.len() - 5) == terminator()
}

/// The rolling window over a transferred prefix: its last five bytes, or
/// all of it while it is still shorter.
pub open spec fn tail_window(s: Seq<u8>) -> Seq<u8> {
    if s.len() <= 5 {
        s
    } else {
        s.skip(s.len() - 5)
    }
}

/// What a finished sized relay did: it moved the first `min(length,
/// available)` input bytes to the output, in order and unmodified.
pub open spec fn sized_ok(
    in0: Seq<u8>,
    in1: Seq<u8>,
    out0: Seq<u8>,
    out1: Seq<u8>,
    length: int,
) -> bool {
    let n = if length <= in0.len() {
        length
    } else {
        in0.len() as int
    };
    &&& in1 == in0.skip(n)
    &&& out1 == out0 + in0.take(n)
}

/// What a finished chunked relay did: it moved some input prefix to the
/// output unmodified, stopping at the end of the stream or right after the
/// window showed the terminator, and always under the configured ceiling.
pub open spec fn chunked_ok(
    in0: Seq<u8>,
    in1: Seq<u8>,
    out0: Seq<u8>,
    out1: Seq<u8>,
    limit: Option<int>,
) -> bool {
    exists|n: int|
        {
            &&& 0 <= n <= in0.len()
            &&& in1 == in0.skip(n)
            &&& out1 == out0 + #[trigger] in0.take(n)
            &&& (n == in0.len() || chunk_end(in0.take(n)))
            &&& (limit matches Some(l) ==> n < l)
        }
}

/// What a chunked relay that hit the ceiling left behind: the output grew
/// by exactly some verbatim input prefix that stayed strictly under the
/// ceiling -- the block that tripped the ceiling was read but withheld.
pub open spec fn chunked_cut(
    in0: Seq<u8>,
    in1: Seq<u8>,
    out0: Seq<u8>,
    out1: Seq<u8>,
    l: int,
) -> bool {
    exists|n: int|
        {
            &&& 0 <= n <= in0.len()
            &&& out1 == out0 + #[trigger] in0.take(n)
            &&& (exists|m: int| n <= m <= in0.len() && in1 == #[trigger] in0.skip(m))
            &&& (l > 0 ==> n < l)
            &&& (l == 0 ==> n == 0)
        }
}

/// What a finished body forward did, for whichever framing the headers
/// selected.
pub open spec fn body_forwarded(
    hdrs: Seq<Seq<char>>,
    limit: Option<int>,
    in0: Seq<u8>,
    in1: Seq<u8>,
    out0: Seq<u8>,
    out1: Seq<u8>,
) -> bool {
    if is_chunked(hdrs) {
        chunked_ok(in0, in1, out0, out1, limit)
    } else {
        match declared_length(hdrs) {
            Some(len) => if len == 0 {
                in1 == in0 && out1 == out0
            } else {
                &&& sized_ok(in0, in1, out0, out1, len)
                &&& (limit matches Some(l) ==> len <= l)
            },
            None => false,
        }
    }
}

/// Which failures a body forward can report for the given headers: the
/// transport kinds only when bytes were to move, the header kind exactly
/// when `Content-Length` is unreadable, and the ceiling kind only with a
/// ceiling configured and in reach.
pub open spec fn body_error_possible(
    hdrs: Seq<Seq<char>>,
    limit: Option<int>,
    e: ErrorKind,
) -> bool {
    match e {
        ErrorKind::ReadFailed | ErrorKind::WriteFailed => is_chunked(hdrs) || (
        declared_length(hdrs) matches Some(len) && len > 0 && (limit matches Some(l) ==> len
            <= l)),
        ErrorKind::InvalidHeader(name) => {
            &&& !is_chunked(hdrs)
            &&& declared_length(hdrs) is None
            &&& name@ == "Content-Length"@
        },
        ErrorKind::SizeLimitExceeded(l) => {
            &&& limit == Some(l as int)
            &&& (is_chunked(hdrs) || (declared_length(hdrs) matches Some(len) && len > l))
        },
        _ => false,
    }
}

/// Without either framing header the body forward touches nothing and
/// cannot fail: no error is possible, and the finished relation forces
/// both streams unchanged.
pub proof fn lemma_forward_body_without_framing_headers(
    hdrs: Seq<Seq<char>>,
    limit: Option<int>,
    in0: Seq<u8>,
    in1: Seq<u8>,
    out0: Seq<u8>,
    out1: Seq<u8>,
)
    requires
        lookup_header(hdrs, "Transfer-Encoding"@) is None,
        lookup_header(hdrs, "Content-Length"@) is None,
    ensures
        !is_chunked(hdrs),
        declared_length(hdrs) == Some(0int),
        forall|e: ErrorKind| !body_error_possible(hdrs, limit, e),
        body_forwarded(hdrs, limit, in0, in1, out0, out1) ==> in1 == in0 && out1 == out0,
{
    assert forall|e: ErrorKind| !body_error_possible(hdrs, limit, e) by {}
}

/// Streams a body of known byte length from `input` to `output` in blocks
/// of at most 1024 bytes, flushing after every write.  Stops successfully
/// after exactly `length` bytes, or earlier when the input stream ends.
#[verifier::loop_isolation(false)]
pub fn forward_sized_body<I: Connection, O: Connection>(
    input: &mut I,
    output: &mut O,
    length: usize,
) -> (r: Result<(), ErrorKind>)
    ensures
        length == 0 ==> r is Ok,
        match r {
            Ok(_) => {
                &&& sized_ok(
                    old(input).inbox(),
                    final(input).inbox(),
                    old(output).outbox(),
                    final(output).outbox(),
                    length as int,
                )
                &&& final(input).outbox() == old(input).outbox()
                &&& final(input).flushed() == old(input).flushed()
                &&& final(output).inbox() == old(output).inbox()
                &&& (final(output).outbox() != old(output).outbox() ==> final(output).flushed()
                    == final(output).outbox())
                &&& (final(output).outbox() == old(output).outbox() ==> final(output).flushed()
                    == old(output).flushed())
            },
            Err(e) => e is ReadFailed || e is WriteFailed,
        },
{
    let ghost inbox0 = input.inbox();
    let ghost outbox0 = output.outbox();
    let mut count: usize = 0;
    loop
        invariant
            count <= length,
            count <= inbox0.len(),
            input.inbox() == inbox0.skip(count as int),
            output.outbox() == outbox0 + inbox0.take(count as int),
            count > 0 ==> output.flushed() == output.outbox(),
            count == 0 ==> output.outbox() == outbox0 && output.flushed() == old(
                output,
            ).flushed(),
            input.outbox() == old(input).outbox(),
            input.flushed() == old(input).flushed(),
            output.inbox() == old(output).inbox(),
        decreases length - count,
    {
        proof {
            assert(inbox0.take(0) =~= Seq::<u8>::empty());
            assert(outbox0 + Seq::<u8>::empty() =~= outbox0);
        }
        if count == length {
            proof {
                let n = if length <= inbox0.len() { length as int } else { inbox0.len() as int };
                assert(inbox0.skip(count as int) =~= inbox0.skip(n));
            }
            return Ok(());
        }
        let mut ask: usize = length - count;
        if ask > 1024 {
            ask = 1024;
        }
        let ghost pre = input.inbox();
        let block = match input.read_block(ask) {
            Ok(block) => block,
            Err(_) => {
                return Err(ErrorKind::ReadFailed);
            },
        };
        if block.len() == 0 {
            // The peer closed early: accepted as a plain stop.
            proof {
                assert(inbox0.len() == count);
                assert(inbox0.take(count as int) =~= inbox0);
            }
            return Ok(());
        }
        match output.write_all(block.as_slice()) {
            Ok(_) => {},
            Err(_) => {
                return Err(ErrorKind::WriteFailed);
            },
        }
        match output.flush() {
            Ok(_) => {},
            Err(_) => {
                return Err(ErrorKind::WriteFailed);
            },
        }
        proof {
            let nn = count + block@.len();
            assert(pre.skip(block@.len() as int) =~= inbox0.skip(nn));
            assert(outbox0 + inbox0.take(count as int) + block@ =~= outbox0 + inbox0.take(nn));
        }
        count = count + block.len();
    }
}

/// Appends a block to the rolling window and keeps only the last five
/// bytes.
#[verifier::loop_isolation(false)]
fn update_window(window: &mut Vec<u8>, block: &Vec<u8>)
    requires
        old(window)@.len() <= 5,
        block@.len() <= 1024,
    ensures
        final(window)@ == tail_window(old(window)@ + block@),
        final(window)@.len() <= 5,
{
    let ghost joined = window@ + block@;
    let total = window.len() + block.len();
    let start = if total > 5 {
        total - 5
    } else {
        0
    };
    let mut fresh: Vec<u8> = Vec::new();
    let mut k = start;
    while k < total
        invariant
            start <= k <= total,
            total == joined.len(),
            total == window@.len() + block@.len(),
            window@.len() <= 5,
            start == if total > 5 {
                total - 5
            } else {
                0
            },
            joined == window@ + block@,
            fresh@ =~= joined.subrange(start as int, k as int),
        decreases total - k,
    {
        if k < window.len() {
            fresh.push(window[k]);
        } else {
            fresh.push(block[k - window.len()]);
        }
        k += 1;
    }
    *window = fresh;
    proof {
        assert(window@ =~= tail_window(joined));
    }
}

/// True when the rolling window holds exactly the chunked terminator.
fn window_is_terminator(window: &Vec<u8>) -> (b: bool)
    ensures
        b == (window@ == terminator()),
{
    if window.len() != 5 {
        proof {
            assert(terminator().len() == 5);
        }
        return false;
    }
    let b = window[0] == 48 && window[1] == 13 && window[2] == 10 && window[3] == 13 && window[4]
        == 10;
    proof {
        if b {
            assert(window@ =~= terminator());
        } else {
            assert(window@ != terminator());
        }
    }
    b
}

/// The straddle-carry law: appending a block to a prefix gives the same
/// window whether computed from the whole prefix or from the window so
/// far, so a terminator split across reads is still seen.
pub proof fn lemma_tail_window_append(s: Seq<u8>, b: Seq<u8>)
    ensures
        tail_window(tail_window(s) + b) == tail_window(s + b),
{
    assert(tail_window(tail_window(s) + b) =~= tail_window(s + b));
}

/// The window shows the terminator exactly when the transferred prefix
/// ends with it.
pub proof fn lemma_window_chunk_end(p: Seq<u8>)
    ensures
        chunk_end(p) <==> tail_window(p) == terminator(),
{
    if p.len() <= 5 {
        if tail_window(p) == terminator() {
            assert(p.skip(0) =~= p);
        }
        if chunk_end(p) {
            assert(p.skip(0) =~= p);
        }
    }
}

/// Relays a chunked body from `input` to `output` verbatim, flushing after
/// every write, watching the last five transferred bytes for the
/// terminator even when it straddles reads, and enforcing the optional
/// byte ceiling before each write.
#[verifier::loop_isolation(false)]
pub fn forward_chunked_body<I: Connection, O: Connection>(
    input: &mut I,
    output: &mut O,
    limit: Option<usize>,
) -> (r: Result<(), ErrorKind>)
    ensures
        match r {
            Ok(_) => {
                &&& chunked_ok(
                    old(input).inbox(),
                    final(input).inbox(),
                    old(output).outbox(),
                    final(output).outbox(),
                    opt_int(limit),
                )
                &&& final(input).outbox() == old(input).outbox()
                &&& final(input).flushed() == old(input).flushed()
                &&& final(output).inbox() == old(output).inbox()
                &&& (final(output).outbox() != old(output).outbox() ==> final(output).flushed()
                    == final(output).outbox())
                &&& (final(output).outbox() == old(output).outbox() ==> final(output).flushed()
                    == old(output).flushed())
            },
            Err(e) => match e {
                ErrorKind::ReadFailed | ErrorKind::WriteFailed => true,
                ErrorKind::SizeLimitExceeded(l) => {
                    &&& limit == Some(l)
                    &&& chunked_cut(
                        old(input).inbox(),
                        final(input).inbox(),
                        old(output).outbox(),
                        final(output).outbox(),
                        l as int,
                    )
                    &&& final(input).outbox() == old(input).outbox()
                    &&& final(input).flushed() == old(input).flushed()
                    &&& final(output).inbox() == old(output).inbox()
                    &&& (final(output).outbox() != old(output).outbox()
                        ==> final(output).flushed() == final(output).outbox())
                    &&& (final(output).outbox() == old(output).outbox()
                        ==> final(output).flushed() == old(output).flushed())
                },
                _ => false,
            },
        },
{
    let ghost inbox0 = input.inbox();
    let ghost outbox0 = output.outbox();
    let mut window: Vec<u8> = Vec::new();
    let mut rem: Option<usize> = limit;
    let ghost mut moved: int = 0;
    loop
        invariant
            0 <= moved <= inbox0.len(),
            input.inbox() == inbox0.skip(moved),
            output.outbox() == outbox0 + inbox0.take(moved),
            moved > 0 ==> output.flushed() == output.outbox(),
            moved == 0 ==> output.outbox() == outbox0 && output.flushed() == old(
                output,
            ).flushed(),
            window@.len() <= 5,
            window@ == tail_window(inbox0.take(moved)),
            rem is Some <==> limit is Some,
            (limit matches Some(l) ==> rem matches Some(rm) && moved + rm == l && (l > 0
                ==> rm >= 1)),
            input.outbox() == old(input).outbox(),
            input.flushed() == old(input).flushed(),
            output.inbox() == old(output).inbox(),
        decreases input.inbox().len(),
    {
        proof {
            assert(inbox0.take(0) =~= Seq::<u8>::empty());
            assert(outbox0 + Seq::<u8>::empty() =~= outbox0);
        }
        let ghost pre = input.inbox();
        let block = match input.read_block(1024) {
            Ok(block) => block,
            Err(_) => {
                return Err(ErrorKind::ReadFailed);
            },
        };
        match rem {
            Some(rm) => {
                if block.len() >= rm {
                    proof {
                        assert(input.inbox() =~= inbox0.skip(moved + block@.len()));
                    }
                    return Err(ErrorKind::SizeLimitExceeded(limit.unwrap()));
                }
                rem = Some(rm - block.len());
            },
            None => {},
        }
        if block.len() == 0 {
            // The peer closed before the terminator: accepted as a plain
            // stop.
            proof {
                assert(inbox0.len() == moved);
            }
            return Ok(());
        }
        match output.write_all(block.as_slice()) {
            Ok(_) => {},
            Err(_) => {
                return Err(ErrorKind::WriteFailed);
            },
        }
        match output.flush() {
            Ok(_) => {},
            Err(_) => {
                return Err(ErrorKind::WriteFailed);
            },
        }
        proof {
            lemma_tail_window_append(inbox0.take(moved), block@);
            let nn = moved + block@.len();
            assert(inbox0.take(moved) + block@ =~= inbox0.take(nn));
            assert(pre.skip(block@.len() as int) =~= inbox0.skip(nn));
            assert(outbox0 + inbox0.take(moved) + block@ =~= outbox0 + inbox0.take(nn));
            moved = nn;
        }
        update_window(&mut window, &block);
        if window_is_terminator(&window) {
            proof {
                lemma_window_chunk_end(inbox0.take(moved));
            }
            return Ok(());
        }
    }
}

/// Streams the body that `hdrs` frames from `input` to `output`: chunked
/// relay when `Transfer-Encoding` contains "chunked", otherwise a sized
/// relay of the declared `Content-Length` (absent meaning zero, zero
/// meaning no transfer at all), rejected up front when it is unreadable or
/// beyond the configured ceiling.
pub fn forward_body<I: Connection, O: Connection>(
    input: &mut I,
    output: &mut O,
    lines: &Vec<String>,
    limit: Option<usize>,
) -> (r: Result<(), ErrorKind>)
    ensures
        match r {
            Ok(_) => {
                &&& body_forwarded(
                    lines.deep_view(),
                    opt_int(limit),
                    old(input).inbox(),
                    final(input).inbox(),
                    old(output).outbox(),
                    final(output).outbox(),
                )
                &&& final(input).outbox() == old(input).outbox()
                &&& final(input).flushed() == old(input).flushed()
                &&& final(output).inbox() == old(output).inbox()
                &&& (final(output).outbox() != old(output).outbox() ==> final(output).flushed()
                    == final(output).outbox())
                &&& (final(output).outbox() == old(output).outbox() ==> final(output).flushed()
                    == old(output).flushed())
            },
            Err(e) => {
                &&& body_error_possible(lines.deep_view(), opt_int(limit), e)
                &&& (!(e is ReadFailed) && !(e is WriteFailed) && !is_chunked(lines.deep_view())
                    ==> final(input).inbox() == old(input).inbox() && final(output).outbox()
                    == old(output).outbox() && final(output).flushed() == old(output).flushed())
            },
        },
{
    let chunked = match read_header(lines, "Transfer-Encoding") {
        Some(encoding) => str_contains(encoding.as_str(), "chunked"),
        None => false,
    };
    if chunked {
        forward_chunked_body(input, output, limit)
    } else {
        let length = match read_header(lines, "Content-Length") {
            Some(text) => match string_to_usize(text.as_str()) {
                Some(length) => length,
                None => {
                    return Err(ErrorKind::InvalidHeader(String::from_str("Content-Length")));
                },
            },
            None => 0,
        };
        if length == 0 {
            return Ok(());
        }
        match limit {
            Some(l) => {
                if length > l {
                    return Err(ErrorKind::SizeLimitExceeded(l));
                }
            },
            None => {},
        }
        forward_sized_body(input, output, length)
    }
}

} // verus!
