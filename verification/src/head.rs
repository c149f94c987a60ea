use vstd::prelude::*;
use vstd::utf8::*;
use crate::errors::ErrorKind;
use crate::stream::Connection;

verus! {

// The protocol head reader consumes a byte stream until the blank-line
// terminator.  It is a five-stage machine: stage 0 is mid-line, stage 1 has
// seen the line's carriage return, stage 2 has seen the full line break,
// stage 3 has seen the second carriage return, and stage 4 (terminal) has
// seen the blank line that ends the head.  Stages 1 and 3 accept nothing
// but a line feed.

/// How running the head machine over a byte sequence can end.
pub enum HeadStatus {
    /// The blank-line terminator was reached.
    Complete,
    /// The bytes ran out before the terminator; accepted without error, the
    /// partial line buffer is discarded.
    Truncated,
    /// The configured byte ceiling was crossed first.
    TooLong,
    /// A carriage return not followed by a line feed, a line feed without
    /// one, or a line that is not valid text.
    Invalid,
}

/// Widens an optional byte count for use in specifications.
pub open spec fn opt_int(o: Option<usize>) -> Option<int> {
    match o {
        Some(v) => Some(v as int),
        None => None,
    }
}

/// One run of the head machine from a mid-parse state: `stage` and `buf`
/// are the machine stage and the unfinished line, `acc` the lines completed
/// so far, and `allow` how many further bytes the ceiling admits.  Yields
/// the outcome, the completed lines (sentinel included on success or
/// truncation), and the unconsumed rest of the bytes.
pub open spec fn head_machine(
    bytes: Seq<u8>,
    stage: int,
    buf: Seq<u8>,
    acc: Seq<Seq<char>>,
    allow: Option<int>,
) -> (HeadStatus, Seq<Seq<char>>, Seq<u8>)
    decreases bytes.len(),
{
    if bytes.len() == 0 {
        (HeadStatus::Truncated, acc.push(Seq::empty()), Seq::empty())
    } else if allow matches Some(a) && a <= 0 {
        (HeadStatus::TooLong, acc, Seq::empty())
    } else {
        let b = bytes[0];
        let left = match allow {
            Some(a) => Some(a - 1),
            None => None,
        };
        if b == 13 {
            if stage == 0 || stage == 2 {
                head_machine(bytes.skip(1), stage + 1, buf, acc, left)
            } else {
                (HeadStatus::Invalid, acc, Seq::empty())
            }
        } else if b == 10 {
            if (stage == 1 || stage == 3) && valid_utf8(buf) {
                if stage == 3 {
                    (
                        HeadStatus::Complete,
                        acc.push(decode_utf8(buf)).push(Seq::empty()),
                        bytes.skip(1),
                    )
                } else {
                    head_machine(bytes.skip(1), 2, Seq::empty(), acc.push(decode_utf8(buf)), left)
                }
            } else {
                (HeadStatus::Invalid, acc, Seq::empty())
            }
        } else {
            if stage == 1 || stage == 3 {
                (HeadStatus::Invalid, acc, Seq::empty())
            } else {
                head_machine(bytes.skip(1), 0, buf.push(b), acc, left)
            }
        }
    }
}

/// The head machine run from the start of a byte sequence with an optional
/// byte ceiling.
pub open spec fn parse_head(bytes: Seq<u8>, limit: Option<int>) -> (
    HeadStatus,
    Seq<Seq<char>>,
    Seq<u8>,
) {
    head_machine(bytes, 0, Seq::empty(), Seq::empty(), limit)
}

/// Which failures a head read can report for a given machine outcome: a
/// transport failure always, the data fault exactly on an invalid head,
/// and the ceiling fault exactly when the ceiling was crossed.
pub open spec fn head_error_possible(status: HeadStatus, limit: Option<usize>, e: ErrorKind) -> bool {
    match e {
        ErrorKind::ReadFailed => true,
        ErrorKind::InvalidData => status is Invalid,
        ErrorKind::SizeLimitExceeded(l) => status is TooLong && limit == Some(l),
        _ => false,
    }
}

/// Relies on `String::from_utf8`: it succeeds exactly on bytes that are
/// valid UTF-8 and decodes them to the characters they encode.
#[verifier::external_body]
fn bytes_to_string(bytes: Vec<u8>) -> (r: Option<String>)
    ensures
        r is Some <==> valid_utf8(bytes@),
        r matches Some(s) ==> s@ == decode_utf8(bytes@),
{
    match String::from_utf8(bytes) {
        Ok(s) => Some(s),
        Err(_) => None,
    }
}

/// Reads a protocol head from `input` into `lines`, one byte at a time,
/// until the blank-line terminator, the end of the stream, a protocol
/// fault, or the byte ceiling.  On success the parsed lines (with the
/// empty sentinel line) are appended to `lines` and the unread rest of the
/// stream is the body.  On a protocol fault or over the ceiling only the
/// lines already completed are appended, without the sentinel.
#[verifier::loop_isolation(false)]
pub fn read_protocol<C: Connection>(
    input: &mut C,
    lines: &mut Vec<String>,
    limit: Option<usize>,
) -> (r: Result<(), ErrorKind>)
    ensures
        ({
            let out = parse_head(old(input).inbox(), opt_int(limit));
            match r {
                Ok(_) => {
                    &&& (out.0 is Complete || out.0 is Truncated)
                    &&& final(lines).deep_view() == old(lines).deep_view() + out.1
                    &&& final(input).inbox() == out.2
                    &&& final(input).outbox() == old(input).outbox()
                    &&& final(input).flushed() == old(input).flushed()
                },
                Err(e) => {
                    &&& head_error_possible(out.0, limit, e)
                    &&& (!(e is ReadFailed) ==> {
                        &&& final(lines).deep_view() == old(lines).deep_view() + out.1
                        &&& final(input).outbox() == old(input).outbox()
                        &&& final(input).flushed() == old(input).flushed()
                    })
                },
            }
        }),
{
    let ghost inbox0 = input.inbox();
    let ghost lines0 = lines.deep_view();
    let ghost outbox0 = input.outbox();
    let ghost flushed0 = input.flushed();
    let mut buffer: Vec<u8> = Vec::new();
    let mut stage: u8 = 0;
    let mut allow: Option<usize> = limit;
    let ghost mut acc: Seq<Seq<char>> = Seq::empty();
    proof {
        assert(lines0 + acc =~= lines0);
    }
    loop
        invariant
            stage <= 3,
            allow is Some <==> limit is Some,
            lines.deep_view() == lines0 + acc,
            input.outbox() == outbox0,
            input.flushed() == flushed0,
            parse_head(inbox0, opt_int(limit)) == head_machine(
                input.inbox(),
                stage as int,
                buffer@,
                acc,
                opt_int(allow),
            ),
        decreases input.inbox().len(),
    {
        let ghost pre = input.inbox();
        let ghost stage0 = stage as int;
        let ghost buf0 = buffer@;
        let ghost acc0 = acc;
        let ghost allow0 = opt_int(allow);
        let block = match input.read_block(1) {
            Ok(block) => block,
            Err(_) => {
                return Err(ErrorKind::ReadFailed);
            },
        };
        proof {
            if block@.len() == 1 {
                assert(block@[0] == pre[0]);
                assert(input.inbox() =~= pre.skip(1));
            }
        }
        if block.len() == 0 {
            // The peer closed before the terminator: accepted as a plain
            // stop, with the sentinel marking the head's end.
            let ghost dv = lines.deep_view();
            lines.push(String::new());
            proof {
                assert(lines.deep_view() =~~= dv.push(Seq::empty()));
                assert(lines.deep_view() =~~= lines0 + acc.push(Seq::empty()));
            }
            return Ok(());
        }
        let byte = block[0];
        match allow {
            Some(a) => {
                if a == 0 {
                    proof {
                        assert(head_machine(pre, stage0, buf0, acc0, allow0).0 is TooLong);
                    }
                    return Err(ErrorKind::SizeLimitExceeded(limit.unwrap()));
                }
                allow = Some(a - 1);
            },
            None => {},
        }
        if byte == 13 {
            if stage == 0 || stage == 2 {
                stage = stage + 1;
            } else {
                proof {
                    assert(head_machine(pre, stage0, buf0, acc0, allow0).0 is Invalid);
                }
                return Err(ErrorKind::InvalidData);
            }
        } else if byte == 10 {
            if stage == 1 || stage == 3 {
                let full = buffer;
                buffer = Vec::new();
                match bytes_to_string(full) {
                    Some(line) => {
                        proof {
                            acc = acc.push(line@);
                        }
                        let ghost dv = lines.deep_view();
                        let ghost lv = line@;
                        lines.push(line);
                        proof {
                            assert(lines.deep_view() =~~= dv.push(lv));
                            assert(lines.deep_view() =~~= lines0 + acc);
                        }
                    },
                    None => {
                        proof {
                            assert(!valid_utf8(buf0));
                            assert(head_machine(pre, stage0, buf0, acc0, allow0).0 is Invalid);
                        }
                        return Err(ErrorKind::InvalidData);
                    },
                }
                if stage == 3 {
                    let ghost dv = lines.deep_view();
                    lines.push(String::new());
                    proof {
                        assert(lines.deep_view() =~~= dv.push(Seq::empty()));
                        assert(lines.deep_view() =~~= lines0 + acc.push(Seq::empty()));
                        assert(head_machine(pre, stage0, buf0, acc0, allow0) == (
                            HeadStatus::Complete,
                            acc.push(Seq::<char>::empty()),
                            pre.skip(1),
                        ));
                    }
                    return Ok(());
                }
                stage = 2;
            } else {
                proof {
                    assert(head_machine(pre, stage0, buf0, acc0, allow0).0 is Invalid);
                }
                return Err(ErrorKind::InvalidData);
            }
        } else {
            if stage == 1 || stage == 3 {
                proof {
                    assert(head_machine(pre, stage0, buf0, acc0, allow0).0 is Invalid);
                }
                return Err(ErrorKind::InvalidData);
            }
            buffer.push(byte);
            stage = 0;
        }
    }
}

} // verus!
