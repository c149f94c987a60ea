use vstd::prelude::*;
use vstd::string::*;

verus! {

/// A byte-stream endpoint as the relay sees it.
///
/// The model is three byte sequences: `inbox` is what the peer will still
/// deliver (empty once the peer has closed), `outbox` is every byte accepted
/// for sending so far, and `flushed` is the prefix of the outbox already
/// pushed out to the peer.
pub trait Connection: Sized {
    /// The bytes still to be read from the peer.  The default model is
    /// the empty stream; every implementation meant for verified callers
    /// overrides it.
    open spec fn inbox(&self) -> Seq<u8> {
        Seq::empty()
    }

    /// Every byte accepted for sending so far, in order.
    open spec fn outbox(&self) -> Seq<u8> {
        Seq::empty()
    }

    /// The part of the outbox already pushed out to the peer.
    open spec fn flushed(&self) -> Seq<u8> {
        Seq::empty()
    }

    /// Reads a block of at most `max` bytes from the front of the inbox.
    /// A successful read returns an empty block exactly when the peer has
    /// closed or `max` is zero; otherwise it makes progress.  On failure
    /// nothing is promised about the endpoint.
    fn read_block(&mut self, max: usize) -> (r: Result<Vec<u8>, ()>)
        ensures
            match r {
                Ok(block) => {
                    &&& block@.len() <= max
                    &&& block@.len() <= old(self).inbox().len()
                    &&& block@ == old(self).inbox().take(block@.len() as int)
                    &&& final(self).inbox() == old(self).inbox().skip(block@.len() as int)
                    &&& final(self).outbox() == old(self).outbox()
                    &&& final(self).flushed() == old(self).flushed()
                    &&& (block@.len() == 0 <==> (old(self).inbox().len() == 0 || max == 0))
                },
                Err(_) => true,
            },
    ;

    /// Appends all of `bytes` to the outbox.  On failure nothing is
    /// promised about the endpoint.
    fn write_all(&mut self, bytes: &[u8]) -> (r: Result<(), ()>)
        ensures
            match r {
                Ok(_) => {
                    &&& final(self).outbox() == old(self).outbox() + bytes@
                    &&& final(self).inbox() == old(self).inbox()
                    &&& final(self).flushed() == old(self).flushed()
                },
                Err(_) => true,
            },
    ;

    /// Pushes every accepted byte out to the peer.  On failure nothing is
    /// promised about the endpoint.
    fn flush(&mut self) -> (r: Result<(), ()>)
        ensures
            match r {
                Ok(_) => {
                    &&& final(self).flushed() == old(self).outbox()
                    &&& final(self).outbox() == old(self).outbox()
                    &&& final(self).inbox() == old(self).inbox()
                },
                Err(_) => true,
            },
    ;
}

/// Why opening an upstream connection failed.
#[derive(Debug, Clone, PartialEq, Eq, Structural)]
pub enum ConnectError {
    /// The host text could not be turned into a connectable address.
    BadHost,
    /// The address was fine but no connection could be established.
    Unreachable,
}

/// Opens connections to named hosts and remembers which hosts were asked
/// for, so that callers can state where a relay connected.
pub trait Connector: Sized {
    /// The connection type this connector hands out.
    type Conn: Connection;

    /// The hosts asked for so far, in order, attempts included.  The
    /// default model is the empty record; every implementation meant for
    /// verified callers overrides it.
    open spec fn contacted(&self) -> Seq<Seq<char>> {
        Seq::empty()
    }

    /// Resolves `host` and opens a fresh connection to it; nothing has been
    /// sent or flushed on a fresh connection.
    fn connect(&mut self, host: &str) -> (r: Result<Self::Conn, ConnectError>)
        ensures
            final(self).contacted() == old(self).contacted().push(host@),
            match r {
                Ok(conn) => conn.outbox().len() == 0 && conn.flushed().len() == 0,
                Err(_) => true,
            },
    ;
}

/// An in-memory byte-stream endpoint: reads come from a preloaded buffer in
/// blocks of a chosen size, writes accumulate in an output buffer.  It backs
/// the test doubles for real sockets and lets read boundaries be steered.
pub struct MemoryConnection {
    data: Vec<u8>,
    pos: usize,
    out: Vec<u8>,
    out_flushed: usize,
    cap: usize,
    faulty: bool,
}

impl MemoryConnection {
    #[verifier::type_invariant]
    spec fn wf(self) -> bool {
        &&& self.pos <= self.data@.len()
        &&& self.out_flushed <= self.out@.len()
        &&& self.cap >= 1
    }

    /// A fresh endpoint that will deliver `input`, at most `cap` bytes per
    /// read (a zero `cap` is raised to one).
    pub fn new(input: Vec<u8>, cap: usize) -> (r: Self)
        ensures
            r.inbox() == input@,
            r.outbox().len() == 0,
            r.flushed().len() == 0,
    {
        let step: usize = if cap == 0 {
            1
        } else {
            cap
        };
        let r = MemoryConnection {
            data: input,
            pos: 0,
            out: Vec::new(),
            out_flushed: 0,
            cap: step,
            faulty: false,
        };
        proof {
            assert(r.inbox() =~= r.data@);
        }
        r
    }

    /// An endpoint whose every read, write and flush reports a transport
    /// failure.
    pub fn faulty() -> (r: Self) {
        MemoryConnection {
            data: Vec::new(),
            pos: 0,
            out: Vec::new(),
            out_flushed: 0,
            cap: 1,
            faulty: true,
        }
    }

    /// How many preloaded bytes are still unread.
    pub fn remaining(&self) -> (r: usize)
        ensures
            r == self.inbox().len(),
    {
        proof {
            use_type_invariant(self);
        }
        self.data.len() - self.pos
    }

    /// The bytes accepted for sending so far.
    pub fn sent_bytes(&self) -> (r: &Vec<u8>)
        ensures
            r@ == self.outbox(),
    {
        &self.out
    }

    /// How many of the accepted bytes have been flushed to the peer.
    pub fn flushed_count(&self) -> (r: usize)
        ensures
            r == self.flushed().len(),
    {
        proof {
            use_type_invariant(self);
        }
        self.out_flushed
    }
}

impl Connection for MemoryConnection {
    closed spec fn inbox(&self) -> Seq<u8> {
        self.data@.skip(self.pos as int)
    }

    closed spec fn outbox(&self) -> Seq<u8> {
        self.out@
    }

    closed spec fn flushed(&self) -> Seq<u8> {
        self.out@.take(self.out_flushed as int)
    }

    fn read_block(&mut self, max: usize) -> (r: Result<Vec<u8>, ()>) {
        proof {
            use_type_invariant(&*self);
        }
        if self.faulty {
            return Err(());
        }
        let mut take: usize = self.data.len() - self.pos;
        if take > max {
            take = max;
        }
        if take > self.cap {
            take = self.cap;
        }
        let mut block: Vec<u8> = Vec::new();
        let mut k: usize = 0;
        while k < take
            invariant
                k <= take,
                self.pos + take <= self.data@.len(),
                self.data@.len() <= usize::MAX,
                block@ =~= self.data@.subrange(self.pos as int, self.pos + k),
            decreases take - k,
        {
            block.push(self.data[self.pos + k]);
            k += 1;
        }
        proof {
            assert(block@ =~= self.inbox().take(take as int));
            assert(self.data@.skip(self.pos + take) =~= self.inbox().skip(take as int));
        }
        self.pos = self.pos + take;
        Ok(block)
    }

    fn write_all(&mut self, bytes: &[u8]) -> (r: Result<(), ()>) {
        proof {
            use_type_invariant(&*self);
        }
        if self.faulty {
            return Err(());
        }
        let ghost out0 = self.out@;
        let ghost fl0 = self.out_flushed as int;
        let mut taken = MemoryConnection {
            data: Vec::new(),
            pos: 0,
            out: Vec::new(),
            out_flushed: 0,
            cap: 1,
            faulty: false,
        };
        core::mem::swap(self, &mut taken);
        let MemoryConnection { data, pos, mut out, out_flushed, cap, faulty } = taken;
        out.extend_from_slice(bytes);
        *self = MemoryConnection { data, pos, out, out_flushed, cap, faulty };
        proof {
            assert(self.out@.take(fl0) =~= out0.take(fl0));
            assert(self.inbox() =~= old(self).inbox());
        }
        Ok(())
    }

    fn flush(&mut self) -> (r: Result<(), ()>) {
        proof {
            use_type_invariant(&*self);
        }
        if self.faulty {
            return Err(());
        }
        self.out_flushed = self.out.len();
        proof {
            assert(self.out@.take(self.out@.len() as int) =~= self.out@);
        }
        Ok(())
    }
}

/// An in-memory connector: each successful connection delivers the next
/// preloaded payload, and every host asked for is recorded.
pub struct MemoryConnector {
    payloads: Vec<Vec<u8>>,
    cap: usize,
    hosts: Vec<String>,
}

impl MemoryConnector {
    /// A connector whose successive connections will deliver `payloads`,
    /// each in blocks of at most `cap` bytes; once the payloads run out,
    /// connecting fails as unreachable.
    pub fn new(payloads: Vec<Vec<u8>>, cap: usize) -> (r: Self)
        ensures
            r.contacted().len() == 0,
    {
        MemoryConnector { payloads, cap, hosts: Vec::new() }
    }

    /// The hosts asked for so far, in order.
    pub fn contacted_hosts(&self) -> (r: &Vec<String>)
        ensures
            r.deep_view() == self.contacted(),
    {
        &self.hosts
    }
}

impl Connector for MemoryConnector {
    type Conn = MemoryConnection;

    closed spec fn contacted(&self) -> Seq<Seq<char>> {
        self.hosts.deep_view()
    }

    fn connect(&mut self, host: &str) -> (r: Result<MemoryConnection, ConnectError>) {
        let ghost hosts0 = self.hosts.deep_view();
        self.hosts.push(String::from_str(host));
        proof {
            assert(self.hosts.deep_view() =~= hosts0.push(host@));
        }
        if self.payloads.len() == 0 {
            Err(ConnectError::Unreachable)
        } else {
            let payload = self.payloads.remove(0);
            Ok(MemoryConnection::new(payload, self.cap))
        }
    }
}

} // verus!
