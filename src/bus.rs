//! The shared byte bus, and moving whole frames across it.
use vstd::prelude::*;

verus! {

/// A blocking byte bus shared with the capture board.
pub trait Bus {
    /// Every byte written to the bus so far, oldest first. A verified
    /// implementation defines it, as the contract of `putch` cannot hold of the
    /// default; the default serves implementations written outside Verus.
    closed spec fn sent(&self) -> Seq<u8> {
        Seq::empty()
    }

    /// Every byte read from the bus so far, oldest first. As with `sent`, a
    /// verified implementation defines it; the default cannot meet `getch`.
    closed spec fn received(&self) -> Seq<u8> {
        Seq::empty()
    }

    /// Write one byte.
    fn putch(&mut self, c: u8)
        ensures
            final(self).sent() == old(self).sent().push(c),
            final(self).received() == old(self).received(),
    ;

    /// Read one byte, blocking until one arrives.
    fn getch(&mut self) -> (r: u8)
        ensures
            final(self).sent() == old(self).sent(),
            final(self).received() == old(self).received().push(r),
    ;
}

/// An in-memory bus that loops every written byte back to the reader, first in
/// first out; reading it while it is empty gives zero bytes.
pub struct ModelStream {
    queue: Vec<u8>,
    history: Ghost<Seq<u8>>,
    taken: Ghost<Seq<u8>>,
}

impl View for ModelStream {
    type V = Seq<u8>;

    /// The bytes waiting to be read, oldest first.
    closed spec fn view(&self) -> Seq<u8> {
        self.queue@
    }
}

impl ModelStream {
    /// An empty stream.
    pub fn new() -> (r: ModelStream)
        ensures
            r@ == Seq::<u8>::empty(),
            r.sent() == Seq::<u8>::empty(),
            r.received() == Seq::<u8>::empty(),
    {
        ModelStream { queue: Vec::new(), history: Ghost(Seq::empty()), taken: Ghost(Seq::empty()) }
    }

    /// Drop every byte waiting to be read.
    pub fn flush(&mut self)
        ensures
            final(self)@ == Seq::<u8>::empty(),
            final(self).sent() == old(self).sent(),
            final(self).received() == old(self).received(),
    {
        self.queue = Vec::new();
    }
}

impl Bus for ModelStream {
    closed spec fn sent(&self) -> Seq<u8> {
        self.history@
    }

    closed spec fn received(&self) -> Seq<u8> {
        self.taken@
    }

    fn putch(&mut self, c: u8)
        ensures
            final(self)@ == old(self)@.push(c),
    {
        self.queue.push(c);
        self.history = Ghost(self.history@.push(c));
    }

    fn getch(&mut self) -> (r: u8)
        ensures
            old(self)@.len() == 0 ==> r == 0 && final(self)@ == old(self)@,
            old(self)@.len() > 0 ==> r == old(self)@[0] && final(self)@ == old(self)@.drop_first(),
    {
        let r = if self.queue.len() == 0 {
            0
        } else {
            self.queue.remove(0)
        };
        self.taken = Ghost(self.taken@.push(r));
        r
    }
}

/// The bytes of `s` up to and including its first zero byte; all of `s` if it
/// holds none.
pub open spec fn up_to_terminator(s: Seq<u8>) -> Seq<u8>
    decreases s.len(),
{
    if s.len() == 0 {
        s
    } else if s[0] == 0 {
        seq![0u8]
    } else {
        seq![s[0]] + up_to_terminator(s.drop_first())
    }
}

pub(crate) proof fn lemma_up_to_terminator_split(s: Seq<u8>, i: int)
    requires
        0 <= i <= s.len(),
        forall|j: int| 0 <= j < i ==> s[j] != 0,
    ensures
        up_to_terminator(s) == s.take(i) + up_to_terminator(s.skip(i)),
    decreases i,
{
    if i == 0 {
        assert(s.skip(0) =~= s);
        assert(s.take(0) + s =~= s);
    } else {
        let t = s.drop_first();
        lemma_up_to_terminator_split(t, i - 1);
        assert(t.skip(i - 1) =~= s.skip(i));
        assert(seq![s[0]] + t.take(i - 1) =~= s.take(i));
        assert(seq![s[0]] + (t.take(i - 1) + up_to_terminator(s.skip(i))) =~= s.take(i)
            + up_to_terminator(s.skip(i)));
    }
}

/// Write a buffer to the bus, byte by byte, up to and including its first zero byte.
pub fn write_away<B: Bus>(bus: &mut B, buffer: &[u8; 256])
    ensures
        final(bus).sent() == old(bus).sent() + up_to_terminator(buffer@),
        final(bus).received() == old(bus).received(),
{
    let mut i: usize = 0;
    while i < 256
        invariant
            0 <= i <= 256,
            forall|j: int| 0 <= j < i ==> buffer@[j] != 0,
            bus.sent() == old(bus).sent() + buffer@.take(i as int),
            bus.received() == old(bus).received(),
        decreases 256 - i,
    {
        let token = buffer[i];
        bus.putch(token);
        proof {
            assert(buffer@.take(i + 1) =~= buffer@.take(i as int).push(token));
        }
        if token == 0 {
            proof {
                lemma_up_to_terminator_split(buffer@, i as int);
                assert(up_to_terminator(buffer@.skip(i as int)) =~= seq![0u8]);
                assert(buffer@.take(i as int) + seq![0u8] =~= buffer@.take(i as int).push(0));
            }
            return;
        }
        i = i + 1;
    }
    proof {
        lemma_up_to_terminator_split(buffer@, 256);
        assert(buffer@.skip(256) =~= Seq::<u8>::empty());
        assert(buffer@.take(256) =~= buffer@);
    }
}

/// What a read of one frame leaves: `size` counts the bytes read, terminator
/// included. Either a zero byte ended the read, and the buffer holds zero from
/// there on, or 256 bytes arrived with no zero among them.
pub open spec fn is_read_frame(buffer: Seq<u8>, size: int) -> bool {
    &&& buffer.len() == 256
    &&& 1 <= size <= 256
    &&& forall|j: int| 0 <= j < size - 1 ==> buffer[j] != 0
    &&& (forall|j: int| size - 1 <= j < 256 ==> buffer[j] == 0) || (size == 256 && buffer[255] != 0)
}

/// Read bytes from the bus until a zero byte arrives or 256 bytes have been read.
/// Returns the bytes read, the zero byte left out, and their count with the zero
/// byte counted. The bytes taken from the bus are exactly the first `r.1` of the
/// buffer: those before the zero byte and the zero byte itself, or all 256 when
/// none came.
pub fn read_away<B: Bus>(bus: &mut B) -> (r: ([u8; 256], usize))
    ensures
        is_read_frame(r.0@, r.1 as int),
        final(bus).received() == old(bus).received() + r.0@.take(r.1 as int),
        final(bus).sent() == old(bus).sent(),
{
    let mut byte_array: [u8; 256] = [0u8; 256];
    let mut i: usize = 0;
    while i < 256
        invariant
            0 <= i <= 256,
            bus.sent() == old(bus).sent(),
            bus.received() == old(bus).received() + byte_array@.take(i as int),
            forall|j: int| 0 <= j < i ==> byte_array@[j] != 0,
            forall|j: int| i <= j < 256 ==> byte_array@[j] == 0,
        decreases 256 - i,
    {
        let ghost before = byte_array@;
        let token = bus.getch();
        if token == 0 {
            proof {
                assert(byte_array@.take(i + 1) =~= byte_array@.take(i as int).push(token));
            }
            return (byte_array, i + 1);
        }
        byte_array[i] = token;
        proof {
            assert(byte_array@.take(i + 1) =~= before.take(i as int).push(token));
        }
        i = i + 1;
    }
    proof {
        assert(byte_array@.take(256) =~= byte_array@);
    }
    (byte_array, 256)
}

} // verus!
