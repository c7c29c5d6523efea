use vstd::prelude::*;
use vstd::slice::slice_subrange;
use crate::bytes::find_byte;

verus! {

/// The open and close bytes that bound a link's frames.
#[derive(Clone, Copy, Debug, PartialEq, Eq, Structural)]
pub struct PacketDelimiter {
    pub open: u8,
    pub close: u8,
}

/// The display link's frames: `{` ... `}`.
pub fn alls_packet() -> (r: PacketDelimiter)
    ensures
        r.open == 123u8 && r.close == 125u8,
{
    PacketDelimiter { open: 123u8, close: 125u8 }
}

/// The sensor link's frames: `(` ... `)`.
pub fn adx_packet() -> (r: PacketDelimiter)
    ensures
        r.open == 40u8 && r.close == 41u8,
{
    PacketDelimiter { open: 40u8, close: 41u8 }
}

/// No byte of `s` is `b`.
pub open spec fn lacks(s: Seq<u8>, b: u8) -> bool {
    forall|j: int| 0 <= j < s.len() ==> s[j] != b
}

/// Where the framer stands in reading one frame.
#[derive(Clone, Copy, Debug, PartialEq, Eq, Structural)]
pub enum FramePhase {
    /// Discarding bytes up to and including the open delimiter.
    Skipping,
    /// Appending bytes up to and including the close delimiter.
    Collecting,
    /// The frame is complete.
    Complete,
}

/// A failed read on a link.
#[derive(Clone, Copy, Debug, PartialEq, Eq, Structural)]
pub enum ReadFault {
    TimedOut,
    Interrupted,
    Other,
}

/// Whether a read that failed this way is tried again: a timeout or an
/// interruption is retried, any other failure ends the read.
pub fn retry_after(fault: ReadFault) -> (r: bool)
    ensures
        r == (fault != ReadFault::Other),
{
    match fault {
        ReadFault::Other => false,
        _ => true,
    }
}

/// Extracts one frame from a byte stream handed over in chunks.
pub struct Framer {
    pub delim: PacketDelimiter,
    pub phase: FramePhase,
}

impl Framer {
    /// Starts a frame: the caller's buffer is cleared and seeded with the open
    /// delimiter.
    pub fn begin(buffer: &mut Vec<u8>, delim: PacketDelimiter) -> (r: Framer)
        ensures
            final(buffer)@ == seq![delim.open],
            r.delim == delim,
            r.phase == FramePhase::Skipping,
    {
        buffer.clear();
        buffer.push(delim.open);
        Framer { delim, phase: FramePhase::Skipping }
    }

    pub fn is_complete(&self) -> (r: bool)
        ensures
            r == (self.phase == FramePhase::Complete),
    {
        self.phase == FramePhase::Complete
    }

    /// Takes the bytes that the stream has at hand and returns how many of
    /// them it used. While skipping, it uses bytes up to and including the
    /// first open delimiter; while collecting, it appends bytes up to and
    /// including the first close delimiter. An empty chunk is the end of the
    /// stream, which ends the phase at hand.
    pub fn feed(&mut self, buffer: &mut Vec<u8>, available: &[u8]) -> (used: usize)
        ensures
            final(self).delim == old(self).delim,
            used <= available@.len(),
            old(self).phase == FramePhase::Complete ==> used == 0 && *final(self) == *old(self)
                && final(buffer)@ == old(buffer)@,
            old(self).phase != FramePhase::Complete && available@.len() == 0 ==> used == 0
                && final(buffer)@ == old(buffer)@
                && final(self).phase == (if old(self).phase == FramePhase::Skipping {
                    FramePhase::Collecting
                } else {
                    FramePhase::Complete
                }),
            old(self).phase == FramePhase::Skipping && available@.len() > 0 ==> 0 < used
                && final(buffer)@ == old(buffer)@ && (if lacks(available@, old(self).delim.open) {
                    used == available@.len() && final(self).phase == FramePhase::Skipping
                } else {
                    final(self).phase == FramePhase::Collecting
                        && available@[used - 1] == old(self).delim.open
                        && lacks(available@.take(used - 1), old(self).delim.open)
                }),
            old(self).phase == FramePhase::Collecting && available@.len() > 0 ==> 0 < used
                && final(buffer)@ == old(buffer)@ + available@.take(used as int)
                && (if lacks(available@, old(self).delim.close) {
                    used == available@.len() && final(self).phase == FramePhase::Collecting
                } else {
                    final(self).phase == FramePhase::Complete
                        && available@[used - 1] == old(self).delim.close
                        && lacks(available@.take(used - 1), old(self).delim.close)
                }),
    {
        match self.phase {
            FramePhase::Complete => 0,
            FramePhase::Skipping => {
                if available.len() == 0 {
                    self.phase = FramePhase::Collecting;
                    return 0;
                }
                match find_byte(self.delim.open, available) {
                    Some(i) => {
                        self.phase = FramePhase::Collecting;
                        assert(available@.take(i as int) =~= available@.take((i + 1) - 1));
                        i + 1
                    },
                    None => available.len(),
                }
            },
            FramePhase::Collecting => {
                if available.len() == 0 {
                    self.phase = FramePhase::Complete;
                    return 0;
                }
                let used = match find_byte(self.delim.close, available) {
                    Some(i) => {
                        self.phase = FramePhase::Complete;
                        assert(available@.take(i as int) =~= available@.take((i + 1) - 1));
                        i + 1
                    },
                    None => available.len(),
                };
                let ghost before = buffer@;
                let mut k: usize = 0;
                while k < used
                    invariant
                        used <= available@.len(),
                        k <= used,
                        buffer@ == before + available@.take(k as int),
                    decreases used - k,
                {
                    buffer.push(available[k]);
                    assert(available@.take(k + 1) =~= available@.take(k as int).push(available@[k as int]));
                    k = k + 1;
                }
                used
            },
        }
    }
}

/// The first open delimiter of `stream` stands at `i`, and the first close
/// delimiter after it at `j`.
pub open spec fn frame_bounds(stream: Seq<u8>, delim: PacketDelimiter, i: int, j: int) -> bool {
    0 <= i < j < stream.len() && stream[i] == delim.open && lacks(stream.take(i), delim.open)
        && stream[j] == delim.close && lacks(stream.subrange(i + 1, j), delim.close)
}

/// Reads one frame from the bytes of a stream, which ends where the slice
/// ends. The buffer receives the open delimiter and every byte after the first
/// open delimiter up to and including the next close delimiter; the result
/// is the number of bytes of `stream` used.
pub fn read_packet(buffer: &mut Vec<u8>, stream: &[u8], packet: &PacketDelimiter) -> (used: usize)
    ensures
        used <= stream@.len(),
        final(buffer)@.len() >= 1 && final(buffer)@[0] == packet.open,
        forall|i: int, j: int| frame_bounds(stream@, *packet, i, j) ==> final(buffer)@ == seq![packet.open]
            + stream@.subrange(i + 1, j + 1) && used == j + 1,
        lacks(stream@, packet.open) ==> final(buffer)@ == seq![packet.open] && used == stream@.len(),
        forall|i: int| 0 <= i < stream@.len() && stream@[i] == packet.open && lacks(stream@.take(i), packet.open)
            && lacks(stream@.subrange(i + 1, stream@.len() as int), packet.close)
            ==> final(buffer)@ == seq![packet.open] + stream@.subrange(i + 1, stream@.len() as int)
                && used == stream@.len(),
{
    let len = stream.len();
    let ghost s = stream@;
    let ghost o = packet.open;
    let ghost c = packet.close;
    let mut framer = Framer::begin(buffer, *packet);
    let skipped = framer.feed(buffer, stream);
    if !(framer.phase == FramePhase::Collecting) {
        let _ = framer.feed(buffer, slice_subrange(stream, len, len));
    }
    let rest = slice_subrange(stream, skipped, len);
    let ghost mid = buffer@;
    let collected = framer.feed(buffer, rest);
    if !framer.is_complete() {
        let _ = framer.feed(buffer, slice_subrange(stream, len, len));
    }
    proof {
        assert(mid == seq![o]);
        assert forall|i: int| 0 <= i < s.len() && s[i] == o && lacks(s.take(i), o)
            implies skipped == i + 1 && rest@ == s.subrange(i + 1, s.len() as int) by {
            assert(!lacks(s, o));
            if skipped - 1 < i {
                assert(s.take(i)[skipped - 1] == o);
            } else if skipped - 1 > i {
                assert(s.take(skipped - 1)[i] == o);
            }
        }
        assert forall|i: int, j: int| frame_bounds(s, *packet, i, j) implies buffer@ == seq![o]
            + s.subrange(i + 1, j + 1) && skipped + collected == j + 1 by {
            let r = rest@;
            let k = j - (i + 1);
            assert(r[k] == c);
            assert(!lacks(r, c));
            if collected - 1 < k {
                assert(s.subrange(i + 1, j)[collected - 1] == r[collected - 1]);
            } else if collected - 1 > k {
                assert(r.take(collected - 1)[k] == c);
            }
            assert(r.take(collected as int) =~= s.subrange(i + 1, j + 1));
        }
        assert forall|i: int| 0 <= i < s.len() && s[i] == o && lacks(s.take(i), o)
            && lacks(s.subrange(i + 1, s.len() as int), c)
            implies buffer@ == seq![o] + s.subrange(i + 1, s.len() as int)
                && skipped + collected == s.len() by {
            if rest@.len() > 0 {
                assert(rest@.take(collected as int) =~= rest@);
            } else {
                assert(s.subrange(i + 1, s.len() as int) =~= Seq::<u8>::empty());
                assert(buffer@ =~= seq![o] + s.subrange(i + 1, s.len() as int));
            }
        }
    }
    skipped + collected
}

/// A stream of noise without an open delimiter, followed by a delimited frame
/// whose body holds no close delimiter, frames at exactly that frame: reading
/// it yields the open delimiter, the body and the close delimiter.
pub proof fn lemma_frame_after_noise(
    noise: Seq<u8>,
    body: Seq<u8>,
    rest: Seq<u8>,
    delim: PacketDelimiter,
)
    requires
        lacks(noise, delim.open),
        lacks(body, delim.close),
    ensures
        ({
            let s = noise + seq![delim.open] + body + seq![delim.close] + rest;
            let i = noise.len() as int;
            let j = i + body.len() + 1;
            let frame = seq![delim.open] + body + seq![delim.close];
            &&& frame_bounds(s, delim, i, j)
            &&& seq![delim.open] + s.subrange(i + 1, j + 1) == frame
            &&& frame[0] == delim.open
            &&& frame[frame.len() - 1] == delim.close
        }),
{
    let s = noise + seq![delim.open] + body + seq![delim.close] + rest;
    let i = noise.len() as int;
    let j = i + body.len() + 1;
    assert(s.take(i) =~= noise);
    assert(s.subrange(i + 1, j) =~= body);
    assert(s.subrange(i + 1, j + 1) =~= body + seq![delim.close]);
    assert(seq![delim.open] + s.subrange(i + 1, j + 1) =~= seq![delim.open] + body + seq![delim.close]);
}

} // verus!
