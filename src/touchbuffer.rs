use vstd::prelude::*;

verus! {

/// The length of a touch sample: open delimiter, seven payload bytes, close delimiter.
pub const TOUCH_PACKET_SIZE: usize = 9;

/// The number of payload bytes in a touch sample.
pub const TOUCH_PAYLOAD_SIZE: usize = 7;

/// The word that packing the first `n` bytes of `s` builds: each byte is
/// or-ed into the accumulator, which then moves up by one byte.
pub open spec fn packed(s: Seq<u8>, n: nat) -> u64
    decreases n,
{
    if n == 0 {
        0u64
    } else {
        ((packed(s, (n - 1) as nat) | (s[n - 1] as u64)) << 8u64) as u64
    }
}

/// Byte `k` (from the most significant end) of a word.
pub open spec fn word_byte(w: u64, k: int) -> u8 {
    ((w >> ((56 - 8 * k) as u64)) & 0xffu64) as u8
}

/// The seven payload bytes that a word holds: its big-endian bytes but the last.
pub open spec fn payload_of(w: u64) -> Seq<u8> {
    Seq::new(7, |k: int| word_byte(w, k))
}

/// The sample frame rebuilt around a payload.
pub open spec fn framed_sample(payload: Seq<u8>) -> Seq<u8> {
    seq![40u8] + payload + seq![41u8]
}

/// A touch sample: nine bytes, opening with `(` and closing with `)`.
pub open spec fn is_touch_sample(frame: Seq<u8>) -> bool {
    frame.len() == 9 && frame[0] == 40u8 && frame[8] == 41u8
}

proof fn lemma_packed_bytes(b0: u8, b1: u8, b2: u8, b3: u8, b4: u8, b5: u8, b6: u8)
    ensures
        ({
            let w = ((((((((((((((0u64 | b0 as u64) << 8u64) | b1 as u64) << 8u64) | b2 as u64)
                << 8u64) | b3 as u64) << 8u64) | b4 as u64) << 8u64) | b5 as u64) << 8u64)
                | b6 as u64) << 8u64);
            ((w >> 56u64) & 0xffu64) as u8 == b0 && ((w >> 48u64) & 0xffu64) as u8 == b1
                && ((w >> 40u64) & 0xffu64) as u8 == b2 && ((w >> 32u64) & 0xffu64) as u8 == b3
                && ((w >> 24u64) & 0xffu64) as u8 == b4 && ((w >> 16u64) & 0xffu64) as u8 == b5
                && ((w >> 8u64) & 0xffu64) as u8 == b6
        }),
{
    assert({
        let w = ((((((((((((((0u64 | b0 as u64) << 8u64) | b1 as u64) << 8u64) | b2 as u64)
            << 8u64) | b3 as u64) << 8u64) | b4 as u64) << 8u64) | b5 as u64) << 8u64)
            | b6 as u64) << 8u64);
        ((w >> 56u64) & 0xffu64) as u8 == b0 && ((w >> 48u64) & 0xffu64) as u8 == b1
            && ((w >> 40u64) & 0xffu64) as u8 == b2 && ((w >> 32u64) & 0xffu64) as u8 == b3
            && ((w >> 24u64) & 0xffu64) as u8 == b4 && ((w >> 16u64) & 0xffu64) as u8 == b5
            && ((w >> 8u64) & 0xffu64) as u8 == b6
    }) by (bit_vector);
}

/// Packing seven bytes and reading the word's first seven big-endian bytes
/// gives the same seven bytes back.
pub proof fn lemma_payload_of_packed(s: Seq<u8>)
    requires
        s.len() == 7,
    ensures
        payload_of(packed(s, 7)) == s,
{
    reveal_with_fuel(packed, 8);
    lemma_packed_bytes(s[0], s[1], s[2], s[3], s[4], s[5], s[6]);
    assert(payload_of(packed(s, 7)) =~= s);
}

/// The latest touch sample, held as one packed 64-bit word so that it can be
/// published and observed whole.
pub struct TouchBuffer {
    data: u64,
}

impl View for TouchBuffer {
    type V = Seq<u8>;

    closed spec fn view(&self) -> Seq<u8> {
        payload_of(self.data)
    }
}

impl Default for TouchBuffer {
    /// An all-zero sample.
    fn default() -> (r: TouchBuffer)
        ensures
            r@ == Seq::new(7, |k: int| 0u8),
    {
        let r = TouchBuffer { data: 0 };
        assert forall|k: int| 0 <= k < 7 implies word_byte(0u64, k) == 0u8 by {
            let sh = (56 - 8 * k) as u64;
            assert(((0u64 >> sh) & 0xffu64) == 0u64) by (bit_vector);
        }
        assert(r@ =~= Seq::new(7, |k: int| 0u8));
        r
    }
}

impl TouchBuffer {
    /// The packed word as it stands, for publishing through an atomic cell.
    pub fn word(&self) -> (r: u64)
        ensures
            payload_of(r) == self@,
    {
        self.data
    }

    /// A buffer holding a previously packed word.
    pub fn from_word(w: u64) -> (r: TouchBuffer)
        ensures
            r@ == payload_of(w),
    {
        TouchBuffer { data: w }
    }

    /// Publishes a nine-byte sample: its seven payload bytes become the
    /// buffer's contents. A frame of any other length leaves it unchanged.
    pub fn store(&mut self, buf: &[u8])
        ensures
            buf@.len() == 9 ==> final(self)@ == buf@.subrange(1, 8),
            buf@.len() != 9 ==> *final(self) == *old(self),
    {
        if buf.len() != TOUCH_PACKET_SIZE {
            return;
        }
        let ghost payload = buf@.subrange(1, 8);
        let mut combined: u64 = 0;
        let mut i: usize = 1;
        while i < 8
            invariant
                buf@.len() == 9,
                payload == buf@.subrange(1, 8),
                1 <= i <= 8,
                combined == packed(payload, (i - 1) as nat),
            decreases 8 - i,
        {
            combined = combined | (buf[i] as u64);
            combined = combined << 8u64;
            i = i + 1;
        }
        proof {
            lemma_payload_of_packed(payload);
        }
        self.data = combined;
    }

    /// Writes the sample into `buf`: `(`, the seven payload bytes, `)`.
    pub fn load(&self, buf: &mut Vec<u8>)
        ensures
            final(buf)@ == framed_sample(self@),
            final(buf)@.len() == 9,
    {
        buf.clear();
        buf.push(40u8);
        let val = self.data;
        let mut k: usize = 0;
        while k < TOUCH_PAYLOAD_SIZE
            invariant
                k <= 7,
                val == self.data,
                buf@ == seq![40u8] + self@.subrange(0, k as int),
            decreases 7 - k,
        {
            let shift = (56 - 8 * k) as u64;
            let b = ((val >> shift) & 0xffu64) as u8;
            buf.push(b);
            assert(self@.subrange(0, k + 1) =~= self@.subrange(0, k as int).push(b));
            k = k + 1;
        }
        buf.push(41u8);
        assert(self@.subrange(0, 7) =~= self@);
        assert(buf@ =~= framed_sample(self@));
    }
}

/// Publishing a touch sample and then observing the buffer gives the same
/// nine bytes back.
pub proof fn lemma_touch_round_trip(frame: Seq<u8>)
    requires
        is_touch_sample(frame),
    ensures
        framed_sample(frame.subrange(1, 8)) == frame,
{
    assert(framed_sample(frame.subrange(1, 8)) =~= frame);
}

} // verus!
