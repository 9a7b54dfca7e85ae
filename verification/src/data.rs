//! Frame codec: pure translation between a raw byte sequence and the ordered
//! sequence of LED colors it encodes.
//!
//! A well-formed wire payload is a flat byte sequence whose length is a
//! multiple of three; each consecutive `(red, green, blue)` triplet is one
//! LED, low strip index first, with no header.

use vstd::prelude::*;

verus! {

/// One LED's color: three 8-bit channel values. No alpha; a fourth,
/// always-zero channel exists only at the strip-driver boundary.
#[derive(Clone, Copy, Debug, PartialEq, Eq, Structural)]
pub struct Color {
    pub red: u8,
    pub green: u8,
    pub blue: u8,
}

/// Why an inbound payload was rejected. Recoverable: the offending
/// connection is closed, nothing else is affected.
#[derive(Clone, Copy, Debug, PartialEq, Eq, Structural)]
pub enum ProtocolError {
    /// The payload's byte count is not a multiple of three.
    InvalidFrameLength,
}

impl ProtocolError {
    /// A short human-readable description of the failure, for the
    /// per-connection log.
    pub fn message(&self) -> String {
        "data should have a length that is a multiple of three, considering there are 3 values for each led".to_string()
    }
}

/// A frame: the colors to drive to the strip, one per LED, order-significant
/// (position = LED index). Created once by the codec, immutable thereafter.
#[derive(Clone, Debug, PartialEq)]
pub struct Data {
    pub leds: Vec<Color>,
}

impl View for Data {
    type V = Seq<Color>;

    open spec fn view(&self) -> Seq<Color> {
        self.leds@
    }
}

/// The color held by the byte triplet starting at position `3 * i`.
pub open spec fn color_at(bytes: Seq<u8>, i: int) -> Color {
    Color { red: bytes[3 * i], green: bytes[3 * i + 1], blue: bytes[3 * i + 2] }
}

/// The frame a well-formed byte sequence decodes to: one color per triplet,
/// in input order.
pub open spec fn frame_of(bytes: Seq<u8>) -> Seq<Color> {
    Seq::new(bytes.len() / 3, |i: int| color_at(bytes, i))
}

/// The wire byte at position `j` of an encoded frame.
pub open spec fn channel_at(leds: Seq<Color>, j: int) -> u8 {
    if j % 3 == 0 {
        leds[j / 3].red
    } else if j % 3 == 1 {
        leds[j / 3].green
    } else {
        leds[j / 3].blue
    }
}

/// The wire bytes of a frame: each color as consecutive
/// `(red, green, blue)` bytes.
pub open spec fn bytes_of(leds: Seq<Color>) -> Seq<u8> {
    Seq::new(3 * leds.len(), |j: int| channel_at(leds, j))
}

impl Data {
    /// Decodes a wire payload. Succeeds exactly when the byte count is a
    /// multiple of three; any remainder is reported as a typed failure and
    /// no partial frame is produced.
    pub fn from_bytes_vec(bytes: Vec<u8>) -> (r: Result<Self, ProtocolError>)
        ensures
            r is Ok <==> bytes@.len() % 3 == 0,
            r matches Ok(d) ==> d@ == frame_of(bytes@),
            r matches Err(e) ==> e == ProtocolError::InvalidFrameLength,
    {
        let n = bytes.len();
        if n % 3 != 0 {
            return Err(ProtocolError::InvalidFrameLength);
        }
        let count = n / 3;
        let mut leds: Vec<Color> = Vec::new();
        let mut i: usize = 0;
        while i < count
            invariant
                n == bytes@.len(),
                n % 3 == 0,
                count == n / 3,
                i <= count,
                leds@.len() == i,
                forall|k: int| 0 <= k < i ==> leds@[k] == color_at(bytes@, k),
            decreases count - i,
        {
            assert(3 * i + 2 < n);
            let red = bytes[3 * i];
            let green = bytes[3 * i + 1];
            let blue = bytes[3 * i + 2];
            leds.push(Color { red, green, blue });
            i = i + 1;
        }
        proof {
            assert(leds@ =~= frame_of(bytes@));
        }
        Ok(Self { leds })
    }

    /// Encodes the frame back to its wire payload, the codec's inverse.
    pub fn encode(&self) -> (r: Vec<u8>)
        ensures
            r@ == bytes_of(self@),
    {
        let count = self.leds.len();
        let mut bytes: Vec<u8> = Vec::new();
        let mut i: usize = 0;
        while i < count
            invariant
                count == self.leds@.len(),
                i <= count,
                bytes@.len() == 3 * i,
                forall|k: int| 0 <= k < i ==> bytes@[3 * k] == self.leds@[k].red
                    && bytes@[3 * k + 1] == self.leds@[k].green
                    && bytes@[3 * k + 2] == self.leds@[k].blue,
            decreases count - i,
        {
            let led = self.leds[i];
            bytes.push(led.red);
            bytes.push(led.green);
            bytes.push(led.blue);
            i = i + 1;
        }
        proof {
            assert forall|j: int| 0 <= j < 3 * count implies bytes@[j] == channel_at(
                self@,
                j,
            ) by {
                let k = j / 3;
                assert(j == 3 * k + j % 3);
                assert(bytes@[3 * k] == self.leds@[k].red);
                assert(bytes@[3 * k + 1] == self.leds@[k].green);
                assert(bytes@[3 * k + 2] == self.leds@[k].blue);
            }
            assert(bytes@ =~= bytes_of(self@));
        }
        bytes
    }

    /// The number of LEDs the frame addresses.
    pub fn num_leds(&self) -> (n: usize)
        ensures
            n == self@.len(),
    {
        self.leds.len()
    }

    /// The channel values of the LED at strip index `i`.
    pub fn led(&self, i: usize) -> (c: (u8, u8, u8))
        requires
            i < self@.len(),
        ensures
            c == (self@[i as int].red, self@[i as int].green, self@[i as int].blue),
    {
        let led = self.leds[i];
        (led.red, led.green, led.blue)
    }
}

/// Round trip: re-encoding a decoded well-formed payload gives the payload
/// back, byte for byte.
pub proof fn lemma_encode_of_decode(bytes: Seq<u8>)
    requires
        bytes.len() % 3 == 0,
    ensures
        bytes_of(frame_of(bytes)) == bytes,
{
    let leds = frame_of(bytes);
    assert(3 * (bytes.len() / 3) == bytes.len());
    assert forall|j: int| 0 <= j < bytes.len() implies channel_at(leds, j) == bytes[j] by {
        let k = j / 3;
        assert(j == 3 * k + j % 3);
        assert(leds[k] == color_at(bytes, k));
    }
    assert(bytes_of(leds) =~= bytes);
}

/// The codec loses nothing in the other direction either: decoding an
/// encoded frame gives the frame back, color for color.
pub proof fn lemma_decode_of_encode(leds: Seq<Color>)
    ensures
        bytes_of(leds).len() % 3 == 0,
        frame_of(bytes_of(leds)) == leds,
{
    let bytes = bytes_of(leds);
    assert(bytes.len() == 3 * leds.len());
    assert(bytes.len() / 3 == leds.len());
    assert forall|i: int| 0 <= i < leds.len() implies color_at(bytes, i) == leds[i] by {
        assert(bytes[3 * i] == channel_at(leds, 3 * i));
        assert(bytes[3 * i + 1] == channel_at(leds, 3 * i + 1));
        assert(bytes[3 * i + 2] == channel_at(leds, 3 * i + 2));
        assert((3 * i) / 3 == i && (3 * i + 1) / 3 == i && (3 * i + 2) / 3 == i);
    }
    assert(frame_of(bytes) =~= leds);
}

} // verus!
