//! Pixels, one type for each order in which a strip takes the three channels.

use vstd::prelude::*;
use crate::sealed::Sealed;

verus! {

/// A pixel that knows in which order its channels go out on the wire.
pub trait ColorOrder: Sealed + Sized {
    /// The three bytes of the pixel in the order they are sent.
    spec fn spec_wire(&self) -> (u8, u8, u8);

    /// The three bytes of the pixel in the order they are sent.
    fn wire(&self) -> (bytes: [u8; 3])
        ensures
            bytes@ == seq![self.spec_wire().0, self.spec_wire().1, self.spec_wire().2],
    ;

    /// The pixel that is sent as the given three bytes.
    fn from_wire(bytes: [u8; 3]) -> (pixel: Self)
        ensures
            pixel.spec_wire() == (bytes@[0], bytes@[1], bytes@[2]),
    ;
}

/// A pixel sent red first, then green, then blue.
#[derive(Default, Clone, Copy, Debug, PartialEq, Eq, Structural)]
pub struct RGB {
    pub r: u8,
    pub g: u8,
    pub b: u8,
}

/// A pixel sent green first, then red, then blue.
#[derive(Default, Clone, Copy, Debug, PartialEq, Eq, Structural)]
pub struct GRB {
    pub g: u8,
    pub r: u8,
    pub b: u8,
}

/// A pixel sent blue first, then green, then red.
#[derive(Default, Clone, Copy, Debug, PartialEq, Eq, Structural)]
pub struct BGR {
    pub b: u8,
    pub g: u8,
    pub r: u8,
}

impl Sealed for RGB {
}

impl ColorOrder for RGB {
    open spec fn spec_wire(&self) -> (u8, u8, u8) {
        (self.r, self.g, self.b)
    }

    fn wire(&self) -> (bytes: [u8; 3]) {
        let bytes = [self.r, self.g, self.b];
        assert(bytes@ =~= seq![self.r, self.g, self.b]);
        bytes
    }

    fn from_wire(bytes: [u8; 3]) -> (pixel: Self) {
        RGB { r: bytes[0], g: bytes[1], b: bytes[2] }
    }
}

impl Sealed for GRB {
}

impl ColorOrder for GRB {
    open spec fn spec_wire(&self) -> (u8, u8, u8) {
        (self.g, self.r, self.b)
    }

    fn wire(&self) -> (bytes: [u8; 3]) {
        let bytes = [self.g, self.r, self.b];
        assert(bytes@ =~= seq![self.g, self.r, self.b]);
        bytes
    }

    fn from_wire(bytes: [u8; 3]) -> (pixel: Self) {
        GRB { g: bytes[0], r: bytes[1], b: bytes[2] }
    }
}

impl Sealed for BGR {
}

impl ColorOrder for BGR {
    open spec fn spec_wire(&self) -> (u8, u8, u8) {
        (self.b, self.g, self.r)
    }

    fn wire(&self) -> (bytes: [u8; 3]) {
        let bytes = [self.b, self.g, self.r];
        assert(bytes@ =~= seq![self.b, self.g, self.r]);
        bytes
    }

    fn from_wire(bytes: [u8; 3]) -> (pixel: Self) {
        BGR { b: bytes[0], g: bytes[1], r: bytes[2] }
    }
}

/// The bytes of a pixel buffer in the order they are sent: pixel after pixel,
/// three bytes each.
pub open spec fn wire_bytes<Order: ColorOrder>(pixels: Seq<Order>) -> Seq<u8>
    decreases pixels.len(),
{
    if pixels.len() == 0 {
        Seq::empty()
    } else {
        let w = pixels.last().spec_wire();
        wire_bytes(pixels.drop_last()) + seq![w.0, w.1, w.2]
    }
}

/// A buffer of `n` pixels is sent as `3 * n` bytes.
pub proof fn lemma_wire_bytes_len<Order: ColorOrder>(pixels: Seq<Order>)
    ensures
        wire_bytes(pixels).len() == 3 * pixels.len(),
    decreases pixels.len(),
{
    if pixels.len() > 0 {
        lemma_wire_bytes_len(pixels.drop_last());
    }
}

/// Lays a pixel buffer out as the bytes that are sent for it.
pub fn pixel_bytes<Order: ColorOrder>(data: &[Order]) -> (bytes: Vec<u8>)
    ensures
        bytes@ == wire_bytes(data@),
{
    let mut bytes: Vec<u8> = Vec::new();
    let mut i: usize = 0;
    while i < data.len()
        invariant
            i <= data.len(),
            bytes@ == wire_bytes(data@.take(i as int)),
        decreases data.len() - i,
    {
        let w = data[i].wire();
        bytes.push(w[0]);
        bytes.push(w[1]);
        bytes.push(w[2]);
        proof {
            let next = data@.take(i + 1);
            assert(next.drop_last() =~= data@.take(i as int));
            assert(next.last() == data@[i as int]);
            let sw = data@[i as int].spec_wire();
            assert(bytes@ =~= wire_bytes(data@.take(i as int)) + seq![sw.0, sw.1, sw.2]);
        }
        i = i + 1;
    }
    proof {
        assert(data@.take(data@.len() as int) =~= data@);
    }
    bytes
}

/// Reads pixels back from the bytes that were sent for them, three bytes to
/// a pixel. Bytes that do not fill whole pixels are refused.
pub fn unpack_pixels<Order: ColorOrder>(bytes: &[u8]) -> (r: Option<Vec<Order>>)
    ensures
        bytes@.len() % 3 == 0 ==> r.is_some() && r.unwrap()@.len() * 3 == bytes@.len()
            && wire_bytes(r.unwrap()@) == bytes@,
        bytes@.len() % 3 != 0 ==> r.is_none(),
{
    if bytes.len() % 3 != 0 {
        return None;
    }
    let count: usize = bytes.len() / 3;
    let mut pixels: Vec<Order> = Vec::new();
    let mut k: usize = 0;
    while k < count
        invariant
            k <= count,
            count * 3 == bytes@.len(),
            bytes@.len() <= usize::MAX,
            pixels@.len() == k,
            wire_bytes(pixels@) == bytes@.take(3 * k),
        decreases count - k,
    {
        let ghost before = pixels@;
        let at: usize = 3 * k;
        let pixel = Order::from_wire([bytes[at], bytes[at + 1], bytes[at + 2]]);
        pixels.push(pixel);
        proof {
            assert(pixels@.drop_last() =~= before);
            assert(bytes@.take(3 * (k + 1)) =~= bytes@.take(3 * k) + seq![
                bytes@[3 * k],
                bytes@[3 * k + 1],
                bytes@[3 * k + 2],
            ]);
        }
        k = k + 1;
    }
    proof {
        assert(bytes@.take(bytes@.len() as int) =~= bytes@);
    }
    Some(pixels)
}

} // verus!
