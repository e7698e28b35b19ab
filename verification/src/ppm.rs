//! A PPM image writer for the plain-text "P3" format: magic number,
//! width, height, the maximum pixel value, then one decimal triple per
//! pixel.  The writer assembles the bytes in memory with an exact
//! contract; an outer layer hands them to whatever sink it likes.

use crate::fixed::{fmul, tdiv, SCALE};
use vstd::arithmetic::div_mod::lemma_div_pos_is_pos;
use vstd::prelude::*;

verus! {

/// The decimal digits of a number, most significant first.
pub open spec fn spec_decimal(n: nat) -> Seq<u8>
    decreases n,
{
    if n < 10 {
        seq![(48 + n) as u8]
    } else {
        spec_decimal(n / 10).push((48 + n % 10) as u8)
    }
}

/// Append the decimal digits of `n`.
pub fn push_decimal(out: &mut Vec<u8>, n: u64)
    ensures
        final(out)@ == old(out)@ + spec_decimal(n as nat),
    decreases n,
{
    if n < 10 {
        out.push(48 + n as u8);
        assert(out@ =~= old(out)@ + spec_decimal(n as nat));
    } else {
        assert(n / 10 < n) by (nonlinear_arith)
            requires
                n >= 10,
        ;
        push_decimal(out, n / 10);
        out.push(48 + (n % 10) as u8);
        assert(out@ =~= old(out)@ + spec_decimal(n as nat));
    }
}

/// The byte a colour channel becomes: the channel scaled by 255,
/// truncated to whole units and clamped into the byte range, the
/// mirror of a saturating float-to-byte conversion.
pub open spec fn spec_channel_byte(p: int) -> u8 {
    let scaled = fmul(255_000_000, p);
    let units = tdiv(scaled, SCALE as int);
    if units < 0 {
        0
    } else if units > 255 {
        255
    } else {
        units as u8
    }
}

/// One channel's text: its byte value in decimal, then a space.
pub open spec fn spec_channel_text(p: int) -> Seq<u8> {
    spec_decimal(spec_channel_byte(p) as nat).push(32)
}

/// The text of a whole buffer of channel triples.
pub open spec fn spec_pixel_bytes(data: Seq<i64>) -> Seq<u8>
    decreases data.len(),
{
    if data.len() < 3 {
        Seq::empty()
    } else {
        spec_channel_text(data[0] as int) + spec_channel_text(data[1] as int)
            + spec_channel_text(data[2] as int) + spec_pixel_bytes(data.skip(3))
    }
}

/// The "P3\n" magic number opening every plain PPM file.
pub open spec fn spec_magic() -> Seq<u8> {
    seq![80u8, 51u8, 10u8]
}

/// The metadata line: width, height and the maximum pixel value.
pub open spec fn spec_metadata(width: nat, height: nat, max_pixel_val: nat) -> Seq<u8> {
    spec_decimal(width).push(32) + spec_decimal(height).push(10) + spec_decimal(
        max_pixel_val,
    ).push(10)
}

/// Scale a fixed-point channel to its byte value.
fn channel_byte(p: i64) -> (r: u8)
    ensures
        r == spec_channel_byte(p as int),
{
    let scaled = crate::fixed::fx_mul(255_000_000, p);
    if scaled <= 0 {
        proof {
            if scaled < 0 {
                lemma_div_pos_is_pos(-(scaled as int), SCALE as int);
            } else {
                lemma_div_pos_is_pos(scaled as int, SCALE as int);
            }
        }
        0
    } else {
        let units = (scaled as u64) / (SCALE as u64);
        if units > 255 {
            255
        } else {
            units as u8
        }
    }
}

/// A plain-text PPM writer assembling its output in memory.
#[derive(Debug)]
pub struct PPMWriter {
    pub out: Vec<u8>,
}

impl PPMWriter {
    /// A writer with nothing written yet.
    pub fn new() -> (r: PPMWriter)
        ensures
            r.out@ == Seq::<u8>::empty(),
    {
        PPMWriter { out: Vec::new() }
    }

    /// The bytes written so far.
    pub fn bytes(&self) -> (r: &Vec<u8>)
        ensures
            r@ == self.out@,
    {
        &self.out
    }

    /// Write a whole image: magic number, metadata, pixel data.
    pub fn write(&mut self, image_data: &Vec<i64>, width: usize, height: usize)
        requires
            image_data@.len() % 3 == 0,
        ensures
            final(self).out@ == old(self).out@ + spec_magic() + spec_metadata(
                width as nat,
                height as nat,
                255,
            ) + spec_pixel_bytes(image_data@),
    {
        self.write_magic_number();
        self.write_metadata(width, height, 255);
        self.write_image_data(image_data);
        assert(self.out@ =~= old(self).out@ + spec_magic() + spec_metadata(
            width as nat,
            height as nat,
            255,
        ) + spec_pixel_bytes(image_data@));
    }

    /// Write the "P3\n" magic number.
    pub fn write_magic_number(&mut self)
        ensures
            final(self).out@ == old(self).out@ + spec_magic(),
    {
        self.out.push(80);
        self.out.push(51);
        self.out.push(10);
        assert(self.out@ =~= old(self).out@ + spec_magic());
    }

    /// Write the metadata line: width, height, maximum pixel value.
    pub fn write_metadata(&mut self, width: usize, height: usize, max_pixel_val: u32)
        ensures
            final(self).out@ == old(self).out@ + spec_metadata(
                width as nat,
                height as nat,
                max_pixel_val as nat,
            ),
    {
        push_decimal(&mut self.out, width as u64);
        self.out.push(32);
        push_decimal(&mut self.out, height as u64);
        self.out.push(10);
        push_decimal(&mut self.out, max_pixel_val as u64);
        self.out.push(10);
        assert(self.out@ =~= old(self).out@ + spec_metadata(
            width as nat,
            height as nat,
            max_pixel_val as nat,
        ));
    }

    /// Write every pixel as three decimal channel values, each
    /// followed by a space.
    pub fn write_image_data(&mut self, image_data: &Vec<i64>)
        requires
            image_data@.len() % 3 == 0,
        ensures
            final(self).out@ == old(self).out@ + spec_pixel_bytes(image_data@),
    {
        let ghost all = image_data@;
        let ghost base = self.out@;
        proof {
            assert(all.skip(0) =~= all);
        }
        let mut i: usize = 0;
        while i < image_data.len()
            invariant
                all == image_data@,
                i <= all.len(),
                i % 3 == 0,
                all.len() % 3 == 0,
                self.out@ + spec_pixel_bytes(all.skip(i as int)) == base + spec_pixel_bytes(all),
            decreases all.len() - i,
        {
            assert(i + 3 <= all.len());
            let r = channel_byte(image_data[i]);
            let g = channel_byte(image_data[i + 1]);
            let b = channel_byte(image_data[i + 2]);
            push_decimal(&mut self.out, r as u64);
            self.out.push(32);
            push_decimal(&mut self.out, g as u64);
            self.out.push(32);
            push_decimal(&mut self.out, b as u64);
            self.out.push(32);
            proof {
                assert(all.skip(i as int).skip(3) =~= all.skip(i + 3));
                assert(self.out@ + spec_pixel_bytes(all.skip(i + 3)) =~= base + spec_pixel_bytes(
                    all,
                ));
            }
            i = i + 3;
        }
        proof {
            assert(spec_pixel_bytes(all.skip(i as int)) =~= Seq::<u8>::empty());
            assert(self.out@ =~= old(self).out@ + spec_pixel_bytes(all));
        }
    }
}

} // verus!
