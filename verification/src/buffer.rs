use vstd::prelude::*;
use crate::pixel::Pixel;

verus! {

/// The mathematical image a `PixelBuffer` stands for: a width x height grid
/// of RGBA samples in row-major order, origin at the top-left corner.
#[verifier::ext_equal]
pub ghost struct ImageView {
    pub width: int,
    pub height: int,
    pub samples: Seq<Pixel>,
}

impl ImageView {
    /// The grid holds exactly one sample per cell.
    pub open spec fn wf(self) -> bool {
        &&& self.samples.len() == self.width * self.height
        &&& self.width >= 0
        &&& self.height >= 0
    }

    /// Index of the sample at column `x`, row `y`.
    pub open spec fn idx(self, x: int, y: int) -> int {
        y * self.width + x
    }

    pub open spec fn in_bounds(self, x: int, y: int) -> bool {
        0 <= x < self.width && 0 <= y < self.height
    }

    pub open spec fn sample_at(self, x: int, y: int) -> Pixel {
        self.samples[self.idx(x, y)]
    }
}

/// An owned grid of 4-channel 8-bit samples, row-major, origin top-left.
#[derive(Debug)]
pub struct PixelBuffer {
    pub width: u32,
    pub height: u32,
    pub samples: Vec<Pixel>,
}

impl View for PixelBuffer {
    type V = ImageView;

    open spec fn view(&self) -> ImageView {
        ImageView {
            width: self.width as int,
            height: self.height as int,
            samples: self.samples@,
        }
    }
}

impl PixelBuffer {
    /// Invariant: one sample per grid cell.
    pub open spec fn wf(&self) -> bool {
        self@.wf()
    }

    /// A solid buffer: every sample is `fill`.
    pub fn new_filled(width: u32, height: u32, fill: Pixel) -> (buf: PixelBuffer)
        requires
            width * height <= usize::MAX,
        ensures
            buf.wf(),
            buf.width == width,
            buf.height == height,
            forall|i: int| 0 <= i < buf@.samples.len() ==> buf@.samples[i] == fill,
    {
        let total: usize = (width as usize) * (height as usize);
        let mut samples: Vec<Pixel> = Vec::new();
        let mut i: usize = 0;
        while i < total
            invariant
                i <= total,
                samples@.len() == i,
                forall|j: int| 0 <= j < i ==> samples@[j] == fill,
            decreases total - i,
        {
            samples.push(fill);
            i = i + 1;
        }
        PixelBuffer { width, height, samples }
    }

    /// Wraps a sample vector as a buffer, if its length fits the grid exactly.
    pub fn from_samples(width: u32, height: u32, samples: Vec<Pixel>) -> (r: Option<PixelBuffer>)
        ensures
            match r {
                Some(buf) => {
                    &&& buf.wf()
                    &&& buf.width == width
                    &&& buf.height == height
                    &&& buf@.samples == samples@
                    &&& samples@.len() == width * height
                },
                None => samples@.len() != width * height,
            },
    {
        proof {
            vstd::arithmetic::mul::lemma_mul_upper_bound(
                width as int,
                u32::MAX as int,
                height as int,
                u32::MAX as int,
            );
        }
        let expect: u64 = (width as u64) * (height as u64);
        if samples.len() as u64 == expect {
            Some(PixelBuffer { width, height, samples })
        } else {
            None
        }
    }

    /// Reads the sample at column `x`, row `y`.
    pub fn get(&self, x: u32, y: u32) -> (p: Pixel)
        requires
            self.wf(),
            self@.in_bounds(x as int, y as int),
        ensures
            p == self@.sample_at(x as int, y as int),
    {
        let _samples_len: usize = self.samples.len();
        proof {
            idx_in_range(self@, x as int, y as int);
        }
        let i: usize = (y as usize) * (self.width as usize) + (x as usize);
        self.samples[i]
    }

    /// Writes the sample at column `x`, row `y`.
    pub fn set(&mut self, x: u32, y: u32, p: Pixel)
        requires
            old(self).wf(),
            old(self)@.in_bounds(x as int, y as int),
        ensures
            final(self).wf(),
            final(self).width == old(self).width,
            final(self).height == old(self).height,
            final(self)@.samples == old(self)@.samples.update(old(self)@.idx(x as int, y as int), p),
    {
        let _samples_len: usize = self.samples.len();
        proof {
            idx_in_range(old(self)@, x as int, y as int);
        }
        let i: usize = (y as usize) * (self.width as usize) + (x as usize);
        self.samples.set(i, p);
    }
}

/// The samples flattened to bytes, four per pixel, channel order R, G, B, A.
pub open spec fn bytes_of(samples: Seq<Pixel>) -> Seq<u8> {
    Seq::new(
        4 * samples.len(),
        |i: int|
            {
                let p = samples[i / 4];
                if i % 4 == 0 {
                    p.r
                } else if i % 4 == 1 {
                    p.g
                } else if i % 4 == 2 {
                    p.b
                } else {
                    p.a
                }
            },
    )
}

impl PixelBuffer {
    /// The buffer's samples as one flat byte vector.
    pub fn to_raw_bytes(&self) -> (r: Vec<u8>)
        ensures
            r@ == bytes_of(self@.samples),
    {
        let n = self.samples.len();
        let mut out: Vec<u8> = Vec::new();
        let mut i: usize = 0;
        while i < n
            invariant
                n == self@.samples.len(),
                i <= n,
                out@.len() == 4 * i,
                forall|j: int| 0 <= j < 4 * i ==> out@[j] == bytes_of(self@.samples)[j],
            decreases n - i,
        {
            let p = self.samples[i];
            out.push(p.r);
            out.push(p.g);
            out.push(p.b);
            out.push(p.a);
            proof {
                assert forall|k: int| 0 <= k < 4 implies #[trigger] out@[4 * i + k] == bytes_of(
                    self@.samples,
                )[4 * i + k] by {
                    vstd::arithmetic::div_mod::lemma_fundamental_div_mod_converse(
                        4 * i + k,
                        4,
                        i as int,
                        k,
                    );
                }
            }
            i = i + 1;
        }
        proof {
            assert(out@ =~= bytes_of(self@.samples));
        }
        out
    }

    /// A buffer rebuilt from a flat byte vector, if its length fits the grid.
    pub fn from_raw_bytes(width: u32, height: u32, bytes: Vec<u8>) -> (r: Option<PixelBuffer>)
        ensures
            match r {
                Some(buf) => {
                    &&& buf.wf()
                    &&& buf.width == width
                    &&& buf.height == height
                    &&& bytes@ == bytes_of(buf@.samples)
                },
                None => bytes@.len() != 4 * width * height,
            },
    {
        proof {
            vstd::arithmetic::mul::lemma_mul_upper_bound(
                4 * (width as int),
                4 * (u32::MAX as int),
                height as int,
                u32::MAX as int,
            );
        }
        let expect: u128 = 4u128 * (width as u128) * (height as u128);
        if (bytes.len() as u128) != expect {
            return None;
        }
        proof {
            assert((4 * (width as int)) * (height as int) == 4 * ((width as int) * (
            height as int))) by (nonlinear_arith);
            vstd::arithmetic::div_mod::lemma_div_multiples_vanish(
                (width as int) * (height as int),
                4,
            );
        }
        let total: usize = bytes.len() / 4;
        let mut samples: Vec<Pixel> = Vec::new();
        let mut i: usize = 0;
        while i < total
            invariant
                bytes@.len() == 4 * total,
                4 * total <= usize::MAX,
                i <= total,
                samples@.len() == i,
                forall|j: int|
                    0 <= j < i ==> samples@[j] == (Pixel {
                        r: bytes@[4 * j],
                        g: bytes@[4 * j + 1],
                        b: bytes@[4 * j + 2],
                        a: bytes@[4 * j + 3],
                    }),
            decreases total - i,
        {
            let p = Pixel {
                r: bytes[4 * i],
                g: bytes[4 * i + 1],
                b: bytes[4 * i + 2],
                a: bytes[4 * i + 3],
            };
            samples.push(p);
            i = i + 1;
        }
        proof {
            assert(bytes@ =~= bytes_of(samples@)) by {
                assert forall|j: int| 0 <= j < bytes@.len() implies bytes@[j] == bytes_of(
                    samples@,
                )[j] by {
                    vstd::arithmetic::div_mod::lemma_fundamental_div_mod(j, 4);
                    vstd::arithmetic::div_mod::lemma_mod_bound(j, 4);
                }
            }
            assert(samples@.len() == width * height);
        }
        Some(PixelBuffer { width, height, samples })
    }
}

/// The row-major index of an in-bounds cell lies inside the grid.
pub proof fn idx_in_range(img: ImageView, x: int, y: int)
    requires
        img.wf(),
        img.in_bounds(x, y),
    ensures
        0 <= img.idx(x, y) < img.samples.len(),
{
    vstd::arithmetic::mul::lemma_mul_inequality(y, img.height - 1, img.width);
    vstd::arithmetic::mul::lemma_mul_is_distributive_sub(img.width, img.height, 1);
}

} // verus!
