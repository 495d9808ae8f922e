//! The pixel buffer and the sampling drivers: a serial fill, a parallel
//! fill over rayon behind a trusted wrapper, and the plain-text
//! serialization of the buffer in bottom-to-top row order.
use vstd::prelude::*;

use rayon::iter::IntoParallelIterator;
use rayon::iter::ParallelExtend;
use rayon::iter::ParallelIterator;

use crate::camera::Camera;
use crate::colors::{color_line, dec_spec, push_dec, write_color_to_writer};
use crate::fx::Fx;
use crate::hittable_list::{HittableList, best_t, list_wf};
use crate::ray::{T_EPS_RAW, T_LIM_RAW, ray_color, ray_ok};
use crate::utils::random_double;
use crate::vec3::{Color, V3, vbounded, vlen_sq};

verus! {

/// The pixel accumulator buffer with its dimensions and sample count.
pub struct Canvas {
    pub pixels: Vec<Color>,
    pub samples_per_pixel: usize,
    pub xsize: usize,
    pub ysize: usize,
}

/// The position of a flat buffer index: column, then row.
pub fn index_to_xy(xsize: usize, index: usize) -> (r: (usize, usize))
    requires
        xsize >= 1,
    ensures
        r.0 == index as int % xsize as int,
        r.1 == index as int / xsize as int,
{
    (index % xsize, index / xsize)
}

/// Whether every ray the camera can produce for the unit-square sample
/// range misses the scene, whatever the lens sample and shutter time.
pub open spec fn pixel_misses_all(cam: Camera, world: HittableList) -> bool {
    forall|u: int, v: int, d: V3, q: int|
        0 <= u <= 65536 && 0 <= v <= 65536 && vbounded(d, 65535) && vlen_sq(d) < 65536 && d.z == 0
            && cam.time0.0 <= q < cam.time1.0 ==> {
            let rm = #[trigger] cam.ray_spec(u, v, d, q);
            !ray_ok(rm) || best_t(world.objects@, rm, T_EPS_RAW as int, T_LIM_RAW as int) is None
        }
}

/// One pixel of the sampling driver: draws `samples_per_pixel` jittered
/// sub-pixel samples, casts each through the camera, and sums the
/// radiance estimator's results into the accumulator; the averaging
/// happens at serialization. Each sample's image coordinate is the pixel
/// index plus an independent uniform offset, clamped to the unit square.
/// A pixel whose every possible primary ray misses the scene accumulates
/// exactly the background, once per sample.
pub fn sample_pixel(
    cam: &Camera,
    world: &HittableList,
    background: &Color,
    i: usize,
    j: usize,
    nx: usize,
    ny: usize,
    samples_per_pixel: usize,
    depth: i32,
) -> (c: Color)
    requires
        cam.wf(),
        list_wf(world.objects@),
        vbounded(background@, 0x4000_0000),
        2 <= nx <= 0x10000,
        2 <= ny <= 0x10000,
        i < nx,
        j < ny,
        1 <= samples_per_pixel <= 0x8000,
    ensures
        vbounded(c@, samples_per_pixel * 0x8000_0000),
        (depth >= 1 && pixel_misses_all(*cam, *world)) ==> c@ == (V3 {
            x: samples_per_pixel * background@.x,
            y: samples_per_pixel * background@.y,
            z: samples_per_pixel * background@.z,
        }),
{
    let mut pixel_color = Color::new();
    let mut s: usize = 0;
    while s < samples_per_pixel
        invariant
            cam.wf(),
            list_wf(world.objects@),
            vbounded(background@, 0x4000_0000),
            2 <= nx <= 0x10000,
            2 <= ny <= 0x10000,
            i < nx,
            j < ny,
            samples_per_pixel <= 0x8000,
            s <= samples_per_pixel,
            vbounded(pixel_color@, s * 0x8000_0000),
            (depth >= 1 && pixel_misses_all(*cam, *world)) ==> pixel_color@ == (V3 {
                x: s * background@.x,
                y: s * background@.y,
                z: s * background@.z,
            }),
        decreases samples_per_pixel - s,
    {
        let ghost prev = pixel_color@;
        let ju = random_double(Fx(0), Fx(65536));
        let jv = random_double(Fx(0), Fx(65536));
        let u = Fx((i as i64) * 65536 + ju.0).div(Fx(((nx - 1) as i64) * 65536)).min(
            Fx(65536),
        ).max(Fx(0));
        let v = Fx((j as i64) * 65536 + jv.0).div(Fx(((ny - 1) as i64) * 65536)).min(
            Fx(65536),
        ).max(Fx(0));
        let r = cam.get_ray(u, v);
        let sample = ray_color(r, background, world, depth);
        proof {
            if depth >= 1 && pixel_misses_all(*cam, *world) {
                let (d, q) = choose|d: V3, q: int|
                    vbounded(d, 65535) && vlen_sq(d) < 65536 && d.z == 0 && cam.time0.0 <= q
                        < cam.time1.0 && r@ == #[trigger] cam.ray_spec(
                        u.0 as int,
                        v.0 as int,
                        d,
                        q,
                    );
                assert(!ray_ok(r@) || best_t(
                    world.objects@,
                    r@,
                    T_EPS_RAW as int,
                    T_LIM_RAW as int,
                ) is None);
                assert(sample@ == background@);
                assert((s + 1) * background@.x == s * background@.x + background@.x)
                    by (nonlinear_arith);
                assert((s + 1) * background@.y == s * background@.y + background@.y)
                    by (nonlinear_arith);
                assert((s + 1) * background@.z == s * background@.z + background@.z)
                    by (nonlinear_arith);
            }
        }
        pixel_color.add(sample);
        s = s + 1;
    }
    pixel_color
}

/// The rows of the buffer in bottom-to-top order, flattened.
pub open spec fn rows_rev(p: Seq<Color>, x: int, hi: int) -> Seq<Color>
    decreases hi,
{
    if hi <= 0 {
        Seq::empty()
    } else {
        p.subrange((hi - 1) * x, hi * x) + rows_rev(p, x, hi - 1)
    }
}

/// The serialized lines of a sequence of pixels, in order.
pub open spec fn lines_of(cols: Seq<Color>, spp: int) -> Seq<u8>
    decreases cols.len(),
{
    if cols.len() == 0 {
        Seq::empty()
    } else {
        lines_of(cols.drop_last(), spp) + color_line(cols.last()@, spp)
    }
}

impl Canvas {
    /// Consistent dimensions, a usable sample count, and accumulators
    /// within the serializable range.
    pub open spec fn wf(self) -> bool {
        self.pixels@.len() == self.xsize * self.ysize && 1 <= self.samples_per_pixel
            <= 0x8000_0000 && 1 <= self.xsize && 1 <= self.ysize && (forall|q: int|
            0 <= q < self.pixels@.len() ==> vbounded(
                (#[trigger] self.pixels@[q])@,
                0x4000_0000_0000,
            ))
    }

    /// Fills the buffer serially: one call of `f` per pixel, rows in
    /// reading order.
    pub fn from_fn<F: Fn(usize, usize) -> Color>(
        x: usize,
        y: usize,
        samples_per_pixel: usize,
        f: F,
    ) -> (r: Canvas)
        requires
            1 <= x,
            1 <= y,
            x * y <= usize::MAX,
            1 <= samples_per_pixel <= 0x8000_0000,
            forall|i: usize, j: usize| i < x && j < y ==> call_requires(f, (i, j)),
            forall|a: (usize, usize), b: Color|
                call_ensures(f, a, b) ==> vbounded(b@, 0x4000_0000_0000),
        ensures
            r.wf(),
            r.xsize == x,
            r.ysize == y,
            r.samples_per_pixel == samples_per_pixel,
            r.pixels@.len() == x * y,
            forall|jj: int, ii: int|
                0 <= jj < y && 0 <= ii < x ==> call_ensures(
                    f,
                    (ii as usize, jj as usize),
                    #[trigger] r.pixels@[jj * x + ii],
                ),
    {
        let mut pixels: Vec<Color> = Vec::new();
        let mut j: usize = 0;
        while j < y
            invariant
                j <= y,
                x * y <= usize::MAX,
                pixels@.len() == j * x,
                forall|i: usize, jj: usize| i < x && jj < y ==> call_requires(f, (i, jj)),
                forall|a: (usize, usize), b: Color|
                    call_ensures(f, a, b) ==> vbounded(b@, 0x4000_0000_0000),
                forall|jj: int, ii: int|
                    0 <= jj < j && 0 <= ii < x ==> call_ensures(
                        f,
                        (ii as usize, jj as usize),
                        #[trigger] pixels@[jj * x + ii],
                    ),
                forall|q: int|
                    0 <= q < pixels@.len() ==> vbounded(
                        (#[trigger] pixels@[q])@,
                        0x4000_0000_0000,
                    ),
            decreases y - j,
        {
            let mut i: usize = 0;
            proof {
                assert((j + 1) * x <= y * x && y * x == x * y) by (nonlinear_arith)
                    requires
                        j < y;
            }
            while i < x
                invariant
                    i <= x,
                    j < y,
                    x * y <= usize::MAX,
                    (j + 1) * x <= x * y,
                    pixels@.len() == j * x + i,
                    forall|ip: usize, jj: usize| ip < x && jj < y ==> call_requires(f, (ip, jj)),
                    forall|a: (usize, usize), b: Color|
                        call_ensures(f, a, b) ==> vbounded(b@, 0x4000_0000_0000),
                    forall|jj: int, ii: int|
                        0 <= jj < j && 0 <= ii < x ==> call_ensures(
                            f,
                            (ii as usize, jj as usize),
                            #[trigger] pixels@[jj * x + ii],
                        ),
                    forall|ii: int|
                        0 <= ii < i ==> call_ensures(
                            f,
                            (ii as usize, j),
                            #[trigger] pixels@[j * x + ii],
                        ),
                    forall|q: int|
                        0 <= q < pixels@.len() ==> vbounded(
                            (#[trigger] pixels@[q])@,
                            0x4000_0000_0000,
                        ),
                decreases x - i,
            {
                proof {
                    assert(j * x + i < (j + 1) * x) by (nonlinear_arith)
                        requires
                            i < x;
                }
                let pix = f(i, j);
                pixels.push(pix);
                proof {
                    assert forall|jj: int, ii: int|
                        0 <= jj < j && 0 <= ii < x implies call_ensures(
                        f,
                        (ii as usize, jj as usize),
                        #[trigger] pixels@[jj * x + ii],
                    ) by {
                        assert(jj * x + ii < j * x) by (nonlinear_arith)
                            requires
                                0 <= jj < j as int,
                                0 <= ii < x as int;
                    }
                }
                i = i + 1;
            }
            proof {
                assert(j * x + x == (j + 1) * x) by (nonlinear_arith);
                assert forall|jj: int, ii: int|
                    0 <= jj < j + 1 && 0 <= ii < x implies call_ensures(
                    f,
                    (ii as usize, jj as usize),
                    #[trigger] pixels@[jj * x + ii],
                ) by {
                    if jj == j {
                        assert(call_ensures(f, (ii as usize, j), pixels@[j as int * x as int + ii]));
                    } else {
                        assert(jj * x + ii < j * x) by (nonlinear_arith)
                            requires
                                0 <= jj < j as int,
                                0 <= ii < x as int;
                    }
                }
            }
            j = j + 1;
        }
        proof {
            assert(y * x == x * y) by (nonlinear_arith);
        }
        Canvas { pixels, samples_per_pixel, xsize: x, ysize: y }
    }

    /// Fills the buffer in parallel. Relies on rayon's indexed parallel
    /// iterators: `par_extend` over a mapped index range produces exactly
    /// the elements of the serial map, in index order, one call of the
    /// closure per index.
    #[verifier::external_body]
    pub fn from_fn_parallel<F: Fn(usize, usize) -> Color + Send + Sync>(
        x: usize,
        y: usize,
        samples_per_pixel: usize,
        f: F,
    ) -> (r: Canvas)
        requires
            1 <= x,
            1 <= y,
            x * y <= usize::MAX,
            1 <= samples_per_pixel <= 0x8000_0000,
            forall|i: usize, j: usize| i < x && j < y ==> call_requires(f, (i, j)),
            forall|a: (usize, usize), b: Color|
                call_ensures(f, a, b) ==> vbounded(b@, 0x4000_0000_0000),
        ensures
            r.wf(),
            r.xsize == x,
            r.ysize == y,
            r.samples_per_pixel == samples_per_pixel,
            r.pixels@.len() == x * y,
            forall|jj: int, ii: int|
                0 <= jj < y && 0 <= ii < x ==> call_ensures(
                    f,
                    (ii as usize, jj as usize),
                    #[trigger] r.pixels@[jj * x + ii],
                ),
    {
        let size = x * y;
        let mut pixels: Vec<Color> = Vec::with_capacity(size);
        pixels.par_extend((0..size).into_par_iter().map(|idx| {
            let (xi, yi) = index_to_xy(x, idx);
            f(xi, yi)
        }));
        Canvas { pixels, samples_per_pixel, xsize: x, ysize: y }
    }

    /// The pixels in serialization order: rows bottom to top.
    pub fn iter_pixels(&self) -> (r: Vec<Color>)
        requires
            self.wf(),
        ensures
            r@ == rows_rev(self.pixels@, self.xsize as int, self.ysize as int),
            r@.len() == self.xsize * self.ysize,
            forall|q: int| 0 <= q < r@.len() ==> vbounded((#[trigger] r@[q])@, 0x4000_0000_0000),
    {
        let x = self.xsize;
        let y = self.ysize;
        let total = self.pixels.len();
        let mut out: Vec<Color> = Vec::new();
        let mut jr: usize = 0;
        while jr < y
            invariant
                self.wf(),
                x == self.xsize,
                y == self.ysize,
                x * y <= usize::MAX,
                jr <= y,
                out@.len() == jr * x,
                out@ + rows_rev(self.pixels@, x as int, (y - jr) as int) == rows_rev(
                    self.pixels@,
                    x as int,
                    y as int,
                ),
                forall|q: int|
                    0 <= q < out@.len() ==> vbounded((#[trigger] out@[q])@, 0x4000_0000_0000),
            decreases y - jr,
        {
            let row = y - 1 - jr;
            let ghost out0 = out@;
            let mut i: usize = 0;
            proof {
                assert(row * x + x <= y * x && y * x == x * y && jr * x + x == (jr + 1) * x)
                    by (nonlinear_arith)
                    requires
                        row < y;
            }
            while i < x
                invariant
                    self.wf(),
                    x == self.xsize,
                    y == self.ysize,
                    x * y <= usize::MAX,
                    row < y,
                    row * x + x <= x * y,
                    i <= x,
                    out@.len() == out0.len() + i,
                    out@ == out0 + self.pixels@.subrange(
                        row as int * x as int,
                        row as int * x as int + i as int,
                    ),
                    forall|q: int|
                        0 <= q < out@.len() ==> vbounded((#[trigger] out@[q])@, 0x4000_0000_0000),
                decreases x - i,
            {
                proof {
                    assert(self.pixels@.subrange(
                        row as int * x as int,
                        row as int * x as int + i as int + 1,
                    ) =~= self.pixels@.subrange(
                        row as int * x as int,
                        row as int * x as int + i as int,
                    ).push(self.pixels@[row as int * x as int + i as int]));
                }
                let pix = self.pixels[row * x + i];
                out.push(pix);
                i = i + 1;
            }
            proof {
                let xi = x as int;
                let yi = y as int;
                let ji = jr as int;
                assert(rows_rev(self.pixels@, xi, yi - ji) == self.pixels@.subrange(
                    (yi - ji - 1) * xi,
                    (yi - ji) * xi,
                ) + rows_rev(self.pixels@, xi, yi - ji - 1));
                assert((yi - ji - 1) * xi == row as int * xi && (yi - ji) * xi == row as int * xi
                    + xi) by (nonlinear_arith)
                    requires
                        row as int == yi - 1 - ji;
                assert(out@ + rows_rev(self.pixels@, xi, yi - ji - 1) =~= rows_rev(
                    self.pixels@,
                    xi,
                    yi,
                ));
            }
            jr = jr + 1;
        }
        proof {
            assert(out@ + rows_rev(self.pixels@, x as int, 0) =~= out@);
            assert(y * x == x * y) by (nonlinear_arith);
        }
        out
    }

    /// Serializes every pixel, rows bottom to top, one color line each.
    pub fn write_pixels_to_writer(&self, writer: &mut Vec<u8>)
        requires
            self.wf(),
        ensures
            final(writer)@ == old(writer)@ + lines_of(
                rows_rev(self.pixels@, self.xsize as int, self.ysize as int),
                self.samples_per_pixel as int,
            ),
    {
        let ordered = self.iter_pixels();
        let n = ordered.len();
        let mut idx: usize = 0;
        while idx < n
            invariant
                self.wf(),
                n == ordered@.len(),
                idx <= n,
                forall|q: int|
                    0 <= q < ordered@.len() ==> vbounded(
                        (#[trigger] ordered@[q])@,
                        0x4000_0000_0000,
                    ),
                writer@ == old(writer)@ + lines_of(
                    ordered@.take(idx as int),
                    self.samples_per_pixel as int,
                ),
            decreases n - idx,
        {
            let ghost prefix = ordered@.take(idx as int);
            write_color_to_writer(writer, ordered[idx], self.samples_per_pixel);
            proof {
                assert(ordered@.take(idx as int + 1).drop_last() =~= prefix);
                assert(ordered@.take(idx as int + 1).last() == ordered@[idx as int]);
            }
            idx = idx + 1;
        }
        proof {
            assert(ordered@.take(n as int) =~= ordered@);
        }
    }

    /// The serialized header: the format tag, the dimensions and the
    /// maximum channel value.
    pub fn write_header_to_writer(&self, w: &mut Vec<u8>)
        ensures
            final(w)@ == old(w)@ + seq![80u8, 51u8, 10u8] + dec_spec(self.xsize as int) + seq![
                32u8,
            ] + dec_spec(self.ysize as int) + seq![10u8, 50u8, 53u8, 53u8, 10u8],
    {
        w.push(80u8);
        w.push(51u8);
        w.push(10u8);
        push_dec(w, self.xsize as u64);
        w.push(32u8);
        push_dec(w, self.ysize as u64);
        w.push(10u8);
        w.push(50u8);
        w.push(53u8);
        w.push(53u8);
        w.push(10u8);
    }

    /// The buffer dimensions.
    pub fn dimensions(&self) -> (r: (usize, usize))
        ensures
            r.0 == self.xsize,
            r.1 == self.ysize,
    {
        (self.xsize, self.ysize)
    }

    /// The raw pixel accumulators, rows in reading order.
    pub fn get_pixels(&self) -> (r: &Vec<Color>)
        ensures
            r@ == self.pixels@,
    {
        &self.pixels
    }
}

} // verus!
