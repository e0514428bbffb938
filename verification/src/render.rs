use vstd::prelude::*;
use vstd::arithmetic::div_mod::lemma_fundamental_div_mod_converse;
use vstd::seq_lib::group_to_multiset_ensures;
use crate::camera::{get_ray_s, Camera};
use crate::config::{Config, Resolution};
use crate::fixed::{
    clip, fx_add, fx_div, fx_mul, fx_sqrt, lemma_avg_bound, lemma_div_ordered,
    lemma_mul_le_factor, lemma_sqrt_unit_bound, Fx, SCALE,
};
use crate::hitable::Hitable;
use crate::material::unit_interval3;
use crate::pixel::{channel_from_s, Pixel};
use crate::ray::color_ok;
use crate::rng::{sample_units, shuffle_pixels};
use crate::vec3::{add_s, in_unit_ball, v3, Vec3};

verus! {

/// 255.99 in stored units: the factor that maps `[0, 1]` colors onto
/// the 8-bit channel range before truncation.
pub const CHANNEL_SCALE_UNITS: i64 = 16776560;

/// The sensor coordinate of a sample: `(i + j) / n`, where `i` is
/// the pixel index along an axis, `j` a jitter draw in `[0, 1)` and
/// `n` the pixel count along that axis.
pub open spec fn jitter_coord(i: int, j: int, n: int) -> int {
    fx_div(fx_add(clip(i * (SCALE as int)), j), clip(n * (SCALE as int)))
}

/// One sample of the pixel `(x, y)`: for some jitter pair and some
/// lens-disk point, the color satisfies the integrator's relation,
/// at depth 0, for the camera ray through the jittered sensor
/// coordinates of the pixel.
pub open spec fn sample_ok<W: Hitable>(
    world: &W,
    camera: Camera,
    x: int,
    y: int,
    w: int,
    h: int,
    c: Vec3,
) -> bool {
    exists|ju: int, jv: int, d: Vec3|
        #![trigger color_ok(world, get_ray_s(camera, jitter_coord(x, ju, w), jitter_coord(y, jv, h), d), 0, c)]
        0 <= ju < SCALE && 0 <= jv < SCALE && in_unit_ball(d) && d.z.sv() == 0 && color_ok(
            world,
            get_ray_s(camera, jitter_coord(x, ju, w), jitter_coord(y, jv, h), d),
            0,
            c,
        )
}

/// The sum of a sequence of colors.
pub open spec fn vsum_s(cs: Seq<Vec3>) -> Vec3
    decreases cs.len(),
{
    if cs.len() == 0 {
        v3(0, 0, 0)
    } else {
        add_s(vsum_s(cs.drop_last()), cs.last())
    }
}

/// The pixel a summed color quantizes to once `n` samples are in:
/// each channel is averaged by `n`, gamma-corrected by a square
/// root, scaled by 255.99 and truncated.
pub open spec fn finish_pixel_s(acc: Vec3, n: int) -> Pixel {
    let d = n * (SCALE as int);
    let rx = fx_mul(fx_sqrt(fx_div(acc.x.sv(), d)), CHANNEL_SCALE_UNITS as int);
    let ry = fx_mul(fx_sqrt(fx_div(acc.y.sv(), d)), CHANNEL_SCALE_UNITS as int);
    let rz = fx_mul(fx_sqrt(fx_div(acc.z.sv(), d)), CHANNEL_SCALE_UNITS as int);
    Pixel {
        r: channel_from_s(rx) as u16,
        g: channel_from_s(ry) as u16,
        b: channel_from_s(rz) as u16,
    }
}

/// The whole story of one finished pixel: there are `n` sample
/// colors, each in `[0, 1]` on every channel and each accounted for
/// by the integrator's relation for a jittered camera ray of the
/// pixel `(x, y)`, whose sum the pixel quantizes by `finish_pixel_s`.
pub open spec fn pixel_done<W: Hitable>(
    world: &W,
    camera: Camera,
    x: int,
    y: int,
    w: int,
    h: int,
    n: int,
    p: Pixel,
) -> bool {
    exists|cs: Seq<Vec3>|
        cs.len() == n && (forall|i: int|
            0 <= i < cs.len() ==> unit_interval3(#[trigger] cs[i]) && sample_ok(
                world,
                camera,
                x,
                y,
                w,
                h,
                cs[i],
            )) && p == finish_pixel_s(#[trigger] vsum_s(cs), n)
}

/// Where the pixel `(x, y)` lands in the frame: the vertical axis is
/// flipped because the sensor's `v = 0` is the bottom row while
/// raster rows run top to bottom.
pub open spec fn flip_index(x: int, y: int, w: int, h: int) -> int {
    (h - 1 - y) * w + x
}

/// The flipped slot of an in-range coordinate lies in the frame.
proof fn lemma_flip_range(x: int, y: int, w: int, h: int)
    requires
        0 <= x < w,
        0 <= y < h,
    ensures
        0 <= flip_index(x, y, w, h) < w * h,
{
    assert(0 <= (h - 1 - y) * w + x && (h - 1 - y) * w + x < w * h) by (nonlinear_arith)
        requires
            0 <= x < w,
            0 <= y < h,
    ;
}

/// Distinct coordinates land in distinct slots.
proof fn lemma_flip_injective(x1: int, y1: int, x2: int, y2: int, w: int, h: int)
    requires
        0 <= x1 < w,
        0 <= y1 < h,
        0 <= x2 < w,
        0 <= y2 < h,
        flip_index(x1, y1, w, h) == flip_index(x2, y2, w, h),
    ensures
        x1 == x2,
        y1 == y2,
{
    lemma_fundamental_div_mod_converse(flip_index(x1, y1, w, h), w, h - 1 - y1, x1);
    lemma_fundamental_div_mod_converse(flip_index(x2, y2, w, h), w, h - 1 - y2, x2);
}

/// Every pixel coordinate of the output, row-major: entry
/// `y * width + x` is `(x, y)`.
pub open spec fn jobs_s(w: int, h: int) -> Seq<(u32, u32)> {
    Seq::new((w * h) as nat, |k: int| (((k % w) as u32, (k / w) as u32)))
}

/// Enumerates every pixel coordinate of the resolution exactly once,
/// row-major.
pub fn pixel_jobs(resolution: &Resolution) -> (jobs: Vec<(u32, u32)>)
    requires
        resolution.width >= 1,
        resolution.height >= 1,
        (resolution.width as int) * (resolution.height as int) <= usize::MAX,
    ensures
        jobs@ == jobs_s(resolution.width as int, resolution.height as int),
{
    let w = resolution.width;
    let h = resolution.height;
    let mut jobs: Vec<(u32, u32)> = Vec::new();
    let mut y: u32 = 0;
    while y < h
        invariant
            y <= h,
            1 <= w,
            1 <= h,
            (w as int) * (h as int) <= usize::MAX,
            jobs@.len() == (y as int) * (w as int),
            forall|k: int|
                0 <= k < jobs@.len() ==> #[trigger] jobs@[k] == (((k % (w as int)) as u32, (k / (
                w as int)) as u32)),
        decreases h - y,
    {
        let mut x: u32 = 0;
        while x < w
            invariant
                x <= w,
                y < h,
                1 <= w,
                1 <= h,
                (w as int) * (h as int) <= usize::MAX,
                jobs@.len() == (y as int) * (w as int) + (x as int),
                forall|k: int|
                    0 <= k < jobs@.len() ==> #[trigger] jobs@[k] == (((k % (w as int)) as u32, (k
                        / (w as int)) as u32)),
            decreases w - x,
        {
            proof {
                assert((y as int) * (w as int) + (x as int) < (h as int) * (w as int))
                    by (nonlinear_arith)
                    requires
                        0 <= x < w,
                        0 <= y < h,
                ;
                assert((h as int) * (w as int) == (w as int) * (h as int)) by (nonlinear_arith);
                lemma_fundamental_div_mod_converse(
                    (y as int) * (w as int) + (x as int),
                    w as int,
                    y as int,
                    x as int,
                );
            }
            jobs.push((x, y));
            x = x + 1;
        }
        proof {
            assert((y as int) * (w as int) + (w as int) == ((y as int) + 1) * (w as int))
                by (nonlinear_arith);
        }
        y = y + 1;
    }
    proof {
        assert((h as int) * (w as int) == (w as int) * (h as int)) by (nonlinear_arith);
        assert(jobs@ =~= jobs_s(w as int, h as int));
    }
    jobs
}

/// Renders one pixel: `n_samples` rays are jittered uniformly inside
/// the pixel, traced at depth 0, averaged, gamma-corrected by a
/// square root, scaled onto `[0, 255.99]` and truncated. Whatever
/// the draws, every channel of the result lies in `[0, 255]`, and
/// the result quantizes the sum of `n_samples` colors that the
/// integrator's relation admits for jittered camera rays of this
/// pixel.
pub fn render_pixel<W: Hitable>(
    world: &W,
    camera: &Camera,
    x: u32,
    y: u32,
    resolution: &Resolution,
    n_samples: u32,
) -> (p: Pixel)
    requires
        world.hwf(),
        n_samples >= 1,
        resolution.width >= 1,
        resolution.height >= 1,
    ensures
        p.r <= 255,
        p.g <= 255,
        p.b <= 255,
        pixel_done(
            world,
            *camera,
            x as int,
            y as int,
            resolution.width as int,
            resolution.height as int,
            n_samples as int,
            p,
        ),
{
    let mut acc = Vec3::zero();
    let ghost mut samples: Seq<Vec3> = Seq::empty();
    let mut s: u32 = 0;
    proof {
        crate::vec3::lemma_zero_dot(acc);
    }
    while s < n_samples
        invariant
            s <= n_samples,
            world.hwf(),
            resolution.width >= 1,
            resolution.height >= 1,
            samples.len() == s as int,
            acc == vsum_s(samples),
            forall|i: int|
                0 <= i < samples.len() ==> unit_interval3(#[trigger] samples[i]) && sample_ok(
                    world,
                    *camera,
                    x as int,
                    y as int,
                    resolution.width as int,
                    resolution.height as int,
                    samples[i],
                ),
            0 <= acc.x.sv() <= (s as int) * (SCALE as int),
            0 <= acc.y.sv() <= (s as int) * (SCALE as int),
            0 <= acc.z.sv() <= (s as int) * (SCALE as int),
        decreases n_samples - s,
    {
        let ju = Fx::from_units(sample_units(0, SCALE));
        let jv = Fx::from_units(sample_units(0, SCALE));
        let u = Fx::from_int(x as i64).fadd(ju).fdiv(Fx::from_int(resolution.width as i64));
        let v = Fx::from_int(y as i64).fadd(jv).fdiv(Fx::from_int(resolution.height as i64));
        let ray = camera.get_ray(u, v);
        let c = ray.color(world, 0);
        proof {
            let d = choose|d: Vec3|
                #[trigger] in_unit_ball(d) && d.z.sv() == 0 && ray == get_ray_s(
                    *camera,
                    u.sv(),
                    v.sv(),
                    d,
                );
            assert(u.sv() == jitter_coord(x as int, ju.sv(), resolution.width as int));
            assert(v.sv() == jitter_coord(y as int, jv.sv(), resolution.height as int));
            assert(color_ok(
                world,
                get_ray_s(
                    *camera,
                    jitter_coord(x as int, ju.sv(), resolution.width as int),
                    jitter_coord(y as int, jv.sv(), resolution.height as int),
                    d,
                ),
                0,
                c,
            ));
            assert(sample_ok(
                world,
                *camera,
                x as int,
                y as int,
                resolution.width as int,
                resolution.height as int,
                c,
            ));
            assert(((s as int) + 1) * (SCALE as int) == (s as int) * (SCALE as int) + (
            SCALE as int)) by (nonlinear_arith);
            assert((s as int) * (SCALE as int) <= 0x100000000 * 0x10000) by (nonlinear_arith)
                requires
                    0 <= s <= 0x100000000,
            ;
        }
        let ghost prev = samples;
        acc = acc.vadd(c);
        proof {
            samples = samples.push(c);
            assert(samples.drop_last() =~= prev);
            assert(samples.last() == c);
            assert(acc == vsum_s(samples));
        }
        s = s + 1;
    }
    let div = Fx::from_int(n_samples as i64);
    proof {
        assert((n_samples as int) * (SCALE as int) <= 0x100000000 * 0x10000) by (nonlinear_arith)
            requires
                0 <= n_samples <= 0x100000000,
        ;
        assert(0 < (n_samples as int) * (SCALE as int)) by (nonlinear_arith)
            requires
                1 <= n_samples,
        ;
        lemma_avg_bound(acc.x.sv(), n_samples as int);
        lemma_avg_bound(acc.y.sv(), n_samples as int);
        lemma_avg_bound(acc.z.sv(), n_samples as int);
    }
    let gx = acc.x.fdiv(div).fsqrt();
    let gy = acc.y.fdiv(div).fsqrt();
    let gz = acc.z.fdiv(div).fsqrt();
    proof {
        lemma_sqrt_unit_bound(fx_div(acc.x.sv(), (n_samples as int) * (SCALE as int)));
        lemma_sqrt_unit_bound(fx_div(acc.y.sv(), (n_samples as int) * (SCALE as int)));
        lemma_sqrt_unit_bound(fx_div(acc.z.sv(), (n_samples as int) * (SCALE as int)));
    }
    let factor = Fx { units: CHANNEL_SCALE_UNITS };
    let scaled = Vec3::new(gx.fmul(factor), gy.fmul(factor), gz.fmul(factor));
    proof {
        lemma_mul_le_factor(gx.sv(), CHANNEL_SCALE_UNITS as int);
        lemma_mul_le_factor(gy.sv(), CHANNEL_SCALE_UNITS as int);
        lemma_mul_le_factor(gz.sv(), CHANNEL_SCALE_UNITS as int);
        lemma_div_ordered(scaled.x.sv(), CHANNEL_SCALE_UNITS as int, SCALE as int);
        lemma_div_ordered(scaled.y.sv(), CHANNEL_SCALE_UNITS as int, SCALE as int);
        lemma_div_ordered(scaled.z.sv(), CHANNEL_SCALE_UNITS as int, SCALE as int);
        assert(16776560int / 65536 == 255) by (nonlinear_arith);
    }
    let p = Pixel::from(&scaled);
    proof {
        assert(p == finish_pixel_s(vsum_s(samples), n_samples as int));
        assert(pixel_done(
            world,
            *camera,
            x as int,
            y as int,
            resolution.width as int,
            resolution.height as int,
            n_samples as int,
            p,
        ));
    }
    p
}

/// Renders the whole frame: every pixel coordinate is enumerated
/// exactly once, the processing order is shuffled so that costly
/// regions spread evenly over a run, and each finished pixel lands
/// at its flipped slot `(height - y - 1) * width + x`. Whatever the
/// random draws and whatever order the work was done in, the frame
/// holds exactly `width * height` pixels, every channel within the
/// 8-bit range, and the slot of every coordinate holds a pixel that
/// `pixel_done` accounts for: the quantized mean of `samples`
/// integrator colors of that very pixel.
#[verifier::rlimit(100)]
pub fn render<W: Hitable>(world: &W, camera: &Camera, cfg: &Config) -> (frame: Vec<Pixel>)
    requires
        world.hwf(),
        cfg.resolution.width >= 1,
        cfg.resolution.height >= 1,
        cfg.samples >= 1,
        (cfg.resolution.width as int) * (cfg.resolution.height as int) <= usize::MAX,
    ensures
        frame@.len() == (cfg.resolution.width as int) * (cfg.resolution.height as int),
        forall|k: int|
            0 <= k < frame@.len() ==> (#[trigger] frame@[k]).r <= 255 && frame@[k].g <= 255
                && frame@[k].b <= 255,
        forall|x: int, y: int|
            0 <= x < cfg.resolution.width && 0 <= y < cfg.resolution.height ==> pixel_done(
                world,
                *camera,
                x,
                y,
                cfg.resolution.width as int,
                cfg.resolution.height as int,
                cfg.samples as int,
                #[trigger] frame@[flip_index(
                    x,
                    y,
                    cfg.resolution.width as int,
                    cfg.resolution.height as int,
                )],
            ),
{
    let w = cfg.resolution.width;
    let h = cfg.resolution.height;
    let mut jobs = pixel_jobs(&cfg.resolution);
    shuffle_pixels(&mut jobs);
    proof {
        broadcast use group_to_multiset_ensures;

        let js = jobs_s(w as int, h as int);
        assert(jobs@.len() == js.len()) by {
            assert(jobs@.to_multiset().len() == js.to_multiset().len());
        }
        assert forall|k: int| 0 <= k < jobs@.len() implies (#[trigger] jobs@[k]).0 < w
            && jobs@[k].1 < h by {
            let e = jobs@[k];
            assert(jobs@.contains(e));
            assert(jobs@.to_multiset().count(e) > 0);
            assert(js.contains(e));
            let i = choose|i: int| 0 <= i < js.len() && js[i] == e;
            assert((i / (w as int)) < h as int) by (nonlinear_arith)
                requires
                    0 <= i < (w as int) * (h as int),
                    1 <= w as int,
            ;
        }
    }
    let mut frame: Vec<Pixel> = Vec::new();
    let total = (w as usize) * (h as usize);
    while frame.len() < total
        invariant
            frame@.len() <= total,
            forall|k: int|
                0 <= k < frame@.len() ==> (#[trigger] frame@[k]).r <= 255 && frame@[k].g <= 255
                    && frame@[k].b <= 255,
        decreases total - frame@.len(),
    {
        frame.push(Pixel { r: 0, g: 0, b: 0 });
    }
    let mut j: usize = 0;
    while j < jobs.len()
        invariant
            j <= jobs@.len(),
            world.hwf(),
            cfg.samples >= 1,
            1 <= w,
            1 <= h,
            w == cfg.resolution.width,
            h == cfg.resolution.height,
            total == (w as int) * (h as int),
            frame@.len() == total,
            forall|k: int| 0 <= k < jobs@.len() ==> (#[trigger] jobs@[k]).0 < w && jobs@[k].1 < h,
            forall|k: int|
                0 <= k < frame@.len() ==> (#[trigger] frame@[k]).r <= 255 && frame@[k].g <= 255
                    && frame@[k].b <= 255,
            forall|j2: int|
                0 <= j2 < j ==> pixel_done(
                    world,
                    *camera,
                    (#[trigger] jobs@[j2]).0 as int,
                    jobs@[j2].1 as int,
                    w as int,
                    h as int,
                    cfg.samples as int,
                    frame@[flip_index(jobs@[j2].0 as int, jobs@[j2].1 as int, w as int, h as int)],
                ),
        decreases jobs@.len() - j,
    {
        let xy = jobs[j];
        let x = xy.0;
        let y = xy.1;
        let p = render_pixel(world, camera, x, y, &cfg.resolution, cfg.samples);
        let row = h - 1 - y;
        proof {
            lemma_flip_range(x as int, y as int, w as int, h as int);
            assert((row as int) * (w as int) + (x as int) == flip_index(
                x as int,
                y as int,
                w as int,
                h as int,
            ));
        }
        let idx = (row as usize) * (w as usize) + (x as usize);
        let ghost old_frame = frame@;
        frame[idx] = p;
        proof {
            assert forall|j2: int| 0 <= j2 < j + 1 implies pixel_done(
                world,
                *camera,
                (#[trigger] jobs@[j2]).0 as int,
                jobs@[j2].1 as int,
                w as int,
                h as int,
                cfg.samples as int,
                frame@[flip_index(jobs@[j2].0 as int, jobs@[j2].1 as int, w as int, h as int)],
            ) by {
                let x2 = jobs@[j2].0 as int;
                let y2 = jobs@[j2].1 as int;
                lemma_flip_range(x2, y2, w as int, h as int);
                if flip_index(x2, y2, w as int, h as int) == idx as int {
                    lemma_flip_injective(x2, y2, x as int, y as int, w as int, h as int);
                    assert(frame@[flip_index(x2, y2, w as int, h as int)] == p);
                } else {
                    assert(frame@[flip_index(x2, y2, w as int, h as int)] == old_frame[flip_index(
                        x2,
                        y2,
                        w as int,
                        h as int,
                    )]);
                }
            }
        }
        j = j + 1;
    }
    proof {
        broadcast use group_to_multiset_ensures;

        let js = jobs_s(w as int, h as int);
        assert forall|x: int, y: int| 0 <= x < cfg.resolution.width && 0 <= y
            < cfg.resolution.height implies pixel_done(
            world,
            *camera,
            x,
            y,
            cfg.resolution.width as int,
            cfg.resolution.height as int,
            cfg.samples as int,
            #[trigger] frame@[flip_index(
                x,
                y,
                cfg.resolution.width as int,
                cfg.resolution.height as int,
            )],
        ) by {
            let k = y * (w as int) + x;
            assert(0 <= k < (w as int) * (h as int)) by (nonlinear_arith)
                requires
                    0 <= x < w as int,
                    0 <= y < h as int,
                    k == y * (w as int) + x,
            ;
            lemma_fundamental_div_mod_converse(k, w as int, y, x);
            let e = ((x as u32, y as u32));
            assert(js[k] == e);
            assert(js.contains(e));
            assert(js.to_multiset().count(e) > 0);
            assert(jobs@.contains(e));
            let j2 = choose|j2: int| 0 <= j2 < jobs@.len() && jobs@[j2] == e;
            assert(pixel_done(
                world,
                *camera,
                jobs@[j2].0 as int,
                jobs@[j2].1 as int,
                w as int,
                h as int,
                cfg.samples as int,
                frame@[flip_index(jobs@[j2].0 as int, jobs@[j2].1 as int, w as int, h as int)],
            ));
        }
    }
    frame
}

} // verus!
