//! The camera: viewport geometry, primary-ray generation with jittered
//! anti-aliasing and lens defocus, the recursive tracer, and the render
//! loop that emits the PPM text.
//!
//! The vertical field of view and the defocus angle enter through a
//! tangent computed from truncated Taylor series for sine and cosine —
//! `tan_spec` is the exact account of that approximation. A primary ray
//! depends on random jitter and a lens sample, so `get_ray` names them
//! existentially; `ray_color` promises `radiance_post`, the full account
//! of a traced radiance over the named scatter outcomes; and the render
//! contract pins the output as the exact PPM header followed by the
//! concatenated pixel lines of one color per pixel.

use vstd::arithmetic::div_mod::{
    lemma_div_pos_is_pos, lemma_fundamental_div_mod, lemma_fundamental_div_mod_converse,
};
use vstd::prelude::*;

use crate::color::{
    count_char, dec_rep, lemma_count_char_concat, lemma_pixel_line_newlines, pixel_line,
    pixel_lines_concat,
    push_decimal, write_color, Color,
};
use crate::fx::{
    fx_add, fx_div, fx_mul, fx_sub, fxadd, fxd, fxm, fxsub, in_range, tdiv, FX_MAX, SCALE,
};
use crate::hittable::{list_wf, scene_best, HitRecord, HittableList};
use crate::interval::Interval;
use crate::material::{mat_wf, scatter_post};
use crate::ray::{ray_wf, Ray};
use crate::sphere::{is_hit_record, sphere_wf, Sphere};
use crate::utils::{deg2rad, degrees_to_radians, random_double, random_double_range};
use crate::vec3::{
    v3, vadd, vcross, vdivs, vls, vmul, vneg, vscale, vsub, vunit, vwf, Vec3, V3,
};

verus! {

/// One half in fixed point.
pub const HALF: i128 = 32768;

/// Lower hit bound that suppresses self-intersection: 0.001 in fixed point.
pub const SHADOW_ACNE_EPS: i128 = 65;

/// Truncated Taylor series for sine, through the ninth power.
pub open spec fn sin_poly(x: int) -> int {
    let x2 = fxm(x, x);
    let x3 = fxm(x2, x);
    let x5 = fxm(x3, x2);
    let x7 = fxm(x5, x2);
    let x9 = fxm(x7, x2);
    fxadd(
        fxsub(fxadd(fxsub(x, fxd(x3, 6 * SCALE)), fxd(x5, 120 * SCALE)), fxd(x7, 5040 * SCALE)),
        fxd(x9, 362880 * SCALE),
    )
}

/// Truncated Taylor series for cosine, through the eighth power.
pub open spec fn cos_poly(x: int) -> int {
    let x2 = fxm(x, x);
    let x4 = fxm(x2, x2);
    let x6 = fxm(x4, x2);
    let x8 = fxm(x6, x2);
    fxadd(
        fxsub(
            fxadd(fxsub(SCALE as int, fxd(x2, 2 * SCALE)), fxd(x4, 24 * SCALE)),
            fxd(x6, 720 * SCALE),
        ),
        fxd(x8, 40320 * SCALE),
    )
}

/// Tangent as the ratio of the two series.
pub open spec fn tan_spec(x: int) -> int {
    fxd(sin_poly(x), cos_poly(x))
}

fn fx_tan(x: i128) -> (r: i128)
    requires
        in_range(x as int),
    ensures
        r == tan_spec(x as int),
        in_range(r as int),
{
    let x2: i128 = fx_mul(x, x);
    let x3: i128 = fx_mul(x2, x);
    let x5: i128 = fx_mul(x3, x2);
    let x7: i128 = fx_mul(x5, x2);
    let x9: i128 = fx_mul(x7, x2);
    let s: i128 = fx_add(
        fx_sub(fx_add(fx_sub(x, fx_div(x3, 6 * SCALE)), fx_div(x5, 120 * SCALE)), fx_div(x7, 5040 * SCALE)),
        fx_div(x9, 362880 * SCALE),
    );
    let x4: i128 = fx_mul(x2, x2);
    let x6: i128 = fx_mul(x4, x2);
    let x8: i128 = fx_mul(x6, x2);
    let c: i128 = fx_add(
        fx_sub(fx_add(fx_sub(SCALE, fx_div(x2, 2 * SCALE)), fx_div(x4, 24 * SCALE)), fx_div(x6, 720 * SCALE)),
        fx_div(x8, 40320 * SCALE),
    );
    fx_div(s, c)
}

/// The background gradient: white at the horizon blended toward light blue
/// with the ray direction's normalized vertical component.
pub open spec fn sky_color(dir: V3) -> V3 {
    let unit = vunit(dir);
    let a = fxm(fxadd(unit.1, SCALE as int), HALF as int);
    vadd(
        vscale((SCALE as int, SCALE as int, SCALE as int), fxsub(SCALE as int, a)),
        vscale((32768int, 45875int, SCALE as int), a),
    )
}

/// The derived image height: width over aspect ratio, floored, at least one.
pub open spec fn cam_image_height(image_width: int, aspect_ratio: int) -> int {
    let h = tdiv(fxd(image_width * SCALE, aspect_ratio), SCALE as int);
    if h < 1 {
        1
    } else {
        h
    }
}

pub struct Camera {
    pub aspect_ratio: i128,
    pub image_width: i128,
    pub image_height: i128,
    pub center: Vec3,
    pub pixel00_loc: Vec3,
    pub pixel_delta_u: Vec3,
    pub pixel_delta_v: Vec3,
    pub samples_per_pixel: i128,
    pub pixel_samples_scale: i128,
    pub max_depth: i128,
    pub defocus_angle: i128,
    pub defocus_disk_u: Vec3,
    pub defocus_disk_v: Vec3,
}

pub open spec fn cam_wf(c: Camera) -> bool {
    &&& 1 <= c.image_width
    &&& c.image_width * SCALE <= FX_MAX
    &&& 1 <= c.image_height
    &&& c.image_height * SCALE <= FX_MAX
    &&& 1 <= c.samples_per_pixel
    &&& c.samples_per_pixel * SCALE <= FX_MAX
    &&& 0 <= c.max_depth
    &&& in_range(c.aspect_ratio as int)
    &&& in_range(c.pixel_samples_scale as int)
    &&& in_range(c.defocus_angle as int)
    &&& vwf(v3(c.center))
    &&& vwf(v3(c.pixel00_loc))
    &&& vwf(v3(c.pixel_delta_u))
    &&& vwf(v3(c.pixel_delta_v))
    &&& vwf(v3(c.defocus_disk_u))
    &&& vwf(v3(c.defocus_disk_v))
}

/// Every derived field of a constructed camera, as a function of the
/// configuration: the viewport rectangle from the field of view and focus
/// distance, the orthonormal basis from the look vectors, the per-pixel
/// deltas, and the defocus disk from the lens angle.
pub open spec fn camera_rig(
    c: Camera,
    aspect_ratio: int,
    image_width: int,
    samples_per_pixel: int,
    max_depth: int,
    vfov: int,
    look_from: V3,
    look_at: V3,
    vup: V3,
    defocus_angle: int,
    focus_dist: int,
) -> bool {
    let image_height = cam_image_height(image_width, aspect_ratio);
    let hh = tan_spec(fxd(deg2rad(vfov), 2 * SCALE));
    let viewport_height = fxm(fxm(2 * SCALE, hh), focus_dist);
    let viewport_width = fxm(viewport_height, fxd(image_width * SCALE, image_height * SCALE));
    let w = vunit(vsub(look_from, look_at));
    let u = vunit(vcross(vup, w));
    let v = vcross(w, u);
    let viewport_u = vscale(u, viewport_width);
    let viewport_v = vscale(vneg(v), viewport_height);
    let pixel_delta_u = vdivs(viewport_u, image_width * SCALE);
    let pixel_delta_v = vdivs(viewport_v, image_height * SCALE);
    let upper_left = vsub(
        vsub(vsub(look_from, vscale(w, focus_dist)), vdivs(viewport_u, 2 * SCALE)),
        vdivs(viewport_v, 2 * SCALE),
    );
    let pixel00 = vadd(upper_left, vscale(vadd(pixel_delta_u, pixel_delta_v), HALF as int));
    let defocus_radius = fxm(focus_dist, tan_spec(deg2rad(fxd(defocus_angle, 2 * SCALE))));
    &&& c.aspect_ratio == aspect_ratio
    &&& c.image_width == image_width
    &&& c.image_height == image_height
    &&& c.samples_per_pixel == samples_per_pixel
    &&& c.max_depth == max_depth
    &&& c.defocus_angle == defocus_angle
    &&& c.pixel_samples_scale == fxd(SCALE as int, samples_per_pixel * SCALE)
    &&& v3(c.center) == look_from
    &&& v3(c.pixel00_loc) == pixel00
    &&& v3(c.pixel_delta_u) == pixel_delta_u
    &&& v3(c.pixel_delta_v) == pixel_delta_v
    &&& v3(c.defocus_disk_u) == vscale(u, defocus_radius)
    &&& v3(c.defocus_disk_v) == vscale(v, defocus_radius)
}

/// A point on the lens disk: strictly inside the unit circle, flat in z.
pub open spec fn disk_point(dk: V3) -> bool {
    vwf(dk) && vls(dk) < SCALE && dk.2 == 0
}

/// The origin and direction of the primary ray for pixel `(i, j)` under
/// jitter `(ox, oy)` and lens sample `dk`.
pub open spec fn primary_ray(c: Camera, i: int, j: int, ox: int, oy: int, dk: V3) -> (V3, V3) {
    let pixel_sample = vadd(
        vadd(v3(c.pixel00_loc), vscale(v3(c.pixel_delta_u), fxadd(i * SCALE, ox))),
        vscale(v3(c.pixel_delta_v), fxadd(j * SCALE, oy)),
    );
    let origin = if c.defocus_angle <= 0 {
        v3(c.center)
    } else {
        vadd(
            vadd(v3(c.center), vscale(v3(c.defocus_disk_u), dk.0)),
            vscale(v3(c.defocus_disk_v), dk.1),
        )
    };
    (origin, vsub(pixel_sample, origin))
}

/// The PPM header: magic, dimensions, and maximum channel value.
pub open spec fn ppm_header(w: int, h: int) -> Seq<char> {
    seq!['P', '3', '\n'] + dec_rep(w) + seq![' '] + dec_rep(h) + seq!['\n'] + dec_rep(255)
        + seq!['\n']
}

/// Rejection-sample a point strictly inside the unit disk; the origin
/// stands in if the attempt bound is ever reached.
fn random_in_unit_disk() -> (p: Vec3)
    ensures
        disk_point(v3(p)),
{
    let mut tries: u32 = 0;
    while tries < 64
        invariant
            tries <= 64,
        decreases 64 - tries,
    {
        let x: i128 = random_double_range(-SCALE, SCALE);
        let y: i128 = random_double_range(-SCALE, SCALE);
        let p = Vec3 { x, y, z: 0 };
        let ls: i128 = p.length_squared();
        if ls < SCALE {
            return p;
        }
        tries = tries + 1;
    }
    let fallback = Vec3 { x: 0, y: 0, z: 0 };
    proof {
        assert(fxm(0, 0) == 0);
        assert(vls(v3(fallback)) == 0);
    }
    fallback
}

impl Camera {
    /// Derive the full viewport and lens geometry from the configuration.
    #[verifier::rlimit(100)]
    pub fn new(
        aspect_ratio: i128,
        image_width: i128,
        samples_per_pixel: i128,
        max_depth: i128,
        vfov: i128,
        look_from: Vec3,
        look_at: Vec3,
        vup: Vec3,
        defocus_angle: i128,
        focus_dist: i128,
    ) -> (c: Camera)
        requires
            in_range(aspect_ratio as int),
            aspect_ratio > 0,
            1 <= image_width,
            image_width * SCALE <= FX_MAX,
            1 <= samples_per_pixel,
            samples_per_pixel * SCALE <= FX_MAX,
            0 <= max_depth,
            in_range(vfov as int),
            vwf(v3(look_from)),
            vwf(v3(look_at)),
            vwf(v3(vup)),
            in_range(defocus_angle as int),
            in_range(focus_dist as int),
            focus_dist > 0,
        ensures
            cam_wf(c),
            camera_rig(
                c,
                aspect_ratio as int,
                image_width as int,
                samples_per_pixel as int,
                max_depth as int,
                vfov as int,
                v3(look_from),
                v3(look_at),
                v3(vup),
                defocus_angle as int,
                focus_dist as int,
            ),
    {
        let width_fx: i128 = image_width * SCALE;
        let hf: i128 = fx_div(width_fx, aspect_ratio);
        proof {
            lemma_div_pos_is_pos(width_fx * SCALE, aspect_ratio as int);
        }
        let h0: i128 = crate::fx::div_trunc(hf, SCALE);
        proof {
            lemma_div_pos_is_pos(hf as int, SCALE as int);
            lemma_fundamental_div_mod(hf as int, SCALE as int);
        }
        let image_height: i128 = if h0 < 1 {
            1
        } else {
            h0
        };
        assert(image_height * SCALE <= FX_MAX) by (nonlinear_arith)
            requires
                1 <= image_height,
                image_height == (if h0 < 1 { 1int } else { h0 as int }),
                0 <= h0,
                h0 * SCALE <= hf,
                hf <= FX_MAX,
        ;
        let height_fx: i128 = image_height * SCALE;

        let pixel_samples_scale: i128 = fx_div(SCALE, samples_per_pixel * SCALE);
        let center = look_from;

        let theta: i128 = degrees_to_radians(vfov);
        let hh: i128 = fx_tan(fx_div(theta, 2 * SCALE));
        let viewport_height: i128 = fx_mul(fx_mul(2 * SCALE, hh), focus_dist);
        let viewport_width: i128 = fx_mul(viewport_height, fx_div(width_fx, height_fx));

        let w = Vec3::unit_vector(look_from.minus(look_at));
        let u = Vec3::unit_vector(vup.cross(w));
        let v = w.cross(u);

        let viewport_u = u.times(viewport_width);
        let viewport_v = v.negate().times(viewport_height);

        let pixel_delta_u = viewport_u.divided_by(width_fx);
        let pixel_delta_v = viewport_v.divided_by(height_fx);

        let viewport_upper_left = center
            .minus(w.times(focus_dist))
            .minus(viewport_u.divided_by(2 * SCALE))
            .minus(viewport_v.divided_by(2 * SCALE));
        let pixel00_loc = viewport_upper_left.plus(pixel_delta_u.plus(pixel_delta_v).times(HALF));

        let defocus_radius: i128 = fx_mul(
            focus_dist,
            fx_tan(degrees_to_radians(fx_div(defocus_angle, 2 * SCALE))),
        );
        let defocus_disk_u = u.times(defocus_radius);
        let defocus_disk_v = v.times(defocus_radius);

        Camera {
            aspect_ratio,
            image_width,
            image_height,
            center,
            pixel00_loc,
            pixel_delta_u,
            pixel_delta_v,
            samples_per_pixel,
            pixel_samples_scale,
            max_depth,
            defocus_angle,
            defocus_disk_u,
            defocus_disk_v,
        }
    }

    /// Jitter within the pixel footprint: each offset in [-1/2, 1/2).
    fn sample_square() -> (o: Vec3)
        ensures
            vwf(v3(o)),
            -32768 <= v3(o).0 < 32768,
            -32768 <= v3(o).1 < 32768,
            v3(o).2 == 0,
    {
        let x: i128 = fx_sub(random_double(), HALF);
        let y: i128 = fx_sub(random_double(), HALF);
        Vec3 { x, y, z: 0 }
    }

    /// A random origin on the defocus disk around the camera center.
    fn defocus_disk_sample(&self) -> (o: Vec3)
        requires
            cam_wf(*self),
        ensures
            vwf(v3(o)),
            exists|dk: V3|
                disk_point(dk) && v3(o) == vadd(
                    vadd(v3(self.center), vscale(v3(self.defocus_disk_u), dk.0)),
                    #[trigger] vscale(v3(self.defocus_disk_v), dk.1),
                ),
    {
        let p = random_in_unit_disk();
        let o = self.center.plus(self.defocus_disk_u.times(p.x)).plus(
            self.defocus_disk_v.times(p.y),
        );
        proof {
            let dk = v3(p);
            assert(disk_point(dk) && v3(o) == vadd(
                vadd(v3(self.center), vscale(v3(self.defocus_disk_u), dk.0)),
                vscale(v3(self.defocus_disk_v), dk.1),
            ));
        }
        o
    }

    /// The primary ray for pixel `(i, j)`: aimed at a jittered point on the
    /// pixel's footprint from the lens-sampled origin.
    fn get_ray(&self, i: i128, j: i128) -> (r: Ray)
        requires
            cam_wf(*self),
            0 <= i < self.image_width,
            0 <= j < self.image_height,
        ensures
            ray_wf(r),
            exists|ox: int, oy: int, dk: V3|
                {
                    &&& -32768 <= ox < 32768
                    &&& -32768 <= oy < 32768
                    &&& disk_point(dk)
                    &&& (v3(r.origin), v3(r.dir)) == #[trigger] primary_ray(
                        *self,
                        i as int,
                        j as int,
                        ox,
                        oy,
                        dk,
                    )
                },
    {
        let offset = Camera::sample_square();
        let px: i128 = fx_add(i * SCALE, offset.x);
        let py: i128 = fx_add(j * SCALE, offset.y);
        let pixel_sample = self.pixel00_loc.plus(self.pixel_delta_u.times(px)).plus(
            self.pixel_delta_v.times(py),
        );
        let ray_origin = if self.defocus_angle <= 0 {
            self.center
        } else {
            self.defocus_disk_sample()
        };
        let ray_direction = pixel_sample.minus(ray_origin);
        let r = Ray::new(ray_origin, ray_direction);
        proof {
            if self.defocus_angle <= 0 {
                let dk: V3 = (0int, 0int, 0int);
                assert(fxm(0, 0) == 0);
                assert(disk_point(dk));
                assert((v3(r.origin), v3(r.dir)) == primary_ray(
                    *self,
                    i as int,
                    j as int,
                    v3(offset).0,
                    v3(offset).1,
                    dk,
                ));
            } else {
                let dk = choose|dk: V3|
                    disk_point(dk) && v3(ray_origin) == vadd(
                        vadd(v3(self.center), vscale(v3(self.defocus_disk_u), dk.0)),
                        #[trigger] vscale(v3(self.defocus_disk_v), dk.1),
                    );
                assert((v3(r.origin), v3(r.dir)) == primary_ray(
                    *self,
                    i as int,
                    j as int,
                    v3(offset).0,
                    v3(offset).1,
                    dk,
                ));
            }
        }
        r
    }

    /// Render the scene: the PPM header followed by exactly
    /// `width * height` pixel lines in row-major order, the line of pixel
    /// `p` carrying the scaled sum of that pixel's traced sample radiances.
    pub fn render(&self, world: &HittableList) -> (out: String)
        requires
            cam_wf(*self),
            list_wf(world.list@),
        ensures
            exists|colors: Seq<Vec3>|
                {
                    &&& colors.len() == self.image_width * self.image_height
                    &&& out@ == ppm_header(self.image_width as int, self.image_height as int)
                        + #[trigger] pixel_lines_concat(colors)
                    &&& forall|p: int|
                        0 <= p < colors.len() ==> pixel_color_ok(
                            *self,
                            world.list@,
                            p % (self.image_width as int),
                            p / (self.image_width as int),
                            #[trigger] colors[p],
                        )
                },
            exists|body: Seq<char>|
                out@ == ppm_header(self.image_width as int, self.image_height as int) + body
                    && #[trigger] count_char(body, '\n') == self.image_width
                    * self.image_height,
    {
        let ghost header = ppm_header(self.image_width as int, self.image_height as int);
        let mut out = String::new();
        out.push('P');
        out.push('3');
        out.push('\n');
        push_decimal(&mut out, self.image_width as u64);
        out.push(' ');
        push_decimal(&mut out, self.image_height as u64);
        out.push('\n');
        push_decimal(&mut out, 255);
        out.push('\n');
        let ghost mut colors: Seq<Vec3> = Seq::<Vec3>::empty();
        proof {
            assert(pixel_lines_concat(colors) =~= Seq::<char>::empty());
            assert(out@ =~= header + pixel_lines_concat(colors));
            assert(count_char(Seq::<char>::empty(), '\n') == 0);
        }
        let mut j: i128 = 0;
        while j < self.image_height
            invariant
                cam_wf(*self),
                list_wf(world.list@),
                0 <= j <= self.image_height,
                header == ppm_header(self.image_width as int, self.image_height as int),
                colors.len() == j * self.image_width,
                out@ == header + pixel_lines_concat(colors),
                count_char(pixel_lines_concat(colors), '\n') == colors.len(),
                forall|p: int|
                    0 <= p < colors.len() ==> pixel_color_ok(
                        *self,
                        world.list@,
                        p % (self.image_width as int),
                        p / (self.image_width as int),
                        #[trigger] colors[p],
                    ),
            decreases self.image_height - j,
        {
            let mut i: i128 = 0;
            while i < self.image_width
                invariant
                    cam_wf(*self),
                    list_wf(world.list@),
                    0 <= j < self.image_height,
                    0 <= i <= self.image_width,
                    header == ppm_header(self.image_width as int, self.image_height as int),
                    colors.len() == j * self.image_width + i,
                    out@ == header + pixel_lines_concat(colors),
                    count_char(pixel_lines_concat(colors), '\n') == colors.len(),
                    forall|p: int|
                        0 <= p < colors.len() ==> pixel_color_ok(
                            *self,
                            world.list@,
                            p % (self.image_width as int),
                            p / (self.image_width as int),
                            #[trigger] colors[p],
                        ),
                decreases self.image_width - i,
            {
                let mut pixel_color = Vec3::new(0, 0, 0);
                let ghost mut samp: Seq<Vec3> = Seq::<Vec3>::empty();
                let mut s: i128 = 0;
                while s < self.samples_per_pixel
                    invariant
                        cam_wf(*self),
                        list_wf(world.list@),
                        0 <= j < self.image_height,
                        0 <= i < self.image_width,
                        0 <= s <= self.samples_per_pixel,
                        vwf(v3(pixel_color)),
                        samp.len() == s,
                        v3(pixel_color) == sample_sum(samp),
                        forall|k: int|
                            0 <= k < samp.len() ==> is_traced_sample(
                                *self,
                                world.list@,
                                i as int,
                                j as int,
                                #[trigger] samp[k],
                            ),
                    decreases self.samples_per_pixel - s,
                {
                    let r = self.get_ray(i, j);
                    let sample = ray_color(&r, world, self.max_depth);
                    pixel_color = pixel_color.plus(sample);
                    proof {
                        assert(is_traced_sample(
                            *self,
                            world.list@,
                            i as int,
                            j as int,
                            sample,
                        )) by {
                            let (ox, oy, dk) = choose|ox: int, oy: int, dk: V3|
                                {
                                    &&& -32768 <= ox < 32768
                                    &&& -32768 <= oy < 32768
                                    &&& disk_point(dk)
                                    &&& (v3(r.origin), v3(r.dir)) == #[trigger] primary_ray(
                                        *self,
                                        i as int,
                                        j as int,
                                        ox,
                                        oy,
                                        dk,
                                    )
                                };
                            assert(-32768 <= ox < 32768 && -32768 <= oy < 32768 && disk_point(dk)
                                && (v3(r.origin), v3(r.dir)) == primary_ray(
                                *self,
                                i as int,
                                j as int,
                                ox,
                                oy,
                                dk,
                            ) && radiance_post(
                                world.list@,
                                r,
                                self.max_depth as int,
                                v3(sample),
                            ));
                        }
                        let prev = samp;
                        samp = samp.push(sample);
                        assert(samp.drop_last() =~= prev);
                        assert(samp.last() == sample);
                        assert(v3(pixel_color) == sample_sum(samp));
                        assert forall|k: int|
                            0 <= k < samp.len() implies is_traced_sample(
                            *self,
                            world.list@,
                            i as int,
                            j as int,
                            #[trigger] samp[k],
                        ) by {
                            if k < prev.len() {
                                assert(samp[k] == prev[k]);
                            } else {
                                assert(samp[k] == sample);
                            }
                        }
                    }
                    s = s + 1;
                }
                let scaled = pixel_color.times(self.pixel_samples_scale);
                let line = write_color(&scaled);
                let ghost out_before = out@;
                out.push_str(line.as_str());
                proof {
                    assert(pixel_color_ok(*self, world.list@, i as int, j as int, scaled)) by {
                        assert(samp.len() == self.samples_per_pixel && (forall|k: int|
                            0 <= k < samp.len() ==> is_traced_sample(
                                *self,
                                world.list@,
                                i as int,
                                j as int,
                                #[trigger] samp[k],
                            )) && v3(scaled) == vscale(
                            sample_sum(samp),
                            self.pixel_samples_scale as int,
                        ));
                    }
                    let prev = colors;
                    colors = colors.push(scaled);
                    assert(colors.drop_last() =~= prev);
                    assert(colors.last() == scaled);
                    assert(pixel_lines_concat(colors) == pixel_lines_concat(prev) + pixel_line(
                        scaled,
                    ));
                    lemma_pixel_line_newlines(scaled);
                    lemma_count_char_concat(pixel_lines_concat(prev), pixel_line(scaled), '\n');
                    assert(out@ =~= header + (pixel_lines_concat(prev) + pixel_line(scaled)));
                    lemma_fundamental_div_mod_converse(
                        j * (self.image_width as int) + i,
                        self.image_width as int,
                        j as int,
                        i as int,
                    );
                    assert forall|p: int|
                        0 <= p < colors.len() implies pixel_color_ok(
                        *self,
                        world.list@,
                        p % (self.image_width as int),
                        p / (self.image_width as int),
                        #[trigger] colors[p],
                    ) by {
                        if p < prev.len() {
                            assert(colors[p] == prev[p]);
                        } else {
                            assert(p == j * (self.image_width as int) + i);
                            assert(colors[p] == scaled);
                            assert(p % (self.image_width as int) == i as int && p / (
                            self.image_width as int) == j as int);
                        }
                    }
                }
                i = i + 1;
            }
            proof {
                assert((j + 1) * self.image_width == j * self.image_width + self.image_width)
                    by (nonlinear_arith);
            }
            j = j + 1;
        }
        proof {
            assert(j * self.image_width == self.image_width * self.image_height)
                by (nonlinear_arith)
                requires j == self.image_height as int,
            ;
            assert(colors.len() == self.image_width * self.image_height && out@ == ppm_header(
                self.image_width as int,
                self.image_height as int,
            ) + pixel_lines_concat(colors) && (forall|p: int|
                0 <= p < colors.len() ==> pixel_color_ok(
                    *self,
                    world.list@,
                    p % (self.image_width as int),
                    p / (self.image_width as int),
                    #[trigger] colors[p],
                )));
            assert(out@ == ppm_header(self.image_width as int, self.image_height as int)
                + pixel_lines_concat(colors) && count_char(pixel_lines_concat(colors), '\n')
                == self.image_width * self.image_height);
        }
        out
    }
}

/// Everything the tracer promises of a returned radiance, whatever the
/// random draws were: black once the depth budget is exhausted; the exact
/// sky gradient on a miss; and on a hit, some outcome of the struck
/// material's scattering rule, yielding black when the ray is absorbed and
/// the attenuation folded elementwise into a deeper radiance when it
/// scatters.
pub open spec fn radiance_post(objs: Seq<Sphere>, r: Ray, depth: int, c: V3) -> bool
    decreases depth,
{
    &&& vwf(c)
    &&& (depth <= 0 ==> c == (0int, 0int, 0int))
    &&& (depth > 0 ==> match scene_best(
        objs,
        r,
        SHADOW_ACNE_EPS as int,
        FX_MAX as int,
        objs.len() as int,
    ) {
        None => c == sky_color(v3(r.dir)),
        Some(pv) => exists|rec: HitRecord, sc: Option<(Color, Ray)>|
            {
                &&& is_hit_record(objs[pv.0], r, pv.1, rec)
                &&& #[trigger] scatter_post(rec.mat, r, rec, sc)
                &&& (sc is None ==> c == (0int, 0int, 0int))
                &&& (sc matches Some(pair) ==> exists|b: V3|
                    radiance_post(objs, pair.1, depth - 1, b) && c == #[trigger] vmul(
                        v3(pair.0),
                        b,
                    ))
            },
    })
}

/// The sum of a sequence of sample radiances, accumulated left to right.
pub open spec fn sample_sum(samples: Seq<Vec3>) -> V3
    decreases samples.len(),
{
    if samples.len() == 0 {
        (0int, 0int, 0int)
    } else {
        vadd(sample_sum(samples.drop_last()), v3(samples.last()))
    }
}

/// The value `s` is a radiance actually traced for pixel `(i, j)`: the
/// tracer's full account holds of it along some jittered, lens-sampled
/// primary ray of that pixel.
pub open spec fn is_traced_sample(c: Camera, objs: Seq<Sphere>, i: int, j: int, s: Vec3) -> bool {
    exists|ox: int, oy: int, dk: V3, ry: Ray|
        #![trigger primary_ray(c, i, j, ox, oy, dk), radiance_post(objs, ry, c.max_depth as int, v3(s))]
        {
            &&& -32768 <= ox < 32768
            &&& -32768 <= oy < 32768
            &&& disk_point(dk)
            &&& (v3(ry.origin), v3(ry.dir)) == primary_ray(c, i, j, ox, oy, dk)
            &&& radiance_post(objs, ry, c.max_depth as int, v3(s))
        }
}

/// The color emitted for pixel `(i, j)`: the sum of `samples_per_pixel`
/// traced sample radiances, scaled by the camera's per-sample weight.
pub open spec fn pixel_color_ok(c: Camera, objs: Seq<Sphere>, i: int, j: int, col: Vec3) -> bool {
    exists|samples: Seq<Vec3>|
        {
            &&& samples.len() == c.samples_per_pixel
            &&& (forall|k: int|
                0 <= k < samples.len() ==> is_traced_sample(c, objs, i, j, #[trigger] samples[k]))
            &&& v3(col) == vscale(#[trigger] sample_sum(samples), c.pixel_samples_scale as int)
        }
}

/// Trace a ray: black once the depth budget is exhausted, the sky gradient
/// on a miss, and otherwise the scattered radiance attenuated by the
/// material, or black when the material absorbs the ray — exactly the
/// `radiance_post` account of the result.
#[verifier::rlimit(100)]
pub fn ray_color(r: &Ray, world: &HittableList, depth: i128) -> (c: Color)
    requires
        ray_wf(*r),
        list_wf(world.list@),
    ensures
        vwf(v3(c)),
        radiance_post(world.list@, *r, depth as int, v3(c)),
        depth <= 0 ==> v3(c) == (0int, 0int, 0int),
        (depth > 0 && scene_best(
            world.list@,
            *r,
            SHADOW_ACNE_EPS as int,
            FX_MAX as int,
            world.list@.len() as int,
        ) is None) ==> v3(c) == sky_color(v3(r.dir)),
    decreases depth,
{
    if depth <= 0 {
        let c = Vec3::new(0, 0, 0);
        proof {
            assert(radiance_post(world.list@, *r, depth as int, v3(c)));
        }
        return c;
    }
    match world.hit(r, Interval::new(SHADOW_ACNE_EPS, FX_MAX)) {
        Some(rec) => {
            let ghost idx = choose|idx: int|
                {
                    &&& 0 <= idx < world.list@.len()
                    &&& scene_best(
                        world.list@,
                        *r,
                        SHADOW_ACNE_EPS as int,
                        FX_MAX as int,
                        world.list@.len() as int,
                    ) == Some((idx, rec.t as int))
                    &&& is_hit_record(#[trigger] world.list@[idx], *r, rec.t as int, rec)
                };
            proof {
                assert(sphere_wf(world.list@[idx]));
                assert(mat_wf(rec.mat));
            }
            let sc = rec.mat.scatter(r, &rec);
            match sc {
                Some((attenuation, scattered)) => {
                    let bounced = ray_color(&scattered, world, depth - 1);
                    let c = attenuation.elementwise_mul(bounced);
                    proof {
                        assert(exists|b: V3|
                            radiance_post(world.list@, scattered, depth as int - 1, b) && v3(c)
                                == #[trigger] vmul(v3(attenuation), b)) by {
                            assert(radiance_post(
                                world.list@,
                                scattered,
                                depth as int - 1,
                                v3(bounced),
                            ) && v3(c) == vmul(v3(attenuation), v3(bounced)));
                        }
                        assert(exists|rec2: HitRecord, sc2: Option<(Color, Ray)>|
                            {
                                &&& is_hit_record(world.list@[idx], *r, rec.t as int, rec2)
                                &&& #[trigger] scatter_post(rec2.mat, *r, rec2, sc2)
                                &&& (sc2 is None ==> v3(c) == (0int, 0int, 0int))
                                &&& (sc2 matches Some(pair) ==> exists|b: V3|
                                    radiance_post(world.list@, pair.1, depth as int - 1, b) && v3(
                                        c,
                                    ) == #[trigger] vmul(v3(pair.0), b))
                            }) by {
                            assert(is_hit_record(world.list@[idx], *r, rec.t as int, rec)
                                && scatter_post(rec.mat, *r, rec, sc) && (sc is None ==> v3(c) == (
                                0int,
                                0int,
                                0int,
                            )) && (sc matches Some(pair) ==> exists|b: V3|
                                radiance_post(world.list@, pair.1, depth as int - 1, b) && v3(c)
                                    == #[trigger] vmul(v3(pair.0), b)));
                        }
                        assert(radiance_post(world.list@, *r, depth as int, v3(c)));
                    }
                    c
                },
                None => {
                    let c = Vec3::new(0, 0, 0);
                    proof {
                        assert(exists|rec2: HitRecord, sc2: Option<(Color, Ray)>|
                            {
                                &&& is_hit_record(world.list@[idx], *r, rec.t as int, rec2)
                                &&& #[trigger] scatter_post(rec2.mat, *r, rec2, sc2)
                                &&& (sc2 is None ==> v3(c) == (0int, 0int, 0int))
                                &&& (sc2 matches Some(pair) ==> exists|b: V3|
                                    radiance_post(world.list@, pair.1, depth as int - 1, b) && v3(
                                        c,
                                    ) == #[trigger] vmul(v3(pair.0), b))
                            }) by {
                            assert(is_hit_record(world.list@[idx], *r, rec.t as int, rec)
                                && scatter_post(rec.mat, *r, rec, sc) && (sc is None ==> v3(c) == (
                                0int,
                                0int,
                                0int,
                            )));
                        }
                        assert(radiance_post(world.list@, *r, depth as int, v3(c)));
                    }
                    c
                },
            }
        },
        None => {
            let unit = Vec3::unit_vector(r.dir);
            let a: i128 = fx_mul(fx_add(unit.y, SCALE), HALF);
            let white = Vec3::new(SCALE, SCALE, SCALE);
            let blue = Vec3::new(32768, 45875, SCALE);
            let c = white.times(fx_sub(SCALE, a)).plus(blue.times(a));
            proof {
                assert(radiance_post(world.list@, *r, depth as int, v3(c)));
            }
            c
        },
    }
}

} // verus!
