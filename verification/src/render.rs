//! The integrator and the scan-line renderer: recursive radiance estimation,
//! validated render settings, the shared pixel buffer, row rendering with
//! anti-aliasing jitter, and the progress stream.

use vstd::prelude::*;
use vstd::arithmetic::div_mod::lemma_div_is_ordered;
use vstd::arithmetic::div_mod::lemma_div_multiples_vanish;
use vstd::arithmetic::div_mod::lemma_div_pos_is_pos;
use crate::camera::{Camera, camera_wf};
use crate::fixed::div_floor_i64;
use crate::fixed::fmul_spec;
use crate::fixed::lemma_fmul_unit_range;
use crate::hittable::{HitRecord, Hittable};
use crate::payload::{BigBoy, Payload};
use crate::random::random_fixed;
use crate::ray::Ray;
use crate::rng::Rng;
use crate::scatterable::{Scatterable, albedo_wf};
use crate::vec3::{Color, Vec3, lemma_dot_self, quantize_spec, unit_of, v_is_zero, vec_in};
use crate::world::{
    World, at_most_all, lemma_winner_unique, none_hit, winning_index, world_wf,
};

verus! {

/// The recursion bound of the integrator.
pub const MAX_DEPTH: i32 = 120;

/// The lower end of every intersection query: about 0.001 world units, to
/// avoid re-hitting the surface a ray just left.
pub const T_MIN_HIT: i64 = 66;

/// The upper end of every intersection query: far beyond any coordinate the
/// scene can hold, standing in for infinity.
pub const T_LIMIT: i64 = 0x4000_0000;

/// Pure black, the color of an absorbed or exhausted ray.
pub open spec fn black() -> Vec3 {
    Vec3 { x: 0, y: 0, z: 0 }
}

/// Every channel lies in `[0, 1]`.
pub open spec fn color_unit_range(c: Vec3) -> bool {
    0 <= c.x <= 65536 && 0 <= c.y <= 65536 && 0 <= c.z <= 65536
}

/// The vertical interpolation weight of the sky gradient, in `[0, 1]`:
/// the unit direction's height mapped from `[-1, 1]`.
pub open spec fn sky_t(r: Ray) -> int {
    (unit_of(r.direction).y + 65536) / 2
}

/// The background gradient: white at the horizon blended toward sky blue
/// `(0.5, 0.7, 1.0)` at the top.
pub open spec fn sky_color_spec(r: Ray) -> Vec3 {
    let t = sky_t(r);
    Vec3 {
        x: (65536 - t + fmul_spec(t, 32768)) as i64,
        y: (65536 - t + fmul_spec(t, 45875)) as i64,
        z: (65536 - t + fmul_spec(t, 65536)) as i64,
    }
}

/// The gradient's blend at `t` stays inside `[0, 1]` per channel.
proof fn lemma_sky_blend_range(t: int, b: int)
    requires
        0 <= t <= 65536,
        0 <= b <= 65536,
    ensures
        0 <= 65536 - t + fmul_spec(t, b) <= 65536,
{
    lemma_fmul_unit_range(t, b);
    assert(t * b <= t * 65536) by (nonlinear_arith)
        requires 0 <= t, b <= 65536;
    lemma_div_is_ordered(t * b, t * 65536, 65536);
    lemma_div_multiples_vanish(t, 65536);
    assert(t * 65536 == 65536 * t) by (nonlinear_arith);
}

/// The only light source: the sky gradient a missed ray returns.
pub fn sky_color(r: Ray) -> (c: Color)
    requires
        vec_in(r.direction, 0x1000_0000),
        !v_is_zero(r.direction),
    ensures
        c == sky_color_spec(r),
        color_unit_range(c),
{
    let u = r.direction.unit_vector();
    proof {
        lemma_dot_self(r.direction);
        let uv = unit_of(r.direction);
        assert(uv.x == u.x && uv.y == u.y && uv.z == u.z);
        assert(uv == u);
    }
    let t = div_floor_i64(u.y + 65536, 2);
    proof {
        lemma_div_pos_is_pos(u.y + 65536, 2);
        lemma_div_is_ordered(u.y + 65536, 131072, 2);
        lemma_sky_blend_range(t as int, 32768);
        lemma_sky_blend_range(t as int, 45875);
        lemma_sky_blend_range(t as int, 65536);
        lemma_div_multiples_vanish(65536 - t, 65536);
        assert(65536 * (65536 - t) == (65536 - t) * 65536) by (nonlinear_arith);
    }
    let white = Vec3::diagonal(65536);
    let blue = Vec3::new(32768, 45875, 65536);
    white.scale_fixed(65536 - t).add(blue.scale_fixed(t))
}

/// The hit's geometry is numerically sound: the normal is bounded and
/// nonzero, and the point lies within scene coordinates.
pub open spec fn record_geometry_wf(rec: HitRecord) -> bool {
    &&& vec_in(rec.normal, 0x20000)
    &&& !v_is_zero(rec.normal)
    &&& vec_in(rec.point, 0x1000_0000)
}

/// Member `i` produced record `rec` as the scene's winning hit for this
/// query, and that record's integer geometry degenerated.
pub open spec fn degenerate_winner_at(
    world: World, r: Ray, t_min: int, t_max: int, rec: HitRecord, i: int) -> bool {
    &&& winning_index(world.objects@, r, t_min, t_max, rec, i)
    &&& at_most_all(world.objects@, r, t_min, t_max, rec.t as int)
    &&& !record_geometry_wf(rec)
}

/// The scene's winning hit for this query exists but its integer geometry
/// degenerated, so the integrator treats the ray as absorbed.
pub open spec fn winner_degenerate(world: World, r: Ray, t_min: int, t_max: int) -> bool {
    exists|rec: HitRecord, i: int|
        #[trigger] degenerate_winner_at(world, r, t_min, t_max, rec, i)
}

/// What the integrator guarantees of an estimate `c` along `r`, whatever the
/// random draws were: a color in unit range; exactly the sky gradient when
/// every scene member misses the ray; and black when the winning hit's
/// integer geometry degenerated.
pub open spec fn integrator_ok(world: World, r: Ray, c: Vec3) -> bool {
    &&& color_unit_range(c)
    &&& none_hit(world.objects@, r, T_MIN_HIT as int, T_LIMIT as int) ==> c == sky_color_spec(r)
    &&& winner_degenerate(world, r, T_MIN_HIT as int, T_LIMIT as int) ==> c == black()
}

/// Tests `record_geometry_wf` at run time.
fn record_geometry_ok(rec: &HitRecord) -> (b: bool)
    ensures
        b == record_geometry_wf(*rec),
{
    -0x20000 <= rec.normal.x && rec.normal.x <= 0x20000
        && -0x20000 <= rec.normal.y && rec.normal.y <= 0x20000
        && -0x20000 <= rec.normal.z && rec.normal.z <= 0x20000
        && !(rec.normal.x == 0 && rec.normal.y == 0 && rec.normal.z == 0)
        && -0x1000_0000 <= rec.point.x && rec.point.x <= 0x1000_0000
        && -0x1000_0000 <= rec.point.y && rec.point.y <= 0x1000_0000
        && -0x1000_0000 <= rec.point.z && rec.point.z <= 0x1000_0000
}

/// The recursive, depth-bounded radiance estimate along `r`: black once the
/// depth is spent or a ray is absorbed, the sky gradient on a miss, and
/// otherwise the scattered estimate attenuated by the material's albedo.
/// Hits whose integer geometry degenerated are treated as absorbed.
pub fn ray_color(r: Ray, world: &World, depth: i32, rng: &mut Rng) -> (c: Color)
    requires
        world_wf(*world),
        vec_in(r.origin, 0x1000_0000),
        vec_in(r.direction, 0x1000_0000),
        !v_is_zero(r.direction),
    ensures
        color_unit_range(c),
        depth <= 0 ==> c == black(),
        depth > 0 ==> integrator_ok(*world, r, c),
    decreases depth,
{
    if depth <= 0 {
        return Vec3::diagonal(0);
    }
    proof {
        lemma_dot_self(r.direction);
    }
    match world.hit(r, T_MIN_HIT, T_LIMIT) {
        Some(hit_record) => {
            if !record_geometry_ok(&hit_record) {
                return Vec3::diagonal(0);
            }
            proof {
                let objs = world.objects@;
                let i = choose|i: int|
                    winning_index(objs, r, T_MIN_HIT as int, T_LIMIT as int, hit_record, i);
                assert(albedo_wf(hit_record.material));
                // Any degenerate winner would be this very record, whose
                // geometry just passed the check.
                if winner_degenerate(*world, r, T_MIN_HIT as int, T_LIMIT as int) {
                    let (rec, k) = choose|rec: HitRecord, k: int|
                        degenerate_winner_at(*world, r, T_MIN_HIT as int, T_LIMIT as int, rec, k);
                    lemma_winner_unique(
                        objs, r, T_MIN_HIT as int, T_LIMIT as int, hit_record, i, rec, k);
                    assert(false);
                }
            }
            match hit_record.material.scatter(r, &hit_record, rng) {
                Some((scattered, attenuation)) => {
                    let bounce = ray_color(scattered, world, depth - 1, rng);
                    proof {
                        lemma_fmul_unit_range(attenuation.x as int, bounce.x as int);
                        lemma_fmul_unit_range(attenuation.y as int, bounce.y as int);
                        lemma_fmul_unit_range(attenuation.z as int, bounce.z as int);
                    }
                    attenuation.mul_fixed(bounce)
                },
                None => Vec3::diagonal(0),
            }
        },
        None => {
            proof {
                if winner_degenerate(*world, r, T_MIN_HIT as int, T_LIMIT as int) {
                    let (rec, k) = choose|rec: HitRecord, k: int|
                        degenerate_winner_at(*world, r, T_MIN_HIT as int, T_LIMIT as int, rec, k);
                    assert(false);
                }
            }
            sky_color(r)
        },
    }
}

/// Externally supplied render parameters, validated before use.
#[derive(Clone, Copy, Debug, PartialEq, Eq, Structural)]
pub struct RenderSettings {
    pub width: usize,
    pub samples: usize,
}

/// Why a settings message was rejected.
#[derive(Clone, Copy, Debug, PartialEq, Eq, Structural)]
pub enum SettingsError {
    WidthOutOfRange,
    SamplesOutOfRange,
}

/// Validated settings: a 16:9 image width the buffers can hold, and a
/// positive bounded sample count.
pub open spec fn settings_wf(s: RenderSettings) -> bool {
    16 <= s.width <= 4096 && 1 <= s.samples <= 8192
}

/// The image height that goes with `width` at the fixed 16:9 aspect ratio.
pub open spec fn height_of(width: int) -> int {
    width * 9 / 16
}

impl RenderSettings {
    /// Accepts a settings message exactly when the width lies in
    /// `[16, 4096]` and the sample count in `[1, 8192]`; otherwise reports
    /// which field was out of range, the width first.
    pub fn new(width: u64, samples: u64) -> (res: Result<RenderSettings, SettingsError>)
        ensures
            match res {
                Ok(s) => {
                    &&& settings_wf(s)
                    &&& s.width == width
                    &&& s.samples == samples
                },
                Err(SettingsError::WidthOutOfRange) => !(16 <= width <= 4096),
                Err(SettingsError::SamplesOutOfRange) => {
                    &&& 16 <= width <= 4096
                    &&& !(1 <= samples <= 8192)
                },
            },
    {
        if width < 16 || width > 4096 {
            Err(SettingsError::WidthOutOfRange)
        } else if samples < 1 || samples > 8192 {
            Err(SettingsError::SamplesOutOfRange)
        } else {
            Ok(RenderSettings { width: width as usize, samples: samples as usize })
        }
    }

    /// The image height for these settings.
    pub fn height(&self) -> (h: usize)
        requires
            settings_wf(*self),
        ensures
            h == height_of(self.width as int),
            9 <= h <= 2304,
    {
        proof {
            lemma_div_is_ordered(144, self.width as int * 9, 16);
            lemma_div_is_ordered(self.width as int * 9, 36864, 16);
        }
        self.width * 9 / 16
    }
}

impl Default for RenderSettings {
    /// The settings a fresh server starts with.
    fn default() -> (s: RenderSettings)
        ensures
            settings_wf(s),
            s.width == 3840,
            s.samples == 1000,
    {
        RenderSettings { width: 3840, samples: 1000 }
    }
}

/// The shared output raster: `3 * width * height` bytes, row-major, three
/// bytes per pixel.
#[derive(Clone, Debug)]
pub struct PixelBuffer {
    pub width: usize,
    pub height: usize,
    pub data: Vec<u8>,
}

/// The byte store matches the declared bounded dimensions.
pub open spec fn buffer_wf(b: PixelBuffer) -> bool {
    &&& b.data@.len() == 3 * b.width * b.height
    &&& b.width <= 4096
    &&& b.height <= 2304
}

impl PixelBuffer {
    /// A freshly zeroed buffer of the given dimensions.
    pub fn new(width: usize, height: usize) -> (b: PixelBuffer)
        requires
            width <= 4096,
            height <= 2304,
        ensures
            buffer_wf(b),
            b.width == width,
            b.height == height,
            forall|i: int| 0 <= i < b.data@.len() ==> b.data@[i] == 0,
    {
        proof {
            assert(3 * width * height <= 3 * 4096 * 2304) by (nonlinear_arith)
                requires width <= 4096, height <= 2304;
        }
        let n = 3 * width * height;
        let mut data: Vec<u8> = Vec::new();
        let mut i: usize = 0;
        while i < n
            invariant
                i <= n,
                data@.len() == i,
                forall|j: int| 0 <= j < i ==> data@[j] == 0,
            decreases n - i,
        {
            data.push(0);
            i = i + 1;
        }
        PixelBuffer { width, height, data }
    }

    /// Overwrites exactly the bytes of row `row`, leaving every other byte of
    /// the buffer unchanged.
    pub fn set_row(&mut self, row: usize, pixels: &Vec<u8>)
        requires
            buffer_wf(*old(self)),
            row < old(self).height,
            pixels@.len() == 3 * old(self).width,
        ensures
            buffer_wf(*final(self)),
            final(self).width == old(self).width,
            final(self).height == old(self).height,
            forall|i: int| 0 <= i < pixels@.len()
                ==> final(self).data@[3 * old(self).width * row + i] == pixels@[i],
            forall|i: int| 0 <= i < old(self).data@.len()
                && !(3 * old(self).width * row <= i < 3 * old(self).width * (row + 1))
                ==> final(self).data@[i] == old(self).data@[i],
    {
        proof {
            assert(3 * self.width * row + 3 * self.width <= 3 * self.width * self.height
                && 3 * self.width * self.height <= 28311552
                && 3 * self.width * (row + 1) == 3 * self.width * row + 3 * self.width)
                by (nonlinear_arith)
                requires row < self.height, self.width <= 4096, self.height <= 2304;
        }
        let base = 3 * self.width * row;
        let mut i: usize = 0;
        while i < pixels.len()
            invariant
                buffer_wf(*self),
                self.width == old(self).width,
                self.height == old(self).height,
                pixels@.len() == 3 * self.width,
                base == 3 * self.width * row,
                base + pixels@.len() <= self.data@.len(),
                self.data@.len() <= 28311552,
                i <= pixels@.len(),
                forall|j: int| 0 <= j < i ==> self.data@[base + j] == pixels@[j],
                forall|j: int| 0 <= j < self.data@.len() && !(base <= j < base + i)
                    ==> self.data@[j] == old(self).data@[j],
            decreases pixels@.len() - i,
        {
            let value = pixels[i];
            self.data.set(base + i, value);
            i = i + 1;
        }
    }

    /// A snapshot of row `row`, independent of the buffer.
    pub fn row_payload(&self, row: usize) -> (p: Payload)
        requires
            buffer_wf(*self),
            row < self.height,
        ensures
            p.row == row,
            p.pixels@.len() == 3 * self.width,
            forall|i: int| 0 <= i < 3 * self.width
                ==> p.pixels@[i] == self.data@[3 * self.width * row + i],
    {
        proof {
            assert(3 * self.width * row + 3 * self.width <= 3 * self.width * self.height
                && 3 * self.width * self.height <= 28311552)
                by (nonlinear_arith)
                requires row < self.height, self.width <= 4096, self.height <= 2304;
        }
        let base = 3 * self.width * row;
        let n = 3 * self.width;
        let mut bytes: Vec<u8> = Vec::new();
        let mut i: usize = 0;
        while i < n
            invariant
                n == 3 * self.width,
                base == 3 * self.width * row,
                base + n <= self.data@.len(),
                self.data@.len() <= 28311552,
                buffer_wf(*self),
                i <= n,
                bytes@.len() == i,
                forall|j: int| 0 <= j < i ==> bytes@[j] == self.data@[base + j],
            decreases n - i,
        {
            let value = self.data[base + i];
            bytes.push(value);
            i = i + 1;
        }
        Payload { row, pixels: BigBoy::from_bytes(bytes) }
    }
}

/// The jittered horizontal viewport coordinate of pixel column `x`.
pub open spec fn jittered_u(width: int, x: int, ju: int) -> int {
    (x * 65536 + ju) / (width - 1)
}

/// The jittered vertical viewport coordinate of row `row`, measured from the
/// bottom of the image.
pub open spec fn jittered_v(height: int, row: int, jv: int) -> int {
    (height * 65536 - (row * 65536 + jv)) / (height - 1)
}

/// `c` is a color the integrator can report for one sample of pixel
/// `(x, row)`: an estimate along the camera ray through some jitter pair
/// inside the pixel footprint.
pub open spec fn sample_color_ok(
    world: World, cam: Camera, s: RenderSettings, x: int, row: int, c: Vec3) -> bool {
    exists|ju: int, jv: int| {
        &&& 0 <= ju < 65536
        &&& 0 <= jv < 65536
        &&& #[trigger] integrator_ok(
            world,
            crate::camera::camera_ray(
                cam,
                jittered_u(s.width as int, x, ju),
                jittered_v(height_of(s.width as int), row, jv)),
            c)
    }
}

/// The accumulated red channel of a list of sample colors.
pub open spec fn sum_x(colors: Seq<Vec3>) -> int
    decreases colors.len(),
{
    if colors.len() == 0 {
        0
    } else {
        sum_x(colors.drop_last()) + colors.last().x
    }
}

/// The accumulated green channel of a list of sample colors.
pub open spec fn sum_y(colors: Seq<Vec3>) -> int
    decreases colors.len(),
{
    if colors.len() == 0 {
        0
    } else {
        sum_y(colors.drop_last()) + colors.last().y
    }
}

/// The accumulated blue channel of a list of sample colors.
pub open spec fn sum_z(colors: Seq<Vec3>) -> int
    decreases colors.len(),
{
    if colors.len() == 0 {
        0
    } else {
        sum_z(colors.drop_last()) + colors.last().z
    }
}

/// The three bytes of pixel `(x, row)` are the tone-mapped averages of
/// `samples` integrator sample colors, each taken through its own jitter.
pub open spec fn pixel_bytes_ok(
    world: World, cam: Camera, s: RenderSettings, x: int, row: int,
    b0: u8, b1: u8, b2: u8) -> bool {
    exists|colors: Seq<Vec3>| #![trigger sum_x(colors)] {
        &&& colors.len() == s.samples
        &&& (forall|k: int| 0 <= k < colors.len()
            ==> sample_color_ok(world, cam, s, x, row, #[trigger] colors[k]))
        &&& b0 == quantize_spec(sum_x(colors), s.samples as int)
        &&& b1 == quantize_spec(sum_y(colors), s.samples as int)
        &&& b2 == quantize_spec(sum_z(colors), s.samples as int)
    }
}

/// Renders one scan line: for each pixel, averages jittered samples of the
/// integrator and tone-maps them to three bytes.
pub fn render_row(
    world: &World, camera: &Camera, settings: &RenderSettings, row: usize, rng: &mut Rng)
    -> (pixels: Vec<u8>)
    requires
        world_wf(*world),
        camera_wf(*camera),
        settings_wf(*settings),
        row < height_of(settings.width as int),
    ensures
        pixels@.len() == 3 * settings.width,
        forall|x: int| 0 <= x < settings.width
            ==> #[trigger] pixel_bytes_ok(*world, *camera, *settings, x, row as int,
                pixels@[3 * x], pixels@[3 * x + 1], pixels@[3 * x + 2]),
{
    let width = settings.width;
    let height = settings.height();
    let samples = settings.samples;
    let w1 = (width as i64) - 1;
    let h1 = (height as i64) - 1;
    let mut pixels: Vec<u8> = Vec::new();
    let mut x: usize = 0;
    while x < width
        invariant
            world_wf(*world),
            camera_wf(*camera),
            settings_wf(*settings),
            width == settings.width,
            height == height_of(settings.width as int),
            samples == settings.samples,
            row < height,
            w1 == width - 1,
            h1 == height - 1,
            x <= width,
            pixels@.len() == 3 * x,
            forall|xi: int| 0 <= xi < x
                ==> #[trigger] pixel_bytes_ok(*world, *camera, *settings, xi, row as int,
                    pixels@[3 * xi], pixels@[3 * xi + 1], pixels@[3 * xi + 2]),
        decreases width - x,
    {
        let mut sum = Vec3::diagonal(0);
        let ghost mut colors: Seq<Vec3> = Seq::empty();
        let mut s: usize = 0;
        while s < samples
            invariant
                world_wf(*world),
                camera_wf(*camera),
                settings_wf(*settings),
                width == settings.width,
                height == height_of(settings.width as int),
                samples == settings.samples,
                row < height,
                x < width,
                w1 == width - 1,
                h1 == height - 1,
                s <= samples,
                0 <= sum.x <= s * 65536,
                0 <= sum.y <= s * 65536,
                0 <= sum.z <= s * 65536,
                colors.len() == s,
                sum.x == sum_x(colors),
                sum.y == sum_y(colors),
                sum.z == sum_z(colors),
                forall|k: int| 0 <= k < colors.len()
                    ==> sample_color_ok(*world, *camera, *settings, x as int, row as int,
                        #[trigger] colors[k]),
            decreases samples - s,
        {
            let ju = random_fixed(rng);
            let jv = random_fixed(rng);
            let nu = (x as i64) * 65536 + ju;
            let nv = (height as i64) * 65536 - ((row as i64) * 65536 + jv);
            proof {
                assert(nu <= w1 * 131072) by (nonlinear_arith)
                    requires nu <= w1 * 65536 + 65535, w1 >= 1;
                crate::vec3::lemma_div_bounds_by_multiple(nu as int, w1 as int, 131072);
                lemma_div_pos_is_pos(nu as int, w1 as int);
                assert(nv <= h1 * 131072 && nv >= 1) by (nonlinear_arith)
                    requires
                        nv == height * 65536 - row * 65536 - jv,
                        row <= h1,
                        0 <= jv < 65536,
                        height == h1 + 1,
                        h1 >= 1;
                crate::vec3::lemma_div_bounds_by_multiple(nv as int, h1 as int, 131072);
                lemma_div_pos_is_pos(nv as int, h1 as int);
            }
            let u = div_floor_i64(nu, w1);
            let v = div_floor_i64(nv, h1);
            let ray = camera.get_ray(u, v);
            let c = ray_color(ray, world, MAX_DEPTH, rng);
            proof {
                assert(u == jittered_u(settings.width as int, x as int, ju as int));
                assert(v == jittered_v(height_of(settings.width as int), row as int, jv as int));
                assert(integrator_ok(
                    *world,
                    crate::camera::camera_ray(
                        *camera,
                        jittered_u(settings.width as int, x as int, ju as int),
                        jittered_v(height_of(settings.width as int), row as int, jv as int)),
                    c));
                assert(sample_color_ok(*world, *camera, *settings, x as int, row as int, c));
                assert(colors.push(c).drop_last() =~= colors);
                assert(sum_x(colors.push(c)) == sum_x(colors) + c.x);
                assert(sum_y(colors.push(c)) == sum_y(colors) + c.y);
                assert(sum_z(colors.push(c)) == sum_z(colors) + c.z);
                colors = colors.push(c);
            }
            sum = sum.add(c);
            s = s + 1;
        }
        let (pr, pg, pb) = sum.color(samples as i64);
        proof {
            assert(colors.len() == settings.samples);
            assert(pr == quantize_spec(sum_x(colors), settings.samples as int));
            assert(pg == quantize_spec(sum_y(colors), settings.samples as int));
            assert(pb == quantize_spec(sum_z(colors), settings.samples as int));
            assert(pixel_bytes_ok(*world, *camera, *settings, x as int, row as int, pr, pg, pb));
        }
        pixels.push(pr);
        pixels.push(pg);
        pixels.push(pb);
        x = x + 1;
    }
    pixels
}

/// Renders every row in order into the shared buffer, returning one payload
/// per completed row: payload `i` names row `i` and snapshots its bytes.
pub fn render(
    world: &World, camera: &Camera, settings: &RenderSettings, buffer: &mut PixelBuffer,
    rng: &mut Rng) -> (payloads: Vec<Payload>)
    requires
        world_wf(*world),
        camera_wf(*camera),
        settings_wf(*settings),
        buffer_wf(*old(buffer)),
        old(buffer).width == settings.width,
        old(buffer).height == height_of(settings.width as int),
    ensures
        buffer_wf(*final(buffer)),
        final(buffer).width == old(buffer).width,
        final(buffer).height == old(buffer).height,
        payloads@.len() == old(buffer).height,
        forall|i: int| 0 <= i < payloads@.len()
            ==> (#[trigger] payloads@[i]).row == i
                && payloads@[i].pixels@.len() == 3 * settings.width,
        forall|i: int, j: int|
            0 <= i < payloads@.len() && 0 <= j < 3 * settings.width
            ==> #[trigger] payloads@[i].pixels@[j]
                == final(buffer).data@[3 * settings.width * i + j],
        forall|ri: int, x: int|
            0 <= ri < old(buffer).height && 0 <= x < settings.width
            ==> #[trigger] pixel_bytes_ok(*world, *camera, *settings, x, ri,
                final(buffer).data@[3 * settings.width * ri + 3 * x],
                final(buffer).data@[3 * settings.width * ri + 3 * x + 1],
                final(buffer).data@[3 * settings.width * ri + 3 * x + 2]),
{
    let mut payloads: Vec<Payload> = Vec::new();
    let height = buffer.height;
    let mut row: usize = 0;
    while row < height
        invariant
            world_wf(*world),
            camera_wf(*camera),
            settings_wf(*settings),
            buffer_wf(*buffer),
            buffer.width == settings.width,
            buffer.height == height,
            height == height_of(settings.width as int),
            row <= height,
            payloads@.len() == row,
            forall|i: int| 0 <= i < payloads@.len()
                ==> (#[trigger] payloads@[i]).row == i
                    && payloads@[i].pixels@.len() == 3 * settings.width,
            forall|i: int, j: int|
                0 <= i < payloads@.len() && 0 <= j < 3 * settings.width
                ==> #[trigger] payloads@[i].pixels@[j]
                    == buffer.data@[3 * settings.width * i + j],
            forall|ri: int, x: int|
                0 <= ri < row && 0 <= x < settings.width
                ==> #[trigger] pixel_bytes_ok(*world, *camera, *settings, x, ri,
                    buffer.data@[3 * settings.width * ri + 3 * x],
                    buffer.data@[3 * settings.width * ri + 3 * x + 1],
                    buffer.data@[3 * settings.width * ri + 3 * x + 2]),
        decreases height - row,
    {
        let px = render_row(world, camera, settings, row, rng);
        let ghost data0 = buffer.data@;
        buffer.set_row(row, &px);
        proof {
            assert forall|i: int, j: int|
                0 <= i < row && 0 <= j < 3 * settings.width
                implies #[trigger] (3 * settings.width * i + j) < 3 * settings.width * row
                    && 0 <= 3 * settings.width * i + j
                    && 3 * settings.width * row + 3 * settings.width
                        <= 3 * settings.width * buffer.height by {
                lemma_rows_are_disjoint(settings.width as int, buffer.height as int, i, j, row as int);
            }
            // The bytes of row `row` now hold this scan line's pixels, and
            // the bytes of every earlier row are untouched.
            assert forall|ri: int, x: int|
                0 <= ri < row + 1 && 0 <= x < settings.width
                implies #[trigger] pixel_bytes_ok(*world, *camera, *settings, x, ri,
                    buffer.data@[3 * settings.width * ri + 3 * x],
                    buffer.data@[3 * settings.width * ri + 3 * x + 1],
                    buffer.data@[3 * settings.width * ri + 3 * x + 2]) by {
                if ri < row {
                    lemma_rows_are_disjoint(
                        settings.width as int, buffer.height as int, ri, 3 * x, row as int);
                    lemma_rows_are_disjoint(
                        settings.width as int, buffer.height as int, ri, 3 * x + 1, row as int);
                    lemma_rows_are_disjoint(
                        settings.width as int, buffer.height as int, ri, 3 * x + 2, row as int);
                    assert(buffer.data@[3 * settings.width * ri + 3 * x]
                        == data0[3 * settings.width * ri + 3 * x]);
                    assert(buffer.data@[3 * settings.width * ri + 3 * x + 1]
                        == data0[3 * settings.width * ri + 3 * x + 1]);
                    assert(buffer.data@[3 * settings.width * ri + 3 * x + 2]
                        == data0[3 * settings.width * ri + 3 * x + 2]);
                    assert(pixel_bytes_ok(*world, *camera, *settings, x, ri,
                        data0[3 * settings.width * ri + 3 * x],
                        data0[3 * settings.width * ri + 3 * x + 1],
                        data0[3 * settings.width * ri + 3 * x + 2]));
                } else {
                    assert(buffer.data@[3 * settings.width * row + 3 * x] == px@[3 * x]);
                    assert(buffer.data@[3 * settings.width * row + 3 * x + 1] == px@[3 * x + 1]);
                    assert(buffer.data@[3 * settings.width * row + 3 * x + 2] == px@[3 * x + 2]);
                    assert(pixel_bytes_ok(*world, *camera, *settings, x, row as int,
                        px@[3 * x], px@[3 * x + 1], px@[3 * x + 2]));
                }
            }
        }
        let p = buffer.row_payload(row);
        payloads.push(p);
        row = row + 1;
    }
    payloads
}

/// Bytes of an earlier row lie strictly below the range that writing `row`
/// touches.
proof fn lemma_rows_are_disjoint(w: int, h: int, i: int, j: int, row: int)
    requires
        0 <= w,
        0 <= j < 3 * w,
        0 <= i < row < h,
    ensures
        0 <= 3 * w * i + j < 3 * w * row,
        3 * w * row + 3 * w <= 3 * w * h,
{
    assert(3 * w * i + 3 * w <= 3 * w * row && 3 * w * row + 3 * w <= 3 * w * h
        && 0 <= 3 * w * i)
        by (nonlinear_arith)
        requires 0 <= w, 0 <= i < row < h;
}

/// One message of the progress stream: a completed row, or the end marker
/// that follows the last row.
#[derive(Clone, Debug)]
pub enum ProgressMessage {
    Row(Payload),
    End,
}

/// Wraps completed-row payloads as a stream: each payload in order, then
/// exactly one end marker.
pub fn progress_messages(payloads: Vec<Payload>) -> (msgs: Vec<ProgressMessage>)
    ensures
        msgs@.len() == payloads@.len() + 1,
        forall|i: int| 0 <= i < payloads@.len()
            ==> msgs@[i] == ProgressMessage::Row(payloads@[i]),
        msgs@[msgs@.len() - 1] == ProgressMessage::End,
{
    let mut msgs: Vec<ProgressMessage> = Vec::new();
    let mut src = payloads;
    proof {
        assert(src@ =~= payloads@.skip(0));
    }
    while src.len() > 0
        invariant
            msgs@.len() + src@.len() == payloads@.len(),
            src@ =~= payloads@.skip(msgs@.len() as int),
            forall|i: int| 0 <= i < msgs@.len()
                ==> msgs@[i] == ProgressMessage::Row(payloads@[i]),
        decreases src@.len(),
    {
        let p = src.remove(0);
        proof {
            assert(payloads@.skip(msgs@.len() as int)[0] == payloads@[msgs@.len() as int]);
        }
        msgs.push(ProgressMessage::Row(p));
        proof {
            assert(src@ =~= payloads@.skip(msgs@.len() as int));
        }
    }
    msgs.push(ProgressMessage::End);
    msgs
}

/// Renders a whole image and returns its progress stream: exactly one row
/// message per image row, in row order, followed by exactly one end marker.
pub fn render_stream(
    world: &World, camera: &Camera, settings: &RenderSettings, buffer: &mut PixelBuffer,
    rng: &mut Rng) -> (msgs: Vec<ProgressMessage>)
    requires
        world_wf(*world),
        camera_wf(*camera),
        settings_wf(*settings),
        buffer_wf(*old(buffer)),
        old(buffer).width == settings.width,
        old(buffer).height == height_of(settings.width as int),
    ensures
        buffer_wf(*final(buffer)),
        msgs@.len() == old(buffer).height + 1,
        msgs@[msgs@.len() - 1] == ProgressMessage::End,
        forall|i: int| 0 <= i < old(buffer).height
            ==> (match #[trigger] msgs@[i] {
                ProgressMessage::Row(p) => {
                    &&& p.row == i
                    &&& p.pixels@.len() == 3 * settings.width
                    &&& forall|j: int| 0 <= j < 3 * settings.width
                        ==> #[trigger] p.pixels@[j]
                            == final(buffer).data@[3 * settings.width * i + j]
                },
                ProgressMessage::End => false,
            }),
        forall|ri: int, x: int|
            0 <= ri < old(buffer).height && 0 <= x < settings.width
            ==> #[trigger] pixel_bytes_ok(*world, *camera, *settings, x, ri,
                final(buffer).data@[3 * settings.width * ri + 3 * x],
                final(buffer).data@[3 * settings.width * ri + 3 * x + 1],
                final(buffer).data@[3 * settings.width * ri + 3 * x + 2]),
{
    let payloads = render(world, camera, settings, buffer, rng);
    progress_messages(payloads)
}

} // verus!
