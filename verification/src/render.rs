//! The render loop: what to draw, the course of one light path, and the
//! image.
//!
//! The caller shades a pixel: it makes the rays, computes the cuts, asks the
//! scene for the nearest hit and sums the light. The library lays the pixels
//! out, steers each path between two bounces, and turns the levels that come
//! back into bytes.

use crate::env::{Camera, Scene};
use crate::geo::{Scalar, Vec3};
use crate::par::par_collect;
use std::ops::Neg;
use vstd::prelude::*;

verus! {

/// `rayon::ThreadPoolBuildError`, the reason why a pool of threads could not
/// be built. The library names the type and reads nothing of its values.
#[verifier::external_type_specification]
#[verifier::external_body]
pub struct ExThreadPoolBuildError(rayon::ThreadPoolBuildError);

/// What a picture shows.
#[derive(Clone, Copy, Debug)]
pub enum RenderMode {
    /// The light that arrives, estimated over random paths.
    Shade,
    /// The normal of the nearest surface.
    Normal,
    /// The colour of the nearest surface, darker the more it turns away.
    NormalColor,
    /// The distance of the nearest surface, against the given depth.
    Depth(Scalar),
    /// `NormalColor` at full strength, scaled by `Depth`.
    DepthNormalColor(Scalar),
}

impl RenderMode {
    /// The name of the mode: that of its variant, without the depth.
    pub open spec fn name_spec(self) -> Seq<char> {
        match self {
            RenderMode::Shade => "Shade"@,
            RenderMode::Normal => "Normal"@,
            RenderMode::NormalColor => "NormalColor"@,
            RenderMode::Depth(_) => "Depth"@,
            RenderMode::DepthNormalColor(_) => "DepthNormalColor"@,
        }
    }

    /// The name of the mode.
    pub fn name(&self) -> (r: String)
        ensures
            r@ == self.name_spec(),
    {
        match self {
            RenderMode::Shade => "Shade".to_owned(),
            RenderMode::Normal => "Normal".to_owned(),
            RenderMode::NormalColor => "NormalColor".to_owned(),
            RenderMode::Depth(_) => "Depth".to_owned(),
            RenderMode::DepthNormalColor(_) => "DepthNormalColor".to_owned(),
        }
    }
}

/// All that a render needs.
pub struct RenderSetting {
    /// Width and height of the image in pixels.
    pub window_size: (usize, usize),
    /// The paths drawn for each pixel.
    pub spp: usize,
    /// The most bounces one path makes.
    pub reflect_n: usize,
    pub camera: Camera,
    pub scene: Scene,
    pub mode: RenderMode,
}

/// The normal of a surface, turned against the ray that arrives. `facing` is
/// the product of the normal with the reversed direction of the ray: where
/// it is above zero the normal stays, else its sign is turned.
pub fn orient(normal: Vec3, facing: Scalar) -> (r: Vec3)
    ensures
        r == (if Scalar::zero().lt(facing) {
            normal
        } else {
            normal.negated()
        }),
{
    if facing > Scalar::new_zero() {
        normal
    } else {
        normal.neg()
    }
}

/// How a path leaves a clear surface.
#[derive(Clone, Copy, Debug, PartialEq, Eq, Structural)]
pub enum Bounce {
    /// Mirrored about the normal.
    Reflect,
    /// Bent into the other medium.
    Refract,
}

/// The way that `fresnel_bounce` picks.
pub open spec fn fresnel_bounce_spec(disc: Scalar, fr: Scalar, u: Scalar) -> Bounce {
    if disc.lt(Scalar::zero()) || u.lt(fr) {
        Bounce::Reflect
    } else {
        Bounce::Refract
    }
}

/// Picks reflection or refraction at a clear surface. `disc` is the
/// discriminant of Snell's law, `fr` the share of the light that is
/// reflected, `u` a draw from between 0 and 1. A negative discriminant is
/// total internal reflection. Else the path is reflected where the draw
/// falls below the share, and refracted where it does not.
pub fn fresnel_bounce(disc: Scalar, fr: Scalar, u: Scalar) -> (r: Bounce)
    ensures
        r == fresnel_bounce_spec(disc, fr, u),
{
    if disc < Scalar::new_zero() {
        Bounce::Reflect
    } else if u < fr {
        Bounce::Reflect
    } else {
        Bounce::Refract
    }
}

/// The largest channel of a throughput, leaving out what is no number.
pub open spec fn peak(throughput: Vec3) -> Option<int> {
    Scalar::larger(throughput.x@, Scalar::larger(throughput.y@, throughput.z@))
}

/// Whether a path can carry no more light: the largest channel of its
/// throughput is zero.
pub fn exhausted(throughput: Vec3) -> (r: bool)
    ensures
        r == (peak(throughput) == Some(0int)),
{
    throughput.x.max(throughput.y.max(throughput.z)) == Scalar::new_zero()
}

/// One light path between two bounces.
#[derive(Clone, Copy, Debug, PartialEq, Eq, Structural)]
pub struct Path {
    /// The bounces made.
    pub depth: usize,
    /// The most bounces the path makes.
    pub limit: usize,
    /// Whether the path goes on.
    pub live: bool,
}

impl Path {
    /// A path has made no more bounces than its limit, and one that goes on
    /// has made fewer.
    pub open spec fn wf(self) -> bool {
        self.depth <= self.limit && (self.live ==> self.depth < self.limit)
    }

    /// The path before its first bounce.
    pub open spec fn start(limit: usize) -> Path {
        Path { depth: 0, limit, live: limit > 0 }
    }

    /// The path after one more look at the scene. A path that has ended
    /// stays as it is. Else the look counts as a bounce, and the path goes on
    /// where the ray hit something, the throughput past that surface is not
    /// exhausted, and the limit is not reached.
    pub open spec fn next(self, hit: bool, throughput: Vec3) -> Path {
        if self.live && self.depth < self.limit {
            Path {
                depth: (self.depth + 1) as usize,
                limit: self.limit,
                live: hit && peak(throughput) != Some(0int) && self.depth + 1 < self.limit,
            }
        } else {
            Path { depth: self.depth, limit: self.limit, live: false }
        }
    }

    /// The path after a row of looks at the scene, each with whether the ray
    /// hit and with the throughput after it.
    pub open spec fn after(self, looks: Seq<(bool, Vec3)>) -> Path
        decreases looks.len(),
    {
        if looks.len() == 0 {
            self
        } else {
            self.after(looks.drop_last()).next(looks.last().0, looks.last().1)
        }
    }

    /// A new path that makes at most `limit` bounces.
    pub fn new(limit: usize) -> (r: Path)
        ensures
            r == Path::start(limit),
            r.wf(),
    {
        Path { depth: 0, limit, live: limit > 0 }
    }

    /// Takes the path past one look at the scene: `hit` says whether the ray
    /// hit something, `throughput` is the throughput after it.
    pub fn step(self, hit: bool, throughput: Vec3) -> (r: Path)
        ensures
            r == self.next(hit, throughput),
            self.wf() ==> r.wf(),
    {
        if self.live && self.depth < self.limit {
            let depth: usize = self.depth + 1;
            Path {
                depth,
                limit: self.limit,
                live: hit && !exhausted(throughput) && depth < self.limit,
            }
        } else {
            Path { depth: self.depth, limit: self.limit, live: false }
        }
    }
}

/// A path never makes more bounces than its limit, whatever it meets: after
/// any row of looks it is well formed, it has made no more bounces than it
/// had looks, and after as many looks as the limit it has ended.
pub proof fn lemma_path_ends(limit: usize, looks: Seq<(bool, Vec3)>)
    ensures
        Path::start(limit).after(looks).wf(),
        Path::start(limit).after(looks).limit == limit,
        Path::start(limit).after(looks).depth <= looks.len(),
        Path::start(limit).after(looks).live ==> Path::start(limit).after(looks).depth
            == looks.len(),
        looks.len() >= limit ==> !Path::start(limit).after(looks).live,
    decreases looks.len(),
{
    if looks.len() > 0 {
        lemma_path_ends(limit, looks.drop_last());
    }
}

/// A path that has ended stays where it is.
pub proof fn lemma_path_stays_ended(path: Path, looks: Seq<(bool, Vec3)>)
    requires
        !path.live,
    ensures
        path.after(looks) == path,
    decreases looks.len(),
{
    if looks.len() > 0 {
        lemma_path_stays_ended(path, looks.drop_last());
    }
}

/// Whether `states` and `looks` tell a course of bounces from `start`: each
/// state but the first is what `bounce` made of the state before it, and
/// each look is what `bounce` reported with it, whether the ray hit and the
/// throughput after it.
pub open spec fn course<S, F: Fn(S) -> (S, bool, Vec3)>(
    bounce: &F,
    start: S,
    states: Seq<S>,
    looks: Seq<(bool, Vec3)>,
) -> bool {
    &&& states.len() == looks.len() + 1
    &&& states[0] == start
    &&& forall|i: int|
        0 <= i < looks.len() ==> bounce.ensures(
            (#[trigger] states[i],),
            (states[i + 1], looks[i].0, looks[i].1),
        )
}

/// Whether a path with the given limit takes exactly these looks: it goes
/// on before each of them and has ended after the last.
pub open spec fn complete(limit: usize, looks: Seq<(bool, Vec3)>) -> bool {
    &&& forall|k: int| 0 <= k < looks.len() ==> (#[trigger] Path::start(limit).after(looks.take(k))).live
    &&& !Path::start(limit).after(looks).live
}

/// Follows one light path to its end. `bounce` takes the state of the path
/// at a surface, looks at the scene once, and returns the state past the
/// look, whether the ray hit something, and the throughput. It is called
/// on `start`, then on what it returned, for as long as the path goes on:
/// until a look hits nothing, or no light can pass, or `limit` looks are
/// made. The state after the last look is returned.
pub fn trace<S, F: Fn(S) -> (S, bool, Vec3)>(limit: usize, start: S, bounce: F) -> (r: S)
    requires
        forall|s: S| bounce.requires((s,)),
    ensures
        exists|states: Seq<S>, looks: Seq<(bool, Vec3)>|
            course(&bounce, start, states, looks) && complete(limit, looks) && looks.len() <= limit
                && r == states.last(),
{
    let mut path = Path::new(limit);
    let mut state = start;
    let ghost mut states: Seq<S> = seq![start];
    let ghost mut looks: Seq<(bool, Vec3)> = Seq::empty();
    proof {
        assert(looks.take(0) =~= looks);
    }
    while path.live
        invariant
            forall|s: S| bounce.requires((s,)),
            course(&bounce, start, states, looks),
            state == states.last(),
            path == Path::start(limit).after(looks),
            path.wf(),
            path.limit == limit,
            path.depth == looks.len(),
            forall|k: int|
                0 <= k < looks.len() ==> (#[trigger] Path::start(limit).after(looks.take(k))).live,
        decreases path.limit - path.depth,
    {
        let ghost before = looks;
        let ghost earlier = states;
        let (next, hit, throughput) = bounce(state);
        let stepped = path.step(hit, throughput);
        proof {
            states = earlier.push(next);
            looks = before.push((hit, throughput));
            assert(looks.drop_last() =~= before);
            assert(looks.take(before.len() as int) =~= before);
            assert forall|k: int| 0 <= k < looks.len() implies (#[trigger] Path::start(limit).after(
                looks.take(k),
            )).live by {
                if k < before.len() {
                    assert(looks.take(k) =~= before.take(k));
                }
            }
            assert forall|i: int| 0 <= i < looks.len() implies bounce.ensures(
                (#[trigger] states[i],),
                (states[i + 1], looks[i].0, looks[i].1),
            ) by {
                if i < before.len() {
                    assert(states[i] == earlier[i]);
                    assert(states[i + 1] == earlier[i + 1]);
                    assert(looks[i] == before[i]);
                }
            }
        }
        path = stepped;
        state = next;
    }
    proof {
        assert(course(&bounce, start, states, looks) && complete(limit, looks) && state
            == states.last());
    }
    state
}

/// A path is followed in one way only: two rows of looks that a path with
/// the same limit takes, one of them the start of the other, are the same
/// row.
pub proof fn lemma_complete_once(limit: usize, a: Seq<(bool, Vec3)>, b: Seq<(bool, Vec3)>)
    requires
        complete(limit, a),
        complete(limit, b),
        a.len() <= b.len(),
        a =~= b.take(a.len() as int),
    ensures
        a == b,
{
    if a.len() < b.len() {
        assert(Path::start(limit).after(b.take(a.len() as int)).live);
    }
    assert(b.take(b.len() as int) =~= b);
}

/// The display value of one channel: the level cut to the range of a byte.
pub open spec fn channel(level: i32) -> u8 {
    if level < 0 {
        0u8
    } else if level > 255 {
        255u8
    } else {
        level as u8
    }
}

/// The display values of the three channels.
pub open spec fn tonemap_spec(v: (i32, i32, i32)) -> (u8, u8, u8) {
    (channel(v.0), channel(v.1), channel(v.2))
}

fn clamp_channel(level: i32) -> (r: u8)
    ensures
        r == channel(level),
{
    if level < 0 {
        0
    } else if level > 255 {
        255
    } else {
        level as u8
    }
}

/// Maps the levels of a pixel to its display values. A level is the
/// radiance of a channel after gamma encoding, on the scale where 255 is
/// full brightness. Levels below 0 show as 0 and levels above 255 as 255.
pub fn tonemap(v: (i32, i32, i32)) -> (r: (u8, u8, u8))
    ensures
        r == tonemap_spec(v),
        v == (0i32, 0i32, 0i32) ==> r == (0u8, 0u8, 0u8),
        v.0 >= 255 ==> r.0 == 255,
        v.1 >= 255 ==> r.1 == 255,
        v.2 >= 255 ==> r.2 == 255,
{
    (clamp_channel(v.0), clamp_channel(v.1), clamp_channel(v.2))
}

/// The column of the pixel at index `i` of an image `w` wide, counted from
/// the left.
pub open spec fn column(w: usize, i: int) -> int {
    i % (w as int)
}

/// The height of the pixel at index `i` of an image `w` wide and `h` high:
/// `h` for the top row, 1 for the bottom row.
pub open spec fn height_above(w: usize, h: usize, i: int) -> int {
    h - i / (w as int)
}

/// Whether `out` can be the pixel at index `i`: the display values of levels
/// that `shade` may return for the pixel's column and height.
pub open spec fn rendered<F: Fn(usize, usize) -> (i32, i32, i32)>(
    shade: &F,
    w: usize,
    h: usize,
    i: int,
    out: (u8, u8, u8),
) -> bool {
    exists|level: (i32, i32, i32)|
        shade.ensures((column(w, i) as usize, height_above(w, h, i) as usize), level) && out
            == tonemap_spec(level)
}

/// The pixel at index `i` of an image `w` wide and `h` high.
pub fn pixel<F: Fn(usize, usize) -> (i32, i32, i32)>(shade: &F, w: usize, h: usize, i: usize) -> (r:
    (u8, u8, u8))
    requires
        i < w * h,
        shade.requires((column(w, i as int) as usize, height_above(w, h, i as int) as usize)),
    ensures
        rendered(shade, w, h, i as int, r),
{
    assert(w > 0 && i / w < h) by (nonlinear_arith)
        requires
            i < w * h,
    ;
    let x = i % w;
    let y = h - i / w;
    let level = shade(x, y);
    tonemap(level)
}

/// Renders the image: one pixel for each place of the window, row by row
/// from the top and from left to right in each row. The levels of a pixel
/// come from `shade`, called with the pixel's column and with its height
/// above the bottom edge, and are mapped to display values by `tonemap`.
pub fn run<F: Fn(usize, usize) -> (i32, i32, i32) + Sync>(rs: &RenderSetting, shade: F) -> (r: Result<
    Vec<(u8, u8, u8)>,
    rayon::ThreadPoolBuildError,
>)
    requires
        rs.window_size.0 * rs.window_size.1 <= usize::MAX,
        forall|x: usize, y: usize|
            x < rs.window_size.0 && 1 <= y <= rs.window_size.1 ==> shade.requires((x, y)),
    ensures
        r is Ok,
        r->Ok_0@.len() == rs.window_size.0 * rs.window_size.1,
        forall|i: int|
            0 <= i < rs.window_size.0 * rs.window_size.1 ==> rendered(
                &shade,
                rs.window_size.0,
                rs.window_size.1,
                i,
                #[trigger] r->Ok_0@[i],
            ),
{
    let (w, h) = rs.window_size;
    assert forall|i: int| 0 <= i < w * h implies shade.requires(
        (column(w, i) as usize, height_above(w, h, i) as usize),
    ) by {
        assert(w > 0 && 0 <= i / (w as int) < h && 0 <= i % (w as int) < w) by (nonlinear_arith)
            requires
                0 <= i < w * h,
        ;
    }
    let at = |i: usize| -> (out: (u8, u8, u8))
        requires
            i < w * h,
        ensures
            rendered(&shade, w, h, i as int, out),
        { pixel(&shade, w, h, i) };
    Ok(par_collect(w * h, &at))
}

/// Where shading is a function of the pixel, so is the image: two images
/// rendered with the same window and the same `shade` are equal.
pub proof fn lemma_image_determined<F: Fn(usize, usize) -> (i32, i32, i32)>(
    shade: &F,
    w: usize,
    h: usize,
    a: Seq<(u8, u8, u8)>,
    b: Seq<(u8, u8, u8)>,
)
    requires
        forall|x: usize, y: usize, u: (i32, i32, i32), v: (i32, i32, i32)|
            shade.ensures((x, y), u) && shade.ensures((x, y), v) ==> u == v,
        a.len() == w * h,
        b.len() == w * h,
        forall|i: int| 0 <= i < w * h ==> rendered(shade, w, h, i, #[trigger] a[i]),
        forall|i: int| 0 <= i < w * h ==> rendered(shade, w, h, i, #[trigger] b[i]),
    ensures
        a == b,
{
    assert forall|i: int| 0 <= i < a.len() implies a[i] == b[i] by {
        assert(rendered(shade, w, h, i, a[i]));
        assert(rendered(shade, w, h, i, b[i]));
    }
    assert(a =~= b);
}

} // verus!
