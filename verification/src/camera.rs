use vstd::prelude::*;

verus! {

/// The largest coordinate magnitude `camera_frame` accepts. Its
/// intermediate products are cubic in the coordinates and are computed
/// in `i64`, which forces a bound; scenes place their cameras at small
/// coordinates, far inside it.
pub const COORD_LIMIT: i64 = 16384;

/// A point or direction in world space with exact integer coordinates.
#[derive(Copy, Clone, Debug, PartialEq, Eq, Structural)]
pub struct Vec3 {
    pub x: i64,
    pub y: i64,
    pub z: i64,
}

impl View for Vec3 {
    type V = (int, int, int);

    open spec fn view(&self) -> (int, int, int) {
        (self.x as int, self.y as int, self.z as int)
    }
}

/// The dot product of two vectors.
pub open spec fn dot3(a: (int, int, int), b: (int, int, int)) -> int {
    a.0 * b.0 + a.1 * b.1 + a.2 * b.2
}

/// The cross product of two vectors, right-handed.
pub open spec fn cross3(a: (int, int, int), b: (int, int, int)) -> (int, int, int) {
    (a.1 * b.2 - a.2 * b.1, a.2 * b.0 - a.0 * b.2, a.0 * b.1 - a.1 * b.0)
}

/// The vector scaled componentwise by `k`.
pub open spec fn scale3(k: int, v: (int, int, int)) -> (int, int, int) {
    (k * v.0, k * v.1, k * v.2)
}

/// The componentwise sum of two vectors.
pub open spec fn add3(a: (int, int, int), b: (int, int, int)) -> (int, int, int) {
    (a.0 + b.0, a.1 + b.1, a.2 + b.2)
}

/// Whether the vector is the zero vector.
pub open spec fn zero3(v: (int, int, int)) -> bool {
    v.0 == 0 && v.1 == 0 && v.2 == 0
}

/// Whether every component lies in `[-m, m]`.
pub open spec fn bounded3(v: (int, int, int), m: int) -> bool {
    -m <= v.0 <= m && -m <= v.1 <= m && -m <= v.2 <= m
}

/// The squared Euclidean length of a vector.
pub open spec fn norm_sq(v: (int, int, int)) -> int {
    dot3(v, v)
}

/// The determinant of the 3x3 matrix with rows `a`, `b`, `c`.
pub open spec fn det3(a: (int, int, int), b: (int, int, int), c: (int, int, int)) -> int {
    dot3(cross3(a, b), c)
}

/// Why a camera frame could not be built.
#[derive(Copy, Clone, Debug, PartialEq, Eq, Structural)]
pub enum ViewMatrixError {
    /// The look direction was the zero vector, so no forward axis exists.
    DegenerateDirection,
    /// The up hint was collinear with the look direction, so no right
    /// axis exists.
    DegenerateUp,
}

/// The sideways (right) axis of the camera basis: the up hint crossed
/// with the look direction.
pub open spec fn spec_right(dir: (int, int, int), up_hint: (int, int, int)) -> (int, int, int) {
    cross3(up_hint, dir)
}

/// The true up axis of the camera basis: the look direction crossed
/// with the right axis, which discards the part of the up hint that
/// leans along the direction.
pub open spec fn spec_up(dir: (int, int, int), up_hint: (int, int, int)) -> (int, int, int) {
    cross3(dir, cross3(up_hint, dir))
}

/// The translation row of the view transform: the camera position
/// projected (unnormalised) onto each basis axis and negated.
pub open spec fn spec_translation(
    pos: (int, int, int),
    dir: (int, int, int),
    up_hint: (int, int, int),
) -> (int, int, int) {
    (
        -dot3(pos, spec_right(dir, up_hint)),
        -dot3(pos, spec_up(dir, up_hint)),
        -dot3(pos, dir),
    )
}

/// A world-to-camera change of basis in exact integer arithmetic.
///
/// `right`, `up` and `forward` are the rows of the rotation block and
/// `translation` the fourth row, each scaled by a positive factor: the
/// view matrix a renderer feeds to the GPU divides each basis row, and
/// the translation component that goes with it, by that row's Euclidean
/// length. That division is the only step that needs floating point,
/// and everything the frame asserts — orthogonality, handedness,
/// degeneracy — is unchanged by it.
#[derive(Copy, Clone, Debug, PartialEq, Eq, Structural)]
pub struct CameraFrame {
    pub right: Vec3,
    pub up: Vec3,
    pub forward: Vec3,
    pub translation: Vec3,
}

proof fn lemma_mul_bound(a: int, b: int, m: int, n: int)
    by (nonlinear_arith)
    requires
        0 <= m,
        0 <= n,
        -m <= a <= m,
        -n <= b <= n,
    ensures
        -(m * n) <= a * b <= m * n,
{
}

proof fn lemma_cross_bound(a: (int, int, int), b: (int, int, int), m: int, n: int)
    requires
        0 <= m,
        0 <= n,
        bounded3(a, m),
        bounded3(b, n),
    ensures
        bounded3(cross3(a, b), 2 * m * n),
{
    lemma_mul_bound(a.1, b.2, m, n);
    lemma_mul_bound(a.2, b.1, m, n);
    lemma_mul_bound(a.2, b.0, m, n);
    lemma_mul_bound(a.0, b.2, m, n);
    lemma_mul_bound(a.0, b.1, m, n);
    lemma_mul_bound(a.1, b.0, m, n);
    assert(2 * m * n == m * n + m * n) by (nonlinear_arith);
}

proof fn lemma_dot_bound(a: (int, int, int), b: (int, int, int), m: int, n: int)
    requires
        0 <= m,
        0 <= n,
        bounded3(a, m),
        bounded3(b, n),
    ensures
        -(3 * m * n) <= dot3(a, b) <= 3 * m * n,
{
    lemma_mul_bound(a.0, b.0, m, n);
    lemma_mul_bound(a.1, b.1, m, n);
    lemma_mul_bound(a.2, b.2, m, n);
    assert(3 * m * n == m * n + m * n + m * n) by (nonlinear_arith);
}

/// The cross product in `i64` arithmetic; the bound on the inputs keeps
/// every intermediate product inside the type.
fn cross(a: &Vec3, b: &Vec3) -> (r: Vec3)
    requires
        bounded3(a@, 536870912),
        bounded3(b@, 536870912),
    ensures
        r@ == cross3(a@, b@),
{
    proof {
        lemma_mul_bound(a.y as int, b.z as int, 536870912, 536870912);
        lemma_mul_bound(a.z as int, b.y as int, 536870912, 536870912);
        lemma_mul_bound(a.z as int, b.x as int, 536870912, 536870912);
        lemma_mul_bound(a.x as int, b.z as int, 536870912, 536870912);
        lemma_mul_bound(a.x as int, b.y as int, 536870912, 536870912);
        lemma_mul_bound(a.y as int, b.x as int, 536870912, 536870912);
    }
    Vec3 {
        x: a.y * b.z - a.z * b.y,
        y: a.z * b.x - a.x * b.z,
        z: a.x * b.y - a.y * b.x,
    }
}

/// The dot product in `i64` arithmetic; the bounds on the inputs keep
/// every intermediate product inside the type.
fn dot(a: &Vec3, b: &Vec3) -> (r: i64)
    requires
        bounded3(a@, 16384),
        bounded3(b@, 17592186044416),
    ensures
        r == dot3(a@, b@),
{
    proof {
        lemma_mul_bound(a.x as int, b.x as int, 16384, 17592186044416);
        lemma_mul_bound(a.y as int, b.y as int, 16384, 17592186044416);
        lemma_mul_bound(a.z as int, b.z as int, 16384, 17592186044416);
    }
    a.x * b.x + a.y * b.y + a.z * b.z
}

/// Builds the world-to-camera frame for a camera at `position` looking
/// along `direction` with up hint `up_hint`, by the cross-product form
/// of Gram-Schmidt orthonormalisation, in exact integer arithmetic.
///
/// The direction need not be normalised: only its ray matters (see
/// `lemma_direction_scale_invariance`). A zero direction has no forward
/// axis and an up hint collinear with the direction has no right axis;
/// both are rejected instead of yielding a collapsed basis.
pub fn camera_frame(position: Vec3, direction: Vec3, up_hint: Vec3) -> (result: Result<
    CameraFrame,
    ViewMatrixError,
>)
    requires
        bounded3(position@, COORD_LIMIT as int),
        bounded3(direction@, COORD_LIMIT as int),
        bounded3(up_hint@, COORD_LIMIT as int),
    ensures
        result == Err::<CameraFrame, ViewMatrixError>(ViewMatrixError::DegenerateDirection)
            <==> zero3(direction@),
        result == Err::<CameraFrame, ViewMatrixError>(ViewMatrixError::DegenerateUp)
            <==> !zero3(direction@) && zero3(cross3(up_hint@, direction@)),
        result is Ok <==> !zero3(direction@) && !zero3(cross3(up_hint@, direction@)),
        result matches Ok(frame) ==> frame.right@ == spec_right(direction@, up_hint@),
        result matches Ok(frame) ==> frame.up@ == spec_up(direction@, up_hint@),
        result matches Ok(frame) ==> frame.forward@ == direction@,
        result matches Ok(frame) ==> frame.translation@ == spec_translation(
            position@,
            direction@,
            up_hint@,
        ),
{
    if direction.x == 0 && direction.y == 0 && direction.z == 0 {
        return Err(ViewMatrixError::DegenerateDirection);
    }
    let s = cross(&up_hint, &direction);
    if s.x == 0 && s.y == 0 && s.z == 0 {
        return Err(ViewMatrixError::DegenerateUp);
    }
    proof {
        lemma_cross_bound(up_hint@, direction@, 16384, 16384);
    }
    let u = cross(&direction, &s);
    proof {
        lemma_cross_bound(direction@, s@, 16384, 536870912);
        lemma_dot_bound(position@, s@, 16384, 536870912);
        lemma_dot_bound(position@, u@, 16384, 17592186044416);
        lemma_dot_bound(position@, direction@, 16384, 16384);
    }
    let tx = dot(&position, &s);
    let ty = dot(&position, &u);
    let tz = dot(&position, &direction);
    Ok(
        CameraFrame {
            right: s,
            up: u,
            forward: direction,
            translation: Vec3 { x: -tx, y: -ty, z: -tz },
        },
    )
}

proof fn lemma_cross_orthogonal(a: (int, int, int), b: (int, int, int))
    ensures
        dot3(cross3(a, b), a) == 0,
        dot3(cross3(a, b), b) == 0,
{
    assert(dot3(cross3(a, b), a) == 0) by (nonlinear_arith);
    assert(dot3(cross3(a, b), b) == 0) by (nonlinear_arith);
}

proof fn lemma_mul_parts(x: int, y: int, z: int)
    by (nonlinear_arith)
    ensures
        (x - y) * z == x * z - y * z,
        (x + y) * z == x * z + y * z,
        (x * y) * z == (z * x) * y,
        (x * y) * z == x * (y * z),
        x * y == y * x,
{
}

proof fn lemma_factor3(x: int, y: int, z: int, w: int)
    by (nonlinear_arith)
    ensures
        x * y + x * z + x * w == x * (y + z + w),
{
}

proof fn lemma_pos_mul(x: int, y: int)
    by (nonlinear_arith)
    requires
        x > 0,
        y > 0,
    ensures
        x * y > 0,
{
}

proof fn lemma_dot_comm(a: (int, int, int), b: (int, int, int))
    ensures
        dot3(a, b) == dot3(b, a),
{
    lemma_mul_parts(a.0, b.0, 0);
    lemma_mul_parts(a.1, b.1, 0);
    lemma_mul_parts(a.2, b.2, 0);
}

proof fn lemma_triple_cycle(a: (int, int, int), b: (int, int, int), c: (int, int, int))
    ensures
        dot3(cross3(a, b), c) == dot3(cross3(c, a), b),
{
    lemma_mul_parts(a.1 * b.2, a.2 * b.1, c.0);
    lemma_mul_parts(a.2 * b.0, a.0 * b.2, c.1);
    lemma_mul_parts(a.0 * b.1, a.1 * b.0, c.2);
    lemma_mul_parts(c.1 * a.2, c.2 * a.1, b.0);
    lemma_mul_parts(c.2 * a.0, c.0 * a.2, b.1);
    lemma_mul_parts(c.0 * a.1, c.1 * a.0, b.2);
    lemma_mul_parts(a.1, b.2, c.0);
    lemma_mul_parts(a.2, b.1, c.0);
    lemma_mul_parts(a.2, b.0, c.1);
    lemma_mul_parts(a.0, b.2, c.1);
    lemma_mul_parts(a.0, b.1, c.2);
    lemma_mul_parts(a.1, b.0, c.2);
}

proof fn lemma_double_cross(a: (int, int, int), b: (int, int, int))
    requires
        dot3(a, b) == 0,
    ensures
        cross3(cross3(a, b), a) == scale3(dot3(a, a), b),
{
    lemma_mul_parts(a.2 * b.0, a.0 * b.2, a.2);
    lemma_mul_parts(a.0 * b.1, a.1 * b.0, a.1);
    lemma_mul_parts(a.1 * b.2, a.2 * b.1, a.2);
    lemma_mul_parts(a.0 * b.1, a.1 * b.0, a.0);
    lemma_mul_parts(a.1 * b.2, a.2 * b.1, a.1);
    lemma_mul_parts(a.2 * b.0, a.0 * b.2, a.0);
    lemma_mul_parts(a.0 * a.0 + a.1 * a.1, a.2 * a.2, b.0);
    lemma_mul_parts(a.0 * a.0, a.1 * a.1, b.0);
    lemma_mul_parts(a.0 * a.0 + a.1 * a.1, a.2 * a.2, b.1);
    lemma_mul_parts(a.0 * a.0, a.1 * a.1, b.1);
    lemma_mul_parts(a.0 * a.0 + a.1 * a.1, a.2 * a.2, b.2);
    lemma_mul_parts(a.0 * a.0, a.1 * a.1, b.2);
    lemma_mul_parts(a.2, b.0, a.2);
    lemma_mul_parts(a.1, b.0, a.1);
    lemma_mul_parts(a.0, b.1, a.0);
    lemma_mul_parts(a.2, b.1, a.2);
    lemma_mul_parts(a.1, b.2, a.1);
    lemma_mul_parts(a.0, b.2, a.0);
    lemma_mul_parts(a.0, b.2, a.2);
    lemma_mul_parts(a.0, b.1, a.1);
    lemma_mul_parts(a.0, a.0, b.0);
    lemma_mul_parts(a.1, b.0, a.0);
    lemma_mul_parts(a.1, b.2, a.2);
    lemma_mul_parts(a.1, a.1, b.1);
    lemma_mul_parts(a.2, b.1, a.1);
    lemma_mul_parts(a.2, b.0, a.0);
    lemma_mul_parts(a.2, a.2, b.2);
    lemma_mul_parts(b.2, a.2, 0);
    lemma_mul_parts(b.1, a.1, 0);
    lemma_mul_parts(b.0, a.0, 0);
    lemma_factor3(a.0, a.0 * b.0, a.1 * b.1, a.2 * b.2);
    lemma_factor3(a.1, a.0 * b.0, a.1 * b.1, a.2 * b.2);
    lemma_factor3(a.2, a.0 * b.0, a.1 * b.1, a.2 * b.2);
    assert(a.0 * (a.0 * b.0 + a.1 * b.1 + a.2 * b.2) == 0);
    assert(a.1 * (a.0 * b.0 + a.1 * b.1 + a.2 * b.2) == 0);
    assert(a.2 * (a.0 * b.0 + a.1 * b.1 + a.2 * b.2) == 0);
}

proof fn lemma_norm_sq_positive(v: (int, int, int))
    ensures
        norm_sq(v) >= 0,
        norm_sq(v) == 0 <==> zero3(v),
{
    assert(norm_sq(v) >= 0) by (nonlinear_arith);
    assert(norm_sq(v) == 0 <==> zero3(v)) by (nonlinear_arith);
}

/// The rotation block of the view transform is an orthogonal,
/// right-handed change of basis: for every non-zero direction and every
/// up hint not collinear with it, the three basis rows are mutually
/// orthogonal and their determinant is positive. Each row divided by
/// its Euclidean length is then a unit row, and the squared length of
/// the up row is exactly the product of the squared lengths of the
/// right and forward rows.
pub proof fn lemma_frame_orthogonal_right_handed(dir: (int, int, int), up_hint: (int, int, int))
    requires
        !zero3(dir),
        !zero3(cross3(up_hint, dir)),
    ensures
        dot3(spec_right(dir, up_hint), dir) == 0,
        dot3(spec_up(dir, up_hint), dir) == 0,
        dot3(spec_up(dir, up_hint), spec_right(dir, up_hint)) == 0,
        norm_sq(spec_up(dir, up_hint)) == norm_sq(spec_right(dir, up_hint)) * norm_sq(dir),
        det3(spec_right(dir, up_hint), spec_up(dir, up_hint), dir) > 0,
{
    let s = spec_right(dir, up_hint);
    let u = spec_up(dir, up_hint);
    lemma_cross_orthogonal(up_hint, dir);
    lemma_cross_orthogonal(dir, s);
    lemma_dot_comm(dir, s);
    lemma_double_cross(dir, s);
    lemma_triple_cycle(dir, s, u);
    assert(dot3(cross3(dir, s), u) == norm_sq(u));
    lemma_mul_parts(norm_sq(dir), s.0, s.0);
    lemma_mul_parts(norm_sq(dir), s.1, s.1);
    lemma_mul_parts(norm_sq(dir), s.2, s.2);
    lemma_factor3(norm_sq(dir), s.0 * s.0, s.1 * s.1, s.2 * s.2);
    assert(dot3(scale3(norm_sq(dir), s), s) == norm_sq(dir) * norm_sq(s));
    assert(norm_sq(u) == norm_sq(dir) * norm_sq(s));
    lemma_mul_parts(norm_sq(dir), norm_sq(s), 0);
    lemma_triple_cycle(s, u, dir);
    assert(det3(s, u, dir) == norm_sq(u));
    lemma_norm_sq_positive(s);
    lemma_norm_sq_positive(dir);
    lemma_pos_mul(norm_sq(s), norm_sq(dir));
}

proof fn lemma_scale_zero(k: int, x: int)
    by (nonlinear_arith)
    requires
        k > 0,
    ensures
        k * x == 0 <==> x == 0,
{
}

proof fn lemma_scale_ops(k: int, x: int, y: int)
    by (nonlinear_arith)
    ensures
        x * (k * y) == k * (x * y),
        (k * x) * (k * y) == (k * k) * (x * y),
        k * x - k * y == k * (x - y),
        k * (-x) == -(k * x),
{
}

/// The camera position itself is carried to the camera-space origin:
/// along every basis row of the frame, the projection of the position
/// onto that row cancels the translation component that goes with it,
/// so all three camera-space coordinates of the position vanish.
pub proof fn lemma_camera_position_maps_to_origin(
    pos: (int, int, int),
    dir: (int, int, int),
    up_hint: (int, int, int),
)
    ensures
        dot3(pos, spec_right(dir, up_hint)) + spec_translation(pos, dir, up_hint).0 == 0,
        dot3(pos, spec_up(dir, up_hint)) + spec_translation(pos, dir, up_hint).1 == 0,
        dot3(pos, dir) + spec_translation(pos, dir, up_hint).2 == 0,
{
}

/// Only the ray of the look direction matters: scaling the direction by
/// any positive factor `k` scales each basis row, and the translation
/// component that goes with it, by one positive factor per row (`k` for
/// the right and forward rows, `k * k` for the up row). Each row of the
/// normalised view matrix, the row divided by its length, is therefore
/// unchanged, and so is which inputs count as degenerate.
pub proof fn lemma_direction_scale_invariance(
    pos: (int, int, int),
    dir: (int, int, int),
    up_hint: (int, int, int),
    k: int,
)
    requires
        k > 0,
    ensures
        zero3(scale3(k, dir)) <==> zero3(dir),
        zero3(cross3(up_hint, scale3(k, dir))) <==> zero3(cross3(up_hint, dir)),
        spec_right(scale3(k, dir), up_hint) == scale3(k, spec_right(dir, up_hint)),
        spec_up(scale3(k, dir), up_hint) == scale3(k * k, spec_up(dir, up_hint)),
        spec_translation(pos, scale3(k, dir), up_hint).0 == k * spec_translation(
            pos,
            dir,
            up_hint,
        ).0,
        spec_translation(pos, scale3(k, dir), up_hint).1 == k * k * spec_translation(
            pos,
            dir,
            up_hint,
        ).1,
        spec_translation(pos, scale3(k, dir), up_hint).2 == k * spec_translation(
            pos,
            dir,
            up_hint,
        ).2,
{
    let s = spec_right(dir, up_hint);
    let u = spec_up(dir, up_hint);
    lemma_scale_ops(k, up_hint.1, dir.2);
    lemma_scale_ops(k, up_hint.2, dir.1);
    lemma_scale_ops(k, up_hint.1 * dir.2, up_hint.2 * dir.1);
    lemma_scale_ops(k, up_hint.2, dir.0);
    lemma_scale_ops(k, up_hint.0, dir.2);
    lemma_scale_ops(k, up_hint.2 * dir.0, up_hint.0 * dir.2);
    lemma_scale_ops(k, up_hint.0, dir.1);
    lemma_scale_ops(k, up_hint.1, dir.0);
    lemma_scale_ops(k, up_hint.0 * dir.1, up_hint.1 * dir.0);
    assert(cross3(up_hint, scale3(k, dir)) == scale3(k, s));
    lemma_scale_ops(k, dir.1, s.2);
    lemma_scale_ops(k, dir.2, s.1);
    lemma_scale_ops(k * k, dir.1 * s.2, dir.2 * s.1);
    lemma_scale_ops(k, dir.2, s.0);
    lemma_scale_ops(k, dir.0, s.2);
    lemma_scale_ops(k * k, dir.2 * s.0, dir.0 * s.2);
    lemma_scale_ops(k, dir.0, s.1);
    lemma_scale_ops(k, dir.1, s.0);
    lemma_scale_ops(k * k, dir.0 * s.1, dir.1 * s.0);
    assert(cross3(scale3(k, dir), scale3(k, s)) == scale3(k * k, cross3(dir, s)));
    assert(spec_up(scale3(k, dir), up_hint) == scale3(k * k, u));
    lemma_scale_ops(k, pos.0, s.0);
    lemma_scale_ops(k, pos.1, s.1);
    lemma_scale_ops(k, pos.2, s.2);
    lemma_factor3(k, pos.0 * s.0, pos.1 * s.1, pos.2 * s.2);
    lemma_scale_ops(k, dot3(pos, s), 0);
    lemma_scale_ops(k * k, pos.0, u.0);
    lemma_scale_ops(k * k, pos.1, u.1);
    lemma_scale_ops(k * k, pos.2, u.2);
    lemma_factor3(k * k, pos.0 * u.0, pos.1 * u.1, pos.2 * u.2);
    lemma_scale_ops(k * k, dot3(pos, u), 0);
    lemma_scale_ops(k, pos.0, dir.0);
    lemma_scale_ops(k, pos.1, dir.1);
    lemma_scale_ops(k, pos.2, dir.2);
    lemma_factor3(k, pos.0 * dir.0, pos.1 * dir.1, pos.2 * dir.2);
    lemma_scale_ops(k, dot3(pos, dir), 0);
    lemma_scale_zero(k, dir.0);
    lemma_scale_zero(k, dir.1);
    lemma_scale_zero(k, dir.2);
    lemma_scale_zero(k, s.0);
    lemma_scale_zero(k, s.1);
    lemma_scale_zero(k, s.2);
}

/// Only the part of the up hint orthogonal to the look direction
/// matters: replacing the hint by `alpha` times itself plus `beta`
/// times the direction, for any positive `alpha` — that is, by any
/// other vector in the same half-plane around the direction — scales
/// the right and up rows and their translation components by the one
/// positive factor `alpha`, and leaves the forward row and its
/// translation untouched. The normalised view matrix, and which inputs
/// count as degenerate, are therefore unchanged.
pub proof fn lemma_up_hint_half_plane_invariance(
    pos: (int, int, int),
    dir: (int, int, int),
    up_hint: (int, int, int),
    alpha: int,
    beta: int,
)
    requires
        alpha > 0,
    ensures
        spec_right(dir, add3(scale3(alpha, up_hint), scale3(beta, dir))) == scale3(
            alpha,
            spec_right(dir, up_hint),
        ),
        zero3(spec_right(dir, add3(scale3(alpha, up_hint), scale3(beta, dir)))) <==> zero3(
            spec_right(dir, up_hint),
        ),
        spec_up(dir, add3(scale3(alpha, up_hint), scale3(beta, dir))) == scale3(
            alpha,
            spec_up(dir, up_hint),
        ),
        spec_translation(pos, dir, add3(scale3(alpha, up_hint), scale3(beta, dir))).0 == alpha
            * spec_translation(pos, dir, up_hint).0,
        spec_translation(pos, dir, add3(scale3(alpha, up_hint), scale3(beta, dir))).1 == alpha
            * spec_translation(pos, dir, up_hint).1,
        spec_translation(pos, dir, add3(scale3(alpha, up_hint), scale3(beta, dir))).2
            == spec_translation(pos, dir, up_hint).2,
{
    let s = spec_right(dir, up_hint);
    let u = spec_up(dir, up_hint);
    let up2 = add3(scale3(alpha, up_hint), scale3(beta, dir));
    lemma_mul_parts(alpha * up_hint.1, beta * dir.1, dir.2);
    lemma_mul_parts(alpha * up_hint.2, beta * dir.2, dir.1);
    lemma_mul_parts(alpha, up_hint.1, dir.2);
    lemma_mul_parts(alpha, up_hint.2, dir.1);
    lemma_mul_parts(beta, dir.1, dir.2);
    lemma_mul_parts(beta, dir.2, dir.1);
    lemma_mul_parts(dir.1, dir.2, 0);
    lemma_scale_ops(alpha, up_hint.1 * dir.2, up_hint.2 * dir.1);
    lemma_mul_parts(alpha * up_hint.2, beta * dir.2, dir.0);
    lemma_mul_parts(alpha * up_hint.0, beta * dir.0, dir.2);
    lemma_mul_parts(alpha, up_hint.2, dir.0);
    lemma_mul_parts(alpha, up_hint.0, dir.2);
    lemma_mul_parts(beta, dir.2, dir.0);
    lemma_mul_parts(beta, dir.0, dir.2);
    lemma_mul_parts(dir.2, dir.0, 0);
    lemma_scale_ops(alpha, up_hint.2 * dir.0, up_hint.0 * dir.2);
    lemma_mul_parts(alpha * up_hint.0, beta * dir.0, dir.1);
    lemma_mul_parts(alpha * up_hint.1, beta * dir.1, dir.0);
    lemma_mul_parts(alpha, up_hint.0, dir.1);
    lemma_mul_parts(alpha, up_hint.1, dir.0);
    lemma_mul_parts(beta, dir.0, dir.1);
    lemma_mul_parts(beta, dir.1, dir.0);
    lemma_mul_parts(dir.0, dir.1, 0);
    lemma_scale_ops(alpha, up_hint.0 * dir.1, up_hint.1 * dir.0);
    assert(cross3(up2, dir) == scale3(alpha, s));
    lemma_scale_ops(alpha, dir.1, s.2);
    lemma_scale_ops(alpha, dir.2, s.1);
    lemma_scale_ops(alpha, dir.1 * s.2, dir.2 * s.1);
    lemma_scale_ops(alpha, dir.2, s.0);
    lemma_scale_ops(alpha, dir.0, s.2);
    lemma_scale_ops(alpha, dir.2 * s.0, dir.0 * s.2);
    lemma_scale_ops(alpha, dir.0, s.1);
    lemma_scale_ops(alpha, dir.1, s.0);
    lemma_scale_ops(alpha, dir.0 * s.1, dir.1 * s.0);
    assert(cross3(dir, scale3(alpha, s)) == scale3(alpha, cross3(dir, s)));
    assert(spec_up(dir, up2) == scale3(alpha, u));
    lemma_scale_ops(alpha, pos.0, s.0);
    lemma_scale_ops(alpha, pos.1, s.1);
    lemma_scale_ops(alpha, pos.2, s.2);
    lemma_factor3(alpha, pos.0 * s.0, pos.1 * s.1, pos.2 * s.2);
    lemma_scale_ops(alpha, dot3(pos, s), 0);
    lemma_scale_ops(alpha, pos.0, u.0);
    lemma_scale_ops(alpha, pos.1, u.1);
    lemma_scale_ops(alpha, pos.2, u.2);
    lemma_factor3(alpha, pos.0 * u.0, pos.1 * u.1, pos.2 * u.2);
    lemma_scale_ops(alpha, dot3(pos, u), 0);
    lemma_scale_zero(alpha, s.0);
    lemma_scale_zero(alpha, s.1);
    lemma_scale_zero(alpha, s.2);
}

} // verus!
