//! Keyframe animation: per-node channels of translation, rotation and scale
//! keyframes, sampled at a looping time value. Times and keyframe components
//! are carried as bit patterns of their single-precision values; every
//! arithmetic step of a sample is named, so a sample's contract states the
//! exact computation.
//!
//! Sampling time is taken modulo the channel's final timestamp, so each
//! channel loops independently. The active keyframe interval is found by a
//! linear scan over consecutive timestamp pairs; when no interval contains
//! the wrapped time (timestamps not increasing, a NaN anywhere, or fewer
//! than two keys), the sample is `None` and the node's component is left
//! alone.

use vstd::prelude::*;

use crate::fbits::{div_bits, le_bits, lt_bits, rem_bits, sub_bits, mul_bits, add_bits, f_add, f_div, f_lt, f_le, f_mul, f_rem, f_sub, F_ONE, F_THREE, F_TWO};
use crate::mat::{
    add3_of, add4_of, lerp3_of, mat_from_srt, mat_from_srt_of, mat_to_srt, quat_add, quat_scale,
    quat_slerp, scale3_of, scale4_of, slerp_of, srt_of, vec3_add, vec3_lerp, vec3_scale, Mat4Bits,
};

verus! {

/// How a channel interpolates between two neighboring keyframes.
#[derive(Clone, Copy, PartialEq, Eq, Debug)]
pub enum Interpolation {
    Step,
    Linear,
    CubicSpline,
}

/// The keyframe values of one channel, typed by the transform component the
/// channel drives. Cubic-spline channels hold three values per key:
/// in-tangent, value, out-tangent.
#[derive(Clone, Debug)]
pub enum Keyframes {
    Translation(Vec<[u32; 3]>),
    Rotation(Vec<[u32; 4]>),
    Scale(Vec<[u32; 3]>),
}

/// One animation channel of one node: its ordered timestamps, its keyframe
/// values, and how to interpolate between them.
#[derive(Clone, Debug)]
pub struct NodeAnimation {
    pub timestamps: Vec<u32>,
    pub keyframes: Keyframes,
    pub interpolation: Interpolation,
}

/// One named clip: a list of channels per node (indexed as the scene's
/// nodes are), the clip's start time and its length.
pub struct Animation {
    pub name: String,
    pub nodes_animations: Vec<Vec<NodeAnimation>>,
    pub start: u32,
    pub length: u32,
}

/// One node's name and its (possibly animated) local transform.
pub struct NodeTransform {
    pub name: String,
    pub transform: Mat4Bits,
}

/// The number of keyframe values a channel must hold for its timestamp
/// count: one per key, or three per key for cubic-spline tangent triplets.
pub open spec fn spec_channel_lengths_ok(
    n_timestamps: nat,
    n_keyframes: nat,
    interp: Interpolation,
) -> bool {
    match interp {
        Interpolation::CubicSpline => n_keyframes == 3 * n_timestamps,
        _ => n_keyframes == n_timestamps,
    }
}

impl NodeAnimation {
    pub open spec fn wf(&self) -> bool {
        match self.keyframes {
            Keyframes::Translation(kf) => spec_channel_lengths_ok(
                self.timestamps@.len(),
                kf@.len(),
                self.interpolation,
            ),
            Keyframes::Rotation(kf) => spec_channel_lengths_ok(
                self.timestamps@.len(),
                kf@.len(),
                self.interpolation,
            ),
            Keyframes::Scale(kf) => spec_channel_lengths_ok(
                self.timestamps@.len(),
                kf@.len(),
                self.interpolation,
            ),
        }
    }
}

impl Animation {
    pub open spec fn wf(&self) -> bool {
        forall|i: int, j: int|
            0 <= i < self.nodes_animations@.len() && 0 <= j
                < self.nodes_animations@[i]@.len() ==> (
            #[trigger] self.nodes_animations@[i]@[j]).wf()
    }
}

/// The first index `k` at or past `i` whose interval `[ts[k], ts[k+1])`
/// contains `t` under single-precision comparison; `None` when no interval
/// does.
pub open spec fn spec_find_window(ts: Seq<u32>, t: u32, i: int) -> Option<int>
    decreases ts.len() - i,
{
    if i < 0 || i + 1 >= ts.len() {
        None
    } else if le_bits(ts[i], t) && lt_bits(t, ts[i + 1]) {
        Some(i)
    } else {
        spec_find_window(ts, t, i + 1)
    }
}

/// The local interpolation parameter of `t` within window `i`:
/// `(t - ts[i]) / (ts[i+1] - ts[i])`.
pub open spec fn spec_window_u(ts: Seq<u32>, t: u32, i: int) -> u32 {
    div_bits(sub_bits(t, ts[i]), sub_bits(ts[i + 1], ts[i]))
}

/// The four Hermite basis coefficients at `u`, exactly as single-precision
/// arithmetic composes them: `2u^3 - 3u^2 + 1`, `td (u^3 - 2u^2 + u)`,
/// `-2u^3 + 3u^2` (as `3u^2 - 2u^3`... the subtraction order the code
/// uses), and `td (u^3 - u^2)`.
pub open spec fn spec_hermite_coeffs(u: u32, td: u32) -> (u32, u32, u32, u32) {
    let u2 = mul_bits(u, u);
    let u3 = mul_bits(u, u2);
    (
        add_bits(sub_bits(mul_bits(F_TWO, u3), mul_bits(F_THREE, u2)), F_ONE),
        mul_bits(td, add_bits(sub_bits(u3, mul_bits(F_TWO, u2)), u)),
        sub_bits(mul_bits(F_THREE, u2), mul_bits(F_TWO, u3)),
        mul_bits(td, sub_bits(u3, u2)),
    )
}

fn hermite_coeffs(u: u32, td: u32) -> (r: (u32, u32, u32, u32))
    ensures
        r == spec_hermite_coeffs(u, td),
{
    let u2 = f_mul(u, u);
    let u3 = f_mul(u, u2);
    (
        f_add(f_sub(f_mul(F_TWO, u3), f_mul(F_THREE, u2)), F_ONE),
        f_mul(td, f_add(f_sub(u3, f_mul(F_TWO, u2)), u)),
        f_sub(f_mul(F_THREE, u2), f_mul(F_TWO, u3)),
        f_mul(td, f_sub(u3, u2)),
    )
}

/// What sampling a three-component channel returns: the held key for step
/// channels, the linear blend for linear ones, and the Hermite combination
/// of values and tangents for cubic-spline ones.
pub open spec fn spec_sample_vec3(
    ts: Seq<u32>,
    kf: Seq<[u32; 3]>,
    interp: Interpolation,
    t: u32,
) -> Option<[u32; 3]> {
    if ts.len() == 0 {
        None
    } else {
        let tm = rem_bits(t, ts.last());
        match spec_find_window(ts, tm, 0) {
            None => None,
            Some(i) => Some(
                match interp {
                    Interpolation::Step => kf[i],
                    Interpolation::Linear => lerp3_of(kf[i], kf[i + 1], spec_window_u(ts, tm, i)),
                    Interpolation::CubicSpline => {
                        let c = spec_hermite_coeffs(
                            spec_window_u(ts, tm, i),
                            sub_bits(ts[i + 1], ts[i]),
                        );
                        add3_of(
                            add3_of(
                                add3_of(scale3_of(kf[i * 3 + 1], c.0), scale3_of(kf[i * 3 + 2], c.1)),
                                scale3_of(kf[(i + 1) * 3 + 1], c.2),
                            ),
                            scale3_of(kf[(i + 1) * 3], c.3),
                        )
                    },
                },
            ),
        }
    }
}

/// What sampling a rotation channel returns: the held key, the
/// shorter-arc spherical blend, or the Hermite combination.
pub open spec fn spec_sample_quat(
    ts: Seq<u32>,
    kf: Seq<[u32; 4]>,
    interp: Interpolation,
    t: u32,
) -> Option<[u32; 4]> {
    if ts.len() == 0 {
        None
    } else {
        let tm = rem_bits(t, ts.last());
        match spec_find_window(ts, tm, 0) {
            None => None,
            Some(i) => Some(
                match interp {
                    Interpolation::Step => kf[i],
                    Interpolation::Linear => slerp_of(kf[i], kf[i + 1], spec_window_u(ts, tm, i)),
                    Interpolation::CubicSpline => {
                        let c = spec_hermite_coeffs(
                            spec_window_u(ts, tm, i),
                            sub_bits(ts[i + 1], ts[i]),
                        );
                        add4_of(
                            add4_of(
                                add4_of(scale4_of(kf[i * 3 + 1], c.0), scale4_of(kf[i * 3 + 2], c.1)),
                                scale4_of(kf[(i + 1) * 3 + 1], c.2),
                            ),
                            scale4_of(kf[(i + 1) * 3], c.3),
                        )
                    },
                },
            ),
        }
    }
}

/// Law: sampling loops. Two times with the same remainder modulo the final
/// timestamp sample to the same value; in particular a time past the end
/// wraps to its equivalent point inside the clip.
pub proof fn lemma_sample_vec3_wraps(
    ts: Seq<u32>,
    kf: Seq<[u32; 3]>,
    interp: Interpolation,
    t1: u32,
    t2: u32,
)
    requires
        ts.len() > 0,
        rem_bits(t1, ts.last()) == rem_bits(t2, ts.last()),
    ensures
        spec_sample_vec3(ts, kf, interp, t1) == spec_sample_vec3(ts, kf, interp, t2),
{
}

/// Law: rotation sampling loops the same way.
pub proof fn lemma_sample_quat_wraps(
    ts: Seq<u32>,
    kf: Seq<[u32; 4]>,
    interp: Interpolation,
    t1: u32,
    t2: u32,
)
    requires
        ts.len() > 0,
        rem_bits(t1, ts.last()) == rem_bits(t2, ts.last()),
    ensures
        spec_sample_quat(ts, kf, interp, t1) == spec_sample_quat(ts, kf, interp, t2),
{
}

fn find_window(ts: &Vec<u32>, t: u32) -> (r: Option<usize>)
    ensures
        match r {
            Some(i) => {
                &&& spec_find_window(ts@, t, 0) == Some(i as int)
                &&& i + 1 < ts@.len()
            },
            None => spec_find_window(ts@, t, 0) is None,
        },
{
    let n = ts.len();
    if n == 0 {
        return None;
    }
    let mut i: usize = 0;
    while i < n - 1
        invariant
            n == ts@.len(),
            n > 0,
            i <= n,
            spec_find_window(ts@, t, 0) == spec_find_window(ts@, t, i as int),
        decreases n - i,
    {
        if f_le(ts[i], t) && f_lt(t, ts[i + 1]) {
            return Some(i);
        }
        i = i + 1;
    }
    None
}

/// Samples a three-component channel at time `t`, which is first wrapped
/// modulo the final timestamp. Returns `None` exactly when no keyframe
/// interval contains the wrapped time.
pub fn sample_vec3_keyframes(
    timestamps: &Vec<u32>,
    keyframes: &Vec<[u32; 3]>,
    interpolation: Interpolation,
    t: u32,
) -> (r: Option<[u32; 3]>)
    requires
        spec_channel_lengths_ok(timestamps@.len(), keyframes@.len(), interpolation),
    ensures
        r == spec_sample_vec3(timestamps@, keyframes@, interpolation, t),
{
    let n_keys = keyframes.len();
    if timestamps.len() == 0 {
        return None;
    }
    let tm = f_rem(t, timestamps[timestamps.len() - 1]);
    match find_window(timestamps, tm) {
        None => None,
        Some(i) => Some(
            match interpolation {
                Interpolation::Step => keyframes[i],
                Interpolation::Linear => vec3_lerp(
                    &keyframes[i],
                    &keyframes[i + 1],
                    f_div(f_sub(tm, timestamps[i]), f_sub(timestamps[i + 1], timestamps[i])),
                ),
                Interpolation::CubicSpline => {
                    let u = f_div(
                        f_sub(tm, timestamps[i]),
                        f_sub(timestamps[i + 1], timestamps[i]),
                    );
                    let c = hermite_coeffs(u, f_sub(timestamps[i + 1], timestamps[i]));
                    vec3_add(
                        &vec3_add(
                            &vec3_add(
                                &vec3_scale(&keyframes[i * 3 + 1], c.0),
                                &vec3_scale(&keyframes[i * 3 + 2], c.1),
                            ),
                            &vec3_scale(&keyframes[(i + 1) * 3 + 1], c.2),
                        ),
                        &vec3_scale(&keyframes[(i + 1) * 3], c.3),
                    )
                },
            },
        ),
    }
}

/// Samples a rotation channel at time `t`, which is first wrapped modulo
/// the final timestamp. Returns `None` exactly when no keyframe interval
/// contains the wrapped time.
pub fn sample_quat_keyframes(
    timestamps: &Vec<u32>,
    keyframes: &Vec<[u32; 4]>,
    interpolation: Interpolation,
    t: u32,
) -> (r: Option<[u32; 4]>)
    requires
        spec_channel_lengths_ok(timestamps@.len(), keyframes@.len(), interpolation),
    ensures
        r == spec_sample_quat(timestamps@, keyframes@, interpolation, t),
{
    let n_keys = keyframes.len();
    if timestamps.len() == 0 {
        return None;
    }
    let tm = f_rem(t, timestamps[timestamps.len() - 1]);
    match find_window(timestamps, tm) {
        None => None,
        Some(i) => Some(
            match interpolation {
                Interpolation::Step => keyframes[i],
                Interpolation::Linear => quat_slerp(
                    &keyframes[i],
                    &keyframes[i + 1],
                    f_div(f_sub(tm, timestamps[i]), f_sub(timestamps[i + 1], timestamps[i])),
                ),
                Interpolation::CubicSpline => {
                    let u = f_div(
                        f_sub(tm, timestamps[i]),
                        f_sub(timestamps[i + 1], timestamps[i]),
                    );
                    let c = hermite_coeffs(u, f_sub(timestamps[i + 1], timestamps[i]));
                    quat_add(
                        &quat_add(
                            &quat_add(
                                &quat_scale(&keyframes[i * 3 + 1], c.0),
                                &quat_scale(&keyframes[i * 3 + 2], c.1),
                            ),
                            &quat_scale(&keyframes[(i + 1) * 3 + 1], c.2),
                        ),
                        &quat_scale(&keyframes[(i + 1) * 3], c.3),
                    )
                },
            },
        ),
    }
}

/// One node's local transform after its channels are applied at time `t`:
/// the transform is decomposed into scale, rotation and translation, each
/// channel re-evaluates only its component (a channel that samples to
/// `None` leaves its component alone), and the parts are recomposed. A node
/// with no channels keeps its transform, undecomposed.
pub open spec fn spec_animate_node(anims: Seq<NodeAnimation>, m: Mat4Bits, t: u32) -> Mat4Bits {
    if anims.len() == 0 {
        m
    } else {
        let parts = srt_of(m.e);
        let done = spec_apply_channels(anims, 0, parts.0, parts.1, parts.2, t);
        Mat4Bits { e: mat_from_srt_of(done.0, done.1, done.2) }
    }
}

pub open spec fn spec_apply_channels(
    anims: Seq<NodeAnimation>,
    i: int,
    s: [u32; 3],
    r: [u32; 4],
    tr: [u32; 3],
    t: u32,
) -> ([u32; 3], [u32; 4], [u32; 3])
    decreases anims.len() - i,
{
    if i < 0 || i >= anims.len() {
        (s, r, tr)
    } else {
        let a = anims[i];
        match a.keyframes {
            Keyframes::Translation(kf) => {
                let tr2 = match spec_sample_vec3(a.timestamps@, kf@, a.interpolation, t) {
                    Some(v) => v,
                    None => tr,
                };
                spec_apply_channels(anims, i + 1, s, r, tr2, t)
            },
            Keyframes::Rotation(kf) => {
                let r2 = match spec_sample_quat(a.timestamps@, kf@, a.interpolation, t) {
                    Some(v) => v,
                    None => r,
                };
                spec_apply_channels(anims, i + 1, s, r2, tr, t)
            },
            Keyframes::Scale(kf) => {
                let s2 = match spec_sample_vec3(a.timestamps@, kf@, a.interpolation, t) {
                    Some(v) => v,
                    None => s,
                };
                spec_apply_channels(anims, i + 1, s2, r, tr, t)
            },
        }
    }
}

impl Animation {
    /// Re-evaluates every animated node's local transform at time `time`:
    /// each node with channels has its transform decomposed, each channel's
    /// component re-sampled, and the parts recomposed; names and
    /// channel-less nodes are left alone.
    pub fn animate_transforms(&self, transforms: &mut Vec<NodeTransform>, time: u32)
        requires
            self.wf(),
            old(transforms)@.len() == self.nodes_animations@.len(),
        ensures
            final(transforms)@.len() == old(transforms)@.len(),
            forall|i: int|
                0 <= i < old(transforms)@.len() ==> (#[trigger] final(transforms)@[i]).name == old(
                    transforms,
                )@[i].name,
            forall|i: int|
                0 <= i < old(transforms)@.len() ==> (#[trigger] final(transforms)@[i]).transform
                    == spec_animate_node(
                    self.nodes_animations@[i]@,
                    old(transforms)@[i].transform,
                    time,
                ),
    {
        let n = self.nodes_animations.len();
        let mut i: usize = 0;
        while i < n
            invariant
                i <= n,
                n == self.nodes_animations@.len(),
                self.wf(),
                transforms@.len() == old(transforms)@.len(),
                old(transforms)@.len() == n,
                forall|k: int|
                    i <= k < n ==> #[trigger] transforms@[k] == old(transforms)@[k],
                forall|k: int|
                    0 <= k < i ==> (#[trigger] transforms@[k]).name == old(transforms)@[k].name,
                forall|k: int|
                    0 <= k < i ==> (#[trigger] transforms@[k]).transform == spec_animate_node(
                        self.nodes_animations@[k]@,
                        old(transforms)@[k].transform,
                        time,
                    ),
            decreases n - i,
        {
            let anims = &self.nodes_animations[i];
            if anims.len() > 0 {
                let m0 = transforms[i].transform;
                let (mut s, mut r, mut tr) = mat_to_srt(&m0);
                let ghost parts0 = (s, r, tr);
                let m = anims.len();
                let mut j: usize = 0;
                while j < m
                    invariant
                        j <= m,
                        i < n,
                        n == self.nodes_animations@.len(),
                        m == self.nodes_animations@[i as int]@.len(),
                        anims@ == self.nodes_animations@[i as int]@,
                        self.wf(),
                        spec_apply_channels(
                            self.nodes_animations@[i as int]@,
                            0,
                            parts0.0,
                            parts0.1,
                            parts0.2,
                            time,
                        ) == spec_apply_channels(
                            self.nodes_animations@[i as int]@,
                            j as int,
                            s,
                            r,
                            tr,
                            time,
                        ),
                    decreases m - j,
                {
                    proof {
                        assert(self.nodes_animations@[i as int]@[j as int].wf());
                    }
                    let a = &anims[j];
                    match &a.keyframes {
                        Keyframes::Translation(kf) => {
                            match sample_vec3_keyframes(&a.timestamps, kf, a.interpolation, time) {
                                Some(v) => {
                                    tr = v;
                                },
                                None => {},
                            }
                        },
                        Keyframes::Rotation(kf) => {
                            match sample_quat_keyframes(&a.timestamps, kf, a.interpolation, time) {
                                Some(v) => {
                                    r = v;
                                },
                                None => {},
                            }
                        },
                        Keyframes::Scale(kf) => {
                            match sample_vec3_keyframes(&a.timestamps, kf, a.interpolation, time) {
                                Some(v) => {
                                    s = v;
                                },
                                None => {},
                            }
                        },
                    }
                    j = j + 1;
                }
                let recomposed = mat_from_srt(&s, &r, &tr);
                let e = &mut transforms[i];
                e.transform = recomposed;
            }
            i = i + 1;
        }
    }
}

} // verus!
