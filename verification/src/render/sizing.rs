//! Sizing policies and how each resolves to a number of pixels per module.

use vstd::prelude::*;
use crate::types::RenderError;

verus! {

/// How the renderer picks the number of pixels that a module takes on each
/// axis. The first number is for the horizontal axis, the second for the
/// vertical one.
#[derive(Clone, Copy, Debug, PartialEq, Eq, Structural)]
pub enum SizingPolicy {
    /// Each module takes exactly this many pixels.
    FixedModuleSize(u32, u32),
    /// The image is at least this large, and no larger than that takes.
    MinimumOverallSize(u32, u32),
    /// The image is at most this large, as far as one pixel per module fits,
    /// and no smaller than that takes.
    MaximumOverallSize(u32, u32),
}

/// The least scale, one at least, at which `modules` modules cover `target`
/// pixels: `target / modules` rounded up.
pub open spec fn min_fit_scale(target: int, modules: int) -> int {
    let scale = (target + modules - 1) / modules;
    if scale < 1 {
        1
    } else {
        scale
    }
}

/// The greatest scale at which `modules` modules stay within `target` pixels,
/// or one where even that is too much: `target / modules` rounded down.
pub open spec fn max_fit_scale(target: int, modules: int) -> int {
    let scale = target / modules;
    if scale < 1 {
        1
    } else {
        scale
    }
}

/// Rounding up by adding the divisor less one: for a positive `target` the
/// quotient is one more than that of `target - 1`, rounded down.
proof fn lemma_round_up(target: int, modules: int)
    requires
        0 < target,
        0 < modules,
    ensures
        (target + modules - 1) / modules == (target - 1) / modules + 1,
        0 <= (target - 1) / modules <= target - 1,
{
    let q = (target - 1) / modules;
    let r = (target - 1) % modules;
    vstd::arithmetic::div_mod::lemma_fundamental_div_mod(target - 1, modules);
    vstd::arithmetic::div_mod::lemma_mod_bound(target - 1, modules);
    assert((q + 1) * modules == modules * q + modules) by (nonlinear_arith);
    vstd::arithmetic::div_mod::lemma_fundamental_div_mod_converse(
        target + modules - 1,
        modules,
        q + 1,
        r,
    );
    assert(0 <= q <= target - 1) by (nonlinear_arith)
        requires
            target - 1 == modules * q + r,
            0 <= r < modules,
            0 <= target - 1,
    ;
}

/// Rounding down never gives more than was divided.
proof fn lemma_round_down(target: int, modules: int)
    requires
        0 <= target,
        0 < modules,
    ensures
        0 <= target / modules <= target,
{
    let q = target / modules;
    let r = target % modules;
    vstd::arithmetic::div_mod::lemma_fundamental_div_mod(target, modules);
    vstd::arithmetic::div_mod::lemma_mod_bound(target, modules);
    assert(0 <= q <= target) by (nonlinear_arith)
        requires
            target == modules * q + r,
            0 <= r < modules,
            0 <= target,
    ;
}

/// The scale that fits a minimum covers the target, and one pixel per module
/// less would fall short of it.
pub proof fn lemma_min_fit_scale(target: int, modules: int)
    requires
        0 <= target,
        0 < modules,
    ensures
        min_fit_scale(target, modules) >= 1,
        modules * min_fit_scale(target, modules) >= target,
        min_fit_scale(target, modules) > 1 ==> modules * (min_fit_scale(target, modules) - 1)
            < target,
{
    if target == 0 {
        vstd::arithmetic::div_mod::lemma_fundamental_div_mod_converse(
            modules - 1,
            modules,
            0,
            modules - 1,
        );
    } else {
        lemma_round_up(target, modules);
        let q = (target - 1) / modules;
        vstd::arithmetic::div_mod::lemma_fundamental_div_mod(target - 1, modules);
        vstd::arithmetic::div_mod::lemma_mod_bound(target - 1, modules);
        assert(modules * (q + 1) == modules * q + modules) by (nonlinear_arith);
    }
}

/// No scale below the one that fits a minimum covers the target.
pub proof fn lemma_min_fit_scale_is_least(target: int, modules: int, other: int)
    requires
        0 <= target,
        0 < modules,
        1 <= other,
        modules * other >= target,
    ensures
        min_fit_scale(target, modules) <= other,
{
    lemma_min_fit_scale(target, modules);
    let scale = min_fit_scale(target, modules);
    if other < scale {
        assert(modules * other <= modules * (scale - 1)) by (nonlinear_arith)
            requires
                other <= scale - 1,
                0 < modules,
        ;
    }
}

/// The scale that fits a maximum stays within a target that has room for
/// every module, while one pixel per module more would exceed it. Where the
/// target has no room for every module, the scale is one.
pub proof fn lemma_max_fit_scale(target: int, modules: int)
    requires
        0 <= target,
        0 < modules,
    ensures
        max_fit_scale(target, modules) >= 1,
        target >= modules ==> modules * max_fit_scale(target, modules) <= target < modules * (
        max_fit_scale(target, modules) + 1),
        target < modules ==> max_fit_scale(target, modules) == 1,
{
    let q = target / modules;
    vstd::arithmetic::div_mod::lemma_fundamental_div_mod(target, modules);
    vstd::arithmetic::div_mod::lemma_mod_bound(target, modules);
    lemma_round_down(target, modules);
    assert(modules * (q + 1) == modules * q + modules) by (nonlinear_arith);
    if target >= modules {
        if q < 1 {
            assert(modules * q == 0) by (nonlinear_arith)
                requires
                    q == 0,
            ;
        }
    } else {
        if q >= 1 {
            assert(modules * q >= modules) by (nonlinear_arith)
                requires
                    q >= 1,
                    0 < modules,
            ;
        }
    }
}

/// Computes [`min_fit_scale`].
fn min_fit(target: u32, modules: u64) -> (scale: u32)
    requires
        modules > 0,
    ensures
        scale == min_fit_scale(target as int, modules as int),
        scale > 0,
{
    if target == 0 {
        proof {
            vstd::arithmetic::div_mod::lemma_fundamental_div_mod_converse(
                modules - 1,
                modules as int,
                0,
                modules - 1,
            );
        }
        1
    } else {
        proof {
            lemma_round_up(target as int, modules as int);
        }
        let below: u64 = (target as u64 - 1) / modules;
        (below + 1) as u32
    }
}

/// Computes [`max_fit_scale`].
fn max_fit(target: u32, modules: u64) -> (scale: u32)
    requires
        modules > 0,
    ensures
        scale == max_fit_scale(target as int, modules as int),
        scale > 0,
{
    proof {
        lemma_round_down(target as int, modules as int);
    }
    let fits: u64 = target as u64 / modules;
    if fits < 1 {
        1
    } else {
        fits as u32
    }
}

impl SizingPolicy {
    /// Whether the policy can be resolved at all: a module size of zero and a
    /// size of zero to fit are refused.
    pub open spec fn valid(self) -> bool {
        match self {
            SizingPolicy::FixedModuleSize(w, h) => w > 0 && h > 0,
            SizingPolicy::MinimumOverallSize(w, h) => w > 0 && h > 0,
            SizingPolicy::MaximumOverallSize(w, h) => w > 0 && h > 0,
        }
    }

    /// The number of pixels per module, horizontally and vertically, for a
    /// grid of `logical_width` by `logical_height` modules. The two axes are
    /// resolved independently.
    pub open spec fn scale(self, logical_width: int, logical_height: int) -> (int, int) {
        match self {
            SizingPolicy::FixedModuleSize(w, h) => (w as int, h as int),
            SizingPolicy::MinimumOverallSize(w, h) => (
                min_fit_scale(w as int, logical_width),
                min_fit_scale(h as int, logical_height),
            ),
            SizingPolicy::MaximumOverallSize(w, h) => (
                max_fit_scale(w as int, logical_width),
                max_fit_scale(h as int, logical_height),
            ),
        }
    }

    /// Resolves the policy for a grid of `logical_width` by `logical_height`
    /// modules. It fails where the policy is not valid or the grid is empty.
    pub fn resolve(self, logical_width: u64, logical_height: u64) -> (result: Result<
        (u32, u32),
        RenderError,
    >)
        ensures
            result is Ok <==> self.valid() && logical_width > 0 && logical_height > 0,
            result matches Ok(scale) ==> {
                &&& scale.0 == self.scale(logical_width as int, logical_height as int).0
                &&& scale.1 == self.scale(logical_width as int, logical_height as int).1
                &&& scale.0 > 0
                &&& scale.1 > 0
            },
            result matches Err(error) ==> error == RenderError::InvalidDimensions,
    {
        if logical_width == 0 || logical_height == 0 {
            return Err(RenderError::InvalidDimensions);
        }
        match self {
            SizingPolicy::FixedModuleSize(w, h) => {
                if w == 0 || h == 0 {
                    Err(RenderError::InvalidDimensions)
                } else {
                    Ok((w, h))
                }
            },
            SizingPolicy::MinimumOverallSize(w, h) => {
                if w == 0 || h == 0 {
                    Err(RenderError::InvalidDimensions)
                } else {
                    Ok((min_fit(w, logical_width), min_fit(h, logical_height)))
                }
            },
            SizingPolicy::MaximumOverallSize(w, h) => {
                if w == 0 || h == 0 {
                    Err(RenderError::InvalidDimensions)
                } else {
                    Ok((max_fit(w, logical_width), max_fit(h, logical_height)))
                }
            },
        }
    }
}

} // verus!
