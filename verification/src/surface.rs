//! Decisions of the drawing surface: which format to ask for, what to do with a
//! frame that could not be had, and how a vertex buffer grows.

use vstd::prelude::*;

verus! {

/// What came of asking the surface for a frame.
#[derive(Clone, Copy, Debug, PartialEq, Eq, Structural)]
pub enum SurfaceStatus {
    /// A frame to draw into.
    Ready,
    /// None now; a later one may come.
    Transient,
    /// The surface must be configured anew.
    Stale,
    /// The surface is in error.
    Invalid,
}

/// What to do next.
#[derive(Clone, Copy, Debug, PartialEq, Eq, Structural)]
pub enum SurfaceStep {
    Draw,
    /// Leave this frame out; the next redraw will retry.
    Skip,
    /// Configure the surface and ask once more.
    Reconfigure,
    /// Report the error.
    Fail,
}

/// Decide what to do with the answer to the first request for a frame, or to the
/// second, after the surface was configured anew. A second failure of any kind
/// only leaves the frame out.
pub fn surface_step(status: SurfaceStatus, second: bool) -> (s: SurfaceStep)
    ensures
        s == match status {
            SurfaceStatus::Ready => SurfaceStep::Draw,
            SurfaceStatus::Transient => SurfaceStep::Skip,
            SurfaceStatus::Stale => if second {
                SurfaceStep::Skip
            } else {
                SurfaceStep::Reconfigure
            },
            SurfaceStatus::Invalid => if second {
                SurfaceStep::Skip
            } else {
                SurfaceStep::Fail
            },
        },
{
    match status {
        SurfaceStatus::Ready => SurfaceStep::Draw,
        SurfaceStatus::Transient => SurfaceStep::Skip,
        SurfaceStatus::Stale => if second {
            SurfaceStep::Skip
        } else {
            SurfaceStep::Reconfigure
        },
        SurfaceStatus::Invalid => if second {
            SurfaceStep::Skip
        } else {
            SurfaceStep::Fail
        },
    }
}

/// Pick a surface format, given which of them are sRGB: the first that is, else
/// the first of all.
pub fn pick_format(is_srgb: &[bool]) -> (i: usize)
    ensures
        is_srgb@.contains(true) ==> i < is_srgb@.len() && is_srgb@[i as int] && forall|k: int|
            0 <= k < i ==> !#[trigger] is_srgb@[k],
        !is_srgb@.contains(true) ==> i == 0,
{
    let mut i: usize = 0;
    while i < is_srgb.len()
        invariant
            i <= is_srgb.len(),
            forall|k: int| 0 <= k < i ==> !#[trigger] is_srgb@[k],
        decreases is_srgb.len() - i,
    {
        if is_srgb[i] {
            return i;
        }
        i = i + 1;
    }
    0
}

/// Two to the power of `k`.
pub open spec fn power_of_two(k: nat) -> nat
    decreases k,
{
    if k == 0 {
        1
    } else {
        2 * power_of_two((k - 1) as nat)
    }
}

/// The capacity of a buffer that must hold `needed` bytes: as it is where that is
/// enough, else the smallest power of two that is.
pub fn buffer_capacity(cap: u64, needed: u64) -> (n: u64)
    requires
        needed <= 0x8000_0000_0000_0000,
    ensures
        needed <= cap ==> n == cap,
        needed > cap ==> exists|k: nat|
            n == #[trigger] power_of_two(k) && n >= needed && (k == 0 || power_of_two(
                (k - 1) as nat,
            ) < needed),
{
    if needed <= cap {
        return cap;
    }
    let mut n: u64 = 1;
    let ghost mut k: nat = 0;
    proof {
        power_fits(63);
    }
    while n < needed
        invariant
            n == power_of_two(k),
            k <= 63,
            needed <= 0x8000_0000_0000_0000,
            power_of_two(63) == 0x8000_0000_0000_0000,
            k == 0 || power_of_two((k - 1) as nat) < needed,
        decreases 64 - k,
    {
        proof {
            if k == 63 {
                assert(n == 0x8000_0000_0000_0000);
            }
            power_grows(k + 1, 63);
        }
        n = n * 2;
        proof {
            k = k + 1;
        }
    }
    n
}

proof fn power_grows(a: nat, b: nat)
    ensures
        a <= b ==> power_of_two(a) <= power_of_two(b),
    decreases b,
{
    if a < b {
        power_grows(a, (b - 1) as nat);
    }
}

proof fn power_fits(k: nat)
    requires
        k == 63,
    ensures
        power_of_two(k) == 0x8000_0000_0000_0000,
{
    reveal_with_fuel(power_of_two, 65);
}

} // verus!
