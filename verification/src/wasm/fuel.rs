//! Fuel accounting for one resident region.
use vstd::prelude::*;

verus! {

/// A number cut off at the end of the range.
pub open spec fn saturated(n: int) -> u64 {
    if n > u64::MAX {
        u64::MAX
    } else if n < 0 {
        0
    } else {
        n as u64
    }
}

/// The most fuel that `live` invocations may hold together.
pub open spec fn fuel_cap_of(fuel_per_invocation: u64, live: nat) -> u64 {
    saturated(fuel_per_invocation * live)
}

/// The smaller of two amounts.
pub open spec fn least(a: u64, b: u64) -> u64 {
    if a <= b {
        a
    } else {
        b
    }
}

fn saturating_product(a: u64, b: u64) -> (r: u64)
    ensures
        r == saturated(a * b),
{
    assert(a * b >= 0) by (nonlinear_arith)
        requires
            a >= 0,
            b >= 0,
    ;
    match a.checked_mul(b) {
        Some(p) => p,
        None => u64::MAX,
    }
}

/// The most fuel that `live` invocations may hold together.
pub fn fuel_cap(fuel_per_invocation: u64, live: usize) -> (r: u64)
    ensures
        r == fuel_cap_of(fuel_per_invocation, live as nat),
{
    saturating_product(fuel_per_invocation, live as u64)
}

/// Monotonic fuel accounting for one resident region.
///
/// The engine exposes fuel per store, not per concurrent guest task. Granting a
/// fresh slice for every admission lets a long-lived invocation steal an
/// unbounded sequence of slices from short-lived siblings. Instead, a busy
/// generation earns fuel only when it reaches a new concurrency high-water
/// mark. The high-water mark resets only after the store becomes quiescent.
/// This preserves real concurrency while making admission churn fail closed.
#[derive(Debug)]
pub struct RegionFuelBudget {
    peak_live: usize,
}

impl Default for RegionFuelBudget {
    fn default() -> (r: RegionFuelBudget)
        ensures
            r.peak() == 0,
    {
        RegionFuelBudget { peak_live: 0 }
    }
}

/// The fuel that a store holds after an admission: what it held plus one slice
/// for each step beyond the high-water mark, within the cap.
pub open spec fn admission_fuel(peak: nat, current: u64, live: nat, slice: u64) -> u64 {
    let earned = if live > peak {
        live - peak
    } else {
        0
    };
    least(saturated(current + saturated(slice * earned)), fuel_cap_of(slice, live))
}

/// The fuel that a store holds after a completion: nothing once quiescent, and
/// otherwise what it held, within the cap.
pub open spec fn completion_fuel(current: u64, live: nat, slice: u64) -> u64 {
    if live == 0 {
        0
    } else {
        least(current, fuel_cap_of(slice, live))
    }
}

impl RegionFuelBudget {
    /// The concurrency high-water mark of the busy generation.
    pub closed spec fn peak(self) -> nat {
        self.peak_live as nat
    }

    /// The fuel to hold after admitting an invocation, with which `live` are
    /// live.
    pub fn admission_target(&self, current_fuel: u64, live: usize, fuel_per_invocation: u64) -> (r:
        u64)
        ensures
            r == admission_fuel(self.peak(), current_fuel, live as nat, fuel_per_invocation),
    {
        let newly_earned: usize = live.saturating_sub(self.peak_live);
        let additional: u64 = saturating_product(fuel_per_invocation, newly_earned as u64);
        let target: u64 = current_fuel.saturating_add(additional);
        let cap: u64 = fuel_cap(fuel_per_invocation, live);
        if target <= cap {
            target
        } else {
            cap
        }
    }

    /// Remember how many invocations are live after an admission.
    pub fn record_admission(&mut self, live: usize)
        ensures
            final(self).peak() == (if live > old(self).peak() {
                live as nat
            } else {
                old(self).peak()
            }),
    {
        if live > self.peak_live {
            self.peak_live = live;
        }
    }

    /// Forget the high-water mark once a completion leaves the store quiescent.
    pub fn record_completion(&mut self, live: usize)
        ensures
            final(self).peak() == (if live == 0 {
                0
            } else {
                old(self).peak()
            }),
    {
        if live == 0 {
            self.peak_live = 0;
        }
    }

    /// The fuel to hold after a completion that leaves `live` invocations live,
    /// which is then recorded.
    pub fn completion_target(&mut self, current_fuel: u64, live: usize, fuel_per_invocation: u64) -> (r:
        u64)
        ensures
            r == completion_fuel(current_fuel, live as nat, fuel_per_invocation),
            final(self).peak() == (if live == 0 {
                0
            } else {
                old(self).peak()
            }),
    {
        self.record_completion(live);
        clamped(current_fuel, live, fuel_per_invocation)
    }
}

/// The fuel that a store may keep when a completion leaves `live` invocations
/// live.
pub fn clamped(current_fuel: u64, live: usize, fuel_per_invocation: u64) -> (r: u64)
    ensures
        r == completion_fuel(current_fuel, live as nat, fuel_per_invocation),
{
    if live == 0 {
        return 0;
    }
    let cap: u64 = fuel_cap(fuel_per_invocation, live);
    if current_fuel <= cap {
        current_fuel
    } else {
        cap
    }
}

// ── laws ─────────────────────────────────────────────────────────────────────

/// Admission churn below the high-water mark never adds fuel: a long-lived
/// invocation cannot live off its short-lived siblings.
pub proof fn churn_earns_no_fuel(peak: nat, current: u64, live: nat, slice: u64)
    requires
        live <= peak,
    ensures
        admission_fuel(peak, current, live, slice) <= current,
        completion_fuel(current, live, slice) <= current,
{
    assert(slice * 0 == 0) by (nonlinear_arith);
}

/// A store never holds more than one slice per live invocation.
pub proof fn fuel_is_capped(peak: nat, current: u64, live: nat, slice: u64)
    ensures
        admission_fuel(peak, current, live, slice) <= fuel_cap_of(slice, live),
        live > 0 ==> completion_fuel(current, live, slice) <= fuel_cap_of(slice, live),
{
}

/// A store that became quiescent starts over: the next lone invocation gets
/// exactly one slice.
pub proof fn quiescence_starts_over(current: u64, slice: u64)
    ensures
        admission_fuel(0, completion_fuel(current, 0, slice), 1, slice) == slice,
{
    assert(slice * 1 == slice) by (nonlinear_arith);
}

/// A new high-water mark earns exactly one slice for each step beyond the old
/// one, where nothing saturates and the store held its full share before.
pub proof fn new_peaks_earn_slices(peak: nat, live: nat, slice: u64)
    requires
        live > peak,
        slice * live <= u64::MAX,
    ensures
        admission_fuel(peak, (slice * peak) as u64, live, slice) == slice * live,
{
    assert(slice * peak + slice * (live - peak) == slice * live) by (nonlinear_arith)
        requires
            live > peak,
    ;
    assert(slice * peak >= 0 && slice * (live - peak) >= 0) by (nonlinear_arith)
        requires
            live > peak,
            slice >= 0,
            peak >= 0,
    ;
}

/// The fuel after an admission is what the store held and one slice for each step beyond the
/// high-water mark, or one slice for each live invocation where that is less; where those
/// numbers can be counted, it is exactly that.
pub proof fn admissions_earn_by_the_slice(peak: nat, current: u64, live: nat, slice: u64)
    ensures
        admission_fuel(peak, current, live, slice) <= slice * live,
        live > peak ==> admission_fuel(peak, current, live, slice) <= current + slice * (live
            - peak),
        live > peak && current + slice * (live - peak) <= u64::MAX ==> admission_fuel(
            peak,
            current,
            live,
            slice,
        ) == current + slice * (live - peak) || admission_fuel(peak, current, live, slice) == slice
            * live || slice * live > u64::MAX,
        live <= peak ==> admission_fuel(peak, current, live, slice) == current || admission_fuel(
            peak,
            current,
            live,
            slice,
        ) == slice * live,
        live <= peak && current <= slice * live ==> admission_fuel(peak, current, live, slice)
            == current,
{
    assert(slice * live >= 0) by (nonlinear_arith)
        requires
            slice >= 0,
            live >= 0,
    ;
    assert(slice * 0 == 0) by (nonlinear_arith);
    if live > peak {
        assert(slice * (live - peak) >= 0) by (nonlinear_arith)
            requires
                slice >= 0,
                live > peak,
        ;
    }
}

/// The fuel after a completion is what the store held, or one slice for each invocation that
/// is still live where that is less; a quiescent store keeps none.
pub proof fn completions_keep_what_is_covered(current: u64, live: nat, slice: u64)
    ensures
        completion_fuel(current, live, slice) <= current,
        completion_fuel(current, live, slice) <= slice * live,
        completion_fuel(current, live, slice) == current || completion_fuel(current, live, slice)
            == slice * live,
{
    assert(slice * live >= 0) by (nonlinear_arith)
        requires
            slice >= 0,
            live >= 0,
    ;
    assert(slice * 0 == 0) by (nonlinear_arith);
}

} // verus!
