//! Time series: which rows of a batch a filter keeps, told from the times
//! of the rows alone.
//!
//! A row without a time is kept by no filter; its place in a mask is empty.

use vstd::prelude::*;

verus! {

/// The kinds of column that hold times, by the unit in which they count.
#[derive(Clone, Copy, Debug, PartialEq, Eq, Structural)]
pub enum TemporalKind {
    /// Seconds since the epoch.
    Second,
    /// Milliseconds since the epoch.
    Millisecond,
    /// Microseconds since the epoch.
    Microsecond,
    /// Nanoseconds since the epoch.
    Nanosecond,
    /// Days since the epoch.
    Date32,
    /// Milliseconds since the epoch, at whole days.
    Date64,
}

/// By how much a granularity in milliseconds is multiplied for a column of
/// the given kind. Units finer than a millisecond are taken for
/// milliseconds.
pub open spec fn factor_of(kind: TemporalKind) -> int {
    match kind {
        TemporalKind::Second => 1000,
        TemporalKind::Date32 => 86_400_000,
        _ => 1,
    }
}

/// Whether `time` lies in the range from `start` to `end`, both of them in
/// it.
pub open spec fn in_range(time: int, start: int, end: int) -> bool {
    start <= time <= end
}

/// Whether `time` is a whole multiple of `step`.
pub open spec fn on_step(time: int, step: int) -> bool {
    time % step == 0
}

/// By how much a granularity in milliseconds is multiplied for a column of
/// the given kind.
pub fn conversion_factor(kind: TemporalKind) -> (factor: i64)
    ensures
        factor == factor_of(kind),
{
    match kind {
        TemporalKind::Second => 1000,
        TemporalKind::Date32 => 86_400_000,
        _ => 1,
    }
}

/// The step between the times that a filter by `granularity` keeps in a
/// column of the given kind; `None` where that step does not fit in an
/// `i64`.
pub fn adjusted_granularity(granularity: i64, kind: TemporalKind) -> (step: Option<i64>)
    ensures
        step == if i64::MIN <= granularity * factor_of(kind) <= i64::MAX {
            Some((granularity * factor_of(kind)) as i64)
        } else {
            None
        },
{
    granularity.checked_mul(conversion_factor(kind))
}

/// Whether `time` lies in the range from `start_time` to `end_time`, both
/// of them in it.
pub fn within_time_range(time: i64, start_time: i64, end_time: i64) -> (within: bool)
    ensures
        within == in_range(time as int, start_time as int, end_time as int),
{
    time >= start_time && time <= end_time
}

/// Whether `time` is a whole multiple of `step`.
pub fn on_granularity(time: i64, step: i64) -> (on: bool)
    requires
        step != 0,
    ensures
        on == on_step(time as int, step as int),
{
    if step == -1 || step == 1 {
        true
    } else if time >= 0 && step > 0 {
        time % step == 0
    } else {
        let t: i128 = if time >= 0 {
            time as i128
        } else {
            -(time as i128)
        };
        let s: i128 = if step > 0 {
            step as i128
        } else {
            -(step as i128)
        };
        proof {
            lemma_divides_by_magnitude(time as int, step as int);
        }
        t % s == 0
    }
}

/// The magnitude of a number.
pub open spec fn magnitude(x: int) -> int {
    if x >= 0 {
        x
    } else {
        -x
    }
}

/// Whether one number is a whole multiple of another does not depend on
/// their signs.
pub proof fn lemma_divides_by_magnitude(time: int, step: int)
    requires
        step != 0,
    ensures
        on_step(time, step) == on_step(magnitude(time), magnitude(step)),
{
    let t = magnitude(time);
    let s = magnitude(step);
    if time % step == 0 {
        let q = time / step;
        assert(time == step * q) by {
            vstd::arithmetic::div_mod::lemma_fundamental_div_mod(time, step);
        }
        let k = magnitude(q);
        assert(t == s * k) by (nonlinear_arith)
            requires
                time == step * q,
                t == magnitude(time),
                s == magnitude(step),
                k == magnitude(q),
        ;
        assert(t % s == 0) by {
            vstd::arithmetic::div_mod::lemma_mod_multiples_basic(k, s);
            assert(s * k == k * s) by (nonlinear_arith);
        }
    }
    if t % s == 0 {
        let k = t / s;
        assert(t == s * k) by {
            vstd::arithmetic::div_mod::lemma_fundamental_div_mod(t, s);
        }
        let q = if (time >= 0) == (step > 0) {
            k
        } else {
            -k
        };
        assert(time == step * q) by (nonlinear_arith)
            requires
                t == s * k,
                t == magnitude(time),
                s == magnitude(step),
                q == if (time >= 0) == (step > 0) {
                    k
                } else {
                    -k
                },
                step != 0,
        ;
        assert(time % step == 0) by (nonlinear_arith)
            requires
                time == step * q,
                step != 0,
        ;
    }
}

/// What a filter makes of the row at one place: kept, dropped, or without
/// a time.
pub open spec fn mask_of(times: Seq<Option<i64>>, keeps: spec_fn(int) -> bool) -> Seq<Option<bool>> {
    Seq::new(
        times.len(),
        |i: int|
            match times[i] {
                Some(time) => Some(keeps(time as int)),
                None => None,
            },
    )
}

/// The mask of the rows whose time lies in the range from `start_time` to
/// `end_time`, both of them in it.
pub fn time_range_mask(times: &Vec<Option<i64>>, start_time: i64, end_time: i64) -> (mask: Vec<
    Option<bool>,
>)
    ensures
        mask@ == mask_of(times@, |time: int| in_range(time, start_time as int, end_time as int)),
{
    let mut mask: Vec<Option<bool>> = Vec::new();
    let mut i: usize = 0;
    while i < times.len()
        invariant
            i <= times.len(),
            mask.len() == i,
            forall|j: int|
                0 <= j < i ==> #[trigger] mask@[j] == match times@[j] {
                    Some(time) => Some(in_range(time as int, start_time as int, end_time as int)),
                    None => None,
                },
        decreases times.len() - i,
    {
        let kept = match times[i] {
            Some(time) => Some(within_time_range(time, start_time, end_time)),
            None => None,
        };
        mask.push(kept);
        i += 1;
    }
    assert(mask@ =~= mask_of(
        times@,
        |time: int| in_range(time, start_time as int, end_time as int),
    ));
    mask
}

/// The mask of the rows whose time is a whole multiple of `step`. There
/// are no multiples of nothing: with a `step` of zero, no row may have a
/// time.
pub fn granularity_mask(times: &Vec<Option<i64>>, step: i64) -> (mask: Vec<Option<bool>>)
    requires
        step != 0 || forall|i: int| 0 <= i < times.len() ==> times@[i] is None,
    ensures
        mask@ == mask_of(times@, |time: int| on_step(time, step as int)),
{
    let mut mask: Vec<Option<bool>> = Vec::new();
    let mut i: usize = 0;
    while i < times.len()
        invariant
            i <= times.len(),
            step != 0 || forall|j: int| 0 <= j < times.len() ==> times@[j] is None,
            mask.len() == i,
            forall|j: int|
                0 <= j < i ==> #[trigger] mask@[j] == match times@[j] {
                    Some(time) => Some(on_step(time as int, step as int)),
                    None => None,
                },
        decreases times.len() - i,
    {
        let kept = match times[i] {
            Some(time) => Some(on_granularity(time, step)),
            None => None,
        };
        mask.push(kept);
        i += 1;
    }
    assert(mask@ =~= mask_of(times@, |time: int| on_step(time, step as int)));
    mask
}

/// The places that `mask` keeps: those marked as kept, in rising order.
pub open spec fn kept_places(mask: Seq<Option<bool>>) -> Seq<int>
    decreases mask.len(),
{
    if mask.len() == 0 {
        Seq::empty()
    } else if mask.last() == Some(true) {
        kept_places(mask.drop_last()).push(mask.len() - 1)
    } else {
        kept_places(mask.drop_last())
    }
}

/// The rows that a filter with `mask` keeps, in their order.
pub fn kept_rows(mask: &Vec<Option<bool>>) -> (rows: Vec<usize>)
    ensures
        rows@.len() == kept_places(mask@).len(),
        forall|i: int| 0 <= i < rows@.len() ==> #[trigger] rows@[i] == kept_places(mask@)[i],
{
    let mut rows: Vec<usize> = Vec::new();
    let mut i: usize = 0;
    assert(mask@.take(0) =~= Seq::<Option<bool>>::empty());
    while i < mask.len()
        invariant
            i <= mask.len(),
            rows@.len() == kept_places(mask@.take(i as int)).len(),
            forall|j: int|
                0 <= j < rows@.len() ==> #[trigger] rows@[j] == kept_places(
                    mask@.take(i as int),
                )[j],
        decreases mask.len() - i,
    {
        let ghost longer = mask@.take(i + 1);
        assert(longer.drop_last() =~= mask@.take(i as int));
        assert(longer.last() == mask@[i as int]);
        match mask[i] {
            Some(true) => rows.push(i),
            _ => {},
        }
        i += 1;
    }
    assert(mask@.take(i as int) =~= mask@);
    rows
}

} // verus!
