use vstd::prelude::*;

verus! {

/// A caller-facing, relative urgency descriptor. `Within` carries a span of
/// nanoseconds, counted from the moment the item is pushed.
#[derive(Clone, Copy, Debug, PartialEq, Eq, Hash)]
pub enum Deadline {
    /// The most urgent possible value: sorts before every time-bounded or
    /// infinite deadline.
    Immediate,
    /// Urgent once the given number of nanoseconds has passed since insertion.
    Within(u128),
    /// The least urgent possible value; the default when unspecified.
    Infinity,
}

impl Default for Deadline {
    fn default() -> (r: Self)
        ensures
            r == Deadline::Infinity,
    {
        Deadline::Infinity
    }
}

/// A deadline resolved once, at insertion time, against the clock reading of
/// that moment. `Until` carries an absolute timestamp in nanoseconds.
#[derive(Clone, Copy, Debug, PartialEq, Eq, Hash)]
pub enum AbsoluteDeadline {
    Immediate,
    Until(u128),
    Infinity,
}

/// `a + b`, clamped to the top of the timestamp range.
pub open spec fn saturating_add(a: u128, b: u128) -> u128 {
    if a + b > u128::MAX {
        u128::MAX
    } else {
        (a + b) as u128
    }
}

/// What resolution returns: `Immediate` and `Infinity` pass through unchanged;
/// `Within(d)` becomes the absolute timestamp `now + d`, clamped rather than
/// wrapped if the sum leaves the representable range.
pub open spec fn resolve(relative: Deadline, now: u128) -> AbsoluteDeadline {
    match relative {
        Deadline::Immediate => AbsoluteDeadline::Immediate,
        Deadline::Within(d) => AbsoluteDeadline::Until(saturating_add(now, d)),
        Deadline::Infinity => AbsoluteDeadline::Infinity,
    }
}

/// The strict order on resolved deadlines: `Immediate` before every `Until`,
/// every `Until` before `Infinity`, and `Until(t1)` before `Until(t2)` exactly
/// when `t1` is chronologically earlier.
pub open spec fn abs_lt(a: AbsoluteDeadline, b: AbsoluteDeadline) -> bool {
    match (a, b) {
        (AbsoluteDeadline::Immediate, AbsoluteDeadline::Immediate) => false,
        (AbsoluteDeadline::Immediate, _) => true,
        (AbsoluteDeadline::Until(_), AbsoluteDeadline::Immediate) => false,
        (AbsoluteDeadline::Until(t1), AbsoluteDeadline::Until(t2)) => t1 < t2,
        (AbsoluteDeadline::Until(_), AbsoluteDeadline::Infinity) => true,
        (AbsoluteDeadline::Infinity, _) => false,
    }
}

/// The reflexive closure of `abs_lt`.
pub open spec fn abs_le(a: AbsoluteDeadline, b: AbsoluteDeadline) -> bool {
    abs_lt(a, b) || a == b
}

impl AbsoluteDeadline {
    /// Resolve a relative deadline against the clock reading `now`, taken at
    /// the moment of insertion. A `Within` span that would push the timestamp
    /// past the representable range saturates instead of wrapping.
    pub fn new(relative: Deadline, now: u128) -> (r: Self)
        ensures
            r == resolve(relative, now),
    {
        match relative {
            Deadline::Immediate => AbsoluteDeadline::Immediate,
            Deadline::Within(d) => {
                if d <= u128::MAX - now {
                    AbsoluteDeadline::Until(now + d)
                } else {
                    AbsoluteDeadline::Until(u128::MAX)
                }
            },
            Deadline::Infinity => AbsoluteDeadline::Infinity,
        }
    }

    /// Decide whether `self` is strictly more urgent than `other`.
    pub fn precedes(&self, other: &Self) -> (r: bool)
        ensures
            r == abs_lt(*self, *other),
    {
        match (self, other) {
            (AbsoluteDeadline::Immediate, AbsoluteDeadline::Immediate) => false,
            (AbsoluteDeadline::Immediate, _) => true,
            (AbsoluteDeadline::Until(_), AbsoluteDeadline::Immediate) => false,
            (AbsoluteDeadline::Until(t1), AbsoluteDeadline::Until(t2)) => t1 < t2,
            (AbsoluteDeadline::Until(_), AbsoluteDeadline::Infinity) => true,
            (AbsoluteDeadline::Infinity, _) => false,
        }
    }
}

} // verus!
