use vstd::prelude::*;

verus! {

use vstd::string::StringExecFns;

/// The fixed-point time unit under which all durations of a run are
/// measured, aggregated and reported.
///
/// The invariant of the unit table is that a second holds `10^9` nanoseconds:
/// `Nano.scale() == 1_000_000_000 * Secs.scale()`.
#[derive(Clone, Copy, PartialEq, Eq, Structural, Debug)]
pub enum DurationScale {
    Nano,
    Micro,
    Milli,
    Secs,
}

impl DurationScale {
    /// How many units of this scale make up one second.
    pub open spec fn spec_scale(self) -> u64 {
        match self {
            DurationScale::Nano => 1_000_000_000,
            DurationScale::Micro => 1_000_000,
            DurationScale::Milli => 1_000,
            DurationScale::Secs => 1,
        }
    }

    /// How many nanoseconds one unit of this scale spans.
    pub open spec fn spec_unit_nanos(self) -> u64 {
        match self {
            DurationScale::Nano => 1,
            DurationScale::Micro => 1_000,
            DurationScale::Milli => 1_000_000,
            DurationScale::Secs => 1_000_000_000,
        }
    }

    /// The number of units of this scale per second.
    pub fn scale(&self) -> (r: usize)
        ensures
            r == self.spec_scale(),
    {
        match self {
            DurationScale::Nano => 1_000_000_000,
            DurationScale::Micro => 1_000_000,
            DurationScale::Milli => 1_000,
            DurationScale::Secs => 1,
        }
    }

    /// The exact value of `self.scale() / other.scale()` as a reduced
    /// ratio `num / den`; one of the two sides is always 1 because the
    /// unit table holds powers of ten only.
    pub fn factor(&self, other: &DurationScale) -> (r: (u64, u64))
        ensures
            r.1 >= 1,
            r.0 * other.spec_scale() == r.1 * self.spec_scale(),
            r.0 == 1 || r.1 == 1,
            self == other ==> r.0 == 1 && r.1 == 1,
    {
        let f_self: u64 = self.scale() as u64;
        let f_other: u64 = other.scale() as u64;
        if f_self >= f_other {
            (f_self / f_other, 1)
        } else {
            (1, f_other / f_self)
        }
    }

    /// A duration of `nanos` nanoseconds expressed in this scale,
    /// truncated to whole units.
    pub fn elapsed(&self, nanos: u64) -> (r: u64)
        ensures
            r == nanos as int / self.spec_unit_nanos() as int,
    {
        nanos / self.unit_nanos()
    }

    /// How many nanoseconds one unit of this scale spans.
    pub fn unit_nanos(&self) -> (r: u64)
        ensures
            r == self.spec_unit_nanos(),
    {
        match self {
            DurationScale::Nano => 1,
            DurationScale::Micro => 1_000,
            DurationScale::Milli => 1_000_000,
            DurationScale::Secs => 1_000_000_000,
        }
    }

    /// The unit prefix shown before "s" in reports.
    pub open spec fn spec_label(self) -> Seq<char> {
        match self {
            DurationScale::Nano => "n"@,
            DurationScale::Micro => "\u{b5}"@,
            DurationScale::Milli => "m"@,
            DurationScale::Secs => ""@,
        }
    }

    /// The unit prefix shown before "s" in reports.
    pub fn label(&self) -> (r: String)
        ensures
            r@ == self.spec_label(),
    {
        match self {
            DurationScale::Nano => String::from_str("n"),
            DurationScale::Micro => String::from_str("\u{b5}"),
            DurationScale::Milli => String::from_str("m"),
            DurationScale::Secs => String::from_str(""),
        }
    }
}

impl Default for DurationScale {
    /// Durations are reported in microseconds unless configured otherwise.
    fn default() -> (r: Self)
        ensures
            r == DurationScale::Micro,
    {
        DurationScale::Micro
    }
}

/// A second holds `10^9` nanoseconds: the ratio between the finest and the
/// coarsest unit of the table is exactly one billion.
pub proof fn lemma_scale_table_consistent()
    ensures
        DurationScale::Nano.spec_scale() == 1_000_000_000 * DurationScale::Secs.spec_scale(),
        forall|s: DurationScale|
            #[trigger] s.spec_scale() * s.spec_unit_nanos() == 1_000_000_000,
{
    assert forall|s: DurationScale| #[trigger]
        s.spec_scale() * s.spec_unit_nanos() == 1_000_000_000 by {
        match s {
            DurationScale::Nano => assert(s.spec_scale() * s.spec_unit_nanos() == 1_000_000_000),
            DurationScale::Micro => assert(s.spec_scale() * s.spec_unit_nanos() == 1_000_000_000),
            DurationScale::Milli => assert(s.spec_scale() * s.spec_unit_nanos() == 1_000_000_000),
            DurationScale::Secs => assert(s.spec_scale() * s.spec_unit_nanos() == 1_000_000_000),
        }
    }
}

/// Expressing a duration in a scale is monotonic in the underlying
/// duration: a request that took longer never reports fewer units.
pub proof fn lemma_elapsed_monotonic(s: DurationScale, shorter: u64, longer: u64)
    requires
        shorter <= longer,
    ensures
        shorter as int / s.spec_unit_nanos() as int <= longer as int / s.spec_unit_nanos() as int,
{
    vstd::arithmetic::div_mod::lemma_div_is_ordered(
        shorter as int,
        longer as int,
        s.spec_unit_nanos() as int,
    );
}

/// The duration unit of the early sampling interface; it lacks a whole-second
/// variant and otherwise mirrors [`DurationScale`].
#[derive(Clone, Copy, PartialEq, Eq, Structural, Debug)]
pub enum DurationUnit {
    Nano,
    Micro,
    Milli,
}

impl Default for DurationUnit {
    /// Durations are reported in microseconds unless configured otherwise.
    fn default() -> (r: Self)
        ensures
            r == DurationUnit::Micro,
    {
        DurationUnit::Micro
    }
}

} // verus!
