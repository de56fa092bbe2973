use crate::scale::DurationScale;
use crate::template::{replace_all, replace_spec};
use crate::testers::TestOutcome;
use vstd::prelude::*;

verus! {

use vstd::string::StringExecFns;

/// The summary table of the report: an HTML template whose `$...$` tokens
/// are substituted one by one with the run's rendered figures.
pub struct SummaryComponent {
    pub html: Vec<u8>,
}

impl SummaryComponent {
    /// Starts from the template bytes the caller provides.
    pub fn new(template: Vec<u8>) -> (r: Self)
        ensures
            r.html@ == template@,
    {
        SummaryComponent { html: template }
    }

    /// Replaces every occurrence of the token with the rendered value.
    pub fn substitute(&mut self, token: &Vec<u8>, value: &Vec<u8>)
        requires
            token@.len() >= 1,
        ensures
            final(self).html@ == replace_spec(old(self).html@, token@, value@),
    {
        let filled = replace_all(&self.html, token, value);
        self.html = filled;
    }

    /// The finished component, ready to be written out.
    pub fn compile(self) -> (r: Vec<u8>)
        ensures
            r@ == self.html@,
    {
        self.html
    }
}

/// The HTML fragment reporting a test outcome, colored by its direction;
/// the p-value arrives already rendered as text.
pub fn test_outcome_html(outcome: &TestOutcome, p_value: &str) -> (r: String)
    ensures
        r@ == match outcome {
            TestOutcome::Improved => "<font color='green'>improved (p-value "@ + p_value@
                + ")</font>"@,
            TestOutcome::Regressed => "<font color='red'>regressed (p-value "@ + p_value@
                + ")</font>"@,
            TestOutcome::Inconclusive => "inconclusive (no significant change)"@,
        },
{
    match outcome {
        TestOutcome::Improved => String::from_str("<font color='green'>improved (p-value ").concat(
            p_value,
        ).concat(")</font>"),
        TestOutcome::Regressed => String::from_str("<font color='red'>regressed (p-value ").concat(
            p_value,
        ).concat(")</font>"),
        TestOutcome::Inconclusive => String::from_str("inconclusive (no significant change)"),
    }
}

/// Whether a baseline can be statistically compared with the current run:
/// only runs measured under the same time scale are compared.
pub fn comparable_scales(current: &DurationScale, baseline: &DurationScale) -> (r: bool)
    ensures
        r == (current == baseline),
{
    current == baseline
}

/// The deterministic color of one worker's plot traces: worker `i` of `n`
/// renders with RGB `(50 + i * step, 50, 50 + i * step)` where `step` is
/// `205 / n`, so every worker stays within the byte range.
pub fn rgb_color(thread_idx: usize, n_threads: usize) -> (r: (u8, u8, u8))
    requires
        n_threads >= 1,
        thread_idx < n_threads,
    ensures
        r.0 == 50 + thread_idx * (205int / n_threads as int),
        r.1 == 50,
        r.2 == r.0,
{
    let step = 205usize / n_threads;
    proof {
        let s = 205int / n_threads as int;
        let n = n_threads as int;
        vstd::arithmetic::div_mod::lemma_fundamental_div_mod(205, n);
        vstd::arithmetic::div_mod::lemma_mod_division_less_than_divisor(205, n);
        assert(s * n <= 205) by (nonlinear_arith)
            requires 205int == n * s + 205int % n, 205int % n >= 0;
        assert((thread_idx as int) * s <= (n - 1) * s) by (nonlinear_arith)
            requires thread_idx as int <= n - 1, s >= 0;
        assert((n - 1) * s <= s * n) by (nonlinear_arith)
            requires s >= 0, n >= 1;
    }
    let scale = 50 + thread_idx * step;
    (scale as u8, 50u8, scale as u8)
}

} // verus!
