//! `ClockRate`: a clock that is advanced by spans supplied from outside and
//! runs at a rational rate.
//!
//! A rate of `nom / denom` turns every nanosecond fed in into `nom`
//! elements, and every `denom` elements into one nanosecond of the clock.
//! The elements left over at the end of a step are carried into the next, so
//! the clock loses nothing to rounding however finely the steps are cut.

use crate::freq::{Frequency, FrequencyTicker, FrequencyView, TickerView};
use crate::math::{
    gcd, gcd_nat, lemma_div_mod_parts, lemma_div_mod_split, lemma_gcd_divides, lemma_gcd_positive,
};
use crate::span::TimeSpan;
use crate::stamp::{TimeStamp, MAX_ELAPSED_NANOS};
use crate::step::{ClockStep, StepView};
use vstd::arithmetic::div_mod::lemma_div_multiples_vanish_quotient;
use vstd::prelude::*;

verus! {

/// The state of a `ClockRate` in plain numbers.
pub ghost struct RateView {
    /// Nanoseconds from the reference point to the clock's "now".
    pub now: nat,
    /// Numerator of the rate.
    pub nom: nat,
    /// Denominator of the rate.
    pub denom: nat,
    /// Elements carried over from earlier steps: what they left of a
    /// nanosecond of the clock.
    pub carried: nat,
}

impl RateView {
    /// The denominator is positive and less than one nanosecond of the clock
    /// is carried over.
    pub open spec fn wf(self) -> bool {
        self.denom > 0 && self.carried < self.denom
    }

    /// The elements that count in a step of `span` nanoseconds: those
    /// carried over and those of the span.
    pub open spec fn elements(self, span: int) -> int {
        self.carried + span * self.nom
    }

    /// The nanoseconds by which the clock moves on when `span` nanoseconds
    /// are fed in.
    pub open spec fn scaled(self, span: int) -> int {
        self.elements(span) / (self.denom as int)
    }

    /// The clock after `span` nanoseconds have been fed in.
    pub open spec fn step(self, span: int) -> RateView {
        RateView {
            now: (self.now + self.scaled(span)) as nat,
            carried: (self.elements(span) % (self.denom as int)) as nat,
            ..self
        }
    }

    /// The clock with its rate set to `nom / denom`. What was carried over
    /// stays, cut down to just below one nanosecond at the new rate if it
    /// was more.
    pub open spec fn with_rate(self, nom: nat, denom: nat) -> RateView {
        RateView {
            nom,
            denom,
            carried: if self.carried < denom {
                self.carried
            } else {
                (denom - 1) as nat
            },
            ..self
        }
    }

    /// The clock seen as a ticker: each nanosecond of the clock is one tick
    /// at the frequency of `nom` ticks per `denom` nanoseconds fed in.
    pub open spec fn as_ticker(self) -> TickerView {
        TickerView {
            freq: FrequencyView { count: self.nom, cycle: self.denom },
            until_next: (self.denom - self.carried) as nat,
            now: self.now,
        }
    }

    /// The clock moves on by one nanosecond for each tick of the ticker that
    /// it is seen as, and carries over what that ticker has behind it.
    pub proof fn lemma_steps_are_ticks(self, span: int)
        requires
            self.wf(),
            span >= 0,
        ensures
            self.as_ticker().wf(),
            self.scaled(span) == self.as_ticker().tick_count(span),
            self.step(span).carried == self.denom - self.as_ticker().advance(span).until_next,
            self.step(span).wf(),
            self.scaled(span) >= 0,
    {
        let d = self.denom as int;
        let e = span * self.nom;
        let u = d - self.carried;
        assert(e >= 0) by (nonlinear_arith)
            requires
                e == span * self.nom,
                span >= 0,
        ;
        lemma_div_mod_split(self.elements(span), d);
        if e < u {
            lemma_div_mod_parts(self.elements(span), d, 0, self.carried + e);
        } else {
            let q = (e - u) / d;
            let r = (e - u) % d;
            lemma_div_mod_split(e - u, d);
            assert(self.carried + e == (1 + q) * d + r && q >= 0) by (nonlinear_arith)
                requires
                    e - u == q * d + r,
                    u == d - self.carried,
                    e - u >= 0,
                    0 <= r < d,
            ;
            lemma_div_mod_parts(self.elements(span), d, 1 + q, r);
        }
    }

    /// Spans fed in one after the other move the clock as far as their sum
    /// fed in at once, and leave it in the same state.
    pub proof fn lemma_steps_compose(self, first: int, second: int)
        requires
            self.wf(),
            first >= 0,
            second >= 0,
        ensures
            self.step(first).wf(),
            self.step(first).step(second) == self.step(first + second),
            self.scaled(first) + self.step(first).scaled(second) == self.scaled(first + second),
    {
        let d = self.denom as int;
        self.lemma_steps_are_ticks(first);
        let mid = self.step(first);
        let e1 = self.elements(first);
        let e2 = mid.elements(second);
        lemma_div_mod_split(e1, d);
        lemma_div_mod_split(e2, d);
        assert(self.elements(first + second) == (e1 / d + e2 / d) * d + e2 % d) by (nonlinear_arith)
            requires
                e1 == (e1 / d) * d + e1 % d,
                e2 == (e2 / d) * d + e2 % d,
                e1 == self.carried + first * self.nom,
                e2 == e1 % d + second * self.nom,
                self.elements(first + second) == self.carried + (first + second) * self.nom,
        ;
        lemma_div_mod_parts(self.elements(first + second), d, e1 / d + e2 / d, e2 % d);
    }

    /// A paused clock stands still: at a rate of zero no span moves it, and
    /// its state stays as it is.
    pub proof fn lemma_paused_stands_still(self, span: int)
        requires
            self.wf(),
            self.nom == 0,
        ensures
            self.scaled(span) == 0,
            self.step(span) == self,
    {
        assert(span * 0 == 0) by (nonlinear_arith);
        lemma_div_mod_parts(self.elements(span), self.denom as int, 0, self.carried as int);
    }

    /// At a rate of one the clock moves by the span that is fed in.
    pub proof fn lemma_rate_one_keeps_spans(self, span: int)
        requires
            self.wf(),
            self.nom == self.denom,
            span >= 0,
        ensures
            self.scaled(span) == span,
            self.step(span) == (RateView { now: (self.now + span) as nat, ..self }),
    {
        let d = self.denom as int;
        lemma_div_mod_parts(self.elements(span), d, span, self.carried as int);
    }

    /// The frequency of a ticker that this clock drives: `freq` multiplied by
    /// the rate, in lowest terms.
    pub open spec fn scaled_frequency(self, freq: FrequencyView) -> FrequencyView {
        FrequencyView::reduced(self.nom * freq.count, self.denom * freq.cycle)
    }

    /// A ticker that the clock drives ticks at the rate times the
    /// frequency: fed with `span` nanoseconds from its start, it fires
    /// `span * nom * count / (denom * cycle)` ticks, rounded down once.
    pub proof fn lemma_driven_ticker_counts(self, freq: FrequencyView, span: int)
        requires
            self.denom > 0,
            freq.cycle > 0,
            span >= 0,
        ensures
            ({
                let scaled = self.scaled_frequency(freq);
                let ticker = TickerView { freq: scaled, until_next: scaled.cycle, now: self.now };
                &&& ticker.wf()
                &&& ticker.tick_count(span) == (span * (self.nom * freq.count)) / ((self.denom
                    * freq.cycle) as int)
            }),
    {
        let count = self.nom * freq.count;
        let cycle = self.denom * freq.cycle;
        assert(cycle > 0) by (nonlinear_arith)
            requires
                cycle == self.denom * freq.cycle,
                self.denom > 0,
                freq.cycle > 0,
        ;
        let scaled = self.scaled_frequency(freq);
        let ticker = TickerView { freq: scaled, until_next: scaled.cycle, now: self.now };
        FrequencyView::lemma_reduced(count, cycle);
        ticker.lemma_fresh_ticker_counts_periods(span);
        let g = gcd_nat(count, cycle);
        lemma_gcd_positive(count, cycle);
        lemma_gcd_divides(count, cycle);
        lemma_div_mod_split(count as int, g as int);
        lemma_div_mod_split(cycle as int, g as int);
        let e = span * scaled.count;
        assert(e >= 0 && span * count == g * e && cycle == g * scaled.cycle) by (nonlinear_arith)
            requires
                count == scaled.count * g,
                cycle == scaled.cycle * g,
                e == span * scaled.count,
                span >= 0,
        ;
        lemma_div_multiples_vanish_quotient(g as int, e, scaled.cycle as int);
    }
}

/// Produces clock steps at a given rate from spans that are supplied from
/// outside, usually by a clock that measures real time.
pub struct ClockRate {
    now: TimeStamp,
    nom: u64,
    denom: u64,
    /// Elements left until the clock moves on by its next nanosecond.
    until_next: u64,
}

impl View for ClockRate {
    type V = RateView;

    closed spec fn view(&self) -> RateView {
        RateView {
            now: self.now@,
            nom: self.nom as nat,
            denom: self.denom as nat,
            carried: (self.denom - self.until_next) as nat,
        }
    }
}

impl Default for ClockRate {
    fn default() -> (clock: ClockRate)
        ensures
            clock@ == (RateView { now: 0, nom: 1, denom: 1, carried: 0 }),
    {
        ClockRate::new()
    }
}

impl ClockRate {
    /// The denominator is positive and the next nanosecond lies ahead, at
    /// most one whole nanosecond away.
    #[verifier::type_invariant]
    pub closed spec fn is_running(self) -> bool {
        0 < self.until_next <= self.denom
    }

    /// Whether `span` can be fed in: it is not negative, its elements fit 64
    /// bits, and the stamp it leads to exists.
    pub open spec fn can_step(self, span: TimeSpan) -> bool {
        &&& span@ >= 0
        &&& span@ * self@.nom <= u64::MAX
        &&& self@.now + self@.scaled(span@) <= MAX_ELAPSED_NANOS
    }

    /// Whether the rate multiplied by `freq` can be held as a frequency:
    /// after the common divisors across the two fractions are taken out,
    /// both products fit 64 bits.
    pub open spec fn can_scale(self, freq: Frequency) -> bool {
        let across = gcd_nat(self@.nom, freq@.cycle);
        let along = gcd_nat(freq@.count, self@.denom);
        &&& (self@.nom / across) * (freq@.count / along) <= u64::MAX
        &&& (self@.denom / along) * (freq@.cycle / across) <= u64::MAX
    }

    /// Returns a new clock at the reference point, with a rate of one.
    pub fn new() -> (clock: ClockRate)
        ensures
            clock@ == (RateView { now: 0, nom: 1, denom: 1, carried: 0 }),
            clock@.wf(),
    {
        ClockRate { now: TimeStamp::start(), nom: 1, denom: 1, until_next: 1 }
    }

    /// Sets the clock back to the reference point and drops what was
    /// carried over from earlier steps. The rate stays.
    pub fn reset(&mut self)
        ensures
            final(self)@ == (RateView { now: 0, carried: 0, ..old(self)@ }),
            final(self)@.wf(),
    {
        proof {
            use_type_invariant(&*self);
        }
        *self = ClockRate {
            now: TimeStamp::start(),
            nom: self.nom,
            denom: self.denom,
            until_next: self.denom,
        };
    }

    /// Sets the current time of the clock to the given stamp.
    pub fn set_now(&mut self, now: TimeStamp)
        ensures
            final(self)@ == (RateView { now: now@, ..old(self)@ }),
    {
        proof {
            use_type_invariant(&*self);
        }
        self.now = now;
    }

    /// Returns this clock with its current time set to the given stamp.
    pub fn with_now(self, now: TimeStamp) -> (clock: ClockRate)
        ensures
            clock@ == (RateView { now: now@, ..self@ }),
    {
        let mut clock = self;
        clock.set_now(now);
        clock
    }

    /// Returns the stamp that is "now" after the last step.
    pub fn now(&self) -> (now: TimeStamp)
        ensures
            now@ == self@.now,
    {
        self.now
    }

    /// Sets the rate to the ratio `nom / denom`.
    ///
    /// What was carried over from earlier steps stays and counts at the new
    /// rate from now on; it is cut down to just below one nanosecond of the
    /// clock if it was more.
    pub fn set_rate_ratio(&mut self, nom: u64, denom: u64)
        requires
            denom > 0,
        ensures
            final(self)@ == old(self)@.with_rate(nom as nat, denom as nat),
            final(self)@.wf(),
    {
        proof {
            use_type_invariant(&*self);
        }
        let carried: u64 = self.denom - self.until_next;
        let until_next: u64 = if carried < denom {
            denom - carried
        } else {
            1
        };
        *self = ClockRate { now: self.now, nom, denom, until_next };
    }

    /// Returns this clock with its rate set to the ratio `nom / denom`.
    pub fn with_rate_ratio(self, nom: u64, denom: u64) -> (clock: ClockRate)
        requires
            denom > 0,
        ensures
            clock@ == self@.with_rate(nom as nat, denom as nat),
            clock@.wf(),
    {
        let mut clock = self;
        clock.set_rate_ratio(nom, denom);
        clock
    }

    /// Returns the current rate as numerator and denominator. The
    /// denominator is never zero.
    pub fn rate_ratio(&self) -> (ratio: (u64, u64))
        ensures
            ratio.0 == self@.nom,
            ratio.1 == self@.denom,
            ratio.1 > 0,
    {
        proof {
            use_type_invariant(self);
        }
        (self.nom, self.denom)
    }

    /// Sets the rate to zero: the clock stands still until a rate is set
    /// again. Its time and what was carried over stay.
    pub fn pause(&mut self)
        ensures
            final(self)@ == (RateView { nom: 0, ..old(self)@ }),
            final(self)@.wf(),
    {
        proof {
            use_type_invariant(&*self);
        }
        self.nom = 0;
    }

    /// Advances the clock by `span` multiplied by the rate, and returns the
    /// new "now" together with the span by which the clock moved.
    ///
    /// The clock moves by whole nanoseconds. What `span` leaves of a
    /// nanosecond is carried over, so a step can move the clock by nothing
    /// at all and still count.
    pub fn step(&mut self, span: TimeSpan) -> (r: ClockStep)
        requires
            old(self).can_step(span),
        ensures
            final(self)@ == old(self)@.step(span@),
            final(self)@.wf(),
            r@ == (StepView { now: final(self)@.now, step: old(self)@.scaled(span@) }),
    {
        proof {
            use_type_invariant(&*self);
            self@.lemma_steps_are_ticks(span@);
        }
        let nanos: u64 = span.as_nanos() as u64;
        let nom_nanos: u64 = nanos * self.nom;
        if nom_nanos < self.until_next {
            self.until_next = self.until_next - nom_nanos;
            return ClockStep { now: self.now, step: TimeSpan::zero() };
        }
        let passed: u64 = nom_nanos - self.until_next;
        let whole: u64 = passed / self.denom;
        let left: u64 = passed % self.denom;
        proof {
            lemma_div_mod_split(passed as int, self.denom as int);
            assert(whole <= passed) by (nonlinear_arith)
                requires
                    passed == whole * self.denom + left,
                    self.denom > 0,
                    whole >= 0,
                    left >= 0,
            ;
        }
        let clock_nanos: u64 = 1 + whole;
        let clock_span = TimeSpan::new(clock_nanos as i64);
        let now = self.now + clock_span;
        *self = ClockRate { now, nom: self.nom, denom: self.denom, until_next: self.denom - left };
        ClockStep { now, step: clock_span }
    }

    /// Creates a ticker that this clock drives: it starts at the clock's
    /// "now", and its frequency is `freq` multiplied by the clock's rate, in
    /// lowest terms, so that spans can be fed to it as they are fed to the
    /// clock.
    pub fn ticker(&self, freq: Frequency) -> (t: FrequencyTicker)
        requires
            self.can_scale(freq),
        ensures
            t@.freq == self@.scaled_frequency(freq@),
            t@.until_next == t@.freq.cycle,
            t@.now == self@.now,
            t@.wf(),
    {
        proof {
            use_type_invariant(self);
        }
        let cycle: u64 = freq.cycle();
        let ticks: u64 = freq.count();
        let gcd1: u64 = gcd(self.nom, cycle);
        let gcd2: u64 = gcd(ticks, self.denom);
        proof {
            lemma_gcd_positive(self.nom as nat, cycle as nat);
            lemma_gcd_positive(ticks as nat, self.denom as nat);
            lemma_gcd_divides(self.nom as nat, cycle as nat);
            lemma_gcd_divides(ticks as nat, self.denom as nat);
        }
        let nom: u64 = self.nom / gcd1;
        let denom: u64 = self.denom / gcd2;
        let count: u64 = ticks / gcd2;
        let period: u64 = cycle / gcd1;
        let count: u64 = nom * count;
        let period: u64 = denom * period;
        proof {
            let g1 = gcd1 as int;
            let g2 = gcd2 as int;
            lemma_div_mod_split(self.nom as int, g1);
            lemma_div_mod_split(cycle as int, g1);
            lemma_div_mod_split(ticks as int, g2);
            lemma_div_mod_split(self.denom as int, g2);
            let k = g1 * g2;
            let a = self.nom as int / g1;
            let b = freq@.count as int / g2;
            let c = self.denom as int / g2;
            let d = cycle as int / g1;
            assert(k > 0 && period > 0 && self.nom * freq@.count == k * count && self.denom
                * cycle == k * period) by (nonlinear_arith)
                requires
                    self.nom == a * g1,
                    cycle == d * g1,
                    freq@.count == b * g2,
                    self.denom == c * g2,
                    count == a * b,
                    period == c * d,
                    k == g1 * g2,
                    g1 > 0,
                    g2 > 0,
                    self.denom > 0,
                    cycle > 0,
            ;
            FrequencyView::lemma_reduced_scaled(count as nat, period as nat, k as nat);
        }
        FrequencyTicker::new(Frequency::from_ratio(count, period), self.now)
    }
}

} // verus!
