//! Rational tick frequencies, and the ticker that turns elapsed spans into
//! exactly placed ticks.
//!
//! A frequency of `count` ticks per `cycle` nanoseconds is tracked in
//! *elements*: one nanosecond is `count` elements, and one tick period is
//! `cycle` elements. In this unit every tick falls on a whole number, so a
//! ticker carries no rounding error from one step to the next.

use crate::math::{
    ceil_div, div_ceil, gcd, gcd_nat, lemma_ceil_div_bounds, lemma_ceil_div_ordered,
    lemma_ceil_div_shift, lemma_ceil_div_unique, lemma_coprime_divides, lemma_div_mod_parts,
    lemma_div_mod_split, lemma_gcd_divides, lemma_gcd_positive, lemma_gcd_quotients_coprime,
    lemma_gcd_scales,
};
use crate::span::{NonZeroTimeSpan, TimeSpan};
use crate::stamp::{TimeStamp, MAX_ELAPSED_NANOS};
use crate::step::{ClockStep, StepView};
use vstd::arithmetic::div_mod::lemma_mod_multiples_basic;
use vstd::prelude::*;

verus! {

/// A frequency in plain numbers: `count` ticks every `cycle` nanoseconds.
pub ghost struct FrequencyView {
    /// Ticks per cycle.
    pub count: nat,
    /// Nanoseconds per cycle.
    pub cycle: nat,
}

impl FrequencyView {
    /// The ratio `count / cycle` in lowest terms.
    pub open spec fn reduced(count: nat, cycle: nat) -> FrequencyView {
        FrequencyView {
            count: count / gcd_nat(count, cycle),
            cycle: cycle / gcd_nat(count, cycle),
        }
    }

    /// Reducing a ratio with a positive cycle keeps its value and its
    /// positive cycle, and leaves count and cycle without a common divisor.
    pub proof fn lemma_reduced(count: nat, cycle: nat)
        requires
            cycle > 0,
        ensures
            ({
                let r = FrequencyView::reduced(count, cycle);
                &&& r.cycle > 0
                &&& gcd_nat(r.count, r.cycle) == 1
                &&& r.count * cycle == count * r.cycle
                &&& r.count <= count
                &&& r.cycle <= cycle
            }),
    {
        let g = gcd_nat(count, cycle);
        let r = FrequencyView::reduced(count, cycle);
        lemma_gcd_positive(count, cycle);
        lemma_gcd_divides(count, cycle);
        lemma_gcd_quotients_coprime(count, cycle);
        lemma_div_mod_split(count as int, g as int);
        lemma_div_mod_split(cycle as int, g as int);
        assert(r.cycle > 0 && r.count * cycle == count * r.cycle && r.count <= count && r.cycle
            <= cycle) by (nonlinear_arith)
            requires
                count == r.count * g,
                cycle == r.cycle * g,
                cycle > 0,
                g > 0,
        ;
    }

    /// A common factor of count and cycle does not change the reduced ratio.
    pub proof fn lemma_reduced_scaled(count: nat, cycle: nat, k: nat)
        requires
            cycle > 0,
            k > 0,
        ensures
            FrequencyView::reduced(k * count, k * cycle) == FrequencyView::reduced(count, cycle),
    {
        let g = gcd_nat(count, cycle);
        lemma_gcd_positive(count, cycle);
        lemma_gcd_scales(count, cycle, k);
        lemma_div_mod_split(count as int, g as int);
        lemma_div_mod_split(cycle as int, g as int);
        lemma_gcd_divides(count, cycle);
        let qa = count as int / g as int;
        let qb = cycle as int / g as int;
        let kg = (k * g) as int;
        assert(kg > 0 && k * count == qa * kg && k * cycle == qb * kg) by (nonlinear_arith)
            requires
                count == qa * g,
                cycle == qb * g,
                kg == k * g,
                k > 0,
                g > 0,
        ;
        lemma_div_mod_parts((k * count) as int, kg, qa, 0);
        lemma_div_mod_parts((k * cycle) as int, kg, qb, 0);
    }

    /// Lowest terms are a canonical form: ratios of the same value reduce to
    /// the same count and cycle.
    pub proof fn lemma_reduced_canonical(count: nat, cycle: nat, other_count: nat, other_cycle: nat)
        requires
            cycle > 0,
            other_cycle > 0,
            count * other_cycle == other_count * cycle,
        ensures
            FrequencyView::reduced(count, cycle) == FrequencyView::reduced(
                other_count,
                other_cycle,
            ),
    {
        let g = gcd_nat(count, cycle);
        let h = gcd_nat(other_count, other_cycle);
        let r = FrequencyView::reduced(count, cycle);
        let o = FrequencyView::reduced(other_count, other_cycle);
        FrequencyView::lemma_reduced(count, cycle);
        FrequencyView::lemma_reduced(other_count, other_cycle);
        lemma_gcd_positive(count, cycle);
        lemma_gcd_positive(other_count, other_cycle);
        lemma_gcd_divides(count, cycle);
        lemma_gcd_divides(other_count, other_cycle);
        lemma_div_mod_split(count as int, g as int);
        lemma_div_mod_split(cycle as int, g as int);
        lemma_div_mod_split(other_count as int, h as int);
        lemma_div_mod_split(other_cycle as int, h as int);
        assert(r.count * o.cycle == o.count * r.cycle) by (nonlinear_arith)
            requires
                count == r.count * g,
                cycle == r.cycle * g,
                other_count == o.count * h,
                other_cycle == o.cycle * h,
                count * other_cycle == other_count * cycle,
                g > 0,
                h > 0,
        ;
        lemma_mod_multiples_basic(o.count as int, r.cycle as int);
        lemma_coprime_divides(r.count, r.cycle, o.cycle);
        lemma_mod_multiples_basic(r.count as int, o.cycle as int);
        assert(o.count * r.cycle == r.cycle * o.count) by (nonlinear_arith);
        assert(r.count * o.cycle == o.cycle * r.count) by (nonlinear_arith);
        lemma_coprime_divides(o.count, o.cycle, r.cycle);
        lemma_div_mod_split(o.cycle as int, r.cycle as int);
        lemma_div_mod_split(r.cycle as int, o.cycle as int);
        let x = o.cycle as int / r.cycle as int;
        let y = r.cycle as int / o.cycle as int;
        assert(r.cycle == o.cycle && r.count == o.count) by (nonlinear_arith)
            requires
                o.cycle == x * r.cycle,
                r.cycle == y * o.cycle,
                r.cycle > 0,
                o.cycle > 0,
                r.count * o.cycle == o.count * r.cycle,
        ;
    }

    /// The elements in `nanos` nanoseconds.
    pub open spec fn elements(self, nanos: int) -> int {
        nanos * self.count
    }

    /// The whole tick periods in `nanos` nanoseconds: `nanos * count / cycle`
    /// rounded down.
    pub open spec fn periods_in_span(self, nanos: int) -> int {
        self.elements(nanos) / (self.cycle as int)
    }

    /// The nanoseconds it takes to cover `elements`, rounded up to a whole
    /// nanosecond. A frequency that never ticks covers no element at all: it
    /// fits zero elements in no time and any other number never.
    pub open spec fn span_fitting(self, elements: nat) -> Option<int> {
        if self.count == 0 {
            if elements == 0 {
                Some(0)
            } else {
                None
            }
        } else {
            Some(ceil_div(elements as int, self.count as int))
        }
    }
}

/// The state of a ticker in plain numbers.
pub ghost struct TickerView {
    /// The frequency of the ticks.
    pub freq: FrequencyView,
    /// Elements left until the next tick fires.
    pub until_next: nat,
    /// Nanoseconds from the reference point to the ticker's "now".
    pub now: nat,
}

/// `n` reports of a tick that fell on `now` together with an earlier one.
pub open spec fn repeated_ticks(n: nat, now: nat) -> Seq<StepView> {
    Seq::new(n, |i: int| StepView { now, step: 0 })
}

impl TickerView {
    /// A ticker has a positive cycle and its next tick lies ahead of it.
    pub open spec fn wf(self) -> bool {
        self.freq.cycle > 0 && self.until_next > 0
    }

    /// The number of ticks that fire while `elements` pass: none before
    /// `until_next` is used up, then one, and one more for each whole cycle
    /// after that.
    pub open spec fn ticks_in(self, elements: int) -> int {
        if elements < self.until_next {
            0
        } else {
            1 + (elements - self.until_next) / (self.freq.cycle as int)
        }
    }

    /// The elements left until the next tick once `elements` have passed.
    pub open spec fn until_next_after(self, elements: int) -> int {
        if elements < self.until_next {
            self.until_next - elements
        } else {
            self.freq.cycle - (elements - self.until_next) % (self.freq.cycle as int)
        }
    }

    /// The number of ticks that fire during a step of `step` nanoseconds.
    pub open spec fn tick_count(self, step: int) -> int {
        self.ticks_in(self.freq.elements(step))
    }

    /// The ticker after a step of `step` nanoseconds.
    pub open spec fn advance(self, step: int) -> TickerView {
        TickerView {
            freq: self.freq,
            until_next: self.until_next_after(self.freq.elements(step)) as nat,
            now: (self.now + step) as nat,
        }
    }

    /// The nanoseconds from "now" to tick number `k` (the next tick is number
    /// zero): the tick falls `until_next + k * cycle` elements ahead, and is
    /// reported at the first whole nanosecond that has reached it.
    pub open spec fn tick_offset(self, k: int) -> int {
        ceil_div(self.until_next + k * self.freq.cycle, self.freq.count as int)
    }

    /// The report of tick number `k`: the stamp it is reported at, and the
    /// span since the previous tick's report (since "now" for the first).
    pub open spec fn event(self, k: int) -> StepView {
        StepView {
            now: (self.now + self.tick_offset(k)) as nat,
            step: if k == 0 {
                self.tick_offset(0)
            } else {
                self.tick_offset(k) - self.tick_offset(k - 1)
            },
        }
    }

    /// The reports of all ticks that fire while `elements` pass, in order.
    pub open spec fn events_in(self, elements: int) -> Seq<StepView> {
        Seq::new(self.ticks_in(elements) as nat, |k: int| self.event(k))
    }

    /// The reports of all ticks that fire during a step of `step`
    /// nanoseconds, in order.
    pub open spec fn events(self, step: int) -> Seq<StepView> {
        self.events_in(self.freq.elements(step))
    }

    /// The stamp at which the next tick will be reported, if the frequency
    /// ticks at all.
    pub open spec fn next_tick(self) -> Option<int> {
        match self.freq.span_fitting(self.until_next) {
            Some(span) => Some(self.now + span),
            None => None,
        }
    }

    /// This ticker moved to the report of its next tick: "now" is that
    /// report's stamp and `until_next` counts from there.
    pub open spec fn at_first_tick(self) -> TickerView {
        let next = self.tick_offset(0);
        let past = next * self.freq.count - self.until_next;
        TickerView {
            freq: self.freq,
            until_next: (self.freq.cycle - past % (self.freq.cycle as int)) as nat,
            now: (self.now + next) as nat,
        }
    }

    /// The number of further ticks that share the first tick's nanosecond.
    pub open spec fn ticks_with_first(self) -> int {
        (self.tick_offset(0) * self.freq.count - self.until_next) / (self.freq.cycle as int)
    }

    /// `ticks_in` counts the ticks that lie within the elements: tick number
    /// `k` falls `until_next + k * cycle` elements ahead, and it is among the
    /// first `ticks_in(elements)` ticks exactly if that is no further than
    /// `elements`. What is left to wait afterwards is the way from there to
    /// the first tick that lies further.
    pub proof fn lemma_ticks_in_counts(self, elements: int, k: int)
        requires
            self.wf(),
            elements >= 0,
            k >= 0,
        ensures
            self.ticks_in(elements) >= 0,
            k < self.ticks_in(elements) <==> self.until_next + k * self.freq.cycle <= elements,
            self.until_next_after(elements) == self.until_next + self.ticks_in(elements)
                * self.freq.cycle - elements,
            0 < self.until_next_after(elements),
    {
        let c = self.freq.cycle as int;
        let u = self.until_next as int;
        if elements < u {
            assert(u + k * c >= u) by (nonlinear_arith)
                requires
                    k >= 0,
                    c > 0,
            ;
            assert(0 * c == 0) by (nonlinear_arith);
        } else {
            let q = (elements - u) / c;
            let r = (elements - u) % c;
            lemma_div_mod_split(elements - u, c);
            assert(q >= 0 && (k <= q <==> u + k * c <= elements) && u + (1 + q) * c - elements
                == c - r) by (nonlinear_arith)
                requires
                    elements - u == q * c + r,
                    0 <= r < c,
                    elements - u >= 0,
                    k >= 0,
            ;
        }
    }

    /// The ticks of two amounts of elements taken one after the other are the
    /// ticks of both amounts taken at once, and leave the same wait.
    pub proof fn lemma_elements_compose(self, first: int, second: int)
        requires
            self.wf(),
            first >= 0,
            second >= 0,
        ensures
            ({
                let mid = TickerView {
                    until_next: self.until_next_after(first) as nat,
                    ..self
                };
                &&& mid.wf()
                &&& mid.until_next == self.until_next_after(first)
                &&& self.ticks_in(first) + mid.ticks_in(second) == self.ticks_in(first + second)
                &&& mid.until_next_after(second) == self.until_next_after(first + second)
            }),
    {
        let c = self.freq.cycle as int;
        let u = self.until_next as int;
        let mid = TickerView { until_next: self.until_next_after(first) as nat, ..self };
        if first < u {
            let u1 = u - first;
            assert(mid.until_next == u1);
            if first + second >= u {
                assert(second - u1 == first + second - u);
            }
        } else {
            let d1 = first - u;
            let q1 = d1 / c;
            let r1 = d1 % c;
            lemma_div_mod_split(d1, c);
            let u1 = c - r1;
            assert(mid.until_next == u1);
            if second < u1 {
                lemma_div_mod_parts(d1 + second, c, q1, r1 + second);
                assert(first + second - u == d1 + second);
            } else {
                let d2 = second - u1;
                let q2 = d2 / c;
                let r2 = d2 % c;
                lemma_div_mod_split(d2, c);
                assert(d1 + second == (q1 + q2 + 1) * c + r2) by (nonlinear_arith)
                    requires
                        d1 == q1 * c + r1,
                        d2 == q2 * c + r2,
                        d2 == second - (c - r1),
                ;
                lemma_div_mod_parts(d1 + second, c, q1 + q2 + 1, r2);
                assert(first + second - u == d1 + second);
            }
        }
    }

    /// The first tick is reported within the elements that pass, and the
    /// ticks that follow it are those of the ticker moved to that report:
    /// first the ticks that fall into the same nanosecond, then the rest.
    pub proof fn lemma_events_unfold(self, elements: int)
        requires
            self.wf(),
            self.freq.count > 0,
            elements >= self.until_next,
            elements % (self.freq.count as int) == 0,
        ensures
            ({
                let next = self.tick_offset(0);
                let moved = self.at_first_tick();
                let rest = elements - next * self.freq.count;
                &&& 0 < next
                &&& self.until_next <= next * self.freq.count <= elements
                &&& next <= elements / (self.freq.count as int)
                &&& rest % (self.freq.count as int) == 0
                &&& rest / (self.freq.count as int) == elements / (self.freq.count as int) - next
                &&& moved.wf()
                &&& moved.until_next <= self.freq.cycle
                &&& 0 <= self.ticks_with_first()
                &&& self.ticks_in(elements) == 1 + self.ticks_with_first() + moved.ticks_in(rest)
                &&& self.events_in(elements) =~= seq![StepView { now: moved.now, step: next }]
                    + repeated_ticks(self.ticks_with_first() as nat, moved.now) + moved.events_in(
                    rest,
                )
            }),
    {
        let c = self.freq.cycle as int;
        let n = self.freq.count as int;
        let u = self.until_next as int;
        let next = self.tick_offset(0);
        let moved = self.at_first_tick();
        let adv = next * n;
        let rest = elements - adv;
        let m = elements / n;
        assert(u + 0 * c == u) by (nonlinear_arith);
        lemma_ceil_div_bounds(u, n);
        lemma_div_mod_split(elements, n);
        assert(next <= m && 0 < next) by (nonlinear_arith)
            requires
                (next - 1) * n < u <= next * n,
                u <= elements,
                elements == m * n,
                n > 0,
                u > 0,
        ;
        assert(adv <= elements && rest == (m - next) * n) by (nonlinear_arith)
            requires
                next <= m,
                elements == m * n,
                adv == next * n,
                rest == elements - adv,
                n > 0,
        ;
        lemma_div_mod_parts(rest, n, m - next, 0);
        let past = adv - u;
        let p = past / c;
        let r = past % c;
        lemma_div_mod_split(past, c);
        assert(p >= 0) by (nonlinear_arith)
            requires
                past == p * c + r,
                past >= 0,
                r < c,
                c > 0,
        ;
        assert(p == self.ticks_with_first());
        assert(moved.until_next == c - r);
        // The count of ticks.
        let back = TickerView { until_next: self.until_next_after(adv) as nat, ..self };
        self.lemma_elements_compose(adv, rest);
        assert(back.until_next == moved.until_next);
        assert(back.ticks_in(rest) == moved.ticks_in(rest));
        assert(self.ticks_in(adv) == 1 + p);
        // The reports, one by one.
        let whole = self.events_in(elements);
        let parts = seq![StepView { now: moved.now, step: next }] + repeated_ticks(
            p as nat,
            moved.now,
        ) + moved.events_in(rest);
        assert(whole.len() == parts.len());
        assert forall|k: int| 0 <= k < whole.len() implies whole[k] == parts[k] by {
            if k <= p {
                self.lemma_offset_within_first(k);
                if k > 0 {
                    self.lemma_offset_within_first(k - 1);
                }
            } else {
                let j = k - p - 1;
                self.lemma_offset_after_first(j);
                if j > 0 {
                    self.lemma_offset_after_first(j - 1);
                } else {
                    self.lemma_offset_within_first(p);
                }
                assert(parts[k] == moved.events_in(rest)[j]);
                assert(p + 1 + j == k);
            }
        }
    }

    /// Every tick up to the last one that shares the first tick's nanosecond
    /// is reported with the first.
    proof fn lemma_offset_within_first(self, k: int)
        requires
            self.wf(),
            self.freq.count > 0,
            0 <= k <= self.ticks_with_first(),
        ensures
            self.tick_offset(k) == self.tick_offset(0),
    {
        let c = self.freq.cycle as int;
        let n = self.freq.count as int;
        let u = self.until_next as int;
        let next = self.tick_offset(0);
        assert(u + 0 * c == u) by (nonlinear_arith);
        lemma_ceil_div_bounds(u, n);
        let past = next * n - u;
        let p = past / c;
        lemma_div_mod_split(past, c);
        assert((next - 1) * n < u + k * c <= next * n) by (nonlinear_arith)
            requires
                (next - 1) * n < u <= next * n,
                past == next * n - u,
                past == p * c + past % c,
                0 <= past % c,
                0 <= k <= p,
                c > 0,
        ;
        lemma_ceil_div_unique(u + k * c, n, next);
    }

    /// Tick `j` of the ticker moved to the first report is tick `j` after the
    /// ticks that share the first report, and is reported at the same
    /// time.
    proof fn lemma_offset_after_first(self, j: int)
        requires
            self.wf(),
            self.freq.count > 0,
            0 <= j,
        ensures
            self.tick_offset(self.ticks_with_first() + 1 + j) == self.tick_offset(0)
                + self.at_first_tick().tick_offset(j),
    {
        let c = self.freq.cycle as int;
        let n = self.freq.count as int;
        let u = self.until_next as int;
        let next = self.tick_offset(0);
        let moved = self.at_first_tick();
        let past = next * n - u;
        let p = past / c;
        let r = past % c;
        lemma_div_mod_split(past, c);
        assert(moved.until_next == c - r);
        let a = moved.until_next + j * c;
        assert(u + (p + 1 + j) * c == a + next * n) by (nonlinear_arith)
            requires
                past == next * n - u,
                past == p * c + r,
                a == (c - r) + j * c,
        ;
        lemma_ceil_div_shift(a, n, next);
    }

    /// Counting the ticks of a step in closed form gives the number of
    /// reports that the step hands out one by one.
    pub proof fn lemma_tick_count_counts_events(self, step: int)
        requires
            self.wf(),
        ensures
            self.tick_count(step) >= 0,
            self.events(step).len() == self.tick_count(step),
    {
        let c = self.freq.cycle as int;
        let e = self.freq.elements(step);
        if e >= self.until_next {
            lemma_div_mod_split(e - self.until_next, c);
            assert((e - self.until_next) / c >= 0) by (nonlinear_arith)
                requires
                    e - self.until_next == ((e - self.until_next) / c) * c + (e - self.until_next)
                        % c,
                    (e - self.until_next) % c < c,
                    e - self.until_next >= 0,
                    c > 0,
            ;
        }
    }

    /// The ticks of a step are reported in order: each after the start of
    /// the step and not before the tick before it, none later than the end
    /// of the step, and each with the span since the report before it.
    pub proof fn lemma_events_in_order(self, step: int, k: int)
        requires
            self.wf(),
            0 <= k < self.tick_count(step),
        ensures
            self.now < self.events(step)[k].now <= self.now + step,
            self.events(step)[k].step >= 0,
            self.events(step)[k].now - self.events(step)[k].step == if k == 0 {
                self.now as int
            } else {
                self.events(step)[k - 1].now as int
            },
    {
        let c = self.freq.cycle as int;
        let n = self.freq.count as int;
        let u = self.until_next as int;
        let e = self.freq.elements(step);
        if n == 0 {
            assert(step * 0 == 0) by (nonlinear_arith);
        }
        lemma_div_mod_split(e - u, c);
        let q = (e - u) / c;
        assert(0 < u + k * c <= e && u + (k - 1) * c <= u + k * c && (k > 0 ==> 0 < u + (k - 1)
            * c)) by (nonlinear_arith)
            requires
                e - u == q * c + (e - u) % c,
                0 <= (e - u) % c,
                0 <= k <= q,
                c > 0,
                u > 0,
        ;
        lemma_ceil_div_bounds(u + k * c, n);
        let at = self.tick_offset(k);
        assert(0 < at <= step) by (nonlinear_arith)
            requires
                (at - 1) * n < u + k * c <= at * n,
                0 < u + k * c <= step * n,
                n > 0,
        ;
        if k > 0 {
            lemma_ceil_div_ordered(u + (k - 1) * c, u + k * c, n);
            lemma_ceil_div_bounds(u + (k - 1) * c, n);
            let before = self.tick_offset(k - 1);
            assert(0 < before) by (nonlinear_arith)
                requires
                    0 < u + (k - 1) * c <= before * n,
                    n > 0,
            ;
        } else {
            assert(u + 0 * c == u) by (nonlinear_arith);
        }
    }

    /// A frequency with a count of zero never ticks: no step fires a tick,
    /// and no next tick is due.
    pub proof fn lemma_zero_count_never_ticks(self, step: int)
        requires
            self.wf(),
            self.freq.count == 0,
        ensures
            self.tick_count(step) == 0,
            self.events(step).len() == 0,
            self.next_tick() is None,
            self.advance(step).until_next == self.until_next,
    {
        assert(step * 0 == 0) by (nonlinear_arith);
    }

    /// The first tick of a step fires at the stamp that `next_tick` named
    /// before the step.
    pub proof fn lemma_next_tick_is_first_event(self, step: int)
        requires
            self.wf(),
            self.tick_count(step) > 0,
        ensures
            self.events(step).len() > 0,
            self.next_tick() == Some(self.events(step)[0].now as int),
            self.events(step)[0].now <= self.now + step,
    {
        let n = self.freq.count as int;
        let u = self.until_next as int;
        let e = self.freq.elements(step);
        self.lemma_tick_count_counts_events(step);
        if n == 0 {
            assert(step * 0 == 0) by (nonlinear_arith);
        }
        assert(u + 0 * self.freq.cycle == u) by (nonlinear_arith);
        lemma_ceil_div_bounds(u, n);
        let next = ceil_div(u, n);
        assert(0 < next <= step) by (nonlinear_arith)
            requires
                (next - 1) * n < u <= next * n,
                u <= step * n,
                u > 0,
                n > 0,
        ;
    }

    /// A step that fires no tick leaves the stamp of the next tick where it
    /// was.
    pub proof fn lemma_next_tick_stable(self, step: int)
        requires
            self.wf(),
            step >= 0,
            self.tick_count(step) == 0,
        ensures
            self.advance(step).next_tick() == self.next_tick(),
    {
        let n = self.freq.count as int;
        let u = self.until_next as int;
        if n == 0 {
            assert(step * 0 == 0) by (nonlinear_arith);
        } else {
            let e = self.freq.elements(step);
            assert(e < u);
            lemma_ceil_div_shift(u, n, -step);
            assert(u + (-step) * n == u - e) by (nonlinear_arith)
                requires
                    e == step * n,
            ;
        }
    }

    /// A ticker that waits no longer than one period repeats itself every
    /// cycle: a step of one whole cycle fires `count` ticks and leaves the
    /// wait for the next tick unchanged, so the same steps fire the same
    /// ticks in every cycle.
    pub proof fn lemma_whole_cycle_repeats(self)
        requires
            self.wf(),
            self.until_next <= self.freq.cycle,
        ensures
            self.tick_count(self.freq.cycle as int) == self.freq.count,
            self.advance(self.freq.cycle as int) == (TickerView {
                now: self.now + self.freq.cycle,
                ..self
            }),
    {
        let c = self.freq.cycle as int;
        let n = self.freq.count as int;
        let u = self.until_next as int;
        let e = self.freq.elements(c);
        if n == 0 {
            assert(c * 0 == 0) by (nonlinear_arith);
        } else {
            assert(e - u == (n - 1) * c + (c - u) && e >= u) by (nonlinear_arith)
                requires
                    e == c * n,
                    n >= 1,
                    0 < u <= c,
            ;
            lemma_div_mod_parts(e - u, c, n - 1, c - u);
        }
    }

    /// The pattern of ticks repeats with the cycle: after any number of whole
    /// cycles and `offset` nanoseconds more, a ticker that waited no longer
    /// than one period at first waits as long, and fires as many ticks in
    /// the next step, as after the `offset` nanoseconds alone.
    pub proof fn lemma_pattern_repeats(self, cycles: nat, offset: int, step: int)
        requires
            self.wf(),
            self.until_next <= self.freq.cycle,
            offset >= 0,
        ensures
            self.advance(cycles * self.freq.cycle + offset).until_next == self.advance(
                offset,
            ).until_next,
            self.advance(cycles * self.freq.cycle + offset).tick_count(step) == self.advance(
                offset,
            ).tick_count(step),
            self.tick_count(cycles * self.freq.cycle + offset) == cycles * self.freq.count
                + self.tick_count(offset),
        decreases cycles,
    {
        let c = self.freq.cycle as int;
        if cycles == 0 {
            assert(0 * c + offset == offset && 0 * self.freq.count == 0) by (nonlinear_arith);
        } else {
            let rest = (cycles - 1) * c + offset;
            assert(cycles * c + offset == c + rest && rest >= 0 && cycles * self.freq.count
                == self.freq.count + (cycles - 1) * self.freq.count) by (nonlinear_arith)
                requires
                    rest == (cycles - 1) * c + offset,
                    offset >= 0,
                    c > 0,
                    cycles >= 1,
            ;
            self.lemma_whole_cycle_repeats();
            self.lemma_advance_composes(c, rest);
            let shifted = self.advance(c);
            shifted.lemma_pattern_repeats((cycles - 1) as nat, offset, step);
            assert(shifted.advance(offset).until_next == self.advance(offset).until_next);
            assert(shifted.tick_count(rest) == self.advance(c).tick_count(rest));
            assert(shifted.tick_count(offset) == self.tick_count(offset));
        }
    }

    /// A ticker that has a full period ahead of it fires, in any step, the
    /// number of whole periods that the step holds: `step * count / cycle`
    /// rounded down.
    pub proof fn lemma_fresh_ticker_counts_periods(self, step: int)
        requires
            self.wf(),
            step >= 0,
            self.until_next == self.freq.cycle,
        ensures
            self.tick_count(step) == self.freq.periods_in_span(step),
    {
        let c = self.freq.cycle as int;
        let e = self.freq.elements(step);
        assert(e >= 0) by (nonlinear_arith)
            requires
                e == step * self.freq.count,
                step >= 0,
        ;
        lemma_div_mod_split(e, c);
        let q = e / c;
        let r = e % c;
        if e < c {
            lemma_div_mod_parts(e, c, 0, e);
        } else {
            assert(e - c == (q - 1) * c + r) by (nonlinear_arith)
                requires
                    e == q * c + r,
            ;
            lemma_div_mod_parts(e - c, c, q - 1, r);
        }
    }

    /// Steps taken one after the other fire the ticks of one step of their
    /// total length, and leave the ticker in the same state.
    pub proof fn lemma_advance_composes(self, first: int, second: int)
        requires
            self.wf(),
            first >= 0,
            second >= 0,
        ensures
            self.advance(first).wf(),
            self.advance(first).advance(second) == self.advance(first + second),
            self.tick_count(first) + self.advance(first).tick_count(second) == self.tick_count(
                first + second,
            ),
    {
        let n = self.freq.count as int;
        let e1 = self.freq.elements(first);
        let e2 = self.freq.elements(second);
        assert(e1 >= 0 && e2 >= 0 && self.freq.elements(first + second) == e1 + e2)
            by (nonlinear_arith)
            requires
                e1 == first * n,
                e2 == second * n,
                self.freq.elements(first + second) == (first + second) * n,
                first >= 0,
                second >= 0,
                n >= 0,
        ;
        self.lemma_elements_compose(e1, e2);
        let mid = TickerView { until_next: self.until_next_after(e1) as nat, ..self };
        let stepped = self.advance(first);
        assert(stepped.until_next == mid.until_next);
        assert(stepped.ticks_in(e2) == mid.ticks_in(e2));
        assert(stepped.until_next_after(e2) == mid.until_next_after(e2));
    }
}

/// A frequency as a rational number: `count` ticks every `cycle`
/// nanoseconds, always in lowest terms.
///
/// A frequency with a count of zero never ticks.
#[derive(Clone, Copy, Debug, PartialEq, Eq, Structural, Hash)]
pub struct Frequency {
    count: u64,
    cycle: u64,
}

impl View for Frequency {
    type V = FrequencyView;

    closed spec fn view(&self) -> FrequencyView {
        FrequencyView { count: self.count as nat, cycle: self.cycle as nat }
    }
}

/// A number of elements: nanoseconds multiplied by a frequency's count.
#[derive(Clone, Copy)]
struct Elements(u64);

impl Frequency {
    /// The cycle is positive and shares no divisor with the count.
    #[verifier::type_invariant]
    pub closed spec fn is_reduced(self) -> bool {
        self.cycle > 0 && gcd_nat(self.count as nat, self.cycle as nat) == 1
    }

    /// A frequency is its count and cycle, both of which fit 64 bits.
    pub proof fn lemma_view(self, other: Frequency)
        ensures
            self@ == other@ <==> self == other,
            self@.count <= u64::MAX,
            self@.cycle <= u64::MAX,
            self.is_reduced() <==> self@.cycle > 0 && gcd_nat(self@.count, self@.cycle) == 1,
    {
    }

    /// Creates the frequency of `count` ticks per `cycle`, in lowest terms.
    /// Returns `None` if `cycle` is not longer than zero.
    pub fn try_new(count: u64, cycle: TimeSpan) -> (r: Option<Frequency>)
        ensures
            cycle@ > 0 ==> (r matches Some(f) && f@ == FrequencyView::reduced(
                count as nat,
                cycle@ as nat,
            ) && f.is_reduced()),
            cycle@ <= 0 ==> r is None,
    {
        match NonZeroTimeSpan::new(cycle) {
            Some(cycle) => Some(Frequency::new(count, cycle)),
            None => None,
        }
    }

    /// Creates the frequency of `count` ticks per `cycle`, in lowest terms.
    pub fn new(count: u64, cycle: NonZeroTimeSpan) -> (f: Frequency)
        ensures
            f@ == FrequencyView::reduced(count as nat, cycle@ as nat),
            gcd_nat(f@.count, f@.cycle) == 1,
            f@.cycle > 0,
            f.is_reduced(),
    {
        Frequency::from_ratio(count, cycle.as_nanos())
    }

    /// Creates the frequency of `count` ticks per `cycle` nanoseconds, in
    /// lowest terms. Returns `None` if `cycle` is zero.
    pub fn try_from_ratio(count: u64, cycle: u64) -> (r: Option<Frequency>)
        ensures
            cycle > 0 ==> (r matches Some(f) && f@ == FrequencyView::reduced(
                count as nat,
                cycle as nat,
            ) && f.is_reduced()),
            cycle == 0 ==> r is None,
    {
        if cycle == 0 {
            None
        } else {
            Some(Frequency::from_ratio(count, cycle))
        }
    }

    /// Creates the frequency of `count` ticks per `cycle` nanoseconds, in
    /// lowest terms.
    pub(crate) fn from_ratio(count: u64, cycle: u64) -> (f: Frequency)
        requires
            cycle > 0,
        ensures
            f@ == FrequencyView::reduced(count as nat, cycle as nat),
            gcd_nat(f@.count, f@.cycle) == 1,
            f@.cycle > 0,
            f.is_reduced(),
    {
        let g: u64 = gcd(count, cycle);
        proof {
            lemma_gcd_positive(count as nat, cycle as nat);
            FrequencyView::lemma_reduced(count as nat, cycle as nat);
        }
        Frequency { count: count / g, cycle: cycle / g }
    }

    /// Creates a frequency from a number of Hertz.
    pub fn from_hz(value: u64) -> (f: Frequency)
        ensures
            f@ == FrequencyView::reduced(value as nat, 1_000_000_000),
            f.is_reduced(),
    {
        Frequency::new(value, NonZeroTimeSpan::second())
    }

    /// Creates a frequency from a number of kilohertz.
    pub fn from_khz(value: u64) -> (f: Frequency)
        ensures
            f@ == FrequencyView::reduced(value as nat, 1_000_000),
            f.is_reduced(),
    {
        Frequency::new(value, NonZeroTimeSpan::millisecond())
    }

    /// Creates a frequency from a number of megahertz.
    pub fn from_mhz(value: u64) -> (f: Frequency)
        ensures
            f@ == FrequencyView::reduced(value as nat, 1_000),
            f.is_reduced(),
    {
        Frequency::new(value, NonZeroTimeSpan::microsecond())
    }

    /// Creates a frequency from a number of gigahertz.
    pub fn from_ghz(value: u64) -> (f: Frequency)
        ensures
            f@ == FrequencyView::reduced(value as nat, 1),
            f.is_reduced(),
    {
        Frequency::new(value, NonZeroTimeSpan::nanosecond())
    }

    /// Returns the number of ticks per cycle.
    pub fn count(&self) -> (n: u64)
        ensures
            n == self@.count,
    {
        self.count
    }

    /// Returns the number of nanoseconds per cycle, which is never zero.
    pub fn cycle(&self) -> (n: u64)
        ensures
            n == self@.cycle,
            n > 0,
    {
        proof {
            use_type_invariant(self);
        }
        self.cycle
    }

    /// Returns the number of elements in the given span.
    fn elements(&self, span: TimeSpan) -> (e: Elements)
        requires
            span@ >= 0,
            self@.elements(span@) <= u64::MAX,
        ensures
            e.0 == self@.elements(span@),
    {
        Elements(span.as_nanos() as u64 * self.count)
    }

    /// Returns the number of whole tick periods in the given span:
    /// `span * count / cycle`, rounded down.
    pub fn periods_in_span(&self, span: TimeSpan) -> (n: u64)
        requires
            span@ >= 0,
            self@.elements(span@) <= u64::MAX,
        ensures
            n == self@.periods_in_span(span@),
    {
        self.periods_in_elements(self.elements(span)).0
    }

    /// Returns the elements of a single period.
    fn period_elements(&self) -> (e: Elements)
        ensures
            e.0 == self@.cycle,
            e.0 > 0,
    {
        proof {
            use_type_invariant(self);
        }
        Elements(self.cycle)
    }

    /// Returns the elements of the given number of periods.
    fn periods_elements(&self, count: u64) -> (e: Elements)
        requires
            self@.cycle * count <= u64::MAX,
        ensures
            e.0 == self@.cycle * count,
    {
        Elements(self.cycle * count)
    }

    /// Returns the number of periods that fit in the given elements, and the
    /// elements that remain.
    fn periods_in_elements(&self, span: Elements) -> (r: (u64, Elements))
        ensures
            r.0 == span.0 as int / self@.cycle as int,
            r.1.0 == span.0 as int % self@.cycle as int,
    {
        proof {
            use_type_invariant(self);
        }
        let periods: u64 = span.0 / self.cycle;
        let remaining = Elements(span.0 % self.cycle);
        (periods, remaining)
    }

    /// Returns the elements until the next tick when the last one fired
    /// `span` elements ago.
    fn until_next(&self, span: Elements) -> (e: Elements)
        ensures
            e.0 == self@.cycle - span.0 as int % self@.cycle as int,
            0 < e.0 <= self@.cycle,
    {
        proof {
            use_type_invariant(self);
        }
        Elements(self.cycle - span.0 % self.cycle)
    }

    /// Returns the span that contains the given number of elements, rounded
    /// up to a whole nanosecond, if there is one.
    fn span_fitting_elements(&self, span: Elements) -> (r: Option<TimeSpan>)
        requires
            self@.span_fitting(span.0 as nat) matches Some(nanos) ==> nanos <= i64::MAX,
        ensures
            match self@.span_fitting(span.0 as nat) {
                Some(nanos) => r matches Some(s) && s@ == nanos,
                None => r is None,
            },
    {
        if self.count == 0 {
            if span.0 == 0 {
                Some(TimeSpan::zero())
            } else {
                None
            }
        } else {
            Some(TimeSpan::new(div_ceil(span.0, self.count) as i64))
        }
    }

    /// Returns a new ticker with this frequency and the given start stamp.
    pub fn ticker(&self, start: TimeStamp) -> (t: FrequencyTicker)
        ensures
            t@ == (TickerView { freq: self@, until_next: self@.cycle, now: start@ }),
            t@.wf(),
    {
        FrequencyTicker::new(*self, start)
    }
}

/// Ticker with a given frequency.
///
/// Each step hands out the ticks that fired during it, exactly at the
/// frequency: what is left of a period at the end of a step is carried into
/// the next one.
pub struct FrequencyTicker {
    freq: Frequency,
    /// Number of elements until the next tick.
    until_next: Elements,
    /// The stamp the ticker has been advanced to.
    now: TimeStamp,
}

impl View for FrequencyTicker {
    type V = TickerView;

    closed spec fn view(&self) -> TickerView {
        TickerView { freq: self.freq@, until_next: self.until_next.0 as nat, now: self.now@ }
    }
}

impl FrequencyTicker {
    /// The next tick lies ahead of the ticker.
    #[verifier::type_invariant]
    pub closed spec fn is_waiting(self) -> bool {
        self.until_next.0 > 0
    }

    /// Whether the ticker can take a step of `step`: the span is not
    /// negative, its elements fit 64 bits, and the stamp it leads to exists.
    pub open spec fn can_step(self, step: TimeSpan) -> bool {
        &&& step@ >= 0
        &&& self@.freq.elements(step@) <= u64::MAX
        &&& self@.now + step@ <= MAX_ELAPSED_NANOS
    }

    /// Creates a new ticker with the given frequency and start stamp. Its
    /// first tick fires one full period after the start.
    pub fn new(freq: Frequency, now: TimeStamp) -> (t: FrequencyTicker)
        ensures
            t@ == (TickerView { freq: freq@, until_next: freq@.cycle, now: now@ }),
            t@.wf(),
    {
        proof {
            assert(freq@.cycle * 1 == freq@.cycle) by (nonlinear_arith);
            freq.lemma_view(freq);
        }
        FrequencyTicker::with_delay(freq, 0, now)
    }

    /// Creates a new ticker with the given frequency whose first tick is
    /// delayed by `periods` whole tick periods: it fires `1 + periods`
    /// periods after the start.
    pub fn with_delay(freq: Frequency, periods: u64, now: TimeStamp) -> (t: FrequencyTicker)
        requires
            freq@.cycle * (1 + periods) <= u64::MAX,
        ensures
            t@ == (TickerView {
                freq: freq@,
                until_next: freq@.cycle * (1 + periods) as nat,
                now: now@,
            }),
            t@.wf(),
    {
        proof {
            use_type_invariant(&freq);
            assert(freq@.cycle * (1 + periods) >= freq@.cycle >= 1 && 1 + periods <= u64::MAX)
                by (nonlinear_arith)
                requires
                    freq@.cycle >= 1,
                    periods >= 0,
                    freq@.cycle * (1 + periods) <= u64::MAX,
            ;
        }
        FrequencyTicker { freq, until_next: freq.periods_elements(1 + periods), now }
    }

    /// Returns the stamp at which the next tick will fire, or `None` if the
    /// frequency never ticks.
    pub fn next_tick(&self) -> (r: Option<TimeStamp>)
        requires
            self@.next_tick() matches Some(stamp) ==> stamp <= MAX_ELAPSED_NANOS,
        ensures
            match self@.next_tick() {
                Some(stamp) => r matches Some(t) && t@ == stamp,
                None => r is None,
            },
            r is None <==> self@.freq.count == 0,
    {
        proof {
            use_type_invariant(self);
        }
        match self.freq.span_fitting_elements(self.until_next) {
            Some(span) => {
                proof {
                    lemma_ceil_div_bounds(self.until_next.0 as int, self.freq.count as int);
                    assert(span@ >= 0) by (nonlinear_arith)
                        requires
                            span@ * self.freq.count >= self.until_next.0,
                            self.freq.count > 0,
                            self.until_next.0 > 0,
                    ;
                }
                Some(self.now + span)
            },
            None => None,
        }
    }

    /// Advances the ticker by `step` and returns the ticks that fired during
    /// the step, in order, ready to be taken one by one.
    pub fn ticks(&mut self, step: TimeSpan) -> (iter: FrequencyTickerIter)
        requires
            old(self).can_step(step),
        ensures
            final(self)@ == old(self)@.advance(step@),
            final(self)@.wf(),
            iter@ == old(self)@.events(step@),
    {
        proof {
            use_type_invariant(&*self);
            use_type_invariant(&self.freq);
        }
        let span = self.freq.elements(step);
        proof {
            let n = self.freq.count as int;
            if n == 0 {
                assert(step@ * n == 0) by (nonlinear_arith)
                    requires
                        n == 0,
                ;
            } else {
                lemma_div_mod_parts(span.0 as int, n, step@, 0);
            }
        }
        let iter = FrequencyTickerIter {
            span,
            freq: self.freq,
            until_next: self.until_next,
            accumulated: 0,
            now: self.now,
        };
        assert(iter@ =~= old(self)@.events(step@));
        if span.0 >= self.until_next.0 {
            self.until_next = self.freq.until_next(Elements(span.0 - self.until_next.0));
        } else {
            self.until_next = Elements(self.until_next.0 - span.0);
        }
        self.now = self.now + step;
        iter
    }

    /// Advances the ticker by `step` and returns the number of ticks that
    /// fired during the step.
    pub fn tick_count(&mut self, step: TimeSpan) -> (n: u64)
        requires
            old(self).can_step(step),
        ensures
            final(self)@ == old(self)@.advance(step@),
            final(self)@.wf(),
            n == old(self)@.tick_count(step@),
    {
        self.ticks(step).ticks()
    }

    /// Advances the ticker by `step` and calls `f` with each tick that fired
    /// during the step, in order.
    pub fn with_ticks<F: FnMut(ClockStep)>(&mut self, step: TimeSpan, f: F)
        requires
            old(self).can_step(step),
            forall|tick: ClockStep| f.requires((tick,)),
        ensures
            final(self)@ == old(self)@.advance(step@),
            final(self)@.wf(),
            forall|tick: ClockStep|
                old(self)@.events(step@).contains(tick@) ==> #[trigger] f.ensures((tick,), ()),
    {
        let ghost events = self@.events(step@);
        let mut call = f;
        let mut iter = self.ticks(step);
        let ghost mut done: int = 0;
        loop
            invariant
                call == f,
                forall|tick: ClockStep| f.requires((tick,)),
                self@ == old(self)@.advance(step@),
                self@.wf(),
                events == old(self)@.events(step@),
                0 <= done <= events.len(),
                iter@ == events.skip(done),
                forall|tick: ClockStep|
                    events.subrange(0, done).contains(tick@) ==> #[trigger] f.ensures(
                        (tick,),
                        (),
                    ),
            decreases iter@.len(),
        {
            match iter.next() {
                Some(tick) => {
                    call(tick);
                    proof {
                        assert(tick@ == events[done]);
                        assert(events.skip(done).skip(1) =~= events.skip(done + 1));
                        assert forall|other: ClockStep|
                            events.subrange(0, done + 1).contains(
                                other@,
                            ) implies #[trigger] f.ensures((other,), ()) by {
                            let taken = events.subrange(0, done + 1);
                            let k = choose|k: int| 0 <= k < taken.len() && taken[k] == other@;
                            if k < done {
                                assert(events.subrange(0, done)[k] == other@);
                            } else {
                                other.now.lemma_view(tick.now);
                                other.step.lemma_view(tick.step);
                            }
                        }
                        done = done + 1;
                    }
                },
                None => {
                    assert(events.skip(done).len() == events.len() - done);
                    assert(events.subrange(0, done) =~= events);
                    return ;
                },
            }
        }
    }

    /// Returns the frequency of the ticker.
    pub fn frequency(&self) -> (f: Frequency)
        ensures
            f@ == self@.freq,
    {
        self.freq
    }

    /// Returns the stamp the ticker has been advanced to.
    pub fn now(&self) -> (t: TimeStamp)
        ensures
            t@ == self@.now,
    {
        self.now
    }

    /// Sets a new frequency for the ticker.
    ///
    /// The elements left until the next tick stay as they are and are from
    /// now on counted at the new frequency. With `clip_period` the wait is
    /// cut down to one period of the new frequency if it was longer.
    pub fn set_frequency(&mut self, freq: Frequency, clip_period: bool)
        ensures
            final(self)@ == (TickerView {
                freq: freq@,
                until_next: if clip_period && old(self)@.until_next > freq@.cycle {
                    freq@.cycle
                } else {
                    old(self)@.until_next
                },
                now: old(self)@.now,
            }),
            final(self)@.wf(),
    {
        proof {
            use_type_invariant(&*self);
            use_type_invariant(&freq);
        }
        self.freq = freq;
        if clip_period {
            let period = freq.period_elements();
            if self.until_next.0 > period.0 {
                self.until_next = period;
            }
        }
    }
}

/// The ticks that fired during one step of a `FrequencyTicker`, to be taken
/// one by one with `next`.
///
/// Its view is the sequence of the reports it has yet to hand out.
pub struct FrequencyTickerIter {
    /// Elements of the step that have not been walked through yet.
    span: Elements,
    freq: Frequency,
    /// Elements from `now` to the next tick.
    until_next: Elements,
    /// Ticks that fell on `now` and have not been reported yet.
    accumulated: u64,
    /// The stamp of the last report, or the start of the step.
    now: TimeStamp,
}

impl View for FrequencyTickerIter {
    type V = Seq<StepView>;

    closed spec fn view(&self) -> Seq<StepView> {
        repeated_ticks(self.accumulated as nat, self.now@) + self.pending().events_in(
            self.span.0 as int,
        )
    }
}

impl FrequencyTickerIter {
    /// What is left of the step is a whole number of nanoseconds that ends
    /// at an existing stamp.
    #[verifier::type_invariant]
    closed spec fn is_consistent(self) -> bool {
        &&& self.until_next.0 > 0
        &&& self.freq.count == 0 ==> self.span.0 == 0
        &&& self.freq.count > 0 ==> {
            &&& self.span.0 as int % self.freq.count as int == 0
            &&& self.now@ + self.span.0 as int / self.freq.count as int <= MAX_ELAPSED_NANOS
        }
        &&& self.accumulated + self.span.0 <= u64::MAX
    }

    /// The ticker that would step through what is left.
    closed spec fn pending(self) -> TickerView {
        TickerView { freq: self.freq@, until_next: self.until_next.0 as nat, now: self.now@ }
    }

    /// Returns the number of ticks that are left to take.
    pub fn ticks(&self) -> (n: u64)
        ensures
            n == self@.len(),
    {
        proof {
            use_type_invariant(self);
            use_type_invariant(&self.freq);
        }
        if self.span.0 < self.until_next.0 {
            return self.accumulated;
        }
        let span = Elements(self.span.0 - self.until_next.0);
        let periods: u64 = self.freq.periods_in_elements(span).0;
        proof {
            lemma_div_mod_split(span.0 as int, self.freq.cycle as int);
            assert(periods <= span.0) by (nonlinear_arith)
                requires
                    span.0 == periods * self.freq.cycle + span.0 as int % self.freq.cycle as int,
                    0 <= span.0 as int % self.freq.cycle as int,
                    self.freq.cycle > 0,
                    periods >= 0,
            ;
        }
        self.accumulated + 1 + periods
    }

    /// Takes the next tick, if one is left.
    ///
    /// A tick is reported at the first whole nanosecond that has reached it,
    /// with the span since the previous report. Ticks that fall into one
    /// nanosecond are reported at the same stamp, all but the first of them
    /// with a span of zero.
    pub fn next(&mut self) -> (r: Option<ClockStep>)
        ensures
            old(self)@.len() == 0 ==> r is None && final(self)@ == old(self)@,
            old(self)@.len() > 0 ==> (r matches Some(step) && step@ == old(self)@[0]
                && final(self)@ == old(self)@.skip(1)),
    {
        proof {
            use_type_invariant(&*self);
            use_type_invariant(&self.freq);
        }
        if self.accumulated > 0 {
            let now = self.now;
            *self = FrequencyTickerIter {
                span: self.span,
                freq: self.freq,
                until_next: self.until_next,
                accumulated: self.accumulated - 1,
                now,
            };
            assert(final(self)@ =~= old(self)@.skip(1));
            return Some(ClockStep { now, step: TimeSpan::zero() });
        }
        if self.span.0 < self.until_next.0 {
            return None;
        }
        let ghost before = self.pending();
        proof {
            if self.freq.count > 0 {
                before.lemma_events_unfold(self.span.0 as int);
            }
        }
        let next: u64 = div_ceil(self.until_next.0, self.freq.count);
        let advance: u64 = next * self.freq.count;
        let (periods, remaining) = self.freq.periods_in_elements(
            Elements(advance - self.until_next.0),
        );
        let step = TimeSpan::new(next as i64);
        let now = self.now + step;
        proof {
            let p = before.ticks_with_first();
            let past = advance - self.until_next.0;
            lemma_div_mod_split(past as int, self.freq.cycle as int);
            assert(p <= past) by (nonlinear_arith)
                requires
                    past == p * self.freq.cycle + past as int % self.freq.cycle as int,
                    0 <= past as int % self.freq.cycle as int,
                    self.freq.cycle > 0,
                    p >= 0,
            ;
        }
        *self = FrequencyTickerIter {
            span: Elements(self.span.0 - advance),
            freq: self.freq,
            until_next: Elements(self.freq.cycle - remaining.0),
            accumulated: periods,
            now,
        };
        proof {
            assert(final(self).pending() == before.at_first_tick());
            assert(final(self)@ =~= old(self)@.skip(1));
        }
        Some(ClockStep { now, step })
    }

    /// Takes all ticks that are left, in order.
    pub fn to_vec(self) -> (ticks: Vec<ClockStep>)
        ensures
            ticks@.len() == self@.len(),
            forall|i: int| 0 <= i < ticks@.len() ==> (#[trigger] ticks@[i])@ == self@[i],
    {
        let mut iter = self;
        let mut ticks: Vec<ClockStep> = Vec::new();
        loop
            invariant
                ticks@.len() + iter@.len() == self@.len(),
                forall|i: int| 0 <= i < ticks@.len() ==> (#[trigger] ticks@[i])@ == self@[i],
                forall|i: int| 0 <= i < iter@.len() ==> iter@[i] == self@[ticks@.len() + i],
            decreases iter@.len(),
        {
            match iter.next() {
                Some(step) => {
                    ticks.push(step);
                },
                None => {
                    return ticks;
                },
            }
        }
    }
}

/// Conversions from plain numbers to frequencies.
pub trait FrequencyNumExt: Sized {
    /// The number that the conversions read.
    spec fn number(self) -> nat;

    /// The frequency of this many Hertz.
    fn hz(self) -> (f: Frequency)
        ensures
            f@ == FrequencyView::reduced(self.number(), 1_000_000_000),
    ;

    /// The frequency of this many kilohertz.
    fn khz(self) -> (f: Frequency)
        ensures
            f@ == FrequencyView::reduced(self.number(), 1_000_000),
    ;

    /// The frequency of this many megahertz.
    fn mhz(self) -> (f: Frequency)
        ensures
            f@ == FrequencyView::reduced(self.number(), 1_000),
    ;

    /// The frequency of this many gigahertz.
    fn ghz(self) -> (f: Frequency)
        ensures
            f@ == FrequencyView::reduced(self.number(), 1),
    ;
}

impl FrequencyNumExt for u64 {
    open spec fn number(self) -> nat {
        self as nat
    }

    fn hz(self) -> (f: Frequency) {
        Frequency::from_hz(self)
    }

    fn khz(self) -> (f: Frequency) {
        Frequency::from_khz(self)
    }

    fn mhz(self) -> (f: Frequency) {
        Frequency::from_mhz(self)
    }

    fn ghz(self) -> (f: Frequency) {
        Frequency::from_ghz(self)
    }
}

} // verus!
