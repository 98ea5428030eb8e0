//! Rational samples, their order and percentiles, and the measurements of a report.

use vstd::prelude::*;

use crate::search::retrieval::Strategy;
use crate::sorting;
use crate::sorting::{ascending_keeps_the_elements, ascending_sorts, lemma_placed_at};
use crate::text::{copy_optional, optional_text};

verus! {

/// A rational number.
#[derive(Clone, Copy, Debug, PartialEq, Eq, Structural)]
pub struct Ratio {
    /// Numerator.
    pub numerator: u64,
    /// Denominator, not zero.
    pub denominator: u64,
}

/// A ratio with a denominator.
pub open spec fn is_number(r: Ratio) -> bool {
    r.denominator > 0
}

/// The first number is at most the second.
pub open spec fn at_most(a: Ratio, b: Ratio) -> bool {
    a.numerator * b.denominator <= b.numerator * a.denominator
}

/// A whole number.
pub open spec fn whole(n: u64) -> Ratio {
    Ratio { numerator: n, denominator: 1 }
}

/// Nanoseconds as milliseconds.
pub open spec fn in_millis(nanoseconds: u64) -> Ratio {
    Ratio { numerator: nanoseconds, denominator: 1_000_000 }
}

/// The smaller of two numbers, the first if they are equal.
pub open spec fn smaller(a: Ratio, b: Ratio) -> Ratio {
    if at_most(a, b) {
        a
    } else {
        b
    }
}

impl Ratio {
    /// A whole number.
    pub fn of_count(n: u64) -> (r: Ratio)
        ensures
            r == whole(n),
    {
        Ratio { numerator: n, denominator: 1 }
    }

    /// Nanoseconds as milliseconds.
    pub fn of_nanoseconds(nanoseconds: u64) -> (r: Ratio)
        ensures
            r == in_millis(nanoseconds),
    {
        Ratio { numerator: nanoseconds, denominator: 1_000_000 }
    }

    /// Whether the number is at most another.
    pub fn is_at_most(self, other: Ratio) -> (r: bool)
        ensures
            r == at_most(self, other),
    {
        let (a, b) = (self.numerator, self.denominator);
        let (c, d) = (other.numerator, other.denominator);
        assert(0 <= a * d <= 0xffff_ffff_ffff_ffff * 0xffff_ffff_ffff_ffff) by (nonlinear_arith)
            requires
                0 <= a <= 0xffff_ffff_ffff_ffff,
                0 <= d <= 0xffff_ffff_ffff_ffff,
        ;
        assert(0 <= c * b <= 0xffff_ffff_ffff_ffff * 0xffff_ffff_ffff_ffff) by (nonlinear_arith)
            requires
                0 <= c <= 0xffff_ffff_ffff_ffff,
                0 <= b <= 0xffff_ffff_ffff_ffff,
        ;
        (a as u128) * (d as u128) <= (c as u128) * (b as u128)
    }

    /// The smaller of two numbers.
    pub fn min(self, other: Ratio) -> (r: Ratio)
        ensures
            r == smaller(self, other),
    {
        if self.is_at_most(other) {
            self
        } else {
            other
        }
    }
}

proof fn lemma_at_most_transitive(a: Ratio, b: Ratio, c: Ratio)
    requires
        is_number(a),
        is_number(b),
        is_number(c),
        at_most(a, b),
        at_most(b, c),
    ensures
        at_most(a, c),
{
    let (an, ad) = (a.numerator as int, a.denominator as int);
    let (bn, bd) = (b.numerator as int, b.denominator as int);
    let (cn, cd) = (c.numerator as int, c.denominator as int);
    assert(an * cd <= cn * ad) by (nonlinear_arith)
        requires
            ad > 0,
            bd > 0,
            cd > 0,
            an * bd <= bn * ad,
            bn * cd <= cn * bd,
    {
        assert((an * bd) * cd <= (bn * ad) * cd);
        assert((bn * cd) * ad <= (cn * bd) * ad);
        assert((an * cd) * bd <= (cn * ad) * bd);
    }
}

/// The order of numbers.
pub open spec fn number_order() -> spec_fn(Ratio, Ratio) -> bool {
    |a: Ratio, b: Ratio| at_most(a, b)
}

/// The numbers in ascending order, equal ones as they came.
pub open spec fn ascending(samples: Seq<Ratio>) -> Seq<Ratio> {
    sorting::ascending(samples, number_order())
}

/// Sorting numbers gives the same numbers, each at most the next ones.
pub proof fn numbers_are_sorted(samples: Seq<Ratio>)
    requires
        forall|i: int| 0 <= i < samples.len() ==> is_number(#[trigger] samples[i]),
    ensures
        forall|i: int, j: int|
            0 <= i < j < samples.len() ==> at_most(
                #[trigger] ascending(samples)[i],
                #[trigger] ascending(samples)[j],
            ),
        ascending(samples).to_multiset() =~= samples.to_multiset(),
{
    let valid = |a: Ratio| is_number(a);
    assert forall|a: Ratio, b: Ratio, c: Ratio|
        valid(a) && valid(b) && valid(c) && #[trigger] number_order()(a, b)
            && #[trigger] number_order()(b, c) implies number_order()(a, c) by {
        lemma_at_most_transitive(a, b, c);
    }
    ascending_sorts(samples, number_order(), valid);
    ascending_keeps_the_elements(samples, number_order());
}

/// Sorts numbers.
pub fn sort_ascending(samples: &Vec<Ratio>) -> (r: Vec<Ratio>)
    ensures
        r@ == ascending(samples@),
        r@.len() == samples@.len(),
{
    proof {
        ascending_keeps_the_elements(samples@, number_order());
    }
    let mut sorted: Vec<Ratio> = Vec::new();
    let mut n: usize = 0;
    assert(samples@.take(0) =~= Seq::<Ratio>::empty());
    while n < samples.len()
        invariant
            n <= samples@.len(),
            sorted@ == ascending(samples@.take(n as int)),
        decreases samples@.len() - n,
    {
        let x: Ratio = samples[n];
        let mut at: usize = sorted.len();
        while at > 0 && !sorted[at - 1].is_at_most(x)
            invariant
                at <= sorted@.len(),
                forall|i: int| at <= i < sorted@.len() ==> !at_most(#[trigger] sorted@[i], x),
            decreases at,
        {
            at = at - 1;
        }
        proof {
            lemma_placed_at(sorted@, x, number_order(), at as int);
            let next = samples@.take(n + 1);
            assert(next.drop_last() =~= samples@.take(n as int));
            assert(next.last() == x);
        }
        sorted.insert(at, x);
        n = n + 1;
    }
    assert(samples@.take(n as int) =~= samples@);
    sorted
}

/// A measured value.
#[derive(Clone, Copy, Debug, PartialEq, Eq, Structural)]
pub enum Quantity {
    /// A number.
    Number(Ratio),
    /// Documents per second; nothing if no time passed.
    Throughput {
        /// Documents.
        documents: u64,
        /// Nanoseconds.
        wall_ns: u64,
    },
}

/// What a measurement is about.
#[derive(Clone, Debug, PartialEq, Eq)]
pub struct Dimensions {
    /// Strategy.
    pub strategy: Strategy,
    /// Length of the queries.
    pub query_length_band: Option<String>,
    /// Frequency of the queries.
    pub frequency: Option<String>,
    /// The query.
    pub query: Option<String>,
    /// The case.
    pub case: Option<String>,
    /// What the case covers.
    pub category: Option<String>,
    /// Whether the true hits fit the candidate limit.
    pub within_candidate_budget: Option<bool>,
}

/// Dimensions as a mathematical value.
pub struct DimensionsModel {
    pub strategy: Strategy,
    pub query_length_band: Option<Seq<char>>,
    pub frequency: Option<Seq<char>>,
    pub query: Option<Seq<char>>,
    pub case: Option<Seq<char>>,
    pub category: Option<Seq<char>>,
    pub within_candidate_budget: Option<bool>,
}

impl View for Dimensions {
    type V = DimensionsModel;

    open spec fn view(&self) -> DimensionsModel {
        DimensionsModel {
            strategy: self.strategy,
            query_length_band: optional_text(self.query_length_band),
            frequency: optional_text(self.frequency),
            query: optional_text(self.query),
            case: optional_text(self.case),
            category: optional_text(self.category),
            within_candidate_budget: self.within_candidate_budget,
        }
    }
}

impl Dimensions {
    /// A copy.
    pub fn duplicate(&self) -> (r: Dimensions)
        ensures
            r@ == self@,
    {
        Dimensions {
            strategy: self.strategy,
            query_length_band: copy_optional(&self.query_length_band),
            frequency: copy_optional(&self.frequency),
            query: copy_optional(&self.query),
            case: copy_optional(&self.case),
            category: copy_optional(&self.category),
            within_candidate_budget: self.within_candidate_budget,
        }
    }
}

/// A named value of a report.
#[derive(Clone, Debug, PartialEq, Eq)]
pub struct Measurement {
    /// Name.
    pub name: String,
    /// Unit.
    pub unit: String,
    /// Value.
    pub value: Quantity,
    /// What it is about.
    pub dimensions: Dimensions,
    /// The samples behind it.
    pub samples: Option<Vec<Ratio>>,
}

/// A measurement as a mathematical value.
pub struct MeasurementModel {
    pub name: Seq<char>,
    pub unit: Seq<char>,
    pub value: Quantity,
    pub dimensions: DimensionsModel,
    pub samples: Option<Seq<Ratio>>,
}

impl View for Measurement {
    type V = MeasurementModel;

    open spec fn view(&self) -> MeasurementModel {
        MeasurementModel {
            name: self.name@,
            unit: self.unit@,
            value: self.value,
            dimensions: self.dimensions@,
            samples: match self.samples {
                Some(samples) => Some(samples@),
                None => None,
            },
        }
    }
}

/// A measurement without samples.
pub open spec fn plain(
    name: Seq<char>,
    unit: Seq<char>,
    value: Quantity,
    dimensions: DimensionsModel,
) -> MeasurementModel {
    MeasurementModel { name, unit, value, dimensions, samples: None }
}

/// The views of several measurements.
pub open spec fn measurement_models(values: Seq<Measurement>) -> Seq<MeasurementModel> {
    Seq::new(values.len(), |i: int| values[i]@)
}

/// A measurement without samples.
pub fn measurement(name: &str, unit: &str, value: Quantity, dimensions: &Dimensions) -> (r:
    Measurement)
    ensures
        r@ == plain(name@, unit@, value, dimensions@),
{
    Measurement {
        name: name.to_owned(),
        unit: unit.to_owned(),
        value,
        dimensions: dimensions.duplicate(),
        samples: None,
    }
}

/// Appends a measurement.
pub fn push_measurement(values: &mut Vec<Measurement>, value: Measurement)
    ensures
        measurement_models(final(values)@) == measurement_models(old(values)@).push(value@),
{
    values.push(value);
    assert(measurement_models(values@) =~= measurement_models(old(values)@).push(value@));
}

/// Appends measurements.
pub fn append_measurements(values: &mut Vec<Measurement>, more: Vec<Measurement>)
    ensures
        measurement_models(final(values)@) == measurement_models(old(values)@)
            + measurement_models(more@),
{
    let mut more = more;
    let ghost added = more@;
    values.append(&mut more);
    assert(measurement_models(values@) =~= measurement_models(old(values)@) + measurement_models(
        added,
    ));
}

} // verus!
