//! The prepared scenarios of the catalogue, one function for each, and the
//! three groups in which a run takes them.

use crate::catalogue::ScenarioKind;
use crate::prepare::{
    prepare_kind, prepare_kinds, prepared_as, prepared_group, PrepareError, PreparedBenchmark,
};
use vstd::prelude::*;

verus! {

/// The kinds that vary the complexity of the policy.
pub open spec fn complexity_kinds() -> Seq<ScenarioKind> {
    seq![
        ScenarioKind::SimpleSatisfied,
        ScenarioKind::SimpleContradicted,
        ScenarioKind::MediumSatisfied,
        ScenarioKind::MediumPartial,
        ScenarioKind::ComplexSatisfied,
        ScenarioKind::ComplexPartial,
    ]
}

/// The kinds of the quantifier family.
pub open spec fn quantifier_kinds() -> Seq<ScenarioKind> {
    seq![
        ScenarioKind::QuantifierSmallSatisfied,
        ScenarioKind::QuantifierSmallContradicted,
        ScenarioKind::QuantifierLargeSatisfied,
        ScenarioKind::QuantifierLargeContradicted,
    ]
}

/// The kinds of the count family.
pub open spec fn count_kinds() -> Seq<ScenarioKind> {
    seq![
        ScenarioKind::CountSmallSatisfied,
        ScenarioKind::CountSmallContradicted,
        ScenarioKind::CountMediumSatisfied,
        ScenarioKind::CountLargeSatisfied,
        ScenarioKind::CountLargeContradicted,
    ]
}

/// Prepares the simple rule with attributes that satisfy it.
pub fn simple_satisfied() -> (r: Result<PreparedBenchmark, PrepareError>)
    ensures
        prepared_as(ScenarioKind::SimpleSatisfied, r),
{
    prepare_kind(ScenarioKind::SimpleSatisfied)
}

/// Prepares the simple rule with attributes that contradict it.
pub fn simple_contradicted() -> (r: Result<PreparedBenchmark, PrepareError>)
    ensures
        prepared_as(ScenarioKind::SimpleContradicted, r),
{
    prepare_kind(ScenarioKind::SimpleContradicted)
}

/// Prepares the compound rule with attributes that satisfy it.
pub fn medium_satisfied() -> (r: Result<PreparedBenchmark, PrepareError>)
    ensures
        prepared_as(ScenarioKind::MediumSatisfied, r),
{
    prepare_kind(ScenarioKind::MediumSatisfied)
}

/// Prepares the compound rule with attributes that satisfy only part of it.
pub fn medium_partial() -> (r: Result<PreparedBenchmark, PrepareError>)
    ensures
        prepared_as(ScenarioKind::MediumPartial, r),
{
    prepare_kind(ScenarioKind::MediumPartial)
}

/// Prepares the rules of the complex text with attributes that satisfy them.
pub fn complex_satisfied() -> (r: Result<PreparedBenchmark, PrepareError>)
    ensures
        prepared_as(ScenarioKind::ComplexSatisfied, r),
{
    prepare_kind(ScenarioKind::ComplexSatisfied)
}

/// Prepares the rules of the complex text with attributes that satisfy only part of them.
pub fn complex_partial() -> (r: Result<PreparedBenchmark, PrepareError>)
    ensures
        prepared_as(ScenarioKind::ComplexPartial, r),
{
    prepare_kind(ScenarioKind::ComplexPartial)
}

/// Prepares the flag rule with exactly the five required flags.
pub fn quantifier_small_satisfied() -> (r: Result<PreparedBenchmark, PrepareError>)
    ensures
        prepared_as(ScenarioKind::QuantifierSmallSatisfied, r),
{
    prepare_kind(ScenarioKind::QuantifierSmallSatisfied)
}

/// Prepares the flag rule with four of the five required flags.
pub fn quantifier_small_contradicted() -> (r: Result<PreparedBenchmark, PrepareError>)
    ensures
        prepared_as(ScenarioKind::QuantifierSmallContradicted, r),
{
    prepare_kind(ScenarioKind::QuantifierSmallContradicted)
}

/// Prepares the flag rule with a hundred flags, the required ones among them.
pub fn quantifier_large_satisfied() -> (r: Result<PreparedBenchmark, PrepareError>)
    ensures
        prepared_as(ScenarioKind::QuantifierLargeSatisfied, r),
{
    prepare_kind(ScenarioKind::QuantifierLargeSatisfied)
}

/// Prepares the flag rule with a hundred flags and none of the required ones.
pub fn quantifier_large_contradicted() -> (r: Result<PreparedBenchmark, PrepareError>)
    ensures
        prepared_as(ScenarioKind::QuantifierLargeContradicted, r),
{
    prepare_kind(ScenarioKind::QuantifierLargeContradicted)
}

/// Prepares the identifier rule with exactly the five required identifiers.
pub fn count_small_satisfied() -> (r: Result<PreparedBenchmark, PrepareError>)
    ensures
        prepared_as(ScenarioKind::CountSmallSatisfied, r),
{
    prepare_kind(ScenarioKind::CountSmallSatisfied)
}

/// Prepares the identifier rule with three of the five required identifiers.
pub fn count_small_contradicted() -> (r: Result<PreparedBenchmark, PrepareError>)
    ensures
        prepared_as(ScenarioKind::CountSmallContradicted, r),
{
    prepare_kind(ScenarioKind::CountSmallContradicted)
}

/// Prepares the identifier rule with twenty identifiers, the required ones among them.
pub fn count_medium_satisfied() -> (r: Result<PreparedBenchmark, PrepareError>)
    ensures
        prepared_as(ScenarioKind::CountMediumSatisfied, r),
{
    prepare_kind(ScenarioKind::CountMediumSatisfied)
}

/// Prepares the identifier rule with a hundred identifiers, the required ones among them.
pub fn count_large_satisfied() -> (r: Result<PreparedBenchmark, PrepareError>)
    ensures
        prepared_as(ScenarioKind::CountLargeSatisfied, r),
{
    prepare_kind(ScenarioKind::CountLargeSatisfied)
}

/// Prepares the identifier rule with a hundred identifiers and none of the required ones.
pub fn count_large_contradicted() -> (r: Result<PreparedBenchmark, PrepareError>)
    ensures
        prepared_as(ScenarioKind::CountLargeContradicted, r),
{
    prepare_kind(ScenarioKind::CountLargeContradicted)
}

/// Prepares the six scenarios that vary the complexity of the policy.
pub fn all_benchmarks() -> (r: Result<Vec<PreparedBenchmark>, PrepareError>)
    ensures
        prepared_group(complexity_kinds(), r),
{
    let mut kinds: Vec<ScenarioKind> = Vec::new();
    kinds.push(ScenarioKind::SimpleSatisfied);
    kinds.push(ScenarioKind::SimpleContradicted);
    kinds.push(ScenarioKind::MediumSatisfied);
    kinds.push(ScenarioKind::MediumPartial);
    kinds.push(ScenarioKind::ComplexSatisfied);
    kinds.push(ScenarioKind::ComplexPartial);
    assert(kinds@ =~= complexity_kinds());
    prepare_kinds(&kinds)
}

/// Prepares the four scenarios of the quantifier family.
pub fn quantifier_benchmarks() -> (r: Result<Vec<PreparedBenchmark>, PrepareError>)
    ensures
        prepared_group(quantifier_kinds(), r),
{
    let mut kinds: Vec<ScenarioKind> = Vec::new();
    kinds.push(ScenarioKind::QuantifierSmallSatisfied);
    kinds.push(ScenarioKind::QuantifierSmallContradicted);
    kinds.push(ScenarioKind::QuantifierLargeSatisfied);
    kinds.push(ScenarioKind::QuantifierLargeContradicted);
    assert(kinds@ =~= quantifier_kinds());
    prepare_kinds(&kinds)
}

/// Prepares the five scenarios of the count family.
pub fn count_benchmarks() -> (r: Result<Vec<PreparedBenchmark>, PrepareError>)
    ensures
        prepared_group(count_kinds(), r),
{
    let mut kinds: Vec<ScenarioKind> = Vec::new();
    kinds.push(ScenarioKind::CountSmallSatisfied);
    kinds.push(ScenarioKind::CountSmallContradicted);
    kinds.push(ScenarioKind::CountMediumSatisfied);
    kinds.push(ScenarioKind::CountLargeSatisfied);
    kinds.push(ScenarioKind::CountLargeContradicted);
    assert(kinds@ =~= count_kinds());
    prepare_kinds(&kinds)
}

} // verus!
