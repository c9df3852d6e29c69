use cedar_bench::catalogue::{catalogue, scenario, PolicySource, Scenario, ScenarioKind};
use cedar_bench::attrs::{AttrValue, AttributeRecord};
use cedar_bench::prepare::{
    build_request, validate_schema, compile_policies, describe, load_scenario_entities, prepare,
    prepare_kind, prepare_kinds, PrepareError,
};
use cedar_bench::SCHEMA_SRC;
use cedar_bench::sampler::decide;
use cedar_bench::{simple_contradicted, simple_satisfied};

fn expected_decision(kind: ScenarioKind) -> bool {
    matches!(
        kind,
        ScenarioKind::SimpleSatisfied
            | ScenarioKind::MediumSatisfied
            | ScenarioKind::ComplexSatisfied
            | ScenarioKind::QuantifierSmallSatisfied
            | ScenarioKind::QuantifierLargeSatisfied
            | ScenarioKind::CountSmallSatisfied
            | ScenarioKind::CountMediumSatisfied
            | ScenarioKind::CountLargeSatisfied
    )
}

#[test]
fn simple_satisfied_is_allowed() {
    let bench = simple_satisfied().expect("the scenario prepares");
    assert_eq!(bench.name, "cedar/simple-satisfied");
    assert!(decide(&bench));
}

#[test]
fn simple_contradicted_is_denied() {
    let bench = simple_contradicted().expect("the scenario prepares");
    assert_eq!(bench.name, "cedar/simple-contradicted");
    assert!(!decide(&bench));
}

#[test]
fn every_scenario_prepares_and_decides_as_its_outcome_says() {
    for kind in catalogue() {
        let bench = prepare_kind(kind).expect("the scenario prepares");
        assert_eq!(decide(&bench), expected_decision(kind), "{:?}", kind);
    }
}

#[test]
fn the_schema_parses() {
    assert_eq!(validate_schema(SCHEMA_SRC), Ok(()));
}

#[test]
fn a_broken_schema_is_a_schema_failure() {
    let broken = "entity User = {";
    assert_eq!(validate_schema(broken), Err(PrepareError::Schema));
    let entry = scenario(ScenarioKind::SimpleSatisfied);
    assert_eq!(prepare(&entry, broken).err(), Some(PrepareError::Schema));
    assert_eq!(load_scenario_entities(&entry, broken).err(), Some(PrepareError::Schema));
    assert_eq!(build_request(&entry, broken).err(), Some(PrepareError::Schema));
}

#[test]
fn a_schema_failure_comes_before_a_policy_failure() {
    let mut entry = scenario(ScenarioKind::SimpleSatisfied);
    entry.policies[0].text = String::from("permit (");
    assert_eq!(prepare(&entry, "entity User = {").err(), Some(PrepareError::Schema));
    assert_eq!(prepare(&entry, SCHEMA_SRC).err(), Some(PrepareError::Policy { index: 0 }));
}

#[test]
fn a_policy_failure_comes_before_an_entities_failure() {
    let mut entry = scenario(ScenarioKind::SimpleSatisfied);
    entry.policies[0].text = String::from("permit (");
    entry.principal = String::from("someone-else");
    entry.action = String::from("delete");
    entry.attributes = AttributeRecord::new();
    assert_eq!(prepare(&entry, SCHEMA_SRC).err(), Some(PrepareError::Policy { index: 0 }));
    entry.policies = scenario(ScenarioKind::SimpleSatisfied).policies;
    assert_eq!(prepare(&entry, SCHEMA_SRC).err(), Some(PrepareError::Entities));
    entry.attributes = scenario(ScenarioKind::SimpleSatisfied).attributes;
    assert_eq!(prepare(&entry, SCHEMA_SRC).err(), Some(PrepareError::Request));
    entry.action = String::from("access");
    assert!(prepare(&entry, SCHEMA_SRC).is_ok());
}

#[test]
fn a_schema_without_the_entity_types_refuses_the_request() {
    let entry = scenario(ScenarioKind::SimpleSatisfied);
    let other = "entity Account; entity File; action \"access\" appliesTo { principal: [Account], resource: [File] };";
    assert_eq!(validate_schema(other), Ok(()));
    assert_eq!(build_request(&entry, other).err(), Some(PrepareError::Request));
    assert_eq!(load_scenario_entities(&entry, other).err(), Some(PrepareError::Entities));
}

#[test]
fn entities_and_request_of_every_scenario_conform() {
    for kind in catalogue() {
        let entry = scenario(kind);
        assert!(load_scenario_entities(&entry, SCHEMA_SRC).is_ok(), "{:?}", kind);
        assert!(build_request(&entry, SCHEMA_SRC).is_ok(), "{:?}", kind);
    }
}

#[test]
fn a_broken_policy_is_a_policy_failure_with_its_index() {
    let mut entry = scenario(ScenarioKind::ComplexSatisfied);
    entry.policies[2].text = String::from("permit (principal, action, resource) when {");
    assert_eq!(prepare(&entry, SCHEMA_SRC).err(), Some(PrepareError::Policy { index: 2 }));
}

#[test]
fn a_repeated_identifier_is_a_policy_set_failure() {
    let sources = vec![
        PolicySource {
            id: Some(String::from("same")),
            text: String::from("permit (principal, action, resource);"),
        },
        PolicySource {
            id: Some(String::from("same")),
            text: String::from("forbid (principal, action, resource);"),
        },
    ];
    assert_eq!(compile_policies(&sources).err(), Some(PrepareError::PolicySet { index: 1 }));
}

#[test]
fn a_policy_that_does_not_parse_is_reported_before_its_identifier() {
    let sources = vec![
        PolicySource {
            id: Some(String::from("same")),
            text: String::from("permit (principal, action, resource);"),
        },
        PolicySource { id: Some(String::from("same")), text: String::from("permit (") },
    ];
    assert_eq!(compile_policies(&sources).err(), Some(PrepareError::Policy { index: 1 }));
}

#[test]
fn two_policies_without_identifier_share_the_default_one() {
    let sources = vec![
        PolicySource { id: None, text: String::from("permit (principal, action, resource);") },
        PolicySource { id: None, text: String::from("forbid (principal, action, resource);") },
    ];
    assert_eq!(compile_policies(&sources).err(), Some(PrepareError::PolicySet { index: 1 }));
    let one = vec![PolicySource {
        id: None,
        text: String::from("permit (principal, action, resource);"),
    }];
    let set = compile_policies(&one).expect("one policy compiles");
    let ids: Vec<String> = set.policies().map(|p| p.id().to_string()).collect();
    assert_eq!(ids, vec!["policy0"]);
}

#[test]
fn no_policies_compile_into_an_empty_set() {
    let set = compile_policies(&Vec::new()).expect("nothing to refuse");
    assert_eq!(set.policies().count(), 0);
    assert!(set.is_empty());
}

#[test]
fn a_template_is_no_static_policy() {
    let sources = vec![PolicySource {
        id: Some(String::from("t")),
        text: String::from("permit (principal == ?principal, action, resource);"),
    }];
    assert_eq!(compile_policies(&sources).err(), Some(PrepareError::Policy { index: 0 }));
}

#[test]
fn a_prepared_scenario_holds_the_policies_of_its_scenario() {
    for kind in catalogue() {
        let entry = scenario(kind);
        let bench = prepare_kind(kind).expect("the scenario prepares");
        assert_eq!(bench.name, entry.name);
        let mut held: Vec<String> = bench.policy_set.policies().map(|p| p.id().to_string()).collect();
        held.sort();
        let mut expected: Vec<String> = entry
            .policies
            .iter()
            .map(|p| p.id.clone().unwrap_or(String::from("policy0")))
            .collect();
        expected.sort();
        assert_eq!(held, expected);
    }
}

#[test]
fn kinds_are_prepared_in_the_order_given() {
    let kinds = vec![ScenarioKind::CountLargeSatisfied, ScenarioKind::SimpleSatisfied];
    let benches = prepare_kinds(&kinds).expect("the kinds prepare");
    assert_eq!(benches.len(), 2);
    assert_eq!(benches[0].name, "cedar/count/containsall-large-satisfied");
    assert_eq!(benches[1].name, "cedar/simple-satisfied");
    assert!(prepare_kinds(&Vec::new()).expect("nothing to refuse").is_empty());
}

#[test]
fn attributes_that_miss_the_schema_are_an_entities_failure() {
    let mut entry = scenario(ScenarioKind::SimpleSatisfied);
    let mut record = AttributeRecord::new();
    record.set("role", AttrValue::Text(String::from("admin")));
    entry.attributes = record;
    assert_eq!(prepare(&entry, SCHEMA_SRC).err(), Some(PrepareError::Entities));
}

#[test]
fn an_unknown_action_is_a_request_failure() {
    let mut entry = scenario(ScenarioKind::SimpleSatisfied);
    entry.action = String::from("delete");
    assert_eq!(build_request(&entry, SCHEMA_SRC).err(), Some(PrepareError::Request));
    assert_eq!(prepare(&entry, SCHEMA_SRC).err(), Some(PrepareError::Request));
}

#[test]
fn failures_are_described() {
    assert_eq!(describe(PrepareError::Schema), "the schema does not parse");
    assert_eq!(
        describe(PrepareError::Policy { index: 12 }),
        "a policy does not parse: policy 12"
    );
    assert_eq!(
        describe(PrepareError::PolicySet { index: 0 }),
        "the policy set refuses a policy: policy 0"
    );
    assert_eq!(describe(PrepareError::Entities), "the entities do not conform to the schema");
    assert_eq!(describe(PrepareError::Request), "the request does not conform to the schema");
}

#[test]
fn the_complex_scenario_compiles_one_policy_for_each_rule() {
    let entry: Scenario = scenario(ScenarioKind::ComplexPartial);
    let set = compile_policies(&entry.policies).expect("the policies compile");
    let mut ids: Vec<String> = set.policies().map(|p| p.id().to_string()).collect();
    ids.sort();
    assert_eq!(ids, vec!["complex_0", "complex_1", "complex_2", "complex_3", "complex_4"]);
}
