//! The scenario preparer: one catalogue entry in, the engine's validated and
//! compiled forms out.
//!
//! Whether a text parses and whether entities or a request conform to the
//! schema is the engine's verdict. What this module decides is what is handed
//! to the engine, in which order, and which failure stands for which verdict.

use crate::catalogue::{
    lemma_fragment_ids_distinct, policies_of, scenario, scenario_model, sources, PolicySource,
    Scenario, ScenarioKind, ScenarioModel,
};
use crate::engine::{
    add_policy, entities_conform, load_entities, new_authorizer, new_policy_set, new_request,
    parse_schema, policy_ids, policy_key, policy_parses, request_conforms, schema_parses,
    taken_ids, EntitiesFault, PolicyFault, RequestFault,
};
use crate::json::{entities_json, entities_text};
use crate::policy::SCHEMA_SRC;
use cedar_policy::{Authorizer, Entities, PolicySet, Request};
use vstd::prelude::*;

verus! {

/// A scenario in the engine's forms, ready to be decided.
pub struct PreparedBenchmark {
    pub name: String,
    pub authorizer: Authorizer,
    pub policy_set: PolicySet,
    pub entities: Entities,
    pub request: Request,
}

/// The stage at which the engine refused a scenario.
#[derive(Debug, Clone, Copy, PartialEq, Eq)]
pub enum PrepareError {
    /// The schema text does not parse.
    Schema,
    /// The policy at `index` does not parse.
    Policy { index: usize },
    /// The policy set refuses the policy at `index`.
    PolicySet { index: usize },
    /// The entity document does not parse or does not conform to the schema.
    Entities,
    /// The request does not conform to the schema.
    Request,
}

/// The identifiers under which the engine knows the policies, in order.
pub open spec fn keys(policies: Seq<(Option<Seq<char>>, Seq<char>)>) -> Seq<Seq<char>> {
    Seq::new(policies.len(), |i: int| policy_key(policies[i].0))
}

/// Whether the policy at index `i` can join those before it: the engine reads
/// it, and none of those before it has its identifier.
pub open spec fn joins(policies: Seq<(Option<Seq<char>>, Seq<char>)>, i: int) -> bool {
    &&& policy_parses(policies[i].0, policies[i].1)
    &&& forall|j: int| 0 <= j < i ==> #[trigger] keys(policies)[j] != keys(policies)[i]
}

/// Whether the policies compile into one set: the engine reads every one of
/// them, and no two have the same identifier.
pub open spec fn compiles(policies: Seq<(Option<Seq<char>>, Seq<char>)>) -> bool {
    forall|i: int| 0 <= i < policies.len() ==> #[trigger] joins(policies, i)
}

/// Whether the engine reads every one of the policies.
pub open spec fn all_parse(policies: Seq<(Option<Seq<char>>, Seq<char>)>) -> bool {
    forall|i: int| 0 <= i < policies.len() ==> policy_parses((#[trigger] policies[i]).0, policies[i].1)
}

/// What compiling the policies comes to, whatever else the engine does: the
/// set, or the failure of the first policy that cannot join those before it.
pub open spec fn is_compiled(
    policies: Seq<(Option<Seq<char>>, Seq<char>)>,
    r: Result<PolicySet, PrepareError>,
) -> bool {
    match r {
        Ok(set) => compiles(policies) && policy_ids(set) == keys(policies).to_set(),
        Err(PrepareError::Policy { index }) => {
            &&& index < policies.len()
            &&& forall|j: int| 0 <= j < index ==> #[trigger] joins(policies, j)
            &&& !policy_parses(policies[index as int].0, policies[index as int].1)
        },
        Err(PrepareError::PolicySet { index }) => {
            &&& index < policies.len()
            &&& forall|j: int| 0 <= j < index ==> #[trigger] joins(policies, j)
            &&& policy_parses(policies[index as int].0, policies[index as int].1)
            &&& !joins(policies, index as int)
        },
        Err(_) => false,
    }
}

/// The failure that a refused policy text comes to.
pub fn policy_failure(fault: PolicyFault, index: usize) -> (e: PrepareError)
    ensures
        e == match fault {
            PolicyFault::Unparsed(_) => PrepareError::Policy { index },
            PolicyFault::Refused(_) => PrepareError::PolicySet { index },
        },
{
    match fault {
        PolicyFault::Unparsed(_) => PrepareError::Policy { index },
        PolicyFault::Refused(_) => PrepareError::PolicySet { index },
    }
}

/// The failure that a refused entity document comes to.
pub fn entities_failure(fault: EntitiesFault) -> (e: PrepareError)
    ensures
        e == match fault {
            EntitiesFault::Schema(_) => PrepareError::Schema,
            EntitiesFault::Refused(_) => PrepareError::Entities,
        },
{
    match fault {
        EntitiesFault::Schema(_) => PrepareError::Schema,
        EntitiesFault::Refused(_) => PrepareError::Entities,
    }
}

/// The failure that a refused request comes to.
pub fn request_failure(fault: RequestFault) -> (e: PrepareError)
    ensures
        e == match fault {
            RequestFault::Schema(_) => PrepareError::Schema,
            RequestFault::Name(_) => PrepareError::Request,
            RequestFault::Refused(_) => PrepareError::Request,
        },
{
    match fault {
        RequestFault::Schema(_) => PrepareError::Schema,
        RequestFault::Name(_) => PrepareError::Request,
        RequestFault::Refused(_) => PrepareError::Request,
    }
}

/// What a failure says, for a report to a person.
pub fn describe(failure: PrepareError) -> (text: String)
    ensures
        text@ == match failure {
            PrepareError::Schema => "the schema does not parse"@,
            PrepareError::Policy { index } => "a policy does not parse: policy "@
                + crate::text::decimal(index as nat),
            PrepareError::PolicySet { index } => "the policy set refuses a policy: policy "@
                + crate::text::decimal(index as nat),
            PrepareError::Entities => "the entities do not conform to the schema"@,
            PrepareError::Request => "the request does not conform to the schema"@,
        },
{
    match failure {
        PrepareError::Schema => String::from_str("the schema does not parse"),
        PrepareError::Policy { index } => {
            let mut text = String::from_str("a policy does not parse: policy ");
            crate::text::push_decimal(&mut text, index as u64);
            text
        },
        PrepareError::PolicySet { index } => {
            let mut text = String::from_str("the policy set refuses a policy: policy ");
            crate::text::push_decimal(&mut text, index as u64);
            text
        },
        PrepareError::Entities => String::from_str("the entities do not conform to the schema"),
        PrepareError::Request => String::from_str("the request does not conform to the schema"),
    }
}

/// Asks the engine whether it reads a schema text.
pub fn validate_schema(schema: &str) -> (r: Result<(), PrepareError>)
    ensures
        r is Ok <==> schema_parses(schema@),
        r matches Err(e) ==> e == PrepareError::Schema,
{
    match parse_schema(schema) {
        Ok(_) => Ok(()),
        Err(_) => Err(PrepareError::Schema),
    }
}

/// Parses every policy, in order, and adds each to one policy set. Stops at
/// the first policy that does not parse or that the set refuses.
pub fn compile_policies(policies: &Vec<PolicySource>) -> (r: Result<PolicySet, PrepareError>)
    ensures
        is_compiled(sources(policies@), r),
        r is Ok <==> compiles(sources(policies@)),
{
    let ghost all = sources(policies@);
    let mut set = new_policy_set();
    let mut i: usize = 0;
    assert(keys(all).take(0).to_set() =~= Set::<Seq<char>>::empty());
    while i < policies.len()
        invariant
            i <= policies@.len(),
            all == sources(policies@),
            forall|j: int| 0 <= j < i ==> #[trigger] joins(all, j),
            policy_ids(set) == keys(all).take(i as int).to_set(),
            taken_ids(set) == keys(all).take(i as int).to_set(),
        decreases policies.len() - i,
    {
        let source = &policies[i];
        let id: Option<&str> = match &source.id {
            Some(s) => Some(s.as_str()),
            None => None,
        };
        let ghost before = keys(all).take(i as int);
        let ghost key = keys(all)[i as int];
        match add_policy(&mut set, id, source.text.as_str()) {
            Ok(_) => {
                proof {
                    assert forall|j: int| 0 <= j < i implies #[trigger] keys(all)[j] != key by {
                        assert(before[j] == keys(all)[j]);
                        assert(before.to_set().contains(before[j]));
                    }
                    assert(joins(all, i as int));
                    assert(keys(all).take(i as int + 1) =~= before.push(key));
                    assert(before.push(key).to_set() =~= before.to_set().insert(key)) by {
                        assert forall|k: Seq<char>|
                            before.push(key).to_set().contains(k) implies before.to_set().insert(
                            key,
                        ).contains(k) by {
                            let at = choose|at: int|
                                0 <= at < before.push(key).len() && before.push(key)[at] == k;
                            if at < before.len() {
                                assert(before[at] == k);
                            }
                        }
                        assert forall|k: Seq<char>|
                            before.to_set().insert(key).contains(k) implies before.push(
                            key,
                        ).to_set().contains(k) by {
                            if k == key {
                                assert(before.push(key)[before.len() as int] == k);
                            } else {
                                let at = choose|at: int| 0 <= at < before.len() && before[at] == k;
                                assert(before.push(key)[at] == k);
                            }
                        }
                    }
                }
            },
            Err(fault) => {
                proof {
                    if fault is Refused {
                        let at = choose|at: int| 0 <= at < before.len() && before[at] == key;
                        assert(keys(all)[at] == keys(all)[i as int]);
                        assert(!joins(all, i as int));
                    } else {
                        assert(!joins(all, i as int));
                    }
                }
                return Err(policy_failure(fault, i));
            },
        }
        i = i + 1;
    }
    assert(keys(all).take(i as int) =~= keys(all));
    Ok(set)
}

/// The policies compile exactly when every one of them joins those before
/// it, and then no two have the same identifier.
pub proof fn lemma_compiles(policies: Seq<(Option<Seq<char>>, Seq<char>)>)
    ensures
        compiles(policies) <==> all_parse(policies) && keys(policies).no_duplicates(),
{
    let k = keys(policies);
    if compiles(policies) {
        assert forall|i: int| 0 <= i < policies.len() implies policy_parses(
            (#[trigger] policies[i]).0,
            policies[i].1,
        ) by {
            assert(joins(policies, i));
        }
        assert forall|i: int, j: int| 0 <= i < k.len() && 0 <= j < k.len() && i != j implies k[i]
            != k[j] by {
            if i < j {
                assert(joins(policies, j));
            } else {
                assert(joins(policies, i));
            }
        }
    }
    if all_parse(policies) && k.no_duplicates() {
        assert forall|i: int| 0 <= i < policies.len() implies #[trigger] joins(policies, i) by {
            assert(policy_parses(policies[i].0, policies[i].1));
        }
    }
}

/// The entity document of a scenario.
pub open spec fn document_of(scenario: ScenarioModel) -> Seq<char> {
    entities_text(scenario.principal, scenario.attributes, scenario.resource)
}

/// Whether the engine finds the request of a scenario valid: its principal, a
/// `User`, asks to perform its action, an `Action`, on its resource, a
/// `Resource`, with an empty context.
pub open spec fn request_of_conforms(scenario: ScenarioModel, schema: Seq<char>) -> bool {
    request_conforms(
        "User"@,
        scenario.principal,
        "Action"@,
        scenario.action,
        "Resource"@,
        scenario.resource,
        schema,
    )
}

/// Loads the entity document of a scenario: its principal, a `User` with the
/// scenario's attributes, and its resource, a `Resource` without attributes.
pub fn load_scenario_entities(scenario: &Scenario, schema: &str) -> (r: Result<
    Entities,
    PrepareError,
>)
    ensures
        match r {
            Ok(_) => schema_parses(schema@) && entities_conform(document_of(scenario@), schema@),
            Err(PrepareError::Schema) => !schema_parses(schema@),
            Err(PrepareError::Entities) => schema_parses(schema@) && !entities_conform(
                document_of(scenario@),
                schema@,
            ),
            Err(_) => false,
        },
{
    let document = entities_json(
        scenario.principal.as_str(),
        &scenario.attributes,
        scenario.resource.as_str(),
    );
    match load_entities(document.as_str(), schema) {
        Ok(entities) => Ok(entities),
        Err(fault) => Err(entities_failure(fault)),
    }
}

/// Builds the request of a scenario.
pub fn build_request(scenario: &Scenario, schema: &str) -> (r: Result<Request, PrepareError>)
    ensures
        match r {
            Ok(_) => schema_parses(schema@) && request_of_conforms(scenario@, schema@),
            Err(PrepareError::Schema) => !schema_parses(schema@),
            Err(PrepareError::Request) => schema_parses(schema@) && !request_of_conforms(
                scenario@,
                schema@,
            ),
            Err(_) => false,
        },
{
    match new_request(
        "User",
        scenario.principal.as_str(),
        "Action",
        scenario.action.as_str(),
        "Resource",
        scenario.resource.as_str(),
        schema,
    ) {
        Ok(request) => Ok(request),
        Err(fault) => Err(request_failure(fault)),
    }
}

/// What preparing a scenario against a schema comes to. The engine is asked
/// for four verdicts in turn: on the schema, on the policies, on the entity
/// document, on the request. The first that fails is the failure; if none
/// fails, the prepared scenario carries the scenario's name and a policy set
/// that holds exactly the scenario's policies, by identifier.
pub open spec fn is_prepared(
    scenario: ScenarioModel,
    schema: Seq<char>,
    r: Result<PreparedBenchmark, PrepareError>,
) -> bool {
    match r {
        Ok(bench) => {
            &&& schema_parses(schema)
            &&& compiles(scenario.policies)
            &&& entities_conform(document_of(scenario), schema)
            &&& request_of_conforms(scenario, schema)
            &&& bench.name@ == scenario.name
            &&& policy_ids(bench.policy_set) == keys(scenario.policies).to_set()
        },
        Err(PrepareError::Schema) => !schema_parses(schema),
        Err(PrepareError::Entities) => {
            &&& schema_parses(schema)
            &&& compiles(scenario.policies)
            &&& !entities_conform(document_of(scenario), schema)
        },
        Err(PrepareError::Request) => {
            &&& schema_parses(schema)
            &&& compiles(scenario.policies)
            &&& entities_conform(document_of(scenario), schema)
            &&& !request_of_conforms(scenario, schema)
        },
        Err(e) => schema_parses(schema) && is_compiled(scenario.policies, Err(e)),
    }
}

/// Whether the engine gives all four verdicts in favour of a scenario.
pub open spec fn prepares(scenario: ScenarioModel, schema: Seq<char>) -> bool {
    &&& schema_parses(schema)
    &&& compiles(scenario.policies)
    &&& entities_conform(document_of(scenario), schema)
    &&& request_of_conforms(scenario, schema)
}

/// What preparing the scenario of a kind comes to: what preparing any
/// scenario against the shared schema comes to, and the policy set refuses
/// none of its policies, since no two policies of a catalogue scenario have
/// the same identifier.
pub open spec fn prepared_as(kind: ScenarioKind, r: Result<PreparedBenchmark, PrepareError>) -> bool {
    &&& is_prepared(scenario_model(kind), SCHEMA_SRC@, r)
    &&& !(r matches Err(PrepareError::PolicySet { index }))
}

/// What preparing a group of kinds comes to: the prepared scenarios in the
/// group's order, each prepared as its kind is, or the failure of the first
/// kind that is not prepared.
pub open spec fn prepared_group(
    kinds: Seq<ScenarioKind>,
    r: Result<Vec<PreparedBenchmark>, PrepareError>,
) -> bool {
    match r {
        Ok(benches) => {
            &&& benches@.len() == kinds.len()
            &&& forall|i: int|
                0 <= i < kinds.len() ==> prepared_as(
                    kinds[i],
                    Ok::<PreparedBenchmark, PrepareError>(#[trigger] benches@[i]),
                )
        },
        Err(e) => exists|i: int|
            0 <= i < kinds.len() && #[trigger] prepared_as(
                kinds[i],
                Err::<PreparedBenchmark, PrepareError>(e),
            ) && forall|j: int|
                0 <= j < i ==> prepares(scenario_model(#[trigger] kinds[j]), SCHEMA_SRC@),
    }
}

/// No two policies of a catalogue scenario have the same identifier.
pub proof fn lemma_catalogue_keys_distinct(kind: ScenarioKind)
    ensures
        keys(policies_of(kind)).no_duplicates(),
{
    let k = keys(policies_of(kind));
    assert forall|i: int, j: int| 0 <= i < k.len() && 0 <= j < k.len() && i != j implies k[i]
        != k[j] by {
        lemma_fragment_ids_distinct("complex_"@, i as nat, j as nat);
    }
}

/// Preparing is a function of the scenario and the schema: two outcomes for
/// the same two are both prepared scenarios, or the same failure.
pub proof fn lemma_preparation_determined(
    scenario: ScenarioModel,
    schema: Seq<char>,
    first: Result<PreparedBenchmark, PrepareError>,
    second: Result<PreparedBenchmark, PrepareError>,
)
    requires
        is_prepared(scenario, schema, first),
        is_prepared(scenario, schema, second),
    ensures
        first is Ok <==> second is Ok,
        first is Ok <==> prepares(scenario, schema),
        first matches Err(e) ==> second == Err::<PreparedBenchmark, PrepareError>(e),
{
    let p = scenario.policies;
    match (first, second) {
        (Err(PrepareError::Policy { index: a }), Err(PrepareError::Policy { index: b })) => {
            if a < b {
                assert(joins(p, a as int));
            }
            if b < a {
                assert(joins(p, b as int));
            }
        },
        (Err(PrepareError::PolicySet { index: a }), Err(PrepareError::PolicySet { index: b })) => {
            if a < b {
                assert(joins(p, a as int));
            }
            if b < a {
                assert(joins(p, b as int));
            }
        },
        (Err(PrepareError::Policy { index: a }), Err(PrepareError::PolicySet { index: b })) => {
            if a < b {
                assert(joins(p, a as int));
            }
            if b < a {
                assert(joins(p, b as int));
            }
        },
        (Err(PrepareError::PolicySet { index: a }), Err(PrepareError::Policy { index: b })) => {
            if a < b {
                assert(joins(p, a as int));
            }
            if b < a {
                assert(joins(p, b as int));
            }
        },
        (Err(PrepareError::Policy { index }), _) => {
            if compiles(p) {
                assert(joins(p, index as int));
            }
        },
        (Err(PrepareError::PolicySet { index }), _) => {
            if compiles(p) {
                assert(joins(p, index as int));
            }
        },
        (_, Err(PrepareError::Policy { index })) => {
            if compiles(p) {
                assert(joins(p, index as int));
            }
        },
        (_, Err(PrepareError::PolicySet { index })) => {
            if compiles(p) {
                assert(joins(p, index as int));
            }
        },
        _ => {},
    }
}

/// Prepares one scenario against a schema: asks the engine to read the
/// schema, compiles the scenario's policies into one set, loads the entity
/// document of its attributes, and builds its request. The first verdict
/// against the scenario ends the preparation.
pub fn prepare(scenario: &Scenario, schema: &str) -> (r: Result<PreparedBenchmark, PrepareError>)
    ensures
        is_prepared(scenario@, schema@, r),
        r is Ok <==> prepares(scenario@, schema@),
{
    match validate_schema(schema) {
        Ok(_) => {},
        Err(e) => {
            return Err(e);
        },
    }
    let policy_set = match compile_policies(&scenario.policies) {
        Ok(set) => set,
        Err(e) => {
            return Err(e);
        },
    };
    let entities = match load_scenario_entities(scenario, schema) {
        Ok(entities) => entities,
        Err(e) => {
            return Err(e);
        },
    };
    let request = match build_request(scenario, schema) {
        Ok(request) => request,
        Err(e) => {
            return Err(e);
        },
    };
    Ok(
        PreparedBenchmark {
            name: scenario.name.clone(),
            authorizer: new_authorizer(),
            policy_set,
            entities,
            request,
        },
    )
}

/// Prepares the scenario of a kind against the shared schema.
pub fn prepare_kind(kind: ScenarioKind) -> (r: Result<PreparedBenchmark, PrepareError>)
    ensures
        prepared_as(kind, r),
        r is Ok <==> prepares(scenario_model(kind), SCHEMA_SRC@),
{
    let entry = scenario(kind);
    let r = prepare(&entry, SCHEMA_SRC);
    proof {
        lemma_catalogue_keys_distinct(kind);
        lemma_compiles(policies_of(kind));
        match r {
            Err(PrepareError::PolicySet { index }) => {
                let all = policies_of(kind);
                let clash = choose|j: int|
                    0 <= j < index && #[trigger] keys(all)[j] == keys(all)[index as int];
                assert(keys(all)[clash] == keys(all)[index as int]);
            },
            _ => {},
        }
    }
    r
}

/// Prepares the scenarios of the given kinds, in order, against the shared
/// schema. The first failure ends the preparation.
pub fn prepare_kinds(kinds: &Vec<ScenarioKind>) -> (r: Result<Vec<PreparedBenchmark>, PrepareError>)
    ensures
        prepared_group(kinds@, r),
        r is Ok <==> forall|i: int|
            0 <= i < kinds@.len() ==> prepares(scenario_model(#[trigger] kinds@[i]), SCHEMA_SRC@),
{
    let mut benches: Vec<PreparedBenchmark> = Vec::new();
    let mut i: usize = 0;
    while i < kinds.len()
        invariant
            i <= kinds@.len(),
            benches@.len() == i,
            forall|k: int|
                0 <= k < i ==> prepared_as(
                    kinds@[k],
                    Ok::<PreparedBenchmark, PrepareError>(#[trigger] benches@[k]),
                ),
            forall|k: int| 0 <= k < i ==> prepares(scenario_model(#[trigger] kinds@[k]), SCHEMA_SRC@),
        decreases kinds.len() - i,
    {
        match prepare_kind(kinds[i]) {
            Ok(bench) => {
                benches.push(bench);
            },
            Err(e) => {
                proof {
                    assert(prepared_as(kinds@[i as int], Err::<PreparedBenchmark, PrepareError>(e)));
                    assert(!prepares(scenario_model(kinds@[i as int]), SCHEMA_SRC@));
                }
                return Err(e);
            },
        }
        i = i + 1;
    }
    Ok(benches)
}

} // verus!
