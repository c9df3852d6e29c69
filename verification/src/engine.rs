//! The boundary with the Cedar engine and the clock. The calls in this module
//! are taken on trust: Verus reads their contracts and none of their bodies.
//!
//! The engine's values are opaque here. What the engine makes of a text is
//! a function of the text alone, but one whose statement fills pages: a
//! grammar, a validator. Such verdicts are given names, and the contracts say
//! which verdict a call returns. Which identifiers a policy set holds is
//! given a name too, because the set is the engine's own collection.
//!
//! The schema goes to the engine as text with every call that validates
//! against it, so that each verdict is a function of texts.

use cedar_policy::entities_errors::EntitiesError;
use cedar_policy::{
    Authorizer, CedarSchemaError, Context, Decision, Entities, EntityId, EntityTypeName, EntityUid,
    ParseErrors, Policy, PolicyId, PolicySet, PolicySetError, Request, RequestValidationError,
    Schema,
};
use std::str::FromStr;
use std::time::{Duration, Instant};
use vstd::prelude::*;

verus! {

#[verifier::external_type_specification]
#[verifier::external_body]
pub struct ExAuthorizer(Authorizer);

#[verifier::external_type_specification]
#[verifier::external_body]
pub struct ExPolicySet(PolicySet);

#[verifier::external_type_specification]
#[verifier::external_body]
pub struct ExEntities(Entities);

#[verifier::external_type_specification]
#[verifier::external_body]
pub struct ExRequest(Request);

#[verifier::external_type_specification]
#[verifier::external_body]
pub struct ExSchema(Schema);

#[verifier::external_type_specification]
#[verifier::external_body]
pub struct ExCedarSchemaError(CedarSchemaError);

#[verifier::external_type_specification]
#[verifier::external_body]
pub struct ExParseErrors(ParseErrors);

#[verifier::external_type_specification]
#[verifier::external_body]
pub struct ExPolicySetError(PolicySetError);

#[verifier::external_type_specification]
#[verifier::external_body]
pub struct ExEntitiesError(EntitiesError);

#[verifier::external_type_specification]
#[verifier::external_body]
pub struct ExRequestValidationError(RequestValidationError);

#[verifier::external_type_specification]
#[verifier::external_body]
pub struct ExInstant(Instant);

/// Whether the engine reads `text` as a schema in the Cedar schema syntax.
pub uninterp spec fn schema_parses(text: Seq<char>) -> bool;

/// Whether the engine reads `text` as one static policy, to be known as `id`
/// where one is given.
pub uninterp spec fn policy_parses(id: Option<Seq<char>>, text: Seq<char>) -> bool;

/// Whether the engine, given the schema `schema`, loads `json` as an entity
/// document that conforms to it.
pub uninterp spec fn entities_conform(json: Seq<char>, schema: Seq<char>) -> bool;

/// Whether the engine, given the schema `schema`, builds a valid request with
/// an empty context from a principal, an action and a resource, each named by
/// its entity type and its identifier.
pub uninterp spec fn request_conforms(
    principal_type: Seq<char>,
    principal: Seq<char>,
    action_type: Seq<char>,
    action: Seq<char>,
    resource_type: Seq<char>,
    resource: Seq<char>,
    schema: Seq<char>,
) -> bool;

/// The identifiers of the policies that a policy set holds.
pub uninterp spec fn policy_ids(set: PolicySet) -> Set<Seq<char>>;

/// The identifiers of the policies and of the templates that a policy set
/// holds.
pub uninterp spec fn taken_ids(set: PolicySet) -> Set<Seq<char>>;

/// The identifier under which the engine knows a parsed policy: the one that
/// was given, or `policy0`.
pub open spec fn policy_key(id: Option<Seq<char>>) -> Seq<char> {
    match id {
        Some(given) => given,
        None => "policy0"@,
    }
}

/// The text of an identifier that may be given.
pub open spec fn given(id: Option<&str>) -> Option<Seq<char>> {
    match id {
        Some(s) => Some(s@),
        None => None,
    }
}

/// Why the engine did not take a policy text into a policy set.
pub enum PolicyFault {
    /// The text does not parse.
    Unparsed(ParseErrors),
    /// The set refuses the parsed policy.
    Refused(PolicySetError),
}

/// Why the engine did not load an entity document.
pub enum EntitiesFault {
    /// The schema does not parse.
    Schema(CedarSchemaError),
    /// The document does not parse or does not conform to the schema.
    Refused(EntitiesError),
}

/// Why the engine did not build a request.
pub enum RequestFault {
    /// The schema does not parse.
    Schema(CedarSchemaError),
    /// An entity type is no name of the engine's.
    Name(ParseErrors),
    /// The request does not conform to the schema.
    Refused(RequestValidationError),
}

/// `Schema::from_str`: parses a schema in the Cedar schema syntax. Claimed:
/// the call succeeds exactly on the texts that `schema_parses` names.
#[verifier::external_body]
pub(crate) fn parse_schema(text: &str) -> (r: Result<Schema, CedarSchemaError>)
    ensures
        r is Ok <==> schema_parses(text@),
{
    Schema::from_str(text)
}

/// `PolicySet::new`: an empty policy set. Claimed: it holds no policy and no
/// template.
#[verifier::external_body]
pub(crate) fn new_policy_set() -> (set: PolicySet)
    ensures
        policy_ids(set) == Set::<Seq<char>>::empty(),
        taken_ids(set) == Set::<Seq<char>>::empty(),
{
    PolicySet::new()
}

/// `PolicySet::add` on `Policy::parse`: parses one static policy, known as
/// `id` or, without one, as `policy0`, and adds it to the set. Claimed: a text
/// that `policy_parses` does not name is not parsed; a parsed policy is
/// refused only where its identifier is taken by a policy or a template of
/// the set, and always where it is taken by a policy; a refusal of either
/// sort leaves the set as it was; an added policy adds its identifier to
/// those of the set.
#[verifier::external_body]
pub(crate) fn add_policy(set: &mut PolicySet, id: Option<&str>, text: &str) -> (r: Result<
    (),
    PolicyFault,
>)
    ensures
        match r {
            Ok(_) => policy_parses(given(id), text@) && !policy_ids(*old(set)).contains(
                policy_key(given(id)),
            ) && policy_ids(*final(set)) == policy_ids(*old(set)).insert(policy_key(given(id)))
                && taken_ids(*final(set)) == taken_ids(*old(set)).insert(policy_key(given(id))),
            Err(PolicyFault::Unparsed(_)) => !policy_parses(given(id), text@) && policy_ids(
                *final(set),
            ) == policy_ids(*old(set)) && taken_ids(*final(set)) == taken_ids(*old(set)),
            Err(PolicyFault::Refused(_)) => policy_parses(given(id), text@) && taken_ids(
                *old(set),
            ).contains(policy_key(given(id))) && policy_ids(*final(set)) == policy_ids(*old(set))
                && taken_ids(*final(set)) == taken_ids(*old(set)),
        },
{
    let policy = Policy::parse(id.map(PolicyId::new), text).map_err(PolicyFault::Unparsed)?;
    set.add(policy).map_err(PolicyFault::Refused)
}

/// `Entities::from_json_str` on `Schema::from_str`: parses the schema, then
/// parses the entity document and validates it against the schema. Claimed:
/// the call fails on the schema exactly where `schema_parses` does not name
/// it, and else succeeds exactly where `entities_conform` names document and
/// schema.
#[verifier::external_body]
pub(crate) fn load_entities(json: &str, schema: &str) -> (r: Result<Entities, EntitiesFault>)
    ensures
        match r {
            Ok(_) => schema_parses(schema@) && entities_conform(json@, schema@),
            Err(EntitiesFault::Schema(_)) => !schema_parses(schema@),
            Err(EntitiesFault::Refused(_)) => schema_parses(schema@) && !entities_conform(
                json@,
                schema@,
            ),
        },
{
    let schema = Schema::from_str(schema).map_err(EntitiesFault::Schema)?;
    Entities::from_json_str(json, Some(&schema)).map_err(EntitiesFault::Refused)
}

/// `Request::new` with `Context::empty`, on `Schema::from_str` and, for each
/// of principal, action and resource, `EntityUid::from_type_name_and_id` on
/// `EntityTypeName::from_str` and `EntityId::new`: parses the schema, builds
/// the three identities, then builds the request and validates it against
/// the schema. Claimed: the call fails on the schema exactly where
/// `schema_parses` does not name it, and else succeeds exactly where
/// `request_conforms` names the arguments.
#[verifier::external_body]
pub(crate) fn new_request(
    principal_type: &str,
    principal: &str,
    action_type: &str,
    action: &str,
    resource_type: &str,
    resource: &str,
    schema: &str,
) -> (r: Result<Request, RequestFault>)
    ensures
        match r {
            Ok(_) => schema_parses(schema@) && request_conforms(
                principal_type@,
                principal@,
                action_type@,
                action@,
                resource_type@,
                resource@,
                schema@,
            ),
            Err(RequestFault::Schema(_)) => !schema_parses(schema@),
            Err(_) => schema_parses(schema@) && !request_conforms(
                principal_type@,
                principal@,
                action_type@,
                action@,
                resource_type@,
                resource@,
                schema@,
            ),
        },
{
    let schema = Schema::from_str(schema).map_err(RequestFault::Schema)?;
    let p = EntityTypeName::from_str(principal_type).map_err(RequestFault::Name)?;
    let a = EntityTypeName::from_str(action_type).map_err(RequestFault::Name)?;
    let r = EntityTypeName::from_str(resource_type).map_err(RequestFault::Name)?;
    let p = EntityUid::from_type_name_and_id(p, EntityId::new(principal));
    let a = EntityUid::from_type_name_and_id(a, EntityId::new(action));
    let r = EntityUid::from_type_name_and_id(r, EntityId::new(resource));
    Request::new(p, a, r, Context::empty(), Some(&schema)).map_err(RequestFault::Refused)
}

/// `Authorizer::new`: a fresh authorizer. Nothing is claimed of it.
#[verifier::external_body]
pub(crate) fn new_authorizer() -> Authorizer {
    Authorizer::new()
}

/// `Authorizer::is_authorized` and `Response::decision`: the engine's decision
/// on a request, `true` for allow and `false` for deny. Nothing is claimed of
/// the outcome.
#[verifier::external_body]
pub(crate) fn is_authorized(
    authorizer: &Authorizer,
    request: &Request,
    policies: &PolicySet,
    entities: &Entities,
) -> bool {
    match authorizer.is_authorized(request, policies, entities).decision() {
        Decision::Allow => true,
        Decision::Deny => false,
    }
}

/// `Instant::now`: the present moment of the monotonic clock. Nothing is
/// claimed of it.
#[verifier::external_body]
pub(crate) fn now() -> Instant {
    Instant::now()
}

/// `Instant::elapsed`: the time that has passed since `start`. Nothing is
/// claimed of it.
#[verifier::external_body]
pub(crate) fn elapsed(start: &Instant) -> Duration {
    start.elapsed()
}

/// `Duration::as_nanos`: a duration in whole nanoseconds. Nothing is claimed
/// of it.
#[verifier::external_body]
pub(crate) fn as_nanos(duration: &Duration) -> u128 {
    duration.as_nanos()
}

} // verus!
