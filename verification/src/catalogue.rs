//! The fixture catalogue: every scenario of a run, by kind.
//!
//! A scenario is plain data: a name, the policy texts, the principal's
//! attributes and the request. Nothing here touches the engine.

use crate::attrs::{
    has_name, put, put_if_absent, texts, AttrModel, AttrValue, AttributeRecord,
    RecordModel,
};
use crate::json::entities_text;
use crate::policy::{
    containment_policy, containment_rule, fragment_id, rule_fragments, rule_id, split_rules,
    COMPLEX_POLICY, MEDIUM_POLICY, SIMPLE_POLICY,
};
use crate::text::{decimal, push_decimal};
use vstd::prelude::*;

verus! {

/// The scenarios of the catalogue, in catalogue order.
#[derive(Debug, Clone, Copy, PartialEq, Eq, Structural)]
pub enum ScenarioKind {
    SimpleSatisfied,
    SimpleContradicted,
    MediumSatisfied,
    MediumPartial,
    ComplexSatisfied,
    ComplexPartial,
    QuantifierSmallSatisfied,
    QuantifierSmallContradicted,
    QuantifierLargeSatisfied,
    QuantifierLargeContradicted,
    CountSmallSatisfied,
    CountSmallContradicted,
    CountMediumSatisfied,
    CountLargeSatisfied,
    CountLargeContradicted,
}

/// One policy of a scenario: its text, and its identifier where the scenario
/// assigns one.
#[derive(Debug)]
pub struct PolicySource {
    pub id: Option<String>,
    pub text: String,
}

impl View for PolicySource {
    type V = (Option<Seq<char>>, Seq<char>);

    open spec fn view(&self) -> (Option<Seq<char>>, Seq<char>) {
        (
            match self.id {
                Some(id) => Some(id@),
                None => None,
            },
            self.text@,
        )
    }
}

/// The policies that a list holds.
pub open spec fn sources(v: Seq<PolicySource>) -> Seq<(Option<Seq<char>>, Seq<char>)> {
    v.map_values(|p: PolicySource| p@)
}

/// One benchmark scenario.
#[derive(Debug)]
pub struct Scenario {
    pub name: String,
    pub policies: Vec<PolicySource>,
    pub attributes: AttributeRecord,
    pub principal: String,
    pub action: String,
    pub resource: String,
}

/// What a scenario stands for.
#[verifier::ext_equal]
pub struct ScenarioModel {
    pub name: Seq<char>,
    pub policies: Seq<(Option<Seq<char>>, Seq<char>)>,
    pub attributes: RecordModel,
    pub principal: Seq<char>,
    pub action: Seq<char>,
    pub resource: Seq<char>,
}

impl View for Scenario {
    type V = ScenarioModel;

    open spec fn view(&self) -> ScenarioModel {
        ScenarioModel {
            name: self.name@,
            policies: sources(self.policies@),
            attributes: self.attributes@,
            principal: self.principal@,
            action: self.action@,
            resource: self.resource@,
        }
    }
}

/// The texts `prefix` followed by the numerals of `first`, `first + 1`, ...,
/// `count` of them.
pub open spec fn numbered(prefix: Seq<char>, first: nat, count: nat) -> Seq<Seq<char>> {
    Seq::new(count, |i: int| prefix + decimal((first + i) as nat))
}

/// Whether every text of `required` occurs in `held`.
pub open spec fn contains_all(held: Seq<Seq<char>>, required: Seq<Seq<char>>) -> bool {
    forall|k: int| 0 <= k < required.len() ==> held.contains(#[trigger] required[k])
}

/// The flags that the quantifier rule requires.
pub open spec fn required_flags() -> Seq<Seq<char>> {
    numbered("flag"@, 1, 5)
}

/// The identifiers that the count rule requires.
pub open spec fn required_ids() -> Seq<Seq<char>> {
    numbered("u"@, 1, 5)
}

/// A flag set of `size` flags that holds every required flag: the required
/// ones, then `extra6`, `extra7`, ... up to `size` in all.
pub open spec fn flags_with_required(size: nat) -> Seq<Seq<char>> {
    required_flags() + numbered("extra"@, 6, (size - 5) as nat)
}

/// A flag set of `size` flags that holds no required flag: `extra1`, `extra2`, ...
pub open spec fn flags_without_required(size: nat) -> Seq<Seq<char>> {
    numbered("extra"@, 1, size)
}

/// An identifier set of `size` identifiers that holds every required one:
/// `u1`, `u2`, ...
pub open spec fn ids_with_required(size: nat) -> Seq<Seq<char>> {
    numbered("u"@, 1, size)
}

/// An identifier set of `size` identifiers that holds no required one:
/// `u6`, `u7`, ...
pub open spec fn ids_without_required(size: nat) -> Seq<Seq<char>> {
    numbered("u"@, 6, size)
}

/// The eighteen scalar attributes of a user, in schema order.
pub open spec fn scalars_of(
    role: Seq<char>, level: int, status: Seq<char>, age: int, score: int, department: Seq<char>,
    clearance: int, tenure: int, karma: int, warnings: int, reputation: int, verified: bool,
    region: Seq<char>, restricted_flag: Seq<char>, account_age: int, trust_score: int, subscription: Seq<char>, trial: bool,
) -> RecordModel {
    let m = Seq::<(Seq<char>, AttrModel)>::empty();
    let m = put(m, "role"@, AttrModel::Text(role));
    let m = put(m, "level"@, AttrModel::Long(level));
    let m = put(m, "status"@, AttrModel::Text(status));
    let m = put(m, "age"@, AttrModel::Long(age));
    let m = put(m, "score"@, AttrModel::Long(score));
    let m = put(m, "department"@, AttrModel::Text(department));
    let m = put(m, "clearance"@, AttrModel::Long(clearance));
    let m = put(m, "tenure"@, AttrModel::Long(tenure));
    let m = put(m, "karma"@, AttrModel::Long(karma));
    let m = put(m, "warnings"@, AttrModel::Long(warnings));
    let m = put(m, "reputation"@, AttrModel::Long(reputation));
    let m = put(m, "verified"@, AttrModel::Flag(verified));
    let m = put(m, "region"@, AttrModel::Text(region));
    let m = put(m, "restricted-flag"@, AttrModel::Text(restricted_flag));
    let m = put(m, "account-age"@, AttrModel::Long(account_age));
    let m = put(m, "trust-score"@, AttrModel::Long(trust_score));
    let m = put(m, "subscription"@, AttrModel::Text(subscription));
    let m = put(m, "trial"@, AttrModel::Flag(trial));
    m
}

/// The scalars of the user that the quantifier and count scenarios share.
pub open spec fn plain_user() -> RecordModel {
    scalars_of(
        "user"@, 1, "active"@, 30, 50, "engineering"@,
        1, 1, 100, 0, 100, true,
        "us"@, ""@, 100, 50, "free"@, false,
    )
}

/// A record with the attributes of the count rule filled in where the record
/// says nothing of `user-ids`: empty identifier sets and an active user. A
/// record that has `user-ids` is left as it is.
pub open spec fn with_count_defaults(m: RecordModel) -> RecordModel {
    if has_name(m, "user-ids"@) {
        m
    } else {
        let m = put_if_absent(m, "user-ids"@, AttrModel::TextSet(Seq::empty()));
        let m = put_if_absent(m, "active-user-ids"@, AttrModel::TextSet(Seq::empty()));
        let m = put_if_absent(m, "org-member-ids"@, AttrModel::TextSet(Seq::empty()));
        let m = put_if_absent(m, "active"@, AttrModel::Flag(true));
        m
    }
}

/// The attributes of a complexity scenario: the scalars, no roles, no flags,
/// and the count rule's defaults.
pub open spec fn complexity_record(scalars: RecordModel) -> RecordModel {
    let m = put(scalars, "roles"@, AttrModel::TextSet(Seq::empty()));
    let m = put(m, "active-flags"@, AttrModel::TextSet(Seq::empty()));
    with_count_defaults(m)
}

/// The attributes of a quantifier or count scenario: the plain user with the
/// role `user` and the given sets.
pub open spec fn structural_record(
    flags: Seq<Seq<char>>,
    user_ids: Seq<Seq<char>>,
    active_user_ids: Seq<Seq<char>>,
    org_member_ids: Seq<Seq<char>>,
    active: bool,
) -> RecordModel {
    let m = put(plain_user(), "roles"@, AttrModel::TextSet(seq!["user"@]));
    let m = put(m, "active-flags"@, AttrModel::TextSet(flags));
    let m = put(m, "user-ids"@, AttrModel::TextSet(user_ids));
    let m = put(m, "active-user-ids"@, AttrModel::TextSet(active_user_ids));
    let m = put(m, "org-member-ids"@, AttrModel::TextSet(org_member_ids));
    let m = put(m, "active"@, AttrModel::Flag(active));
    m
}

/// The attributes of a quantifier scenario with the given flags.
pub open spec fn quantifier_record(flags: Seq<Seq<char>>) -> RecordModel {
    structural_record(flags, Seq::empty(), Seq::empty(), Seq::empty(), true)
}

/// The attributes of a count scenario with the given identifiers.
pub open spec fn count_record(user_ids: Seq<Seq<char>>) -> RecordModel {
    structural_record(Seq::empty(), user_ids, Seq::empty(), Seq::empty(), true)
}

/// The name of a scenario.
pub open spec fn name_of(kind: ScenarioKind) -> Seq<char> {
    match kind {
        ScenarioKind::SimpleSatisfied => "cedar/simple-satisfied"@,
        ScenarioKind::SimpleContradicted => "cedar/simple-contradicted"@,
        ScenarioKind::MediumSatisfied => "cedar/medium-satisfied"@,
        ScenarioKind::MediumPartial => "cedar/medium-partial"@,
        ScenarioKind::ComplexSatisfied => "cedar/complex-satisfied"@,
        ScenarioKind::ComplexPartial => "cedar/complex-partial"@,
        ScenarioKind::QuantifierSmallSatisfied => "cedar/quantifier/containsall-small-satisfied"@,
        ScenarioKind::QuantifierSmallContradicted => "cedar/quantifier/containsall-small-contradicted"@,
        ScenarioKind::QuantifierLargeSatisfied => "cedar/quantifier/containsall-large-satisfied"@,
        ScenarioKind::QuantifierLargeContradicted => "cedar/quantifier/containsall-large-contradicted"@,
        ScenarioKind::CountSmallSatisfied => "cedar/count/containsall-small-satisfied"@,
        ScenarioKind::CountSmallContradicted => "cedar/count/containsall-small-contradicted"@,
        ScenarioKind::CountMediumSatisfied => "cedar/count/containsall-medium-satisfied"@,
        ScenarioKind::CountLargeSatisfied => "cedar/count/containsall-large-satisfied"@,
        ScenarioKind::CountLargeContradicted => "cedar/count/containsall-large-contradicted"@,
    }
}

/// The flags of a quantifier scenario, the identifiers of a count scenario.
pub open spec fn elements_of(kind: ScenarioKind) -> Seq<Seq<char>> {
    match kind {
        ScenarioKind::QuantifierSmallSatisfied => required_flags(),
        ScenarioKind::QuantifierSmallContradicted => numbered("flag"@, 1, 4),
        ScenarioKind::QuantifierLargeSatisfied => flags_with_required(100),
        ScenarioKind::QuantifierLargeContradicted => flags_without_required(100),
        ScenarioKind::CountSmallSatisfied => ids_with_required(5),
        ScenarioKind::CountSmallContradicted => ids_with_required(3),
        ScenarioKind::CountMediumSatisfied => ids_with_required(20),
        ScenarioKind::CountLargeSatisfied => ids_with_required(100),
        ScenarioKind::CountLargeContradicted => ids_without_required(100),
        _ => Seq::empty(),
    }
}

/// The attributes of a scenario's principal.
pub open spec fn attributes_of(kind: ScenarioKind) -> RecordModel {
    match kind {
        ScenarioKind::SimpleSatisfied | ScenarioKind::MediumSatisfied => complexity_record(
            scalars_of(
                "admin"@, 10, "active"@, 30, 95, "engineering"@,
                5, 6, 500, 0, 500, true,
                "us"@, ""@, 400, 95, "premium"@, false,
            ),
        ),
        ScenarioKind::SimpleContradicted => complexity_record(
            scalars_of(
                "guest"@, 2, "banned"@, 30, 50, "marketing"@,
                1, 1, 100, 5, 100, false,
                "other"@, "flagged"@, 30, 50, "free"@, true,
            ),
        ),
        ScenarioKind::MediumPartial => complexity_record(
            scalars_of(
                "admin"@, 3, "inactive"@, 70, 50, "marketing"@,
                1, 1, 100, 5, 100, false,
                "other"@, ""@, 30, 50, "free"@, false,
            ),
        ),
        ScenarioKind::ComplexSatisfied => complexity_record(
            scalars_of(
                "admin"@, 15, "active"@, 30, 95, "security"@,
                5, 6, 500, 0, 500, true,
                "us"@, ""@, 400, 95, "premium"@, false,
            ),
        ),
        ScenarioKind::ComplexPartial => complexity_record(
            scalars_of(
                "admin"@, 15, "inactive"@, 30, 50, "marketing"@,
                1, 1, 100, 5, 100, false,
                "other"@, ""@, 30, 50, "free"@, false,
            ),
        ),
        ScenarioKind::QuantifierSmallSatisfied
        | ScenarioKind::QuantifierSmallContradicted
        | ScenarioKind::QuantifierLargeSatisfied
        | ScenarioKind::QuantifierLargeContradicted => quantifier_record(elements_of(kind)),
        _ => count_record(elements_of(kind)),
    }
}

/// The policies of the complex scenarios: one for each rule fragment of the
/// complex text, called `complex_0`, `complex_1`, ... by position.
pub open spec fn complex_sources() -> Seq<(Option<Seq<char>>, Seq<char>)> {
    let fragments = rule_fragments(COMPLEX_POLICY@);
    Seq::new(
        fragments.len(),
        |i: int| (Some(fragment_id("complex_"@, i as nat)), fragments[i]),
    )
}

/// The policies of a scenario.
pub open spec fn policies_of(kind: ScenarioKind) -> Seq<(Option<Seq<char>>, Seq<char>)> {
    match kind {
        ScenarioKind::SimpleSatisfied | ScenarioKind::SimpleContradicted => seq![
            (None, SIMPLE_POLICY@),
        ],
        ScenarioKind::MediumSatisfied | ScenarioKind::MediumPartial => seq![(None, MEDIUM_POLICY@)],
        ScenarioKind::ComplexSatisfied | ScenarioKind::ComplexPartial => complex_sources(),
        ScenarioKind::QuantifierSmallSatisfied
        | ScenarioKind::QuantifierSmallContradicted
        | ScenarioKind::QuantifierLargeSatisfied
        | ScenarioKind::QuantifierLargeContradicted => seq![
            (None, containment_policy("active-flags"@, required_flags())),
        ],
        _ => seq![(None, containment_policy("user-ids"@, required_ids()))],
    }
}

/// The scenario of a kind. The request is the same for all: the user
/// `test-user` asks to `access` the resource `test-resource`.
pub open spec fn scenario_model(kind: ScenarioKind) -> ScenarioModel {
    ScenarioModel {
        name: name_of(kind),
        policies: policies_of(kind),
        attributes: attributes_of(kind),
        principal: "test-user"@,
        action: "access"@,
        resource: "test-resource"@,
    }
}

/// The catalogue, in order.
pub open spec fn catalogue_order() -> Seq<ScenarioKind> {
    seq![
        ScenarioKind::SimpleSatisfied,
        ScenarioKind::SimpleContradicted,
        ScenarioKind::MediumSatisfied,
        ScenarioKind::MediumPartial,
        ScenarioKind::ComplexSatisfied,
        ScenarioKind::ComplexPartial,
        ScenarioKind::QuantifierSmallSatisfied,
        ScenarioKind::QuantifierSmallContradicted,
        ScenarioKind::QuantifierLargeSatisfied,
        ScenarioKind::QuantifierLargeContradicted,
        ScenarioKind::CountSmallSatisfied,
        ScenarioKind::CountSmallContradicted,
        ScenarioKind::CountMediumSatisfied,
        ScenarioKind::CountLargeSatisfied,
        ScenarioKind::CountLargeContradicted,
    ]
}

/// `count` numbered texts, starting at `first`.
pub fn numbered_texts(prefix: &str, first: u64, count: usize) -> (out: Vec<String>)
    requires
        first + count <= u64::MAX,
    ensures
        texts(out@) == numbered(prefix@, first as nat, count as nat),
        out@.len() == count,
        texts(out@).no_duplicates(),
{
    let mut out: Vec<String> = Vec::new();
    let mut i: usize = 0;
    while i < count
        invariant
            i <= count,
            first + count <= u64::MAX,
            out@.len() == i,
            forall|k: int|
                0 <= k < i ==> (#[trigger] out@[k])@ == prefix@ + decimal((first + k) as nat),
        decreases count - i,
    {
        let mut item = String::from_str(prefix);
        push_decimal(&mut item, first + i as u64);
        out.push(item);
        i = i + 1;
    }
    proof {
        assert(texts(out@) =~= numbered(prefix@, first as nat, count as nat));
        lemma_numbered_exact(prefix@, first as nat, count as nat);
    }
    out
}

/// A flag set generated for `size` with the required flags: exactly `size`
/// flags, none twice, every required flag among them.
pub fn flag_set_with_required(size: usize) -> (out: Vec<String>)
    requires
        5 <= size < u64::MAX,
    ensures
        texts(out@) == flags_with_required(size as nat),
        out@.len() == size,
        texts(out@).no_duplicates(),
        contains_all(texts(out@), required_flags()),
{
    let mut out = numbered_texts("flag", 1, 5);
    let mut rest = numbered_texts("extra", 6, size - 5);
    let ghost head = out@;
    let ghost tail = rest@;
    out.append(&mut rest);
    proof {
        assert(texts(out@) =~= texts(head) + texts(tail));
        lemma_flags_with_required(size as nat);
    }
    out
}

/// A flag set generated for `size` without the required flags: exactly `size`
/// flags, none twice, not one required flag among them.
pub fn flag_set_without_required(size: usize) -> (out: Vec<String>)
    requires
        size < u64::MAX,
    ensures
        texts(out@) == flags_without_required(size as nat),
        out@.len() == size,
        texts(out@).no_duplicates(),
        !contains_all(texts(out@), required_flags()),
{
    let out = numbered_texts("extra", 1, size);
    proof {
        lemma_flags_without_required(size as nat);
    }
    out
}

/// An identifier set generated for `size` with the required identifiers:
/// exactly `size` identifiers, none twice, every required one among them.
pub fn id_set_with_required(size: usize) -> (out: Vec<String>)
    requires
        5 <= size < u64::MAX,
    ensures
        texts(out@) == ids_with_required(size as nat),
        out@.len() == size,
        texts(out@).no_duplicates(),
        contains_all(texts(out@), required_ids()),
{
    let out = numbered_texts("u", 1, size);
    proof {
        lemma_ids_with_required(size as nat);
    }
    out
}

/// An identifier set generated for `size` without the required identifiers:
/// exactly `size` identifiers, none twice, not one required one among them.
pub fn id_set_without_required(size: usize) -> (out: Vec<String>)
    requires
        size <= u64::MAX - 6,
    ensures
        texts(out@) == ids_without_required(size as nat),
        out@.len() == size,
        texts(out@).no_duplicates(),
        !contains_all(texts(out@), required_ids()),
{
    let out = numbered_texts("u", 6, size);
    proof {
        lemma_ids_without_required(size as nat);
    }
    out
}

/// The eighteen scalar attributes of a user.
pub fn scalars(
    role: &str, level: i64, status: &str, age: i64, score: i64, department: &str,
    clearance: i64, tenure: i64, karma: i64, warnings: i64, reputation: i64, verified: bool,
    region: &str, restricted_flag: &str, account_age: i64, trust_score: i64, subscription: &str, trial: bool,
) -> (record: AttributeRecord)
    ensures
        record@ == scalars_of(
            role@,
            level as int,
            status@,
            age as int,
            score as int,
            department@,
            clearance as int,
            tenure as int,
            karma as int,
            warnings as int,
            reputation as int,
            verified,
            region@,
            restricted_flag@,
            account_age as int,
            trust_score as int,
            subscription@,
            trial,
        ),
        record.wf(),
{
    let mut record = AttributeRecord::new();
    record.set("role", AttrValue::Text(String::from_str(role)));
    record.set("level", AttrValue::Long(level));
    record.set("status", AttrValue::Text(String::from_str(status)));
    record.set("age", AttrValue::Long(age));
    record.set("score", AttrValue::Long(score));
    record.set("department", AttrValue::Text(String::from_str(department)));
    record.set("clearance", AttrValue::Long(clearance));
    record.set("tenure", AttrValue::Long(tenure));
    record.set("karma", AttrValue::Long(karma));
    record.set("warnings", AttrValue::Long(warnings));
    record.set("reputation", AttrValue::Long(reputation));
    record.set("verified", AttrValue::Flag(verified));
    record.set("region", AttrValue::Text(String::from_str(region)));
    record.set("restricted-flag", AttrValue::Text(String::from_str(restricted_flag)));
    record.set("account-age", AttrValue::Long(account_age));
    record.set("trust-score", AttrValue::Long(trust_score));
    record.set("subscription", AttrValue::Text(String::from_str(subscription)));
    record.set("trial", AttrValue::Flag(trial));
    record
}

/// The set attribute that holds nothing.
pub fn empty_set() -> (value: AttrValue)
    ensures
        value@ == AttrModel::TextSet(Seq::empty()),
{
    let items: Vec<String> = Vec::new();
    assert(texts(items@) =~= Seq::<Seq<char>>::empty());
    AttrValue::TextSet(items)
}

/// Fills in the attributes of the count rule where the record says nothing of
/// `user-ids`.
pub fn add_count_defaults(record: &mut AttributeRecord)
    requires
        old(record).wf(),
    ensures
        final(record)@ == with_count_defaults(old(record)@),
        final(record).wf(),
{
    if !record.contains("user-ids") {
        record.set_if_absent("user-ids", empty_set());
        record.set_if_absent("active-user-ids", empty_set());
        record.set_if_absent("org-member-ids", empty_set());
        record.set_if_absent("active", AttrValue::Flag(true));
    }
}

/// Completes the scalars of a complexity scenario.
pub fn complexity_attributes(scalars: AttributeRecord) -> (record: AttributeRecord)
    requires
        scalars.wf(),
    ensures
        record@ == complexity_record(scalars@),
        record.wf(),
{
    let mut record = scalars;
    record.set("roles", empty_set());
    record.set("active-flags", empty_set());
    add_count_defaults(&mut record);
    record
}

/// The attributes of a quantifier or count scenario.
pub fn structural_attributes(
    flags: Vec<String>,
    user_ids: Vec<String>,
    active_user_ids: Vec<String>,
    org_member_ids: Vec<String>,
    active: bool,
) -> (record: AttributeRecord)
    ensures
        record@ == structural_record(
            texts(flags@),
            texts(user_ids@),
            texts(active_user_ids@),
            texts(org_member_ids@),
            active,
        ),
        record.wf(),
{
    let mut record = scalars(
        "user", 1, "active", 30, 50, "engineering",
        1, 1, 100, 0, 100, true,
        "us", "", 100, 50, "free", false,
    );
    let mut roles: Vec<String> = Vec::new();
    roles.push(String::from_str("user"));
    assert(texts(roles@) =~= seq!["user"@]);
    record.set("roles", AttrValue::TextSet(roles));
    record.set("active-flags", AttrValue::TextSet(flags));
    record.set("user-ids", AttrValue::TextSet(user_ids));
    record.set("active-user-ids", AttrValue::TextSet(active_user_ids));
    record.set("org-member-ids", AttrValue::TextSet(org_member_ids));
    record.set("active", AttrValue::Flag(active));
    record
}

/// The name of a scenario.
pub fn name(kind: ScenarioKind) -> (text: String)
    ensures
        text@ == name_of(kind),
{
    String::from_str(
        match kind {
            ScenarioKind::SimpleSatisfied => "cedar/simple-satisfied",
            ScenarioKind::SimpleContradicted => "cedar/simple-contradicted",
            ScenarioKind::MediumSatisfied => "cedar/medium-satisfied",
            ScenarioKind::MediumPartial => "cedar/medium-partial",
            ScenarioKind::ComplexSatisfied => "cedar/complex-satisfied",
            ScenarioKind::ComplexPartial => "cedar/complex-partial",
            ScenarioKind::QuantifierSmallSatisfied => "cedar/quantifier/containsall-small-satisfied",
            ScenarioKind::QuantifierSmallContradicted => "cedar/quantifier/containsall-small-contradicted",
            ScenarioKind::QuantifierLargeSatisfied => "cedar/quantifier/containsall-large-satisfied",
            ScenarioKind::QuantifierLargeContradicted => "cedar/quantifier/containsall-large-contradicted",
            ScenarioKind::CountSmallSatisfied => "cedar/count/containsall-small-satisfied",
            ScenarioKind::CountSmallContradicted => "cedar/count/containsall-small-contradicted",
            ScenarioKind::CountMediumSatisfied => "cedar/count/containsall-medium-satisfied",
            ScenarioKind::CountLargeSatisfied => "cedar/count/containsall-large-satisfied",
            ScenarioKind::CountLargeContradicted => "cedar/count/containsall-large-contradicted",
        },
    )
}

/// The flags of a quantifier scenario, the identifiers of a count scenario.
pub fn elements(kind: ScenarioKind) -> (out: Vec<String>)
    ensures
        texts(out@) == elements_of(kind),
{
    match kind {
        ScenarioKind::QuantifierSmallSatisfied => numbered_texts("flag", 1, 5),
        ScenarioKind::QuantifierSmallContradicted => numbered_texts("flag", 1, 4),
        ScenarioKind::QuantifierLargeSatisfied => flag_set_with_required(100),
        ScenarioKind::QuantifierLargeContradicted => flag_set_without_required(100),
        ScenarioKind::CountSmallSatisfied => id_set_with_required(5),
        ScenarioKind::CountSmallContradicted => numbered_texts("u", 1, 3),
        ScenarioKind::CountMediumSatisfied => id_set_with_required(20),
        ScenarioKind::CountLargeSatisfied => id_set_with_required(100),
        ScenarioKind::CountLargeContradicted => id_set_without_required(100),
        _ => {
            let out: Vec<String> = Vec::new();
            assert(texts(out@) =~= Seq::<Seq<char>>::empty());
            out
        },
    }
}

/// A list of texts that holds nothing.
pub fn no_texts() -> (out: Vec<String>)
    ensures
        texts(out@) == Seq::<Seq<char>>::empty(),
{
    let out: Vec<String> = Vec::new();
    assert(texts(out@) =~= Seq::<Seq<char>>::empty());
    out
}

/// The attributes of a scenario's principal.
pub fn attributes(kind: ScenarioKind) -> (record: AttributeRecord)
    ensures
        record@ == attributes_of(kind),
        record.wf(),
{
    match kind {
        ScenarioKind::SimpleSatisfied | ScenarioKind::MediumSatisfied => complexity_attributes(
            scalars(
                "admin", 10, "active", 30, 95, "engineering",
                5, 6, 500, 0, 500, true,
                "us", "", 400, 95, "premium", false,
            ),
        ),
        ScenarioKind::SimpleContradicted => complexity_attributes(
            scalars(
                "guest", 2, "banned", 30, 50, "marketing",
                1, 1, 100, 5, 100, false,
                "other", "flagged", 30, 50, "free", true,
            ),
        ),
        ScenarioKind::MediumPartial => complexity_attributes(
            scalars(
                "admin", 3, "inactive", 70, 50, "marketing",
                1, 1, 100, 5, 100, false,
                "other", "", 30, 50, "free", false,
            ),
        ),
        ScenarioKind::ComplexSatisfied => complexity_attributes(
            scalars(
                "admin", 15, "active", 30, 95, "security",
                5, 6, 500, 0, 500, true,
                "us", "", 400, 95, "premium", false,
            ),
        ),
        ScenarioKind::ComplexPartial => complexity_attributes(
            scalars(
                "admin", 15, "inactive", 30, 50, "marketing",
                1, 1, 100, 5, 100, false,
                "other", "", 30, 50, "free", false,
            ),
        ),
        ScenarioKind::QuantifierSmallSatisfied
        | ScenarioKind::QuantifierSmallContradicted
        | ScenarioKind::QuantifierLargeSatisfied
        | ScenarioKind::QuantifierLargeContradicted => structural_attributes(
            elements(kind),
            no_texts(),
            no_texts(),
            no_texts(),
            true,
        ),
        _ => structural_attributes(no_texts(), elements(kind), no_texts(), no_texts(), true),
    }
}

/// A scenario's only policy, without an identifier of its own.
pub fn single_policy(text: String) -> (out: Vec<PolicySource>)
    ensures
        sources(out@) == seq![(None::<Seq<char>>, text@)],
{
    let mut out: Vec<PolicySource> = Vec::new();
    out.push(PolicySource { id: None, text });
    assert(sources(out@) =~= seq![(None::<Seq<char>>, text@)]);
    out
}

/// The policies of the complex scenarios.
pub fn complex_policies() -> (out: Vec<PolicySource>)
    ensures
        sources(out@) == complex_sources(),
{
    let fragments = split_rules(COMPLEX_POLICY);
    let ghost cut = texts(fragments@);
    let mut out: Vec<PolicySource> = Vec::new();
    let mut i: usize = 0;
    while i < fragments.len()
        invariant
            i <= fragments@.len(),
            cut == texts(fragments@),
            out@.len() == i,
            forall|k: int|
                0 <= k < i ==> (#[trigger] out@[k])@ == (
                    Some(fragment_id("complex_"@, k as nat)),
                    cut[k],
                ),
        decreases fragments.len() - i,
    {
        out.push(PolicySource { id: Some(rule_id("complex_", i)), text: fragments[i].clone() });
        i = i + 1;
    }
    assert(sources(out@) =~= complex_sources());
    out
}

/// The policies of a scenario.
pub fn policies(kind: ScenarioKind) -> (out: Vec<PolicySource>)
    ensures
        sources(out@) == policies_of(kind),
{
    match kind {
        ScenarioKind::SimpleSatisfied | ScenarioKind::SimpleContradicted => single_policy(
            String::from_str(SIMPLE_POLICY),
        ),
        ScenarioKind::MediumSatisfied | ScenarioKind::MediumPartial => single_policy(
            String::from_str(MEDIUM_POLICY),
        ),
        ScenarioKind::ComplexSatisfied | ScenarioKind::ComplexPartial => complex_policies(),
        ScenarioKind::QuantifierSmallSatisfied
        | ScenarioKind::QuantifierSmallContradicted
        | ScenarioKind::QuantifierLargeSatisfied
        | ScenarioKind::QuantifierLargeContradicted => {
            let required = numbered_texts("flag", 1, 5);
            single_policy(containment_rule("active-flags", &required))
        },
        _ => {
            let required = numbered_texts("u", 1, 5);
            single_policy(containment_rule("user-ids", &required))
        },
    }
}

/// The scenario of a kind.
pub fn scenario(kind: ScenarioKind) -> (s: Scenario)
    ensures
        s@ == scenario_model(kind),
        s.attributes.wf(),
{
    Scenario {
        name: name(kind),
        policies: policies(kind),
        attributes: attributes(kind),
        principal: String::from_str("test-user"),
        action: String::from_str("access"),
        resource: String::from_str("test-resource"),
    }
}

/// The catalogue, in order.
pub fn catalogue() -> (kinds: Vec<ScenarioKind>)
    ensures
        kinds@ == catalogue_order(),
{
    let mut kinds: Vec<ScenarioKind> = Vec::new();
    kinds.push(ScenarioKind::SimpleSatisfied);
    kinds.push(ScenarioKind::SimpleContradicted);
    kinds.push(ScenarioKind::MediumSatisfied);
    kinds.push(ScenarioKind::MediumPartial);
    kinds.push(ScenarioKind::ComplexSatisfied);
    kinds.push(ScenarioKind::ComplexPartial);
    kinds.push(ScenarioKind::QuantifierSmallSatisfied);
    kinds.push(ScenarioKind::QuantifierSmallContradicted);
    kinds.push(ScenarioKind::QuantifierLargeSatisfied);
    kinds.push(ScenarioKind::QuantifierLargeContradicted);
    kinds.push(ScenarioKind::CountSmallSatisfied);
    kinds.push(ScenarioKind::CountSmallContradicted);
    kinds.push(ScenarioKind::CountMediumSatisfied);
    kinds.push(ScenarioKind::CountLargeSatisfied);
    kinds.push(ScenarioKind::CountLargeContradicted);
    assert(kinds@ =~= catalogue_order());
    kinds
}

/// Every scenario of the catalogue, in catalogue order.
pub fn all_scenarios() -> (out: Vec<Scenario>)
    ensures
        out@.len() == catalogue_order().len(),
        forall|i: int|
            0 <= i < out@.len() ==> (#[trigger] out@[i])@ == scenario_model(catalogue_order()[i])
                && out@[i].attributes.wf(),
{
    let kinds = catalogue();
    let mut out: Vec<Scenario> = Vec::new();
    let mut i: usize = 0;
    while i < kinds.len()
        invariant
            i <= kinds@.len(),
            kinds@ == catalogue_order(),
            out@.len() == i,
            forall|k: int|
                0 <= k < i ==> (#[trigger] out@[k])@ == scenario_model(catalogue_order()[k])
                    && out@[k].attributes.wf(),
        decreases kinds.len() - i,
    {
        out.push(scenario(kinds[i]));
        i = i + 1;
    }
    out
}

/// Whether a kind belongs to the quantifier family.
pub open spec fn is_quantifier(kind: ScenarioKind) -> bool {
    kind == ScenarioKind::QuantifierSmallSatisfied || kind
        == ScenarioKind::QuantifierSmallContradicted || kind
        == ScenarioKind::QuantifierLargeSatisfied || kind
        == ScenarioKind::QuantifierLargeContradicted
}

/// Whether a kind belongs to the count family.
pub open spec fn is_count(kind: ScenarioKind) -> bool {
    kind == ScenarioKind::CountSmallSatisfied || kind == ScenarioKind::CountSmallContradicted
        || kind == ScenarioKind::CountMediumSatisfied || kind == ScenarioKind::CountLargeSatisfied
        || kind == ScenarioKind::CountLargeContradicted
}

/// Whether the attributes of a kind are chosen so that its rule holds.
pub open spec fn is_satisfied(kind: ScenarioKind) -> bool {
    kind == ScenarioKind::SimpleSatisfied || kind == ScenarioKind::MediumSatisfied || kind
        == ScenarioKind::ComplexSatisfied || kind == ScenarioKind::QuantifierSmallSatisfied || kind
        == ScenarioKind::QuantifierLargeSatisfied || kind == ScenarioKind::CountSmallSatisfied
        || kind == ScenarioKind::CountMediumSatisfied || kind == ScenarioKind::CountLargeSatisfied
}

/// What the rule of a quantifier or count scenario requires.
pub open spec fn required_of(kind: ScenarioKind) -> Seq<Seq<char>> {
    if is_quantifier(kind) {
        required_flags()
    } else {
        required_ids()
    }
}

/// The number of flags or identifiers that a quantifier or count scenario is
/// generated for.
pub open spec fn size_of(kind: ScenarioKind) -> nat {
    match kind {
        ScenarioKind::QuantifierSmallSatisfied => 5,
        ScenarioKind::QuantifierSmallContradicted => 4,
        ScenarioKind::QuantifierLargeSatisfied => 100,
        ScenarioKind::QuantifierLargeContradicted => 100,
        ScenarioKind::CountSmallSatisfied => 5,
        ScenarioKind::CountSmallContradicted => 3,
        ScenarioKind::CountMediumSatisfied => 20,
        ScenarioKind::CountLargeSatisfied => 100,
        ScenarioKind::CountLargeContradicted => 100,
        _ => 0,
    }
}

/// A numbered text is its prefix followed by a numeral, and the numeral
/// determines the number.
pub proof fn lemma_numbered_text_injective(prefix: Seq<char>, a: nat, b: nat)
    requires
        prefix + decimal(a) == prefix + decimal(b),
    ensures
        a == b,
{
    let x = prefix + decimal(a);
    let y = prefix + decimal(b);
    assert(x.subrange(prefix.len() as int, x.len() as int) =~= decimal(a));
    assert(y.subrange(prefix.len() as int, y.len() as int) =~= decimal(b));
    crate::text::lemma_decimal_injective(a, b);
}

/// Numbered texts generated for a size are that many, and no text occurs
/// twice among them.
pub proof fn lemma_numbered_exact(prefix: Seq<char>, first: nat, count: nat)
    ensures
        numbered(prefix, first, count).len() == count,
        numbered(prefix, first, count).no_duplicates(),
{
    let s = numbered(prefix, first, count);
    assert forall|i: int, j: int| 0 <= i < s.len() && 0 <= j < s.len() && i != j implies s[i]
        != s[j] by {
        if s[i] == s[j] {
            lemma_numbered_text_injective(prefix, (first + i) as nat, (first + j) as nat);
        }
    }
}

/// The numbered texts hold the text of a number exactly when the number lies
/// in their range.
pub proof fn lemma_numbered_holds(prefix: Seq<char>, first: nat, count: nat, j: nat)
    ensures
        numbered(prefix, first, count).contains(prefix + decimal(j)) <==> first <= j < first
            + count,
{
    let s = numbered(prefix, first, count);
    let t = prefix + decimal(j);
    if first <= j < first + count {
        assert(s[j - first] == t);
    }
    if s.contains(t) {
        let i = choose|i: int| 0 <= i < s.len() && s[i] == t;
        lemma_numbered_text_injective(prefix, (first + i) as nat, j);
    }
}

/// No flag is an extra, whatever their numbers.
pub proof fn lemma_flag_is_no_extra(a: nat, b: nat)
    ensures
        "flag"@ + decimal(a) != "extra"@ + decimal(b),
{
    reveal_strlit("flag");
    reveal_strlit("extra");
    assert(("flag"@ + decimal(a))[0] == 'f');
    assert(("extra"@ + decimal(b))[0] == 'e');
}

/// A flag set generated for a size with the required flags holds exactly that
/// many flags, none twice, and every required flag.
pub proof fn lemma_flags_with_required(size: nat)
    requires
        5 <= size,
    ensures
        flags_with_required(size).len() == size,
        flags_with_required(size).no_duplicates(),
        contains_all(flags_with_required(size), required_flags()),
{
    let head = required_flags();
    let tail = numbered("extra"@, 6, (size - 5) as nat);
    let s = flags_with_required(size);
    lemma_numbered_exact("flag"@, 1, 5);
    lemma_numbered_exact("extra"@, 6, (size - 5) as nat);
    assert forall|i: int, j: int| 0 <= i < s.len() && 0 <= j < s.len() && i != j implies s[i]
        != s[j] by {
        if i < 5 && j < 5 {
            assert(s[i] == head[i] && s[j] == head[j]);
        } else if i >= 5 && j >= 5 {
            assert(s[i] == tail[i - 5] && s[j] == tail[j - 5]);
        } else if i < 5 {
            lemma_flag_is_no_extra((1 + i) as nat, (6 + (j - 5)) as nat);
        } else {
            lemma_flag_is_no_extra((1 + j) as nat, (6 + (i - 5)) as nat);
        }
    }
    assert forall|k: int| 0 <= k < head.len() implies s.contains(#[trigger] head[k]) by {
        assert(s[k] == head[k]);
    }
}

/// A flag set generated for a size without the required flags holds exactly
/// that many flags, none twice, and not one of the required flags.
pub proof fn lemma_flags_without_required(size: nat)
    ensures
        flags_without_required(size).len() == size,
        flags_without_required(size).no_duplicates(),
        forall|k: int|
            0 <= k < required_flags().len() ==> !flags_without_required(size).contains(
                #[trigger] required_flags()[k],
            ),
        !contains_all(flags_without_required(size), required_flags()),
{
    let s = flags_without_required(size);
    let r = required_flags();
    lemma_numbered_exact("extra"@, 1, size);
    assert forall|k: int| 0 <= k < r.len() implies !s.contains(#[trigger] r[k]) by {
        if s.contains(r[k]) {
            let i = choose|i: int| 0 <= i < s.len() && s[i] == r[k];
            lemma_flag_is_no_extra((1 + k) as nat, (1 + i) as nat);
        }
    }
    assert(!s.contains(r[0]));
}

/// An identifier set generated for a size with the required identifiers holds
/// exactly that many, none twice, and every required one.
pub proof fn lemma_ids_with_required(size: nat)
    requires
        5 <= size,
    ensures
        ids_with_required(size).len() == size,
        ids_with_required(size).no_duplicates(),
        contains_all(ids_with_required(size), required_ids()),
{
    let s = ids_with_required(size);
    let r = required_ids();
    lemma_numbered_exact("u"@, 1, size);
    assert forall|k: int| 0 <= k < r.len() implies s.contains(#[trigger] r[k]) by {
        assert(s[k] == r[k]);
    }
}

/// An identifier set generated for a size without the required identifiers
/// holds exactly that many, none twice, and not one of the required ones.
pub proof fn lemma_ids_without_required(size: nat)
    ensures
        ids_without_required(size).len() == size,
        ids_without_required(size).no_duplicates(),
        forall|k: int|
            0 <= k < required_ids().len() ==> !ids_without_required(size).contains(
                #[trigger] required_ids()[k],
            ),
        !contains_all(ids_without_required(size), required_ids()),
{
    let s = ids_without_required(size);
    let r = required_ids();
    lemma_numbered_exact("u"@, 6, size);
    assert forall|k: int| 0 <= k < r.len() implies !s.contains(#[trigger] r[k]) by {
        lemma_numbered_holds("u"@, 6, size, (1 + k) as nat);
    }
    assert(!s.contains(r[0]));
}

/// Every quantifier and count scenario holds exactly as many elements as it is
/// generated for, none twice; it holds all that its rule requires if it is a
/// satisfied variant, and lacks at least one of them if it is not.
pub proof fn lemma_elements_exact(kind: ScenarioKind)
    requires
        is_quantifier(kind) || is_count(kind),
    ensures
        elements_of(kind).len() == size_of(kind),
        elements_of(kind).no_duplicates(),
        contains_all(elements_of(kind), required_of(kind)) <==> is_satisfied(kind),
{
    let s = elements_of(kind);
    let r = required_of(kind);
    match kind {
        ScenarioKind::QuantifierSmallSatisfied => {
            lemma_numbered_exact("flag"@, 1, 5);
            assert forall|k: int| 0 <= k < r.len() implies s.contains(#[trigger] r[k]) by {
                assert(s[k] == r[k]);
            }
        },
        ScenarioKind::QuantifierSmallContradicted => {
            lemma_numbered_exact("flag"@, 1, 4);
            lemma_numbered_holds("flag"@, 1, 4, 5);
            assert(r[4] == "flag"@ + decimal(5));
        },
        ScenarioKind::QuantifierLargeSatisfied => {
            lemma_flags_with_required(100);
        },
        ScenarioKind::QuantifierLargeContradicted => {
            lemma_flags_without_required(100);
        },
        ScenarioKind::CountSmallSatisfied => {
            lemma_ids_with_required(5);
        },
        ScenarioKind::CountSmallContradicted => {
            lemma_numbered_exact("u"@, 1, 3);
            lemma_numbered_holds("u"@, 1, 3, 5);
            assert(r[4] == "u"@ + decimal(5));
        },
        ScenarioKind::CountMediumSatisfied => {
            lemma_ids_with_required(20);
        },
        ScenarioKind::CountLargeSatisfied => {
            lemma_ids_with_required(100);
        },
        ScenarioKind::CountLargeContradicted => {
            lemma_ids_without_required(100);
        },
        _ => {},
    }
}

/// The identifiers given to the fragments of one text differ from one
/// another.
pub proof fn lemma_fragment_ids_distinct(prefix: Seq<char>, i: nat, j: nat)
    requires
        i != j,
    ensures
        fragment_id(prefix, i) != fragment_id(prefix, j),
{
    if fragment_id(prefix, i) == fragment_id(prefix, j) {
        lemma_numbered_text_injective(prefix, i, j);
    }
}

/// Two different scenarios have different names.
pub proof fn lemma_names_distinct(a: ScenarioKind, b: ScenarioKind)
    requires
        a != b,
    ensures
        name_of(a) != name_of(b),
{
    reveal_strlit("cedar/simple-satisfied");
    reveal_strlit("cedar/simple-contradicted");
    reveal_strlit("cedar/medium-satisfied");
    reveal_strlit("cedar/medium-partial");
    reveal_strlit("cedar/complex-satisfied");
    reveal_strlit("cedar/complex-partial");
    reveal_strlit("cedar/quantifier/containsall-small-satisfied");
    reveal_strlit("cedar/quantifier/containsall-small-contradicted");
    reveal_strlit("cedar/quantifier/containsall-large-satisfied");
    reveal_strlit("cedar/quantifier/containsall-large-contradicted");
    reveal_strlit("cedar/count/containsall-small-satisfied");
    reveal_strlit("cedar/count/containsall-small-contradicted");
    reveal_strlit("cedar/count/containsall-medium-satisfied");
    reveal_strlit("cedar/count/containsall-large-satisfied");
    reveal_strlit("cedar/count/containsall-large-contradicted");
    assert(name_of(ScenarioKind::SimpleSatisfied).len() == 22);
    assert(name_of(ScenarioKind::SimpleContradicted).len() == 25);
    assert(name_of(ScenarioKind::MediumSatisfied).len() == 22);
    assert(name_of(ScenarioKind::MediumPartial).len() == 20);
    assert(name_of(ScenarioKind::ComplexSatisfied).len() == 23);
    assert(name_of(ScenarioKind::ComplexPartial).len() == 21);
    assert(name_of(ScenarioKind::QuantifierSmallSatisfied).len() == 44);
    assert(name_of(ScenarioKind::QuantifierSmallContradicted).len() == 47);
    assert(name_of(ScenarioKind::QuantifierLargeSatisfied).len() == 44);
    assert(name_of(ScenarioKind::QuantifierLargeContradicted).len() == 47);
    assert(name_of(ScenarioKind::CountSmallSatisfied).len() == 39);
    assert(name_of(ScenarioKind::CountSmallContradicted).len() == 42);
    assert(name_of(ScenarioKind::CountMediumSatisfied).len() == 40);
    assert(name_of(ScenarioKind::CountLargeSatisfied).len() == 39);
    assert(name_of(ScenarioKind::CountLargeContradicted).len() == 42);
    assert(name_of(ScenarioKind::SimpleSatisfied)[6] == 's');
    assert(name_of(ScenarioKind::MediumSatisfied)[6] == 'm');
    assert(name_of(ScenarioKind::QuantifierSmallSatisfied)[29] == 's');
    assert(name_of(ScenarioKind::QuantifierLargeSatisfied)[29] == 'l');
    assert(name_of(ScenarioKind::QuantifierSmallContradicted)[29] == 's');
    assert(name_of(ScenarioKind::QuantifierLargeContradicted)[29] == 'l');
    assert(name_of(ScenarioKind::CountSmallSatisfied)[24] == 's');
    assert(name_of(ScenarioKind::CountLargeSatisfied)[24] == 'l');
    assert(name_of(ScenarioKind::CountSmallContradicted)[24] == 's');
    assert(name_of(ScenarioKind::CountLargeContradicted)[24] == 'l');
}

/// The catalogue names every kind once, so its names are pairwise distinct.
pub proof fn lemma_catalogue_names_distinct(i: int, j: int)
    requires
        0 <= i < j < catalogue_order().len(),
    ensures
        catalogue_order()[i] != catalogue_order()[j],
        name_of(catalogue_order()[i]) != name_of(catalogue_order()[j]),
{
    lemma_names_distinct(catalogue_order()[i], catalogue_order()[j]);
}

/// A kind has one scenario: two scenarios generated for the same kind agree
/// in name, policy texts, attributes and request, and so in the entity
/// document that is written from them.
pub proof fn lemma_generation_deterministic(kind: ScenarioKind, first: Scenario, second: Scenario)
    requires
        first@ == scenario_model(kind),
        second@ == scenario_model(kind),
    ensures
        first@ == second@,
        first.name@ == second.name@,
        sources(first.policies@) == sources(second.policies@),
        first.attributes@ == second.attributes@,
        entities_text(first.principal@, first.attributes@, first.resource@) == entities_text(
            second.principal@,
            second.attributes@,
            second.resource@,
        ),
{
}

} // verus!
