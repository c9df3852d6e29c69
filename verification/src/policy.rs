//! The policy texts of the catalogue, and how a text with several rules is
//! cut into one fragment per rule.

use crate::attrs::texts;
use crate::json::{list_text, push_list};
use crate::text::{decimal, push_decimal};
use vstd::prelude::*;

verus! {

/// The schema that every scenario's entities and request are validated against.
pub const SCHEMA_SRC: &'static str =
    "entity User = {\n\
    \"role\": String,\n\
    \"level\": Long,\n\
    \"status\": String,\n\
    \"age\": Long,\n\
    \"score\": Long,\n\
    \"department\": String,\n\
    \"clearance\": Long,\n\
    \"tenure\": Long,\n\
    \"karma\": Long,\n\
    \"warnings\": Long,\n\
    \"reputation\": Long,\n\
    \"verified\": Bool,\n\
    \"region\": String,\n\
    \"restricted-flag\": String,\n\
    \"account-age\": Long,\n\
    \"trust-score\": Long,\n\
    \"subscription\": String,\n\
    \"trial\": Bool,\n\
    \"roles\": Set<String>,\n\
    \"active-flags\": Set<String>,\n\
    \"user-ids\": Set<String>,\n\
    \"active-user-ids\": Set<String>,\n\
    \"org-member-ids\": Set<String>,\n\
    \"active\": Bool,\n\
    };\n\
    entity Resource;\n\
    action \"access\" appliesTo {\n\
    principal: [User],\n\
    resource: [Resource],\n\
    };\n";

/// One rule with flat comparisons.
pub const SIMPLE_POLICY: &'static str =
    "permit (principal, action == Action::\"access\", resource)\n\
    when {\n\
    principal.role == \"admin\" &&\n\
    principal.level >= 5 &&\n\
    principal.status == \"active\"\n\
    };\n";

/// One rule with compound conditions.
pub const MEDIUM_POLICY: &'static str =
    "permit (principal, action == Action::\"access\", resource)\n\
    when {\n\
    (principal.role == \"admin\" || principal.role == \"manager\") &&\n\
    principal.level >= 5 &&\n\
    principal.status == \"active\" &&\n\
    (principal.age >= 18 && principal.age <= 65) &&\n\
    (principal.score >= 80 || principal.clearance >= 3) &&\n\
    (principal.department == \"engineering\" || principal.department == \"security\")\n\
    };\n";

/// Several rules in one text, each introduced by a comment line.
pub const COMPLEX_POLICY: &'static str =
    "// Rule 1: senior administrators\n\
    permit (principal, action == Action::\"access\", resource)\n\
    when {\n\
    principal.role == \"admin\" &&\n\
    principal.level >= 10 &&\n\
    principal.status == \"active\"\n\
    };\n\
    // Rule 2: verified and trusted accounts\n\
    permit (principal, action == Action::\"access\", resource)\n\
    when {\n\
    principal.verified &&\n\
    principal[\"trust-score\"] >= 90 &&\n\
    principal[\"account-age\"] >= 365 &&\n\
    principal.status == \"active\"\n\
    };\n\
    // Rule 3: premium subscribers in good standing\n\
    permit (principal, action == Action::\"access\", resource)\n\
    when {\n\
    principal.subscription == \"premium\" &&\n\
    !principal.trial &&\n\
    principal.warnings == 0 &&\n\
    principal.karma >= 250 &&\n\
    principal.status == \"active\"\n\
    };\n\
    // Rule 4: cleared members of the security department\n\
    permit (principal, action == Action::\"access\", resource)\n\
    when {\n\
    principal.department == \"security\" &&\n\
    principal.clearance >= 5 &&\n\
    principal.tenure >= 5 &&\n\
    principal.status == \"active\"\n\
    };\n\
    // Rule 5: flagged or disreputable accounts are refused\n\
    forbid (principal, action == Action::\"access\", resource)\n\
    when {\n\
    principal[\"restricted-flag\"] != \"\" ||\n\
    principal.reputation < 0 ||\n\
    principal.region == \"embargoed\"\n\
    };\n";

/// What stands before the required set in a containment rule on `attribute`.
pub open spec fn containment_head(attribute: Seq<char>) -> Seq<char> {
    "permit (principal, action == Action::\"access\", resource)\nwhen {\nprincipal.active &&\nprincipal[\""@
        + attribute + "\"].containsAll("@
}

/// The text of the rule that permits when the principal is active and its set
/// attribute `attribute` contains every one of `required`.
///
/// The required texts are written as JSON strings, which the policy language
/// reads alike as long as they hold no control character.
pub open spec fn containment_policy(attribute: Seq<char>, required: Seq<Seq<char>>) -> Seq<char> {
    containment_head(attribute) + list_text(required) + ")\n};\n"@
}

/// The text of a containment rule.
pub fn containment_rule(attribute: &str, required: &Vec<String>) -> (text: String)
    ensures
        text@ == containment_policy(attribute@, texts(required@)),
{
    let mut text = String::from_str(
        "permit (principal, action == Action::\"access\", resource)\nwhen {\nprincipal.active &&\nprincipal[\"",
    );
    text.append(attribute);
    text.append("\"].containsAll(");
    push_list(&mut text, required);
    text.append(")\n};\n");
    assert(text@ =~= containment_policy(attribute@, texts(required@)));
    text
}

/// Whether the rule marker, a comment sign and a space, stands at index `i`.
pub open spec fn marker_at(text: Seq<char>, i: int) -> bool {
    &&& 0 <= i
    &&& i + 3 <= text.len()
    &&& text[i] == '/'
    &&& text[i + 1] == '/'
    &&& text[i + 2] == ' '
}

/// The indices below `n` at which the rule marker stands, ascending.
pub open spec fn marks_below(text: Seq<char>, n: int) -> Seq<int>
    decreases n,
{
    if n <= 0 {
        Seq::empty()
    } else if marker_at(text, n - 1) {
        marks_below(text, n - 1).push(n - 1)
    } else {
        marks_below(text, n - 1)
    }
}

/// All indices at which the rule marker stands, ascending.
pub open spec fn marks(text: Seq<char>) -> Seq<int> {
    marks_below(text, text.len() as int)
}

/// Where the fragment that starts at mark `k` ends: at the next mark, or at
/// the end of the text.
pub open spec fn fragment_end(text: Seq<char>, at: Seq<int>, k: int) -> int {
    if k + 1 < at.len() {
        at[k + 1]
    } else {
        text.len() as int
    }
}

/// The rule fragments of a text: one for each rule marker, from that marker
/// up to the next one or to the end. What stands before the first marker
/// belongs to no fragment.
pub open spec fn rule_fragments(text: Seq<char>) -> Seq<Seq<char>> {
    let at = marks(text);
    Seq::new(at.len(), |k: int| text.subrange(at[k], fragment_end(text, at, k)))
}

/// The identifier of the fragment at position `index`.
pub open spec fn fragment_id(prefix: Seq<char>, index: nat) -> Seq<char> {
    prefix + decimal(index)
}

/// The marks below a bound lie below it, ascend, and are exactly the marker
/// positions.
pub proof fn lemma_marks_below(text: Seq<char>, n: int)
    ensures
        forall|k: int|
            0 <= k < marks_below(text, n).len() ==> 0 <= (#[trigger] marks_below(text, n)[k]) < n
                && marker_at(text, marks_below(text, n)[k]),
        forall|j: int, k: int|
            0 <= j < k < marks_below(text, n).len() ==> (#[trigger] marks_below(text, n)[j]) < (
            #[trigger] marks_below(text, n)[k]),
        forall|i: int|
            0 <= i < n && marker_at(text, i) ==> exists|k: int|
                0 <= k < marks_below(text, n).len() && #[trigger] marks_below(text, n)[k] == i,
        marks_below(text, n).len() <= if n <= 0 {
            0
        } else {
            n
        },
    decreases n,
{
    if n > 0 {
        lemma_marks_below(text, n - 1);
        let prev = marks_below(text, n - 1);
        let cur = marks_below(text, n);
        assert forall|i: int| 0 <= i < n && marker_at(text, i) implies exists|k: int|
            0 <= k < cur.len() && #[trigger] cur[k] == i by {
            if i < n - 1 {
                let k = choose|k: int| 0 <= k < prev.len() && #[trigger] prev[k] == i;
                assert(cur[k] == i);
            } else {
                assert(cur[cur.len() - 1] == i);
            }
        }
    }
}

/// A longer scan keeps the marks that a shorter one found.
pub proof fn lemma_marks_extend(text: Seq<char>, m: int, n: int)
    requires
        m <= n,
    ensures
        marks_below(text, m).len() <= marks_below(text, n).len(),
        forall|k: int|
            0 <= k < marks_below(text, m).len() ==> #[trigger] marks_below(text, n)[k]
                == marks_below(text, m)[k],
    decreases n - m,
{
    if m < n {
        lemma_marks_extend(text, m, n - 1);
    }
}

/// Whether the rule marker stands at index `i` of a text of `n` characters.
pub fn is_marker_at(text: &str, i: usize, n: usize) -> (b: bool)
    requires
        n == text@.len(),
    ensures
        b == marker_at(text@, i as int),
{
    i < n && n - i >= 3 && text.get_char(i) == '/' && text.get_char(i + 1) == '/' && text.get_char(
        i + 2,
    ) == ' '
}

/// Cuts a text into its rule fragments.
pub fn split_rules(text: &str) -> (fragments: Vec<String>)
    ensures
        texts(fragments@) == rule_fragments(text@),
{
    let n = text.unicode_len();
    let mut fragments: Vec<String> = Vec::new();
    let mut open: Option<usize> = None;
    let mut i: usize = 0;
    while i < n
        invariant
            i <= n,
            n == text@.len(),
            open is None <==> marks_below(text@, i as int).len() == 0,
            open matches Some(s) ==> s < i && s == marks_below(text@, i as int).last(),
            fragments@.len() + 1 == marks_below(text@, i as int).len() || (open is None
                && fragments@.len() == 0),
            forall|k: int|
                0 <= k < fragments@.len() ==> (#[trigger] fragments@[k])@ == text@.subrange(
                    marks_below(text@, i as int)[k],
                    marks_below(text@, i as int)[k + 1],
                ),
        decreases n - i,
    {
        proof {
            lemma_marks_below(text@, i as int);
            lemma_marks_extend(text@, i as int, i as int + 1);
        }
        if is_marker_at(text, i, n) {
            match open {
                Some(s) => {
                    let piece = text.substring_char(s, i);
                    fragments.push(String::from_str(piece));
                },
                None => {},
            }
            open = Some(i);
        }
        i = i + 1;
    }
    proof {
        lemma_marks_below(text@, n as int);
    }
    match open {
        Some(s) => {
            let piece = text.substring_char(s, n);
            fragments.push(String::from_str(piece));
        },
        None => {},
    }
    assert(texts(fragments@) =~= rule_fragments(text@));
    fragments
}

/// The identifier of the fragment at position `index`.
pub fn rule_id(prefix: &str, index: usize) -> (id: String)
    ensures
        id@ == fragment_id(prefix@, index as nat),
{
    let mut id = String::from_str(prefix);
    push_decimal(&mut id, index as u64);
    id
}

} // verus!
