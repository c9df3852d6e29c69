use cedar_bench::attrs::{AttrValue, AttributeRecord};
use cedar_bench::catalogue::{add_count_defaults, complexity_attributes, scalars, structural_attributes};

fn names(record: &AttributeRecord) -> Vec<String> {
    (0..record.len()).map(|i| record.entry(i).name.clone()).collect()
}

fn text_set(record: &AttributeRecord, name: &str) -> Vec<String> {
    match record.get(name) {
        Some(AttrValue::TextSet(items)) => items.clone(),
        other => panic!("{} is {:?}", name, other),
    }
}

#[test]
fn a_new_record_is_empty() {
    let record = AttributeRecord::new();
    assert_eq!(record.len(), 0);
    assert!(!record.contains("role"));
    assert!(record.get("role").is_none());
    assert_eq!(record.position("role"), None);
}

#[test]
fn set_adds_at_the_end_and_replaces_in_place() {
    let mut record = AttributeRecord::new();
    record.set("role", AttrValue::Text(String::from("guest")));
    record.set("level", AttrValue::Long(2));
    record.set("trial", AttrValue::Flag(true));
    assert_eq!(names(&record), vec!["role", "level", "trial"]);
    record.set("level", AttrValue::Long(9));
    assert_eq!(names(&record), vec!["role", "level", "trial"]);
    assert_eq!(record.position("level"), Some(1));
    assert!(matches!(record.get("level"), Some(AttrValue::Long(9))));
    assert!(matches!(record.get("role"), Some(AttrValue::Text(s)) if s == "guest"));
    assert!(record.contains("trial"));
    assert!(!record.contains("tria"));
}

#[test]
fn set_if_absent_keeps_what_is_there() {
    let mut record = AttributeRecord::new();
    assert!(record.set_if_absent("active", AttrValue::Flag(false)));
    assert!(!record.set_if_absent("active", AttrValue::Flag(true)));
    assert_eq!(record.len(), 1);
    assert!(matches!(record.get("active"), Some(AttrValue::Flag(false))));
}

#[test]
fn scalars_stand_in_schema_order() {
    let record = scalars(
        "admin", 10, "active", 30, 95, "engineering", 5, 6, 500, 0, 500, true, "us", "", 400, 95,
        "premium", false,
    );
    assert_eq!(
        names(&record),
        vec![
            "role", "level", "status", "age", "score", "department", "clearance", "tenure",
            "karma", "warnings", "reputation", "verified", "region", "restricted-flag",
            "account-age", "trust-score", "subscription", "trial",
        ]
    );
    assert!(matches!(record.get("account-age"), Some(AttrValue::Long(400))));
    assert!(matches!(record.get("restricted-flag"), Some(AttrValue::Text(s)) if s.is_empty()));
    assert!(matches!(record.get("verified"), Some(AttrValue::Flag(true))));
}

#[test]
fn count_defaults_fill_a_record_without_user_ids() {
    let mut record = AttributeRecord::new();
    record.set("role", AttrValue::Text(String::from("admin")));
    record.set("active", AttrValue::Flag(false));
    add_count_defaults(&mut record);
    assert_eq!(names(&record), vec!["role", "active", "user-ids", "active-user-ids", "org-member-ids"]);
    assert!(matches!(record.get("active"), Some(AttrValue::Flag(false))));
    assert!(text_set(&record, "user-ids").is_empty());
    assert!(text_set(&record, "org-member-ids").is_empty());
}

#[test]
fn count_defaults_leave_a_record_with_user_ids_alone() {
    let mut record = AttributeRecord::new();
    record.set("user-ids", AttrValue::TextSet(vec![String::from("u1")]));
    add_count_defaults(&mut record);
    assert_eq!(names(&record), vec!["user-ids"]);
    assert_eq!(text_set(&record, "user-ids"), vec!["u1"]);
}

#[test]
fn complexity_attributes_add_sets_and_defaults() {
    let record = complexity_attributes(scalars(
        "guest", 2, "banned", 30, 50, "marketing", 1, 1, 100, 5, 100, false, "other", "flagged",
        30, 50, "free", true,
    ));
    assert_eq!(record.len(), 24);
    assert_eq!(
        names(&record)[18..],
        ["roles", "active-flags", "user-ids", "active-user-ids", "org-member-ids", "active"]
    );
    assert!(text_set(&record, "roles").is_empty());
    assert!(matches!(record.get("active"), Some(AttrValue::Flag(true))));
}

#[test]
fn structural_attributes_carry_the_given_sets() {
    let record = structural_attributes(
        vec![String::from("flag1")],
        vec![String::from("u1"), String::from("u2")],
        vec![String::from("u2")],
        Vec::new(),
        false,
    );
    assert_eq!(record.len(), 24);
    assert_eq!(text_set(&record, "roles"), vec!["user"]);
    assert_eq!(text_set(&record, "active-flags"), vec!["flag1"]);
    assert_eq!(text_set(&record, "user-ids"), vec!["u1", "u2"]);
    assert_eq!(text_set(&record, "active-user-ids"), vec!["u2"]);
    assert!(text_set(&record, "org-member-ids").is_empty());
    assert!(matches!(record.get("active"), Some(AttrValue::Flag(false))));
    assert!(matches!(record.get("role"), Some(AttrValue::Text(s)) if s == "user"));
    assert!(matches!(record.get("karma"), Some(AttrValue::Long(100))));
}
