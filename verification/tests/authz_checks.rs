use oxify::authz::{
    batch_check, check_relation, expand, list_object_tuples, list_subject_tuples, AuthzError, CheckRequest, NamespaceConfig, RelationConfig, Subject, TupleRow,
};

fn row(ns: &str, obj: &str, rel: &str, user: &str) -> TupleRow {
    TupleRow {
        namespace: ns.to_string(),
        object_id: obj.to_string(),
        relation: rel.to_string(),
        subject_type: "user".to_string(),
        subject_id: user.to_string(),
        subject_relation: None,
    }
}

fn relation(name: &str, inherits: &[&str]) -> RelationConfig {
    RelationConfig { name: name.to_string(), inherits_from: inherits.iter().map(|s| s.to_string()).collect() }
}

fn document() -> NamespaceConfig {
    NamespaceConfig {
        namespace: "document".to_string(),
        relations: vec![relation("owner", &[]), relation("editor", &["owner"]), relation("viewer", &["editor"])],
    }
}

fn request(rel: &str, user: &str) -> CheckRequest {
    CheckRequest {
        namespace: "document".to_string(),
        object_id: "123".to_string(),
        relation: rel.to_string(),
        subject: Subject::User(user.to_string()),
    }
}

#[test]
fn authz_owner_can_view() {
    // alice owns document:123; the owner inherits viewer through editor.
    let rows = vec![row("document", "123", "owner", "alice")];
    let cfgs = vec![document()];
    assert!(matches!(check_relation(&rows, &cfgs, &request("viewer", "alice")), Ok(true)));
    assert!(matches!(check_relation(&rows, &cfgs, &request("owner", "alice")), Ok(true)));
    assert!(matches!(check_relation(&rows, &cfgs, &request("viewer", "bob")), Ok(false)));
    let mut other = request("viewer", "alice");
    other.object_id = "456".to_string();
    assert!(matches!(check_relation(&rows, &cfgs, &other), Ok(false)));
}

#[test]
fn authz_inheritance_cycle_answers_no() {
    let cfgs = vec![NamespaceConfig {
        namespace: "document".to_string(),
        relations: vec![relation("a", &["b"]), relation("b", &["a"])],
    }];
    assert!(matches!(check_relation(&vec![], &cfgs, &request("a", "alice")), Ok(false)));
}

#[test]
fn authz_search_deeper_than_ten_fails() {
    let names: Vec<String> = (0..13).map(|i| format!("r{}", i)).collect();
    let relations: Vec<RelationConfig> = (0..12)
        .map(|i| RelationConfig { name: names[i].clone(), inherits_from: vec![names[i + 1].clone()] })
        .collect();
    let cfgs = vec![NamespaceConfig { namespace: "document".to_string(), relations }];
    let rows = vec![row("document", "123", "r12", "alice")];
    assert!(matches!(check_relation(&rows, &cfgs, &request("r0", "alice")), Err(AuthzError::CycleDetected)));
    // Within ten steps the inherited relation is found.
    let rows = vec![row("document", "123", "r5", "alice")];
    assert!(matches!(check_relation(&rows, &cfgs, &request("r0", "alice")), Ok(true)));
}

#[test]
fn authz_userset_subject_matches_its_stored_id() {
    let rows = vec![TupleRow {
        namespace: "document".to_string(),
        object_id: "123".to_string(),
        relation: "viewer".to_string(),
        subject_type: "userset".to_string(),
        subject_id: "group:eng".to_string(),
        subject_relation: Some("member".to_string()),
    }];
    let req = CheckRequest {
        namespace: "document".to_string(),
        object_id: "123".to_string(),
        relation: "viewer".to_string(),
        subject: Subject::UserSet {
            namespace: "group".to_string(),
            object_id: "eng".to_string(),
            relation: "member".to_string(),
        },
    };
    assert!(matches!(check_relation(&rows, &vec![document()], &req), Ok(true)));
}

#[test]
fn authz_expand_lists_direct_subjects() {
    let mut set = row("document", "123", "viewer", "");
    set.subject_type = "userset".to_string();
    set.subject_id = "group:eng".to_string();
    set.subject_relation = Some("member".to_string());
    let mut bad = set_clone(&set);
    bad.subject_id = "a:b:c".to_string();
    let rows = vec![
        row("document", "123", "viewer", "alice"),
        row("document", "123", "owner", "bob"),
        set,
        bad,
        row("document", "9", "viewer", "carol"),
    ];
    let subjects = expand(&rows, "document", "123", "viewer");
    assert_eq!(subjects.len(), 2);
    assert!(matches!(&subjects[0], Subject::User(u) if u == "alice"));
    assert!(matches!(&subjects[1], Subject::UserSet { namespace, object_id, relation }
        if namespace == "group" && object_id == "eng" && relation == "member"));
}

fn set_clone(t: &TupleRow) -> TupleRow {
    TupleRow {
        namespace: t.namespace.clone(),
        object_id: t.object_id.clone(),
        relation: t.relation.clone(),
        subject_type: t.subject_type.clone(),
        subject_id: t.subject_id.clone(),
        subject_relation: t.subject_relation.clone(),
    }
}

#[test]
fn authz_lists_by_subject_and_by_object() {
    let mut set = row("folder", "f1", "viewer", "");
    set.subject_type = "userset".to_string();
    set.subject_id = "group:eng".to_string();
    let rows = vec![
        row("document", "123", "owner", "alice"),
        row("document", "456", "viewer", "alice"),
        row("document", "123", "viewer", "bob"),
        set,
    ];
    let mine = list_subject_tuples(&rows, &Subject::User("alice".to_string()));
    assert_eq!(mine.len(), 2);
    assert_eq!(mine[1].object_id, "456");
    let group = Subject::UserSet {
        namespace: "group".to_string(),
        object_id: "eng".to_string(),
        relation: "member".to_string(),
    };
    let theirs = list_subject_tuples(&rows, &group);
    assert_eq!(theirs.len(), 1);
    assert!(matches!(&theirs[0].subject, Subject::UserSet { relation, .. } if relation.is_empty()));
    let doc = list_object_tuples(&rows, "document", "123");
    assert_eq!(doc.len(), 2);
    assert_eq!(doc[0].relation, "owner");
    assert_eq!(doc[1].relation, "viewer");
}

#[test]
fn authz_batch_uses_cache_filter_and_inheritance() {
    let rows = vec![row("document", "123", "owner", "alice")];
    let cfgs = vec![document()];
    let requests = vec![request("viewer", "alice"), request("viewer", "bob"), request("owner", "alice"), request("viewer", "carol")];
    let cached = vec![None, None, None, Some(true)];
    // The filter rules out bob's request; alice's viewer request needs the
    // inherited relation; carol's answer comes from the cache.
    let maybe = vec![true, false, true, true];
    let r = batch_check(&rows, &cfgs, &requests, &cached, &maybe);
    assert!(matches!(r, Ok(ref v) if *v == vec![(true, false), (false, false), (true, false), (true, true)]));
}
