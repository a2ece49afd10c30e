//! Relation checks of the authorization engine, over the stored relation
//! tuples and the namespaces' relation configurations.
//!
//! A tuple says that a subject (a user, or the members of a relation of
//! another object) has a relation to an object of a namespace. A relation
//! of a namespace may inherit from other relations of the same namespace: a
//! subject with one of those relations to an object has this one too.
//! Tuples are read as the store holds them: a subject's kind (`user` or
//! `userset`) and its id (a user's id, or `namespace:object` for a userset).

use vstd::prelude::*;
use crate::text::{fields_on, split_on, str_eq};

verus! {

/// Why a check could not be answered.
#[derive(Debug)]
pub enum AuthzError {
    /// The search went deeper than ten steps.
    CycleDetected,
}

/// Who holds a relation.
pub enum Subject {
    User(String),
    UserSet { namespace: String, object_id: String, relation: String },
}

/// A stored relation tuple, as a row of the store.
pub struct TupleRow {
    pub namespace: String,
    pub object_id: String,
    pub relation: String,
    /// `user` or `userset`.
    pub subject_type: String,
    /// A user's id, or `namespace:object_id` for a userset.
    pub subject_id: String,
    /// The relation of a userset.
    pub subject_relation: Option<String>,
}

/// A relation of a namespace and the relations it inherits from.
pub struct RelationConfig {
    pub name: String,
    pub inherits_from: Vec<String>,
}

/// The relations of a namespace.
pub struct NamespaceConfig {
    pub namespace: String,
    pub relations: Vec<RelationConfig>,
}

/// A question: does `subject` have `relation` to the object?
pub struct CheckRequest {
    pub namespace: String,
    pub object_id: String,
    pub relation: String,
    pub subject: Subject,
}

/// How the store records a subject: its kind and its id.
pub open spec fn subject_key(s: Subject) -> (Seq<char>, Seq<char>) {
    match s {
        Subject::User(id) => ("user"@, id@),
        Subject::UserSet { namespace, object_id, .. } => ("userset"@, namespace@ + ":"@ + object_id@),
    }
}

/// Row `t` grants `relation` on the object to the subject recorded as `key`.
pub open spec fn row_grants(t: TupleRow, ns: Seq<char>, obj: Seq<char>, rel: Seq<char>, key: (Seq<char>, Seq<char>)) -> bool {
    &&& t.namespace@ == ns
    &&& t.object_id@ == obj
    &&& t.relation@ == rel
    &&& t.subject_type@ == key.0
    &&& t.subject_id@ == key.1
}

/// A stored tuple grants the relation directly.
pub open spec fn direct(rows: Seq<TupleRow>, ns: Seq<char>, obj: Seq<char>, rel: Seq<char>, key: (Seq<char>, Seq<char>)) -> bool {
    exists|i: int| 0 <= i < rows.len() && row_grants(rows[i], ns, obj, rel, key)
}

/// The user is a direct member of some relation of some object.
pub open spec fn has_membership(rows: Seq<TupleRow>, user: Seq<char>) -> bool {
    exists|i: int| 0 <= i < rows.len() && rows[i].subject_type@ == "user"@ && rows[i].subject_id@ == user
}

/// The position of the first configuration of `ns` from `i` on.
pub open spec fn find_namespace(cfgs: Seq<NamespaceConfig>, ns: Seq<char>, i: int) -> Option<int>
    decreases cfgs.len() - i,
{
    if i < 0 || i >= cfgs.len() {
        None
    } else if cfgs[i].namespace@ == ns {
        Some(i)
    } else {
        find_namespace(cfgs, ns, i + 1)
    }
}

/// The position of the first relation named `rel` from `i` on.
pub open spec fn find_relation(rs: Seq<RelationConfig>, rel: Seq<char>, i: int) -> Option<int>
    decreases rs.len() - i,
{
    if i < 0 || i >= rs.len() {
        None
    } else if rs[i].name@ == rel {
        Some(i)
    } else {
        find_relation(rs, rel, i + 1)
    }
}

/// The relations `rel` of namespace `ns` inherits from (none when the
/// namespace or the relation is not configured).
pub open spec fn inherits(cfgs: Seq<NamespaceConfig>, ns: Seq<char>, rel: Seq<char>) -> Seq<Seq<char>> {
    match find_namespace(cfgs, ns, 0) {
        None => Seq::empty(),
        Some(c) => match find_relation(cfgs[c].relations@, rel, 0) {
            None => Seq::empty(),
            Some(r) => {
                let l = cfgs[c].relations@[r].inherits_from@;
                Seq::new(l.len(), |k: int| l[k]@)
            },
        },
    }
}

/// The answer of the search for `rel`, `depth` steps deep, the relations in
/// `visited` already searched, and the relations searched afterwards.
///
/// Beyond ten steps the search fails. A relation searched before answers
/// no. Otherwise a direct tuple answers yes; then each inherited relation is
/// searched in turn, one step deeper. A user's memberships add nothing (the
/// search for a userset repeats the relation just searched), except that
/// at the depth limit a user with a membership makes the search fail.
pub open spec fn search(
    rows: Seq<TupleRow>,
    cfgs: Seq<NamespaceConfig>,
    ns: Seq<char>,
    obj: Seq<char>,
    rel: Seq<char>,
    subj: Subject,
    depth: int,
    visited: Set<Seq<char>>,
) -> (Result<bool, ()>, Set<Seq<char>>)
    decreases 11 - depth, 1int, 0int,
{
    if depth > 10 {
        (Err(()), visited)
    } else if visited.contains(rel) {
        (Ok(false), visited)
    } else {
        let v1 = visited.insert(rel);
        if direct(rows, ns, obj, rel, subject_key(subj)) {
            (Ok(true), v1)
        } else {
            let inh = inherits(cfgs, ns, rel);
            let (r, v2) = search_list(rows, cfgs, ns, obj, inh, 0, subj, depth + 1, v1);
            match r {
                Ok(false) => match subj {
                    Subject::User(u) => if depth + 1 > 10 && has_membership(rows, u@) {
                        (Err(()), v2)
                    } else {
                        (Ok(false), v2)
                    },
                    _ => (Ok(false), v2),
                },
                _ => (r, v2),
            }
        }
    }
}

/// The search of the relations `rels` from position `i` on, in order, each
/// `depth` steps deep, until one answers yes or fails.
pub open spec fn search_list(
    rows: Seq<TupleRow>,
    cfgs: Seq<NamespaceConfig>,
    ns: Seq<char>,
    obj: Seq<char>,
    rels: Seq<Seq<char>>,
    i: int,
    subj: Subject,
    depth: int,
    visited: Set<Seq<char>>,
) -> (Result<bool, ()>, Set<Seq<char>>)
    decreases 11 - depth, 2int, rels.len() - i,
{
    if i < 0 || i >= rels.len() {
        (Ok(false), visited)
    } else {
        let (r, v) = search(rows, cfgs, ns, obj, rels[i], subj, depth, visited);
        match r {
            Ok(false) => search_list(rows, cfgs, ns, obj, rels, i + 1, subj, depth, v),
            _ => (r, v),
        }
    }
}

/// The answer to `req`: the search from its relation, from depth 0.
pub open spec fn check_spec(rows: Seq<TupleRow>, cfgs: Seq<NamespaceConfig>, req: CheckRequest) -> Result<bool, ()> {
    search(rows, cfgs, req.namespace@, req.object_id@, req.relation@, req.subject, 0, Set::empty()).0
}

/// The answer in the library's error type.
pub open spec fn check_result(r: Result<bool, AuthzError>, s: Result<bool, ()>) -> bool {
    match s {
        Ok(b) => r == Ok::<bool, AuthzError>(b),
        Err(_) => r matches Err(AuthzError::CycleDetected),
    }
}

fn subject_row_key(s: &Subject) -> (r: (String, String))
    ensures
        (r.0@, r.1@) == subject_key(*s),
{
    match s {
        Subject::User(id) => (String::from_str("user"), id.clone()),
        Subject::UserSet { namespace, object_id, .. } => (
            String::from_str("userset"),
            namespace.clone().concat(":").concat(object_id.as_str()),
        ),
    }
}

fn direct_exec(rows: &Vec<TupleRow>, ns: &str, obj: &str, rel: &str, key: &(String, String)) -> (b: bool)
    ensures
        b == direct(rows@, ns@, obj@, rel@, (key.0@, key.1@)),
{
    let mut i: usize = 0;
    while i < rows.len()
        invariant
            i <= rows@.len(),
            forall|k: int| 0 <= k < i ==> !row_grants(rows@[k], ns@, obj@, rel@, (key.0@, key.1@)),
        decreases rows@.len() - i,
    {
        let t = &rows[i];
        if str_eq(t.namespace.as_str(), ns) && str_eq(t.object_id.as_str(), obj) && str_eq(
            t.relation.as_str(),
            rel,
        ) && str_eq(t.subject_type.as_str(), key.0.as_str()) && str_eq(
            t.subject_id.as_str(),
            key.1.as_str(),
        ) {
            assert(row_grants(rows@[i as int], ns@, obj@, rel@, (key.0@, key.1@)));
            return true;
        }
        i = i + 1;
    }
    false
}

fn membership_exec(rows: &Vec<TupleRow>, user: &str) -> (b: bool)
    ensures
        b == has_membership(rows@, user@),
{
    let mut i: usize = 0;
    while i < rows.len()
        invariant
            i <= rows@.len(),
            forall|k: int|
                0 <= k < i ==> !(rows@[k].subject_type@ == "user"@ && rows@[k].subject_id@ == user@),
        decreases rows@.len() - i,
    {
        if str_eq(rows[i].subject_type.as_str(), "user") && str_eq(rows[i].subject_id.as_str(), user) {
            return true;
        }
        i = i + 1;
    }
    false
}

#[verifier::loop_isolation(false)]
fn inherits_exec(cfgs: &Vec<NamespaceConfig>, ns: &str, rel: &str) -> (r: Vec<String>)
    ensures
        Seq::new(r@.len(), |k: int| r@[k]@) == inherits(cfgs@, ns@, rel@),
{
    let mut c: usize = 0;
    while c < cfgs.len()
        invariant
            c <= cfgs@.len(),
            find_namespace(cfgs@, ns@, 0) == find_namespace(cfgs@, ns@, c as int),
        decreases cfgs@.len() - c,
    {
        if str_eq(cfgs[c].namespace.as_str(), ns) {
            assert(find_namespace(cfgs@, ns@, c as int) == Some(c as int));
            let rs = &cfgs[c].relations;
            let mut j: usize = 0;
            while j < rs.len()
                invariant
                    j <= rs@.len(),
                    find_relation(rs@, rel@, 0) == find_relation(rs@, rel@, j as int),
                decreases rs@.len() - j,
            {
                if str_eq(rs[j].name.as_str(), rel) {
                    assert(find_relation(rs@, rel@, j as int) == Some(j as int));
                    let l = &rs[j].inherits_from;
                    let mut out: Vec<String> = Vec::new();
                    let mut k: usize = 0;
                    while k < l.len()
                        invariant
                            k <= l@.len(),
                            out@.len() == k,
                            forall|m: int| 0 <= m < k ==> #[trigger] out@[m]@ == l@[m]@,
                        decreases l@.len() - k,
                    {
                        out.push(l[k].clone());
                        k = k + 1;
                    }
                    assert(Seq::new(out@.len(), |m: int| out@[m]@) =~= Seq::new(l@.len(), |m: int| l@[m]@));
                    return out;
                }
                j = j + 1;
            }
            let none: Vec<String> = Vec::new();
            assert(Seq::new(none@.len(), |m: int| none@[m]@) =~= Seq::<Seq<char>>::empty());
            return none;
        }
        c = c + 1;
    }
    let none: Vec<String> = Vec::new();
    assert(Seq::new(none@.len(), |m: int| none@[m]@) =~= Seq::<Seq<char>>::empty());
    none
}

fn contains_name(v: &Vec<String>, x: &str) -> (b: bool)
    ensures
        b == exists|k: int| 0 <= k < v@.len() && v@[k]@ == x@,
{
    let mut i: usize = 0;
    while i < v.len()
        invariant
            i <= v@.len(),
            forall|k: int| 0 <= k < i ==> v@[k]@ != x@,
        decreases v@.len() - i,
    {
        if str_eq(v[i].as_str(), x) {
            return true;
        }
        i = i + 1;
    }
    false
}

/// The set of names a list holds.
pub open spec fn name_set(v: Seq<String>) -> Set<Seq<char>> {
    Set::new(|x: Seq<char>| exists|k: int| 0 <= k < v.len() && v[k]@ == x)
}

#[verifier::loop_isolation(false)]
fn search_exec(
    rows: &Vec<TupleRow>,
    cfgs: &Vec<NamespaceConfig>,
    ns: &str,
    obj: &str,
    rel: &str,
    subj: &Subject,
    depth: u32,
    visited: &mut Vec<String>,
) -> (r: Result<bool, AuthzError>)
    requires
        depth <= 11,
    ensures
        ({
            let (s, v) = search(rows@, cfgs@, ns@, obj@, rel@, *subj, depth as int, name_set(old(visited)@));
            check_result(r, s) && name_set(final(visited)@) == v
        }),
    decreases 11 - depth, 1int, 0int,
{
    if depth > 10 {
        return Err(AuthzError::CycleDetected);
    }
    if contains_name(visited, rel) {
        return Ok(false);
    }
    let ghost v0 = name_set(visited@);
    let ghost before = visited@;
    visited.push(rel.to_owned());
    proof {
        assert forall|x: Seq<char>| name_set(visited@).contains(x) <==> v0.insert(rel@).contains(x) by {
            if v0.insert(rel@).contains(x) {
                if x == rel@ {
                    assert(visited@[before.len() as int]@ == x);
                } else {
                    let k = choose|k: int| 0 <= k < before.len() && before[k]@ == x;
                    assert(visited@[k] == before[k]);
                }
            }
            if name_set(visited@).contains(x) {
                let k = choose|k: int| 0 <= k < visited@.len() && visited@[k]@ == x;
                if k < before.len() {
                    assert(visited@[k] == before[k]);
                }
            }
        }
        assert(name_set(visited@) =~= v0.insert(rel@));
    }
    let key = subject_row_key(subj);
    if direct_exec(rows, ns, obj, rel, &key) {
        return Ok(true);
    }
    let inh = inherits_exec(cfgs, ns, rel);
    let ghost inh_s = Seq::new(inh@.len(), |k: int| inh@[k]@);
    let ghost v1 = name_set(visited@);
    let mut i: usize = 0;
    while i < inh.len()
        invariant
            depth <= 10,
            i <= inh@.len(),
            inh_s == Seq::new(inh@.len(), |k: int| inh@[k]@),
            search_list(rows@, cfgs@, ns@, obj@, inh_s, 0, *subj, depth + 1, v1) == search_list(
                rows@,
                cfgs@,
                ns@,
                obj@,
                inh_s,
                i as int,
                *subj,
                depth + 1,
                name_set(visited@),
            ),
        decreases inh@.len() - i,
    {
        let ghost vb = name_set(visited@);
        let r = search_exec(rows, cfgs, ns, obj, inh[i].as_str(), subj, depth + 1, visited);
        assert(inh_s[i as int] == inh@[i as int]@);
        let ghost sr = search(rows@, cfgs@, ns@, obj@, inh_s[i as int], *subj, depth + 1, vb);
        match r {
            Ok(false) => {},
            _ => {
                assert(search_list(rows@, cfgs@, ns@, obj@, inh_s, i as int, *subj, depth + 1, vb) == sr);
                return r;
            },
        }
        i = i + 1;
    }
    match subj {
        Subject::User(u) => {
            if depth + 1 > 10 && membership_exec(rows, u.as_str()) {
                return Err(AuthzError::CycleDetected);
            }
            Ok(false)
        },
        _ => Ok(false),
    }
}

/// Whether the request's subject has its relation to its object, over the
/// stored tuples `rows` and the namespace configurations `cfgs`: a direct
/// tuple, else an inherited relation that holds, searched depth first; a
/// search deeper than ten steps fails.
pub fn check_relation(rows: &Vec<TupleRow>, cfgs: &Vec<NamespaceConfig>, req: &CheckRequest) -> (r: Result<bool, AuthzError>)
    ensures
        check_result(r, check_spec(rows@, cfgs@, *req)),
{
    let mut visited: Vec<String> = Vec::new();
    proof {
        assert(name_set(visited@) =~= Set::<Seq<char>>::empty());
    }
    search_exec(
        rows,
        cfgs,
        req.namespace.as_str(),
        req.object_id.as_str(),
        req.relation.as_str(),
        &req.subject,
        0,
        &mut visited,
    )
}

/// A subject as the expansion of a relation reports it.
pub enum SubjectView {
    User(Seq<char>),
    UserSet(Seq<char>, Seq<char>, Seq<char>),
}

/// The view of a subject.
pub open spec fn subject_view(s: Subject) -> SubjectView {
    match s {
        Subject::User(id) => SubjectView::User(id@),
        Subject::UserSet { namespace, object_id, relation } => SubjectView::UserSet(
            namespace@,
            object_id@,
            relation@,
        ),
    }
}

/// The subject a stored row records: a user, or a userset whose id splits
/// on `:` into exactly a namespace and an object and whose relation is
/// recorded; none for a malformed userset.
pub open spec fn row_subject(t: TupleRow) -> Option<SubjectView> {
    if t.subject_type@ == "user"@ {
        Some(SubjectView::User(t.subject_id@))
    } else {
        let parts = fields_on(t.subject_id@, ':');
        match t.subject_relation {
            Some(r) => if parts.len() == 2 {
                Some(SubjectView::UserSet(parts[0], parts[1], r@))
            } else {
                None
            },
            None => None,
        }
    }
}

/// The subjects the rows of `rows` give `rel` on the object, in row order
/// (malformed usersets skipped).
pub open spec fn expanded(rows: Seq<TupleRow>, ns: Seq<char>, obj: Seq<char>, rel: Seq<char>) -> Seq<SubjectView>
    decreases rows.len(),
{
    if rows.len() == 0 {
        Seq::empty()
    } else {
        let prev = expanded(rows.drop_last(), ns, obj, rel);
        let t = rows.last();
        if t.namespace@ == ns && t.object_id@ == obj && t.relation@ == rel {
            match row_subject(t) {
                Some(v) => prev.push(v),
                None => prev,
            }
        } else {
            prev
        }
    }
}

/// The subjects that hold `rel` on the object directly, as stored.
pub fn expand(rows: &Vec<TupleRow>, ns: &str, obj: &str, rel: &str) -> (r: Vec<Subject>)
    ensures
        Seq::new(r@.len(), |k: int| subject_view(r@[k])) == expanded(rows@, ns@, obj@, rel@),
{
    let mut out: Vec<Subject> = Vec::new();
    let mut i: usize = 0;
    while i < rows.len()
        invariant
            i <= rows@.len(),
            Seq::new(out@.len(), |k: int| subject_view(out@[k])) == expanded(rows@.take(i as int), ns@, obj@, rel@),
        decreases rows@.len() - i,
    {
        let ghost before = Seq::new(out@.len(), |k: int| subject_view(out@[k]));
        proof {
            assert(rows@.take(i + 1).drop_last() =~= rows@.take(i as int));
            assert(rows@.take(i + 1).last() == rows@[i as int]);
        }
        let t = &rows[i];
        if str_eq(t.namespace.as_str(), ns) && str_eq(t.object_id.as_str(), obj) && str_eq(t.relation.as_str(), rel) {
            if str_eq(t.subject_type.as_str(), "user") {
                out.push(Subject::User(t.subject_id.clone()));
                assert(Seq::new(out@.len(), |k: int| subject_view(out@[k])) =~= before.push(SubjectView::User(t.subject_id@)));
            } else {
                let parts = split_on(t.subject_id.as_str(), ':');
                match &t.subject_relation {
                    Some(r) => {
                        if parts.len() == 2 {
                            let s = Subject::UserSet {
                                namespace: parts[0].clone(),
                                object_id: parts[1].clone(),
                                relation: r.clone(),
                            };
                            out.push(s);
                            assert(Seq::new(out@.len(), |k: int| subject_view(out@[k])) =~= before.push(
                                SubjectView::UserSet(parts@[0]@, parts@[1]@, r@),
                            ));
                        }
                    },
                    None => {},
                }
            }
        }
        i = i + 1;
    }
    proof {
        assert(rows@.take(rows@.len() as int) =~= rows@);
    }
    out
}

/// A relation tuple as the engine hands it out.
pub struct RelationTuple {
    pub namespace: String,
    pub object_id: String,
    pub relation: String,
    pub subject: Subject,
}

/// The view of a tuple.
pub open spec fn tuple_view(t: RelationTuple) -> (Seq<char>, Seq<char>, Seq<char>, SubjectView) {
    (t.namespace@, t.object_id@, t.relation@, subject_view(t.subject))
}

/// The tuple a stored row holds: a user, or a userset whose id splits on
/// `:` into exactly a namespace and an object (its relation empty when none
/// is recorded); none for another userset id.
pub open spec fn row_tuple(t: TupleRow) -> Option<(Seq<char>, Seq<char>, Seq<char>, SubjectView)> {
    if t.subject_type@ == "user"@ {
        Some((t.namespace@, t.object_id@, t.relation@, SubjectView::User(t.subject_id@)))
    } else {
        let parts = fields_on(t.subject_id@, ':');
        if parts.len() == 2 {
            Some(
                (
                    t.namespace@,
                    t.object_id@,
                    t.relation@,
                    SubjectView::UserSet(
                        parts[0],
                        parts[1],
                        match t.subject_relation {
                            Some(r) => r@,
                            None => Seq::empty(),
                        },
                    ),
                ),
            )
        } else {
            None
        }
    }
}

/// The tuples of the rows that `keep` selects, in row order, malformed
/// usersets skipped.
pub open spec fn listed(rows: Seq<TupleRow>, keep: spec_fn(TupleRow) -> bool) -> Seq<
    (Seq<char>, Seq<char>, Seq<char>, SubjectView),
>
    decreases rows.len(),
{
    if rows.len() == 0 {
        Seq::empty()
    } else {
        let prev = listed(rows.drop_last(), keep);
        if keep(rows.last()) {
            match row_tuple(rows.last()) {
                Some(v) => prev.push(v),
                None => prev,
            }
        } else {
            prev
        }
    }
}

/// The rows that record the subject recorded as `key`.
pub open spec fn by_subject(key: (Seq<char>, Seq<char>)) -> spec_fn(TupleRow) -> bool {
    |t: TupleRow| t.subject_type@ == key.0 && t.subject_id@ == key.1
}

/// The rows of an object.
pub open spec fn by_object(ns: Seq<char>, obj: Seq<char>) -> spec_fn(TupleRow) -> bool {
    |t: TupleRow| t.namespace@ == ns && t.object_id@ == obj
}

fn row_to_tuple(t: &TupleRow) -> (r: Option<RelationTuple>)
    ensures
        match r {
            Some(x) => row_tuple(*t) == Some(tuple_view(x)),
            None => row_tuple(*t) is None,
        },
{
    let subject = if str_eq(t.subject_type.as_str(), "user") {
        Subject::User(t.subject_id.clone())
    } else {
        let parts = split_on(t.subject_id.as_str(), ':');
        if parts.len() == 2 {
            let relation = match &t.subject_relation {
                Some(r) => r.clone(),
                None => String::new(),
            };
            Subject::UserSet { namespace: parts[0].clone(), object_id: parts[1].clone(), relation }
        } else {
            return None;
        }
    };
    Some(
        RelationTuple {
            namespace: t.namespace.clone(),
            object_id: t.object_id.clone(),
            relation: t.relation.clone(),
            subject,
        },
    )
}

/// Keeps the rows that record the subject recorded as `key` (by subject),
/// or those of the object `key` (by object).
fn list_where(rows: &Vec<TupleRow>, subject_side: bool, key: &(String, String)) -> (r: Vec<RelationTuple>)
    ensures
        Seq::new(r@.len(), |k: int| tuple_view(r@[k])) == listed(
            rows@,
            if subject_side {
                by_subject((key.0@, key.1@))
            } else {
                by_object(key.0@, key.1@)
            },
        ),
{
    let ghost keep = if subject_side {
        by_subject((key.0@, key.1@))
    } else {
        by_object(key.0@, key.1@)
    };
    let mut out: Vec<RelationTuple> = Vec::new();
    let mut i: usize = 0;
    while i < rows.len()
        invariant
            i <= rows@.len(),
            keep == (if subject_side {
                by_subject((key.0@, key.1@))
            } else {
                by_object(key.0@, key.1@)
            }),
            Seq::new(out@.len(), |k: int| tuple_view(out@[k])) == listed(rows@.take(i as int), keep),
        decreases rows@.len() - i,
    {
        let ghost before = Seq::new(out@.len(), |k: int| tuple_view(out@[k]));
        proof {
            assert(rows@.take(i + 1).drop_last() =~= rows@.take(i as int));
            assert(rows@.take(i + 1).last() == rows@[i as int]);
        }
        let t = &rows[i];
        let selected = if subject_side {
            str_eq(t.subject_type.as_str(), key.0.as_str()) && str_eq(t.subject_id.as_str(), key.1.as_str())
        } else {
            str_eq(t.namespace.as_str(), key.0.as_str()) && str_eq(t.object_id.as_str(), key.1.as_str())
        };
        assert(selected == keep(rows@[i as int]));
        if selected {
            match row_to_tuple(t) {
                Some(x) => {
                    let ghost xv = tuple_view(x);
                    out.push(x);
                    assert(Seq::new(out@.len(), |k: int| tuple_view(out@[k])) =~= before.push(xv));
                },
                None => {},
            }
        }
        i = i + 1;
    }
    proof {
        assert(rows@.take(rows@.len() as int) =~= rows@);
    }
    out
}

/// Every stored tuple that names `subject` as its subject, in row order.
pub fn list_subject_tuples(rows: &Vec<TupleRow>, subject: &Subject) -> (r: Vec<RelationTuple>)
    ensures
        Seq::new(r@.len(), |k: int| tuple_view(r@[k])) == listed(rows@, by_subject(subject_key(*subject))),
{
    let key = subject_row_key(subject);
    list_where(rows, true, &key)
}

/// Every stored tuple of the object `object_id` of `namespace`, in row order.
pub fn list_object_tuples(rows: &Vec<TupleRow>, namespace: &str, object_id: &str) -> (r: Vec<RelationTuple>)
    ensures
        Seq::new(r@.len(), |k: int| tuple_view(r@[k])) == listed(rows@, by_object(namespace@, object_id@)),
{
    let key = (namespace.to_owned(), object_id.to_owned());
    list_where(rows, false, &key)
}

/// The answer of a batch check for one request: a cached answer as it is;
/// a request the Bloom filter rules out is refused; a direct tuple grants;
/// otherwise the full check decides. Each answer says whether it came from
/// the cache.
pub open spec fn batch_answer(
    rows: Seq<TupleRow>,
    cfgs: Seq<NamespaceConfig>,
    req: CheckRequest,
    cached: Option<bool>,
    maybe_present: bool,
) -> Result<(bool, bool), ()> {
    match cached {
        Some(b) => Ok((b, true)),
        None => if !maybe_present {
            Ok((false, false))
        } else if direct(rows, req.namespace@, req.object_id@, req.relation@, subject_key(req.subject)) {
            Ok((true, false))
        } else {
            match check_spec(rows, cfgs, req) {
                Ok(b) => Ok((b, false)),
                Err(_) => Err(()),
            }
        },
    }
}

/// Decides a batch of checks, given for each request what the cache holds
/// (`cached`) and whether the Bloom filter may hold its tuple
/// (`maybe_present`): the answers in order, or the failure of the first
/// request whose check fails.
pub fn batch_check(
    rows: &Vec<TupleRow>,
    cfgs: &Vec<NamespaceConfig>,
    requests: &Vec<CheckRequest>,
    cached: &Vec<Option<bool>>,
    maybe_present: &Vec<bool>,
) -> (r: Result<Vec<(bool, bool)>, AuthzError>)
    requires
        cached@.len() == requests@.len(),
        maybe_present@.len() == requests@.len(),
    ensures
        (exists|i: int|
            0 <= i < requests@.len() && #[trigger] batch_answer(rows@, cfgs@, requests@[i], cached@[i], maybe_present@[i]) is Err)
            ==> r matches Err(AuthzError::CycleDetected),
        (forall|i: int|
            0 <= i < requests@.len() ==> #[trigger] batch_answer(rows@, cfgs@, requests@[i], cached@[i], maybe_present@[i]) is Ok)
            ==> (r matches Ok(v) && v@.len() == requests@.len() && forall|i: int|
            0 <= i < requests@.len() ==> batch_answer(rows@, cfgs@, requests@[i], cached@[i], maybe_present@[i])
                == Ok::<(bool, bool), ()>(#[trigger] v@[i])),
{
    let mut out: Vec<(bool, bool)> = Vec::new();
    let mut i: usize = 0;
    while i < requests.len()
        invariant
            i <= requests@.len(),
            cached@.len() == requests@.len(),
            maybe_present@.len() == requests@.len(),
            out@.len() == i,
            forall|k: int|
                0 <= k < i ==> batch_answer(rows@, cfgs@, requests@[k], cached@[k], maybe_present@[k])
                    == Ok::<(bool, bool), ()>(#[trigger] out@[k]),
        decreases requests@.len() - i,
    {
        let req = &requests[i];
        let ghost ans = batch_answer(rows@, cfgs@, requests@[i as int], cached@[i as int], maybe_present@[i as int]);
        let a: (bool, bool) = match cached[i] {
            Some(b) => (b, true),
            None => {
                if !maybe_present[i] {
                    (false, false)
                } else {
                    let key = subject_row_key(&req.subject);
                    if direct_exec(rows, req.namespace.as_str(), req.object_id.as_str(), req.relation.as_str(), &key) {
                        (true, false)
                    } else {
                        match check_relation(rows, cfgs, req) {
                            Ok(b) => (b, false),
                            Err(e) => {
                                assert(ans is Err);
                                return Err(e);
                            },
                        }
                    }
                }
            },
        };
        out.push(a);
        i = i + 1;
    }
    assert forall|k: int| 0 <= k < requests@.len() implies #[trigger] batch_answer(
        rows@,
        cfgs@,
        requests@[k],
        cached@[k],
        maybe_present@[k],
    ) is Ok by {
        assert(batch_answer(rows@, cfgs@, requests@[k], cached@[k], maybe_present@[k]) == Ok::<(bool, bool), ()>(out@[k]));
    }
    Ok(out)
}

/// No relation added to `v` after `v0` is granted directly.
pub open spec fn none_granted_between(
    rows: Seq<TupleRow>,
    ns: Seq<char>,
    obj: Seq<char>,
    key: (Seq<char>, Seq<char>),
    v0: Set<Seq<char>>,
    v: Set<Seq<char>>,
) -> bool {
    &&& v0.subset_of(v)
    &&& forall|y: Seq<char>| #[trigger] v.contains(y) && !v0.contains(y) ==> !direct(rows, ns, obj, y, key)
}

proof fn lemma_search_no(
    rows: Seq<TupleRow>,
    cfgs: Seq<NamespaceConfig>,
    ns: Seq<char>,
    obj: Seq<char>,
    rel: Seq<char>,
    subj: Subject,
    depth: int,
    visited: Set<Seq<char>>,
)
    ensures
        ({
            let (r, v) = search(rows, cfgs, ns, obj, rel, subj, depth, visited);
            r == Ok::<bool, ()>(false) ==> v.contains(rel) && none_granted_between(
                rows,
                ns,
                obj,
                subject_key(subj),
                visited,
                v,
            )
        }),
    decreases 11 - depth, 1int, 0int,
{
    if depth > 10 {
    } else if visited.contains(rel) {
    } else {
        let v1 = visited.insert(rel);
        if !direct(rows, ns, obj, rel, subject_key(subj)) {
            let inh = inherits(cfgs, ns, rel);
            lemma_search_list_no(rows, cfgs, ns, obj, inh, 0, subj, depth + 1, v1);
            let (r, v2) = search_list(rows, cfgs, ns, obj, inh, 0, subj, depth + 1, v1);
            if r == Ok::<bool, ()>(false) {
                assert forall|y: Seq<char>| #[trigger] v2.contains(y) && !visited.contains(y) implies !direct(
                    rows,
                    ns,
                    obj,
                    y,
                    subject_key(subj),
                ) by {
                    if y == rel {
                    } else {
                        assert(!v1.contains(y));
                    }
                }
            }
        }
    }
}

proof fn lemma_search_list_no(
    rows: Seq<TupleRow>,
    cfgs: Seq<NamespaceConfig>,
    ns: Seq<char>,
    obj: Seq<char>,
    rels: Seq<Seq<char>>,
    i: int,
    subj: Subject,
    depth: int,
    visited: Set<Seq<char>>,
)
    requires
        0 <= i,
    ensures
        ({
            let (r, v) = search_list(rows, cfgs, ns, obj, rels, i, subj, depth, visited);
            r == Ok::<bool, ()>(false) ==> none_granted_between(rows, ns, obj, subject_key(subj), visited, v)
                && forall|k: int| i <= k < rels.len() ==> v.contains(#[trigger] rels[k])
        }),
    decreases 11 - depth, 2int, rels.len() - i,
{
    if i >= rels.len() {
    } else {
        lemma_search_no(rows, cfgs, ns, obj, rels[i], subj, depth, visited);
        let (r, v) = search(rows, cfgs, ns, obj, rels[i], subj, depth, visited);
        if r == Ok::<bool, ()>(false) {
            lemma_search_list_no(rows, cfgs, ns, obj, rels, i + 1, subj, depth, v);
            let (r2, v2) = search_list(rows, cfgs, ns, obj, rels, i + 1, subj, depth, v);
            if r2 == Ok::<bool, ()>(false) {
                assert forall|y: Seq<char>| #[trigger] v2.contains(y) && !visited.contains(y) implies !direct(
                    rows,
                    ns,
                    obj,
                    y,
                    subject_key(subj),
                ) by {
                    if !v.contains(y) {
                    }
                }
                assert forall|k: int| i <= k < rels.len() implies v2.contains(#[trigger] rels[k]) by {
                    if k == i {
                    }
                }
            }
        }
    }
}

proof fn lemma_search_yes(
    rows: Seq<TupleRow>,
    cfgs: Seq<NamespaceConfig>,
    ns: Seq<char>,
    obj: Seq<char>,
    rel: Seq<char>,
    subj: Subject,
    depth: int,
    visited: Set<Seq<char>>,
)
    ensures
        search(rows, cfgs, ns, obj, rel, subj, depth, visited).0 == Ok::<bool, ()>(true) ==> exists|y: Seq<char>|
            #[trigger] direct(rows, ns, obj, y, subject_key(subj)),
    decreases 11 - depth, 1int, 0int,
{
    if depth <= 10 && !visited.contains(rel) {
        let v1 = visited.insert(rel);
        if !direct(rows, ns, obj, rel, subject_key(subj)) {
            lemma_search_list_yes(rows, cfgs, ns, obj, inherits(cfgs, ns, rel), 0, subj, depth + 1, v1);
        }
    }
}

proof fn lemma_search_list_yes(
    rows: Seq<TupleRow>,
    cfgs: Seq<NamespaceConfig>,
    ns: Seq<char>,
    obj: Seq<char>,
    rels: Seq<Seq<char>>,
    i: int,
    subj: Subject,
    depth: int,
    visited: Set<Seq<char>>,
)
    requires
        0 <= i,
    ensures
        search_list(rows, cfgs, ns, obj, rels, i, subj, depth, visited).0 == Ok::<bool, ()>(true) ==> exists|
            y: Seq<char>,
        | #[trigger] direct(rows, ns, obj, y, subject_key(subj)),
    decreases 11 - depth, 2int, rels.len() - i,
{
    if i < rels.len() {
        lemma_search_yes(rows, cfgs, ns, obj, rels[i], subj, depth, visited);
        let (r, v) = search(rows, cfgs, ns, obj, rels[i], subj, depth, visited);
        if r == Ok::<bool, ()>(false) {
            lemma_search_list_yes(rows, cfgs, ns, obj, rels, i + 1, subj, depth, v);
        }
    }
}

/// A check grants only on the strength of a stored tuple: when it answers
/// yes, some tuple grants some relation of the object to the subject
/// directly (with no tuple for the subject on the object, it never
/// grants).
pub proof fn law_grant_rests_on_a_tuple(rows: Seq<TupleRow>, cfgs: Seq<NamespaceConfig>, req: CheckRequest)
    ensures
        check_spec(rows, cfgs, req) == Ok::<bool, ()>(true) ==> exists|i: int, y: Seq<char>|
            0 <= i < rows.len() && #[trigger] row_grants(
                rows[i],
                req.namespace@,
                req.object_id@,
                y,
                subject_key(req.subject),
            ),
{
    lemma_search_yes(
        rows,
        cfgs,
        req.namespace@,
        req.object_id@,
        req.relation@,
        req.subject,
        0,
        Set::empty(),
    );
    if check_spec(rows, cfgs, req) == Ok::<bool, ()>(true) {
        let y = choose|y: Seq<char>| #[trigger] direct(rows, req.namespace@, req.object_id@, y, subject_key(req.subject));
        let i = choose|i: int| 0 <= i < rows.len() && row_grants(rows[i], req.namespace@, req.object_id@, y, subject_key(req.subject));
        assert(row_grants(rows[i], req.namespace@, req.object_id@, y, subject_key(req.subject)));
    }
}

/// Every relation a relation inherits from counts, not only the first:
/// when the request's relation lists `parent` anywhere among the relations
/// it inherits from, and a stored tuple grants `parent` to the subject
/// directly, the check never answers no (it grants, or fails when the
/// search runs deeper than ten steps).
pub proof fn law_any_inherited_relation_counts(
    rows: Seq<TupleRow>,
    cfgs: Seq<NamespaceConfig>,
    req: CheckRequest,
    j: int,
    i: int,
)
    requires
        0 <= j < inherits(cfgs, req.namespace@, req.relation@).len(),
        0 <= i < rows.len(),
        row_grants(
            rows[i],
            req.namespace@,
            req.object_id@,
            inherits(cfgs, req.namespace@, req.relation@)[j],
            subject_key(req.subject),
        ),
    ensures
        check_spec(rows, cfgs, req) != Ok::<bool, ()>(false),
{
    let ns = req.namespace@;
    let obj = req.object_id@;
    let rel = req.relation@;
    let key = subject_key(req.subject);
    let inh = inherits(cfgs, ns, rel);
    let parent = inh[j];
    assert(direct(rows, ns, obj, parent, key));
    let v1 = Set::<Seq<char>>::empty().insert(rel);
    if !direct(rows, ns, obj, rel, key) {
        lemma_search_list_no(rows, cfgs, ns, obj, inh, 0, req.subject, 1, v1);
        let (r, v2) = search_list(rows, cfgs, ns, obj, inh, 0, req.subject, 1, v1);
        if r == Ok::<bool, ()>(false) {
            assert(v2.contains(inh[j]));
            assert(parent != rel);
            assert(!v1.contains(parent));
            assert(false);
        }
    }
}

/// A direct tuple always grants its relation.
pub proof fn law_direct_tuple_grants(rows: Seq<TupleRow>, cfgs: Seq<NamespaceConfig>, req: CheckRequest, i: int)
    requires
        0 <= i < rows.len(),
        row_grants(rows[i], req.namespace@, req.object_id@, req.relation@, subject_key(req.subject)),
    ensures
        check_spec(rows, cfgs, req) == Ok::<bool, ()>(true),
{
}

/// A relation inherited from one the subject holds directly is granted:
/// when `req`'s relation lists `parent` first among those it inherits from
/// and a tuple grants `parent`, the check answers yes.
pub proof fn law_inherited_relation_grants(
    rows: Seq<TupleRow>,
    cfgs: Seq<NamespaceConfig>,
    req: CheckRequest,
    i: int,
)
    requires
        inherits(cfgs, req.namespace@, req.relation@).len() > 0,
        inherits(cfgs, req.namespace@, req.relation@)[0] != req.relation@,
        0 <= i < rows.len(),
        row_grants(
            rows[i],
            req.namespace@,
            req.object_id@,
            inherits(cfgs, req.namespace@, req.relation@)[0],
            subject_key(req.subject),
        ),
    ensures
        check_spec(rows, cfgs, req) == Ok::<bool, ()>(true),
{
    let ns = req.namespace@;
    let obj = req.object_id@;
    let rel = req.relation@;
    let inh = inherits(cfgs, ns, rel);
    let v1 = Set::<Seq<char>>::empty().insert(rel);
    assert(!v1.contains(inh[0]));
    assert(direct(rows, ns, obj, inh[0], subject_key(req.subject)));
    if direct(rows, ns, obj, rel, subject_key(req.subject)) {
    } else {
        assert(search(rows, cfgs, ns, obj, inh[0], req.subject, 1, v1).0 == Ok::<bool, ()>(true));
        assert(search_list(rows, cfgs, ns, obj, inh, 0, req.subject, 1, v1).0 == Ok::<bool, ()>(true));
    }
}

} // verus!
