//! Template resolution and the choice of a switch node's case.
//!
//! A template refers to variables by placeholders `{{name}}`: two opening
//! braces, one or more characters other than a closing brace, two closing
//! braces. Each placeholder, taken from left to right, is replaced (at every
//! place it occurs) by the rendered value of its variable, or by `[name]` for
//! a name of the form `node.field`; any other unknown name is an error.

use vstd::prelude::*;

use crate::dag::EngineError;
use crate::text::{has_prefix, occurs_at, occurs_at_exec, split_on, str_eq, trim, trim_spec, fields_on};

verus! {

// ---------------------------------------------------------------------
// Replacing every occurrence of a text
// ---------------------------------------------------------------------

/// `s` with every occurrence of `pat` replaced by `rep`, occurrences taken
/// from left to right without overlap (what `str::replace` does).
pub open spec fn replace_spec(s: Seq<char>, pat: Seq<char>, rep: Seq<char>) -> Seq<char>
    decreases s.len(),
{
    if pat.len() == 0 || s.len() < pat.len() {
        s
    } else if s.take(pat.len() as int) == pat {
        rep + replace_spec(s.skip(pat.len() as int), pat, rep)
    } else {
        seq![s[0]] + replace_spec(s.skip(1), pat, rep)
    }
}

/// Replacing in a text that starts with no occurrence keeps its first
/// character.
proof fn lemma_replace_step(s: Seq<char>, pat: Seq<char>, rep: Seq<char>)
    requires
        pat.len() > 0,
        s.len() > 0,
        !(pat.len() <= s.len() && s.take(pat.len() as int) == pat),
    ensures
        replace_spec(s, pat, rep) == seq![s[0]] + replace_spec(s.skip(1), pat, rep),
{
    if s.len() < pat.len() {
        assert(s.skip(1).len() < pat.len());
        assert(seq![s[0]] + s.skip(1) =~= s);
    }
}

/// Every occurrence of `pat` in `s` replaced by `rep`, from left to right.
pub fn replace_all(s: &str, pat: &str, rep: &str) -> (r: String)
    requires
        pat@.len() > 0,
    ensures
        r@ == replace_spec(s@, pat@, rep@),
{
    let n = s.unicode_len();
    let m = pat.unicode_len();
    let mut out = String::new();
    let mut i: usize = 0;
    proof {
        assert(s@.skip(0) =~= s@);
    }
    while i < n
        invariant
            n == s@.len(),
            m == pat@.len(),
            m > 0,
            i <= n,
            out@ + replace_spec(s@.skip(i as int), pat@, rep@) == replace_spec(s@, pat@, rep@),
        decreases n - i,
    {
        let ghost rest = s@.skip(i as int);
        if m <= n - i && occurs_at_exec(s, pat, i, n, m) {
            proof {
                assert(rest.take(m as int) =~= s@.subrange(i as int, i + m));
                assert(rest.skip(m as int) =~= s@.skip(i + m));
                assert(out@ + rep@ + replace_spec(s@.skip(i + m), pat@, rep@) =~= out@ + (rep@
                    + replace_spec(rest.skip(m as int), pat@, rep@)));
            }
            out.append(rep);
            i = i + m;
        } else {
            proof {
                if m <= n - i {
                    assert(rest.take(m as int) =~= s@.subrange(i as int, i + m));
                }
                lemma_replace_step(rest, pat@, rep@);
                assert(rest.skip(1) =~= s@.skip(i + 1));
                assert(rest[0] == s@[i as int]);
            }
            let c = s.substring_char(i, i + 1);
            proof {
                assert(c@ =~= seq![s@[i as int]]);
                assert(out@ + c@ + replace_spec(s@.skip(i + 1), pat@, rep@) =~= out@ + (seq![rest[0]]
                    + replace_spec(rest.skip(1), pat@, rep@)));
            }
            out.append(c);
            i = i + 1;
        }
    }
    proof {
        assert(s@.skip(n as int) =~= Seq::<char>::empty());
        assert(out@ + Seq::<char>::empty() =~= out@);
    }
    out
}

// ---------------------------------------------------------------------
// Placeholders
// ---------------------------------------------------------------------

/// The first position at or after `j` that holds `}` (the length of `t` when
/// there is none).
pub open spec fn first_close(t: Seq<char>, j: int) -> int
    decreases t.len() - j,
{
    if j >= t.len() || j < 0 {
        t.len() as int
    } else if t[j] == '}' {
        j
    } else {
        first_close(t, j + 1)
    }
}

/// A placeholder starts at `p`: `{{`, then at least one character other
/// than `}`, then `}}`.
pub open spec fn placeholder_at(t: Seq<char>, p: int) -> bool {
    &&& 0 <= p
    &&& p + 1 < t.len()
    &&& t[p] == '{'
    &&& t[p + 1] == '{'
    &&& first_close(t, p + 2) > p + 2
    &&& first_close(t, p + 2) + 1 < t.len()
    &&& t[first_close(t, p + 2) + 1] == '}'
}

/// The variables a template can read: names and rendered values (the first
/// entry of a name counts).
pub open spec fn var_value(vars: Seq<(Seq<char>, Seq<char>)>, name: Seq<char>) -> Option<Seq<char>>
    decreases vars.len(),
{
    if vars.len() == 0 {
        None
    } else if vars[0].0 == name {
        Some(vars[0].1)
    } else {
        var_value(vars.drop_first(), name)
    }
}

/// The views of a list of variables.
pub open spec fn vars_view(vars: Seq<(String, String)>) -> Seq<(Seq<char>, Seq<char>)> {
    Seq::new(vars.len(), |i: int| (vars[i].0@, vars[i].1@))
}

/// The text that stands for the variable `name`: its value, `[name]` for an
/// unknown name of the form `node.field`, or nothing (an error).
pub open spec fn substitute(vars: Seq<(Seq<char>, Seq<char>)>, name: Seq<char>) -> Option<Seq<char>> {
    match var_value(vars, name) {
        Some(v) => Some(v),
        None => if fields_on(name, '.').len() == 2 {
            Some("["@ + name + "]"@)
        } else {
            None
        },
    }
}

/// Resolution of the placeholders of `t` from position `i` on, `acc` being
/// the text so far: each placeholder replaced at every place in `acc`;
/// `Err(name)` for the first name that cannot be substituted.
pub open spec fn resolve_from(
    t: Seq<char>,
    i: int,
    vars: Seq<(Seq<char>, Seq<char>)>,
    acc: Seq<char>,
) -> Result<Seq<char>, Seq<char>>
    decreases t.len() - i,
{
    if i >= t.len() || i < 0 {
        Ok(acc)
    } else if placeholder_at(t, i) {
        let q = first_close(t, i + 2);
        let name = trim_spec(t.subrange(i + 2, q));
        match substitute(vars, name) {
            Some(v) => resolve_from(t, q + 2, vars, replace_spec(acc, t.subrange(i, q + 2), v)),
            None => Err(name),
        }
    } else {
        resolve_from(t, i + 1, vars, acc)
    }
}

/// The resolution of the template `t`.
pub open spec fn resolve_spec(t: Seq<char>, vars: Seq<(Seq<char>, Seq<char>)>) -> Result<
    Seq<char>,
    Seq<char>,
> {
    resolve_from(t, 0, vars, t)
}

/// `r` is the outcome of resolving `t`: the text, or `VariableNotFound`
/// naming the first variable that cannot be substituted.
pub open spec fn resolved(r: Result<String, EngineError>, t: Seq<char>, vars: Seq<(String, String)>) -> bool {
    match resolve_spec(t, vars_view(vars)) {
        Ok(s) => r matches Ok(x) && x@ == s,
        Err(name) => r matches Err(EngineError::VariableNotFound(n)) && n@ == name,
    }
}

proof fn lemma_first_close_bounds(t: Seq<char>, j: int)
    requires
        0 <= j,
    ensures
        j <= first_close(t, j) || first_close(t, j) == t.len(),
        first_close(t, j) <= t.len() || j > t.len(),
        first_close(t, j) < t.len() ==> t[first_close(t, j)] == '}',
        forall|k: int| j <= k < first_close(t, j) && k < t.len() ==> t[k] != '}',
    decreases t.len() - j,
{
    if j < t.len() && t[j] != '}' {
        lemma_first_close_bounds(t, j + 1);
    }
}

/// The first position at or after `j` holding `}` (or the length).
fn find_close(t: &str, j: usize, n: usize) -> (q: usize)
    requires
        n == t@.len(),
        j <= n,
    ensures
        q == first_close(t@, j as int),
        j <= q <= n,
{
    let mut k = j;
    while k < n && t.get_char(k) != '}'
        invariant
            n == t@.len(),
            j <= k <= n,
            first_close(t@, j as int) == first_close(t@, k as int),
        decreases n - k,
    {
        k = k + 1;
    }
    k
}

/// The rendered value of the variable `name`, the first entry of the name.
fn lookup_var(vars: &Vec<(String, String)>, name: &str) -> (r: Option<String>)
    ensures
        match var_value(vars_view(vars@), name@) {
            Some(v) => r matches Some(x) && x@ == v,
            None => r is None,
        },
{
    let ghost vv = vars_view(vars@);
    let mut i: usize = 0;
    proof {
        assert(vv.skip(0) =~= vv);
    }
    while i < vars.len()
        invariant
            vv == vars_view(vars@),
            i <= vars@.len(),
            var_value(vv, name@) == var_value(vv.skip(i as int), name@),
        decreases vars@.len() - i,
    {
        proof {
            assert(vv.skip(i as int)[0] == vv[i as int]);
            assert(vv.skip(i as int).drop_first() =~= vv.skip(i + 1));
        }
        if str_eq(vars[i].0.as_str(), name) {
            return Some(vars[i].1.clone());
        }
        i = i + 1;
    }
    proof {
        assert(vv.skip(i as int).len() == 0);
    }
    None
}

/// Resolves the placeholders of `template` against `vars` (names with their
/// rendered values): each `{{name}}`, from left to right, is replaced at
/// every place by the value of `name` (spaces around the name ignored), or
/// by `[name]` when the name has the form `node.field`; any other unknown
/// name is `VariableNotFound`.
pub fn resolve_template(template: &str, vars: &Vec<(String, String)>) -> (r: Result<String, EngineError>)
    ensures
        resolved(r, template@, vars@),
{
    let ghost vv = vars_view(vars@);
    let ghost t = template@;
    let n = template.unicode_len();
    let mut result = String::from_str(template);
    let mut i: usize = 0;
    while i < n
        invariant
            n == t.len(),
            t == template@,
            vv == vars_view(vars@),
            i <= n,
            resolve_from(t, i as int, vv, result@) == resolve_spec(t, vv),
        decreases n - i,
    {
        let opens = i + 1 < n && template.get_char(i) == '{' && template.get_char(i + 1) == '{';
        if opens {
            let q = find_close(template, i + 2, n);
            proof {
                lemma_first_close_bounds(t, i + 2);
            }
            if q > i + 2 && q < n && q + 1 < n && template.get_char(q + 1) == '}' {
                assert(placeholder_at(t, i as int));
                let whole = template.substring_char(i, q + 2);
                let raw = template.substring_char(i + 2, q);
                let name = trim(raw);
                let value = match lookup_var(vars, name) {
                    Some(v) => v,
                    None => {
                        let parts = split_on(name, '.');
                        if parts.len() == 2 {
                            String::from_str("[").concat(name).concat("]")
                        } else {
                            return Err(EngineError::VariableNotFound(name.to_owned()));
                        }
                    },
                };
                result = replace_all(result.as_str(), whole, value.as_str());
                i = q + 2;
            } else {
                assert(!placeholder_at(t, i as int));
                i = i + 1;
            }
        } else {
            assert(!placeholder_at(t, i as int));
            i = i + 1;
        }
    }
    Ok(result)
}

// ---------------------------------------------------------------------
// Switch nodes
// ---------------------------------------------------------------------

/// Whether the regular expression `pattern` matches somewhere in `text`,
/// as the `regex` crate decides; `None` when the pattern does not compile.
pub uninterp spec fn regex_match_spec(pattern: Seq<char>, text: Seq<char>) -> Option<bool>;

/// Compiles `pattern` with `regex::Regex::new` and, when it compiles, asks
/// `Regex::is_match` about `text`; the outcome is named.
#[verifier::external_body]
fn regex_is_match(pattern: &str, text: &str) -> (r: Option<bool>)
    ensures
        r == regex_match_spec(pattern@, text@),
{
    match regex::Regex::new(pattern) {
        Ok(re) => Some(re.is_match(text)),
        Err(_) => None,
    }
}

/// A case of a switch node: the value it matches and the action template.
#[derive(Clone, Debug)]
pub struct SwitchCase {
    /// The value to match exactly, or `regex:` followed by a pattern.
    pub match_value: String,
    /// The template resolved when the case matches.
    pub action: String,
}

/// The case value `mv` matches the value `v`: a `regex:` case when its
/// pattern compiles and matches, any other case when equal.
pub open spec fn case_matches(mv: Seq<char>, v: Seq<char>) -> bool {
    if has_prefix(mv, "regex:"@) {
        regex_match_spec(mv.skip(6), v) == Some(true)
    } else {
        mv == v
    }
}

/// The first case, from position `i` on, whose value matches `v`.
pub open spec fn first_case(cases: Seq<SwitchCase>, v: Seq<char>, i: int) -> Option<int>
    decreases cases.len() - i,
{
    if i >= cases.len() || i < 0 {
        None
    } else if case_matches(cases[i].match_value@, v) {
        Some(i)
    } else {
        first_case(cases, v, i + 1)
    }
}

/// What a switch node decides.
#[derive(Debug)]
pub enum SwitchOutcome {
    /// A case matched; its action resolved to `result`.
    Matched { matched_case: String, result: String },
    /// No case matched; the default action resolved to `result`.
    Default { result: String },
    /// No case matched and there is no default (the node fails).
    NoMatch { message: String },
}

/// `r` is the switch node's decision on the resolved value `v`.
pub open spec fn switch_decided(
    r: Result<SwitchOutcome, EngineError>,
    v: Seq<char>,
    cases: Seq<SwitchCase>,
    default_case: Option<String>,
    vars: Seq<(String, String)>,
) -> bool {
    match first_case(cases, v, 0) {
        Some(i) => match resolve_spec(cases[i].action@, vars_view(vars)) {
            Ok(res) => r matches Ok(SwitchOutcome::Matched { matched_case, result })
                && matched_case@ == cases[i].match_value@ && result@ == res,
            Err(name) => r matches Err(EngineError::VariableNotFound(n)) && n@ == name,
        },
        None => match default_case {
            Some(d) => match resolve_spec(d@, vars_view(vars)) {
                Ok(res) => r matches Ok(SwitchOutcome::Default { result }) && result@ == res,
                Err(name) => r matches Err(EngineError::VariableNotFound(n)) && n@ == name,
            },
            None => r matches Ok(SwitchOutcome::NoMatch { message }) && message@
                == "No matching case for value: "@ + v,
        },
    }
}

/// Whether the case value `mv` matches `value`.
fn case_matches_exec(mv: &str, value: &str) -> (b: bool)
    ensures
        b == case_matches(mv@, value@),
{
    if crate::text::starts_with(mv, "regex:") {
        proof {
            reveal_strlit("regex:");
        }
        let n = mv.unicode_len();
        let pattern = mv.substring_char(6, n);
        proof {
            assert(pattern@ =~= mv@.skip(6));
        }
        match regex_is_match(pattern, value) {
            Some(b) => b,
            None => false,
        }
    } else {
        str_eq(mv, value)
    }
}

/// Decides a switch node: resolves `switch_on`, then takes the first case
/// whose value matches (exactly, or by a `regex:` pattern) and resolves its
/// action; without a matching case, resolves the default action, or reports
/// that nothing matched.
pub fn switch_outcome(
    switch_on: &str,
    cases: &Vec<SwitchCase>,
    default_case: &Option<String>,
    vars: &Vec<(String, String)>,
) -> (r: Result<SwitchOutcome, EngineError>)
    ensures
        match resolve_spec(switch_on@, vars_view(vars@)) {
            Ok(v) => switch_decided(r, v, cases@, *default_case, vars@),
            Err(name) => r matches Err(EngineError::VariableNotFound(n)) && n@ == name,
        },
{
    let value = match resolve_template(switch_on, vars) {
        Ok(v) => v,
        Err(e) => return Err(e),
    };
    let mut i: usize = 0;
    while i < cases.len()
        invariant
            i <= cases@.len(),
            resolve_spec(switch_on@, vars_view(vars@)) == Ok::<Seq<char>, Seq<char>>(value@),
            first_case(cases@, value@, 0) == first_case(cases@, value@, i as int),
        decreases cases@.len() - i,
    {
        if case_matches_exec(cases[i].match_value.as_str(), value.as_str()) {
            let result = match resolve_template(cases[i].action.as_str(), vars) {
                Ok(x) => x,
                Err(e) => return Err(e),
            };
            return Ok(
                SwitchOutcome::Matched { matched_case: cases[i].match_value.clone(), result },
            );
        }
        i = i + 1;
    }
    match default_case {
        Some(d) => {
            match resolve_template(d.as_str(), vars) {
                Ok(result) => Ok(SwitchOutcome::Default { result }),
                Err(e) => Err(e),
            }
        },
        None => Ok(
            SwitchOutcome::NoMatch {
                message: String::from_str("No matching case for value: ").concat(value.as_str()),
            },
        ),
    }
}

} // verus!
