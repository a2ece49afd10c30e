//! Text helpers over strings seen as sequences of characters.

use vstd::prelude::*;

verus! {

/// `p` is a prefix of `s`.
pub open spec fn has_prefix(s: Seq<char>, p: Seq<char>) -> bool {
    p.len() <= s.len() && s.subrange(0, p.len() as int) == p
}

/// `p` occurs in `s` at position `i`.
pub open spec fn occurs_at(s: Seq<char>, p: Seq<char>, i: int) -> bool {
    0 <= i && i + p.len() <= s.len() && s.subrange(i, i + p.len()) == p
}

/// `p` occurs somewhere in `s`.
pub open spec fn contains_seq(s: Seq<char>, p: Seq<char>) -> bool {
    exists|i: int| occurs_at(s, p, i)
}

/// Whether `p` is a prefix of `s`.
pub fn starts_with(s: &str, p: &str) -> (b: bool)
    ensures
        b == has_prefix(s@, p@),
{
    let n = s.unicode_len();
    let m = p.unicode_len();
    if m > n {
        return false;
    }
    let mut i: usize = 0;
    while i < m
        invariant
            m <= n,
            n == s@.len(),
            m == p@.len(),
            i <= m,
            forall|j: int| 0 <= j < i ==> s@[j] == p@[j],
        decreases m - i,
    {
        if s.get_char(i) != p.get_char(i) {
            assert(s@.subrange(0, m as int)[i as int] != p@[i as int]);
            return false;
        }
        i = i + 1;
    }
    assert(s@.subrange(0, m as int) =~= p@);
    true
}

pub(crate) fn occurs_at_exec(s: &str, p: &str, at: usize, n: usize, m: usize) -> (b: bool)
    requires
        n == s@.len(),
        m == p@.len(),
        at + m <= n,
    ensures
        b == occurs_at(s@, p@, at as int),
{
    let mut j: usize = 0;
    while j < m
        invariant
            n == s@.len(),
            m == p@.len(),
            at + m <= n,
            j <= m,
            forall|k: int| 0 <= k < j ==> s@[at + k] == p@[k],
        decreases m - j,
    {
        if s.get_char(at + j) != p.get_char(j) {
            assert(s@.subrange(at as int, at + m)[j as int] != p@[j as int]);
            return false;
        }
        j = j + 1;
    }
    assert(s@.subrange(at as int, at + m) =~= p@);
    true
}

/// Whether `p` occurs in `s`.
pub fn contains_str(s: &str, p: &str) -> (b: bool)
    ensures
        b == contains_seq(s@, p@),
{
    let n = s.unicode_len();
    let m = p.unicode_len();
    if m > n {
        assert forall|i: int| !occurs_at(s@, p@, i) by {}
        return false;
    }
    let last = n - m;
    let mut i: usize = 0;
    loop
        invariant
            m <= n,
            n == s@.len(),
            m == p@.len(),
            last == n - m,
            i <= last,
            forall|k: int| 0 <= k < i ==> !occurs_at(s@, p@, k),
        ensures
            forall|k: int| 0 <= k <= last ==> !occurs_at(s@, p@, k),
        decreases last - i,
    {
        if occurs_at_exec(s, p, i, n, m) {
            return true;
        }
        if i == last {
            break;
        }
        i = i + 1;
    }
    assert forall|k: int| !occurs_at(s@, p@, k) by {
        if 0 <= k && k + m <= n {
            assert(k <= last);
        }
    }
    false
}

/// The code of `c`, with an ASCII capital letter read as its small letter.
pub open spec fn ascii_lower(c: char) -> u32 {
    if 'A' <= c && c <= 'Z' {
        ((c as u32) + 32) as u32
    } else {
        c as u32
    }
}

/// `a` and `b` are equal once ASCII letters are compared without case.
pub open spec fn eq_ignore_ascii_case(a: Seq<char>, b: Seq<char>) -> bool {
    a.len() == b.len() && forall|i: int| 0 <= i < a.len() ==> ascii_lower(#[trigger] a[i]) == ascii_lower(b[i])
}

fn ascii_lower_exec(c: char) -> (r: u32)
    ensures
        r == ascii_lower(c),
{
    if 'A' <= c && c <= 'Z' {
        (c as u32) + 32
    } else {
        c as u32
    }
}

/// Whether `a` and `b` are equal once ASCII letters are compared without case.
pub fn str_eq_ignore_ascii_case(a: &str, b: &str) -> (r: bool)
    ensures
        r == eq_ignore_ascii_case(a@, b@),
{
    let n = a.unicode_len();
    if n != b.unicode_len() {
        return false;
    }
    let mut i: usize = 0;
    while i < n
        invariant
            n == a@.len(),
            n == b@.len(),
            i <= n,
            forall|j: int| 0 <= j < i ==> ascii_lower(#[trigger] a@[j]) == ascii_lower(b@[j]),
        decreases n - i,
    {
        if ascii_lower_exec(a.get_char(i)) != ascii_lower_exec(b.get_char(i)) {
            return false;
        }
        i = i + 1;
    }
    true
}

/// Whether two strings are equal.
pub fn str_eq(a: &str, b: &str) -> (r: bool)
    ensures
        r == (a@ == b@),
{
    let x = a.to_owned();
    let y = b.to_owned();
    x == y
}

/// The decimal digits of `n`, most significant first.
pub open spec fn decimal(n: nat) -> Seq<char>
    decreases n,
{
    if n < 10 {
        seq![digit_char(n)]
    } else {
        decimal(n / 10).push(digit_char(n % 10))
    }
}

/// The character of a decimal digit.
pub open spec fn digit_char(d: nat) -> char {
    if d == 0 {
        '0'
    } else if d == 1 {
        '1'
    } else if d == 2 {
        '2'
    } else if d == 3 {
        '3'
    } else if d == 4 {
        '4'
    } else if d == 5 {
        '5'
    } else if d == 6 {
        '6'
    } else if d == 7 {
        '7'
    } else if d == 8 {
        '8'
    } else {
        '9'
    }
}

fn digit_str(d: usize) -> (s: &'static str)
    requires
        d < 10,
    ensures
        s@ == seq![digit_char(d as nat)],
{
    proof {
        reveal_strlit("0");
        reveal_strlit("1");
        reveal_strlit("2");
        reveal_strlit("3");
        reveal_strlit("4");
        reveal_strlit("5");
        reveal_strlit("6");
        reveal_strlit("7");
        reveal_strlit("8");
        reveal_strlit("9");
    }
    if d == 0 {
        "0"
    } else if d == 1 {
        "1"
    } else if d == 2 {
        "2"
    } else if d == 3 {
        "3"
    } else if d == 4 {
        "4"
    } else if d == 5 {
        "5"
    } else if d == 6 {
        "6"
    } else if d == 7 {
        "7"
    } else if d == 8 {
        "8"
    } else {
        "9"
    }
}

/// `n` written in decimal.
pub fn to_decimal(n: usize) -> (s: String)
    ensures
        s@ == decimal(n as nat),
    decreases n,
{
    if n < 10 {
        String::from_str(digit_str(n))
    } else {
        let head = to_decimal(n / 10);
        head.concat(digit_str(n % 10))
    }
}

/// `n` written in decimal.
pub fn to_decimal_u64(n: u64) -> (s: String)
    ensures
        s@ == decimal(n as nat),
    decreases n,
{
    if n < 10 {
        String::from_str(digit_str(n as usize))
    } else {
        let head = to_decimal_u64(n / 10);
        head.concat(digit_str((n % 10) as usize))
    }
}

/// A character with the Unicode `White_Space` property, which
/// `char::is_whitespace` tests and `str::trim` strips.
pub open spec fn is_white_space(c: char) -> bool {
    let u = c as u32;
    ||| 0x9 <= u <= 0xd
    ||| u == 0x20
    ||| u == 0x85
    ||| u == 0xa0
    ||| u == 0x1680
    ||| 0x2000 <= u <= 0x200a
    ||| u == 0x2028
    ||| u == 0x2029
    ||| u == 0x202f
    ||| u == 0x205f
    ||| u == 0x3000
}

/// `s` without leading white space (what `str::trim_start` returns).
pub open spec fn trim_start_spec(s: Seq<char>) -> Seq<char>
    decreases s.len(),
{
    if s.len() > 0 && is_white_space(s[0]) {
        trim_start_spec(s.drop_first())
    } else {
        s
    }
}

/// `s` without trailing white space.
pub open spec fn trim_end_spec(s: Seq<char>) -> Seq<char>
    decreases s.len(),
{
    if s.len() > 0 && is_white_space(s.last()) {
        trim_end_spec(s.drop_last())
    } else {
        s
    }
}

/// The text of `s` without leading and trailing white space (what
/// `str::trim` returns).
pub open spec fn trim_spec(s: Seq<char>) -> Seq<char> {
    trim_end_spec(trim_start_spec(s))
}

/// The text of `s` in upper case (what `str::to_uppercase` returns).
pub uninterp spec fn uppercase_spec(s: Seq<char>) -> Seq<char>;

/// The text of `s` in lower case (what `str::to_lowercase` returns).
pub uninterp spec fn lowercase_spec(s: Seq<char>) -> Seq<char>;

/// Calls `str::trim`, which strips leading and trailing white space (the
/// characters with the Unicode `White_Space` property).
#[verifier::external_body]
pub(crate) fn trim(s: &str) -> (r: &str)
    ensures
        r@ == trim_spec(s@),
{
    s.trim()
}

/// Calls `str::to_uppercase`, which maps each character to its upper-case
/// form by the Unicode tables; its result is named.
#[verifier::external_body]
pub(crate) fn to_uppercase(s: &str) -> (r: String)
    ensures
        r@ == uppercase_spec(s@),
{
    s.to_uppercase()
}

/// Calls `str::to_lowercase`, which maps each character to its lower-case
/// form by the Unicode tables; its result is named.
#[verifier::external_body]
pub(crate) fn to_lowercase(s: &str) -> (r: String)
    ensures
        r@ == lowercase_spec(s@),
{
    s.to_lowercase()
}

/// The fields of `s` between occurrences of `sep` (one empty field for an
/// empty text), as `str::split` yields them.
pub open spec fn fields_on(s: Seq<char>, sep: char) -> Seq<Seq<char>>
    decreases s.len(),
{
    if s.len() == 0 {
        seq![Seq::<char>::empty()]
    } else {
        let rest = fields_on(s.drop_last(), sep);
        if s.last() == sep {
            rest.push(Seq::<char>::empty())
        } else {
            rest.update(rest.len() - 1, rest.last().push(s.last()))
        }
    }
}

/// The fields of `s` between commas.
pub open spec fn comma_fields(s: Seq<char>) -> Seq<Seq<char>> {
    fields_on(s, ',')
}

pub proof fn lemma_fields_nonempty(s: Seq<char>, sep: char)
    ensures
        fields_on(s, sep).len() >= 1,
    decreases s.len(),
{
    if s.len() > 0 {
        lemma_fields_nonempty(s.drop_last(), sep);
    }
}

/// Splits `s` at its commas (what `str::split(',')` yields).
pub fn split_commas(s: &str) -> (r: Vec<String>)
    ensures
        r@.len() == comma_fields(s@).len(),
        forall|i: int| 0 <= i < r@.len() ==> #[trigger] r@[i]@ == comma_fields(s@)[i],
{
    split_on(s, ',')
}

/// Splits `s` at each `sep` (what `str::split(sep)` yields).
pub fn split_on(s: &str, sep: char) -> (r: Vec<String>)
    ensures
        r@.len() == fields_on(s@, sep).len(),
        forall|i: int| 0 <= i < r@.len() ==> #[trigger] r@[i]@ == fields_on(s@, sep)[i],
{
    let n = s.unicode_len();
    let mut out: Vec<String> = Vec::new();
    let mut start: usize = 0;
    let mut i: usize = 0;
    proof {
        assert(s@.take(0) =~= Seq::<char>::empty());
        assert(s@.subrange(0, 0) =~= Seq::<char>::empty());
    }
    while i < n
        invariant
            n == s@.len(),
            start <= i <= n,
            out@.len() + 1 == fields_on(s@.take(i as int), sep).len(),
            forall|k: int| 0 <= k < out@.len() ==> #[trigger] out@[k]@ == fields_on(s@.take(i as int), sep)[k],
            s@.subrange(start as int, i as int) == fields_on(s@.take(i as int), sep).last(),
        decreases n - i,
    {
        let c = s.get_char(i);
        let ghost prev = fields_on(s@.take(i as int), sep);
        proof {
            assert(s@.take(i + 1).drop_last() =~= s@.take(i as int));
            assert(s@.take(i + 1).last() == c);
            lemma_fields_nonempty(s@.take(i as int), sep);
        }
        if c == sep {
            let field = String::from_str(s.substring_char(start, i));
            out.push(field);
            start = i + 1;
            assert(fields_on(s@.take(i + 1), sep) == prev.push(Seq::<char>::empty()));
            assert(s@.subrange(start as int, i + 1) =~= Seq::<char>::empty());
        } else {
            assert(fields_on(s@.take(i + 1), sep) == prev.update(prev.len() - 1, prev.last().push(c)));
            assert(s@.subrange(start as int, i + 1) =~= s@.subrange(start as int, i as int).push(c));
        }
        i = i + 1;
    }
    let last = String::from_str(s.substring_char(start, n));
    out.push(last);
    proof {
        assert(s@.take(n as int) =~= s@);
    }
    out
}

/// The lines of `s` as `str::lines` yields them: split at `\n`, a `\r`
/// before the `\n` dropped, no line after a final `\n`.
pub open spec fn text_lines(s: Seq<char>) -> Seq<Seq<char>> {
    let f = newline_fields(s);
    let k = if f.last().len() == 0 {
        f.len() - 1
    } else {
        f.len() as int
    };
    Seq::new(
        k as nat,
        |i: int|
            if i < f.len() - 1 && f[i].len() > 0 && f[i].last() == '\r' {
                f[i].drop_last()
            } else {
                f[i]
            },
    )
}

/// The fields of `s` between newlines.
pub open spec fn newline_fields(s: Seq<char>) -> Seq<Seq<char>> {
    fields_on(s, '\n')
}

/// The texts of `r`.
pub open spec fn string_views(r: Seq<String>) -> Seq<Seq<char>> {
    Seq::new(r.len(), |i: int| r[i]@)
}

/// The lines of `s`, as `str::lines` yields them.
pub fn lines(s: &str) -> (r: Vec<String>)
    ensures
        string_views(r@) == text_lines(s@),
{
    let fields = split_on(s, '\n');
    let ghost f = newline_fields(s@);
    let ghost ls = text_lines(s@);
    proof {
        lemma_fields_nonempty(s@, '\n');
    }
    let nf = fields.len();
    let k: usize = if fields[nf - 1].unicode_len() == 0 {
        nf - 1
    } else {
        nf
    };
    assert(k == ls.len());
    let mut out: Vec<String> = Vec::new();
    let mut i: usize = 0;
    while i < k
        invariant
            f == newline_fields(s@),
            ls == text_lines(s@),
            fields@.len() == f.len(),
            nf == f.len(),
            forall|j: int| 0 <= j < fields@.len() ==> #[trigger] fields@[j]@ == f[j],
            k == ls.len(),
            k <= nf,
            i <= k,
            out@.len() == i,
            forall|j: int| 0 <= j < i ==> #[trigger] out@[j]@ == ls[j],
        decreases k - i,
    {
        let field = fields[i].as_str();
        let len = field.unicode_len();
        let line: &str = if i < nf - 1 && len > 0 && field.get_char(len - 1) == '\r' {
            field.substring_char(0, len - 1)
        } else {
            field
        };
        assert(line@ == ls[i as int]);
        out.push(String::from_str(line));
        i = i + 1;
    }
    assert(string_views(out@) =~= ls);
    out
}

/// Calls `str::trim_start`, which strips leading white space (the
/// characters with the Unicode `White_Space` property).
#[verifier::external_body]
pub(crate) fn trim_start(s: &str) -> (r: &str)
    ensures
        r@ == trim_start_spec(s@),
{
    s.trim_start()
}

/// The texts of `ls` joined with `sep` between them.
pub open spec fn join_spec(ls: Seq<Seq<char>>, sep: Seq<char>) -> Seq<char>
    decreases ls.len(),
{
    if ls.len() == 0 {
        Seq::empty()
    } else if ls.len() == 1 {
        ls[0]
    } else {
        join_spec(ls.drop_last(), sep) + sep + ls.last()
    }
}

/// The texts of `ls` joined with `sep` between them (what `join` on a
/// slice of strings gives).
pub fn join(ls: &Vec<String>, sep: &str) -> (r: String)
    ensures
        r@ == join_spec(string_views(ls@), sep@),
{
    let ghost v = string_views(ls@);
    let mut out = String::new();
    let mut i: usize = 0;
    while i < ls.len()
        invariant
            v == string_views(ls@),
            i <= ls@.len(),
            out@ == join_spec(v.take(i as int), sep@),
        decreases ls@.len() - i,
    {
        proof {
            assert(v.take(i + 1).drop_last() =~= v.take(i as int));
            assert(v.take(i + 1).last() == ls@[i as int]@);
        }
        if i > 0 {
            out.append(sep);
        } else {
            assert(v.take(1).len() == 1);
        }
        out.append(ls[i].as_str());
        i = i + 1;
    }
    assert(v.take(ls@.len() as int) =~= v);
    out
}

} // verus!
