//! Destination templates: a path in which `{name}` stands for the text that the
//! group `name` of the file-name pattern captured.

use crate::captures::CaptureMap;
use crate::text::{chars_of, string_of_range};
use vstd::prelude::*;
use vstd::string::StringExecFns;

verus! {

/// A string holds a template variable when a `{` is followed, anywhere later,
/// by a `}`.
pub open spec fn holds_variable(s: Seq<char>) -> bool {
    exists|i: int, j: int| 0 <= i < j < s.len() && s[i] == '{' && s[j] == '}'
}

/// Whether `s` holds a template variable.
pub fn has_template_vars(s: &str) -> (r: bool)
    ensures
        r == holds_variable(s@),
{
    let mut opened: bool = false;
    for c in iter: s.chars()
        invariant
            iter.seq() == s@,
            opened == exists|i: int| 0 <= i < iter.index() && s@[i] == '{',
            forall|i: int, j: int|
                0 <= i < j < iter.index() ==> !(s@[i] == '{' && s@[j] == '}'),
    {
        if opened && c == '}' {
            proof {
                let i = choose|i: int| 0 <= i < iter.index() && s@[i] == '{';
                assert(s@[i] == '{' && s@[iter.index() as int] == '}');
            }
            return true;
        }
        if c == '{' {
            opened = true;
        }
    }
    false
}

/// The characters that cannot stand in one component of a path on every host.
pub open spec fn is_forbidden(c: char) -> bool {
    c == '/' || c == '\\' || c == ':' || c == '*' || c == '?' || c == '"' || c == '<' || c == '>'
        || c == '|'
}

/// `s` with each forbidden character replaced by `_`.
pub open spec fn sanitized(s: Seq<char>) -> Seq<char> {
    Seq::new(
        s.len(),
        |i: int|
            if is_forbidden(s[i]) {
                '_'
            } else {
                s[i]
            },
    )
}

/// Replaces each of `/ \ : * ? " < > |` by `_` and keeps every other character,
/// so that the result can stand as one component of a path.
pub fn sanitize_path_component(s: &str) -> (out: String)
    ensures
        out@ == sanitized(s@),
        out@.len() == s@.len(),
        forall|i: int| 0 <= i < out@.len() ==> !is_forbidden(#[trigger] out@[i]),
{
    let mut out = String::new();
    for c in iter: s.chars()
        invariant
            iter.seq() == s@,
            out@ == sanitized(s@).take(iter.index() as int),
    {
        let kept = if c == '/' || c == '\\' || c == ':' || c == '*' || c == '?' || c == '"' || c
            == '<' || c == '>' || c == '|' {
            '_'
        } else {
            c
        };
        out.push(kept);
        proof {
            assert(sanitized(s@).take(iter.index() + 1) =~= sanitized(s@).take(
                iter.index() as int,
            ).push(kept));
        }
    }
    proof {
        assert(sanitized(s@).take(s@.len() as int) =~= sanitized(s@));
    }
    out
}

/// Why a template could not be resolved: the variable that failed first.
pub enum TemplateFailure {
    /// No group of that name captured anything.
    Missing(Seq<char>),
    /// The group of that name captured the empty string.
    Empty(Seq<char>),
}

/// The text that reports a failure.
pub open spec fn failure_message(f: TemplateFailure) -> Seq<char> {
    match f {
        TemplateFailure::Missing(name) => "Template variable '"@ + name
            + "' not found in regex capture groups"@,
        TemplateFailure::Empty(name) => "Template variable '"@ + name
            + "' resolved to empty string"@,
    }
}

/// The index of the first `}` of `t` at or after `from`; `t.len()` if there is
/// none.
pub open spec fn next_close(t: Seq<char>, from: int) -> int
    decreases t.len() - from,
{
    if from >= t.len() {
        t.len() as int
    } else if t[from] == '}' {
        from
    } else {
        next_close(t, from + 1)
    }
}

/// Whether a variable starts at `i`: a `{`, one or more characters other than
/// `}`, and a `}`.
pub open spec fn variable_at(t: Seq<char>, i: int) -> bool {
    &&& 0 <= i < t.len()
    &&& t[i] == '{'
    &&& i + 1 < next_close(t, i + 1) < t.len()
}

/// What a template resolves to.
pub struct Resolution {
    /// The text, in which a variable that failed left nothing.
    pub text: Seq<char>,
    /// The first variable, from the left, that failed.
    pub failure: Option<TemplateFailure>,
}

/// The resolution of `t[i..]`: from left to right, each variable gives way to
/// the sanitized text bound to its name, and every other character stays.
pub open spec fn resolve_from(t: Seq<char>, captures: Map<Seq<char>, Seq<char>>, i: int) -> Resolution
    decreases t.len() - i,
{
    if i < 0 || i >= t.len() {
        Resolution { text: Seq::empty(), failure: None }
    } else if variable_at(t, i) {
        let close = next_close(t, i + 1);
        let name = t.subrange(i + 1, close);
        let rest = resolve_from(t, captures, close + 1);
        if !captures.contains_key(name) {
            Resolution { text: rest.text, failure: Some(TemplateFailure::Missing(name)) }
        } else if captures[name].len() == 0 {
            Resolution { text: rest.text, failure: Some(TemplateFailure::Empty(name)) }
        } else {
            Resolution { text: sanitized(captures[name]) + rest.text, failure: rest.failure }
        }
    } else {
        let rest = resolve_from(t, captures, i + 1);
        Resolution { text: seq![t[i]] + rest.text, failure: rest.failure }
    }
}

/// What `resolve_destination_template` returns.
pub open spec fn resolved(t: Seq<char>, captures: Map<Seq<char>, Seq<char>>) -> Result<
    Seq<char>,
    Seq<char>,
> {
    let r = resolve_from(t, captures, 0);
    match r.failure {
        Some(f) => Err(failure_message(f)),
        None => Ok(r.text),
    }
}

proof fn lemma_next_close(t: Seq<char>, from: int)
    requires
        0 <= from <= t.len(),
    ensures
        from <= next_close(t, from) <= t.len(),
        next_close(t, from) < t.len() ==> t[next_close(t, from)] == '}',
        forall|k: int| from <= k < next_close(t, from) ==> t[k] != '}',
    decreases t.len() - from,
{
    if from < t.len() && t[from] != '}' {
        lemma_next_close(t, from + 1);
    }
}

fn find_close(t: &Vec<char>, from: usize) -> (j: usize)
    requires
        from <= t.len(),
    ensures
        j == next_close(t@, from as int),
        from <= j <= t.len(),
{
    let mut j: usize = from;
    while j < t.len() && t[j] != '}'
        invariant
            from <= j <= t.len(),
            next_close(t@, from as int) == next_close(t@, j as int),
        decreases t.len() - j,
    {
        j += 1;
    }
    proof {
        lemma_next_close(t@, from as int);
    }
    j
}

fn missing_message(name: &str) -> (out: String)
    ensures
        out@ == failure_message(TemplateFailure::Missing(name@)),
{
    let mut out = String::from_str("Template variable '");
    out.append(name);
    out.append("' not found in regex capture groups");
    out
}

fn empty_message(name: &str) -> (out: String)
    ensures
        out@ == failure_message(TemplateFailure::Empty(name@)),
{
    let mut out = String::from_str("Template variable '");
    out.append(name);
    out.append("' resolved to empty string");
    out
}

/// Resolves a destination template against the captures of one file name.
///
/// Every `{name}` gives way to the sanitized text bound to `name`. The result
/// is an error when a name is not bound, or is bound to the empty string; the
/// variable that fails first, from the left, gives the message.
pub fn resolve_destination_template(template: &str, captures: &CaptureMap) -> (r: Result<
    String,
    String,
>)
    requires
        captures.wf(),
    ensures
        match r {
            Ok(text) => resolved(template@, captures@) == Ok::<Seq<char>, Seq<char>>(text@),
            Err(reason) => resolved(template@, captures@) == Err::<Seq<char>, Seq<char>>(reason@),
        },
{
    let t = chars_of(template);
    let mut out = String::new();
    let mut failure: Option<String> = None;
    let ghost mut failed: Option<TemplateFailure> = None;
    let mut i: usize = 0;
    while i < t.len()
        invariant
            captures.wf(),
            t@ == template@,
            i <= t.len(),
            failure is Some == failed is Some,
            failure is Some ==> failure.unwrap()@ == failure_message(failed.unwrap()),
            resolve_from(t@, captures@, 0).text == out@ + resolve_from(t@, captures@, i as int).text,
            resolve_from(t@, captures@, 0).failure == (if failed is Some {
                failed
            } else {
                resolve_from(t@, captures@, i as int).failure
            }),
        decreases t.len() - i,
    {
        let ghost here = resolve_from(t@, captures@, i as int);
        let ghost before = out@;
        let mut consumed = false;
        if t[i] == '{' {
            let close = find_close(&t, i + 1);
            if i + 1 < close && close < t.len() {
                let name = string_of_range(&t, i + 1, close);
                let ghost rest = resolve_from(t@, captures@, close + 1);
                match captures.get(name.as_str()) {
                    Some(value) => {
                        if value.as_str().unicode_len() == 0 {
                            if failure.is_none() {
                                failure = Some(empty_message(name.as_str()));
                                proof {
                                    failed = Some(TemplateFailure::Empty(name@));
                                }
                            }
                        } else {
                            let clean = sanitize_path_component(value.as_str());
                            out.append(clean.as_str());
                            proof {
                                assert((before + sanitized(captures@[name@])) + rest.text
                                    =~= before + (sanitized(captures@[name@]) + rest.text));
                            }
                        }
                    },
                    None => {
                        if failure.is_none() {
                            failure = Some(missing_message(name.as_str()));
                            proof {
                                failed = Some(TemplateFailure::Missing(name@));
                            }
                        }
                    },
                }
                i = close + 1;
                consumed = true;
            }
        }
        if !consumed {
            out.push(t[i]);
            proof {
                let rest = resolve_from(t@, captures@, i + 1);
                assert(before.push(t@[i as int]) + rest.text =~= before + (seq![t@[i as int]]
                    + rest.text));
            }
            i += 1;
        }
    }
    proof {
        assert(out@ + Seq::<char>::empty() =~= out@);
    }
    match failure {
        Some(reason) => Err(reason),
        None => Ok(out),
    }
}

/// Sanitizing keeps the length and leaves no forbidden character.
pub proof fn lemma_sanitized_is_safe(s: Seq<char>)
    ensures
        sanitized(s).len() == s.len(),
        forall|i: int| 0 <= i < s.len() ==> !is_forbidden(#[trigger] sanitized(s)[i]),
        forall|i: int| 0 <= i < s.len() && !is_forbidden(s[i]) ==> #[trigger] sanitized(s)[i] == s[i],
{
}

/// The number of forbidden characters in `s`.
pub open spec fn forbidden_count(s: Seq<char>) -> nat
    decreases s.len(),
{
    if s.len() == 0 {
        0
    } else {
        forbidden_count(s.drop_last()) + if is_forbidden(s.last()) {
            1nat
        } else {
            0nat
        }
    }
}

proof fn lemma_forbidden_count_concat(a: Seq<char>, b: Seq<char>)
    ensures
        forbidden_count(a + b) == forbidden_count(a) + forbidden_count(b),
    decreases b.len(),
{
    if b.len() == 0 {
        assert(a + b =~= a);
    } else {
        assert((a + b).drop_last() =~= a + b.drop_last());
        lemma_forbidden_count_concat(a, b.drop_last());
    }
}

proof fn lemma_forbidden_count_sanitized(s: Seq<char>)
    ensures
        forbidden_count(sanitized(s)) == 0,
    decreases s.len(),
{
    if s.len() > 0 {
        assert(sanitized(s).drop_last() =~= sanitized(s.drop_last()));
        lemma_forbidden_count_sanitized(s.drop_last());
    }
}

proof fn lemma_forbidden_count_suffix(t: Seq<char>, i: int, j: int)
    requires
        0 <= i <= j <= t.len(),
    ensures
        forbidden_count(t.subrange(j, t.len() as int)) <= forbidden_count(
            t.subrange(i, t.len() as int),
        ),
{
    assert(t.subrange(i, t.len() as int) =~= t.subrange(i, j) + t.subrange(j, t.len() as int));
    lemma_forbidden_count_concat(t.subrange(i, j), t.subrange(j, t.len() as int));
}

proof fn lemma_resolution_adds_no_forbidden(
    t: Seq<char>,
    captures: Map<Seq<char>, Seq<char>>,
    i: int,
)
    requires
        0 <= i <= t.len(),
    ensures
        forbidden_count(resolve_from(t, captures, i).text) <= forbidden_count(
            t.subrange(i, t.len() as int),
        ),
    decreases t.len() - i,
{
    if i < t.len() {
        if variable_at(t, i) {
            let close = next_close(t, i + 1);
            let name = t.subrange(i + 1, close);
            let rest = resolve_from(t, captures, close + 1);
            lemma_resolution_adds_no_forbidden(t, captures, close + 1);
            lemma_forbidden_count_suffix(t, i, close + 1);
            if captures.contains_key(name) && captures[name].len() > 0 {
                lemma_forbidden_count_sanitized(captures[name]);
                lemma_forbidden_count_concat(sanitized(captures[name]), rest.text);
            }
        } else {
            let rest = resolve_from(t, captures, i + 1);
            lemma_resolution_adds_no_forbidden(t, captures, i + 1);
            lemma_forbidden_count_concat(seq![t[i]], rest.text);
            assert(t.subrange(i, t.len() as int) =~= seq![t[i]] + t.subrange(
                i + 1,
                t.len() as int,
            ));
            lemma_forbidden_count_concat(seq![t[i]], t.subrange(i + 1, t.len() as int));
        }
    } else {
        assert(t.subrange(i, t.len() as int) =~= Seq::<char>::empty());
    }
}

/// Resolving never brings a forbidden character into a path: whatever the
/// captures hold, the resolved text has no more of them than the template
/// itself.
pub proof fn lemma_captures_add_no_forbidden(t: Seq<char>, captures: Map<Seq<char>, Seq<char>>)
    ensures
        forbidden_count(resolve_from(t, captures, 0).text) <= forbidden_count(t),
{
    lemma_resolution_adds_no_forbidden(t, captures, 0);
    assert(t.subrange(0, t.len() as int) =~= t);
}

/// A template without a variable resolves to itself, whatever the captures.
pub proof fn lemma_plain_template_resolves_to_itself(
    t: Seq<char>,
    captures: Map<Seq<char>, Seq<char>>,
)
    requires
        !holds_variable(t),
    ensures
        resolved(t, captures) == Ok::<Seq<char>, Seq<char>>(t),
{
    lemma_plain_suffix(t, captures, 0);
    assert(t.subrange(0, t.len() as int) =~= t);
}

proof fn lemma_plain_suffix(t: Seq<char>, captures: Map<Seq<char>, Seq<char>>, i: int)
    requires
        !holds_variable(t),
        0 <= i <= t.len(),
    ensures
        resolve_from(t, captures, i).text == t.subrange(i, t.len() as int),
        resolve_from(t, captures, i).failure is None,
    decreases t.len() - i,
{
    if i < t.len() {
        if t[i] == '{' {
            lemma_next_close(t, i + 1);
            let close = next_close(t, i + 1);
            if close < t.len() {
                assert(t[i] == '{' && t[close] == '}');
            }
        }
        lemma_plain_suffix(t, captures, i + 1);
        assert(t.subrange(i, t.len() as int) =~= seq![t[i]] + t.subrange(i + 1, t.len() as int));
    } else {
        assert(t.subrange(i, t.len() as int) =~= Seq::<char>::empty());
    }
}

} // verus!
