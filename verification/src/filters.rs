//! The filters of a ruleset, applied to one file: its name, and the times and
//! size that the host reports for it.

use crate::captures::CaptureMap;
use crate::pattern::{
    glob_compiles, glob_matches, glob_matches_text, portable, regex_captures, regex_compiles,
    regex_group_names, regex_groups, regex_is_match, regex_matches, regex_names, CompiledGlob,
    CompiledRegex,
};
use crate::ruleset::{Filters, FiltersView, MatchType};
use crate::text::{chars_of, joined, lowercase, string_of_range, to_lowercase};
use crate::time::{parse_instant, parsed_instant, Timestamp};
use vstd::prelude::*;

verus! {

/// What the host reports of a file. A time is `None` where the host cannot
/// give it.
#[derive(Debug, Clone, Copy, PartialEq, Eq, Structural)]
pub struct FileMeta {
    pub size: u64,
    pub created: Option<Timestamp>,
    pub modified: Option<Timestamp>,
}

/// The index of the last `.` of `name`; -1 if there is none.
pub open spec fn last_dot(name: Seq<char>) -> int
    decreases name.len(),
{
    if name.len() == 0 {
        -1
    } else if name.last() == '.' {
        name.len() - 1
    } else {
        last_dot(name.drop_last())
    }
}

/// The extension of a file name: what follows its last `.`. A name without a
/// `.`, a name whose only `.` is its first character, and the name `..` have
/// none.
pub open spec fn extension_of(name: Seq<char>) -> Option<Seq<char>> {
    let dot = last_dot(name);
    if dot <= 0 || name == seq!['.', '.'] {
        None
    } else {
        Some(name.subrange(dot + 1, name.len() as int))
    }
}

/// Whether the extension of `name`, in lower case and with its `.`, is one
/// of `extensions` in lower case.
pub open spec fn extension_listed(name: Seq<char>, extensions: Seq<Seq<char>>) -> bool {
    &&& extension_of(name) is Some
    &&& exists|i: int|
        0 <= i < extensions.len() && lowercase(#[trigger] extensions[i]) == seq!['.'] + lowercase(
            extension_of(name).unwrap(),
        )
}

proof fn lemma_last_dot(name: Seq<char>)
    ensures
        -1 <= last_dot(name) < name.len(),
        last_dot(name) >= 0 ==> name[last_dot(name)] == '.',
        forall|k: int| last_dot(name) < k < name.len() ==> name[k] != '.',
    decreases name.len(),
{
    if name.len() > 0 && name.last() != '.' {
        lemma_last_dot(name.drop_last());
        assert forall|k: int| last_dot(name) < k < name.len() implies name[k] != '.' by {
            if k < name.len() - 1 {
                assert(name.drop_last()[k] == name[k]);
            }
        }
    }
}

proof fn lemma_last_dot_is(name: Seq<char>, d: int)
    requires
        -1 <= d < name.len(),
        d >= 0 ==> name[d] == '.',
        forall|k: int| d < k < name.len() ==> name[k] != '.',
    ensures
        last_dot(name) == d,
{
    lemma_last_dot(name);
}

fn extension(name: &str) -> (r: Option<String>)
    ensures
        r.deep_view() == extension_of(name@),
{
    let v = chars_of(name);
    let mut i: usize = v.len();
    while i > 0 && v[i - 1] != '.'
        invariant
            i <= v.len(),
            forall|k: int| i <= k < v.len() ==> v@[k] != '.',
        decreases i,
    {
        i -= 1;
    }
    proof {
        lemma_last_dot_is(v@, i as int - 1);
    }
    if i <= 1 {
        return None;
    }
    if v.len() == 2 && v[0] == '.' {
        proof {
            assert(v@ =~= seq!['.', '.']);
        }
        return None;
    }
    proof {
        if v@ == seq!['.', '.'] {
            assert(v@.len() == 2 && v@[0] == '.');
        }
    }
    Some(string_of_range(&v, i, v.len()))
}

/// Whether the extension of the file name is one of `extensions`; case does
/// not matter. A name without an extension is not accepted.
pub fn match_extensions(name: &str, extensions: &Vec<String>) -> (r: bool)
    ensures
        r == extension_listed(name@, extensions.deep_view()),
{
    let ext = match extension(name) {
        Some(e) => e,
        None => {
            return false;
        },
    };
    let lowered = to_lowercase(ext.as_str());
    let wanted = joined(".", lowered.as_str());
    proof {
        reveal_strlit(".");
        assert("."@ =~= seq!['.']);
    }
    let mut i: usize = 0;
    while i < extensions.len()
        invariant
            i <= extensions.len(),
            wanted@ == seq!['.'] + lowercase(extension_of(name@).unwrap()),
            extension_of(name@) is Some,
            forall|k: int|
                0 <= k < i ==> lowercase(#[trigger] extensions.deep_view()[k]) != wanted@,
        decreases extensions.len() - i,
    {
        let candidate = to_lowercase(extensions[i].as_str());
        proof {
            assert(extensions.deep_view()[i as int] == extensions@[i as int]@);
        }
        if candidate == wanted {
            return true;
        }
        i += 1;
    }
    false
}

/// Whether a pattern, read as `match_type` says, accepts a file name. A
/// pattern that cannot be compiled accepts nothing.
pub open spec fn name_accepted(pattern: Seq<char>, match_type: MatchType, name: Seq<char>) -> bool {
    match match_type {
        MatchType::Glob => glob_compiles(pattern) && glob_matches(pattern, name),
        MatchType::Regex => regex_compiles(pattern) && regex_is_match(pattern, name),
    }
}

/// The texts on which a pattern of this kind gives the same answer on every
/// host: any for a regular expression, and for a shell pattern those without
/// a `\` in the pattern or in the name.
pub open spec fn host_independent(pattern: Seq<char>, match_type: MatchType, name: Seq<char>) -> bool {
    match_type == MatchType::Glob ==> portable(pattern) && portable(name)
}

/// Whether the pattern accepts the file name: a shell pattern has to match
/// the whole name, a regular expression any part of it.
pub fn match_filename(name: &str, pattern: &str, match_type: &MatchType) -> (r: bool)
    ensures
        host_independent(pattern@, *match_type, name@) ==> r == name_accepted(
            pattern@,
            *match_type,
            name@,
        ),
{
    match match_type {
        MatchType::Glob => match CompiledGlob::compile(pattern) {
            Some(g) => glob_matches_text(&g, name),
            None => false,
        },
        MatchType::Regex => match CompiledRegex::compile(pattern) {
            Some(re) => regex_matches(&re, name),
            None => false,
        },
    }
}

/// Whether a time lies in a range. A bound that is absent is open; one that
/// is not an RFC 3339 date and time accepts nothing.
pub open spec fn in_range(value: Timestamp, start: Option<Seq<char>>, end: Option<Seq<char>>) -> bool {
    &&& start is Some ==> parsed_instant(start.unwrap()) is Some && !value.before(
        parsed_instant(start.unwrap()).unwrap(),
    )
    &&& end is Some ==> parsed_instant(end.unwrap()) is Some && !parsed_instant(
        end.unwrap(),
    ).unwrap().before(value)
}

/// Whether `value` is at or after `start` and at or before `end`.
pub fn match_datetime_range(value: &Timestamp, start: &Option<String>, end: &Option<String>) -> (r:
    bool)
    ensures
        r == in_range(*value, start.deep_view(), end.deep_view()),
{
    if let Some(text) = start {
        match parse_instant(text.as_str()) {
            Some(bound) => {
                if value.is_before(&bound) {
                    return false;
                }
            },
            None => {
                return false;
            },
        }
    }
    if let Some(text) = end {
        match parse_instant(text.as_str()) {
            Some(bound) => {
                if bound.is_before(value) {
                    return false;
                }
            },
            None => {
                return false;
            },
        }
    }
    true
}

impl FiltersView {
    /// Whether the filters on the extension and on the two times, where they
    /// are present, accept the file.
    pub open spec fn accepts_besides_name(self, name: Seq<char>, meta: FileMeta) -> bool {
        &&& self.extensions is Some ==> extension_listed(name, self.extensions.unwrap())
        &&& self.created_at is Some ==> meta.created is Some && in_range(
            meta.created.unwrap(),
            self.created_at.unwrap().start,
            self.created_at.unwrap().end,
        )
        &&& self.modified_at is Some ==> meta.modified is Some && in_range(
            meta.modified.unwrap(),
            self.modified_at.unwrap().start,
            self.modified_at.unwrap().end,
        )
    }

    /// Whether every filter that is present accepts the file.
    pub open spec fn accepts(self, name: Seq<char>, meta: FileMeta) -> bool {
        &&& self.accepts_besides_name(name, meta)
        &&& self.filename is Some ==> name_accepted(
            self.filename.unwrap().pattern,
            self.filename.unwrap().match_type,
            name,
        )
    }

    /// Whether the filters give the same answer for `name` on every host.
    pub open spec fn host_independent(self, name: Seq<char>) -> bool {
        self.filename is Some ==> host_independent(
            self.filename.unwrap().pattern,
            self.filename.unwrap().match_type,
            name,
        )
    }
}

/// Whether every filter that is present accepts the file. A time that the
/// host cannot give fails a filter on that time. Where a shell pattern or
/// the name holds a `\`, the answer of the pattern is the host's.
pub fn matches_filters(name: &str, meta: &FileMeta, filters: &Filters) -> (r: bool)
    ensures
        filters@.host_independent(name@) ==> r == filters@.accepts(name@, *meta),
        r ==> filters@.accepts_besides_name(name@, *meta),
{
    if let Some(extensions) = &filters.extensions {
        if !match_extensions(name, extensions) {
            return false;
        }
    }
    if let Some(filter) = &filters.filename {
        if !match_filename(name, filter.pattern.as_str(), &filter.match_type) {
            return false;
        }
    }
    if let Some(range) = &filters.created_at {
        match meta.created {
            Some(created) => {
                if !match_datetime_range(&created, &range.start, &range.end) {
                    return false;
                }
            },
            None => {
                return false;
            },
        }
    }
    if let Some(range) = &filters.modified_at {
        match meta.modified {
            Some(modified) => {
                if !match_datetime_range(&modified, &range.start, &range.end) {
                    return false;
                }
            },
            None => {
                return false;
            },
        }
    }
    true
}

/// The captures of the first `n` groups: each group that has a name and took
/// part in the match binds its name to its text.
pub open spec fn paired(
    names: Seq<Option<Seq<char>>>,
    groups: Seq<Option<Seq<char>>>,
    n: int,
) -> Map<Seq<char>, Seq<char>>
    decreases n,
{
    if n <= 0 {
        Map::empty()
    } else {
        let earlier = paired(names, groups, n - 1);
        if n - 1 < names.len() && n - 1 < groups.len() && names[n - 1] is Some && groups[n
            - 1] is Some {
            earlier.insert(names[n - 1].unwrap(), groups[n - 1].unwrap())
        } else {
            earlier
        }
    }
}

/// The named captures of a match, from the names of the groups and what the
/// groups hold; empty when there was no match.
pub open spec fn named_captures(
    names: Seq<Option<Seq<char>>>,
    groups: Option<Seq<Option<Seq<char>>>>,
) -> Map<Seq<char>, Seq<char>> {
    match groups {
        Some(g) => paired(names, g, names.len() as int),
        None => Map::empty(),
    }
}

/// Binds the name of each group to what the group holds. Groups without a
/// name, and groups that took no part in the match, bind nothing.
pub fn pair_named_groups(names: &Vec<Option<String>>, groups: &Option<Vec<Option<String>>>) -> (m:
    CaptureMap)
    ensures
        m.wf(),
        m@ == named_captures(names.deep_view(), groups.deep_view()),
{
    let mut m = CaptureMap::new();
    if let Some(g) = groups {
        let mut i: usize = 0;
        while i < names.len()
            invariant
                i <= names.len(),
                m.wf(),
                m@ == paired(names.deep_view(), g.deep_view(), i as int),
            decreases names.len() - i,
        {
            proof {
                assert(names.deep_view()[i as int] == names@[i as int].deep_view());
                if i < g.len() {
                    assert(g.deep_view()[i as int] == g@[i as int].deep_view());
                }
            }
            if i < g.len() {
                if let Some(name) = &names[i] {
                    if let Some(text) = &g[i] {
                        m.insert(name.clone(), text.clone());
                    }
                }
            }
            i += 1;
        }
    }
    m
}

/// The named captures of the first match of `re` in `filename`; empty when
/// `re` does not match.
pub fn extract_named_captures(filename: &str, re: &CompiledRegex) -> (m: CaptureMap)
    ensures
        m.wf(),
        m@ == named_captures(regex_group_names(re@), regex_groups(re@, filename@)),
{
    let groups = regex_captures(re, filename);
    let names = regex_names(re);
    pair_named_groups(&names, &groups)
}

} // verus!
