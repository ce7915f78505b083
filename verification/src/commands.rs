//! What the commands of the host decide: how a ruleset enters the list of a
//! user, leaves it, and moves within it, which rulesets run, and how the
//! files of a directory are listed. Reading and writing the list, and running
//! an execution, are the host's.

use crate::ruleset::{Ruleset, RulesetError, RulesetFile, RulesetView};
use crate::text::{joined, owned, same_text};
use crate::transfer::IoFailure;
use vstd::prelude::*;

verus! {

/// `uuid::Uuid::new_v4`, written as `Display` writes it: 32 hexadecimal
/// digits in five groups, with a hyphen between two groups. Which digits is
/// left to chance. The call panics where the host hands out no random bytes.
#[verifier::external_body]
fn random_id() -> (id: String)
    ensures
        id@.len() == 36,
{
    uuid::Uuid::new_v4().to_string()
}

/// The index of the first ruleset of `list`, at or after `from`, that has the
/// id `id`; `list.len()` if there is none.
pub open spec fn first_with_id(list: Seq<RulesetView>, id: Seq<char>, from: int) -> int
    decreases list.len() - from,
{
    if from >= list.len() {
        list.len() as int
    } else if from >= 0 && list[from].id == id {
        from
    } else {
        first_with_id(list, id, from + 1)
    }
}

/// `list` with `ruleset` in the place of the first ruleset that has its id,
/// or at the end if none has.
pub open spec fn upserted(list: Seq<RulesetView>, ruleset: RulesetView) -> Seq<RulesetView> {
    let i = first_with_id(list, ruleset.id, 0);
    if i < list.len() {
        list.update(i, ruleset)
    } else {
        list.push(ruleset)
    }
}

/// `ruleset` with the id `fresh` if it has none.
pub open spec fn identified(ruleset: RulesetView, fresh: Seq<char>) -> RulesetView {
    if ruleset.id.len() == 0 {
        RulesetView { id: fresh, ..ruleset }
    } else {
        ruleset
    }
}

/// The rulesets that `ids` name, in the order of `ids`, as far as its first
/// `n` ids go. An id that no ruleset has names nothing.
pub open spec fn picked(list: Seq<RulesetView>, ids: Seq<Seq<char>>, n: int) -> Seq<RulesetView>
    decreases n,
{
    if n <= 0 {
        Seq::empty()
    } else {
        let earlier = picked(list, ids, n - 1);
        let i = first_with_id(list, ids[n - 1], 0);
        if i < list.len() {
            earlier.push(list[i])
        } else {
            earlier
        }
    }
}

proof fn lemma_first_with_id(list: Seq<RulesetView>, id: Seq<char>, from: int)
    requires
        0 <= from <= list.len(),
    ensures
        from <= first_with_id(list, id, from) <= list.len(),
        first_with_id(list, id, from) < list.len() ==> list[first_with_id(list, id, from)].id == id,
        forall|k: int| from <= k < first_with_id(list, id, from) ==> list[k].id != id,
    decreases list.len() - from,
{
    if from < list.len() && list[from].id != id {
        lemma_first_with_id(list, id, from + 1);
    }
}

/// The index of the first ruleset that has the id `id`.
fn find_index(list: &Vec<Ruleset>, id: &String) -> (i: usize)
    ensures
        i == first_with_id(list.deep_view(), id@, 0),
        i <= list.len(),
{
    let mut i: usize = 0;
    while i < list.len()
        invariant
            i <= list.len(),
            first_with_id(list.deep_view(), id@, 0) == first_with_id(
                list.deep_view(),
                id@,
                i as int,
            ),
        decreases list.len() - i,
    {
        proof {
            assert(list.deep_view()[i as int] == list@[i as int]@);
        }
        if list[i].id == *id {
            return i;
        }
        i += 1;
    }
    i
}

/// Puts `ruleset`, which is valid, into the list: in the place of the first
/// ruleset that has its id, or at the end.
fn place(file: &mut RulesetFile, ruleset: Ruleset) -> (id: String)
    ensures
        id@ == ruleset@.id,
        final(file)@.version == old(file)@.version,
        final(file)@.rulesets == upserted(old(file)@.rulesets, ruleset@),
{
    let id = ruleset.id.clone();
    let ghost before = file.rulesets.deep_view();
    let ghost stored = ruleset@;
    let i = find_index(&file.rulesets, &id);
    if i < file.rulesets.len() {
        file.rulesets.set(i, ruleset);
        proof {
            assert(file.rulesets.deep_view() =~= before.update(i as int, stored));
        }
    } else {
        file.rulesets.push(ruleset);
        proof {
            assert(file.rulesets.deep_view() =~= before.push(stored));
        }
    }
    id
}

/// Puts `ruleset` into the list, under the id `fresh_id` if it has none: in
/// the place of the ruleset that has its id, or at the end. A ruleset that is
/// not valid changes nothing. Returns the id under which the ruleset stands.
pub fn store_ruleset(file: &mut RulesetFile, ruleset: Ruleset, fresh_id: String) -> (r: Result<
    String,
    RulesetError,
>)
    ensures
        final(file)@.version == old(file)@.version,
        match r {
            Ok(id) => {
                &&& ruleset@.first_fault() is None
                &&& id@ == identified(ruleset@, fresh_id@).id
                &&& final(file)@.rulesets == upserted(
                    old(file)@.rulesets,
                    identified(ruleset@, fresh_id@),
                )
            },
            Err(e) => {
                &&& ruleset@.first_fault() == Some(e@)
                &&& final(file)@.rulesets == old(file)@.rulesets
            },
        },
{
    if let Err(e) = ruleset.validate() {
        return Err(e);
    }
    let mut ruleset = ruleset;
    if ruleset.id.as_str().unicode_len() == 0 {
        ruleset.id = fresh_id;
    }
    Ok(place(file, ruleset))
}

/// Puts `ruleset` into the list, under an id made by chance if it has none:
/// in the place of the ruleset that has its id, or at the end. The ruleset
/// is checked first: one that is not valid changes nothing, and no id is
/// made for it. Returns the id under which the ruleset stands.
pub fn save_ruleset(file: &mut RulesetFile, ruleset: Ruleset) -> (r: Result<String, RulesetError>)
    ensures
        final(file)@.version == old(file)@.version,
        match r {
            Ok(id) => {
                &&& ruleset@.first_fault() is None
                &&& ruleset@.id.len() > 0 ==> id@ == ruleset@.id
                &&& ruleset@.id.len() == 0 ==> id@.len() == 36
                &&& final(file)@.rulesets == upserted(
                    old(file)@.rulesets,
                    identified(ruleset@, id@),
                )
            },
            Err(e) => {
                &&& ruleset@.first_fault() == Some(e@)
                &&& final(file)@.rulesets == old(file)@.rulesets
            },
        },
{
    if let Err(e) = ruleset.validate() {
        return Err(e);
    }
    let mut ruleset = ruleset;
    if ruleset.id.as_str().unicode_len() == 0 {
        ruleset.id = random_id();
    }
    Ok(place(file, ruleset))
}

/// Takes every ruleset with the id `id` out of the list; the others keep
/// their order.
pub fn delete_ruleset(file: &mut RulesetFile, id: &str)
    ensures
        final(file)@.version == old(file)@.version,
        final(file)@.rulesets == old(file)@.rulesets.filter(|r: RulesetView| r.id != id@),
{
    let ghost all = file.rulesets.deep_view();
    let ghost keep = |r: RulesetView| r.id != id@;
    let mut kept: Vec<Ruleset> = Vec::new();
    let mut i: usize = 0;
    proof {
        reveal_with_fuel(Seq::filter, 2);
        assert(all.take(0) =~= Seq::<RulesetView>::empty());
        assert(kept.deep_view() =~= all.take(0).filter(keep));
    }
    while i < file.rulesets.len()
        invariant
            i <= file.rulesets.len(),
            all == file.rulesets.deep_view(),
            *file == *old(file),
            keep == |r: RulesetView| r.id != id@,
            kept.deep_view() == all.take(i as int).filter(keep),
        decreases file.rulesets.len() - i,
    {
        let ghost before = kept.deep_view();
        proof {
            assert(all[i as int] == file.rulesets@[i as int]@);
            assert(all.take(i + 1).drop_last() =~= all.take(i as int));
            assert(all.take(i + 1).last() == all[i as int]);
            reveal_with_fuel(Seq::filter, 2);
        }
        if !same_text(file.rulesets[i].id.as_str(), id) {
            kept.push(file.rulesets[i].clone());
            proof {
                assert(kept.deep_view() =~= before.push(all[i as int]));
            }
        }
        i += 1;
    }
    proof {
        assert(all.take(all.len() as int) =~= all);
    }
    file.rulesets = kept;
}

/// Puts the rulesets in the order of `ids`. A ruleset whose id is not
/// among `ids` leaves the list; an id that no ruleset has is passed over.
pub fn reorder_rulesets(file: &mut RulesetFile, ids: &Vec<String>)
    ensures
        final(file)@.version == old(file)@.version,
        final(file)@.rulesets == picked(
            old(file)@.rulesets,
            ids.deep_view(),
            ids.len() as int,
        ),
{
    let ghost all = file.rulesets.deep_view();
    let mut reordered: Vec<Ruleset> = Vec::new();
    let mut n: usize = 0;
    proof {
        assert(reordered.deep_view() =~= Seq::<RulesetView>::empty());
    }
    while n < ids.len()
        invariant
            n <= ids.len(),
            all == file.rulesets.deep_view(),
            *file == *old(file),
            reordered.deep_view() == picked(all, ids.deep_view(), n as int),
        decreases ids.len() - n,
    {
        let ghost before = reordered.deep_view();
        proof {
            assert(ids.deep_view()[n as int] == ids@[n as int]@);
        }
        let i = find_index(&file.rulesets, &ids[n]);
        if i < file.rulesets.len() {
            proof {
                assert(all[i as int] == file.rulesets@[i as int]@);
            }
            reordered.push(file.rulesets[i].clone());
            proof {
                assert(reordered.deep_view() =~= before.push(all[i as int]));
            }
        }
        n += 1;
    }
    file.rulesets = reordered;
}

/// The message for an id that no ruleset has.
pub open spec fn not_found_message(id: Seq<char>) -> Seq<char> {
    "Ruleset not found: "@ + id
}

/// The first ruleset with the id `id`, which is the one to execute.
pub fn find_ruleset<'a>(file: &'a RulesetFile, id: &str) -> (r: Result<&'a Ruleset, String>)
    ensures
        match r {
            Ok(found) => {
                let i = first_with_id(file@.rulesets, id@, 0);
                i < file@.rulesets.len() && found@ == file@.rulesets[i]
            },
            Err(message) => {
                &&& first_with_id(file@.rulesets, id@, 0) == file@.rulesets.len()
                &&& message@ == not_found_message(id@)
            },
        },
{
    let key = owned(id);
    let i = find_index(&file.rulesets, &key);
    if i < file.rulesets.len() {
        proof {
            assert(file.rulesets.deep_view()[i as int] == file.rulesets@[i as int]@);
        }
        Ok(&file.rulesets[i])
    } else {
        Err(joined("Ruleset not found: ", id))
    }
}

/// The rulesets that run when all are executed: those that are enabled, in
/// the order of the list.
pub fn enabled_rulesets(file: &RulesetFile) -> (enabled: Vec<Ruleset>)
    ensures
        enabled.deep_view() == file@.rulesets.filter(|r: RulesetView| r.enabled),
{
    let ghost all = file.rulesets.deep_view();
    let ghost keep = |r: RulesetView| r.enabled;
    let mut enabled: Vec<Ruleset> = Vec::new();
    let mut i: usize = 0;
    proof {
        reveal_with_fuel(Seq::filter, 2);
        assert(all.take(0) =~= Seq::<RulesetView>::empty());
        assert(enabled.deep_view() =~= all.take(0).filter(keep));
    }
    while i < file.rulesets.len()
        invariant
            i <= file.rulesets.len(),
            all == file.rulesets.deep_view(),
            keep == |r: RulesetView| r.enabled,
            enabled.deep_view() == all.take(i as int).filter(keep),
        decreases file.rulesets.len() - i,
    {
        let ghost before = enabled.deep_view();
        proof {
            assert(all[i as int] == file.rulesets@[i as int]@);
            assert(all.take(i + 1).drop_last() =~= all.take(i as int));
            assert(all.take(i + 1).last() == all[i as int]);
            reveal_with_fuel(Seq::filter, 2);
        }
        if file.rulesets[i].enabled {
            enabled.push(file.rulesets[i].clone());
            proof {
                assert(enabled.deep_view() =~= before.push(all[i as int]));
            }
        }
        i += 1;
    }
    proof {
        assert(all.take(all.len() as int) =~= all);
    }
    enabled
}

/// One entry of a directory: its name, and whether it is a file.
#[derive(Debug, PartialEq)]
pub struct DirectoryItem {
    pub name: String,
    pub is_file: bool,
}

pub struct DirectoryItemView {
    pub name: Seq<char>,
    pub is_file: bool,
}

impl DeepView for DirectoryItem {
    type V = DirectoryItemView;

    open spec fn deep_view(&self) -> DirectoryItemView {
        DirectoryItemView { name: self.name@, is_file: self.is_file }
    }
}

impl View for DirectoryItem {
    type V = DirectoryItemView;

    open spec fn view(&self) -> DirectoryItemView {
        self.deep_view()
    }
}

/// The order of strings: by the first character in which two texts differ,
/// characters being ordered by their code points; a text comes before every
/// text that it begins.
pub open spec fn text_le(a: Seq<char>, b: Seq<char>) -> bool
    decreases a.len(),
{
    if a.len() == 0 {
        true
    } else if b.len() == 0 {
        false
    } else if a[0] != b[0] {
        (a[0] as u32) < (b[0] as u32)
    } else {
        text_le(a.drop_first(), b.drop_first())
    }
}

/// Whether the texts stand in ascending order.
pub open spec fn ascending(texts: Seq<Seq<char>>) -> bool {
    forall|i: int, j: int| 0 <= i <= j < texts.len() ==> text_le(texts[i], texts[j])
}

/// The names of the files among the first `n` items.
pub open spec fn file_names(items: Seq<DirectoryItemView>, n: int) -> Seq<Seq<char>>
    decreases n,
{
    if n <= 0 {
        Seq::empty()
    } else if items[n - 1].is_file {
        file_names(items, n - 1).push(items[n - 1].name)
    } else {
        file_names(items, n - 1)
    }
}

/// The sort of a slice of strings, `sort` of std: the same strings, as often
/// as before, in the order of strings, which is the order of their bytes and
/// so of their code points.
#[verifier::external_body]
fn sort_texts(texts: &mut Vec<String>)
    ensures
        final(texts).deep_view().to_multiset() == old(texts).deep_view().to_multiset(),
        ascending(final(texts).deep_view()),
{
    texts.sort()
}

/// The names of the files of a directory, in ascending order. `listing` is
/// `None` where `dir` is no directory, and an error where it could not be
/// read.
pub fn list_source_files(dir: &str, listing: Option<Result<Vec<DirectoryItem>, IoFailure>>) -> (r:
    Result<Vec<String>, String>)
    ensures
        match listing {
            None => r matches Err(message) && message@ == "Directory not found: "@ + dir@,
            Some(Err(e)) => r matches Err(message) && message@ == e@.message,
            Some(Ok(items)) => r matches Ok(names) && {
                &&& names.deep_view().to_multiset() == file_names(
                    items.deep_view(),
                    items.len() as int,
                ).to_multiset()
                &&& ascending(names.deep_view())
            },
        },
{
    match listing {
        None => Err(joined("Directory not found: ", dir)),
        Some(Err(e)) => Err(e.message),
        Some(Ok(items)) => {
            let mut names: Vec<String> = Vec::new();
            let mut i: usize = 0;
            proof {
                assert(names.deep_view() =~= Seq::<Seq<char>>::empty());
            }
            while i < items.len()
                invariant
                    i <= items.len(),
                    names.deep_view() == file_names(items.deep_view(), i as int),
                decreases items.len() - i,
            {
                let ghost before = names.deep_view();
                proof {
                    assert(items.deep_view()[i as int] == items@[i as int]@);
                }
                if items[i].is_file {
                    names.push(items[i].name.clone());
                    proof {
                        assert(names.deep_view() =~= before.push(items@[i as int].name@));
                    }
                }
                i += 1;
            }
            sort_texts(&mut names);
            Ok(names)
        },
    }
}

/// Whatever comes of saving a ruleset, every ruleset that stood in the list
/// under another id still stands there, and the list is at most one longer.
pub proof fn lemma_upsert_keeps_others(list: Seq<RulesetView>, ruleset: RulesetView)
    ensures
        list.len() <= upserted(list, ruleset).len() <= list.len() + 1,
        forall|k: int|
            0 <= k < list.len() && list[k].id != ruleset.id ==> #[trigger] upserted(
                list,
                ruleset,
            )[k] == list[k],
        exists|k: int|
            0 <= k < upserted(list, ruleset).len() && #[trigger] upserted(list, ruleset)[k]
                == ruleset,
{
    lemma_first_with_id(list, ruleset.id, 0);
    let i = first_with_id(list, ruleset.id, 0);
    if i < list.len() {
        assert(upserted(list, ruleset)[i] == ruleset);
    } else {
        assert(upserted(list, ruleset)[list.len() as int] == ruleset);
    }
}

/// After a ruleset was saved, it is the one that its id finds.
pub proof fn lemma_upsert_then_find(list: Seq<RulesetView>, ruleset: RulesetView)
    ensures
        ({
            let after = upserted(list, ruleset);
            let i = first_with_id(after, ruleset.id, 0);
            i < after.len() && after[i] == ruleset
        }),
{
    lemma_first_with_id(list, ruleset.id, 0);
    let after = upserted(list, ruleset);
    lemma_first_with_id(after, ruleset.id, 0);
    let i = first_with_id(list, ruleset.id, 0);
    let j = first_with_id(after, ruleset.id, 0);
    assert(after[i].id == ruleset.id);
    if j < i {
        assert(after[j] == list[j]);
    }
}

} // verus!
