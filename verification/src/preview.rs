//! The organization preview: what an organize run would do, without touching
//! anything.  Files are grouped by the folder the classifier sends them to,
//! groups appear in the order their folder is first needed, and each group
//! lists its files in snapshot order.

use vstd::prelude::*;
use crate::classify::{category_for, dest_rel, spec_category_for, spec_dest_rel};
use crate::organize::{eligible_files, spec_eligible, OrganizeError};
use crate::text::str_eq;

verus! {

/// The preview: one entry per destination folder (relative to the target
/// directory), with the files it would receive.
pub struct PreviewData {
    pub plan: Vec<(String, Vec<String>)>,
}

/// The folder a file would be grouped under.
pub open spec fn spec_plan_key(
    name: Seq<char>,
    cats: Seq<(Seq<char>, Seq<Seq<char>>)>,
) -> Seq<char> {
    spec_dest_rel(spec_category_for(name, cats))
}

/// Add one file to the group of its key, extending the group list when the
/// key is new.
pub open spec fn spec_plan_insert(
    plan: Seq<(Seq<char>, Seq<Seq<char>>)>,
    key: Seq<char>,
    name: Seq<char>,
) -> Seq<(Seq<char>, Seq<Seq<char>>)>
    decreases plan.len(),
{
    if plan.len() == 0 {
        seq![(key, seq![name])]
    } else if plan[0].0 == key {
        seq![(plan[0].0, plan[0].1.push(name))] + plan.subrange(1, plan.len() as int)
    } else {
        seq![plan[0]] + spec_plan_insert(plan.subrange(1, plan.len() as int), key, name)
    }
}

/// The preview of a snapshot: every file added to its group, in order.
pub open spec fn spec_plan(
    names: Seq<Seq<char>>,
    cats: Seq<(Seq<char>, Seq<Seq<char>>)>,
) -> Seq<(Seq<char>, Seq<Seq<char>>)>
    decreases names.len(),
{
    if names.len() == 0 {
        Seq::empty()
    } else {
        spec_plan_insert(
            spec_plan(names.drop_last(), cats),
            spec_plan_key(names.last(), cats),
            names.last(),
        )
    }
}

/// Inserting under a key that first occurs at position `j` updates that
/// group alone.
proof fn lemma_plan_insert_found(
    plan: Seq<(Seq<char>, Seq<Seq<char>>)>,
    key: Seq<char>,
    name: Seq<char>,
    j: int,
)
    requires
        0 <= j < plan.len(),
        plan[j].0 == key,
        forall|k: int| 0 <= k < j ==> (#[trigger] plan[k]).0 != key,
    ensures
        spec_plan_insert(plan, key, name) == plan.update(j, (plan[j].0, plan[j].1.push(name))),
    decreases j,
{
    if j == 0 {
        assert(seq![(plan[0].0, plan[0].1.push(name))] + plan.subrange(1, plan.len() as int)
            =~~= plan.update(0, (plan[0].0, plan[0].1.push(name))));
    } else {
        let tail = plan.subrange(1, plan.len() as int);
        lemma_plan_insert_found(tail, key, name, j - 1);
        assert(seq![plan[0]] + tail.update(j - 1, (tail[j - 1].0, tail[j - 1].1.push(name)))
            =~~= plan.update(j, (plan[j].0, plan[j].1.push(name))));
    }
}

/// Inserting under a key no group has appends a fresh group.
proof fn lemma_plan_insert_missing(
    plan: Seq<(Seq<char>, Seq<Seq<char>>)>,
    key: Seq<char>,
    name: Seq<char>,
)
    requires
        forall|k: int| 0 <= k < plan.len() ==> (#[trigger] plan[k]).0 != key,
    ensures
        spec_plan_insert(plan, key, name) == plan.push((key, seq![name])),
    decreases plan.len(),
{
    if plan.len() == 0 {
        assert(seq![(key, seq![name])] =~~= plan.push((key, seq![name])));
    } else {
        let tail = plan.subrange(1, plan.len() as int);
        lemma_plan_insert_missing(tail, key, name);
        assert(seq![plan[0]] + tail.push((key, seq![name])) =~~= plan.push((key, seq![name])));
    }
}

/// The position of the group already holding `key`, if any.
fn find_group(plan: &Vec<(String, Vec<String>)>, key: &str) -> (r: Option<usize>)
    ensures
        match r {
            Some(j) => {
                &&& j < plan@.len()
                &&& plan.deep_view()[j as int].0 == key@
                &&& forall|k: int| 0 <= k < j ==> (#[trigger] plan.deep_view()[k]).0 != key@
            },
            None => forall|k: int|
                0 <= k < plan@.len() ==> (#[trigger] plan.deep_view()[k]).0 != key@,
        },
{
    let mut j: usize = 0;
    while j < plan.len()
        invariant
            j <= plan.len(),
            plan.deep_view().len() == plan@.len(),
            forall|k: int| 0 <= k < plan@.len() ==> plan.deep_view()[k]
                == (plan@[k].0@, plan@[k].1.deep_view()),
            forall|k: int| 0 <= k < j ==> (#[trigger] plan.deep_view()[k]).0 != key@,
        decreases plan.len() - j,
    {
        if str_eq(plan[j].0.as_str(), key) {
            return Some(j);
        }
        j += 1;
    }
    None
}

/// Build the preview of a snapshot: the eligible files, grouped under the
/// folder each would be moved into.  Fails exactly when the directory does
/// not exist; an empty snapshot previews as an empty plan.
pub fn get_organization_plan(
    dir_exists: bool,
    entries: &Vec<String>,
    custom_categories: &Vec<(String, Vec<String>)>,
) -> (r: Result<PreviewData, OrganizeError>)
    ensures
        match r {
            Ok(p) => dir_exists && p.plan.deep_view() == spec_plan(
                spec_eligible(entries.deep_view()),
                custom_categories.deep_view(),
            ),
            Err(e) => !dir_exists && e matches OrganizeError::NotFound,
        },
{
    if !dir_exists {
        return Err(OrganizeError::NotFound);
    }
    let files = eligible_files(entries);
    let ghost fm = files.deep_view();
    let ghost cats = custom_categories.deep_view();
    let mut plan: Vec<(String, Vec<String>)> = Vec::new();
    let mut i: usize = 0;
    proof {
        assert(fm.take(0) =~= Seq::<Seq<char>>::empty());
        assert(plan.deep_view() =~~= spec_plan(fm.take(0), cats));
    }
    while i < files.len()
        invariant
            i <= files.len(),
            fm == files.deep_view(),
            cats == custom_categories.deep_view(),
            fm.len() == files@.len(),
            forall|k: int| 0 <= k < files@.len() ==> fm[k] == files@[k]@,
            plan.deep_view() == spec_plan(fm.take(i as int), cats),
        decreases files.len() - i,
    {
        let name = &files[i];
        let category = category_for(name.as_str(), custom_categories);
        let key = dest_rel(&category);
        let ghost pm = plan.deep_view();
        proof {
            assert(fm.take(i + 1).drop_last() =~= fm.take(i as int));
            assert(fm.take(i + 1).last() == fm[i as int]);
        }
        match find_group(&plan, key.as_str()) {
            Some(j) => {
                let mut group = plan.remove(j);
                group.1.push(name.clone());
                plan.insert(j, group);
                proof {
                    lemma_plan_insert_found(pm, key@, fm[i as int], j as int);
                    assert(plan.deep_view() =~~= pm.update(
                        j as int,
                        (pm[j as int].0, pm[j as int].1.push(fm[i as int])),
                    ));
                }
            },
            None => {
                let mut group_files: Vec<String> = Vec::new();
                group_files.push(name.clone());
                plan.push((key, group_files));
                proof {
                    lemma_plan_insert_missing(pm, key@, fm[i as int]);
                    assert(plan.deep_view() =~~= pm.push((key@, seq![fm[i as int]])));
                }
            },
        }
        i += 1;
    }
    proof {
        assert(fm.take(files@.len() as int) =~= fm);
    }
    Ok(PreviewData { plan })
}

} // verus!
