//! Scores applications by how often they were selected, and orders them.

use vstd::prelude::*;
use crate::entries::AppInfo;
use crate::usage::{Searches, count_in};

verus! {

/// An application with its score.
#[derive(Debug, Clone)]
pub struct ScoredApp {
    /// How often the application was selected.
    pub total_score: u32,
    pub name: String,
    pub command: String,
    pub icon: String,
}

/// The scored record copies the application's fields.
pub open spec fn same_fields(s: ScoredApp, a: AppInfo) -> bool {
    s.name@ == a.name@ && s.command@ == a.command@ && s.icon@ == a.icon@
}

/// The application with a score of zero.
pub fn unscored(app: &AppInfo) -> (r: ScoredApp)
    ensures
        same_fields(r, *app),
        r.total_score == 0,
{
    ScoredApp {
        total_score: 0,
        name: app.name.clone(),
        command: app.command.clone(),
        icon: app.icon.clone(),
    }
}

/// Scores each application by its selection count (zero where it has
/// none), keeping the order of `entries`.
pub fn rank(entries: &Vec<AppInfo>, counters: &Searches) -> (r: Vec<ScoredApp>)
    requires
        counters.wf(),
    ensures
        r.len() == entries.len(),
        forall|i: int|
            0 <= i < r.len() ==> same_fields(#[trigger] r@[i], entries@[i]) && r@[i].total_score
                == count_in(counters@, entries@[i].name@) as u32,
{
    let mut r: Vec<ScoredApp> = Vec::new();
    let mut i: usize = 0;
    while i < entries.len()
        invariant
            i <= entries.len(),
            counters.wf(),
            r.len() == i,
            forall|k: int|
                0 <= k < i ==> same_fields(#[trigger] r@[k], entries@[k]) && r@[k].total_score
                    == count_in(counters@, entries@[k].name@) as u32,
        decreases entries.len() - i,
    {
        let app = &entries[i];
        let count = counters.count_of(app.name.as_str());
        r.push(
            ScoredApp {
                total_score: count as u32,
                name: app.name.clone(),
                command: app.command.clone(),
                icon: app.icon.clone(),
            },
        );
        i = i + 1;
    }
    r
}

/// Highest score first.
pub open spec fn sorted_by_score(s: Seq<ScoredApp>) -> bool {
    forall|i: int, j: int| 0 <= i < j < s.len() ==> s[i].total_score >= s[j].total_score
}

/// Orders the applications by score, highest first; the applications
/// themselves are kept, each as often as before.
pub fn sort_by_score(apps: &mut Vec<ScoredApp>)
    ensures
        final(apps)@.len() == old(apps)@.len(),
        sorted_by_score(final(apps)@),
        final(apps)@.to_multiset() == old(apps)@.to_multiset(),
{
    let ghost initial = apps@;
    let n = apps.len();
    if n == 0 {
        return;
    }
    let mut i: usize = 1;
    while i < n
        invariant
            n == apps.len(),
            1 <= i <= n,
            apps@.to_multiset() == initial.to_multiset(),
            forall|a: int, b: int| 0 <= a < b < i ==> apps@[a].total_score >= apps@[b].total_score,
        decreases n - i,
    {
        let mut j: usize = i;
        while j > 0 && apps[j - 1].total_score < apps[j].total_score
            invariant
                n == apps.len(),
                0 <= j <= i < n,
                apps@.to_multiset() == initial.to_multiset(),
                forall|a: int, b: int|
                    0 <= a < b <= i && a != j && b != j ==> apps@[a].total_score
                        >= apps@[b].total_score,
                forall|b: int| j < b <= i ==> apps@[j as int].total_score >= apps@[b].total_score,
            decreases j,
        {
            let ghost s = apps@;
            let x = apps.remove(j);
            apps.insert(j - 1, x);
            proof {
                broadcast use vstd::seq_lib::group_to_multiset_ensures;
                broadcast use vstd::multiset::group_multiset_axioms;

                assert(apps@ == s.remove(j as int).insert(j - 1, s[j as int]));
                assert(s.contains(s[j as int]));
                assert(apps@.to_multiset() =~= s.to_multiset());
                assert(apps@ =~= s.update(j - 1, s[j as int]).update(j as int, s[j - 1]));
            }
            j = j - 1;
        }
        i = i + 1;
    }
}

} // verus!
