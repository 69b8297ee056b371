//! Selection counters: how often each application was chosen, kept as a
//! JSON object in a per-user file.

use vstd::prelude::*;

verus! {

/// No name occurs twice.
pub open spec fn keys_unique(p: Seq<(String, u16)>) -> bool {
    forall|i: int, j: int| 0 <= i < j < p.len() ==> p[i].0@ != p[j].0@
}

/// The mapping that a list of (name, count) pairs stands for; a later pair
/// replaces an earlier one with the same name.
pub open spec fn pairs_map(p: Seq<(String, u16)>) -> Map<Seq<char>, u16>
    decreases p.len(),
{
    if p.len() == 0 {
        Map::empty()
    } else {
        pairs_map(p.drop_last()).insert(p.last().0@, p.last().1)
    }
}

/// The count of `name`, zero where it has none.
pub open spec fn count_in(m: Map<Seq<char>, u16>, name: Seq<char>) -> u16 {
    if m.contains_key(name) {
        m[name]
    } else {
        0
    }
}

/// The counters after one more selection of `name`; a count that has
/// reached the largest `u16` stays there.
pub open spec fn bumped(m: Map<Seq<char>, u16>, name: Seq<char>) -> Map<Seq<char>, u16> {
    let c = count_in(m, name);
    m.insert(
        name,
        if c == u16::MAX {
            c
        } else {
            (c + 1) as u16
        },
    )
}

/// The names and counts that a JSON text holds, if it is one object whose
/// values are integers that fit in a `u16`.
pub uninterp spec fn json_counts(text: Seq<char>) -> Option<Map<Seq<char>, u16>>;

/// Relies on `serde_json::from_str` into a `HashMap<String, u16>`: the text
/// is read as one JSON object of names and counts, and a map has each name
/// once.
#[verifier::external_body]
fn parse_counts_json(text: &str) -> (r: Option<Vec<(String, u16)>>)
    ensures
        r is Some <==> json_counts(text@) is Some,
        r is Some ==> keys_unique(r->0@) && json_counts(text@) == Some(pairs_map(r->0@)),
{
    serde_json::from_str::<std::collections::HashMap<String, u16>>(text).ok().map(
        |m| m.into_iter().collect(),
    )
}

/// Relies on `serde_json::to_string` of a `HashMap<String, u16>`: it writes
/// one JSON object that `serde_json::from_str` reads back as the same names
/// and counts.
#[verifier::external_body]
fn counts_to_json(pairs: &Vec<(String, u16)>) -> (r: String)
    requires
        keys_unique(pairs@),
    ensures
        json_counts(r@) == Some(pairs_map(pairs@)),
{
    let m: std::collections::HashMap<&str, u16> = pairs.iter().map(|p| (p.0.as_str(), p.1)).collect();
    serde_json::to_string(&m).unwrap_or_default()
}

proof fn lemma_pairs_map_hit(p: Seq<(String, u16)>, j: int)
    requires
        keys_unique(p),
        0 <= j < p.len(),
    ensures
        pairs_map(p).contains_key(p[j].0@),
        pairs_map(p)[p[j].0@] == p[j].1,
    decreases p.len(),
{
    if j < p.len() - 1 {
        lemma_pairs_map_hit(p.drop_last(), j);
    }
}

proof fn lemma_pairs_map_miss(p: Seq<(String, u16)>, k: Seq<char>)
    requires
        forall|i: int| 0 <= i < p.len() ==> p[i].0@ != k,
    ensures
        !pairs_map(p).contains_key(k),
    decreases p.len(),
{
    if p.len() > 0 {
        lemma_pairs_map_miss(p.drop_last(), k);
    }
}

proof fn lemma_pairs_map_update(p: Seq<(String, u16)>, j: int, v: u16)
    requires
        keys_unique(p),
        0 <= j < p.len(),
    ensures
        pairs_map(p.update(j, (p[j].0, v))) == pairs_map(p).insert(p[j].0@, v),
    decreases p.len(),
{
    let q = p.update(j, (p[j].0, v));
    if j == p.len() - 1 {
        assert(q.drop_last() =~= p.drop_last());
        assert(pairs_map(q) =~= pairs_map(p).insert(p[j].0@, v));
    } else {
        assert(q.drop_last() =~= p.drop_last().update(j, (p[j].0, v)));
        lemma_pairs_map_update(p.drop_last(), j, v);
        assert(pairs_map(q) =~= pairs_map(p).insert(p[j].0@, v));
    }
}

/// Selection counts by application name.
#[derive(Debug, Clone)]
pub struct Searches {
    /// The (name, count) pairs, each name once.
    pub inner: Vec<(String, u16)>,
}

impl View for Searches {
    type V = Map<Seq<char>, u16>;

    open spec fn view(&self) -> Map<Seq<char>, u16> {
        pairs_map(self.inner@)
    }
}

impl Default for Searches {
    fn default() -> (r: Self)
        ensures
            r.wf(),
            r@ == Map::<Seq<char>, u16>::empty(),
    {
        Searches { inner: Vec::new() }
    }
}

impl Searches {
    /// Each name occurs once.
    pub open spec fn wf(&self) -> bool {
        keys_unique(self.inner@)
    }

    /// The index of the pair for `name`, if there is one.
    fn position(&self, name: &String) -> (r: Option<usize>)
        requires
            self.wf(),
        ensures
            match r {
                Some(j) => j < self.inner.len() && self.inner@[j as int].0@ == name@,
                None => forall|i: int| 0 <= i < self.inner.len() ==> self.inner@[i].0@ != name@,
            },
    {
        let mut i: usize = 0;
        while i < self.inner.len()
            invariant
                i <= self.inner.len(),
                forall|k: int| 0 <= k < i ==> self.inner@[k].0@ != name@,
            decreases self.inner.len() - i,
        {
            if self.inner[i].0 == *name {
                return Some(i);
            }
            i = i + 1;
        }
        None
    }

    /// How often `name` was selected; zero where it never was.
    pub fn count_of(&self, name: &str) -> (r: u16)
        requires
            self.wf(),
        ensures
            r == count_in(self@, name@),
    {
        let key = name.to_owned();
        match self.position(&key) {
            Some(j) => {
                proof {
                    lemma_pairs_map_hit(self.inner@, j as int);
                }
                self.inner[j].1
            },
            None => {
                proof {
                    lemma_pairs_map_miss(self.inner@, name@);
                }
                0
            },
        }
    }

    /// Counts one more selection of `name`, starting it at one where it has
    /// none.
    pub fn record(&mut self, name: &str)
        requires
            old(self).wf(),
        ensures
            final(self).wf(),
            final(self)@ == bumped(old(self)@, name@),
    {
        let key = name.to_owned();
        match self.position(&key) {
            Some(j) => {
                proof {
                    lemma_pairs_map_hit(self.inner@, j as int);
                }
                let c = self.inner[j].1;
                let next: u16 = if c < u16::MAX {
                    c + 1
                } else {
                    c
                };
                let ghost before = self.inner@;
                let k = self.inner[j].0.clone();
                self.inner.set(j, (k, next));
                proof {
                    lemma_pairs_map_update(before, j as int, next);
                    assert(self.inner@ =~= before.update(j as int, (before[j as int].0, next)));
                }
            },
            None => {
                proof {
                    lemma_pairs_map_miss(self.inner@, name@);
                }
                let ghost before = self.inner@;
                self.inner.push((key, 1));
                proof {
                    assert(self.inner@.drop_last() =~= before);
                }
            },
        }
    }
}

/// Why the counters could not be had.
#[derive(Debug, Clone, Copy, PartialEq, Eq, Structural)]
pub enum StoreError {
    /// The counter file is not a JSON object of names and counts.
    Malformed,
}

pub open spec fn opt_str(o: Option<&str>) -> Option<Seq<char>> {
    match o {
        Some(s) => Some(s@),
        None => None,
    }
}

/// The counters that a load gives, from the file's text, or from no file
/// at all (an empty store).
pub open spec fn loaded_counts(stored: Option<Seq<char>>) -> Option<Map<Seq<char>, u16>> {
    match stored {
        None => Some(Map::empty()),
        Some(t) => json_counts(t),
    }
}

/// What a load found.
#[derive(Debug, Clone)]
pub struct Loaded {
    /// The counters.
    pub searches: Searches,
    /// Where there was no counter file: the text to create it with.
    pub initial_text: Option<String>,
}

/// Loads the counters from the counter file's text, or, where there is no
/// file (`None`), starts empty and gives the text to create the file with.
pub fn get_searches(stored: Option<&str>) -> (r: Result<Loaded, StoreError>)
    ensures
        r is Ok <==> loaded_counts(opt_str(stored)) is Some,
        r matches Ok(l) ==> l.searches.wf() && loaded_counts(opt_str(stored)) == Some(
            l.searches@,
        ),
        r matches Ok(l) ==> (l.initial_text is Some <==> stored is None),
        r matches Ok(l) ==> (l.initial_text matches Some(t) ==> json_counts(t@) == Some(
            Map::<Seq<char>, u16>::empty(),
        )),
        r matches Err(e) ==> e == StoreError::Malformed,
{
    match stored {
        None => {
            let searches = Searches::default();
            let text = counts_to_json(&searches.inner);
            Ok(Loaded { searches, initial_text: Some(text) })
        },
        Some(t) => match parse_counts_json(t) {
            Some(inner) => Ok(Loaded { searches: Searches { inner }, initial_text: None }),
            None => Err(StoreError::Malformed),
        },
    }
}

/// Counts one more selection of `name` in the store whose file holds
/// `stored` (`None`: no file yet), and gives the text that replaces the
/// whole file.
pub fn add_entry_to_searches(stored: Option<&str>, name: &str) -> (r: Result<String, StoreError>)
    ensures
        r is Ok <==> loaded_counts(opt_str(stored)) is Some,
        r matches Ok(t) ==> json_counts(t@) == Some(
            bumped(loaded_counts(opt_str(stored))->0, name@),
        ),
        r matches Err(e) ==> e == StoreError::Malformed,
{
    let mut searches = match get_searches(stored) {
        Ok(l) => l.searches,
        Err(e) => {
            return Err(e);
        },
    };
    searches.record(name);
    Ok(counts_to_json(&searches.inner))
}

/// Recording a selection of `name` in a store with no file yet gives a file
/// that loads as `{name: 1}`; recording it once more on that file gives one
/// that loads as `{name: 2}`.
pub proof fn lemma_record_then_load(name: Seq<char>, first: Seq<char>, second: Seq<char>)
    requires
        json_counts(first) == Some(bumped(loaded_counts(None)->0, name)),
        json_counts(second) == Some(bumped(loaded_counts(Some(first))->0, name)),
    ensures
        loaded_counts(Some(first)) == Some(Map::<Seq<char>, u16>::empty().insert(name, 1)),
        loaded_counts(Some(second)) == Some(Map::<Seq<char>, u16>::empty().insert(name, 2)),
{
    assert(bumped(Map::empty(), name) =~= Map::<Seq<char>, u16>::empty().insert(name, 1));
    assert(bumped(Map::empty().insert(name, 1), name) =~= Map::<Seq<char>, u16>::empty().insert(
        name,
        2,
    ));
}

/// Loading twice where there is no counter file: the first load gives the
/// empty mapping and the text to create the file with; a load of that text
/// gives the same empty mapping (and, the file being there, creates
/// nothing).
pub proof fn lemma_load_twice(initial: Seq<char>)
    requires
        json_counts(initial) == Some(Map::<Seq<char>, u16>::empty()),
    ensures
        loaded_counts(None) == Some(Map::<Seq<char>, u16>::empty()),
        loaded_counts(Some(initial)) == loaded_counts(None),
{
}

pub open spec fn ends_with(s: Seq<char>, t: Seq<char>) -> bool {
    s.len() >= t.len() && s.subrange(s.len() - t.len(), s.len() as int) == t
}

/// Relies on `shellexpand::tilde`: a leading `~` (alone or before `/`) is
/// replaced by the home directory where that is known; any other text comes
/// back unchanged. Either way what follows the first character stays at the
/// end.
#[verifier::external_body]
fn expand_tilde(path: &str) -> (r: String)
    ensures
        !(path@.len() > 0 && path@[0] == '~') ==> r@ == path@,
        path@.len() > 0 ==> ends_with(r@, path@.drop_first()),
{
    shellexpand::tilde(path).into_owned()
}

/// Where the counter file lives: `~/.config/findex/search_results.json`,
/// with `~` expanded to the home directory at the time of the call.
pub fn searches_path() -> (r: String)
    ensures
        ends_with(r@, "~/.config/findex/search_results.json"@.drop_first()),
{
    proof {
        reveal_strlit("~/.config/findex/search_results.json");
    }
    expand_tilde("~/.config/findex/search_results.json")
}

} // verus!
