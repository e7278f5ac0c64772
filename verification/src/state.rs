//! Local UI state that should survive across runs: which sections are collapsed
//! and any manually-resized column widths. Asana's API doesn't expose either,
//! so the program persists them itself; this module holds the state and its
//! operations, and hands it out and takes it back as plain lists for storage.

use vstd::prelude::*;

use crate::text::{clone_strings, str_eq, string_views};

verus! {

broadcast use vstd::string::group_string_axioms;

/// The map an association list denotes: later entries override earlier ones.
pub open spec fn assoc<V>(s: Seq<(String, V)>) -> Map<Seq<char>, V>
    decreases s.len(),
{
    if s.len() == 0 {
        Map::empty()
    } else {
        assoc(s.drop_last()).insert(s.last().0@, s.last().1)
    }
}

/// No two entries of `s` have the same key.
pub open spec fn keys_distinct<V>(s: Seq<(String, V)>) -> bool {
    forall|i: int, j: int| 0 <= i < j < s.len() ==> #[trigger] s[i].0@ != #[trigger] s[j].0@
}

/// The set of strings a list holds.
pub open spec fn string_set(v: Seq<String>) -> Set<Seq<char>> {
    string_views(v).to_set()
}

proof fn lemma_assoc_lookup<V>(s: Seq<(String, V)>, i: int)
    requires
        keys_distinct(s),
        0 <= i < s.len(),
    ensures
        assoc(s).contains_key(s[i].0@),
        assoc(s)[s[i].0@] == s[i].1,
    decreases s.len(),
{
    if i < s.len() - 1 {
        let d = s.drop_last();
        assert(d[i] == s[i]);
        assert(s[i].0@ != s[s.len() - 1].0@);
        lemma_assoc_lookup(d, i);
    }
}

proof fn lemma_assoc_absent<V>(s: Seq<(String, V)>, k: Seq<char>)
    ensures
        (forall|i: int| 0 <= i < s.len() ==> #[trigger] s[i].0@ != k) ==> !assoc(s).contains_key(k),
        assoc(s).contains_key(k) ==> exists|i: int| 0 <= i < s.len() && #[trigger] s[i].0@ == k,
    decreases s.len(),
{
    if s.len() > 0 {
        let d = s.drop_last();
        lemma_assoc_absent(d, k);
        if assoc(d).contains_key(k) {
            let i = choose|i: int| 0 <= i < d.len() && #[trigger] d[i].0@ == k;
            assert(s[i] == d[i]);
        }
        if forall|i: int| 0 <= i < s.len() ==> #[trigger] s[i].0@ != k {
            assert forall|i: int| 0 <= i < d.len() implies #[trigger] d[i].0@ != k by {
                assert(s[i] == d[i]);
            }
            assert(s[s.len() - 1].0@ != k);
        }
        if assoc(s).contains_key(k) && s.last().0@ == k {
            assert(s[s.len() - 1].0@ == k);
        }
    }
}

proof fn lemma_assoc_update<V>(s: Seq<(String, V)>, i: int, v: V)
    requires
        keys_distinct(s),
        0 <= i < s.len(),
    ensures
        assoc(s.update(i, (s[i].0, v))) == assoc(s).insert(s[i].0@, v),
        keys_distinct(s.update(i, (s[i].0, v))),
    decreases s.len(),
{
    let u = s.update(i, (s[i].0, v));
    if i == s.len() - 1 {
        assert(u.drop_last() =~= s.drop_last());
        assert(assoc(u) =~= assoc(s).insert(s[i].0@, v));
    } else {
        let d = s.drop_last();
        lemma_assoc_update(d, i, v);
        assert(u.drop_last() =~= d.update(i, (d[i].0, v)));
        assert(s[i].0@ != s[s.len() - 1].0@);
        assert(assoc(u) =~= assoc(s).insert(s[i].0@, v));
    }
    assert forall|a: int, b: int| 0 <= a < b < u.len() implies #[trigger] u[a].0@ != #[trigger] u[b].0@ by {
        assert(u[a].0 == s[a].0);
        assert(u[b].0 == s[b].0);
    }
}

/// The collapsed sections that a stored list of entries denotes: per
/// navigation key, the set of section keys of its last entry.
pub open spec fn collapsed_map_of(entries: Seq<(String, Vec<String>)>) -> Map<Seq<char>, Set<Seq<char>>> {
    assoc(entries).map_values(|v: Vec<String>| string_set(v@))
}

/// Whether `section` is collapsed under `nav` in `m`.
pub open spec fn is_collapsed_in(m: Map<Seq<char>, Set<Seq<char>>>, nav: Seq<char>, section: Seq<char>) -> bool {
    m.contains_key(nav) && m[nav].contains(section)
}

/// `m` after marking `section` under `nav` collapsed or expanded. The entry for
/// `nav` exists afterwards either way.
pub open spec fn collapsed_update(
    m: Map<Seq<char>, Set<Seq<char>>>,
    nav: Seq<char>,
    section: Seq<char>,
    collapsed: bool,
) -> Map<Seq<char>, Set<Seq<char>>> {
    let old_set = if m.contains_key(nav) { m[nav] } else { Set::empty() };
    m.insert(nav, if collapsed { old_set.insert(section) } else { old_set.remove(section) })
}

/// The width `m` holds for `column`, if any.
pub open spec fn width_in(m: Map<Seq<char>, usize>, column: Seq<char>) -> Option<usize> {
    if m.contains_key(column) {
        Some(m[column])
    } else {
        None
    }
}

/// Index of the entry of `s` with key `key`, if any.
fn find_key<V>(s: &Vec<(String, V)>, key: &str) -> (r: Option<usize>)
    ensures
        match r {
            Some(i) => i < s@.len() && s@[i as int].0@ == key@,
            None => forall|i: int| 0 <= i < s@.len() ==> #[trigger] s@[i].0@ != key@,
        },
{
    let mut i: usize = 0;
    while i < s.len()
        invariant
            i <= s@.len(),
            forall|j: int| 0 <= j < i ==> #[trigger] s@[j].0@ != key@,
        decreases s@.len() - i,
    {
        if str_eq(s[i].0.as_str(), key) {
            return Some(i);
        }
        i = i + 1;
    }
    None
}

/// Index of `x` in `v`, if it is there.
fn find_string(v: &Vec<String>, x: &str) -> (r: Option<usize>)
    ensures
        match r {
            Some(i) => i < v@.len() && v@[i as int]@ == x@,
            None => forall|i: int| 0 <= i < v@.len() ==> #[trigger] v@[i]@ != x@,
        },
{
    let mut i: usize = 0;
    while i < v.len()
        invariant
            i <= v@.len(),
            forall|j: int| 0 <= j < i ==> #[trigger] v@[j]@ != x@,
        decreases v@.len() - i,
    {
        if str_eq(v[i].as_str(), x) {
            return Some(i);
        }
        i = i + 1;
    }
    None
}

proof fn lemma_string_set_contains(v: Seq<String>, x: Seq<char>)
    ensures
        string_set(v).contains(x) <==> exists|i: int| 0 <= i < v.len() && #[trigger] v[i]@ == x,
{
    if string_set(v).contains(x) {
        let i = choose|i: int| 0 <= i < string_views(v).len() && string_views(v)[i] == x;
        assert(v[i]@ == x);
    }
    if exists|i: int| 0 <= i < v.len() && #[trigger] v[i]@ == x {
        let i = choose|i: int| 0 <= i < v.len() && #[trigger] v[i]@ == x;
        assert(string_views(v)[i] == x);
    }
}

proof fn lemma_set_has(v: Seq<String>, j: int)
    requires
        0 <= j < v.len(),
    ensures
        string_set(v).contains(v[j]@),
{
    assert(string_views(v)[j] == v[j]@);
}

proof fn lemma_set_after_push(v: Seq<String>, x: String)
    ensures
        string_set(v.push(x)) == string_set(v).insert(x@),
{
    assert(string_views(v.push(x)) =~= string_views(v).push(x@));
    assert forall|y: Seq<char>| #[trigger] string_set(v.push(x)).contains(y) == string_set(v).insert(x@).contains(y) by {
        let w = string_views(v);
        if w.push(x@).contains(y) && y != x@ {
            let i = choose|i: int| 0 <= i < w.push(x@).len() && w.push(x@)[i] == y;
            assert(w[i] == y);
        }
        if w.contains(y) {
            let i = choose|i: int| 0 <= i < w.len() && w[i] == y;
            assert(w.push(x@)[i] == y);
        }
        if y == x@ {
            assert(w.push(x@)[w.len() as int] == y);
        }
    }
    assert(string_set(v.push(x)) =~= string_set(v).insert(x@));
}

proof fn lemma_set_after_remove(v: Seq<String>, j: int)
    requires
        0 <= j < v.len(),
        string_views(v).no_duplicates(),
    ensures
        string_set(v.remove(j)) == string_set(v).remove(v[j]@),
{
    let w = string_views(v);
    let r = string_views(v.remove(j));
    assert(r =~= w.remove(j));
    assert forall|y: Seq<char>| #[trigger] string_set(v.remove(j)).contains(y) == string_set(v).remove(v[j]@).contains(y) by {
        if r.contains(y) {
            let i = choose|i: int| 0 <= i < r.len() && r[i] == y;
            if i < j {
                assert(w[i] == y);
                assert(w[i] != w[j]);
            } else {
                assert(w[i + 1] == y);
                assert(w[i + 1] != w[j]);
            }
        }
        if w.contains(y) && y != v[j]@ {
            let i = choose|i: int| 0 <= i < w.len() && w[i] == y;
            if i < j {
                assert(r[i] == y);
            } else {
                assert(i != j);
                assert(r[i - 1] == y);
            }
        }
    }
    assert(string_set(v.remove(j)) =~= string_set(v).remove(v[j]@));
}

proof fn lemma_collapsed_map_push(s: Seq<(String, Vec<String>)>, e: (String, Vec<String>))
    ensures
        collapsed_map_of(s.push(e)) == collapsed_map_of(s).insert(e.0@, string_set(e.1@)),
{
    assert(s.push(e).drop_last() =~= s);
    assert(collapsed_map_of(s.push(e)) =~= collapsed_map_of(s).insert(e.0@, string_set(e.1@)));
}

proof fn lemma_collapsed_map_same(a: Seq<(String, Vec<String>)>, b: Seq<(String, Vec<String>)>)
    requires
        a.len() == b.len(),
        forall|i: int| 0 <= i < a.len() ==> #[trigger] a[i].0@ == b[i].0@ && a[i].1@ == b[i].1@,
    ensures
        collapsed_map_of(a) == collapsed_map_of(b),
    decreases a.len(),
{
    if a.len() > 0 {
        lemma_collapsed_map_same(a.drop_last(), b.drop_last());
        lemma_collapsed_map_push(a.drop_last(), a.last());
        lemma_collapsed_map_push(b.drop_last(), b.last());
        assert(a.drop_last().push(a.last()) =~= a);
        assert(b.drop_last().push(b.last()) =~= b);
    }
}

/// `v` without repeated strings, first occurrences kept.
fn dedup_strings(v: &Vec<String>) -> (r: Vec<String>)
    ensures
        string_set(r@) == string_set(v@),
        string_views(r@).no_duplicates(),
{
    let mut r: Vec<String> = Vec::new();
    let mut i: usize = 0;
    while i < v.len()
        invariant
            i <= v@.len(),
            string_set(r@) == string_set(v@.take(i as int)),
            string_views(r@).no_duplicates(),
        decreases v@.len() - i,
    {
        proof {
            assert(v@.take(i + 1) =~= v@.take(i as int).push(v@[i as int]));
            lemma_set_after_push(v@.take(i as int), v@[i as int]);
        }
        match find_string(&r, v[i].as_str()) {
            Some(j) => {
                proof {
                    lemma_set_has(r@, j as int);
                    assert(string_set(v@.take(i + 1)) =~= string_set(r@));
                }
            },
            None => {
                let ghost before = r@;
                r.push(v[i].clone());
                proof {
                    lemma_set_after_push(before, v@[i as int]);
                    assert(string_views(r@) =~= string_views(before).push(v@[i as int]@));
                    assert forall|a: int, b: int| 0 <= a < b < string_views(r@).len() implies
                        string_views(r@)[a] != string_views(r@)[b] by {
                        if b == before.len() {
                            assert(before[a]@ != v@[i as int]@);
                        } else {
                            assert(string_views(before)[a] != string_views(before)[b]);
                        }
                    }
                }
            },
        }
        i = i + 1;
    }
    assert(v@.take(v@.len() as int) =~= v@);
    r
}

/// Section-collapse and column-width state.
pub struct UiState {
    collapsed: Vec<(String, Vec<String>)>,
    widths: Vec<(String, usize)>,
}

impl UiState {
    /// The state's well-formedness: every key stored once, and no section
    /// stored twice under one key.
    pub closed spec fn wf(&self) -> bool {
        &&& keys_distinct(self.collapsed@)
        &&& keys_distinct(self.widths@)
        &&& forall|i: int| 0 <= i < self.collapsed@.len() ==> string_views((#[trigger] self.collapsed@[i]).1@).no_duplicates()
    }

    /// Per navigation entry, the set of collapsed section keys.
    pub closed spec fn collapsed_map(&self) -> Map<Seq<char>, Set<Seq<char>>> {
        collapsed_map_of(self.collapsed@)
    }

    /// Per column key, the resized width.
    pub closed spec fn width_map(&self) -> Map<Seq<char>, usize> {
        assoc(self.widths@)
    }

    /// A state with nothing collapsed and no widths.
    pub fn new() -> (s: UiState)
        ensures
            s.wf(),
            s.collapsed_map() == Map::<Seq<char>, Set<Seq<char>>>::empty(),
            s.width_map() == Map::<Seq<char>, usize>::empty(),
    {
        let s = UiState { collapsed: Vec::new(), widths: Vec::new() };
        assert(s.collapsed_map() =~= Map::<Seq<char>, Set<Seq<char>>>::empty());
        s
    }

    // ---- section collapse ---------------------------------------------

    /// Whether `section` is collapsed in the list `nav`.
    pub fn is_collapsed(&self, nav: &str, section: &str) -> (b: bool)
        requires
            self.wf(),
        ensures
            b == is_collapsed_in(self.collapsed_map(), nav@, section@),
    {
        match find_key(&self.collapsed, nav) {
            Some(i) => {
                proof {
                    lemma_assoc_lookup(self.collapsed@, i as int);
                    lemma_string_set_contains(self.collapsed@[i as int].1@, section@);
                }
                let found = find_string(&self.collapsed[i].1, section);
                found.is_some()
            },
            None => {
                proof {
                    lemma_assoc_absent(self.collapsed@, nav@);
                }
                false
            },
        }
    }

    /// Mark `section` of the list `nav` collapsed or expanded.
    pub fn set_collapsed(&mut self, nav: &str, section: &str, collapsed: bool)
        requires
            old(self).wf(),
        ensures
            final(self).wf(),
            final(self).collapsed_map() == collapsed_update(old(self).collapsed_map(), nav@, section@, collapsed),
            final(self).width_map() == old(self).width_map(),
    {
        let ghost m0 = self.collapsed_map();
        let idx = match find_key(&self.collapsed, nav) {
            Some(i) => {
                proof {
                    lemma_assoc_lookup(self.collapsed@, i as int);
                }
                i
            },
            None => {
                proof {
                    lemma_assoc_absent(self.collapsed@, nav@);
                }
                let ghost before = self.collapsed@;
                self.collapsed.push((String::from_str(nav), Vec::new()));
                proof {
                    assert(self.collapsed@.drop_last() =~= before);
                    assert(string_views(Seq::<String>::empty()).to_set() =~= Set::<Seq<char>>::empty());
                    assert(self.collapsed_map() =~= m0.insert(nav@, Set::empty()));
                    assert forall|a: int, b: int| 0 <= a < b < self.collapsed@.len() implies
                        #[trigger] self.collapsed@[a].0@ != #[trigger] self.collapsed@[b].0@ by {
                        if b == self.collapsed@.len() - 1 {
                            assert(before[a].0@ != nav@);
                        } else {
                            assert(before[a] == self.collapsed@[a] && before[b] == self.collapsed@[b]);
                        }
                    }
                    assert forall|i: int| 0 <= i < self.collapsed@.len() implies
                        string_views((#[trigger] self.collapsed@[i]).1@).no_duplicates() by {
                        if i < before.len() {
                            assert(before[i] == self.collapsed@[i]);
                        } else {
                            assert(string_views(self.collapsed@[i].1@) =~= Seq::empty());
                        }
                    }
                    lemma_assoc_lookup(self.collapsed@, self.collapsed@.len() - 1);
                }
                self.collapsed.len() - 1
            },
        };
        let ghost m1 = self.collapsed_map();
        let ghost c1 = self.collapsed@;
        let ghost old_set = if m0.contains_key(nav@) { m0[nav@] } else { Set::<Seq<char>>::empty() };
        assert(m1 == m0.insert(nav@, old_set)) by {
            if m0.contains_key(nav@) {
                assert(m1 =~= m0.insert(nav@, old_set));
            }
        }
        assert(c1[idx as int].0@ == nav@);
        assert(string_set(c1[idx as int].1@) == old_set) by {
            lemma_assoc_lookup(c1, idx as int);
        }
        let pos = find_string(&self.collapsed[idx].1, section);
        let ghost inner = c1[idx as int].1@;
        let ghost target = if collapsed { old_set.insert(section@) } else { old_set.remove(section@) };
        assert(string_views(inner).no_duplicates());
        let ghost mut expected = inner;
        if collapsed {
            if pos.is_none() {
                let added = String::from_str(section);
                proof {
                    expected = inner.push(added);
                }
                self.collapsed[idx].1.push(added);
            }
        } else {
            match pos {
                Some(j) => {
                    proof {
                        expected = inner.remove(j as int);
                    }
                    self.collapsed[idx].1.remove(j);
                },
                None => {},
            }
        }
        proof {
            let nv = self.collapsed@[idx as int].1;
            assert(nv@ == expected);
            assert(self.collapsed@ =~= c1.update(idx as int, (c1[idx as int].0, nv)));
            lemma_assoc_update(c1, idx as int, nv);
            lemma_string_set_contains(inner, section@);
            if collapsed {
                if pos.is_none() {
                    lemma_set_after_push(inner, nv@[inner.len() as int]);
                    assert(nv@ =~= inner.push(nv@[inner.len() as int]));
                } else {
                    let j = pos.unwrap();
                    lemma_set_has(inner, j as int);
                    assert(target =~= old_set);
                }
            } else {
                if pos.is_none() {
                    assert(target =~= old_set);
                } else {
                    let j = pos.unwrap();
                    lemma_set_after_remove(inner, j as int);
                }
            }
            assert(string_set(nv@) == target);
            assert(string_views(nv@).no_duplicates()) by {
                assert forall|a: int, b: int| 0 <= a < b < string_views(nv@).len() implies
                    string_views(nv@)[a] != string_views(nv@)[b] by {
                    if collapsed {
                        if pos.is_none() && b == inner.len() {
                            assert(inner[a]@ != section@);
                        } else {
                            assert(string_views(inner)[a] != string_views(inner)[b]);
                        }
                    } else if let Some(j) = pos {
                        let a2 = if a < j { a } else { a + 1 };
                        let b2 = if b < j { b } else { b + 1 };
                        assert(nv@[a] == inner[a2] && nv@[b] == inner[b2]);
                        assert(string_views(inner)[a2] != string_views(inner)[b2]);
                    } else {
                        assert(string_views(inner)[a] != string_views(inner)[b]);
                    }
                }
            }
            assert(self.collapsed_map() =~= m0.insert(nav@, target));
            assert forall|i: int| 0 <= i < self.collapsed@.len() implies
                string_views((#[trigger] self.collapsed@[i]).1@).no_duplicates() by {
                if i != idx {
                    assert(self.collapsed@[i] == c1[i]);
                }
            }
        }
    }

    /// Make `sections` the collapsed set of the list `nav`.
    fn put_sections(&mut self, nav: &str, sections: &Vec<String>)
        requires
            old(self).wf(),
        ensures
            final(self).wf(),
            final(self).collapsed_map() == old(self).collapsed_map().insert(nav@, string_set(sections@)),
            final(self).width_map() == old(self).width_map(),
    {
        let set = dedup_strings(sections);
        let ghost c0 = self.collapsed@;
        match find_key(&self.collapsed, nav) {
            Some(i) => {
                proof {
                    lemma_assoc_update(c0, i as int, set);
                }
                self.collapsed[i].1 = set;
                proof {
                    assert(self.collapsed@ =~= c0.update(i as int, (c0[i as int].0, set)));
                    assert(self.collapsed_map() =~= collapsed_map_of(c0).insert(nav@, string_set(sections@)));
                    assert forall|k: int| 0 <= k < self.collapsed@.len() implies
                        string_views((#[trigger] self.collapsed@[k]).1@).no_duplicates() by {
                        if k != i {
                            assert(self.collapsed@[k] == c0[k]);
                        }
                    }
                }
            },
            None => {
                let entry = (String::from_str(nav), set);
                proof {
                    lemma_collapsed_map_push(c0, entry);
                }
                self.collapsed.push(entry);
                proof {
                    assert forall|a: int, b: int| 0 <= a < b < self.collapsed@.len() implies
                        #[trigger] self.collapsed@[a].0@ != #[trigger] self.collapsed@[b].0@ by {
                        if b == c0.len() {
                            assert(c0[a].0@ != nav@);
                        } else {
                            assert(c0[a] == self.collapsed@[a] && c0[b] == self.collapsed@[b]);
                        }
                    }
                    assert forall|k: int| 0 <= k < self.collapsed@.len() implies
                        string_views((#[trigger] self.collapsed@[k]).1@).no_duplicates() by {
                        if k < c0.len() {
                            assert(self.collapsed@[k] == c0[k]);
                        }
                    }
                }
            },
        }
    }

    /// The state rebuilt from stored lists, as `to_parts` gives them out:
    /// per navigation key its collapsed section keys, per column key its width.
    /// A key that occurs twice takes its last entry.
    pub fn from_parts(collapsed: Vec<(String, Vec<String>)>, widths: Vec<(String, usize)>) -> (s: UiState)
        ensures
            s.wf(),
            s.collapsed_map() == collapsed_map_of(collapsed@),
            s.width_map() == assoc(widths@),
    {
        let mut s = UiState::new();
        let mut i: usize = 0;
        while i < collapsed.len()
            invariant
                i <= collapsed@.len(),
                s.wf(),
                s.collapsed_map() == collapsed_map_of(collapsed@.take(i as int)),
                s.width_map() == Map::<Seq<char>, usize>::empty(),
            decreases collapsed@.len() - i,
        {
            proof {
                assert(collapsed@.take(i + 1) =~= collapsed@.take(i as int).push(collapsed@[i as int]));
                lemma_collapsed_map_push(collapsed@.take(i as int), collapsed@[i as int]);
            }
            s.put_sections(collapsed[i].0.as_str(), &collapsed[i].1);
            i = i + 1;
        }
        assert(collapsed@.take(collapsed@.len() as int) =~= collapsed@);
        let mut j: usize = 0;
        while j < widths.len()
            invariant
                j <= widths@.len(),
                s.wf(),
                s.collapsed_map() == collapsed_map_of(collapsed@),
                s.width_map() == assoc(widths@.take(j as int)),
            decreases widths@.len() - j,
        {
            proof {
                assert(widths@.take(j + 1).drop_last() =~= widths@.take(j as int));
            }
            s.set_column_width(widths[j].0.as_str(), widths[j].1);
            j = j + 1;
        }
        assert(widths@.take(widths@.len() as int) =~= widths@);
        s
    }

    /// The state as plain lists, for storage: per navigation key its collapsed
    /// section keys, per column key its width.
    pub fn to_parts(&self) -> (r: (Vec<(String, Vec<String>)>, Vec<(String, usize)>))
        requires
            self.wf(),
        ensures
            collapsed_map_of(r.0@) == self.collapsed_map(),
            assoc(r.1@) == self.width_map(),
            keys_distinct(r.0@),
            keys_distinct(r.1@),
    {
        let mut c: Vec<(String, Vec<String>)> = Vec::new();
        let mut i: usize = 0;
        while i < self.collapsed.len()
            invariant
                i <= self.collapsed@.len(),
                c@.len() == i,
                forall|k: int| 0 <= k < i ==> #[trigger] c@[k].0@ == self.collapsed@[k].0@ && c@[k].1@ == self.collapsed@[k].1@,
            decreases self.collapsed@.len() - i,
        {
            c.push((self.collapsed[i].0.clone(), clone_strings(&self.collapsed[i].1)));
            i = i + 1;
        }
        let mut w: Vec<(String, usize)> = Vec::new();
        let mut j: usize = 0;
        while j < self.widths.len()
            invariant
                j <= self.widths@.len(),
                w@ == self.widths@.take(j as int),
            decreases self.widths@.len() - j,
        {
            w.push((self.widths[j].0.clone(), self.widths[j].1));
            j = j + 1;
            assert(w@ =~= self.widths@.take(j as int));
        }
        assert(w@ =~= self.widths@);
        proof {
            lemma_collapsed_map_same(c@, self.collapsed@);
            assert forall|a: int, b: int| 0 <= a < b < c@.len() implies
                #[trigger] c@[a].0@ != #[trigger] c@[b].0@ by {
                assert(self.collapsed@[a].0@ != self.collapsed@[b].0@);
            }
        }
        (c, w)
    }

    // ---- column widths ------------------------------------------------

    /// The resized width of a column, if it has one.
    pub fn column_width(&self, column: &str) -> (r: Option<usize>)
        requires
            self.wf(),
        ensures
            r == width_in(self.width_map(), column@),
    {
        match find_key(&self.widths, column) {
            Some(i) => {
                proof {
                    lemma_assoc_lookup(self.widths@, i as int);
                }
                Some(self.widths[i].1)
            },
            None => {
                proof {
                    lemma_assoc_absent(self.widths@, column@);
                }
                None
            },
        }
    }

    /// Remember a resized width for a column.
    pub fn set_column_width(&mut self, column: &str, width: usize)
        requires
            old(self).wf(),
        ensures
            final(self).wf(),
            final(self).width_map() == old(self).width_map().insert(column@, width),
            final(self).collapsed_map() == old(self).collapsed_map(),
    {
        match find_key(&self.widths, column) {
            Some(i) => {
                proof {
                    lemma_assoc_update(self.widths@, i as int, width);
                }
                let ghost before = self.widths@;
                self.widths[i].1 = width;
                assert(self.widths@ =~= before.update(i as int, (before[i as int].0, width)));
            },
            None => {
                proof {
                    lemma_assoc_absent(self.widths@, column@);
                }
                let ghost before = self.widths@;
                self.widths.push((String::from_str(column), width));
                proof {
                    assert(self.widths@.drop_last() =~= before);
                    assert forall|a: int, b: int| 0 <= a < b < self.widths@.len() implies
                        #[trigger] self.widths@[a].0@ != #[trigger] self.widths@[b].0@ by {
                        if b == self.widths@.len() - 1 {
                            assert(before[a].0@ != column@);
                        } else {
                            assert(before[a] == self.widths@[a] && before[b] == self.widths@[b]);
                        }
                    }
                }
            },
        }
    }
}

} // verus!
