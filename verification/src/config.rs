//! Named configuration entries: the table that a configuration manager holds
//! and that each user of a configuration keeps a copy of, how changes to it
//! are applied, and which changes are announced to the users.
use vstd::prelude::*;
use crate::network::str_eq;

verus! {

broadcast use vstd::string::group_string_axioms;

/// A kind of configuration that is held in named entries.
pub trait Config {

}

/// The most bytes that the name of an entry holds in UTF-8.
pub const NAME_CAPACITY: usize = 16;

/// Whether `name`, encoded in UTF-8, fits in the name of an entry.
pub open spec fn fits_in_name(name: Seq<char>) -> bool {
    vstd::utf8::encode_utf8(name).len() <= NAME_CAPACITY
}

/// Whether `name` can be the name of an entry: its UTF-8 encoding holds at
/// most `NAME_CAPACITY` bytes.
pub fn name_fits(name: &str) -> (r: bool)
    ensures
        r == fits_in_name(name@),
{
    name.as_bytes().len() <= NAME_CAPACITY
}

/// Whether every name of the table fits in the name of an entry.
pub open spec fn names_fit<C>(pairs: Seq<(String, C)>) -> bool {
    forall|i: int| 0 <= i < pairs.len() ==> fits_in_name(#[trigger] pairs[i].0@)
}

/// A table of configuration values by name; no name occurs twice, and each
/// fits in `NAME_CAPACITY` bytes.
pub struct ConfigEntries<C> {
    pairs: Vec<(String, C)>,
}

/// Whether no name occurs twice.
pub open spec fn names_distinct<C>(pairs: Seq<(String, C)>) -> bool {
    forall|i: int, j: int|
        0 <= i < pairs.len() && 0 <= j < pairs.len() && i != j ==> #[trigger] pairs[i].0@
            != #[trigger] pairs[j].0@
}

/// Whether `name` occurs in the table.
pub open spec fn has_name<C>(pairs: Seq<(String, C)>, name: Seq<char>) -> bool {
    exists|i: int| 0 <= i < pairs.len() && #[trigger] pairs[i].0@ == name
}

/// The entries as a map from name to value.
pub open spec fn pairs_map<C>(pairs: Seq<(String, C)>) -> Map<Seq<char>, C> {
    Map::new(
        |name: Seq<char>| has_name(pairs, name),
        |name: Seq<char>|
            pairs[choose|i: int| 0 <= i < pairs.len() && #[trigger] pairs[i].0@ == name].1,
    )
}

proof fn lemma_pairs_map_at<C>(pairs: Seq<(String, C)>, i: int)
    requires
        names_distinct(pairs),
        0 <= i < pairs.len(),
    ensures
        pairs_map(pairs).contains_key(pairs[i].0@),
        pairs_map(pairs)[pairs[i].0@] == pairs[i].1,
{
    let name = pairs[i].0@;
    assert(has_name(pairs, name));
    let j = choose|j: int| 0 <= j < pairs.len() && #[trigger] pairs[j].0@ == name;
    assert(j == i);
}

/// A table with distinct names has one entry per pair.
proof fn lemma_len_of<C>(pairs: Seq<(String, C)>)
    requires
        names_distinct(pairs),
    ensures
        pairs_map(pairs).dom().finite(),
        pairs_map(pairs).len() == pairs.len(),
{
    let f = |i: int| pairs[i].0@;
    let idx = Set::new(|i: int| 0 <= i < pairs.len());
    assert forall|k: Seq<char>| #[trigger] pairs_map(pairs).dom().contains(k) implies idx.map(f).contains(k) by {
        let i = choose|i: int| 0 <= i < pairs.len() && #[trigger] pairs[i].0@ == k;
        assert(idx.contains(i) && f(i) == k);
    }
    assert forall|k: Seq<char>| #[trigger] idx.map(f).contains(k) implies pairs_map(pairs).dom().contains(k) by {
        let i = choose|i: int| idx.contains(i) && f(i) == k;
        assert(pairs[i].0@ == k);
    }
    assert(pairs_map(pairs).dom() =~= idx.map(f));
    vstd::set_lib::lemma_int_range(0, pairs.len() as int);
    assert(idx =~= vstd::set_lib::set_int_range(0, pairs.len() as int));
    assert(vstd::relations::injective_on(f, idx)) by {
        assert forall|a: int, b: int| idx.contains(a) && idx.contains(b) && #[trigger] f(a) == #[trigger] f(b) implies a == b by {
            if a != b {
                assert(pairs[a].0@ != pairs[b].0@);
            }
        }
    }
    vstd::set_lib::lemma_map_size(idx, idx.map(f), f);
}

impl<C> View for ConfigEntries<C> {
    type V = Map<Seq<char>, C>;

    closed spec fn view(&self) -> Map<Seq<char>, C> {
        pairs_map(self.pairs@)
    }
}

impl<C> ConfigEntries<C> {
    /// No name occurs twice, and each fits in `NAME_CAPACITY` bytes.
    #[verifier::type_invariant]
    spec fn inv(&self) -> bool {
        names_distinct(self.pairs@) && names_fit(self.pairs@)
    }

    /// An empty table.
    pub fn new() -> (e: ConfigEntries<C>)
        ensures
            e@ == Map::<Seq<char>, C>::empty(),
    {
        let e = ConfigEntries { pairs: Vec::new() };
        assert(e@ =~= Map::<Seq<char>, C>::empty());
        e
    }

    /// The number of entries.
    pub fn len(&self) -> (n: usize)
        ensures
            n == self@.len(),
    {
        proof {
            use_type_invariant(self);
            lemma_len_of(self.pairs@);
        }
        self.pairs.len()
    }

    /// Where `name` stands, if it does.
    fn position(&self, name: &str) -> (r: Option<usize>)
        ensures
            r matches Some(i) ==> i < self.pairs@.len() && self.pairs@[i as int].0@ == name@,
            r is None ==> !has_name(self.pairs@, name@),
    {
        let mut i: usize = 0;
        while i < self.pairs.len()
            invariant
                i <= self.pairs@.len(),
                forall|j: int| 0 <= j < i ==> #[trigger] self.pairs@[j].0@ != name@,
            decreases self.pairs.len() - i,
        {
            if str_eq(self.pairs[i].0.as_str(), name) {
                return Some(i);
            }
            i = i + 1;
        }
        None
    }

    /// The value of the entry named `name`, if there is one.
    pub fn get(&self, name: &str) -> (r: Option<&C>)
        ensures
            r matches Some(v) ==> self@.contains_key(name@) && self@[name@] == *v,
            r is None ==> !self@.contains_key(name@),
    {
        proof {
            use_type_invariant(self);
        }
        match self.position(name) {
            Some(i) => {
                proof {
                    lemma_pairs_map_at(self.pairs@, i as int);
                }
                Some(&self.pairs[i].1)
            },
            None => None,
        }
    }

    /// Sets the entry named `name` to `value`, adding it if it is new.
    pub fn insert(&mut self, name: String, value: C)
        requires
            fits_in_name(name@),
        ensures
            final(self)@ == old(self)@.insert(name@, value),
    {
        proof {
            use_type_invariant(&*self);
        }
        let pos = self.position(name.as_str());
        let mut pairs: Vec<(String, C)> = Vec::new();
        std::mem::swap(&mut pairs, &mut self.pairs);
        let ghost old_pairs = pairs@;
        match pos {
            Some(i) => {
                pairs.set(i, (name, value));
                proof {
                    let pairs = pairs@;
                    assert(names_fit(pairs)) by {
                        assert forall|a: int| 0 <= a < pairs.len() implies fits_in_name(#[trigger] pairs[a].0@) by {
                            if a != i {
                                assert(fits_in_name(old_pairs[a].0@));
                            }
                        }
                    }
                    assert(names_distinct(pairs)) by {
                        assert forall|a: int, b: int|
                            0 <= a < pairs.len() && 0 <= b < pairs.len() && a != b implies #[trigger] pairs[a].0@
                            != #[trigger] pairs[b].0@ by {
                            assert(old_pairs[a].0@ != old_pairs[b].0@);
                        }
                    }
                    assert forall|k: Seq<char>| #[trigger] pairs_map(pairs).contains_key(k) == inserted_map_contains(old_pairs, name@, value, k) by {
                        if has_name(pairs, k) {
                            let j = choose|j: int| 0 <= j < pairs.len() && #[trigger] pairs[j].0@ == k;
                            if j != i {
                                assert(old_pairs[j].0@ == k);
                            }
                        }
                        if has_name(old_pairs, k) {
                            let j = choose|j: int| 0 <= j < old_pairs.len() && #[trigger] old_pairs[j].0@ == k;
                            assert(pairs[j].0@ == k);
                        }
                    }
                    assert forall|k: Seq<char>| #[trigger] pairs_map(pairs).contains_key(k) implies pairs_map(pairs)[k] == pairs_map(old_pairs).insert(name@, value)[k] by {
                        let j = choose|j: int| 0 <= j < pairs.len() && #[trigger] pairs[j].0@ == k;
                        lemma_pairs_map_at(pairs, j);
                        if j != i {
                            lemma_pairs_map_at(old_pairs, j);
                        }
                    }
                    assert(pairs_map(pairs) =~= pairs_map(old_pairs).insert(name@, value));
                }
            },
            None => {
                pairs.push((name, value));
                proof {
                    let pairs = pairs@;
                    let n = old_pairs.len() as int;
                    assert(names_fit(pairs)) by {
                        assert forall|a: int| 0 <= a < pairs.len() implies fits_in_name(#[trigger] pairs[a].0@) by {
                            if a != n {
                                assert(fits_in_name(old_pairs[a].0@));
                            }
                        }
                    }
                    assert(names_distinct(pairs)) by {
                        assert forall|a: int, b: int|
                            0 <= a < pairs.len() && 0 <= b < pairs.len() && a != b implies #[trigger] pairs[a].0@
                            != #[trigger] pairs[b].0@ by {
                            if a != n && b != n {
                                assert(old_pairs[a].0@ != old_pairs[b].0@);
                            } else if a == n {
                                assert(old_pairs[b].0@ == pairs[b].0@);
                            } else {
                                assert(old_pairs[a].0@ == pairs[a].0@);
                            }
                        }
                    }
                    assert forall|k: Seq<char>| #[trigger] pairs_map(pairs).contains_key(k) == inserted_map_contains(old_pairs, name@, value, k) by {
                        if has_name(pairs, k) {
                            let j = choose|j: int| 0 <= j < pairs.len() && #[trigger] pairs[j].0@ == k;
                            if j != n {
                                assert(old_pairs[j].0@ == k);
                            }
                        }
                        if has_name(old_pairs, k) {
                            let j = choose|j: int| 0 <= j < old_pairs.len() && #[trigger] old_pairs[j].0@ == k;
                            assert(pairs[j].0@ == k);
                        }
                        if k == name@ {
                            assert(pairs[n].0@ == k);
                        }
                    }
                    assert forall|k: Seq<char>| #[trigger] pairs_map(pairs).contains_key(k) implies pairs_map(pairs)[k] == pairs_map(old_pairs).insert(name@, value)[k] by {
                        let j = choose|j: int| 0 <= j < pairs.len() && #[trigger] pairs[j].0@ == k;
                        lemma_pairs_map_at(pairs, j);
                        if j != n {
                            lemma_pairs_map_at(old_pairs, j);
                        }
                    }
                    assert(pairs_map(pairs) =~= pairs_map(old_pairs).insert(name@, value));
                }
            },
        }
        self.pairs = pairs;
    }

    /// Removes the entry named `name`, if there is one.
    pub fn remove(&mut self, name: &str)
        ensures
            final(self)@ == old(self)@.remove(name@),
    {
        proof {
            use_type_invariant(&*self);
        }
        let pos = self.position(name);
        let mut pairs: Vec<(String, C)> = Vec::new();
        std::mem::swap(&mut pairs, &mut self.pairs);
        let ghost old_pairs = pairs@;
        match pos {
            Some(i) => {
                pairs.remove(i);
                proof {
                    let pairs = pairs@;
                    assert(forall|j: int| 0 <= j < i ==> pairs[j] == old_pairs[j]);
                    assert(forall|j: int| i <= j < pairs.len() ==> pairs[j] == old_pairs[j + 1]);
                    assert(names_fit(pairs)) by {
                        assert forall|a: int| 0 <= a < pairs.len() implies fits_in_name(#[trigger] pairs[a].0@) by {
                            let oa = if a < i { a } else { a + 1 };
                            assert(pairs[a] == old_pairs[oa]);
                            assert(fits_in_name(old_pairs[oa].0@));
                        }
                    }
                    assert(names_distinct(pairs)) by {
                        assert forall|a: int, b: int|
                            0 <= a < pairs.len() && 0 <= b < pairs.len() && a != b implies #[trigger] pairs[a].0@
                            != #[trigger] pairs[b].0@ by {
                            let oa = if a < i { a } else { a + 1 };
                            let ob = if b < i { b } else { b + 1 };
                            assert(pairs[a] == old_pairs[oa]);
                            assert(pairs[b] == old_pairs[ob]);
                            assert(old_pairs[oa].0@ != old_pairs[ob].0@);
                        }
                    }
                    assert forall|k: Seq<char>| #[trigger] pairs_map(pairs).contains_key(k) == (has_name(old_pairs, k) && k != name@) by {
                        if has_name(pairs, k) {
                            let j = choose|j: int| 0 <= j < pairs.len() && #[trigger] pairs[j].0@ == k;
                            let oj = if j < i { j } else { j + 1 };
                            assert(pairs[j] == old_pairs[oj]);
                            assert(old_pairs[oj].0@ == k);
                            assert(oj != i);
                            assert(old_pairs[i as int].0@ != old_pairs[oj].0@);
                        }
                        if has_name(old_pairs, k) && k != name@ {
                            let j = choose|j: int| 0 <= j < old_pairs.len() && #[trigger] old_pairs[j].0@ == k;
                            assert(j != i);
                            let nj = if j < i { j } else { j - 1 };
                            assert(pairs[nj] == old_pairs[j]);
                            assert(pairs[nj].0@ == k);
                        }
                    }
                    assert forall|k: Seq<char>| #[trigger] pairs_map(pairs).contains_key(k) implies pairs_map(pairs)[k] == pairs_map(old_pairs)[k] by {
                        let j = choose|j: int| 0 <= j < pairs.len() && #[trigger] pairs[j].0@ == k;
                        let oj = if j < i { j } else { j + 1 };
                        assert(pairs[j] == old_pairs[oj]);
                        lemma_pairs_map_at(pairs, j);
                        lemma_pairs_map_at(old_pairs, oj);
                    }
                    assert(pairs_map(pairs) =~= pairs_map(old_pairs).remove(name@));
                }
            },
            None => {
                assert(pairs_map(old_pairs) =~= pairs_map(old_pairs).remove(name@));
            },
        }
        self.pairs = pairs;
    }
}

/// Whether `k` is a name of the table after `name` is set in it.
pub open spec fn inserted_map_contains<C>(
    pairs: Seq<(String, C)>,
    name: Seq<char>,
    value: C,
    k: Seq<char>,
) -> bool {
    pairs_map(pairs).insert(name, value).contains_key(k)
}

/// Whether `b` holds the same names as `a`, each with a clone of its value.
pub open spec fn entries_cloned<C: Clone>(a: Map<Seq<char>, C>, b: Map<Seq<char>, C>) -> bool {
    &&& a.dom() == b.dom()
    &&& forall|k: Seq<char>| #[trigger] a.contains_key(k) ==> cloned(a[k], b[k])
}

/// What a table becomes when the entry `name` is set to a clone of the given
/// value, or removed when there is none.
pub open spec fn changed_entries<C: Clone>(
    before: Map<Seq<char>, C>,
    after: Map<Seq<char>, C>,
    name: Seq<char>,
    maybe_value: Option<C>,
) -> bool {
    match maybe_value {
        Some(v) => {
            &&& after.dom() == before.dom().insert(name)
            &&& cloned(v, after[name])
            &&& forall|k: Seq<char>| #[trigger] before.contains_key(k) && k != name ==> after[k] == before[k]
        },
        None => after == before.remove(name),
    }
}

/// Whether `changes` announces every entry of `entries` once: a pair for
/// each entry, with its name and a clone of its value, and nothing else.
pub open spec fn announces<C: Clone>(entries: Map<Seq<char>, C>, changes: Seq<(String, C)>) -> bool {
    &&& changes.len() == entries.len()
    &&& names_distinct(changes)
    &&& names_fit(changes)
    &&& forall|i: int|
        0 <= i < changes.len() ==> #[trigger] entries.contains_key(changes[i].0@) && cloned(
            entries[changes[i].0@],
            changes[i].1,
        )
    &&& forall|k: Seq<char>| #[trigger] entries.contains_key(k) ==> has_name(changes, k)
}

impl<C: Clone> ConfigEntries<C> {
    /// A table with the same names and clones of the values.
    pub fn cloned_entries(&self) -> (e: ConfigEntries<C>)
        ensures
            entries_cloned(self@, e@),
    {
        proof {
            use_type_invariant(self);
        }
        let mut pairs: Vec<(String, C)> = Vec::new();
        let mut i: usize = 0;
        while i < self.pairs.len()
            invariant
                names_distinct(self.pairs@),
                names_fit(self.pairs@),
                i <= self.pairs@.len(),
                pairs@.len() == i,
                forall|j: int| 0 <= j < i ==> #[trigger] pairs@[j].0@ == self.pairs@[j].0@,
                forall|j: int| 0 <= j < i ==> cloned(self.pairs@[j].1, #[trigger] pairs@[j].1),
            decreases self.pairs.len() - i,
        {
            let name = self.pairs[i].0.clone();
            let value = self.pairs[i].1.clone();
            pairs.push((name, value));
            i = i + 1;
        }
        let ghost b = pairs@;
        proof {
            let a = self.pairs@;
            assert(names_fit(b)) by {
                assert forall|x: int| 0 <= x < b.len() implies fits_in_name(#[trigger] b[x].0@) by {
                    assert(fits_in_name(a[x].0@));
                }
            }
            assert(names_distinct(b)) by {
                assert forall|x: int, y: int|
                    0 <= x < b.len() && 0 <= y < b.len() && x != y implies #[trigger] b[x].0@ != #[trigger] b[y].0@ by {
                    assert(a[x].0@ != a[y].0@);
                }
            }
        }
        let e = ConfigEntries { pairs };
        proof {
            let a = self.pairs@;
            assert forall|k: Seq<char>| #[trigger] self@.dom().contains(k) == e@.dom().contains(k) by {
                if has_name(a, k) {
                    let j = choose|j: int| 0 <= j < a.len() && #[trigger] a[j].0@ == k;
                    assert(b[j].0@ == k);
                }
                if has_name(b, k) {
                    let j = choose|j: int| 0 <= j < b.len() && #[trigger] b[j].0@ == k;
                    assert(a[j].0@ == k);
                }
            }
            assert(self@.dom() =~= e@.dom());
            assert forall|k: Seq<char>| #[trigger] self@.contains_key(k) implies cloned(self@[k], e@[k]) by {
                let j = choose|j: int| 0 <= j < a.len() && #[trigger] a[j].0@ == k;
                lemma_pairs_map_at(a, j);
                lemma_pairs_map_at(b, j);
            }
        }
        e
    }

    /// Sets the entry `name` to a clone of the value, or removes it when
    /// there is none.
    pub fn apply_change(&mut self, name: String, maybe_value: &Option<C>)
        requires
            fits_in_name(name@),
        ensures
            changed_entries(old(self)@, final(self)@, name@, *maybe_value),
    {
        match maybe_value {
            Some(value) => {
                let v = value.clone();
                let ghost key = name@;
                self.insert(name, v);
                assert(self@.dom() =~= old(self)@.dom().insert(key));
            },
            None => {
                self.remove(name.as_str());
            },
        }
    }

    /// The entries, each with a clone of its value.
    pub fn pairs(&self) -> (r: Vec<(String, C)>)
        ensures
            announces(self@, r@),
    {
        let e = self.cloned_entries();
        proof {
            use_type_invariant(self);
            use_type_invariant(&e);
            lemma_len_of(self.pairs@);
            lemma_len_of(e.pairs@);
            let b = e.pairs@;
            assert forall|i: int| 0 <= i < b.len() implies #[trigger] self@.contains_key(b[i].0@)
                && cloned(self@[b[i].0@], b[i].1) by {
                lemma_pairs_map_at(b, i);
            }
        }
        e.pairs
    }
}

/// Holds the current entries of a configuration and decides which changes
/// are announced to the users of the configuration.
pub struct ConfigManager<C> {
    entries: ConfigEntries<C>,
}

impl<C: Config + Clone> ConfigManager<C> {
    pub closed spec fn view(&self) -> Map<Seq<char>, C> {
        self.entries@
    }

    /// A manager holding clones of the initial entries.
    pub fn spawn(initial_entries: &ConfigEntries<C>) -> (m: ConfigManager<C>)
        ensures
            entries_cloned(initial_entries@, m.view()),
    {
        ConfigManager { entries: initial_entries.cloned_entries() }
    }

    /// The current entries.
    pub fn entries(&self) -> (e: &ConfigEntries<C>)
        ensures
            e@ == self.view(),
    {
        &self.entries
    }

    /// Sets the entry `name` to a clone of the value, or removes it.
    pub fn apply_entry_update(&mut self, name: String, maybe_value: &Option<C>)
        requires
            fits_in_name(name@),
        ensures
            changed_entries(old(self).view(), final(self).view(), name@, *maybe_value),
    {
        self.entries.apply_change(name, maybe_value);
    }

    /// Replaces all entries by clones of the given ones.
    pub fn replace_all_entries(&mut self, entries: &ConfigEntries<C>)
        ensures
            entries_cloned(entries@, final(self).view()),
    {
        self.entries = entries.cloned_entries();
    }

    /// The changes to send to a user that asks for the current entries: one
    /// for each entry, with a clone of its value.
    pub fn request_current(&self) -> (changes: Vec<(String, C)>)
        ensures
            announces(self.view(), changes@),
    {
        self.entries.pairs()
    }

    /// Applies a change to one entry and returns the change to announce to
    /// every user: the name with a clone of the value, or with none.
    pub fn update_entry(&mut self, name: String, maybe_value: &Option<C>) -> (announced: (String, Option<C>))
        requires
            fits_in_name(name@),
        ensures
            changed_entries(old(self).view(), final(self).view(), name@, *maybe_value),
            announced.0@ == name@,
            match *maybe_value {
                Some(v) => announced.1 matches Some(a) && cloned(v, a),
                None => announced.1 is None,
            },
    {
        let announced_value = match maybe_value {
            Some(value) => Some(value.clone()),
            None => None,
        };
        let announced_name = name.clone();
        self.apply_entry_update(name, maybe_value);
        (announced_name, announced_value)
    }

    /// Replaces all entries by clones of the given ones and returns the changes
    /// to announce to every user: one for each new entry. Entries that are
    /// not among the new ones are dropped without an announcement.
    pub fn update_all_entries(&mut self, entries: &ConfigEntries<C>) -> (announced: Vec<(String, C)>)
        ensures
            entries_cloned(entries@, final(self).view()),
            announces(final(self).view(), announced@),
    {
        self.replace_all_entries(entries);
        self.request_current()
    }
}

/// Watches a configuration file and decides when it is read.
pub struct ConfigFileWatcher {
    file: String,
    loaded_once: bool,
}

impl View for ConfigFileWatcher {
    /// The watched file and whether it has been read.
    type V = (Seq<char>, bool);

    closed spec fn view(&self) -> (Seq<char>, bool) {
        (self.file@, self.loaded_once)
    }
}

impl ConfigFileWatcher {
    /// A watcher of `file` that has not read it yet.
    pub fn spawn(file: &str) -> (w: ConfigFileWatcher)
        ensures
            w@ == (file@, false),
    {
        ConfigFileWatcher { file: String::from_str(file), loaded_once: false }
    }

    /// The file that is watched.
    pub fn file(&self) -> (f: &str)
        ensures
            f@ == self@.0,
    {
        self.file.as_str()
    }

    /// Whether the file has been read.
    pub fn loaded_once(&self) -> (b: bool)
        ensures
            b == self@.1,
    {
        self.loaded_once
    }

    /// Whether the file is to be read now: only the first time; from then on
    /// the watcher counts as loaded.
    pub fn load_if_needed(&mut self) -> (load: bool)
        ensures
            load == !old(self)@.1,
            final(self)@ == (old(self)@.0, true),
    {
        if self.loaded_once {
            return false;
        }
        self.loaded_once = true;
        true
    }
}

/// Setting an entry and then removing it leaves the table as it was without
/// that entry; removing an entry twice is the same as removing it once.
pub proof fn law_set_then_remove<C: Clone>(
    a: Map<Seq<char>, C>,
    b: Map<Seq<char>, C>,
    c: Map<Seq<char>, C>,
    name: Seq<char>,
    value: C,
)
    requires
        changed_entries(a, b, name, Some(value)),
        changed_entries(b, c, name, None),
    ensures
        c == a.remove(name),
        c.remove(name) == c,
{
    assert(c =~= a.remove(name));
    assert(c.remove(name) =~= c);
}

/// Setting an entry makes it present, with a clone of the value, and leaves
/// every other entry as it was.
pub proof fn law_set_entry_reads_back<C: Clone>(
    a: Map<Seq<char>, C>,
    b: Map<Seq<char>, C>,
    name: Seq<char>,
    value: C,
    other: Seq<char>,
)
    requires
        changed_entries(a, b, name, Some(value)),
        other != name,
    ensures
        b.contains_key(name),
        cloned(value, b[name]),
        b.contains_key(other) == a.contains_key(other),
        a.contains_key(other) ==> b[other] == a[other],
{
}

} // verus!
