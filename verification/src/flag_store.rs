//! Flag values per command path, and the generic "first match" lookup the
//! library's searches are stated with.

use vstd::prelude::*;

use crate::text::str_eq;
use crate::values::{same_value, FlagValue};

verus! {

/// The flag settings of one command level, in flag order.
pub type FlagSettings = Vec<(String, FlagValue)>;

/// Flag values keyed by command path (the path's names joined by spaces;
/// the empty key is the root command).
#[derive(Debug)]
pub struct FlagStore {
    pub levels: Vec<(String, FlagSettings)>,
}

/// The first position of a level stored under `key`.
#[verifier::opaque]
pub open spec fn level_index(levels: Seq<(String, FlagSettings)>, key: Seq<char>) -> Option<int> {
    if exists|i: int| 0 <= i < levels.len() && #[trigger] levels[i].0@ == key {
        Some(
            choose|i: int|
                0 <= i < levels.len() && levels[i].0@ == key && forall|j: int|
                    0 <= j < i ==> #[trigger] levels[j].0@ != key,
        )
    } else {
        None
    }
}

/// The settings stored under `key`, if any.
pub open spec fn store_get(levels: Seq<(String, FlagSettings)>, key: Seq<char>) -> Option<
    Seq<(String, FlagValue)>,
> {
    match level_index(levels, key) {
        Some(i) => Some(levels[i].1@),
        None => None,
    }
}

/// `level_index` is the least position with that key.
pub proof fn lemma_level_index_is(levels: Seq<(String, FlagSettings)>, key: Seq<char>, i: int)
    requires
        0 <= i < levels.len(),
        levels[i].0@ == key,
        forall|j: int| 0 <= j < i ==> #[trigger] levels[j].0@ != key,
    ensures
        level_index(levels, key) == Some(i),
{
    reveal(level_index);
    let c = choose|k: int|
        0 <= k < levels.len() && levels[k].0@ == key && forall|j: int|
            0 <= j < k ==> #[trigger] levels[j].0@ != key;
    if c < i {
        assert(levels[c].0@ != key);
    }
    if c > i {
        assert(levels[i].0@ != key);
    }
}

/// `level_index` is absent when no level has that key.
pub proof fn lemma_level_index_none(levels: Seq<(String, FlagSettings)>, key: Seq<char>)
    requires
        forall|j: int| 0 <= j < levels.len() ==> #[trigger] levels[j].0@ != key,
    ensures
        level_index(levels, key) == None::<int>,
{
    reveal(level_index);
}

/// What `level_index` says of the positions before and at its answer.
pub proof fn lemma_level_index_props(levels: Seq<(String, FlagSettings)>, key: Seq<char>)
    ensures
        match level_index(levels, key) {
            Some(i) => 0 <= i < levels.len() && levels[i].0@ == key && forall|j: int|
                0 <= j < i ==> #[trigger] levels[j].0@ != key,
            None => forall|j: int| 0 <= j < levels.len() ==> #[trigger] levels[j].0@ != key,
        },
{
    reveal(level_index);
    if exists|i: int| 0 <= i < levels.len() && #[trigger] levels[i].0@ == key {
        let i = choose|i: int| 0 <= i < levels.len() && #[trigger] levels[i].0@ == key;
        lemma_least_level(levels, key, i);
    }
}

proof fn lemma_least_level(levels: Seq<(String, FlagSettings)>, key: Seq<char>, i: int)
    requires
        0 <= i < levels.len(),
        levels[i].0@ == key,
    ensures
        exists|m: int|
            0 <= m < levels.len() && levels[m].0@ == key && forall|j: int|
                0 <= j < m ==> #[trigger] levels[j].0@ != key,
    decreases i,
{
    if exists|j: int| 0 <= j < i && #[trigger] levels[j].0@ == key {
        let j = choose|j: int| 0 <= j < i && #[trigger] levels[j].0@ == key;
        lemma_least_level(levels, key, j);
    } else {
        assert(forall|j: int| 0 <= j < i ==> #[trigger] levels[j].0@ != key);
    }
}

proof fn lemma_least_setting(t: Seq<(String, FlagValue)>, n: Seq<char>, i: int)
    requires
        0 <= i < t.len(),
        t[i].0@ == n,
    ensures
        exists|m: int|
            0 <= m < t.len() && t[m].0@ == n && forall|j: int| 0 <= j < m ==> #[trigger] t[j].0@ != n,
    decreases i,
{
    if exists|j: int| 0 <= j < i && #[trigger] t[j].0@ == n {
        let j = choose|j: int| 0 <= j < i && #[trigger] t[j].0@ == n;
        lemma_least_setting(t, n, j);
    } else {
        assert(forall|j: int| 0 <= j < i ==> #[trigger] t[j].0@ != n);
    }
}

/// The first position of the setting for the flag named `n`.
#[verifier::opaque]
pub open spec fn setting_index(t: Seq<(String, FlagValue)>, n: Seq<char>) -> Option<int> {
    if exists|i: int| 0 <= i < t.len() && #[trigger] t[i].0@ == n {
        Some(
            choose|i: int|
                0 <= i < t.len() && t[i].0@ == n && forall|j: int|
                    0 <= j < i ==> #[trigger] t[j].0@ != n,
        )
    } else {
        None
    }
}

/// What `setting_index` says of the positions before and at its answer.
pub proof fn lemma_setting_index_props(t: Seq<(String, FlagValue)>, n: Seq<char>)
    ensures
        match setting_index(t, n) {
            Some(i) => 0 <= i < t.len() && t[i].0@ == n && forall|j: int|
                0 <= j < i ==> #[trigger] t[j].0@ != n,
            None => forall|j: int| 0 <= j < t.len() ==> #[trigger] t[j].0@ != n,
        },
{
    reveal(setting_index);
    if exists|i: int| 0 <= i < t.len() && #[trigger] t[i].0@ == n {
        let i = choose|i: int| 0 <= i < t.len() && #[trigger] t[i].0@ == n;
        lemma_least_setting(t, n, i);
    }
}

/// `setting_index` is the least position with that name.
pub proof fn lemma_setting_index_is(t: Seq<(String, FlagValue)>, n: Seq<char>, i: int)
    requires
        0 <= i < t.len(),
        t[i].0@ == n,
        forall|j: int| 0 <= j < i ==> #[trigger] t[j].0@ != n,
    ensures
        setting_index(t, n) == Some(i),
{
    reveal(setting_index);
    let c = choose|k: int|
        0 <= k < t.len() && t[k].0@ == n && forall|j: int| 0 <= j < k ==> #[trigger] t[j].0@ != n;
    if c < i {
        assert(t[c].0@ != n);
    }
    if c > i {
        assert(t[i].0@ != n);
    }
}

/// `s` is `t` with the first setting named `n` (if any) given the value `v`.
pub open spec fn settings_with(
    t: Seq<(String, FlagValue)>,
    s: Seq<(String, FlagValue)>,
    n: Seq<char>,
    v: FlagValue,
) -> bool {
    &&& s.len() == t.len()
    &&& match setting_index(t, n) {
        Some(i) => {
            &&& s[i].0@ == n
            &&& same_value(s[i].1, v)
            &&& forall|j: int| 0 <= j < t.len() && j != i ==> #[trigger] s[j] == t[j]
        },
        None => s == t,
    }
}

impl FlagStore {
    /// An empty store.
    pub fn new() -> (r: FlagStore)
        ensures
            r.levels@.len() == 0,
    {
        FlagStore { levels: Vec::new() }
    }

    /// Position of the level stored under `key`.
    pub fn position(&self, key: &str) -> (r: Option<usize>)
        ensures
            r is Some <==> level_index(self.levels@, key@) is Some,
            r matches Some(i) ==> i as int == level_index(self.levels@, key@)->0 && i
                < self.levels@.len(),
    {
        let mut i: usize = 0;
        while i < self.levels.len()
            invariant
                i <= self.levels.len(),
                forall|j: int| 0 <= j < i ==> #[trigger] self.levels@[j].0@ != key@,
            decreases self.levels.len() - i,
        {
            if str_eq(self.levels[i].0.as_str(), key) {
                proof {
                    lemma_level_index_is(self.levels@, key@, i as int);
                }
                return Some(i);
            }
            i = i + 1;
        }
        proof {
            lemma_level_index_none(self.levels@, key@);
        }
        None
    }

    /// The settings stored under `key`.
    pub fn get(&self, key: &str) -> (r: Option<&FlagSettings>)
        ensures
            r is Some <==> store_get(self.levels@, key@) is Some,
            r matches Some(v) ==> v@ == store_get(self.levels@, key@)->0,
    {
        match self.position(key) {
            Some(i) => Some(&self.levels[i].1),
            None => None,
        }
    }

    /// Whether settings are stored under `key`.
    pub fn contains_key(&self, key: &str) -> (r: bool)
        ensures
            r == (store_get(self.levels@, key@) is Some),
    {
        self.position(key).is_some()
    }

    /// Store `settings` under `key`, replacing what was there.
    pub fn insert(&mut self, key: String, settings: FlagSettings)
        ensures
            store_get(final(self).levels@, key@) == Some(settings@),
            forall|k: Seq<char>|
                k != key@ ==> store_get(final(self).levels@, k) == store_get(old(self).levels@, k),
    {
        let ghost k0 = key@;
        match self.position(key.as_str()) {
            Some(i) => {
                let ghost old_levels = self.levels@;
                proof {
                    lemma_level_index_props(old_levels, k0);
                }
                self.levels.set(i, (key, settings));
                proof {
                    assert(forall|j: int| 0 <= j < i ==> #[trigger] self.levels@[j] == old_levels[j]);
                    lemma_level_index_is(self.levels@, k0, i as int);
                    assert forall|k: Seq<char>| k != k0 implies store_get(self.levels@, k)
                        == store_get(old_levels, k) by {
                        lemma_same_lookup_after_set(old_levels, self.levels@, i as int, k);
                    }
                }
            },
            None => {
                let ghost old_levels = self.levels@;
                self.levels.push((key, settings));
                proof {
                    let n = old_levels.len() as int;
                    assert(forall|j: int| 0 <= j < n ==> #[trigger] self.levels@[j] == old_levels[j]);
                    lemma_level_index_props(old_levels, k0);
                    lemma_level_index_is(self.levels@, k0, n);
                    assert forall|k: Seq<char>| k != k0 implies store_get(self.levels@, k)
                        == store_get(old_levels, k) by {
                        lemma_same_lookup_after_push(old_levels, self.levels@, k);
                    }
                }
            },
        }
    }
}

proof fn lemma_same_lookup_after_set(
    a: Seq<(String, FlagSettings)>,
    b: Seq<(String, FlagSettings)>,
    i: int,
    k: Seq<char>,
)
    requires
        a.len() == b.len(),
        0 <= i < a.len(),
        a[i].0@ != k,
        b[i].0@ != k,
        forall|j: int| 0 <= j < a.len() && j != i ==> #[trigger] a[j] == b[j],
    ensures
        store_get(b, k) == store_get(a, k),
{
    lemma_level_index_props(a, k);
    match level_index(a, k) {
        Some(m) => {
            assert(m != i);
            assert(a[m] == b[m]);
            assert forall|j: int| 0 <= j < m implies #[trigger] b[j].0@ != k by {
                assert(a[j].0@ != k);
                if j != i {
                    assert(a[j] == b[j]);
                }
            }
            lemma_level_index_is(b, k, m);
        },
        None => {
            assert forall|j: int| 0 <= j < b.len() implies #[trigger] b[j].0@ != k by {
                if j != i {
                    assert(a[j] == b[j]);
                    if b[j].0@ == k {
                        assert(a[j].0@ == k);
                    }
                }
            }
            lemma_level_index_none(b, k);
        },
    }
}

proof fn lemma_same_lookup_after_push(
    a: Seq<(String, FlagSettings)>,
    b: Seq<(String, FlagSettings)>,
    k: Seq<char>,
)
    requires
        b.len() == a.len() + 1,
        b[a.len() as int].0@ != k,
        forall|j: int| 0 <= j < a.len() ==> #[trigger] a[j] == b[j],
    ensures
        store_get(b, k) == store_get(a, k),
{
    lemma_level_index_props(a, k);
    match level_index(a, k) {
        Some(m) => {
            assert(a[m] == b[m]);
            assert forall|j: int| 0 <= j < m implies #[trigger] b[j].0@ != k by {
                assert(a[j] == b[j]);
                assert(a[j].0@ != k);
            }
            lemma_level_index_is(b, k, m);
        },
        None => {
            assert forall|j: int| 0 <= j < b.len() implies #[trigger] b[j].0@ != k by {
                if j < a.len() {
                    assert(a[j] == b[j]);
                    if b[j].0@ == k {
                        assert(a[j].0@ == k);
                    }
                }
            }
            lemma_level_index_none(b, k);
        },
    }
}

/// Two stores hold the same keys in the same order.
pub open spec fn same_keys(a: Seq<(String, FlagSettings)>, b: Seq<(String, FlagSettings)>) -> bool {
    a.len() == b.len() && forall|i: int| 0 <= i < a.len() ==> #[trigger] a[i].0@ == b[i].0@
}

/// Stores with the same keys find a key at the same level.
pub proof fn lemma_level_index_same_keys(
    a: Seq<(String, FlagSettings)>,
    b: Seq<(String, FlagSettings)>,
    key: Seq<char>,
)
    requires
        same_keys(a, b),
    ensures
        level_index(a, key) == level_index(b, key),
{
    lemma_level_index_props(a, key);
    lemma_level_index_props(b, key);
    match level_index(a, key) {
        Some(i) => {
            assert(b[i].0@ == key);
            assert forall|j: int| 0 <= j < i implies #[trigger] b[j].0@ != key by {
                assert(a[j].0@ != key);
            }
            lemma_level_index_is(b, key, i);
        },
        None => {
            assert forall|j: int| 0 <= j < b.len() implies #[trigger] b[j].0@ != key by {
                assert(a[j].0@ != key);
            }
            lemma_level_index_none(b, key);
        },
    }
}

/// A copy of a level's settings.
pub fn copy_settings(t: &FlagSettings) -> (r: FlagSettings)
    ensures
        r@ == t@,
{
    let mut r: FlagSettings = Vec::new();
    let mut i: usize = 0;
    while i < t.len()
        invariant
            i <= t@.len(),
            r@ == t@.subrange(0, i as int),
        decreases t@.len() - i,
    {
        let name = t[i].0.clone();
        let value = t[i].1.copy_value();
        r.push((name, value));
        assert(t@.subrange(0, i + 1) =~= t@.subrange(0, i as int).push(t@[i as int]));
        i = i + 1;
    }
    assert(t@.subrange(0, t@.len() as int) =~= t@);
    r
}

impl FlagStore {
    /// Give the first setting named `name` the value `v` on every level.
    pub fn set_on_all_levels(&mut self, name: &str, v: &FlagValue)
        ensures
            same_keys(old(self).levels@, final(self).levels@),
            forall|i: int|
                0 <= i < old(self).levels@.len() ==> settings_with(
                    old(self).levels@[i].1@,
                    #[trigger] final(self).levels@[i].1@,
                    name@,
                    *v,
                ),
    {
        let mut i: usize = 0;
        while i < self.levels.len()
            invariant
                i <= self.levels@.len(),
                self.levels@.len() == old(self).levels@.len(),
                same_keys(old(self).levels@, self.levels@),
                forall|j: int|
                    0 <= j < i ==> settings_with(
                        old(self).levels@[j].1@,
                        #[trigger] self.levels@[j].1@,
                        name@,
                        *v,
                    ),
                forall|j: int| i <= j < self.levels@.len() ==> #[trigger] self.levels@[j] == old(self).levels@[j],
            decreases self.levels@.len() - i,
        {
            let key = self.levels[i].0.clone();
            let mut s = copy_settings(&self.levels[i].1);
            set_named(&mut s, name, v);
            let ghost before = self.levels@;
            self.levels.set(i, (key, s));
            assert forall|j: int| 0 <= j < self.levels@.len() && j != i implies #[trigger] self.levels@[j] == before[j] by {}
            i = i + 1;
        }
    }
}

/// Position of the setting for the flag named `name`.
pub fn setting_position(settings: &FlagSettings, name: &str) -> (r: Option<usize>)
    ensures
        r is Some <==> setting_index(settings@, name@) is Some,
        r matches Some(i) ==> i as int == setting_index(settings@, name@)->0 && i
            < settings@.len(),
{
    let mut i: usize = 0;
    while i < settings.len()
        invariant
            i <= settings.len(),
            forall|j: int| 0 <= j < i ==> #[trigger] settings@[j].0@ != name@,
        decreases settings.len() - i,
    {
        if str_eq(settings[i].0.as_str(), name) {
            proof {
                lemma_setting_index_is(settings@, name@, i as int);
            }
            return Some(i);
        }
        i = i + 1;
    }
    proof {
        reveal(setting_index);
    }
    None
}

/// Give the first setting named `name` the value `v` (nothing changes when there is none).
pub fn set_named(settings: &mut FlagSettings, name: &str, v: &FlagValue)
    ensures
        settings_with(old(settings)@, final(settings)@, name@, *v),
{
    match setting_position(settings, name) {
        Some(i) => {
            let n = string_of_setting(&settings[i].0);
            let ghost t = settings@;
            settings.set(i, (n, v.copy_value()));
            assert(same_value(*v, *v)) by {
                lemma_same_value_refl(*v);
            }
            proof {
                lemma_setting_index_props(t, name@);
            }
        },
        None => {},
    }
}

/// Every value is the same value as itself.
pub proof fn lemma_same_value_refl(v: FlagValue)
    ensures
        same_value(v, v),
{
}

fn string_of_setting(s: &String) -> (r: String)
    ensures
        r@ == s@,
{
    crate::text::string_of(s.as_str())
}

} // verus!
