//! An in-memory model of the device's non-volatile key-value store: 32-bit
//! words and strings, addressed by a namespace and a key. The hardware
//! store itself is an external collaborator reached through this same
//! get/set interface.

use vstd::prelude::*;
use crate::strutil::str_eq;

verus! {

/// The first entry of `s` whose namespace and key match, searched from
/// the front.
pub open spec fn lookup<V>(s: Seq<(String, String, V)>, ns: Seq<char>, key: Seq<char>) -> Option<
    V,
>
    decreases s.len(),
{
    if s.len() == 0 {
        None
    } else if s[0].0@ == ns && s[0].1@ == key {
        Some(s[0].2)
    } else {
        lookup(s.drop_first(), ns, key)
    }
}

/// A sequence none of whose entries match holds no binding.
proof fn lemma_lookup_none<V>(s: Seq<(String, String, V)>, ns: Seq<char>, key: Seq<char>)
    requires
        forall|j: int| 0 <= j < s.len() ==> !(s[j].0@ == ns && s[j].1@ == key),
    ensures
        lookup(s, ns, key) is None,
    decreases s.len(),
{
    if s.len() > 0 {
        lemma_lookup_none(s.drop_first(), ns, key);
    }
}

/// Replacing the first matching entry rebinds its key and leaves every
/// other binding alone.
proof fn lemma_lookup_update<V>(
    s: Seq<(String, String, V)>,
    i: int,
    e: (String, String, V),
    ns: Seq<char>,
    key: Seq<char>,
    n: Seq<char>,
    k: Seq<char>,
)
    requires
        0 <= i < s.len(),
        forall|j: int| 0 <= j < i ==> !(s[j].0@ == ns && s[j].1@ == key),
        s[i].0@ == ns && s[i].1@ == key,
        e.0@ == ns && e.1@ == key,
    ensures
        lookup(s.update(i, e), ns, key) == Some(e.2),
        !(n == ns && k == key) ==> lookup(s.update(i, e), n, k) == lookup(s, n, k),
    decreases s.len(),
{
    if i == 0 {
        assert(s.update(0, e).drop_first() =~= s.drop_first());
    } else {
        assert(s.update(i, e).drop_first() =~= s.drop_first().update(i - 1, e));
        lemma_lookup_update(s.drop_first(), i - 1, e, ns, key, n, k);
    }
}

/// Appending an entry binds its key only where no earlier entry already
/// does, and leaves every other binding alone.
proof fn lemma_lookup_push<V>(
    s: Seq<(String, String, V)>,
    e: (String, String, V),
    n: Seq<char>,
    k: Seq<char>,
)
    ensures
        lookup(s.push(e), n, k) == match lookup(s, n, k) {
            Some(v) => Some(v),
            None => if e.0@ == n && e.1@ == k {
                Some(e.2)
            } else {
                None
            },
        },
    decreases s.len(),
{
    if s.len() == 0 {
        assert(s.push(e)[0] == e);
        assert(s.push(e).drop_first() =~= Seq::<(String, String, V)>::empty());
    } else {
        assert(s.push(e).drop_first() =~= s.drop_first().push(e));
        lemma_lookup_push(s.drop_first(), e, n, k);
    }
}

/// The typed key-value store the engine and the effects persist into.
pub struct SettingsStore {
    words: Vec<(String, String, u32)>,
    texts: Vec<(String, String, String)>,
}

impl SettingsStore {
    /// The word entries, oldest first.
    pub closed spec fn words(self) -> Seq<(String, String, u32)> {
        self.words@
    }

    /// The string entries, oldest first.
    pub closed spec fn texts(self) -> Seq<(String, String, String)> {
        self.texts@
    }

    /// The word stored under a namespace and key.
    pub open spec fn word_at(self, ns: Seq<char>, key: Seq<char>) -> Option<u32> {
        lookup(self.words(), ns, key)
    }

    /// The string stored under a namespace and key.
    pub open spec fn text_at(self, ns: Seq<char>, key: Seq<char>) -> Option<String> {
        lookup(self.texts(), ns, key)
    }

    /// An empty store: no binding under any key.
    pub fn new() -> (s: Self)
        ensures
            s.words() == Seq::<(String, String, u32)>::empty(),
            s.texts() == Seq::<(String, String, String)>::empty(),
            forall|n: Seq<char>, k: Seq<char>| s.word_at(n, k) is None && s.text_at(n, k) is None,
    {
        let s = SettingsStore { words: Vec::new(), texts: Vec::new() };
        s
    }

    /// Index of the first matching entry, scanning from the front.
    fn find_word(&self, ns: &str, key: &str) -> (r: Option<usize>)
        ensures
            match r {
                Some(i) => i < self.words().len() && self.words()[i as int].0@ == ns@
                    && self.words()[i as int].1@ == key@ && forall|j: int|
                    0 <= j < i ==> !(self.words()[j].0@ == ns@ && self.words()[j].1@ == key@),
                None => forall|j: int|
                    0 <= j < self.words().len() ==> !(self.words()[j].0@ == ns@
                        && self.words()[j].1@ == key@),
            },
    {
        let mut i: usize = 0;
        while i < self.words.len()
            invariant
                i <= self.words@.len(),
                forall|j: int| 0 <= j < i ==> !(self.words@[j].0@ == ns@ && self.words@[j].1@ == key@),
            decreases self.words@.len() - i,
        {
            let e = &self.words[i];
            if str_eq(e.0.as_str(), ns) && str_eq(e.1.as_str(), key) {
                return Some(i);
            }
            i = i + 1;
        }
        None
    }

    /// Index of the first matching text entry, scanning from the front.
    fn find_text(&self, ns: &str, key: &str) -> (r: Option<usize>)
        ensures
            match r {
                Some(i) => i < self.texts().len() && self.texts()[i as int].0@ == ns@
                    && self.texts()[i as int].1@ == key@ && forall|j: int|
                    0 <= j < i ==> !(self.texts()[j].0@ == ns@ && self.texts()[j].1@ == key@),
                None => forall|j: int|
                    0 <= j < self.texts().len() ==> !(self.texts()[j].0@ == ns@
                        && self.texts()[j].1@ == key@),
            },
    {
        let mut i: usize = 0;
        while i < self.texts.len()
            invariant
                i <= self.texts@.len(),
                forall|j: int| 0 <= j < i ==> !(self.texts@[j].0@ == ns@ && self.texts@[j].1@ == key@),
            decreases self.texts@.len() - i,
        {
            let e = &self.texts[i];
            if str_eq(e.0.as_str(), ns) && str_eq(e.1.as_str(), key) {
                return Some(i);
            }
            i = i + 1;
        }
        None
    }

    /// The word under `ns`/`key`, if one was stored.
    pub fn get_u32(&self, ns: &str, key: &str) -> (r: Option<u32>)
        ensures
            r == self.word_at(ns@, key@),
    {
        match self.find_word(ns, key) {
            Some(i) => {
                proof {
                    lemma_lookup_found(self.words(), i as int, ns@, key@);
                }
                Some(self.words[i].2)
            },
            None => {
                proof {
                    lemma_lookup_none(self.words(), ns@, key@);
                }
                None
            },
        }
    }

    /// Stores a word under `ns`/`key`, replacing any previous one; every
    /// other binding is untouched.
    pub fn set_u32(&mut self, ns: &str, key: &str, value: u32)
        ensures
            final(self).word_at(ns@, key@) == Some(value),
            forall|n: Seq<char>, k: Seq<char>|
                !(n == ns@ && k == key@) ==> final(self).word_at(n, k) == old(self).word_at(n, k),
            final(self).texts() == old(self).texts(),
    {
        let entry = (ns.to_owned(), key.to_owned(), value);
        match self.find_word(ns, key) {
            Some(i) => {
                let ghost olds = self.words@;
                let _replaced = self.words.remove(i);
                self.words.insert(i, entry);
                proof {
                    assert(self.words@ =~= olds.update(i as int, self.words@[i as int]));
                    assert forall|n: Seq<char>, k: Seq<char>|
                        !(n == ns@ && k == key@) implies lookup(self.words@, n, k) == lookup(
                        olds,
                        n,
                        k,
                    ) by {
                        lemma_lookup_update(
                            olds,
                            i as int,
                            self.words@[i as int],
                            ns@,
                            key@,
                            n,
                            k,
                        );
                    }
                    lemma_lookup_update(olds, i as int, self.words@[i as int], ns@, key@, ns@, key@);
                }
            },
            None => {
                let ghost olds = self.words@;
                proof {
                    lemma_lookup_none(olds, ns@, key@);
                }
                self.words.push(entry);
                proof {
                    assert forall|n: Seq<char>, k: Seq<char>|
                        !(n == ns@ && k == key@) implies lookup(self.words@, n, k) == lookup(
                        olds,
                        n,
                        k,
                    ) by {
                        lemma_lookup_push(olds, self.words@.last(), n, k);
                    }
                    lemma_lookup_push(olds, self.words@.last(), ns@, key@);
                }
            },
        }
    }

    /// The string under `ns`/`key`, if one was stored.
    pub fn get_str(&self, ns: &str, key: &str) -> (r: Option<String>)
        ensures
            r == self.text_at(ns@, key@),
    {
        match self.find_text(ns, key) {
            Some(i) => {
                proof {
                    lemma_lookup_found(self.texts(), i as int, ns@, key@);
                }
                Some(self.texts[i].2.clone())
            },
            None => {
                proof {
                    lemma_lookup_none(self.texts(), ns@, key@);
                }
                None
            },
        }
    }

    /// The string under `ns`/`key`, or empty if none was stored.
    pub fn get_str_or_default(&self, ns: &str, key: &str) -> (r: String)
        ensures
            match self.text_at(ns@, key@) {
                Some(s) => r@ == s@,
                None => r@ == Seq::<char>::empty(),
            },
    {
        match self.get_str(ns, key) {
            Some(s) => s,
            None => String::new(),
        }
    }

    /// Stores a string under `ns`/`key`, replacing any previous one; every
    /// other binding is untouched.
    pub fn set_str(&mut self, ns: &str, key: &str, value: &str)
        ensures
            match final(self).text_at(ns@, key@) {
                Some(s) => s@ == value@,
                None => false,
            },
            forall|n: Seq<char>, k: Seq<char>|
                !(n == ns@ && k == key@) ==> final(self).text_at(n, k) == old(self).text_at(n, k),
            final(self).words() == old(self).words(),
    {
        let entry = (ns.to_owned(), key.to_owned(), value.to_owned());
        match self.find_text(ns, key) {
            Some(i) => {
                let ghost olds = self.texts@;
                let _replaced = self.texts.remove(i);
                self.texts.insert(i, entry);
                proof {
                    assert(self.texts@ =~= olds.update(i as int, self.texts@[i as int]));
                    assert forall|n: Seq<char>, k: Seq<char>|
                        !(n == ns@ && k == key@) implies lookup(self.texts@, n, k) == lookup(
                        olds,
                        n,
                        k,
                    ) by {
                        lemma_lookup_update(
                            olds,
                            i as int,
                            self.texts@[i as int],
                            ns@,
                            key@,
                            n,
                            k,
                        );
                    }
                    lemma_lookup_update(olds, i as int, self.texts@[i as int], ns@, key@, ns@, key@);
                }
            },
            None => {
                let ghost olds = self.texts@;
                proof {
                    lemma_lookup_none(olds, ns@, key@);
                }
                self.texts.push(entry);
                proof {
                    assert forall|n: Seq<char>, k: Seq<char>|
                        !(n == ns@ && k == key@) implies lookup(self.texts@, n, k) == lookup(
                        olds,
                        n,
                        k,
                    ) by {
                        lemma_lookup_push(olds, self.texts@.last(), n, k);
                    }
                    lemma_lookup_push(olds, self.texts@.last(), ns@, key@);
                }
            },
        }
    }
}

/// A first match at `i` is what the scan from the front returns.
proof fn lemma_lookup_found<V>(s: Seq<(String, String, V)>, i: int, ns: Seq<char>, key: Seq<char>)
    requires
        0 <= i < s.len(),
        forall|j: int| 0 <= j < i ==> !(s[j].0@ == ns && s[j].1@ == key),
        s[i].0@ == ns && s[i].1@ == key,
    ensures
        lookup(s, ns, key) == Some(s[i].2),
    decreases i,
{
    if i > 0 {
        lemma_lookup_found(s.drop_first(), i - 1, ns, key);
    }
}

} // verus!
