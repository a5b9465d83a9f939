//! Results of host calls, and the registries that map generated
//! identifiers to callbacks and listeners.
use vstd::prelude::*;

verus! {

/// A failure that the host reports for a call.
#[derive(Debug)]
pub enum CallbackError {
    General { error: String, message: String, code: i32 },
}

/// The outcome of a host call: a result, an error, or (in principle) neither.
pub struct CallbackResult<T> {
    result: Option<T>,
    error: Option<CallbackError>,
}

impl<T> CallbackResult<T> {
    pub closed spec fn result_spec(&self) -> Option<T> {
        self.result
    }

    pub closed spec fn error_spec(&self) -> Option<CallbackError> {
        self.error
    }

    /// An outcome with these parts.
    pub fn new(result: Option<T>, error: Option<CallbackError>) -> (r: Self)
        ensures
            r.result_spec() == result,
            r.error_spec() == error,
    {
        CallbackResult { result, error }
    }

    /// Whether there is a result.
    pub fn is_ok(&self) -> (r: bool)
        ensures
            r == self.result_spec() is Some,
    {
        self.result.is_some()
    }

    /// Whether there is an error.
    pub fn is_error(&self) -> (r: bool)
        ensures
            r == self.error_spec() is Some,
    {
        self.error.is_some()
    }

    /// The result, if any.
    pub fn get_result(&self) -> (r: Option<&T>)
        ensures
            r == match self.result_spec() {
                Some(t) => Some(&t),
                None => None::<&T>,
            },
    {
        match &self.result {
            Some(t) => Some(t),
            None => None,
        }
    }

    /// The error, if any.
    pub fn get_error(&self) -> (r: Option<&CallbackError>)
        ensures
            r == match self.error_spec() {
                Some(e) => Some(&e),
                None => None::<&CallbackError>,
            },
    {
        match &self.error {
            Some(e) => Some(e),
            None => None,
        }
    }

    /// The result; there must be one.
    pub fn expect_result(&self, message: &str) -> (r: &T)
        requires
            self.result_spec() is Some,
        ensures
            *r == self.result_spec()->0,
    {
        self.result.as_ref().unwrap()
    }

    /// The error; there must be one.
    pub fn expect_error(&self, message: &str) -> (r: &CallbackError)
        requires
            self.error_spec() is Some,
        ensures
            *r == self.error_spec()->0,
    {
        self.error.as_ref().unwrap()
    }
}

/// The value that the last entry with this key holds.
pub open spec fn find<V>(s: Seq<(String, V)>, k: Seq<char>) -> Option<V>
    decreases s.len(),
{
    if s.len() == 0 {
        None
    } else if s.last().0@ == k {
        Some(s.last().1)
    } else {
        find(s.drop_last(), k)
    }
}

/// Whether no two entries share a key.
pub open spec fn unique_keys<V>(s: Seq<(String, V)>) -> bool {
    forall|i: int, j: int| 0 <= i < j < s.len() ==> (#[trigger] s[i]).0@ != (#[trigger] s[j]).0@
}

proof fn lemma_find_absent<V>(s: Seq<(String, V)>, k: Seq<char>)
    requires
        forall|i: int| 0 <= i < s.len() ==> (#[trigger] s[i]).0@ != k,
    ensures
        find(s, k) is None,
    decreases s.len(),
{
    if s.len() > 0 {
        lemma_find_absent(s.drop_last(), k);
    }
}

proof fn lemma_find_at<V>(s: Seq<(String, V)>, i: int)
    requires
        unique_keys(s),
        0 <= i < s.len(),
    ensures
        find(s, s[i].0@) == Some(s[i].1),
    decreases s.len(),
{
    if i < s.len() - 1 {
        assert(s.drop_last()[i] == s[i]);
        lemma_find_at(s.drop_last(), i);
    }
}

proof fn lemma_find_update<V>(s: Seq<(String, V)>, i: int, e: (String, V), k: Seq<char>)
    requires
        0 <= i < s.len(),
        e.0@ == s[i].0@,
        k != e.0@,
    ensures
        find(s.update(i, e), k) == find(s, k),
    decreases s.len(),
{
    if i < s.len() - 1 {
        assert(s.update(i, e).drop_last() =~= s.drop_last().update(i, e));
        lemma_find_update(s.drop_last(), i, e, k);
    } else {
        assert(s.update(i, e).drop_last() =~= s.drop_last());
    }
}

proof fn lemma_find_remove<V>(s: Seq<(String, V)>, i: int, k: Seq<char>)
    requires
        0 <= i < s.len(),
        k != s[i].0@,
    ensures
        find(s.remove(i), k) == find(s, k),
    decreases s.len(),
{
    if i < s.len() - 1 {
        assert(s.remove(i).drop_last() =~= s.drop_last().remove(i));
        assert(s.remove(i).last() == s.last());
        lemma_find_remove(s.drop_last(), i, k);
    } else {
        assert(s.remove(i) =~= s.drop_last());
    }
}

/// A table from generated identifiers to values, each identifier at most
/// once.
pub struct Registry<V> {
    entries: Vec<(String, V)>,
}

impl<V> Registry<V> {
    pub closed spec fn entries_spec(&self) -> Seq<(String, V)> {
        self.entries@
    }

    /// The value registered under `k`.
    pub open spec fn get(&self, k: Seq<char>) -> Option<V> {
        find(self.entries_spec(), k)
    }

    pub open spec fn wf(&self) -> bool {
        unique_keys(self.entries_spec())
    }

    /// An empty table.
    pub fn new() -> (r: Self)
        ensures
            r.wf(),
            forall|k: Seq<char>| r.get(k) is None,
    {
        Registry { entries: Vec::new() }
    }

    fn index_of(&self, key: &String) -> (r: Option<usize>)
        requires
            self.wf(),
        ensures
            r matches Some(i) ==> i < self.entries_spec().len() && self.entries_spec()[i as int].0@
                == key@,
            r is None ==> forall|i: int|
                0 <= i < self.entries_spec().len() ==> (#[trigger] self.entries_spec()[i]).0@ != key@,
    {
        let mut i: usize = 0;
        while i < self.entries.len()
            invariant
                i <= self.entries@.len(),
                forall|j: int| 0 <= j < i ==> (#[trigger] self.entries@[j]).0@ != key@,
            decreases self.entries@.len() - i,
        {
            if self.entries[i].0 == *key {
                return Some(i);
            }
            i = i + 1;
        }
        None
    }

    /// Registers `value` under `key`, replacing what was there.
    pub fn register(&mut self, key: String, value: V)
        requires
            old(self).wf(),
        ensures
            final(self).wf(),
            final(self).get(key@) == Some(value),
            forall|k: Seq<char>| k != key@ ==> final(self).get(k) == old(self).get(k),
    {
        let ghost k = key@;
        match self.index_of(&key) {
            Some(i) => {
                let ghost s = self.entries@;
                let ghost e = (key, value);
                self.entries.set(i, (key, value));
                proof {
                    assert(self.entries@ == s.update(i as int, e));
                    assert forall|a: int, b: int|
                        0 <= a < b < self.entries@.len() implies (#[trigger] self.entries@[a]).0@
                        != (#[trigger] self.entries@[b]).0@ by {
                        assert(s[a].0@ != s[b].0@);
                    }
                    lemma_find_at(self.entries@, i as int);
                    assert forall|k2: Seq<char>| k2 != k implies find(self.entries@, k2) == find(s, k2) by {
                        lemma_find_update(s, i as int, e, k2);
                    }
                }
            },
            None => {
                let ghost s = self.entries@;
                self.entries.push((key, value));
                proof {
                    assert(self.entries@.drop_last() =~= s);
                    assert forall|a: int, b: int|
                        0 <= a < b < self.entries@.len() implies (#[trigger] self.entries@[a]).0@
                        != (#[trigger] self.entries@[b]).0@ by {
                        if b < s.len() {
                            assert(s[a].0@ != s[b].0@);
                        } else {
                            assert(self.entries@[a] == s[a]);
                        }
                    }
                }
            },
        }
    }

    /// The value registered under `key`.
    pub fn lookup(&self, key: &String) -> (r: Option<&V>)
        requires
            self.wf(),
        ensures
            r == match self.get(key@) {
                Some(v) => Some(&v),
                None => None::<&V>,
            },
    {
        match self.index_of(key) {
            Some(i) => {
                proof {
                    lemma_find_at(self.entries@, i as int);
                }
                Some(&self.entries[i].1)
            },
            None => {
                proof {
                    lemma_find_absent(self.entries@, key@);
                }
                None
            },
        }
    }

    /// Takes the value registered under `key` out of the table.
    pub fn remove(&mut self, key: &String) -> (r: Option<V>)
        requires
            old(self).wf(),
        ensures
            final(self).wf(),
            r == old(self).get(key@),
            final(self).get(key@) is None,
            forall|k: Seq<char>| k != key@ ==> final(self).get(k) == old(self).get(k),
    {
        match self.index_of(key) {
            Some(i) => {
                let ghost s = self.entries@;
                proof {
                    lemma_find_at(s, i as int);
                }
                let (_, v) = self.entries.remove(i);
                proof {
                    assert(self.entries@ == s.remove(i as int));
                    assert forall|a: int, b: int|
                        0 <= a < b < self.entries@.len() implies (#[trigger] self.entries@[a]).0@
                        != (#[trigger] self.entries@[b]).0@ by {
                        let a2 = if a < i { a } else { a + 1 };
                        let b2 = if b < i { b } else { b + 1 };
                        assert(self.entries@[a] == s[a2] && self.entries@[b] == s[b2]);
                        assert(s[a2].0@ != s[b2].0@);
                    }
                    assert forall|j: int| 0 <= j < self.entries@.len() implies (#[trigger] self.entries@[j]).0@
                        != key@ by {
                        let j2 = if j < i { j } else { j + 1 };
                        assert(self.entries@[j] == s[j2]);
                        assert(s[j2].0@ != s[i as int].0@);
                    }
                    lemma_find_absent(self.entries@, key@);
                    assert forall|k2: Seq<char>| k2 != key@ implies find(self.entries@, k2) == find(s, k2) by {
                        lemma_find_remove(s, i as int, k2);
                    }
                }
                Some(v)
            },
            None => {
                proof {
                    lemma_find_absent(self.entries@, key@);
                }
                None
            },
        }
    }
}

/// Registers a one-shot callback under a freshly generated identifier and
/// hands the identifier back.
pub fn register_callback<V>(registry: &mut Registry<V>, id: String, callback: V) -> (r: String)
    requires
        old(registry).wf(),
    ensures
        r@ == id@,
        final(registry).wf(),
        final(registry).get(id@) == Some(callback),
        forall|k: Seq<char>| k != id@ ==> final(registry).get(k) == old(registry).get(k),
{
    let key = id.clone();
    registry.register(id, callback);
    key
}

/// Registers a callback under a given identifier.
pub fn register_callback_with_id<V>(registry: &mut Registry<V>, id: String, callback: V)
    requires
        old(registry).wf(),
    ensures
        final(registry).wf(),
        final(registry).get(id@) == Some(callback),
        forall|k: Seq<char>| k != id@ ==> final(registry).get(k) == old(registry).get(k),
{
    registry.register(id, callback);
}

} // verus!
