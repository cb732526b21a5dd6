//! The cache of chosen execution paths: what the process remembers, backed
//! by what the file under the model root holds. Reading and writing the
//! file are the caller's part; its contents come and go as a list of pairs
//! of key and path name.

use vstd::prelude::*;
use crate::provider::{lemma_label_round_trip, parse_provider_choice, provider_label, ProviderChoice};
use crate::text::text_eq;

verus! {

/// The value of the first pair with the key `key`.
pub open spec fn assoc_get<V>(entries: Seq<(String, V)>, key: Seq<char>) -> Option<V>
    decreases entries.len(),
{
    if entries.len() == 0 {
        None
    } else if entries[0].0@ == key {
        Some(entries[0].1)
    } else {
        assoc_get(entries.drop_first(), key)
    }
}

proof fn lemma_assoc_absent<V>(entries: Seq<(String, V)>, key: Seq<char>)
    requires
        forall|j: int| 0 <= j < entries.len() ==> (#[trigger] entries[j]).0@ != key,
    ensures
        assoc_get(entries, key) is None,
    decreases entries.len(),
{
    if entries.len() > 0 {
        let rest = entries.drop_first();
        assert(forall|j: int| 0 <= j < rest.len() ==> rest[j] == entries[j + 1]);
        lemma_assoc_absent(rest, key);
    }
}

proof fn lemma_assoc_first<V>(entries: Seq<(String, V)>, at: int)
    requires
        0 <= at < entries.len(),
        forall|j: int| 0 <= j < at ==> (#[trigger] entries[j]).0@ != entries[at].0@,
    ensures
        assoc_get(entries, entries[at].0@) == Some(entries[at].1),
    decreases at,
{
    if at > 0 {
        let rest = entries.drop_first();
        assert(forall|j: int| 0 <= j < rest.len() ==> rest[j] == entries[j + 1]);
        assert(entries[0].0@ != entries[at].0@);
        lemma_assoc_first(rest, at - 1);
    }
}

proof fn lemma_assoc_replaced<V>(
    entries: Seq<(String, V)>,
    at: int,
    pair: (String, V),
    key: Seq<char>,
)
    requires
        0 <= at < entries.len(),
        entries[at].0@ == pair.0@,
    ensures
        assoc_get(entries.update(at, pair), key) == if key == pair.0@ && (forall|j: int|
            0 <= j < at ==> (#[trigger] entries[j]).0@ != key) {
            Some(pair.1)
        } else {
            assoc_get(entries, key)
        },
    decreases at,
{
    let after = entries.update(at, pair);
    if at == 0 {
        assert(after.drop_first() =~= entries.drop_first());
    } else {
        let rest = entries.drop_first();
        assert(forall|j: int| 0 <= j < rest.len() ==> rest[j] == entries[j + 1]);
        assert(after.drop_first() =~= rest.update(at - 1, pair));
        lemma_assoc_replaced(rest, at - 1, pair, key);
        if entries[0].0@ != key {
            if key == pair.0@ {
                assert((forall|j: int| 0 <= j < at ==> (#[trigger] entries[j]).0@ != key) <==> (
                forall|j: int| 0 <= j < at - 1 ==> (#[trigger] rest[j]).0@ != key)) by {
                    if forall|j: int| 0 <= j < at - 1 ==> (#[trigger] rest[j]).0@ != key {
                        assert forall|j: int| 0 <= j < at implies (#[trigger] entries[j]).0@
                            != key by {
                            if j > 0 {
                                assert(rest[j - 1] == entries[j]);
                            }
                        }
                    }
                }
            }
        } else {
            assert(after[0] == entries[0]);
        }
    }
}

proof fn lemma_assoc_pushed<V>(entries: Seq<(String, V)>, pair: (String, V), key: Seq<char>)
    ensures
        assoc_get(entries.push(pair), key) == if assoc_get(entries, key) is Some {
            assoc_get(entries, key)
        } else if key == pair.0@ {
            Some(pair.1)
        } else {
            None
        },
    decreases entries.len(),
{
    let after = entries.push(pair);
    if entries.len() == 0 {
        assert(after.drop_first() =~= Seq::empty());
        assert(after[0] == pair);
    } else {
        assert(after.drop_first() =~= entries.drop_first().push(pair));
        assert(after[0] == entries[0]);
        lemma_assoc_pushed(entries.drop_first(), pair, key);
    }
}

/// No two pairs share a key.
pub open spec fn keys_distinct<V>(entries: Seq<(String, V)>) -> bool {
    forall|i: int, j: int|
        #![trigger entries[i], entries[j]]
        0 <= i < j < entries.len() ==> entries[i].0@ != entries[j].0@
}

proof fn lemma_assoc_removed<V>(entries: Seq<(String, V)>, at: int, key: Seq<char>)
    requires
        0 <= at < entries.len(),
        keys_distinct(entries),
    ensures
        assoc_get(entries.remove(at), key) == if key == entries[at].0@ {
            None
        } else {
            assoc_get(entries, key)
        },
    decreases entries.len(),
{
    let after = entries.remove(at);
    if key == entries[at].0@ {
        assert forall|j: int| 0 <= j < after.len() implies (#[trigger] after[j]).0@ != key by {
            if j < at {
                assert(after[j] == entries[j]);
            } else {
                assert(after[j] == entries[j + 1]);
            }
        }
        lemma_assoc_absent(after, key);
    } else if at == 0 {
        assert(after =~= entries.drop_first());
    } else {
        let rest = entries.drop_first();
        assert forall|i: int, j: int|
            #![trigger rest[i], rest[j]]
            0 <= i < j < rest.len() implies rest[i].0@ != rest[j].0@ by {
            assert(rest[i] == entries[i + 1] && rest[j] == entries[j + 1]);
        }
        assert(after.drop_first() =~= rest.remove(at - 1));
        assert(after[0] == entries[0]);
        assert(rest[at - 1] == entries[at]);
        lemma_assoc_removed(rest, at - 1, key);
    }
}

/// The index of the first pair with the key `key`.
fn assoc_find<V>(entries: &Vec<(String, V)>, key: &str) -> (r: Option<usize>)
    ensures
        match r {
            Some(at) => at < entries.len() && entries[at as int].0@ == key@ && assoc_get(
                entries@,
                key@,
            ) == Some(entries[at as int].1) && forall|j: int|
                0 <= j < at ==> (#[trigger] entries[j]).0@ != key@,
            None => assoc_get(entries@, key@) is None && forall|j: int|
                0 <= j < entries.len() ==> (#[trigger] entries[j]).0@ != key@,
        },
{
    let mut i: usize = 0;
    while i < entries.len()
        invariant
            i <= entries.len(),
            forall|j: int| 0 <= j < i ==> (#[trigger] entries[j]).0@ != key@,
        decreases entries.len() - i,
    {
        if text_eq(entries[i].0.as_str(), key) {
            proof {
                lemma_assoc_first(entries@, i as int);
            }
            return Some(i);
        }
        i = i + 1;
    }
    proof {
        lemma_assoc_absent(entries@, key@);
    }
    None
}

/// Sets the value for `key`: in the first pair that has the key, or in a
/// new pair at the end.
fn assoc_put<V>(entries: &mut Vec<(String, V)>, key: &str, value: V)
    ensures
        forall|k: Seq<char>|
            #![trigger assoc_get(final(entries)@, k)]
            assoc_get(final(entries)@, k) == if k == key@ {
                Some(value)
            } else {
                assoc_get(old(entries)@, k)
            },
        keys_distinct(old(entries)@) ==> keys_distinct(final(entries)@),
{
    let ghost before = entries@;
    let pair: (String, V) = (key.to_string(), value);
    match assoc_find(entries, key) {
        Some(at) => {
            entries[at] = pair;
            assert(forall|i: int| 0 <= i < entries.len() ==> (#[trigger] entries[i]).0@ == before[i].0@);
            assert forall|k: Seq<char>| #![trigger assoc_get(entries@, k)]
                assoc_get(entries@, k) == if k == key@ {
                    Some(value)
                } else {
                    assoc_get(before, k)
                } by {
                lemma_assoc_replaced(before, at as int, pair, k);
            }
        },
        None => {
            entries.push(pair);
            assert(forall|i: int| 0 <= i < before.len() ==> (#[trigger] entries[i]) == before[i]);
            assert forall|k: Seq<char>| #![trigger assoc_get(entries@, k)]
                assoc_get(entries@, k) == if k == key@ {
                    Some(value)
                } else {
                    assoc_get(before, k)
                } by {
                lemma_assoc_pushed(before, pair, k);
            }
        },
    }
}

/// The path that the file holds for `key`: the path named by the first pair
/// with that key, if its name is that of a path.
pub open spec fn persisted_choice(persisted: Seq<(String, String)>, key: Seq<char>) -> Option<
    ProviderChoice,
> {
    match assoc_get(persisted, key) {
        Some(label) => ProviderChoice::named_by(label@),
        None => None,
    }
}

/// What the file holds, where it could be read: nothing where it could not.
pub open spec fn persisted_or_empty(persisted: Option<Vec<(String, String)>>) -> Seq<
    (String, String),
> {
    match persisted {
        Some(list) => list@,
        None => Seq::empty(),
    }
}

/// The chosen paths that this process remembers, by cache key.
pub struct ProviderCache {
    memory: Vec<(String, ProviderChoice)>,
}

impl ProviderCache {
    /// The path remembered for `key`.
    pub closed spec fn remembered(self, key: Seq<char>) -> Option<ProviderChoice> {
        assoc_get(self.memory@, key)
    }

    /// A cache that remembers nothing.
    pub fn new() -> (cache: ProviderCache)
        ensures
            forall|key: Seq<char>| cache.remembered(key) is None,
    {
        ProviderCache { memory: Vec::new() }
    }

    /// The path chosen earlier for `cache_key`: the one this process
    /// remembers, else the one the file holds, which is then remembered too.
    /// `persisted` is what the file holds, or `None` where it could not be
    /// read.
    pub fn load_cached_provider(
        &mut self,
        cache_key: &str,
        persisted: Option<&Vec<(String, String)>>,
    ) -> (r: Option<ProviderChoice>)
        ensures
            r == match old(self).remembered(cache_key@) {
                Some(provider) => Some(provider),
                None => match persisted {
                    Some(list) => persisted_choice(list@, cache_key@),
                    None => None,
                },
            },
            forall|key: Seq<char>|
                #![trigger final(self).remembered(key)]
                final(self).remembered(key) == if key == cache_key@ {
                    r
                } else {
                    old(self).remembered(key)
                },
    {
        match assoc_find(&self.memory, cache_key) {
            Some(at) => {
                return Some(self.memory[at].1);
            },
            None => {},
        }
        let list: &Vec<(String, String)> = match persisted {
            Some(list) => list,
            None => {
                return None;
            },
        };
        let provider: ProviderChoice = match assoc_find(list, cache_key) {
            Some(at) => match parse_provider_choice(list[at].1.as_str()) {
                Some(provider) => provider,
                None => {
                    return None;
                },
            },
            None => {
                return None;
            },
        };
        assoc_put(&mut self.memory, cache_key, provider);
        Some(provider)
    }

    /// Remembers `provider` for `cache_key`, in this process and in what is
    /// to be written to the file: the list handed back is what the file held
    /// (nothing where it could not be read) with the pair for the key set to
    /// the name of the path.
    pub fn persist_cached_provider(
        &mut self,
        cache_key: &str,
        provider: ProviderChoice,
        persisted: Option<Vec<(String, String)>>,
    ) -> (updated: Vec<(String, String)>)
        ensures
            forall|key: Seq<char>|
                #![trigger final(self).remembered(key)]
                final(self).remembered(key) == if key == cache_key@ {
                    Some(provider)
                } else {
                    old(self).remembered(key)
                },
            assoc_get(updated@, cache_key@) is Some,
            assoc_get(updated@, cache_key@)->0@ == provider.label_text(),
            persisted_choice(updated@, cache_key@) == Some(provider),
            forall|key: Seq<char>|
                #![trigger assoc_get(updated@, key)]
                key != cache_key@ ==> assoc_get(updated@, key) == assoc_get(
                    persisted_or_empty(persisted),
                    key,
                ),
    {
        assoc_put(&mut self.memory, cache_key, provider);
        let mut updated: Vec<(String, String)> = match persisted {
            Some(list) => list,
            None => Vec::new(),
        };
        assoc_put(&mut updated, cache_key, provider_label(provider).to_string());
        proof {
            lemma_label_round_trip(provider);
            assert(assoc_get(updated@, cache_key@) is Some);
        }
        updated
    }
}

/// The warm sessions of a process, by session key: one for each weights
/// file and execution path that has been loaded. A session stays until the
/// table goes; nothing is evicted.
pub struct SessionTable<S> {
    sessions: Vec<(String, S)>,
}

impl<S> SessionTable<S> {
    /// The session kept for `key`.
    pub closed spec fn kept(self, key: Seq<char>) -> Option<S> {
        assoc_get(self.sessions@, key)
    }

    /// No key has two sessions.
    pub closed spec fn well_formed(self) -> bool {
        keys_distinct(self.sessions@)
    }

    /// A table without sessions.
    pub fn new() -> (table: SessionTable<S>)
        ensures
            table.well_formed(),
            forall|key: Seq<char>| table.kept(key) is None,
    {
        SessionTable { sessions: Vec::new() }
    }

    /// Whether a session is kept for `key`, so that none has to be loaded.
    pub fn is_warm(&self, key: &str) -> (warm: bool)
        ensures
            warm == self.kept(key@) is Some,
    {
        assoc_find(&self.sessions, key).is_some()
    }

    /// Keeps `session` for `key`, in place of the one kept before, if any.
    pub fn keep(&mut self, key: &str, session: S)
        requires
            old(self).well_formed(),
        ensures
            final(self).well_formed(),
            forall|k: Seq<char>|
                #![trigger final(self).kept(k)]
                final(self).kept(k) == if k == key@ {
                    Some(session)
                } else {
                    old(self).kept(k)
                },
    {
        assoc_put(&mut self.sessions, key, session);
    }

    /// Hands out the session kept for `key`, to be used and then kept
    /// again; the table no longer holds it.
    pub fn take(&mut self, key: &str) -> (session: Option<S>)
        requires
            old(self).well_formed(),
        ensures
            final(self).well_formed(),
            session == old(self).kept(key@),
            forall|k: Seq<char>|
                #![trigger final(self).kept(k)]
                final(self).kept(k) == if k == key@ {
                    None
                } else {
                    old(self).kept(k)
                },
    {
        match assoc_find(&self.sessions, key) {
            Some(at) => {
                let ghost before = self.sessions@;
                let pair: (String, S) = self.sessions.remove(at);
                proof {
                    assert forall|k: Seq<char>| #![trigger assoc_get(self.sessions@, k)]
                        assoc_get(self.sessions@, k) == if k == key@ {
                            None
                        } else {
                            assoc_get(before, k)
                        } by {
                        lemma_assoc_removed(before, at as int, k);
                    }
                    let after = self.sessions@;
                    assert forall|i: int, j: int|
                        #![trigger after[i], after[j]]
                        0 <= i < j < after.len() implies after[i].0@ != after[j].0@ by {
                        let bi = if i < at {
                            i
                        } else {
                            i + 1
                        };
                        let bj = if j < at {
                            j
                        } else {
                            j + 1
                        };
                        assert(after[i] == before[bi] && after[j] == before[bj]);
                    }
                }
                Some(pair.1)
            },
            None => None,
        }
    }
}

} // verus!
