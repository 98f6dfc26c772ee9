//! The shared per-connection state store: a mapping from `(scope, request
//! id)` to a structured value, passed by reference through every hook of a
//! pipeline run and cleared in full at the start of every request.
//!
//! Concurrency note: the store lives for the whole connection, so the clear
//! triggered by a new request erases entries of any run still in flight on
//! that connection. That is sound only while requests on one connection are
//! strictly sequential; a multiplexing transport would make it a hazard.

use vstd::prelude::*;

verus! {

/// The structured value hooks store: `serde_json::Value`, carried opaquely.
#[verifier::external_type_specification]
#[verifier::external_body]
pub struct ExValue(serde_json::Value);

struct StateEntry {
    scope: String,
    request_id: u64,
    value: serde_json::Value,
}

spec fn entry_key(e: StateEntry) -> (Seq<char>, u64) {
    (e.scope@, e.request_id)
}

/// The scoped key-value store. Viewed as a map from `(scope, request id)` to
/// values; the backing list never holds two entries with the same key.
pub struct SharedState {
    entries: Vec<StateEntry>,
}

impl View for SharedState {
    type V = Map<(Seq<char>, u64), serde_json::Value>;

    closed spec fn view(&self) -> Self::V {
        Map::new(
            |k: (Seq<char>, u64)|
                exists|i: int|
                    0 <= i < self.entries@.len() && entry_key(self.entries@[i]) == k,
            |k: (Seq<char>, u64)|
                self.entries@[choose|i: int|
                    0 <= i < self.entries@.len() && entry_key(self.entries@[i]) == k].value,
        )
    }
}

impl SharedState {
    #[verifier::type_invariant]
    spec fn keys_unique(self) -> bool {
        forall|i: int, j: int|
            0 <= i < j < self.entries@.len() ==> entry_key(self.entries@[i]) != entry_key(
                self.entries@[j],
            )
    }

    pub fn new() -> (s: SharedState)
        ensures
            s@ == Map::<(Seq<char>, u64), serde_json::Value>::empty(),
    {
        let s = SharedState { entries: Vec::new() };
        proof {
            assert(s@ =~= Map::<(Seq<char>, u64), serde_json::Value>::empty());
        }
        s
    }

    /// Drop every entry, whatever request it belonged to.
    pub fn clear_all(&mut self)
        ensures
            final(self)@ == Map::<(Seq<char>, u64), serde_json::Value>::empty(),
    {
        let mut entries: Vec<StateEntry> = Vec::new();
        core::mem::swap(&mut entries, &mut self.entries);
        proof {
            assert(self@ =~= Map::<(Seq<char>, u64), serde_json::Value>::empty());
        }
    }

    /// Whether the store holds no entry at all.
    pub fn is_empty(&self) -> (r: bool)
        ensures
            r == (self@ == Map::<(Seq<char>, u64), serde_json::Value>::empty()),
    {
        proof {
            use_type_invariant(&*self);
            if self.entries@.len() == 0 {
                assert(self@ =~= Map::<(Seq<char>, u64), serde_json::Value>::empty());
            } else {
                assert(self@.dom().contains(entry_key(self.entries@[0])));
            }
        }
        self.entries.len() == 0
    }

    fn find(&self, scope: &String, request_id: u64) -> (r: Option<usize>)
        ensures
            (match r {
                Some(i) => {
                    &&& i < self.entries@.len()
                    &&& entry_key(self.entries@[i as int]) == (scope@, request_id)
                },
                None => forall|i: int|
                    0 <= i < self.entries@.len() ==> entry_key(self.entries@[i]) != (
                    scope@,
                    request_id,
                    ),
            }),
    {
        let n = self.entries.len();
        let mut i: usize = 0;
        while i < n
            invariant
                i <= n,
                n == self.entries@.len(),
                forall|j: int|
                    0 <= j < i ==> entry_key(self.entries@[j]) != (scope@, request_id),
            decreases n - i,
        {
            if self.entries[i].scope == *scope && self.entries[i].request_id == request_id {
                return Some(i);
            }
            i += 1;
        }
        None
    }

    /// Look a value up under its scope and request id.
    pub fn get(&self, scope: &String, request_id: u64) -> (r: Option<&serde_json::Value>)
        ensures
            (match r {
                Some(v) => {
                    &&& self@.contains_key((scope@, request_id))
                    &&& *v == self@[(scope@, request_id)]
                },
                None => !self@.contains_key((scope@, request_id)),
            }),
    {
        proof {
            use_type_invariant(&*self);
        }
        match self.find(scope, request_id) {
            Some(i) => {
                proof {
                    let k = (scope@, request_id);
                    assert(self@.dom().contains(k));
                    let w = choose|w: int|
                        0 <= w < self.entries@.len() && entry_key(self.entries@[w]) == k;
                    assert(w == i as int);
                }
                Some(&self.entries[i].value)
            },
            None => {
                proof {
                    let k = (scope@, request_id);
                    assert(!self@.dom().contains(k));
                }
                None
            },
        }
    }

    /// Bind a value to `(scope, request id)`, replacing any earlier binding.
    pub fn set(&mut self, scope: String, request_id: u64, value: serde_json::Value)
        ensures
            final(self)@ == old(self)@.insert((scope@, request_id), value),
    {
        proof {
            use_type_invariant(&*self);
        }
        let ghost pre = *self;
        let existing = self.find(&scope, request_id);
        let mut entries: Vec<StateEntry> = Vec::new();
        core::mem::swap(&mut entries, &mut self.entries);
        match existing {
            Some(i) => {
                entries.remove(i);
            },
            None => {},
        }
        entries.push(StateEntry { scope, request_id, value });
        proof {
            let key = (scope@, request_id);
            let last = entries@.len() - 1;
            assert(entry_key(entries@[last]) == key);
            match existing {
                Some(r) => {
                    pre.entries@.remove_ensures(r as int);
                    assert(entries@.subrange(0, last) =~= pre.entries@.remove(r as int));
                    assert forall|p: int|
                        0 <= p < pre.entries@.len() && p != r as int implies entry_key(
                        pre.entries@[p],
                    ) != entry_key(entries@[last]) by {
                        if p < r as int {
                            assert(entry_key(pre.entries@[p]) != entry_key(
                                pre.entries@[r as int],
                            ));
                        } else {
                            assert(entry_key(pre.entries@[r as int]) != entry_key(
                                pre.entries@[p],
                            ));
                        }
                    }
                },
                None => {
                    assert(entries@.subrange(0, last) =~= pre.entries@);
                },
            }
            assert forall|i: int, j: int| 0 <= i < j < entries@.len() implies entry_key(
                entries@[i],
            ) != entry_key(entries@[j]) by {
                lemma_removed_keeps_distinct(pre.entries@, entries@, existing, i, j);
            }
        }
        self.entries = entries;
        proof {
            lemma_set_view(pre, *self, existing, (scope@, request_id));
        }
    }
}

proof fn lemma_removed_keeps_distinct(
    before: Seq<StateEntry>,
    after: Seq<StateEntry>,
    removed: Option<usize>,
    i: int,
    j: int,
)
    requires
        forall|p: int, q: int|
            0 <= p < q < before.len() ==> entry_key(before[p]) != entry_key(before[q]),
        (match removed {
            Some(r) => {
                &&& (r as int) < before.len()
                &&& after.len() == before.len()
                &&& after.subrange(0, after.len() - 1) == before.remove(r as int)
                &&& forall|p: int|
                    0 <= p < before.len() && p != r ==> entry_key(before[p]) != entry_key(
                    after[after.len() - 1],
                    )
            },
            None => {
                &&& after.len() == before.len() + 1
                &&& after.subrange(0, after.len() - 1) == before
                &&& forall|p: int|
                    0 <= p < before.len() ==> entry_key(before[p]) != entry_key(
                    after[after.len() - 1],
                    )
            },
        }),
        0 <= i < j < after.len(),
    ensures
        entry_key(after[i]) != entry_key(after[j]),
{
    let head = after.subrange(0, after.len() - 1);
    match removed {
        Some(r) => {
            before.remove_ensures(r as int);
            let trimmed = before.remove(r as int);
            if j < after.len() - 1 {
                assert(head[i] == after[i] && head[j] == after[j]);
                if i < r && j < r {
                    assert(trimmed[i] == before[i] && trimmed[j] == before[j]);
                } else if i < r {
                    assert(trimmed[i] == before[i] && trimmed[j] == before[j + 1]);
                } else {
                    assert(trimmed[i] == before[i + 1] && trimmed[j] == before[j + 1]);
                }
            } else {
                assert(head[i] == after[i]);
                if i < r {
                    assert(trimmed[i] == before[i]);
                } else {
                    assert(trimmed[i] == before[i + 1]);
                }
            }
        },
        None => {
            if j < after.len() - 1 {
                assert(head[i] == after[i] && head[j] == after[j]);
            } else {
                assert(head[i] == after[i]);
            }
        },
    }
}

proof fn lemma_set_view(
    pre: SharedState,
    post: SharedState,
    removed: Option<usize>,
    key: (Seq<char>, u64),
)
    requires
        pre.keys_unique(),
        post.keys_unique(),
        post.entries@.len() >= 1,
        entry_key(post.entries@[post.entries@.len() - 1]) == key,
        (match removed {
            Some(r) => {
                &&& (r as int) < pre.entries@.len()
                &&& entry_key(pre.entries@[r as int]) == key
                &&& post.entries@.subrange(0, post.entries@.len() - 1) == pre.entries@.remove(
                    r as int,
                )
            },
            None => {
                &&& post.entries@.subrange(0, post.entries@.len() - 1) == pre.entries@
                &&& forall|p: int|
                    0 <= p < pre.entries@.len() ==> entry_key(pre.entries@[p]) != key
            },
        }),
    ensures
        post@ == pre@.insert(key, post.entries@[post.entries@.len() - 1].value),
{
    let last = post.entries@.len() - 1;
    match removed {
        Some(r) => {
            pre.entries@.remove_ensures(r as int);
            assert(post.entries@.subrange(0, last).len() == last);
            assert(post.entries@.len() == pre.entries@.len());
        },
        None => {
            assert(post.entries@.subrange(0, last).len() == last);
            assert(post.entries@.len() == pre.entries@.len() + 1);
        },
    }
    assert forall|k: (Seq<char>, u64)| #[trigger]
        post@.dom().contains(k) == pre@.insert(
            key,
            post.entries@[last].value,
        ).dom().contains(k) by {
        if k == key {
            assert(entry_key(post.entries@[last]) == k);
            assert(post@.dom().contains(k));
        } else {
            if post@.dom().contains(k) {
                let w = choose|w: int|
                    0 <= w < post.entries@.len() && entry_key(post.entries@[w]) == k;
                assert(w < last);
                lemma_index_maps_back(pre.entries@, post.entries@, removed, w);
            }
            if pre@.dom().contains(k) {
                let w = choose|w: int|
                    0 <= w < pre.entries@.len() && entry_key(pre.entries@[w]) == k;
                lemma_index_maps_forward(pre.entries@, post.entries@, removed, w);
            }
        }
    }
    assert forall|k: (Seq<char>, u64)| post@.dom().contains(k) implies post@[k] == pre@.insert(
        key,
        post.entries@[last].value,
    )[k] by {
        let w = choose|w: int| 0 <= w < post.entries@.len() && entry_key(post.entries@[w]) == k;
        assert(post@[k] == post.entries@[w].value);
        if k == key {
            assert(w == last);
        } else {
            assert(w < last);
            lemma_index_maps_back(pre.entries@, post.entries@, removed, w);
            let v = choose|v: int|
                0 <= v < pre.entries@.len() && entry_key(pre.entries@[v]) == k;
            assert(pre@[k] == pre.entries@[v].value);
            assert(pre.entries@[v] == post.entries@[w]);
        }
    }
    assert(post@ =~= pre@.insert(key, post.entries@[last].value));
}

/// An entry of the shorter list, below the pushed slot, is also an entry of
/// the longer one with the same key and value.
proof fn lemma_index_maps_back(
    before: Seq<StateEntry>,
    after: Seq<StateEntry>,
    removed: Option<usize>,
    w: int,
)
    requires
        0 <= w < after.len() - 1,
        (match removed {
            Some(r) => {
                &&& (r as int) < before.len()
                &&& after.len() == before.len()
                &&& after.subrange(0, after.len() - 1) == before.remove(r as int)
            },
            None => {
                &&& after.len() == before.len() + 1
                &&& after.subrange(0, after.len() - 1) == before
            },
        }),
    ensures
        exists|v: int| 0 <= v < before.len() && before[v] == after[w],
{
    let head = after.subrange(0, after.len() - 1);
    assert(head[w] == after[w]);
    match removed {
        Some(r) => {
            before.remove_ensures(r as int);
            let trimmed = before.remove(r as int);
            assert(head[w] == trimmed[w]);
            if w < r {
                assert(trimmed[w] == before[w]);
            } else {
                assert(trimmed[w] == before[w + 1]);
            }
        },
        None => {
            assert(before[w] == after[w]);
        },
    }
}

/// An entry of the original list that was not removed is still present below
/// the pushed slot.
proof fn lemma_index_maps_forward(
    before: Seq<StateEntry>,
    after: Seq<StateEntry>,
    removed: Option<usize>,
    w: int,
)
    requires
        0 <= w < before.len(),
        (match removed {
            Some(r) => {
                &&& (r as int) < before.len()
                &&& after.len() == before.len()
                &&& after.subrange(0, after.len() - 1) == before.remove(r as int)
            },
            None => {
                &&& after.len() == before.len() + 1
                &&& after.subrange(0, after.len() - 1) == before
            },
        }),
        removed matches Some(r) ==> w != r as int,
    ensures
        exists|v: int| 0 <= v < after.len() - 1 && after[v] == before[w],
{
    let head = after.subrange(0, after.len() - 1);
    match removed {
        Some(r) => {
            before.remove_ensures(r as int);
            let trimmed = before.remove(r as int);
            if w < r {
                assert(trimmed[w] == before[w]);
                assert(head[w] == after[w]);
            } else {
                assert(trimmed[w - 1] == before[w]);
                assert(head[w - 1] == after[w - 1]);
            }
        },
        None => {
            assert(head[w] == after[w]);
        },
    }
}

} // verus!
