use vstd::prelude::*;

verus! {

/// Why an insertion into the resource map was refused.
#[derive(Debug, Clone, Copy, PartialEq, Eq, Structural)]
pub enum ResourceError {
    AlreadyExists,
}

/// A key-indexed mapping of shared values, filled at build time and read
/// by every context. Each entry stands for one provisioned value; the
/// key is the host's stable identity for the value's type. Keys are
/// unique, and lookups hand out clones.
///
/// Its view is the mapping from key to stored value.
#[derive(Clone)]
pub struct Resources<R> {
    entries: Vec<(u64, R)>,
}

/// The mapping described by a sequence of key-value entries; later
/// entries win, though well-formed resource maps never repeat a key.
pub open spec fn map_of<R>(s: Seq<(u64, R)>) -> Map<u64, R>
    decreases s.len(),
{
    if s.len() == 0 {
        Map::empty()
    } else {
        map_of(s.drop_last()).insert(s.last().0, s.last().1)
    }
}

/// Entries up to but excluding index `i` never use key `k`.
pub open spec fn key_absent_before<R>(s: Seq<(u64, R)>, k: u64, i: int) -> bool {
    forall|j: int| 0 <= j < i && j < s.len() ==> (#[trigger] s[j]).0 != k
}

proof fn lemma_map_of_absent<R>(s: Seq<(u64, R)>, k: u64)
    requires
        key_absent_before(s, k, s.len() as int),
    ensures
        !map_of(s).contains_key(k),
    decreases s.len(),
{
    if s.len() > 0 {
        assert(s.drop_last() =~= s.take(s.len() - 1));
        lemma_map_of_absent(s.drop_last(), k);
    }
}

proof fn lemma_map_of_found<R>(s: Seq<(u64, R)>, k: u64, i: int)
    requires
        0 <= i < s.len(),
        s[i].0 == k,
        forall|j: int| i < j < s.len() ==> (#[trigger] s[j]).0 != k,
    ensures
        map_of(s).contains_key(k),
        map_of(s)[k] == s[i].1,
    decreases s.len(),
{
    if i == s.len() - 1 {
    } else {
        lemma_map_of_found(s.drop_last(), k, i);
    }
}

impl<R> Resources<R> {
    pub closed spec fn entries_view(&self) -> Seq<(u64, R)> {
        self.entries@
    }

    /// Keys are pairwise distinct.
    pub open spec fn wf(&self) -> bool {
        forall|i: int, j: int|
            0 <= i < j < self.entries_view().len() ==> (#[trigger] self.entries_view()[i]).0 != (
            #[trigger] self.entries_view()[j]).0
    }

    pub open spec fn contains_spec(&self, key: u64) -> bool {
        self@.contains_key(key)
    }

    pub fn new() -> (r: Self)
        ensures
            r@ == Map::<u64, R>::empty(),
            r.wf(),
    {
        Self { entries: Vec::new() }
    }

    pub fn len(&self) -> (r: usize)
        ensures
            r == self.entries_view().len(),
    {
        self.entries.len()
    }

    /// Whether a value is provisioned under `key`.
    pub fn contains_key(&self, key: u64) -> (r: bool)
        ensures
            r == self.contains_spec(key),
    {
        let n = self.entries.len();
        let mut i: usize = 0;
        while i < n
            invariant
                0 <= i <= n,
                n == self.entries_view().len(),
                key_absent_before(self.entries_view(), key, i as int),
            decreases n - i,
        {
            if self.entries[i].0 == key {
                proof {
                    lemma_map_of_contains(self.entries_view(), key, i as int);
                }
                return true;
            }
            i += 1;
        }
        proof {
            lemma_map_of_absent(self.entries_view(), key);
        }
        false
    }

    /// Provision a value under `key`. Keys are unique: re-inserting an
    /// existing key is refused and leaves the map unchanged.
    pub fn insert(&mut self, key: u64, value: R) -> (r: Result<(), ResourceError>)
        requires
            old(self).wf(),
        ensures
            final(self).wf(),
            old(self).contains_spec(key) ==> r == Err::<(), ResourceError>(
                ResourceError::AlreadyExists,
            ) && *final(self) == *old(self),
            !old(self).contains_spec(key) ==> r == Ok::<(), ResourceError>(()) && final(self)@
                == old(self)@.insert(key, value),
    {
        if self.contains_key(key) {
            return Err(ResourceError::AlreadyExists);
        }
        proof {
            assert forall|j: int| 0 <= j < self.entries_view().len() implies (
            #[trigger] self.entries_view()[j]).0 != key by {
                if self.entries_view()[j].0 == key {
                    lemma_map_of_contains(self.entries_view(), key, j);
                }
            }
            assert(self.entries_view().push((key, value)).drop_last() =~= self.entries_view());
        }
        self.entries.push((key, value));
        Ok(())
    }
}

impl<R: Clone> Resources<R> {
    /// Look up the value under `key`; `None` exactly when nothing is
    /// provisioned there. The result is a clone of the stored value.
    pub fn try_resource(&self, key: u64) -> (r: Option<R>)
        requires
            self.wf(),
        ensures
            r matches Some(v) ==> self.contains_spec(key) && cloned(self@[key], v),
            r is None <==> !self.contains_spec(key),
    {
        let n = self.entries.len();
        let mut i: usize = 0;
        while i < n
            invariant
                0 <= i <= n,
                self.wf(),
                n == self.entries_view().len(),
                key_absent_before(self.entries_view(), key, i as int),
            decreases n - i,
        {
            if self.entries[i].0 == key {
                proof {
                    lemma_map_of_found(self.entries_view(), key, i as int);
                }
                return Some(self.entries[i].1.clone());
            }
            i += 1;
        }
        proof {
            lemma_map_of_absent(self.entries_view(), key);
        }
        None
    }

    /// Look up the value under `key`, which must be provisioned: a
    /// missing resource is a programming error the type system cannot
    /// catch, so the precondition rules it out.
    pub fn resource(&self, key: u64) -> (r: R)
        requires
            self.wf(),
            self.contains_spec(key),
        ensures
            cloned(self@[key], r),
    {
        let found = self.try_resource(key);
        match found {
            Some(v) => v,
            None => {
                proof {
                    assert(false);
                }
                unreached()
            },
        }
    }
}

impl<R> View for Resources<R> {
    type V = Map<u64, R>;

    closed spec fn view(&self) -> Map<u64, R> {
        map_of(self.entries@)
    }
}

/// Any entry that carries `k` settles that the map contains `k`.
proof fn lemma_map_of_contains<R>(s: Seq<(u64, R)>, k: u64, i: int)
    requires
        0 <= i < s.len(),
        s[i].0 == k,
    ensures
        map_of(s).contains_key(k),
    decreases s.len(),
{
    if i < s.len() - 1 {
        lemma_map_of_contains(s.drop_last(), k, i);
    }
}

} // verus!
