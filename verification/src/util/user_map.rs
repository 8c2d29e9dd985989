use vstd::prelude::*;

verus! {

/// A user identifier: a name and a byte that tells equal names apart.
pub type UserId = (String, [u8; 1]);

/// A user identifier as a mathematical value.
pub open spec fn key_view(id: UserId) -> (Seq<char>, u8) {
    (id.0@, id.1[0])
}

/// Whether an entry for `k` is stored.
pub open spec fn um_has<V>(s: Seq<(UserId, V)>, k: (Seq<char>, u8)) -> bool {
    exists|i: int| 0 <= i < s.len() && key_view(#[trigger] s[i].0) == k
}

/// The position of the entry for `k`.
pub open spec fn um_index<V>(s: Seq<(UserId, V)>, k: (Seq<char>, u8)) -> int {
    choose|i: int| 0 <= i < s.len() && key_view(#[trigger] s[i].0) == k
}

/// No user is stored twice.
pub open spec fn um_unique<V>(s: Seq<(UserId, V)>) -> bool {
    forall|i: int, j: int| 0 <= i < s.len() && 0 <= j < s.len() && key_view(#[trigger] s[i].0) == key_view(#[trigger] s[j].0) ==> i == j
}

/// The entries as a map from users to values.
pub open spec fn um_view<V>(s: Seq<(UserId, V)>) -> Map<(Seq<char>, u8), V> {
    Map::new(|k: (Seq<char>, u8)| um_has(s, k), |k: (Seq<char>, u8)| s[um_index(s, k)].1)
}

/// A map from users to values, kept as a list without repeated users.
pub struct UserMap<V> {
    pub entries: Vec<(UserId, V)>,
}

/// The entry at a position is the one the map holds for its user.
proof fn lemma_um_at<V>(s: Seq<(UserId, V)>, i: int)
    requires
        um_unique(s),
        0 <= i < s.len(),
    ensures
        um_has(s, key_view(s[i].0)),
        um_index(s, key_view(s[i].0)) == i,
        um_view(s)[key_view(s[i].0)] == s[i].1,
{
    let k = key_view(s[i].0);
    assert(um_has(s, k));
    let j = um_index(s, k);
    assert(key_view(s[j].0) == k);
}

/// Copies a user identifier.
pub fn clone_id(id: &UserId) -> (res: UserId)
    ensures
        key_view(res) == key_view(*id),
        res == *id,
{
    (id.0.clone(), id.1)
}

impl<V> UserMap<V> {
    pub open spec fn wf(&self) -> bool {
        um_unique(self.entries@)
    }

    pub open spec fn view(&self) -> Map<(Seq<char>, u8), V> {
        um_view(self.entries@)
    }

    /// An empty map.
    pub fn new() -> (res: Self)
        ensures
            res.wf(),
            res.view() == Map::<(Seq<char>, u8), V>::empty(),
    {
        let res = Self { entries: Vec::new() };
        assert(res.view() =~= Map::<(Seq<char>, u8), V>::empty());
        res
    }

    /// The position of `id`'s entry, if it has one.
    pub fn index_of(&self, id: &UserId) -> (res: Option<usize>)
        requires
            self.wf(),
        ensures
            match res {
                Some(i) => i < self.entries@.len() && key_view(self.entries@[i as int].0) == key_view(*id)
                    && um_index(self.entries@, key_view(*id)) == i,
                None => !um_has(self.entries@, key_view(*id)),
            },
    {
        let mut i: usize = 0;
        while i < self.entries.len()
            invariant
                self.wf(),
                i <= self.entries@.len(),
                forall|j: int| 0 <= j < i ==> key_view(#[trigger] self.entries@[j].0) != key_view(*id),
            decreases self.entries@.len() - i,
        {
            let e = &self.entries[i];
            if e.0.1[0] == id.1[0] && e.0.0 == id.0 {
                proof {
                    lemma_um_at(self.entries@, i as int);
                }
                return Some(i);
            }
            i = i + 1;
        }
        None
    }

    /// Whether `id` has an entry.
    pub fn contains_key(&self, id: &UserId) -> (res: bool)
        requires
            self.wf(),
        ensures
            res == self.view().contains_key(key_view(*id)),
    {
        self.index_of(id).is_some()
    }

    /// `id`'s value, if it has one.
    pub fn get(&self, id: &UserId) -> (res: Option<&V>)
        requires
            self.wf(),
        ensures
            match res {
                Some(v) => self.view().contains_key(key_view(*id)) && *v == self.view()[key_view(*id)],
                None => !self.view().contains_key(key_view(*id)),
            },
    {
        match self.index_of(id) {
            Some(i) => Some(&self.entries[i].1),
            None => None,
        }
    }

    /// Sets `id`'s value.
    pub fn insert(&mut self, id: UserId, v: V)
        requires
            old(self).wf(),
        ensures
            final(self).wf(),
            final(self).view() == old(self).view().insert(key_view(id), v),
    {
        let ghost k = key_view(id);
        let ghost s0 = self.entries@;
        match self.index_of(&id) {
            Some(i) => {
                self.entries.set(i, (id, v));
                proof {
                    let s1 = self.entries@;
                    assert forall|a: int, b: int| 0 <= a < s1.len() && 0 <= b < s1.len()
                        && key_view(#[trigger] s1[a].0) == key_view(#[trigger] s1[b].0) implies a == b by {
                        assert(key_view(s1[a].0) == key_view(s0[a].0));
                        assert(key_view(s1[b].0) == key_view(s0[b].0));
                    }
                    assert forall|kk: (Seq<char>, u8)| um_has(s1, kk) <==> um_has(s0, kk) || kk == k by {
                        if um_has(s0, kk) {
                            let j = um_index(s0, kk);
                            assert(key_view(s1[j].0) == kk);
                        }
                        if um_has(s1, kk) {
                            let j = um_index(s1, kk);
                            assert(key_view(s0[j].0) == kk);
                        }
                    }
                    assert forall|kk: (Seq<char>, u8)| um_has(s1, kk) implies um_view(s1)[kk] == old(self).view().insert(k, v)[kk] by {
                        let j = um_index(s1, kk);
                        lemma_um_at(s1, j);
                        if kk != k {
                            lemma_um_at(s0, j);
                        }
                    }
                    assert(self.view() =~= old(self).view().insert(k, v));
                }
            },
            None => {
                self.entries.push((id, v));
                proof {
                    let s1 = self.entries@;
                    assert forall|a: int, b: int| 0 <= a < s1.len() && 0 <= b < s1.len()
                        && key_view(#[trigger] s1[a].0) == key_view(#[trigger] s1[b].0) implies a == b by {
                        if a < s0.len() && b == s0.len() {
                            assert(key_view(s0[a].0) == k);
                        }
                        if b < s0.len() && a == s0.len() {
                            assert(key_view(s0[b].0) == k);
                        }
                    }
                    assert forall|kk: (Seq<char>, u8)| um_has(s1, kk) <==> um_has(s0, kk) || kk == k by {
                        if um_has(s0, kk) {
                            let j = um_index(s0, kk);
                            assert(key_view(s1[j].0) == kk);
                        }
                        if kk == k {
                            assert(key_view(s1[s0.len() as int].0) == kk);
                        }
                        if um_has(s1, kk) {
                            let j = um_index(s1, kk);
                            if j < s0.len() {
                                assert(key_view(s0[j].0) == kk);
                            }
                        }
                    }
                    assert forall|kk: (Seq<char>, u8)| um_has(s1, kk) implies um_view(s1)[kk] == old(self).view().insert(k, v)[kk] by {
                        let j = um_index(s1, kk);
                        lemma_um_at(s1, j);
                        if j < s0.len() {
                            lemma_um_at(s0, j);
                        }
                    }
                    assert(self.view() =~= old(self).view().insert(k, v));
                }
            },
        }
    }

    /// Takes `id`'s value out, if it has one.
    pub fn remove(&mut self, id: &UserId) -> (res: Option<V>)
        requires
            old(self).wf(),
        ensures
            final(self).wf(),
            final(self).view() == old(self).view().remove(key_view(*id)),
            match res {
                Some(v) => old(self).view().contains_key(key_view(*id)) && v == old(self).view()[key_view(*id)],
                None => !old(self).view().contains_key(key_view(*id)),
            },
    {
        let ghost k = key_view(*id);
        let ghost s0 = self.entries@;
        match self.index_of(id) {
            Some(i) => {
                proof {
                    lemma_um_at(s0, i as int);
                }
                let e = self.entries.remove(i);
                proof {
                    let s1 = self.entries@;
                    assert(s1 =~= s0.remove(i as int));
                    assert forall|a: int, b: int| 0 <= a < s1.len() && 0 <= b < s1.len()
                        && key_view(#[trigger] s1[a].0) == key_view(#[trigger] s1[b].0) implies a == b by {
                        let a0 = if a < i { a } else { a + 1 };
                        let b0 = if b < i { b } else { b + 1 };
                        assert(s1[a] == s0[a0]);
                        assert(s1[b] == s0[b0]);
                    }
                    assert forall|kk: (Seq<char>, u8)| um_has(s1, kk) <==> um_has(s0, kk) && kk != k by {
                        if um_has(s0, kk) && kk != k {
                            let j = um_index(s0, kk);
                            if j < i {
                                assert(key_view(s1[j].0) == kk);
                            } else {
                                assert(j != i);
                                assert(key_view(s1[j - 1].0) == kk);
                            }
                        }
                        if um_has(s1, kk) {
                            let j = um_index(s1, kk);
                            let j0 = if j < i { j } else { j + 1 };
                            assert(s1[j] == s0[j0]);
                            assert(key_view(s0[j0].0) == kk);
                            if kk == k {
                                assert(j0 == i);
                            }
                        }
                    }
                    assert forall|kk: (Seq<char>, u8)| um_has(s1, kk) implies um_view(s1)[kk] == old(self).view().remove(k)[kk] by {
                        let j = um_index(s1, kk);
                        lemma_um_at(s1, j);
                        let j0 = if j < i { j } else { j + 1 };
                        assert(s1[j] == s0[j0]);
                        lemma_um_at(s0, j0);
                    }
                    assert(self.view() =~= old(self).view().remove(k));
                }
                Some(e.1)
            },
            None => {
                assert(self.view() =~= old(self).view().remove(k));
                None
            },
        }
    }
}

} // verus!
