//! A plain-value model of the simulation world, as far as the registry reads
//! it: stable entity handles and the player components attached to them.
//!
//! The real entity store lives outside the library; it mirrors these handles.
//! The registry only ever relies on what this model holds: handles stay
//! stable until removed, and a handle resolves to the player info that was
//! attached at spawn time.
use vstd::prelude::*;

verus! {

/// The display name attached to a player entity.
#[derive(Debug)]
pub struct PlayerInfo(pub String);

impl DeepView for PlayerInfo {
    type V = Seq<char>;

    open spec fn deep_view(&self) -> Seq<char> {
        self.0@
    }
}

/// Entity storage: monotonically allocated handles, each carrying the player
/// info attached when the entity was spawned.
pub struct SimWorld {
    pub next_handle: u64,
    pub entities: Vec<(u64, PlayerInfo)>,
}

/// The info attached to handle `h` in `s`, scanning from the front.
pub open spec fn spec_world_lookup(s: Seq<(u64, Seq<char>)>, h: u64) -> Option<Seq<char>>
    decreases s.len(),
{
    if s.len() == 0 {
        None
    } else if s[0].0 == h {
        Some(s[0].1)
    } else {
        spec_world_lookup(s.skip(1), h)
    }
}

/// The handle `h` owns an entity of `s`.
pub open spec fn spec_world_contains(s: Seq<(u64, Seq<char>)>, h: u64) -> bool {
    exists|k: int| 0 <= k < s.len() && s[k].0 == h
}

impl View for SimWorld {
    type V = Seq<(u64, Seq<char>)>;

    open spec fn view(&self) -> Seq<(u64, Seq<char>)> {
        self.entities.deep_view()
    }
}

proof fn lemma_world_lookup_unique(s: Seq<(u64, Seq<char>)>, h: u64, k: int)
    requires
        forall|i: int, j: int| 0 <= i < j < s.len() ==> s[i].0 != s[j].0,
        0 <= k < s.len(),
        s[k].0 == h,
    ensures
        spec_world_lookup(s, h) == Some(s[k].1),
    decreases s.len(),
{
    if k == 0 {
    } else {
        assert(s[0].0 != h);
        assert(s.skip(1)[k - 1] == s[k]);
        lemma_world_lookup_unique(s.skip(1), h, k - 1);
    }
}

proof fn lemma_world_lookup_absent(s: Seq<(u64, Seq<char>)>, h: u64)
    requires
        !spec_world_contains(s, h),
    ensures
        spec_world_lookup(s, h) is None,
    decreases s.len(),
{
    if s.len() == 0 {
    } else {
        assert(s[0].0 != h);
        assert forall|k: int| 0 <= k < s.skip(1).len() implies s.skip(1)[k].0 != h by {
            assert(s.skip(1)[k] == s[k + 1]);
        }
        lemma_world_lookup_absent(s.skip(1), h);
    }
}

impl SimWorld {
    /// Handles are pairwise distinct and below the allocation watermark.
    pub open spec fn wf(&self) -> bool {
        &&& forall|i: int, j: int| 0 <= i < j < self@.len() ==> self@[i].0 != self@[j].0
        &&& forall|i: int| 0 <= i < self@.len() ==> self@[i].0 < self.next_handle
    }

    pub fn new() -> (r: Self)
        ensures
            r@ == Seq::<(u64, Seq<char>)>::empty(),
            r.wf(),
            r.next_handle == 0,
    {
        SimWorld { next_handle: 0, entities: Vec::new() }
    }

    /// Spawns an entity carrying `info` and returns its fresh handle.
    pub fn spawn(&mut self, info: PlayerInfo) -> (h: u64)
        requires
            old(self).wf(),
            old(self).next_handle < u64::MAX,
        ensures
            final(self).wf(),
            h == old(self).next_handle,
            final(self).next_handle == old(self).next_handle + 1,
            final(self)@ == old(self)@.push((h, info.deep_view())),
            spec_world_lookup(final(self)@, h) == Some(info.deep_view()),
    {
        let ghost pre = self@;
        let h = self.next_handle;
        self.entities.push((h, info));
        self.next_handle = h + 1;
        proof {
            assert(self@ =~= pre.push((h, self.entities@[pre.len() as int].1.deep_view())));
            lemma_world_lookup_unique(self@, h, pre.len() as int);
        }
        h
    }

    /// Looks up the player info attached to `h`.
    pub fn get_player_info(&self, h: u64) -> (r: Option<&PlayerInfo>)
        requires
            self.wf(),
        ensures
            match r {
                Some(info) => spec_world_lookup(self@, h) == Some(info.deep_view()),
                None => spec_world_lookup(self@, h) is None,
            },
    {
        let mut i: usize = 0;
        while i < self.entities.len()
            invariant
                self.wf(),
                i <= self@.len(),
                self@.len() == self.entities@.len(),
                forall|k: int| 0 <= k < i ==> self@[k].0 != h,
            decreases self@.len() - i,
        {
            if self.entities[i].0 == h {
                proof {
                    lemma_world_lookup_unique(self@, h, i as int);
                }
                return Some(&self.entities[i].1);
            }
            i += 1;
        }
        proof {
            lemma_world_lookup_absent(self@, h);
        }
        None
    }

    /// Removes the entity owned by `h`, if any.
    pub fn remove_entity(&mut self, h: u64)
        requires
            old(self).wf(),
        ensures
            final(self).wf(),
            final(self).next_handle == old(self).next_handle,
            !spec_world_contains(old(self)@, h) ==> final(self)@ == old(self)@,
            forall|k: int|
                0 <= k < old(self)@.len() && old(self)@[k].0 == h ==> final(self)@ == old(
                    self,
                )@.remove(k),
            !spec_world_contains(final(self)@, h),
    {
        let ghost pre = self@;
        let ghost pre_next = self.next_handle;
        let mut i: usize = 0;
        while i < self.entities.len()
            invariant
                self.wf(),
                pre == old(self)@,
                pre_next == old(self).next_handle,
                self@ == pre,
                self.next_handle == pre_next,
                i <= self@.len(),
                self@.len() == self.entities@.len(),
                forall|k: int| 0 <= k < i ==> self@[k].0 != h,
            decreases self@.len() - i,
        {
            if self.entities[i].0 == h {
                proof {
                    assert(pre[i as int].0 == h);
                }
                self.entities.remove(i);
                proof {
                    assert(self@ =~= pre.remove(i as int));
                    assert forall|k: int|
                        0 <= k < pre.len() && pre[k].0 == h implies self@ == pre.remove(k) by {
                        if k != i as int {
                            assert(pre[k].0 == pre[i as int].0);
                        }
                    }
                    assert forall|k: int| 0 <= k < self@.len() implies self@[k].0 != h by {
                        if k < i as int {
                            assert(self@[k] == pre[k]);
                        } else {
                            assert(self@[k] == pre[k + 1]);
                            assert(pre[k + 1].0 != pre[i as int].0);
                        }
                    }
                }
                return ;
            }
            i += 1;
        }
    }
}

} // verus!
