//! The environment: chained mutable scope frames holding `name -> i32`
//! bindings.  Frames live in one arena (a vector) and refer to each other by
//! index, so a frame shared between the caller and a callee's chain is one
//! object: a write through any holder is seen by all of them.
//!
//! Each frame stores its bindings as an association list with pairwise
//! distinct names; its ghost view is the finite map those entries denote, and
//! every operation's contract speaks in terms of that map.

use vstd::prelude::*;

use crate::semantics::{frames_wf, find_frame, lookup_frames, FrameView};

verus! {

/// The map an association list denotes: later entries would win, though the
/// well-formedness invariant keeps names unique.
spec fn entries_map(s: Seq<(String, i32)>) -> Map<Seq<char>, i32>
    decreases s.len(),
{
    if s.len() == 0 {
        Map::empty()
    } else {
        entries_map(s.drop_last()).insert(s.last().0@, s.last().1)
    }
}

/// Pairwise distinct binding names within one frame.
spec fn unique_names(s: Seq<(String, i32)>) -> bool {
    forall|i: int, j: int| 0 <= i < j < s.len() ==> s[i].0@ != s[j].0@
}

proof fn lemma_entries_map_absent(s: Seq<(String, i32)>, name: Seq<char>)
    requires
        forall|k: int| 0 <= k < s.len() ==> s[k].0@ != name,
    ensures
        !entries_map(s).contains_key(name),
    decreases s.len(),
{
    if s.len() > 0 {
        lemma_entries_map_absent(s.drop_last(), name);
    }
}

proof fn lemma_entries_map_found(s: Seq<(String, i32)>, idx: int)
    requires
        0 <= idx < s.len(),
        forall|k: int| idx < k < s.len() ==> s[k].0@ != s[idx].0@,
    ensures
        entries_map(s).contains_key(s[idx].0@),
        entries_map(s)[s[idx].0@] == s[idx].1,
    decreases s.len(),
{
    if idx + 1 == s.len() {
    } else {
        lemma_entries_map_found(s.drop_last(), idx);
    }
}

proof fn lemma_entries_map_update(s: Seq<(String, i32)>, idx: int, entry: (String, i32))
    requires
        0 <= idx < s.len(),
        entry.0@ == s[idx].0@,
        forall|k: int| idx < k < s.len() ==> s[k].0@ != s[idx].0@,
    ensures
        entries_map(s.update(idx, entry)) =~= entries_map(s).insert(entry.0@, entry.1),
    decreases s.len(),
{
    let updated = s.update(idx, entry);
    if idx + 1 == s.len() {
        assert(updated.drop_last() =~= s.drop_last());
    } else {
        lemma_entries_map_update(s.drop_last(), idx, entry);
        assert(updated.drop_last() =~= s.drop_last().update(idx, entry));
        assert(updated.last() == s.last());
    }
}

/// One scope frame: its bindings and the arena index of its parent, if any.
pub struct Frame {
    entries: Vec<(String, i32)>,
    parent: Option<usize>,
}

impl View for Frame {
    type V = FrameView;

    closed spec fn view(&self) -> FrameView {
        FrameView {
            bindings: entries_map(self.entries@),
            parent: match self.parent {
                Some(p) => Some(p as int),
                None => None,
            },
        }
    }
}

impl Frame {
    pub closed spec fn wf(&self) -> bool {
        unique_names(self.entries@)
    }

    /// The position of `name`'s entry, scanning in order; `None` means the
    /// frame has no binding for it.
    fn index_of(&self, name: &String) -> (r: Option<usize>)
        requires
            self.wf(),
        ensures
            match r {
                Some(i) => i < self.entries@.len() && self.entries@[i as int].0@ == name@
                    && self@.bindings.contains_key(name@)
                    && self@.bindings[name@] == self.entries@[i as int].1,
                None => {
                    &&& !self@.bindings.contains_key(name@)
                    &&& forall|k: int| 0 <= k < self.entries@.len() ==> self.entries@[k].0@ != name@
                },
            },
    {
        let mut i: usize = 0;
        while i < self.entries.len()
            invariant
                self.wf(),
                i <= self.entries@.len(),
                forall|k: int| 0 <= k < i ==> self.entries@[k].0@ != name@,
            decreases self.entries@.len() - i,
        {
            if self.entries[i].0 == *name {
                proof {
                    lemma_entries_map_found(self.entries@, i as int);
                }
                return Some(i);
            }
            i = i + 1;
        }
        proof {
            lemma_entries_map_absent(self.entries@, name@);
        }
        None
    }

    /// The value bound to `name` in this frame alone, not consulting parents.
    fn get_value(&self, name: &String) -> (r: Option<i32>)
        requires
            self.wf(),
        ensures
            r == if self@.bindings.contains_key(name@) {
                Some(self@.bindings[name@])
            } else {
                None::<i32>
            },
    {
        match self.index_of(name) {
            Some(i) => Some(self.entries[i].1),
            None => None,
        }
    }

    /// Writes `name = value` into this frame, overwriting an existing entry
    /// or appending a fresh one.
    fn set(&mut self, name: String, value: i32)
        requires
            old(self).wf(),
        ensures
            final(self).wf(),
            final(self)@ == (FrameView {
                bindings: old(self)@.bindings.insert(name@, value),
                parent: old(self)@.parent,
            }),
    {
        match self.index_of(&name) {
            Some(i) => {
                proof {
                    lemma_entries_map_update(self.entries@, i as int, (name, value));
                }
                self.entries[i] = (name, value);
                assert(unique_names(self.entries@));
            },
            None => {
                let ghost before = self.entries@;
                self.entries.push((name, value));
                proof {
                    assert(self.entries@.drop_last() =~= before);
                    assert(unique_names(self.entries@));
                }
            },
        }
    }
}

/// The arena of scope frames; index 0 is the root frame, created once and
/// alive for the whole run.
pub struct Environment {
    frames: Vec<Frame>,
}

impl View for Environment {
    type V = Seq<FrameView>;

    closed spec fn view(&self) -> Seq<FrameView> {
        Seq::new(self.frames@.len() as nat, |i: int| self.frames@[i]@)
    }
}

impl Environment {
    /// Every frame's entry names are unique and the parent links are
    /// acyclic, root first.
    pub closed spec fn wf(&self) -> bool {
        &&& frames_wf(self@)
        &&& forall|i: int| 0 <= i < self.frames@.len() ==> (#[trigger] self.frames@[i]).wf()
    }

    /// A fresh environment holding exactly the empty root frame.
    pub fn new() -> (r: Self)
        ensures
            r.wf(),
            r@ == crate::semantics::initial_state().frames,
    {
        let mut frames: Vec<Frame> = Vec::new();
        frames.push(Frame { entries: Vec::new(), parent: None });
        let r = Environment { frames };
        proof {
            assert(r@ =~= crate::semantics::initial_state().frames);
        }
        r
    }

    /// Allocates an empty frame whose parent is `parent`, returning its
    /// index.
    pub fn new_child(&mut self, parent: usize) -> (child: usize)
        requires
            old(self).wf(),
            parent < old(self)@.len(),
        ensures
            final(self).wf(),
            child == old(self)@.len(),
            final(self)@ == old(self)@.push(
                FrameView { bindings: Map::empty(), parent: Some(parent as int) },
            ),
    {
        let child = self.frames.len();
        self.frames.push(Frame { entries: Vec::new(), parent: Some(parent) });
        proof {
            assert(self@ =~= old(self)@.push(
                FrameView { bindings: Map::empty(), parent: Some(parent as int) },
            ));
        }
        child
    }

    /// Writes `name = value` into exactly the frame `frame` — never an
    /// ancestor, so the write always shadows or creates rather than mutating
    /// an outer binding.
    pub fn define_or_overwrite(&mut self, frame: usize, name: String, value: i32)
        requires
            old(self).wf(),
            frame < old(self)@.len(),
        ensures
            final(self).wf(),
            final(self)@ == old(self)@.update(
                frame as int,
                FrameView {
                    bindings: old(self)@[frame as int].bindings.insert(name@, value),
                    parent: old(self)@[frame as int].parent,
                },
            ),
    {
        let fr = &mut self.frames[frame];
        fr.set(name, value);
        proof {
            assert(self@ =~= old(self)@.update(
                frame as int,
                FrameView {
                    bindings: old(self)@[frame as int].bindings.insert(name@, value),
                    parent: old(self)@[frame as int].parent,
                },
            ));
        }
    }

    /// The index of the first frame on the chain from `frame` toward the
    /// root that binds `name`.
    pub fn find_binding(&self, frame: usize, name: &String) -> (r: Option<usize>)
        requires
            self.wf(),
            frame < self@.len(),
        ensures
            match r {
                Some(i) => i < self@.len() && find_frame(self@, frame as int, name@) == Some(
                    i as int,
                ) && self@[i as int].bindings.contains_key(name@),
                None => find_frame(self@, frame as int, name@) is None,
            },
    {
        let mut cur = frame;
        loop
            invariant
                self.wf(),
                cur < self@.len(),
                find_frame(self@, frame as int, name@) == find_frame(self@, cur as int, name@),
            decreases cur,
        {
            let has = self.frames[cur].get_value(name);
            if has.is_some() {
                return Some(cur);
            }
            match self.frames[cur].parent {
                Some(p) => {
                    proof {
                        assert(self@[cur as int].parent == Some(p as int));
                    }
                    cur = p;
                },
                None => {
                    return None;
                },
            }
        }
    }

    /// The value bound to `name` on the chain from `frame` toward the root;
    /// the first binding found wins.
    pub fn lookup(&self, frame: usize, name: &String) -> (r: Option<i32>)
        requires
            self.wf(),
            frame < self@.len(),
        ensures
            r == lookup_frames(self@, frame as int, name@),
    {
        match self.find_binding(frame, name) {
            Some(i) => {
                proof {
                    assert(self@[i as int] == self.frames@[i as int]@);
                }
                self.frames[i].get_value(name)
            },
            None => None,
        }
    }
}

} // verus!
