use crate::datum::{dv, Datum, DatumV};
use crate::error::RuntimeError;
use std::rc::Rc;
use vstd::prelude::*;

verus! {

/// Character-wise equality of two names.
pub fn names_eq(a: &Vec<char>, b: &Vec<char>) -> (r: bool)
    ensures
        r == (a@ == b@),
{
    if a.len() != b.len() {
        return false;
    }
    let mut i: usize = 0;
    while i < a.len()
        invariant
            i <= a@.len(),
            a@.len() == b@.len(),
            forall|j: int| 0 <= j < i ==> a@[j] == b@[j],
        decreases a@.len() - i,
    {
        if a[i] != b[i] {
            return false;
        }
        i = i + 1;
    }
    proof {
        assert(a@ =~= b@);
    }
    true
}

/// A flat name-to-value table with unique names: one frame of an
/// environment, a macro matcher's capture table, or a macro's snapshot of
/// free variables.  Its view is the map it denotes.
pub struct Bindings {
    pairs: Vec<(Rc<Vec<char>>, Datum)>,
}

/// Views of a table's entries, in insertion order.
pub open spec fn entry_views(pairs: Seq<(Rc<Vec<char>>, Datum)>) -> Seq<(Seq<char>, DatumV)> {
    pairs.map_values(|p: (Rc<Vec<char>>, Datum)| (p.0@, dv(p.1)))
}

impl Bindings {
    /// The entries, as (name, value) views in insertion order.
    pub closed spec fn entries(self) -> Seq<(Seq<char>, DatumV)> {
        entry_views(self.pairs@)
    }

    /// Names are unique, so the entries denote a map.
    pub open spec fn wf(self) -> bool {
        forall|i: int, j: int|
            0 <= i < j < self.entries().len() ==> self.entries()[i].0 != self.entries()[j].0
    }

    pub open spec fn dom(self) -> Set<Seq<char>> {
        Set::new(|k: Seq<char>| exists|i: int| 0 <= i < self.entries().len() && self.entries()[i].0 == k)
    }

    /// The index of the entry for a name, when one exists.
    pub open spec fn index_of(self, k: Seq<char>) -> int {
        choose|i: int| 0 <= i < self.entries().len() && self.entries()[i].0 == k
    }

    pub open spec fn spec_get(self, k: Seq<char>) -> Option<DatumV> {
        if self.dom().contains(k) {
            Some(self.entries()[self.index_of(k)].1)
        } else {
            None
        }
    }
}

impl View for Bindings {
    type V = Map<Seq<char>, DatumV>;

    open spec fn view(&self) -> Map<Seq<char>, DatumV> {
        Map::new(|k: Seq<char>| self.dom().contains(k), |k: Seq<char>| self.spec_get(k)->Some_0)
    }
}

impl Bindings {
    pub fn new() -> (r: Self)
        ensures
            r@ == Map::<Seq<char>, DatumV>::empty(),
            r.wf(),
            r.entries() =~= Seq::<(Seq<char>, DatumV)>::empty(),
    {
        let r = Bindings { pairs: Vec::new() };
        proof {
            assert(r.entries() =~= Seq::<(Seq<char>, DatumV)>::empty());
            assert(r@ =~= Map::<Seq<char>, DatumV>::empty());
        }
        r
    }

    pub fn len(&self) -> (r: usize)
        ensures
            r == self.entries().len(),
    {
        self.pairs.len()
    }

    /// The name of the entry at a position.
    pub fn name_at(&self, i: usize) -> (r: Rc<Vec<char>>)
        requires
            i < self.entries().len(),
        ensures
            r@ == self.entries()[i as int].0,
    {
        crate::datum::rc_clone(&self.pairs[i].0)
    }

    /// The value of the entry at a position.
    pub fn value_at(&self, i: usize) -> (r: Datum)
        requires
            i < self.entries().len(),
        ensures
            r@ == self.entries()[i as int].1,
    {
        self.pairs[i].1.clone()
    }

    /// The position of a name, searched front to back.
    fn find(&self, name: &Vec<char>) -> (r: Option<usize>)
        ensures
            match r {
                Some(i) => i < self.entries().len() && self.entries()[i as int].0 == name@,
                None => !self.dom().contains(name@),
            },
    {
        let mut i: usize = 0;
        while i < self.pairs.len()
            invariant
                i <= self.entries().len(),
                self.entries().len() == self.pairs@.len(),
                forall|j: int| 0 <= j < i ==> self.entries()[j].0 != name@,
            decreases self.pairs@.len() - i,
        {
            if names_eq(&self.pairs[i].0, name) {
                proof {
                    assert(self.entries()[i as int].0 == name@);
                }
                return Some(i);
            }
            proof {
                assert(self.entries()[i as int].0 == self.pairs@[i as int].0@);
            }
            i = i + 1;
        }
        None
    }

    pub fn contains(&self, name: &Vec<char>) -> (r: bool)
        ensures
            r == self.dom().contains(name@),
    {
        match self.find(name) {
            Some(_) => true,
            None => false,
        }
    }

    /// A copy of the bound value, or `None`.
    pub fn get(&self, name: &Vec<char>) -> (r: Option<Datum>)
        requires
            self.wf(),
        ensures
            match r {
                Some(d) => self.dom().contains(name@) && self@[name@] == d@ && self.spec_get(name@)
                    == Some(d@),
                None => !self.dom().contains(name@),
            },
    {
        match self.find(name) {
            Some(i) => {
                let d = self.pairs[i].1.clone();
                proof {
                    let j = self.index_of(name@);
                    assert(0 <= j < self.entries().len() && self.entries()[j].0 == name@);
                    assert(j == i as int);
                }
                Some(d)
            },
            None => None,
        }
    }

    /// Binds a name, replacing any previous entry for it.
    pub fn define(&mut self, name: Rc<Vec<char>>, value: Datum)
        requires
            old(self).wf(),
        ensures
            final(self).wf(),
            final(self)@ == old(self)@.insert(name@, value@),
            final(self).dom() == old(self).dom().insert(name@),
            old(self).dom().contains(name@) ==> final(self).entries() =~= old(self).entries().update(old(self).index_of(name@), (name@, value@)),
            !old(self).dom().contains(name@) ==> final(self).entries() =~= old(self).entries().push((name@, value@)),
    {
        let ghost pre = *self;
        match self.find(&name) {
            Some(i) => {
                self.pairs[i] = (name, value);
                proof {
                    let gi = pre.index_of(name@);
                    assert(0 <= gi < pre.entries().len() && pre.entries()[gi].0 == name@);
                    assert(gi == i as int);
                    assert(self.entries() =~= pre.entries().update(i as int, (name@, value@)));
                    lemma_entries_update(pre, *self, name@, value@, i as int);
                }
            },
            None => {
                self.pairs.push((name, value));
                proof {
                    assert(self.entries() =~= pre.entries().push((name@, value@)));
                    lemma_entries_push(pre, *self, name@, value@);
                }
            },
        }
    }
}

/// In a well-formed table, each entry is the map's value for its name.
pub proof fn lemma_bindings_entry(b: Bindings, i: int)
    requires
        b.wf(),
        0 <= i < b.entries().len(),
    ensures
        b.dom().contains(b.entries()[i].0),
        b@[b.entries()[i].0] == b.entries()[i].1,
{
    let k = b.entries()[i].0;
    assert(b.dom().contains(k));
    let j = b.index_of(k);
    assert(0 <= j < b.entries().len() && b.entries()[j].0 == k);
    assert(j == i);
}

proof fn lemma_entries_update(
    pre: Bindings,
    post: Bindings,
    name: Seq<char>,
    value: DatumV,
    i: int,
)
    requires
        pre.wf(),
        0 <= i < pre.entries().len(),
        pre.entries()[i].0 == name,
        post.entries() == pre.entries().update(i, (name, value)),
    ensures
        post.wf(),
        post@ == pre@.insert(name, value),
        post.dom() == pre.dom().insert(name),
{
    assert forall|k: Seq<char>| post.dom().contains(k) <==> pre.dom().contains(k) || k == name by {
        if post.dom().contains(k) {
            let j = choose|j: int| 0 <= j < post.entries().len() && post.entries()[j].0 == k;
            if j == i {
            } else {
                assert(pre.entries()[j].0 == k);
            }
        }
        if pre.dom().contains(k) {
            let j = choose|j: int| 0 <= j < pre.entries().len() && pre.entries()[j].0 == k;
            if j == i {
                assert(post.entries()[i].0 == name);
            } else {
                assert(post.entries()[j].0 == k);
            }
        }
        if k == name {
            assert(post.entries()[i].0 == k);
        }
    }
    assert(post.dom() =~= pre.dom().insert(name));
    assert forall|k: Seq<char>| post.dom().contains(k) implies post@[k] == pre@.insert(
        name,
        value,
    )[k] by {
        let j = post.index_of(k);
        assert(0 <= j < post.entries().len() && post.entries()[j].0 == k);
        if k == name {
            if j != i {
                assert(pre.entries()[j].0 == k);
                assert(pre.entries()[i].0 == k);
            }
            assert(post@[k] == value);
        } else {
            assert(j != i);
            assert(pre.entries()[j].0 == k);
            let pj = pre.index_of(k);
            assert(0 <= pj < pre.entries().len() && pre.entries()[pj].0 == k);
            assert(pj == j);
            assert(post@[k] == pre@[k]);
        }
    }
    assert(post@ =~= pre@.insert(name, value));
}

proof fn lemma_entries_push(pre: Bindings, post: Bindings, name: Seq<char>, value: DatumV)
    requires
        pre.wf(),
        !pre.dom().contains(name),
        post.entries() == pre.entries().push((name, value)),
    ensures
        post.wf(),
        post@ == pre@.insert(name, value),
        post.dom() == pre.dom().insert(name),
{
    let n = pre.entries().len() as int;
    assert forall|i: int, j: int| 0 <= i < j < post.entries().len() implies post.entries()[i].0
        != post.entries()[j].0 by {
        if j < n {
            assert(pre.entries()[i].0 != pre.entries()[j].0);
        } else {
            assert(post.entries()[j].0 == name);
            assert(pre.entries()[i].0 == post.entries()[i].0);
        }
    }
    assert forall|k: Seq<char>| post.dom().contains(k) <==> pre.dom().contains(k) || k == name by {
        if post.dom().contains(k) {
            let j = choose|j: int| 0 <= j < post.entries().len() && post.entries()[j].0 == k;
            if j < n {
                assert(pre.entries()[j].0 == k);
            }
        }
        if pre.dom().contains(k) {
            let j = choose|j: int| 0 <= j < pre.entries().len() && pre.entries()[j].0 == k;
            assert(post.entries()[j].0 == k);
        }
        if k == name {
            assert(post.entries()[n].0 == k);
        }
    }
    assert(post.dom() =~= pre.dom().insert(name));
    assert forall|k: Seq<char>| post.dom().contains(k) implies post@[k] == pre@.insert(
        name,
        value,
    )[k] by {
        let j = post.index_of(k);
        assert(0 <= j < post.entries().len() && post.entries()[j].0 == k);
        if k == name {
            if j < n {
                assert(pre.entries()[j].0 == k);
            }
            assert(post@[k] == value);
        } else {
            assert(j < n);
            assert(pre.entries()[j].0 == k);
            let pj = pre.index_of(k);
            assert(pj == j);
        }
    }
    assert(post@ =~= pre@.insert(name, value));
}

/// One environment frame: its bindings and the index of its parent in the
/// arena, if any.
pub struct Frame {
    pub parent: Option<usize>,
    pub binds: Bindings,
}

/// The arena of environment frames.  Frames are created at interpreter
/// start (the global frame), at each closure call, at `letrec` entry, and
/// at macro expansion; a frame's parent always precedes it in the arena, so
/// name resolution terminates.
pub struct EnvArena {
    frames: Vec<Frame>,
}

impl EnvArena {
    pub closed spec fn frame_count(self) -> nat {
        self.frames@.len()
    }

    pub closed spec fn parent_of(self, e: int) -> Option<usize> {
        self.frames@[e].parent
    }

    pub closed spec fn frame_dom(self, e: int) -> Set<Seq<char>> {
        self.frames@[e].binds.dom()
    }

    pub closed spec fn frame_get(self, e: int, name: Seq<char>) -> Option<DatumV> {
        self.frames@[e].binds.spec_get(name)
    }

    pub closed spec fn frames_wf(self) -> bool {
        forall|i: int|
            0 <= i < self.frames@.len() ==> (#[trigger] self.frames@[i]).binds.wf()
                && match self.frames@[i].parent {
                Some(p) => p < i,
                None => true,
            }
    }

    pub open spec fn wf(self) -> bool {
        self.frames_wf()
    }

    pub open spec fn valid(self, e: int) -> bool {
        0 <= e < self.frame_count()
    }

    /// Name resolution: the value in the nearest frame on the parent chain
    /// that binds the name.
    pub open spec fn lookup(self, e: int, name: Seq<char>) -> Option<DatumV>
        decreases e,
    {
        if !self.valid(e) {
            None
        } else if self.frame_dom(e).contains(name) {
            self.frame_get(e, name)
        } else {
            match self.parent_of(e) {
                Some(p) => if 0 <= p < e {
                    self.lookup(p as int, name)
                } else {
                    None
                },
                None => None,
            }
        }
    }

    /// The nearest frame on the parent chain that binds the name.
    pub open spec fn owner(self, e: int, name: Seq<char>) -> Option<int>
        decreases e,
    {
        if !self.valid(e) {
            None
        } else if self.frame_dom(e).contains(name) {
            Some(e)
        } else {
            match self.parent_of(e) {
                Some(p) => if 0 <= p < e {
                    self.owner(p as int, name)
                } else {
                    None
                },
                None => None,
            }
        }
    }

    /// An arena holding only the empty global frame.
    pub fn new() -> (r: Self)
        ensures
            r.wf(),
            r.frame_count() == 1,
            r.parent_of(0) is None,
            r.frame_dom(0) =~= Set::<Seq<char>>::empty(),
    {
        let mut frames: Vec<Frame> = Vec::new();
        frames.push(Frame { parent: None, binds: Bindings::new() });
        let r = EnvArena { frames };
        proof {
            assert(r.frame_dom(0) =~= Set::<Seq<char>>::empty());
        }
        r
    }

    pub fn count(&self) -> (r: usize)
        ensures
            r == self.frame_count(),
    {
        self.frames.len()
    }

    /// Appends a fresh empty frame whose parent is `parent`.
    pub fn new_child(&mut self, parent: usize) -> (id: usize)
        requires
            old(self).wf(),
            parent < old(self).frame_count(),
        ensures
            final(self).wf(),
            id == old(self).frame_count(),
            final(self).frame_count() == old(self).frame_count() + 1,
            final(self).parent_of(id as int) == Some(parent),
            final(self).frame_dom(id as int) =~= Set::<Seq<char>>::empty(),
            forall|e: int|
                0 <= e < old(self).frame_count() ==> final(self).parent_of(e) == old(self).parent_of(e) && final(self).frame_dom(e) == old(self).frame_dom(e) && forall|
                    n: Seq<char>,
                |
                    final(self).frame_get(e, n) == old(self).frame_get(e, n),
            forall|e: int, n: Seq<char>|
                0 <= e < old(self).frame_count() ==> #[trigger] final(self).lookup(e, n) == old(self).lookup(e, n) && final(self).owner(e, n) == old(self).owner(e, n),
    {
        let id = self.frames.len();
        self.frames.push(Frame { parent: Some(parent), binds: Bindings::new() });
        proof {
            assert(self.frame_dom(id as int) =~= Set::<Seq<char>>::empty());
            assert forall|e: int, n: Seq<char>|
                0 <= e < old(self).frame_count() implies #[trigger] self.lookup(e, n) == old(self).lookup(e, n) && self.owner(e, n) == old(self).owner(e, n) by {
                lemma_lookup_frozen(*old(self), *self, e, n);
            }
        }
        id
    }

    /// Binds a name in exactly the given frame, shadowing any parent
    /// binding.
    pub fn define(&mut self, e: usize, name: Rc<Vec<char>>, value: Datum)
        requires
            old(self).wf(),
            e < old(self).frame_count(),
        ensures
            final(self).wf(),
            final(self).frame_count() == old(self).frame_count(),
            forall|i: int|
                0 <= i < final(self).frame_count() ==> final(self).parent_of(i) == old(self).parent_of(i),
            final(self).frame_dom(e as int) == old(self).frame_dom(e as int).insert(name@),
            final(self).frame_get(e as int, name@) == Some(value@),
            forall|i: int, n: Seq<char>|
                0 <= i < final(self).frame_count() && (i != e || n != name@) ==> #[trigger] final(self).frame_get(i, n) == old(self).frame_get(i, n) && final(self).frame_dom(
                    i,
                ).contains(n) == old(self).frame_dom(i).contains(n),
    {
        let f = &mut self.frames[e];
        f.binds.define(name, value);
        proof {
            assert(self.frames@[e as int].binds@ == old(self).frames@[e as int].binds@.insert(
                name@,
                value@,
            ));
            assert forall|i: int, n: Seq<char>|
                0 <= i < self.frame_count() && (i != e || n != name@) implies #[trigger] self
                .frame_get(i, n) == old(self).frame_get(i, n) && self.frame_dom(i).contains(n)
                == old(self).frame_dom(i).contains(n) by {
                if i == e {
                    lemma_spec_get_after_insert(
                        old(self).frames@[i].binds,
                        self.frames@[i].binds,
                        name@,
                        value@,
                        n,
                    );
                } else {
                }
            }
            lemma_spec_get_after_insert(
                old(self).frames@[e as int].binds,
                self.frames@[e as int].binds,
                name@,
                value@,
                name@,
            );
        }
    }

    /// A copy of the value bound to the name on the parent chain.
    pub fn get(&self, e: usize, name: &Vec<char>) -> (r: Option<Datum>)
        requires
            self.wf(),
            e < self.frame_count(),
        ensures
            match r {
                Some(d) => self.lookup(e as int, name@) == Some(d@),
                None => self.lookup(e as int, name@) is None,
            },
    {
        let mut cur: usize = e;
        loop
            invariant
                self.wf(),
                cur < self.frame_count(),
                self.lookup(e as int, name@) == self.lookup(cur as int, name@),
            decreases cur,
        {
            match self.frames[cur].binds.get(name) {
                Some(d) => {
                    return Some(d);
                },
                None => {
                    match self.frames[cur].parent {
                        Some(p) => {
                            cur = p;
                        },
                        None => {
                            return None;
                        },
                    }
                },
            }
        }
    }

    /// Mutates the binding in the nearest frame that holds the name, or
    /// reports the name unbound.
    pub fn assign(&mut self, e: usize, name: Rc<Vec<char>>, value: Datum) -> (r: Result<
        (),
        RuntimeError,
    >)
        requires
            old(self).wf(),
            e < old(self).frame_count(),
        ensures
            final(self).wf(),
            final(self).frame_count() == old(self).frame_count(),
            forall|i: int|
                0 <= i < final(self).frame_count() ==> final(self).parent_of(i) == old(self).parent_of(i),
            match r {
                Ok(()) => {
                    let own = old(self).owner(e as int, name@);
                    &&& own is Some
                    &&& final(self).frame_get(own->Some_0, name@) == Some(value@)
                    &&& final(self).frame_dom(own->Some_0) == old(self).frame_dom(own->Some_0)
                    &&& forall|i: int, n: Seq<char>|
                        0 <= i < final(self).frame_count() && (i != own->Some_0 || n != name@)
                            ==> #[trigger] final(self).frame_get(i, n) == old(self).frame_get(i, n)
                            && final(self).frame_dom(i).contains(n) == old(self).frame_dom(
                            i,
                        ).contains(n)
                },
                Err(err) => {
                    &&& old(self).owner(e as int, name@) is None
                    &&& err matches RuntimeError::Unbound(u) && u@ == name@
                    &&& *final(self) == *old(self)
                },
            },
    {
        let mut cur: usize = e;
        loop
            invariant
                self.wf(),
                *self == *old(self),
                cur < self.frame_count(),
                old(self).owner(e as int, name@) == old(self).owner(cur as int, name@),
            decreases cur,
        {
            if self.frames[cur].binds.contains(&name) {
                proof {
                    assert(old(self).owner(e as int, name@) == Some(cur as int));
                }
                let ghost pre = *self;
                let f = &mut self.frames[cur];
                f.binds.define(name, value);
                proof {
                    assert forall|i: int, n: Seq<char>|
                        0 <= i < self.frame_count() && (i != cur as int || n != name@)
                        implies #[trigger] self.frame_get(i, n) == pre.frame_get(i, n)
                        && self.frame_dom(i).contains(n) == pre.frame_dom(i).contains(n) by {
                        if i == cur as int {
                            lemma_spec_get_after_insert(
                                pre.frames@[i].binds,
                                self.frames@[i].binds,
                                name@,
                                value@,
                                n,
                            );
                        }
                    }
                    lemma_spec_get_after_insert(
                        pre.frames@[cur as int].binds,
                        self.frames@[cur as int].binds,
                        name@,
                        value@,
                        name@,
                    );
                    assert(self.frame_dom(cur as int) =~= pre.frame_dom(cur as int));
                }
                return Ok(());
            }
            match self.frames[cur].parent {
                Some(p) => {
                    cur = p;
                },
                None => {
                    let n: Vec<char> = copy_name(&name);
                    return Err(RuntimeError::Unbound(n));
                },
            }
        }
    }
}

/// A fresh `Vec` holding the same characters.
pub fn copy_name(name: &Vec<char>) -> (r: Vec<char>)
    ensures
        r@ == name@,
{
    let mut r: Vec<char> = Vec::new();
    let mut i: usize = 0;
    while i < name.len()
        invariant
            i <= name@.len(),
            r@ =~= name@.subrange(0, i as int),
        decreases name@.len() - i,
    {
        r.push(name[i]);
        proof {
            assert(r@ =~= name@.subrange(0, i + 1));
        }
        i = i + 1;
    }
    proof {
        assert(name@.subrange(0, name@.len() as int) =~= name@);
    }
    r
}

proof fn lemma_spec_get_after_insert(
    pre: Bindings,
    post: Bindings,
    name: Seq<char>,
    value: DatumV,
    n: Seq<char>,
)
    requires
        pre.wf(),
        post.wf(),
        post@ == pre@.insert(name, value),
        post.dom() == pre.dom().insert(name),
    ensures
        n == name ==> post.spec_get(n) == Some(value),
        n != name ==> post.spec_get(n) == pre.spec_get(n),
{
    if n == name {
        assert(post.dom().contains(n));
        assert(post.spec_get(n) == Some(post@[n]));
    } else {
        if post.dom().contains(n) {
            assert(pre.dom().contains(n));
            assert(post@[n] == pre@[n]);
            assert(post.spec_get(n) == Some(post@[n]));
            assert(pre.spec_get(n) == Some(pre@[n]));
        } else {
            assert(!pre.dom().contains(n));
        }
    }
}

proof fn lemma_lookup_frozen(pre: EnvArena, post: EnvArena, e: int, n: Seq<char>)
    requires
        pre.wf(),
        post.wf(),
        0 <= e < pre.frame_count(),
        pre.frame_count() <= post.frame_count(),
        forall|i: int|
            0 <= i < pre.frame_count() ==> post.parent_of(i) == pre.parent_of(i)
                && post.frame_dom(i) == pre.frame_dom(i) && forall|m: Seq<char>|
                post.frame_get(i, m) == pre.frame_get(i, m),
    ensures
        post.lookup(e, n) == pre.lookup(e, n),
        post.owner(e, n) == pre.owner(e, n),
    decreases e,
{
    if !pre.frame_dom(e).contains(n) {
        match pre.parent_of(e) {
            Some(p) => {
                if 0 <= p < e {
                    lemma_lookup_frozen(pre, post, p as int, n);
                }
            },
            None => {},
        }
    }
}

} // verus!
