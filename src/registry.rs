//! The registry of one interface: bindings from tags to constructors.
//!
//! It is filled once, before it is read; a tag is bound at most once, and a
//! second binding of the same tag is refused, never merged.

use vstd::prelude::*;
use crate::tag::{arg_text, is_shown, lemma_single_argument_tag, tag_of, GenericArg, TypeDesc};

verus! {

/// A tag together with the constructor that rebuilds values of the one type
/// it names.
pub struct Binding<C> {
    pub tag: String,
    pub ctor: C,
}

/// A registry of bindings; its view maps each bound tag to its constructor.
pub struct Registry<C> {
    entries: Vec<Binding<C>>,
    model: Ghost<Map<Seq<char>, C>>,
}

/// What can go wrong in filling or reading a registry.
pub enum RegistryError {
    /// The tag is bound already.
    DuplicateTag { tag: String },
    /// No binding has the tag; `known` lists the tags that are bound.
    UnknownTag { tag: String, known: Vec<String> },
}

/// What reading a tagged payload can fail with.
pub enum DecodeError<E> {
    /// No binding has the tag; `known` lists the tags that are bound.
    UnknownTag { tag: String, known: Vec<String> },
    /// The bound constructor refused the payload.
    Payload(E),
}

impl<C> View for Registry<C> {
    type V = Map<Seq<char>, C>;

    closed spec fn view(&self) -> Map<Seq<char>, C> {
        self.model@
    }
}

/// `tags` lists each tag bound in `m` exactly once, and nothing else.
pub open spec fn lists_tags<C>(tags: Seq<String>, m: Map<Seq<char>, C>) -> bool {
    &&& forall|i: int| 0 <= i < tags.len() ==> m.contains_key(#[trigger] tags[i]@)
    &&& forall|k: Seq<char>| #[trigger] m.contains_key(k) ==> exists|i: int|
        0 <= i < tags.len() && tags[i]@ == k
    &&& forall|i: int, j: int| 0 <= i < j < tags.len() ==> tags[i]@ != tags[j]@
}

/// One concrete instantiation of a generic implementer: its type arguments
/// and the constructor specialised for exactly that instantiation.
pub struct Instantiation<C> {
    pub args: Vec<GenericArg>,
    pub ctor: C,
}

/// The tag of the instantiation of `base` with `args`.
pub open spec fn instance_tag(base: String, args: Vec<GenericArg>) -> Seq<char> {
    tag_of(TypeDesc::Named { base, args })
}

/// The tags and constructors of bindings, in order.
pub open spec fn binding_pairs<C>(bs: Seq<Binding<C>>) -> Seq<(Seq<char>, C)> {
    bs.map_values(|b: Binding<C>| (b.tag@, b.ctor))
}

/// The tags and constructors of the instantiations of `base`, in order.
pub open spec fn instance_pairs<C>(base: String, gs: Seq<Instantiation<C>>) -> Seq<(Seq<char>, C)> {
    gs.map_values(|g: Instantiation<C>| (instance_tag(base, g.args), g.ctor))
}

/// `m` with each pair of `ps` bound in turn.
pub open spec fn bind_all<C>(m: Map<Seq<char>, C>, ps: Seq<(Seq<char>, C)>) -> Map<Seq<char>, C>
    decreases ps.len(),
{
    if ps.len() == 0 {
        m
    } else {
        bind_all(m, ps.drop_last()).insert(ps.last().0, ps.last().1)
    }
}

/// Each pair's tag is still unbound when its turn comes.
pub open spec fn binds_fresh<C>(m: Map<Seq<char>, C>, ps: Seq<(Seq<char>, C)>) -> bool {
    forall|i: int| 0 <= i < ps.len() ==> !#[trigger] bind_all(m, ps.take(i)).contains_key(ps[i].0)
}

/// `ps[i]` is the first pair whose tag is bound already when its turn comes.
pub open spec fn first_clash<C>(m: Map<Seq<char>, C>, ps: Seq<(Seq<char>, C)>, i: int) -> bool {
    &&& 0 <= i < ps.len()
    &&& bind_all(m, ps.take(i)).contains_key(ps[i].0)
    &&& binds_fresh(m, ps.take(i))
}

/// The outcome of binding the pairs `ps` in turn, on a registry viewed as
/// `before` and then as `after`: all are bound if each tag is fresh when its
/// turn comes; else the first clash is reported, with the pairs before it
/// bound.
pub open spec fn batch_outcome<C>(
    before: Map<Seq<char>, C>,
    ps: Seq<(Seq<char>, C)>,
    r: Result<(), RegistryError>,
    after: Map<Seq<char>, C>,
) -> bool {
    &&& r is Ok <==> binds_fresh(before, ps)
    &&& r is Ok ==> after == bind_all(before, ps)
    &&& r is Err ==> exists|i: int|
        first_clash(before, ps, i) && (r matches Err(RegistryError::DuplicateTag { tag: t })
            && t@ == ps[i].0) && after == bind_all(before, ps.take(i))
}

/// Once a fresh tag is bound to a constructor, the tag is known and looking
/// it up yields exactly that constructor.
pub proof fn lemma_lookup_after_register<C>(m: Map<Seq<char>, C>, tag: Seq<char>, ctor: C)
    requires
        !m.contains_key(tag),
    ensures
        m.insert(tag, ctor).contains_key(tag),
        m.insert(tag, ctor)[tag] == ctor,
{
}

/// Registering a tag a second time is refused: after the first binding the
/// tag is bound, and a registration of a bound tag keeps the registry as it
/// was and reports the duplicate.
pub proof fn lemma_second_registration_refused<C>(m: Map<Seq<char>, C>, tag: Seq<char>, first: C)
    ensures
        m.insert(tag, first).contains_key(tag),
{
}

/// Every tag among the first `n` pairs is bound after they are.
proof fn lemma_bound_after<C>(m: Map<Seq<char>, C>, ps: Seq<(Seq<char>, C)>, i: int)
    requires
        0 <= i < ps.len(),
    ensures
        bind_all(m, ps).contains_key(ps[i].0),
    decreases ps.len(),
{
    if i < ps.len() - 1 {
        lemma_bound_after(m, ps.drop_last(), i);
    }
}

/// Two submitted records with one tag are never both bound: building a
/// registry from them is refused.
pub proof fn lemma_duplicate_records_refused<C>(ps: Seq<(Seq<char>, C)>, i: int, j: int)
    requires
        0 <= i < j < ps.len(),
        ps[i].0 == ps[j].0,
    ensures
        !binds_fresh(Map::<Seq<char>, C>::empty(), ps),
{
    lemma_bound_after(Map::<Seq<char>, C>::empty(), ps.take(j), i);
    assert(bind_all(Map::<Seq<char>, C>::empty(), ps.take(j)).contains_key(ps[j].0));
}

/// Two instantiations of one generic type with one argument each are told
/// apart by their tags whenever their arguments are: registering one leaves
/// the other unknown.
pub proof fn lemma_instances_distinct(base: String, a: Vec<GenericArg>, b: Vec<GenericArg>)
    requires
        a.len() == 1,
        b.len() == 1,
        is_shown(a[0]),
        is_shown(b[0]),
        arg_text(a[0]) != arg_text(b[0]),
    ensures
        instance_tag(base, a) != instance_tag(base, b),
{
    lemma_single_argument_tag(base, a);
    lemma_single_argument_tag(base, b);
    let ta = instance_tag(base, a);
    let tb = instance_tag(base, b);
    let n: int = base@.len() as int + 1;
    if ta == tb {
        assert(ta.len() == tb.len());
        assert(ta.subrange(n, ta.len() - 1) =~= arg_text(a[0]));
        assert(tb.subrange(n, tb.len() - 1) =~= arg_text(b[0]));
    }
}

impl<C> Registry<C> {
    /// The entries hold distinct tags, and the view is exactly their bindings.
    pub closed spec fn wf(&self) -> bool {
        &&& forall|i: int, j: int|
            0 <= i < j < self.entries.len() ==> self.entries[i].tag@ != self.entries[j].tag@
        &&& forall|i: int|
            0 <= i < self.entries.len() ==> {
                &&& self.model@.contains_key(#[trigger] self.entries[i].tag@)
                &&& self.model@[self.entries[i].tag@] == self.entries[i].ctor
            }
        &&& forall|k: Seq<char>| #[trigger]
            self.model@.contains_key(k) ==> exists|i: int|
                0 <= i < self.entries.len() && self.entries[i].tag@ == k
    }

    /// An empty registry.
    pub fn new() -> (r: Self)
        ensures
            r.wf(),
            r@ == Map::<Seq<char>, C>::empty(),
    {
        Registry { entries: Vec::new(), model: Ghost(Map::empty()) }
    }

    /// The index of the entry that holds `tag`, if any.
    fn find(&self, tag: &String) -> (r: Option<usize>)
        requires
            self.wf(),
        ensures
            r is None <==> !self@.contains_key(tag@),
            r matches Some(i) ==> i < self.entries.len() && self.entries[i as int].tag@ == tag@,
    {
        let mut i: usize = 0;
        while i < self.entries.len()
            invariant
                self.wf(),
                0 <= i <= self.entries.len(),
                forall|j: int| 0 <= j < i ==> self.entries[j].tag@ != tag@,
            decreases self.entries.len() - i,
        {
            if self.entries[i].tag.eq(tag) {
                assert(self.model@.contains_key(self.entries[i as int].tag@));
                return Some(i);
            }
            i = i + 1;
        }
        None
    }

    /// Whether `tag` is bound.
    pub fn contains(&self, tag: &String) -> (r: bool)
        requires
            self.wf(),
        ensures
            r == self@.contains_key(tag@),
    {
        self.find(tag).is_some()
    }

    /// The bound tags, each once.
    pub fn tags(&self) -> (r: Vec<String>)
        requires
            self.wf(),
        ensures
            lists_tags(r@, self@),
    {
        let mut r: Vec<String> = Vec::new();
        let mut i: usize = 0;
        while i < self.entries.len()
            invariant
                self.wf(),
                0 <= i <= self.entries.len(),
                r.len() == i,
                forall|j: int| 0 <= j < i ==> r[j]@ == self.entries[j].tag@,
            decreases self.entries.len() - i,
        {
            r.push(self.entries[i].tag.clone());
            i = i + 1;
        }
        proof {
            assert forall|k: Seq<char>| #[trigger] self@.contains_key(k) implies exists|i: int|
                0 <= i < r@.len() && r@[i]@ == k by {
                let i = choose|i: int| 0 <= i < self.entries.len() && self.entries[i].tag@ == k;
                assert(r@[i]@ == k);
            }
        }
        r
    }

    /// The constructor bound to `tag`; an unknown tag is reported with the
    /// tags that are known.
    pub fn lookup(&self, tag: &String) -> (r: Result<&C, RegistryError>)
        requires
            self.wf(),
        ensures
            self@.contains_key(tag@) ==> r == Ok::<&C, RegistryError>(&self@[tag@]),
            !self@.contains_key(tag@) ==> (r matches Err(RegistryError::UnknownTag { tag: t, known })
                && t@ == tag@ && lists_tags(known@, self@)),
    {
        match self.find(tag) {
            Some(i) => Ok(&self.entries[i].ctor),
            None => Err(RegistryError::UnknownTag { tag: tag.clone(), known: self.tags() }),
        }
    }

    /// Reads a payload tagged `tag`: the constructor bound to the tag is run
    /// on `input`, and what it returns is handed on.
    pub fn decode<I, T, E>(&self, tag: &String, input: I) -> (r: Result<T, DecodeError<E>>) where
        C: Fn(I) -> Result<T, E>,

        requires
            self.wf(),
            self@.contains_key(tag@) ==> self@[tag@].requires((input,)),
        ensures
            !self@.contains_key(tag@) ==> (r matches Err(DecodeError::UnknownTag { tag: t, known })
                && t@ == tag@ && lists_tags(known@, self@)),
            self@.contains_key(tag@) ==> exists|out: Result<T, E>|
                #![trigger self@[tag@].ensures((input,), out)]
                self@[tag@].ensures((input,), out) && r == match out {
                    Ok(v) => Ok::<T, DecodeError<E>>(v),
                    Err(e) => Err(DecodeError::Payload(e)),
                },
    {
        match self.find(tag) {
            None => Err(DecodeError::UnknownTag { tag: tag.clone(), known: self.tags() }),
            Some(i) => {
                let ctor = &self.entries[i].ctor;
                let out = ctor(input);
                match out {
                    Ok(v) => Ok(v),
                    Err(e) => Err(DecodeError::Payload(e)),
                }
            },
        }
    }

    /// Binds `tag` to `ctor`; a tag that is bound already is refused and the
    /// registry is left as it was.
    pub fn register(&mut self, tag: String, ctor: C) -> (r: Result<(), RegistryError>)
        requires
            old(self).wf(),
        ensures
            final(self).wf(),
            old(self)@.contains_key(tag@) ==> (r matches Err(RegistryError::DuplicateTag { tag: t })
                && t@ == tag@ && final(self)@ == old(self)@),
            !old(self)@.contains_key(tag@) ==> r is Ok && final(self)@ == old(self)@.insert(
                tag@,
                ctor,
            ),
    {
        if self.find(&tag).is_some() {
            return Err(RegistryError::DuplicateTag { tag });
        }
        let ghost k = tag@;
        let ghost c = ctor;
        let ghost prev = self.entries@;
        self.entries.push(Binding { tag, ctor });
        self.model = Ghost(self.model@.insert(k, c));
        proof {
            let n = prev.len() as int;
            assert(self.entries[n].tag@ == k);
            assert forall|i: int| 0 <= i < self.entries.len() implies {
                &&& self.model@.contains_key(#[trigger] self.entries[i].tag@)
                &&& self.model@[self.entries[i].tag@] == self.entries[i].ctor
            } by {
                if i < n {
                    assert(self.entries[i] == prev[i]);
                }
            }
            assert forall|kk: Seq<char>| #[trigger] self.model@.contains_key(kk) implies exists|i: int|
                0 <= i < self.entries.len() && self.entries[i].tag@ == kk by {
                if kk == k {
                    assert(self.entries[n].tag@ == kk);
                } else {
                    assert(old(self).model@.contains_key(kk));
                    let i = choose|i: int| 0 <= i < n && prev[i].tag@ == kk;
                    assert(self.entries[i] == prev[i]);
                }
            }
        }
        Ok(())
    }

    /// Registers the bindings in turn, stopping at the first whose tag is
    /// bound already.
    pub fn register_all(&mut self, bindings: Vec<Binding<C>>) -> (r: Result<(), RegistryError>)
        requires
            old(self).wf(),
        ensures
            final(self).wf(),
            batch_outcome(old(self)@, binding_pairs(bindings@), r, final(self)@),
    {
        let ghost start = self@;
        let ghost ps = binding_pairs(bindings@);
        let ghost n = bindings.len() as int;
        let mut rest = bindings;
        let mut i: usize = 0;
        while rest.len() > 0
            invariant
                self.wf(),
                0 <= i <= n,
                n <= usize::MAX,
                ps == binding_pairs(bindings@),
                start == old(self)@,
                ps.len() == n,
                rest.len() == n - i,
                binding_pairs(rest@) == ps.subrange(i as int, n),
                self@ == bind_all(start, ps.take(i as int)),
                binds_fresh(start, ps.take(i as int)),
            decreases rest.len(),
        {
            let ghost rest0 = rest@;
            let b = rest.remove(0);
            assert(binding_pairs(rest0)[0] == (b.tag@, b.ctor));
            assert(ps[i as int] == (b.tag@, b.ctor));
            assert(rest@ =~= rest0.subrange(1, rest0.len() as int));
            assert forall|j: int| 0 <= j < rest@.len() implies binding_pairs(rest@)[j] == ps[i + 1
                + j] by {
                assert(rest@[j] == rest0[j + 1]);
                assert(binding_pairs(rest0)[j + 1] == ps.subrange(i as int, n)[j + 1]);
            }
            assert(binding_pairs(rest@) =~= ps.subrange(i + 1, n));
            let Binding { tag, ctor } = b;
            match self.register(tag, ctor) {
                Err(e) => {
                    assert(first_clash(start, ps, i as int));
                    assert(first_clash(start, ps, i as int) && (e matches RegistryError::DuplicateTag {
                        tag: t,
                    } && t@ == ps[i as int].0) && self@ == bind_all(start, ps.take(i as int)));
                    assert(bind_all(start, ps.take(i as int)).contains_key(ps[i as int].0));
                    assert(!binds_fresh(start, ps));
                    assert(batch_outcome(start, ps, Err(e), self@));
                    return Err(e);
                },
                Ok(()) => {
                    proof {
                        let pre = ps.take(i as int);
                        let post = ps.take(i + 1);
                        assert(post.drop_last() =~= pre);
                        assert forall|j: int| 0 <= j < post.len() implies !#[trigger] bind_all(
                            start,
                            post.take(j),
                        ).contains_key(post[j].0) by {
                            if j < i {
                                assert(post.take(j) =~= pre.take(j));
                                assert(post[j] == pre[j]);
                            } else {
                                assert(post.take(j) =~= pre);
                            }
                        }
                    }
                },
            }
            i = i + 1;
        }
        assert(ps.take(n) =~= ps);
        Ok(())
    }

    /// Registers the instantiation of the generic implementer `base` with
    /// `args`, under its rendered tag, which is returned.
    pub fn register_instance(&mut self, base: &String, args: Vec<GenericArg>, ctor: C) -> (r: Result<
        String,
        RegistryError,
    >)
        requires
            old(self).wf(),
        ensures
            final(self).wf(),
            old(self)@.contains_key(instance_tag(*base, args)) ==> (r matches Err(
                RegistryError::DuplicateTag { tag: t },
            ) && t@ == instance_tag(*base, args) && final(self)@ == old(self)@),
            !old(self)@.contains_key(instance_tag(*base, args)) ==> (r matches Ok(t) && t@
                == instance_tag(*base, args) && final(self)@ == old(self)@.insert(t@, ctor)),
    {
        let tag = TypeDesc::Named { base: base.clone(), args }.tag();
        let out = tag.clone();
        match self.register(tag, ctor) {
            Ok(()) => Ok(out),
            Err(e) => Err(e),
        }
    }

    /// Registers each instantiation of the generic implementer `base` in
    /// turn, stopping at the first whose tag is bound already.
    pub fn register_instances(&mut self, base: &String, groups: Vec<Instantiation<C>>) -> (r: Result<
        (),
        RegistryError,
    >)
        requires
            old(self).wf(),
        ensures
            final(self).wf(),
            batch_outcome(old(self)@, instance_pairs(*base, groups@), r, final(self)@),
    {
        let ghost ps = instance_pairs(*base, groups@);
        let ghost n = groups.len() as int;
        let mut rest = groups;
        let mut bindings: Vec<Binding<C>> = Vec::new();
        while rest.len() > 0
            invariant
                ps == instance_pairs(*base, groups@),
                ps.len() == n,
                bindings.len() + rest.len() == n,
                binding_pairs(bindings@) == ps.take(bindings.len() as int),
                instance_pairs(*base, rest@) == ps.subrange(bindings.len() as int, n),
            decreases rest.len(),
        {
            let ghost rest0 = rest@;
            let ghost i = bindings.len() as int;
            let g = rest.remove(0);
            assert(instance_pairs(*base, rest0)[0] == ps[i]);
            assert(rest@ =~= rest0.subrange(1, rest0.len() as int));
            assert forall|j: int| 0 <= j < rest@.len() implies instance_pairs(*base, rest@)[j]
                == ps[i + 1 + j] by {
                assert(rest@[j] == rest0[j + 1]);
                assert(instance_pairs(*base, rest0)[j + 1] == ps.subrange(i, n)[j + 1]);
            }
            assert(instance_pairs(*base, rest@) =~= ps.subrange(i + 1, n));
            let Instantiation { args, ctor } = g;
            let tag = TypeDesc::Named { base: base.clone(), args }.tag();
            let ghost bs0 = bindings@;
            bindings.push(Binding { tag, ctor });
            assert(binding_pairs(bindings@) =~= ps.take(i + 1)) by {
                assert(bindings@ == bs0.push(bindings@[i]));
                assert forall|j: int| 0 <= j <= i implies binding_pairs(bindings@)[j] == ps[j] by {
                    if j < i {
                        assert(bindings@[j] == bs0[j]);
                        assert(binding_pairs(bs0)[j] == ps.take(i)[j]);
                    }
                }
            }
        }
        assert(ps.take(n) =~= ps);
        self.register_all(bindings)
    }

    /// Builds the registry from every submitted binding, refusing a tag that
    /// is submitted twice.
    pub fn from_records(records: Vec<Binding<C>>) -> (r: Result<Self, RegistryError>)
        ensures
            r is Ok <==> binds_fresh(Map::empty(), binding_pairs(records@)),
            r matches Ok(reg) ==> reg.wf() && reg@ == bind_all(Map::empty(), binding_pairs(records@)),
            r matches Err(e) ==> exists|i: int|
                first_clash(Map::empty(), binding_pairs(records@), i) && (e matches RegistryError::DuplicateTag {
                    tag: t,
                } && t@ == binding_pairs(records@)[i].0),
    {
        let mut reg = Registry::new();
        match reg.register_all(records) {
            Ok(()) => Ok(reg),
            Err(e) => Err(e),
        }
    }
}

} // verus!
