use crate::flatten::{
    flat_child, flat_children, flat_generation, flat_generations, flat_one, flatten_post,
    flattened, lemma_children_err, lemma_generations_err, FlattenError,
};
use crate::model::{record_of, toplevels_view, BootableToplevel, BootSpec, Generation, Specialisation, ToplevelView};
use crate::store::{lookup, DescriptorLoad, StoredDescriptor};
use vstd::prelude::*;

verus! {

/// `sp` names a descriptor that is loaded in `st` and has no specialisations.
pub open spec fn leaf_backed(sp: Specialisation, st: Seq<StoredDescriptor>) -> bool {
    &&& sp.descriptor.bootspec is Some
    &&& lookup(st, sp.descriptor.bootspec->Some_0@) matches Some(DescriptorLoad::Loaded(c))
    &&& c.specialisations@.len() == 0
}

/// The descriptor that `sp` names in `st`, where it is loaded.
pub open spec fn loaded_child(sp: Specialisation, st: Seq<StoredDescriptor>) -> BootSpec {
    lookup(st, sp.descriptor.bootspec->Some_0@)->Some_0->Loaded_0
}

proof fn lemma_lookup_nonempty(s: Seq<StoredDescriptor>, p: Seq<char>)
    requires
        lookup(s, p) is Some,
    ensures
        s.len() >= 1,
{
}

/// A descriptor without specialisations yields its own record alone.
proof fn lemma_leaf(
    b: BootSpec,
    index: usize,
    profile: Option<String>,
    name: Option<String>,
    st: Seq<StoredDescriptor>,
    depth: nat,
)
    requires
        b.specialisations@.len() == 0,
    ensures
        flat_one(b, index, profile, name, st, depth) == Ok::<Seq<ToplevelView>, FlattenError>(
            seq![record_of(b, index, profile, name)],
        ),
{
    assert(seq![record_of(b, index, profile, name)] + Seq::<ToplevelView>::empty() =~= seq![
        record_of(b, index, profile, name),
    ]);
}

/// Leaf-backed specialisations yield one record each, named after them.
proof fn lemma_leaf_prefix(
    b: BootSpec,
    index: usize,
    profile: Option<String>,
    st: Seq<StoredDescriptor>,
    k: nat,
)
    requires
        k <= b.specialisations@.len(),
        forall|j: int| 0 <= j < k ==> leaf_backed(#[trigger] b.specialisations@[j], st),
    ensures
        flat_children(b, index, profile, st, st.len(), k) == Ok::<Seq<ToplevelView>, FlattenError>(
            Seq::new(
                k,
                |j: int|
                    record_of(
                        loaded_child(b.specialisations@[j], st),
                        index,
                        profile,
                        Some(b.specialisations@[j].name),
                    ),
            ),
        ),
    decreases k,
{
    if k > 0 {
        let sp = b.specialisations@[k - 1];
        assert(leaf_backed(sp, st));
        lemma_leaf_prefix(b, index, profile, st, (k - 1) as nat);
        lemma_lookup_nonempty(st, sp.descriptor.bootspec->Some_0@);
        lemma_leaf(
            loaded_child(sp, st),
            index,
            profile,
            Some(sp.name),
            st,
            (st.len() - 1) as nat,
        );
        let f = |j: int|
            record_of(
                loaded_child(b.specialisations@[j], st),
                index,
                profile,
                Some(b.specialisations@[j].name),
            );
        let one = seq![record_of(loaded_child(sp, st), index, profile, Some(sp.name))];
        assert(flat_child(sp, b.toplevel, index, profile, st, st.len()) == Ok::<
            Seq<ToplevelView>,
            FlattenError,
        >(one));
        assert(flat_children(b, index, profile, st, st.len(), (k - 1) as nat) == Ok::<
            Seq<ToplevelView>,
            FlattenError,
        >(Seq::new((k - 1) as nat, f)));
        assert(Seq::new((k - 1) as nat, f) + one =~= Seq::new(k, f));
    } else {
        assert(Seq::new(
            0,
            |j: int|
                record_of(
                    loaded_child(b.specialisations@[j], st),
                    index,
                    profile,
                    Some(b.specialisations@[j].name),
                ),
        ) =~= Seq::<ToplevelView>::empty());
    }
}

/// A generation that has no specialisations yields its own record alone.
proof fn lemma_plain_prefix(gens: Seq<Generation>, st: Seq<StoredDescriptor>, n: nat)
    requires
        n <= gens.len(),
        forall|i: int| 0 <= i < gens.len() ==> (#[trigger] gens[i]).bootspec.specialisations@.len() == 0,
    ensures
        flat_generations(gens, st, n) == Ok::<Seq<ToplevelView>, FlattenError>(
            Seq::new(n, |i: int| record_of(gens[i].bootspec, gens[i].index, gens[i].profile, None)),
        ),
    decreases n,
{
    if n > 0 {
        lemma_plain_prefix(gens, st, (n - 1) as nat);
        let g = gens[n - 1];
        lemma_leaf(g.bootspec, g.index, g.profile, None, st, st.len());
        let f = |i: int| record_of(gens[i].bootspec, gens[i].index, gens[i].profile, None);
        let one = seq![record_of(g.bootspec, g.index, g.profile, None)];
        assert(flat_generation(g, st) == Ok::<Seq<ToplevelView>, FlattenError>(one));
        assert(flat_generations(gens, st, (n - 1) as nat) == Ok::<Seq<ToplevelView>, FlattenError>(
            Seq::new((n - 1) as nat, f),
        ));
        assert(Seq::new((n - 1) as nat, f) + one =~= Seq::new(n, f));
    } else {
        assert(Seq::new(
            0,
            |i: int| record_of(gens[i].bootspec, gens[i].index, gens[i].profile, None),
        ) =~= Seq::<ToplevelView>::empty());
    }
}

/// A single generation flattens as that generation alone.
proof fn lemma_single(g: Generation, st: Seq<StoredDescriptor>)
    ensures
        flattened(seq![g], st) == flat_generation(g, st),
{
    let gens = seq![g];
    assert(gens.len() == 1);
    assert(gens[0] == g);
    assert(flat_generations(gens, st, 0) == Ok::<Seq<ToplevelView>, FlattenError>(Seq::empty()));
    if let Ok(r) = flat_generation(g, st) {
        assert(Seq::<ToplevelView>::empty() + r =~= r);
    }
}

/// Generations without specialisations yield one record each, in input order,
/// with no specialisation name and the index and profile of their generation.
pub proof fn lemma_plain_generations(gens: Seq<Generation>, st: Seq<StoredDescriptor>)
    requires
        forall|i: int| 0 <= i < gens.len() ==> (#[trigger] gens[i]).bootspec.specialisations@.len() == 0,
    ensures
        flattened(gens, st) is Ok,
        flattened(gens, st)->Ok_0.len() == gens.len(),
        forall|i: int|
            0 <= i < gens.len() ==> #[trigger] flattened(gens, st)->Ok_0[i] == record_of(
                gens[i].bootspec,
                gens[i].index,
                gens[i].profile,
                None,
            ),
        forall|i: int|
            0 <= i < gens.len() ==> {
                let t = #[trigger] flattened(gens, st)->Ok_0[i];
                &&& t.specialisation_name is None
                &&& t.generation_index == gens[i].index
                &&& t.profile_name == crate::model::opt_view(gens[i].profile)
            },
{
    lemma_plain_prefix(gens, st, gens.len());
}

/// A generation with two specialisations backed by descriptors that nest no
/// further yields three records: its own, then one named after each
/// specialisation, all with the generation's index and profile.
pub proof fn lemma_two_specialisations(
    g: Generation,
    st: Seq<StoredDescriptor>,
    a: Specialisation,
    b: Specialisation,
)
    requires
        g.bootspec.specialisations@ == seq![a, b],
        leaf_backed(a, st),
        leaf_backed(b, st),
    ensures
        flattened(seq![g], st) == Ok::<Seq<ToplevelView>, FlattenError>(
            seq![
                record_of(g.bootspec, g.index, g.profile, None),
                record_of(loaded_child(a, st), g.index, g.profile, Some(a.name)),
                record_of(loaded_child(b, st), g.index, g.profile, Some(b.name)),
            ],
        ),
{
    let bs = g.bootspec;
    lemma_leaf_prefix(bs, g.index, g.profile, st, 2);
    let f = |j: int|
        record_of(
            loaded_child(bs.specialisations@[j], st),
            g.index,
            g.profile,
            Some(bs.specialisations@[j].name),
        );
    assert(Seq::new(2, f) =~= seq![f(0), f(1)]);
    let r = seq![
        record_of(g.bootspec, g.index, g.profile, None),
        record_of(loaded_child(a, st), g.index, g.profile, Some(a.name)),
        record_of(loaded_child(b, st), g.index, g.profile, Some(b.name)),
    ];
    assert(seq![record_of(g.bootspec, g.index, g.profile, None)] + Seq::new(2, f) =~= r);
    assert(flat_generation(g, st) == Ok::<Seq<ToplevelView>, FlattenError>(r));
    lemma_single(g, st);
}

/// A specialisation nested inside another carries its own name alone, not
/// the names of the specialisations above it.
pub proof fn lemma_nested_specialisation(
    g: Generation,
    st: Seq<StoredDescriptor>,
    a: Specialisation,
    c: Specialisation,
)
    requires
        g.bootspec.specialisations@ == seq![a],
        a.descriptor.bootspec is Some,
        lookup(st, a.descriptor.bootspec->Some_0@) matches Some(DescriptorLoad::Loaded(ca))
            && ca.specialisations@ == seq![c],
        leaf_backed(c, st),
    ensures
        flattened(seq![g], st) == Ok::<Seq<ToplevelView>, FlattenError>(
            seq![
                record_of(g.bootspec, g.index, g.profile, None),
                record_of(loaded_child(a, st), g.index, g.profile, Some(a.name)),
                record_of(loaded_child(c, st), g.index, g.profile, Some(c.name)),
            ],
        ),
        flattened(seq![g], st)->Ok_0[2].specialisation_name == Some(c.name@),
{
    let ca = loaded_child(a, st);
    let cc = loaded_child(c, st);
    let pa = a.descriptor.bootspec->Some_0@;
    let pc = c.descriptor.bootspec->Some_0@;
    assert(pa != pc) by {
        if pa == pc {
            assert(ca.specialisations@.len() == 1);
        }
    }
    crate::store::lemma_lookup_two(st, pa, pc);
    let d = st.len();
    // the record of c, at two levels down
    lemma_leaf(cc, g.index, g.profile, Some(c.name), st, (d - 2) as nat);
    let rc = seq![record_of(cc, g.index, g.profile, Some(c.name))];
    assert(flat_child(c, ca.toplevel, g.index, g.profile, st, (d - 1) as nat) == Ok::<
        Seq<ToplevelView>,
        FlattenError,
    >(rc));
    assert(flat_children(ca, g.index, g.profile, st, (d - 1) as nat, 0) == Ok::<
        Seq<ToplevelView>,
        FlattenError,
    >(Seq::empty()));
    assert(Seq::<ToplevelView>::empty() + rc =~= rc);
    let ra = seq![record_of(ca, g.index, g.profile, Some(a.name))] + rc;
    assert(flat_one(ca, g.index, g.profile, Some(a.name), st, (d - 1) as nat) == Ok::<
        Seq<ToplevelView>,
        FlattenError,
    >(ra));
    assert(flat_child(a, g.bootspec.toplevel, g.index, g.profile, st, d) == Ok::<
        Seq<ToplevelView>,
        FlattenError,
    >(ra));
    assert(flat_children(g.bootspec, g.index, g.profile, st, d, 0) == Ok::<
        Seq<ToplevelView>,
        FlattenError,
    >(Seq::empty()));
    assert(Seq::<ToplevelView>::empty() + ra =~= ra);
    let r = seq![
        record_of(g.bootspec, g.index, g.profile, None),
        record_of(ca, g.index, g.profile, Some(a.name)),
        record_of(cc, g.index, g.profile, Some(c.name)),
    ];
    assert(seq![record_of(g.bootspec, g.index, g.profile, None)] + ra =~= r);
    assert(flat_generation(g, st) == Ok::<Seq<ToplevelView>, FlattenError>(r));
    lemma_single(g, st);
}

/// When the `k`-th specialisation of the first generation fails and those
/// before it are leaf-backed, the whole call fails with that error.
proof fn lemma_fails_at(gens: Seq<Generation>, st: Seq<StoredDescriptor>, k: nat)
    requires
        gens.len() >= 1,
        k < gens[0].bootspec.specialisations@.len(),
        forall|j: int| 0 <= j < k ==> leaf_backed(#[trigger] gens[0].bootspec.specialisations@[j], st),
        flat_child(
            gens[0].bootspec.specialisations@[k as int],
            gens[0].bootspec.toplevel,
            gens[0].index,
            gens[0].profile,
            st,
            st.len(),
        ) is Err,
    ensures
        flattened(gens, st) == flat_child(
            gens[0].bootspec.specialisations@[k as int],
            gens[0].bootspec.toplevel,
            gens[0].index,
            gens[0].profile,
            st,
            st.len(),
        ),
{
    let g = gens[0];
    let b = g.bootspec;
    lemma_leaf_prefix(b, g.index, g.profile, st, k);
    lemma_children_err(b, g.index, g.profile, st, st.len(), k + 1, b.specialisations@.len());
    assert(flat_generations(gens, st, 0) == Ok::<Seq<ToplevelView>, FlattenError>(Seq::empty()));
    assert(flat_generations(gens, st, 1) is Err);
    lemma_generations_err(gens, st, 1, gens.len());
}

/// A specialisation without a descriptor path fails the whole call, naming
/// it, even after the records of siblings before it were made.
pub proof fn lemma_missing_descriptor(gens: Seq<Generation>, st: Seq<StoredDescriptor>, k: nat)
    requires
        gens.len() >= 1,
        k < gens[0].bootspec.specialisations@.len(),
        forall|j: int| 0 <= j < k ==> leaf_backed(#[trigger] gens[0].bootspec.specialisations@[j], st),
        gens[0].bootspec.specialisations@[k as int].descriptor.bootspec is None,
    ensures
        flattened(gens, st) == Err::<Seq<ToplevelView>, FlattenError>(
            FlattenError::MissingSpecialisationDescriptor {
                name: gens[0].bootspec.specialisations@[k as int].name,
            },
        ),
{
    lemma_fails_at(gens, st, k);
}

/// A descriptor whose file could not be read fails the whole call.
pub proof fn lemma_unreadable_descriptor(
    gens: Seq<Generation>,
    st: Seq<StoredDescriptor>,
    k: nat,
    path: String,
    reason: String,
)
    requires
        gens.len() >= 1,
        k < gens[0].bootspec.specialisations@.len(),
        forall|j: int| 0 <= j < k ==> leaf_backed(#[trigger] gens[0].bootspec.specialisations@[j], st),
        gens[0].bootspec.specialisations@[k as int].descriptor.bootspec == Some(path),
        lookup(st, path@) == Some(DescriptorLoad::ReadFailed(reason)),
    ensures
        flattened(gens, st) == Err::<Seq<ToplevelView>, FlattenError>(
            FlattenError::DescriptorReadFailure { path, reason },
        ),
{
    lemma_fails_at(gens, st, k);
}

/// A descriptor whose file did not parse fails the whole call.
pub proof fn lemma_unparsable_descriptor(
    gens: Seq<Generation>,
    st: Seq<StoredDescriptor>,
    k: nat,
    path: String,
    reason: String,
)
    requires
        gens.len() >= 1,
        k < gens[0].bootspec.specialisations@.len(),
        forall|j: int| 0 <= j < k ==> leaf_backed(#[trigger] gens[0].bootspec.specialisations@[j], st),
        gens[0].bootspec.specialisations@[k as int].descriptor.bootspec == Some(path),
        lookup(st, path@) == Some(DescriptorLoad::ParseFailed(reason)),
    ensures
        flattened(gens, st) == Err::<Seq<ToplevelView>, FlattenError>(
            FlattenError::DescriptorParseFailure { path, reason },
        ),
{
    lemma_fails_at(gens, st, k);
}

/// Two calls of `flatten` on the same inputs and the same store return the
/// same records, or the same error.
pub proof fn lemma_flatten_idempotent(
    inputs: Seq<Generation>,
    st: Seq<StoredDescriptor>,
    r1: Result<Vec<BootableToplevel>, FlattenError>,
    r2: Result<Vec<BootableToplevel>, FlattenError>,
)
    requires
        flatten_post(inputs, st, r1),
        flatten_post(inputs, st, r2),
    ensures
        r1 is Ok <==> r2 is Ok,
        r1 is Ok ==> toplevels_view(r1->Ok_0@) == toplevels_view(r2->Ok_0@),
        r1 is Err ==> r1 == r2,
{
}

} // verus!
