use crate::model::{
    make_record, record_of, toplevels_view, BootSpec, BootableToplevel, Generation,
    Specialisation, ToplevelView,
};
use crate::store::{lookup, DescriptorLoad, DescriptorStore, StoredDescriptor};
use vstd::prelude::*;

verus! {

/// Why flattening stopped. Every error aborts the whole call.
#[derive(Clone, Debug, PartialEq, Eq)]
pub enum FlattenError {
    /// The named specialisation has no descriptor path.
    MissingSpecialisationDescriptor { name: String },
    /// The descriptor at `path` has not been loaded into the store yet. It is
    /// the specialisation `name` of the configuration rooted at `toplevel`.
    DescriptorNotLoaded { name: String, toplevel: String, path: String },
    /// The descriptor file at `path` could not be read.
    DescriptorReadFailure { path: String, reason: String },
    /// The descriptor file at `path` did not parse.
    DescriptorParseFailure { path: String, reason: String },
    /// Specialisations nest deeper than the store holds descriptors: the chain
    /// of descriptors that leads to `path` must visit one of them twice.
    SpecialisationCycle { name: String, path: String },
    /// The diagnostic channel refused a line.
    DiagnosticWriteFailure { reason: String },
}

/// The records that descriptor `b` yields, itself first and then each of its
/// specialisations in order, under index `index` and profile `profile`.
/// `depth` is how many more descriptors may be entered below `b`.
pub open spec fn flat_one(
    b: BootSpec,
    index: usize,
    profile: Option<String>,
    name: Option<String>,
    st: Seq<StoredDescriptor>,
    depth: nat,
) -> Result<Seq<ToplevelView>, FlattenError>
    decreases depth, 2nat, 0nat,
{
    match flat_children(b, index, profile, st, depth, b.specialisations@.len()) {
        Ok(rest) => Ok(seq![record_of(b, index, profile, name)] + rest),
        Err(e) => Err(e),
    }
}

/// The records of the first `n` specialisations of `b`, in order.
pub open spec fn flat_children(
    b: BootSpec,
    index: usize,
    profile: Option<String>,
    st: Seq<StoredDescriptor>,
    depth: nat,
    n: nat,
) -> Result<Seq<ToplevelView>, FlattenError>
    decreases depth, 1nat, n,
{
    if n == 0 || n > b.specialisations@.len() {
        Ok(Seq::empty())
    } else {
        match flat_children(b, index, profile, st, depth, (n - 1) as nat) {
            Err(e) => Err(e),
            Ok(prev) => match flat_child(
                b.specialisations@[n - 1],
                b.toplevel,
                index,
                profile,
                st,
                depth,
            ) {
                Err(e) => Err(e),
                Ok(more) => Ok(prev + more),
            },
        }
    }
}

/// The records of specialisation `sp` of the configuration rooted at `toplevel`.
pub open spec fn flat_child(
    sp: Specialisation,
    toplevel: String,
    index: usize,
    profile: Option<String>,
    st: Seq<StoredDescriptor>,
    depth: nat,
) -> Result<Seq<ToplevelView>, FlattenError>
    decreases depth, 0nat, 0nat,
{
    match sp.descriptor.bootspec {
        None => Err(FlattenError::MissingSpecialisationDescriptor { name: sp.name }),
        Some(path) => match lookup(st, path@) {
            None => Err(FlattenError::DescriptorNotLoaded { name: sp.name, toplevel, path }),
            Some(DescriptorLoad::ReadFailed(reason)) => Err(
                FlattenError::DescriptorReadFailure { path, reason },
            ),
            Some(DescriptorLoad::ParseFailed(reason)) => Err(
                FlattenError::DescriptorParseFailure { path, reason },
            ),
            Some(DescriptorLoad::Loaded(child)) => if depth == 0 {
                Err(FlattenError::SpecialisationCycle { name: sp.name, path })
            } else {
                flat_one(child, index, profile, Some(sp.name), st, (depth - 1) as nat)
            },
        },
    }
}

/// The records of one generation: its descriptor with no specialisation name.
pub open spec fn flat_generation(g: Generation, st: Seq<StoredDescriptor>) -> Result<
    Seq<ToplevelView>,
    FlattenError,
> {
    flat_one(g.bootspec, g.index, g.profile, None, st, st.len())
}

/// The records of the first `n` generations of `gens`, in order.
pub open spec fn flat_generations(
    gens: Seq<Generation>,
    st: Seq<StoredDescriptor>,
    n: nat,
) -> Result<Seq<ToplevelView>, FlattenError>
    decreases n,
{
    if n == 0 || n > gens.len() {
        Ok(Seq::empty())
    } else {
        match flat_generations(gens, st, (n - 1) as nat) {
            Err(e) => Err(e),
            Ok(prev) => match flat_generation(gens[n - 1], st) {
                Err(e) => Err(e),
                Ok(more) => Ok(prev + more),
            },
        }
    }
}

/// What `flatten` returns for `gens` against the loaded descriptors `st`.
pub open spec fn flattened(gens: Seq<Generation>, st: Seq<StoredDescriptor>) -> Result<
    Seq<ToplevelView>,
    FlattenError,
> {
    flat_generations(gens, st, gens.len())
}

/// What a call of `flatten` on `inputs` and a store holding `st` may return.
pub open spec fn flatten_post(
    inputs: Seq<Generation>,
    st: Seq<StoredDescriptor>,
    r: Result<Vec<BootableToplevel>, FlattenError>,
) -> bool {
    match flattened(inputs, st) {
        Ok(s) => r is Ok && toplevels_view(r->Ok_0@) == s,
        Err(e) => r == Err::<Vec<BootableToplevel>, FlattenError>(e),
    }
}

/// Once the first `k` specialisations fail, so do the first `n` for `n >= k`.
pub proof fn lemma_children_err(
    b: BootSpec,
    index: usize,
    profile: Option<String>,
    st: Seq<StoredDescriptor>,
    depth: nat,
    k: nat,
    n: nat,
)
    requires
        k <= n <= b.specialisations@.len(),
        flat_children(b, index, profile, st, depth, k) is Err,
    ensures
        flat_children(b, index, profile, st, depth, n) == flat_children(
            b,
            index,
            profile,
            st,
            depth,
            k,
        ),
    decreases n - k,
{
    if k < n {
        lemma_children_err(b, index, profile, st, depth, k, (n - 1) as nat);
    }
}

/// Once the first `k` generations fail, so do the first `n` for `n >= k`.
pub proof fn lemma_generations_err(gens: Seq<Generation>, st: Seq<StoredDescriptor>, k: nat, n: nat)
    requires
        k <= n <= gens.len(),
        flat_generations(gens, st, k) is Err,
    ensures
        flat_generations(gens, st, n) == flat_generations(gens, st, k),
    decreases n - k,
{
    if k < n {
        lemma_generations_err(gens, st, k, (n - 1) as nat);
    }
}

/// Appends the records of `b` to `out`.
fn flatten_into(
    b: &BootSpec,
    index: usize,
    profile: &Option<String>,
    name: &Option<String>,
    store: &DescriptorStore,
    depth: usize,
    out: &mut Vec<BootableToplevel>,
) -> (r: Result<(), FlattenError>)
    requires
        depth <= store.entries@.len(),
    ensures
        match flat_one(*b, index, *profile, *name, store.entries@, depth as nat) {
            Ok(s) => r is Ok && toplevels_view(final(out)@) == toplevels_view(old(out)@) + s,
            Err(e) => r == Err::<(), FlattenError>(e),
        },
    decreases depth,
{
    let ghost st = store.entries@;
    let ghost start = toplevels_view(out@);
    let rec = make_record(b, index, profile, name);
    out.push(rec);
    assert(toplevels_view(out@) =~= start + seq![record_of(*b, index, *profile, *name)]);
    let n = b.specialisations.len();
    for i in 0..n
        invariant
            n == b.specialisations@.len(),
            depth <= store.entries@.len(),
            st == store.entries@,
            flat_children(*b, index, *profile, st, depth as nat, i as nat) is Ok,
            toplevels_view(out@) == start + seq![record_of(*b, index, *profile, *name)]
                + flat_children(*b, index, *profile, st, depth as nat, i as nat)->Ok_0,
    {
        let sp = &b.specialisations[i];
        let res = flatten_child(sp, &b.toplevel, index, profile, store, depth, out);
        match res {
            Err(e) => {
                proof {
                    lemma_children_err(*b, index, *profile, st, depth as nat, (i + 1) as nat, n as nat);
                }
                return Err(e);
            },
            Ok(()) => {
                assert(toplevels_view(out@) =~= start + seq![record_of(*b, index, *profile, *name)]
                    + flat_children(*b, index, *profile, st, depth as nat, (i + 1) as nat)->Ok_0);
            },
        }
    }
    Ok(())
}

/// Appends the records of specialisation `sp` of the configuration rooted at
/// `toplevel` to `out`.
fn flatten_child(
    sp: &Specialisation,
    toplevel: &String,
    index: usize,
    profile: &Option<String>,
    store: &DescriptorStore,
    depth: usize,
    out: &mut Vec<BootableToplevel>,
) -> (r: Result<(), FlattenError>)
    requires
        depth <= store.entries@.len(),
    ensures
        match flat_child(*sp, *toplevel, index, *profile, store.entries@, depth as nat) {
            Ok(s) => r is Ok && toplevels_view(final(out)@) == toplevels_view(old(out)@) + s,
            Err(e) => r == Err::<(), FlattenError>(e),
        },
    decreases depth, 0nat,
{
    let path = match &sp.descriptor.bootspec {
        None => {
            return Err(FlattenError::MissingSpecialisationDescriptor { name: sp.name.clone() });
        },
        Some(p) => p,
    };
    match store.position(path) {
        None => Err(
            FlattenError::DescriptorNotLoaded {
                name: sp.name.clone(),
                toplevel: toplevel.clone(),
                path: path.clone(),
            },
        ),
        Some(j) => match &store.entries[j].load {
            DescriptorLoad::ReadFailed(reason) => Err(
                FlattenError::DescriptorReadFailure { path: path.clone(), reason: reason.clone() },
            ),
            DescriptorLoad::ParseFailed(reason) => Err(
                FlattenError::DescriptorParseFailure { path: path.clone(), reason: reason.clone() },
            ),
            DescriptorLoad::Loaded(child) => {
                if depth == 0 {
                    Err(
                        FlattenError::SpecialisationCycle {
                            name: sp.name.clone(),
                            path: path.clone(),
                        },
                    )
                } else {
                    let name = Some(sp.name.clone());
                    flatten_into(child, index, profile, &name, store, depth - 1, out)
                }
            },
        },
    }
}

/// Flattens `inputs` into bootable records against the descriptors loaded in
/// `store`: for each generation in order, its own record (with no
/// specialisation name) followed, depth first, by the records of each of its
/// specialisations, each of those named after the specialisation it came from.
pub fn flatten(inputs: &Vec<Generation>, store: &DescriptorStore) -> (r: Result<
    Vec<BootableToplevel>,
    FlattenError,
>)
    ensures
        flatten_post(inputs@, store.entries@, r),
{
    let ghost st = store.entries@;
    let mut out: Vec<BootableToplevel> = Vec::new();
    let n = inputs.len();
    let depth = store.entries.len();
    assert(toplevels_view(out@) =~= Seq::<ToplevelView>::empty());
    for i in 0..n
        invariant
            n == inputs@.len(),
            depth == store.entries@.len(),
            st == store.entries@,
            flat_generations(inputs@, st, i as nat) is Ok,
            toplevels_view(out@) == flat_generations(inputs@, st, i as nat)->Ok_0,
    {
        let g = &inputs[i];
        match flatten_into(&g.bootspec, g.index, &g.profile, &None, store, depth, &mut out) {
            Err(e) => {
                proof {
                    lemma_generations_err(inputs@, st, (i + 1) as nat, n as nat);
                }
                return Err(e);
            },
            Ok(()) => {},
        }
    }
    Ok(out)
}

} // verus!
