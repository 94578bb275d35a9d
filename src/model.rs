use vstd::prelude::*;

verus! {

/// Identifies a named alternate configuration: the path of its own boot
/// descriptor, if it has one.
#[derive(Clone, Debug, PartialEq, Eq)]
pub struct SpecialisationDescriptor {
    pub bootspec: Option<String>,
}

/// One entry of a descriptor's specialisation mapping.
#[derive(Clone, Debug, PartialEq, Eq)]
pub struct Specialisation {
    pub name: String,
    pub descriptor: SpecialisationDescriptor,
}

/// The descriptor of one bootable configuration.
#[derive(Clone, Debug, PartialEq, Eq)]
pub struct BootSpec {
    pub system_version: String,
    pub kernel: String,
    pub kernel_version: String,
    pub kernel_params: Vec<String>,
    pub init: String,
    pub initrd: String,
    pub toplevel: String,
    /// Named alternate configurations, visited in this order.
    pub specialisations: Vec<Specialisation>,
}

/// One system profile under consideration for boot.
#[derive(Clone, Debug, PartialEq, Eq)]
pub struct Generation {
    pub index: usize,
    pub profile: Option<String>,
    pub bootspec: BootSpec,
}

/// A flattened record for one conventional (kernel, init, initrd) boot target.
#[derive(Clone, Debug, PartialEq, Eq)]
pub struct BootableToplevel {
    pub system_version: String,
    pub kernel: String,
    pub kernel_version: String,
    pub kernel_params: Vec<String>,
    pub init: String,
    pub initrd: String,
    pub toplevel: String,
    pub specialisation_name: Option<String>,
    pub generation_index: usize,
    pub profile_name: Option<String>,
}

/// A boot target that starts an EFI program directly.
#[derive(Clone, Debug, PartialEq, Eq)]
pub struct EfiProgram {
    pub source: String,
}

/// The two kinds of boot target.
#[derive(Clone, Debug, PartialEq, Eq)]
pub enum Bootable {
    Linux(BootableToplevel),
    Efi(EfiProgram),
}

impl From<BootableToplevel> for Bootable {
    fn from(t: BootableToplevel) -> (r: Bootable) {
        Bootable::Linux(t)
    }
}

impl vstd::std_specs::convert::FromSpecImpl<BootableToplevel> for Bootable {
    open spec fn obeys_from_spec() -> bool {
        true
    }

    open spec fn from_spec(t: BootableToplevel) -> Bootable {
        Bootable::Linux(t)
    }
}

impl From<EfiProgram> for Bootable {
    fn from(e: EfiProgram) -> (r: Bootable) {
        Bootable::Efi(e)
    }
}

impl vstd::std_specs::convert::FromSpecImpl<EfiProgram> for Bootable {
    open spec fn obeys_from_spec() -> bool {
        true
    }

    open spec fn from_spec(e: EfiProgram) -> Bootable {
        Bootable::Efi(e)
    }
}

/// The mathematical content of a `BootableToplevel`.
pub ghost struct ToplevelView {
    pub system_version: Seq<char>,
    pub kernel: Seq<char>,
    pub kernel_version: Seq<char>,
    pub kernel_params: Seq<Seq<char>>,
    pub init: Seq<char>,
    pub initrd: Seq<char>,
    pub toplevel: Seq<char>,
    pub specialisation_name: Option<Seq<char>>,
    pub generation_index: usize,
    pub profile_name: Option<Seq<char>>,
}

pub open spec fn opt_view(o: Option<String>) -> Option<Seq<char>> {
    match o {
        Some(s) => Some(s@),
        None => None,
    }
}

pub open spec fn strings_view(s: Seq<String>) -> Seq<Seq<char>> {
    s.map_values(|x: String| x@)
}

impl View for BootableToplevel {
    type V = ToplevelView;

    open spec fn view(&self) -> ToplevelView {
        ToplevelView {
            system_version: self.system_version@,
            kernel: self.kernel@,
            kernel_version: self.kernel_version@,
            kernel_params: strings_view(self.kernel_params@),
            init: self.init@,
            initrd: self.initrd@,
            toplevel: self.toplevel@,
            specialisation_name: opt_view(self.specialisation_name),
            generation_index: self.generation_index,
            profile_name: opt_view(self.profile_name),
        }
    }
}

pub open spec fn toplevels_view(s: Seq<BootableToplevel>) -> Seq<ToplevelView> {
    s.map_values(|t: BootableToplevel| t@)
}

/// The record that a descriptor yields for one generation index and profile,
/// under the given specialisation name (none at the top of a generation).
pub open spec fn record_of(
    b: BootSpec,
    index: usize,
    profile: Option<String>,
    name: Option<String>,
) -> ToplevelView {
    ToplevelView {
        system_version: b.system_version@,
        kernel: b.kernel@,
        kernel_version: b.kernel_version@,
        kernel_params: strings_view(b.kernel_params@),
        init: b.init@,
        initrd: b.initrd@,
        toplevel: b.toplevel@,
        specialisation_name: opt_view(name),
        generation_index: index,
        profile_name: opt_view(profile),
    }
}

pub(crate) fn copy_strings(v: &Vec<String>) -> (r: Vec<String>)
    ensures
        r@ == v@,
{
    let mut r: Vec<String> = Vec::new();
    for i in 0..v.len()
        invariant
            r@ == v@.subrange(0, i as int),
    {
        r.push(v[i].clone());
        assert(r@ =~= v@.subrange(0, i + 1));
    }
    assert(r@ =~= v@);
    r
}

pub(crate) fn copy_opt(o: &Option<String>) -> (r: Option<String>)
    ensures
        r == *o,
{
    match o {
        Some(s) => Some(s.clone()),
        None => None,
    }
}

/// Builds the record of `b` with the given provenance.
pub fn make_record(
    b: &BootSpec,
    index: usize,
    profile: &Option<String>,
    name: &Option<String>,
) -> (r: BootableToplevel)
    ensures
        r@ == record_of(*b, index, *profile, *name),
{
    BootableToplevel {
        system_version: b.system_version.clone(),
        kernel: b.kernel.clone(),
        kernel_version: b.kernel_version.clone(),
        kernel_params: copy_strings(&b.kernel_params),
        init: b.init.clone(),
        initrd: b.initrd.clone(),
        toplevel: b.toplevel.clone(),
        specialisation_name: copy_opt(name),
        generation_index: index,
        profile_name: copy_opt(profile),
    }
}

} // verus!
