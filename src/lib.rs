//! Flattening of boot generations and their nested specialisations into
//! self-contained bootable records.

pub mod flatten;
pub mod laws;
pub mod model;
pub mod store;

pub use flatten::{flatten, FlattenError};
pub use model::{
    Bootable, BootableToplevel, BootSpec, EfiProgram, Generation, Specialisation,
    SpecialisationDescriptor,
};
pub use store::{DescriptorLoad, DescriptorStore, StoredDescriptor};
