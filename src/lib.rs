//! Release packaging: the registry of releases per target triple, and the
//! conversion of a full build archive into its install-only form.
use vstd::prelude::*;

pub mod archive_io;
pub mod entries;
pub mod header;
pub mod naming;
pub mod registry;
pub mod transcode;

pub use naming::{install_only_file_name, FileNameError};
pub use registry::{release_triples, Registry, RegistryError, TripleRelease};
pub use transcode::{convert_to_install_only, TranscodeError};

verus! {

} // verus!
