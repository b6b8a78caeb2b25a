use vstd::prelude::*;

verus! {

/// Why a build cannot go on. Every one of these ends the build.
#[derive(Debug, Clone, Copy, PartialEq, Eq, Structural)]
pub enum BuildError {
    /// A required root directory was not configured.
    MissingEnvironment,
    /// A source, header or version file does not exist or cannot be read.
    MissingFile,
    /// The version file does not hold a `Pkg.Revision = X.Y.Z` line.
    MalformedVersionDescriptor,
    /// The build host is not one of the supported desktop systems.
    UnsupportedHost,
    /// The platform triple has fewer than two components.
    MalformedTriple,
    /// The WebAssembly toolchain root does not exist.
    MissingToolchainRoot,
}

} // verus!
