use vstd::prelude::*;

verus! {

/// Server information.
///
/// Version 1.0.3 of Confluence would be major-version: 1, minor-version: 0, patch-level: 3.
/// Version 2.0 would have a patch-level of 0, even if it's not visible in the version number.
#[derive(Debug)]
pub struct ServerInfo {
    /// The major version number of the Confluence instance
    pub major_version: i32,
    /// The minor version number of the Confluence instance
    pub minor_version: i32,
    /// The patch-level of the Confluence instance
    pub patch_level: i32,
    /// The build ID of the Confluence instance (usually a number)
    pub build_id: String,
    /// Whether the build is a developer-only release or not
    pub development_build: bool,
    /// The base URL for the Confluence instance
    pub base_url: String,
}

} // verus!
