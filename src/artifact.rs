use vstd::prelude::*;
use crate::units::PhysicalDimensions;

verus! {

/// A single-page label document and its physical size. It owns the ephemeral
/// directory that holds the page: dropping the artifact removes the directory.
pub struct PDF {
    _temp_dir: tempfile::TempDir,
    path: std::path::PathBuf,
    pub page_width_um: u64,
    pub page_height_um: u64,
}

impl PDF {
    /// The artifact of a finished job: its directory, the page's path inside
    /// it, and the page's dimensions, none of them zero.
    pub fn new(temp_dir: tempfile::TempDir, path: std::path::PathBuf, dims: PhysicalDimensions) -> (r: PDF)
        requires
            dims.width_um > 0,
            dims.height_um > 0,
        ensures
            r.dimensions_spec() == (dims.width_um, dims.height_um),
            r.path_spec() == path,
    {
        PDF { _temp_dir: temp_dir, path, page_width_um: dims.width_um, page_height_um: dims.height_um }
    }

    /// The page's width and height in micrometres.
    pub closed spec fn dimensions_spec(&self) -> (u64, u64) {
        (self.page_width_um, self.page_height_um)
    }

    pub closed spec fn path_spec(&self) -> std::path::PathBuf {
        self.path
    }

    pub fn get_path(&self) -> (r: &std::path::PathBuf)
        ensures
            *r == self.path_spec(),
    {
        &self.path
    }
}

} // verus!
