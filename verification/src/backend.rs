//! The boundary behind which an OpenCV-based processing backend can sit.
use vstd::prelude::*;

verus! {

/// Marker for the optional OpenCV processing backend; processing uses the
/// portable native backend.
#[derive(Debug, Clone, Copy, PartialEq, Eq, Structural)]
pub struct OpenCvAdapter {}

impl OpenCvAdapter {
    /// The adapter.
    pub fn new() -> (adapter: OpenCvAdapter)
        ensures
            adapter == (OpenCvAdapter {}),
    {
        OpenCvAdapter {}
    }

    /// The name of the backend this adapter stands for.
    pub fn backend_name(&self) -> (name: &'static str)
        ensures
            name@ == "opencv"@,
    {
        "opencv"
    }
}

impl Default for OpenCvAdapter {
    fn default() -> (adapter: OpenCvAdapter)
        ensures
            adapter == (OpenCvAdapter {}),
    {
        OpenCvAdapter::new()
    }
}

} // verus!
