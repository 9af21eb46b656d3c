use vstd::prelude::*;

verus! {

/// Top-left corner of a window, in screen coordinates.
#[derive(Clone, Copy, Debug, PartialEq, Eq, Structural)]
pub struct WindowPosition {
    pub top: i32,
    pub left: i32,
}

/// Outer size of a window, in pixels.
#[derive(Clone, Copy, Debug, PartialEq, Eq, Structural)]
pub struct WindowSize {
    pub width: i32,
    pub height: i32,
}

/// One saved window: which executable it belongs to, how to launch it, and
/// where and in which display state it is to be placed.
pub struct WindowDataEntry {
    /// Glob pattern over the path of the window's executable.
    pub application_path: String,
    pub application_args: Vec<String>,
    /// Launch every path that the pattern expands to, not just one.
    pub resolve_multiple_paths: bool,
    /// Which expanded path to launch when only one is launched.
    pub path_resolution_index: usize,
    pub launch: bool,
    pub reposition: bool,
    pub position: WindowPosition,
    pub size: WindowSize,
    pub minimized: bool,
    pub maximised: bool,
}

/// A named, ordered arrangement of saved windows. The order of `data` is the
/// priority order in which entries are matched.
pub struct WindowData {
    pub name: String,
    pub data: Vec<WindowDataEntry>,
}

/// Value of `resolve_multiple_paths` when a saved entry omits it.
pub fn resolve_multiple_paths_default() -> (r: bool)
    ensures
        r == false,
{
    false
}

/// Value of `path_resolution_index` when a saved entry omits it.
pub fn path_resolution_index_default() -> (r: usize)
    ensures
        r == 0,
{
    0
}

/// Value of `launch` when a saved entry omits it.
pub fn launch_default() -> (r: bool)
    ensures
        r == true,
{
    true
}

/// Value of `reposition` when a saved entry omits it.
pub fn reposition_default() -> (r: bool)
    ensures
        r == true,
{
    true
}

} // verus!
