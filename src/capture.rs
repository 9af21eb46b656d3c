use vstd::prelude::*;

use crate::paths::{is_system_path, is_system_path_spec};
use crate::window_data::{
    launch_default, path_resolution_index_default, reposition_default,
    resolve_multiple_paths_default, WindowData, WindowDataEntry, WindowPosition, WindowSize,
};

verus! {

/// A window's outer rectangle as the window system reports it: the
/// coordinates of its four edges.
#[derive(Clone, Copy, Debug, PartialEq, Eq, Structural)]
pub struct WindowRect {
    pub left: i32,
    pub top: i32,
    pub right: i32,
    pub bottom: i32,
}

/// Where a window stands and in which display state. `maximized` is the
/// state the window shows when it is not minimized.
#[derive(Clone, Copy, Debug, PartialEq, Eq, Structural)]
pub struct Placement {
    pub position: WindowPosition,
    pub size: WindowSize,
    pub minimized: bool,
    pub maximized: bool,
}

/// One operation on a live window.
#[derive(Clone, Copy, Debug, PartialEq, Eq, Structural)]
pub enum DisplayOp {
    /// Restore the window: a minimized window comes back to the state it had
    /// before, any other window leaves the maximized state.
    Restore,
    /// Restore the window once more if it reports itself maximized.
    RestoreIfMaximized,
    /// Move and resize the window.
    SetRect(WindowPosition, WindowSize),
    Maximize,
    Minimize,
}

/// The effect of one operation on a window's placement.
pub open spec fn apply_op(p: Placement, op: DisplayOp) -> Placement {
    match op {
        DisplayOp::Restore => if p.minimized {
            Placement { minimized: false, ..p }
        } else {
            Placement { maximized: false, ..p }
        },
        DisplayOp::RestoreIfMaximized => if p.maximized && !p.minimized {
            Placement { maximized: false, ..p }
        } else {
            p
        },
        DisplayOp::SetRect(position, size) => Placement { position, size, ..p },
        DisplayOp::Maximize => Placement { minimized: false, maximized: true, ..p },
        DisplayOp::Minimize => Placement { minimized: true, ..p },
    }
}

/// The effect of a sequence of operations, applied in order.
pub open spec fn apply_ops(p: Placement, ops: Seq<DisplayOp>) -> Placement
    decreases ops.len(),
{
    if ops.len() == 0 {
        p
    } else {
        apply_ops(apply_op(p, ops[0]), ops.drop_first())
    }
}

/// The operations that place a window as a saved entry says: bring it to
/// the normal state, set its rectangle, then maximize and minimize it as the
/// entry asks, minimizing last.
pub open spec fn reposition_ops(e: WindowDataEntry) -> Seq<DisplayOp> {
    seq![DisplayOp::Restore, DisplayOp::RestoreIfMaximized, DisplayOp::SetRect(e.position, e.size)]
        + (if e.maximised {
        seq![DisplayOp::Maximize]
    } else {
        Seq::empty()
    }) + (if e.minimized {
        seq![DisplayOp::Minimize]
    } else {
        Seq::empty()
    })
}

/// The operations to apply to a window matched to `entry`.
pub fn reposition_plan(entry: &WindowDataEntry) -> (r: Vec<DisplayOp>)
    ensures
        r@ == reposition_ops(*entry),
{
    let mut r = vec![
        DisplayOp::Restore,
        DisplayOp::RestoreIfMaximized,
        DisplayOp::SetRect(entry.position, entry.size),
    ];
    if entry.maximised {
        r.push(DisplayOp::Maximize);
    }
    if entry.minimized {
        r.push(DisplayOp::Minimize);
    }
    assert(r@ =~= reposition_ops(*entry));
    r
}

/// The width and height of the rectangle fit the integer type.
pub open spec fn rect_fits(rect: WindowRect) -> bool {
    i32::MIN <= rect.right - rect.left <= i32::MAX && i32::MIN <= rect.bottom - rect.top
        <= i32::MAX
}

/// The saved entry for a live window whose executable lies at `path`, with
/// the given rectangle and display state. Launch arguments cannot be read
/// from a running process, so none are saved.
pub fn capture_entry(path: String, rect: WindowRect, is_minimized: bool, is_maximized: bool) -> (r:
    WindowDataEntry)
    requires
        rect_fits(rect),
    ensures
        r.application_path == path,
        r.application_args@.len() == 0,
        r.resolve_multiple_paths == false,
        r.path_resolution_index == 0,
        r.launch == true,
        r.reposition == true,
        r.position == (WindowPosition { top: rect.top, left: rect.left }),
        r.size == (WindowSize {
            width: (rect.right - rect.left) as i32,
            height: (rect.bottom - rect.top) as i32,
        }),
        r.minimized == is_minimized,
        r.maximised == is_maximized,
{
    WindowDataEntry {
        application_path: path,
        application_args: Vec::new(),
        resolve_multiple_paths: resolve_multiple_paths_default(),
        path_resolution_index: path_resolution_index_default(),
        launch: launch_default(),
        reposition: reposition_default(),
        position: WindowPosition { top: rect.top, left: rect.left },
        size: WindowSize { width: rect.right - rect.left, height: rect.bottom - rect.top },
        minimized: is_minimized,
        maximised: is_maximized,
    }
}

/// Capturing a window and placing a window by the captured entry gives back
/// the captured rectangle and display state, whatever the window's
/// placement was before.
pub proof fn lemma_capture_reposition_round_trip(
    e: WindowDataEntry,
    rect: WindowRect,
    is_minimized: bool,
    is_maximized: bool,
    before: Placement,
)
    requires
        rect_fits(rect),
        e.position == (WindowPosition { top: rect.top, left: rect.left }),
        e.size == (WindowSize {
            width: (rect.right - rect.left) as i32,
            height: (rect.bottom - rect.top) as i32,
        }),
        e.minimized == is_minimized,
        e.maximised == is_maximized,
    ensures
        ({
            let after = apply_ops(before, reposition_ops(e));
            &&& after.position.left == rect.left
            &&& after.position.top == rect.top
            &&& after.position.left + after.size.width == rect.right
            &&& after.position.top + after.size.height == rect.bottom
            &&& after.minimized == is_minimized
            &&& after.maximized == is_maximized
        }),
{
    let ops = reposition_ops(e);
    let p1 = apply_op(before, DisplayOp::Restore);
    let p2 = apply_op(p1, DisplayOp::RestoreIfMaximized);
    let p3 = apply_op(p2, DisplayOp::SetRect(e.position, e.size));
    assert(!p2.minimized && !p2.maximized);
    assert(ops[0] == DisplayOp::Restore);
    assert(ops.drop_first()[0] == DisplayOp::RestoreIfMaximized);
    assert(ops.drop_first().drop_first()[0] == DisplayOp::SetRect(e.position, e.size));
    let d1 = ops.drop_first();
    let d2 = d1.drop_first();
    let rest = d2.drop_first();
    assert(apply_ops(before, ops) == apply_ops(p1, d1));
    assert(apply_ops(p1, d1) == apply_ops(p2, d2));
    assert(apply_ops(p2, d2) == apply_ops(p3, rest));
    if is_maximized {
        if is_minimized {
            assert(rest =~= seq![DisplayOp::Maximize, DisplayOp::Minimize]);
            let p4 = apply_op(p3, DisplayOp::Maximize);
            assert(rest.drop_first() =~= seq![DisplayOp::Minimize]);
            assert(rest.drop_first().drop_first() =~= Seq::<DisplayOp>::empty());
            assert(apply_ops(p3, rest) == apply_ops(p4, rest.drop_first()));
            assert(apply_ops(p4, rest.drop_first()) == apply_ops(
                apply_op(p4, DisplayOp::Minimize),
                rest.drop_first().drop_first(),
            ));
        } else {
            assert(rest =~= seq![DisplayOp::Maximize]);
            assert(rest.drop_first() =~= Seq::<DisplayOp>::empty());
            assert(apply_ops(p3, rest) == apply_ops(
                apply_op(p3, DisplayOp::Maximize),
                rest.drop_first(),
            ));
        }
    } else {
        if is_minimized {
            assert(rest =~= seq![DisplayOp::Minimize]);
            assert(rest.drop_first() =~= Seq::<DisplayOp>::empty());
            assert(apply_ops(p3, rest) == apply_ops(
                apply_op(p3, DisplayOp::Minimize),
                rest.drop_first(),
            ));
        } else {
            assert(rest =~= Seq::<DisplayOp>::empty());
        }
    }
}

/// What was read of one visible window while capturing: the path of its
/// executable, if it could be resolved, its rectangle and its display state.
pub struct WindowSnapshot {
    pub exe_path: Option<String>,
    pub rect: WindowRect,
    pub minimized: bool,
    pub maximized: bool,
}

/// The snapshots whose executable path was resolved and lies outside the
/// system directory, in order.
pub open spec fn resolved(snaps: Seq<WindowSnapshot>) -> Seq<WindowSnapshot>
    decreases snaps.len(),
{
    if snaps.len() == 0 {
        Seq::empty()
    } else {
        let init = resolved(snaps.drop_last());
        if snaps.last().exe_path matches Some(p) && !is_system_path_spec(p@) {
            init.push(snaps.last())
        } else {
            init
        }
    }
}

/// The entry holds what the snapshot read of its window.
pub open spec fn captures(e: WindowDataEntry, s: WindowSnapshot) -> bool {
    &&& s.exe_path matches Some(p) && e.application_path == p
    &&& e.application_args@.len() == 0
    &&& e.resolve_multiple_paths == false
    &&& e.path_resolution_index == 0
    &&& e.launch == true
    &&& e.reposition == true
    &&& e.position == (WindowPosition { top: s.rect.top, left: s.rect.left })
    &&& e.size == (WindowSize {
        width: (s.rect.right - s.rect.left) as i32,
        height: (s.rect.bottom - s.rect.top) as i32,
    })
    &&& e.minimized == s.minimized
    &&& e.maximised == s.maximized
}

/// Builds the arrangement named `name` from the snapshots of the visible
/// windows, in order. A window whose executable path could not be resolved,
/// or lies under the system directory, is left out.
pub fn capture_arrangement(name: String, snapshots: &Vec<WindowSnapshot>) -> (r: WindowData)
    requires
        forall|k: int| 0 <= k < snapshots@.len() ==> rect_fits(#[trigger] snapshots@[k].rect),
    ensures
        r.name == name,
        r.data@.len() == resolved(snapshots@).len(),
        forall|k: int|
            0 <= k < r.data@.len() ==> captures(#[trigger] r.data@[k], resolved(snapshots@)[k]),
{
    let ghost snaps = snapshots@;
    let mut data: Vec<WindowDataEntry> = Vec::new();
    let mut i: usize = 0;
    while i < snapshots.len()
        invariant
            snaps == snapshots@,
            i <= snaps.len(),
            forall|k: int| 0 <= k < snaps.len() ==> rect_fits(#[trigger] snaps[k].rect),
            data@.len() == resolved(snaps.take(i as int)).len(),
            forall|k: int|
                0 <= k < data@.len() ==> captures(
                    #[trigger] data@[k],
                    resolved(snaps.take(i as int))[k],
                ),
        decreases snaps.len() - i,
    {
        let ghost before = data@;
        assert(snaps.take(i + 1).drop_last() =~= snaps.take(i as int));
        assert(snaps.take(i + 1).last() == snaps[i as int]);
        let snap = &snapshots[i];
        match &snap.exe_path {
            Some(path) => if !is_system_path(path.as_str()) {
                let entry = capture_entry(path.clone(), snap.rect, snap.minimized, snap.maximized);
                data.push(entry);
                assert forall|k: int| 0 <= k < data@.len() implies captures(
                    #[trigger] data@[k],
                    resolved(snaps.take(i + 1))[k],
                ) by {
                    if k < before.len() {
                        assert(data@[k] == before[k]);
                    }
                }
            },
            None => {},
        }
        i += 1;
    }
    assert(snaps.take(snaps.len() as int) =~= snaps);
    WindowData { name, data }
}

} // verus!
