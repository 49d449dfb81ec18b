//! The state of the interface that persists between sessions: which
//! windows are open.

use crate::ui::windows::WindowId;
use vstd::prelude::*;

verus! {

broadcast use vstd::seq_lib::group_seq_properties;

/// The set of open windows.
pub struct UiState {
    windows: Vec<WindowId>,
}

impl View for UiState {
    type V = Set<WindowId>;

    closed spec fn view(&self) -> Set<WindowId> {
        self.windows@.to_set()
    }
}

/// The open windows after toggling `w`: closed if it was open, open if
/// it was closed.
pub open spec fn toggled(open: Set<WindowId>, w: WindowId) -> Set<WindowId> {
    if open.contains(w) {
        open.remove(w)
    } else {
        open.insert(w)
    }
}

impl Default for UiState {
    fn default() -> (r: Self)
        ensures
            r@ == Set::<WindowId>::empty(),
    {
        let r = UiState { windows: Vec::new() };
        assert(r@ =~= Set::<WindowId>::empty());
        r
    }
}

impl UiState {
    #[verifier::type_invariant]
    closed spec fn inv(&self) -> bool {
        self.windows@.no_duplicates()
    }

    fn position(&self, window: WindowId) -> (r: Option<usize>)
        ensures
            match r {
                Some(j) => j < self.windows@.len() && self.windows@[j as int] == window,
                None => !self@.contains(window),
            },
    {
        let n = self.windows.len();
        let mut j: usize = 0;
        while j < n
            invariant
                n == self.windows@.len(),
                j <= n,
                forall|i: int| 0 <= i < j ==> self.windows@[i] != window,
            decreases n - j,
        {
            if self.windows[j] == window {
                return Some(j);
            }
            j = j + 1;
        }
        None
    }

    /// Opens `window` if it is closed, closes it if it is open.
    pub fn toggle_window(&mut self, window: WindowId)
        ensures
            final(self)@ == toggled(old(self)@, window),
    {
        proof {
            use_type_invariant(&*self);
        }
        let ghost before = self.windows@;
        match self.position(window) {
            Some(j) => {
                let mut v: Vec<WindowId> = Vec::new();
                std::mem::swap(&mut v, &mut self.windows);
                v.remove(j);
                proof {
                    let after = before.remove(j as int);
                    assert(v@ == after);
                    assert forall|a: int, b: int|
                        0 <= a < after.len() && 0 <= b < after.len() && a != b implies after[a]
                        != after[b] by {
                        let ia = if a < j { a } else { a + 1 };
                        let ib = if b < j { b } else { b + 1 };
                        assert(after[a] == before[ia]);
                        assert(after[b] == before[ib]);
                    }
                    assert forall|x: WindowId| after.contains(x) <==> before.to_set().remove(
                        window,
                    ).contains(x) by {
                        if after.contains(x) {
                            let a = choose|a: int| 0 <= a < after.len() && after[a] == x;
                            let ia = if a < j { a } else { a + 1 };
                            assert(before[ia] == x);
                            assert(x != window);
                        }
                        if x != window && before.contains(x) {
                            let i = choose|i: int| 0 <= i < before.len() && before[i] == x;
                            assert(i != j);
                            let a = if i < j { i } else { i - 1 };
                            assert(after[a] == x);
                        }
                    }
                    assert(after.to_set() =~= before.to_set().remove(window));
                }
                self.windows = v;
            },
            None => {
                let mut v: Vec<WindowId> = Vec::new();
                std::mem::swap(&mut v, &mut self.windows);
                v.push(window);
                proof {
                    let after = before.push(window);
                    assert(v@ == after);
                    assert(!before.contains(window));
                    assert forall|a: int, b: int|
                        0 <= a < after.len() && 0 <= b < after.len() && a != b implies after[a]
                        != after[b] by {
                        if a < before.len() && b < before.len() {
                            assert(after[a] == before[a]);
                            assert(after[b] == before[b]);
                        } else if a < before.len() {
                            assert(before.contains(after[a]));
                        } else {
                            assert(before.contains(after[b]));
                        }
                    }
                    assert forall|x: WindowId| after.contains(x) <==> before.to_set().insert(
                        window,
                    ).contains(x) by {
                        if after.contains(x) {
                            let a = choose|a: int| 0 <= a < after.len() && after[a] == x;
                            if a < before.len() {
                                assert(before[a] == x);
                            }
                        }
                        if before.contains(x) {
                            let i = choose|i: int| 0 <= i < before.len() && before[i] == x;
                            assert(after[i] == x);
                        }
                        if x == window {
                            assert(after[before.len() as int] == x);
                        }
                    }
                    assert(after.to_set() =~= before.to_set().insert(window));
                }
                self.windows = v;
            },
        }
    }

    /// Whether `window` is open.
    pub fn is_window_open(&self, window: WindowId) -> (r: bool)
        ensures
            r == self@.contains(window),
    {
        self.position(window).is_some()
    }

    /// The open windows, each once.
    pub fn iter_windows(&self) -> (r: Vec<WindowId>)
        ensures
            r@.to_set() == self@,
            r@.no_duplicates(),
    {
        proof {
            use_type_invariant(self);
        }
        self.windows.clone()
    }
}

/// Toggling a window twice leaves the open windows as they were, and a
/// toggle changes whether that window is open and no other.
pub proof fn lemma_toggle_twice(open: Set<WindowId>, w: WindowId)
    ensures
        toggled(toggled(open, w), w) == open,
        toggled(open, w).contains(w) != open.contains(w),
        forall|x: WindowId| x != w ==> (toggled(open, w).contains(x) == open.contains(x)),
{
    if open.contains(w) {
        assert(open.remove(w).insert(w) =~= open);
    } else {
        assert(open.insert(w).remove(w) =~= open);
    }
}

} // verus!
