//! The windows an application instance holds, keyed by label: the singleton
//! policy of start-up and the click-through command act on it.

use vstd::prelude::*;
use crate::window::{
    overlay_attributes_spec, plan_window, pointer_mode_of, IgnorePayload, LifecycleAction,
    PointerMode, Window, WindowView,
};

verus! {

/// Message of the click-through command when no window has the label.
pub const MISSING_WINDOW_MESSAGE: &'static str = "overlay window does not exist";

/// Why the platform refused to build a window.
#[derive(Debug)]
pub struct PlatformError {
    pub message: String,
}

/// Whether some window in `s` has the label `id`.
pub open spec fn has_window(s: Seq<WindowView>, id: Seq<char>) -> bool {
    exists|i: int| 0 <= i < s.len() && #[trigger] s[i].identifier == id
}

/// Exactly one window in `s` has the label `id`.
pub open spec fn exactly_one(s: Seq<WindowView>, id: Seq<char>) -> bool {
    exists|i: int|
        0 <= i < s.len() && #[trigger] s[i].identifier == id && forall|j: int|
            0 <= j < s.len() && #[trigger] s[j].identifier == id ==> j == i
}

/// Whether the window labelled `id` in `s` lets pointer input pass through.
pub open spec fn ignores_cursor(s: Seq<WindowView>, id: Seq<char>) -> bool {
    exists|i: int| 0 <= i < s.len() && s[i].identifier == id && #[trigger] s[i].ignores_cursor_events
}

/// A window just built under the label `id`: fixed attributes, capturing input.
pub open spec fn fresh_window(id: Seq<char>) -> WindowView {
    WindowView { identifier: id, attributes: overlay_attributes_spec(), ignores_cursor_events: false }
}

/// The windows after start-up asked for `id`, where `built` tells whether the
/// platform would build a window when asked to.
pub open spec fn ensured(s: Seq<WindowView>, id: Seq<char>, built: bool) -> Seq<WindowView> {
    if has_window(s, id) || !built {
        s
    } else {
        s.push(fresh_window(id))
    }
}

/// The windows after the flag of the window labelled `id` was set to `ignore`.
pub open spec fn with_ignore(s: Seq<WindowView>, id: Seq<char>, ignore: bool) -> Seq<WindowView> {
    s.map_values(
        |w: WindowView|
            if w.identifier == id {
                WindowView { ignores_cursor_events: ignore, ..w }
            } else {
                w
            },
    )
}

/// Labels are unique, and every window carries the fixed overlay attributes.
pub open spec fn well_formed(s: Seq<WindowView>) -> bool {
    &&& forall|i: int, j: int|
        0 <= i < s.len() && 0 <= j < s.len() && i != j ==> #[trigger] s[i].identifier
            != #[trigger] s[j].identifier
    &&& forall|i: int| 0 <= i < s.len() ==> #[trigger] s[i].attributes == overlay_attributes_spec()
}

/// After the flag of the window labelled `id` is set to `ignore`, that window
/// is still there and its flag reads `ignore`.
pub proof fn lemma_flag_set(s: Seq<WindowView>, id: Seq<char>, ignore: bool)
    requires
        has_window(s, id),
    ensures
        has_window(with_ignore(s, id, ignore), id),
        ignores_cursor(with_ignore(s, id, ignore), id) == ignore,
{
    let t = with_ignore(s, id, ignore);
    let k = choose|k: int| 0 <= k < s.len() && #[trigger] s[k].identifier == id;
    assert(t[k].identifier == id);
    if ignore {
        assert(t[k].ignores_cursor_events);
    } else {
        assert forall|i: int| 0 <= i < t.len() && t[i].identifier == id implies !(
        #[trigger] t[i].ignores_cursor_events) by {}
    }
}

/// In a well-formed sequence, a label that occurs occurs exactly once.
proof fn lemma_unique_label(s: Seq<WindowView>, id: Seq<char>)
    requires
        well_formed(s),
        has_window(s, id),
    ensures
        exactly_one(s, id),
{
    let k = choose|k: int| 0 <= k < s.len() && #[trigger] s[k].identifier == id;
    assert(s[k].identifier == id);
}

/// Adding a window under a label not yet taken keeps the sequence well formed
/// and makes the label occur exactly once.
proof fn lemma_add_fresh(s: Seq<WindowView>, id: Seq<char>)
    requires
        well_formed(s),
        !has_window(s, id),
    ensures
        well_formed(s.push(fresh_window(id))),
        exactly_one(s.push(fresh_window(id)), id),
{
    let t = s.push(fresh_window(id));
    assert forall|k: int| 0 <= k < s.len() implies #[trigger] s[k].identifier != id by {
        if s[k].identifier == id {
            assert(has_window(s, id));
        }
    }
    assert forall|i: int, j: int|
        0 <= i < t.len() && 0 <= j < t.len() && i != j implies #[trigger] t[i].identifier
        != #[trigger] t[j].identifier by {
        if i < s.len() && j < s.len() {
            assert(t[i] == s[i] && t[j] == s[j]);
        }
    }
    assert(t[s.len() as int].identifier == id);
}

/// The windows of one application instance.
pub struct WindowRegistry {
    windows: Vec<Window>,
}

impl View for WindowRegistry {
    type V = Seq<WindowView>;

    closed spec fn view(&self) -> Seq<WindowView> {
        self.windows@.map_values(|w: Window| w@)
    }
}

impl WindowRegistry {
    pub open spec fn wf(&self) -> bool {
        well_formed(self@)
    }

    /// A registry with no window.
    pub fn new() -> (r: WindowRegistry)
        ensures
            r.wf(),
            r@ == Seq::<WindowView>::empty(),
    {
        WindowRegistry { windows: Vec::new() }
    }

    /// Number of windows.
    pub fn len(&self) -> (r: usize)
        ensures
            r == self@.len(),
    {
        self.windows.len()
    }

    /// Position of the window labelled `id`, if there is one.
    pub fn find(&self, id: &str) -> (r: Option<usize>)
        ensures
            r is None <==> !has_window(self@, id@),
            r matches Some(i) ==> i < self@.len() && self@[i as int].identifier == id@,
    {
        let key = id.to_owned();
        let mut i: usize = 0;
        while i < self.windows.len()
            invariant
                0 <= i <= self.windows.len(),
                key@ == id@,
                forall|k: int| 0 <= k < i ==> self@[k].identifier != id@,
            decreases self.windows.len() - i,
        {
            if self.windows[i].identifier == key {
                assert(self@[i as int].identifier == id@);
                return Some(i);
            }
            i = i + 1;
        }
        assert(!has_window(self@, id@)) by {
            if has_window(self@, id@) {
                let k = choose|k: int| 0 <= k < self@.len() && #[trigger] self@[k].identifier == id@;
                assert(self@[k].identifier == id@);
            }
        }
        None
    }

    /// The window labelled `id`, if there is one.
    pub fn get(&self, id: &str) -> (r: Option<&Window>)
        ensures
            r is None <==> !has_window(self@, id@),
            r matches Some(w) ==> w@.identifier == id@ && self@.contains(w@),
    {
        match self.find(id) {
            Some(i) => Some(&self.windows[i]),
            None => None,
        }
    }

    /// Pointer mode of the window labelled `id`, if there is one.
    pub fn pointer_mode(&self, id: &str) -> (r: Option<PointerMode>)
        requires
            self.wf(),
        ensures
            r is None <==> !has_window(self@, id@),
            r matches Some(m) ==> m == pointer_mode_of(ignores_cursor(self@, id@)),
    {
        match self.find(id) {
            Some(i) => {
                proof {
                    if ignores_cursor(self@, id@) {
                        let k = choose|k: int|
                            0 <= k < self@.len() && self@[k].identifier == id@
                                && #[trigger] self@[k].ignores_cursor_events;
                        assert(k == i);
                    }
                    if self@[i as int].ignores_cursor_events {
                        assert(ignores_cursor(self@, id@));
                    }
                }
                Some(self.windows[i].pointer_mode())
            },
            None => None,
        }
    }

    /// Start-up step for the window labelled `id`. A window already under that
    /// label is left untouched and the step succeeds. Otherwise a window with
    /// the fixed overlay attributes is recorded if `build`, what the platform
    /// answered when asked to build it, is `Ok`; its error is handed back
    /// otherwise, and nothing is recorded.
    pub fn ensure_window(&mut self, id: &str, build: Result<(), PlatformError>) -> (r: Result<
        (),
        PlatformError,
    >)
        requires
            old(self).wf(),
        ensures
            final(self).wf(),
            final(self)@ == ensured(old(self)@, id@, build is Ok),
            has_window(old(self)@, id@) ==> r is Ok,
            !has_window(old(self)@, id@) ==> r == build,
            r is Ok ==> has_window(final(self)@, id@) && exactly_one(final(self)@, id@),
            r is Ok && !has_window(old(self)@, id@) ==> !ignores_cursor(final(self)@, id@),
            r is Ok ==> forall|i: int|
                0 <= i < final(self)@.len() && #[trigger] final(self)@[i].identifier == id@
                    ==> final(self)@[i].attributes == overlay_attributes_spec(),
    {
        let existing = self.find(id).is_some();
        match plan_window(existing) {
            LifecycleAction::Keep => {
                proof {
                    lemma_unique_label(self@, id@);
                }
                Ok(())
            },
            LifecycleAction::Create(attributes) => {
                if build.is_ok() {
                    let window = Window {
                        identifier: id.to_owned(),
                        attributes,
                        ignores_cursor_events: false,
                    };
                    self.windows.push(window);
                    proof {
                        assert(self@ =~= old(self)@.push(fresh_window(id@)));
                        lemma_add_fresh(old(self)@, id@);
                    }
                }
                build
            },
        }
    }

    /// Click-through command: set the "ignores cursor events" flag of the
    /// window labelled `id` to `payload.ignore`. `outcome` is what the platform
    /// answered when asked to do so. Without such a window the command fails
    /// with [`MISSING_WINDOW_MESSAGE`]; a platform error is handed back as it
    /// came and leaves the flag as it was.
    pub fn set_ignore_cursor(
        &mut self,
        id: &str,
        payload: IgnorePayload,
        outcome: Result<(), String>,
    ) -> (r: Result<(), String>)
        requires
            old(self).wf(),
        ensures
            final(self).wf(),
            !has_window(old(self)@, id@) ==> final(self)@ == old(self)@ && (r matches Err(m)
                && m@ == MISSING_WINDOW_MESSAGE@),
            has_window(old(self)@, id@) && outcome is Err ==> final(self)@ == old(self)@ && r
                == outcome,
            has_window(old(self)@, id@) && outcome is Ok ==> r is Ok && final(self)@
                == with_ignore(old(self)@, id@, payload.ignore),
            has_window(old(self)@, id@) && outcome is Ok ==> has_window(final(self)@, id@)
                && ignores_cursor(final(self)@, id@) == payload.ignore,
    {
        match self.find(id) {
            None => Err(MISSING_WINDOW_MESSAGE.to_owned()),
            Some(i) => match outcome {
                Err(e) => Err(e),
                Ok(()) => {
                    self.windows[i].ignores_cursor_events = payload.ignore;
                    proof {
                        lemma_flag_set(old(self)@, id@, payload.ignore);
                    }
                    assert(self@ =~= with_ignore(old(self)@, id@, payload.ignore)) by {
                        assert forall|k: int| 0 <= k < self@.len() implies self@[k]
                            == with_ignore(old(self)@, id@, payload.ignore)[k] by {
                            if k != i {
                                assert(old(self)@[k].identifier != old(self)@[i as int].identifier);
                            }
                        }
                    }
                    Ok(())
                },
            },
        }
    }
}

/// Running the start-up step a second time changes nothing once a window
/// stands under the label; and after two runs exactly one window has the label,
/// as soon as it was there before or either run could build it.
pub proof fn lemma_ensure_twice(s: Seq<WindowView>, id: Seq<char>, first: bool, second: bool)
    requires
        well_formed(s),
    ensures
        has_window(ensured(s, id, first), id) ==> ensured(ensured(s, id, first), id, second)
            == ensured(s, id, first),
        has_window(s, id) || first || second ==> exactly_one(
            ensured(ensured(s, id, first), id, second),
            id,
        ),
{
    let t = ensured(s, id, first);
    if has_window(s, id) {
        lemma_unique_label(s, id);
    } else if first {
        lemma_add_fresh(s, id);
        assert(t[s.len() as int].identifier == id);
    } else if second {
        lemma_add_fresh(s, id);
    }
}

/// Setting the flag to the same value twice ends where setting it once does.
pub proof fn lemma_ignore_twice(s: Seq<WindowView>, id: Seq<char>, ignore: bool)
    ensures
        with_ignore(with_ignore(s, id, ignore), id, ignore) == with_ignore(s, id, ignore),
{
    assert(with_ignore(with_ignore(s, id, ignore), id, ignore) =~= with_ignore(s, id, ignore));
}

/// Passing input through and then capturing it again leaves the window
/// capturing, as if only the second request had been made.
pub proof fn lemma_ignore_round_trip(s: Seq<WindowView>, id: Seq<char>)
    requires
        has_window(s, id),
    ensures
        with_ignore(with_ignore(s, id, true), id, false) == with_ignore(s, id, false),
        pointer_mode_of(ignores_cursor(with_ignore(with_ignore(s, id, true), id, false), id))
            == PointerMode::Capturing,
{
    assert(with_ignore(with_ignore(s, id, true), id, false) =~= with_ignore(s, id, false));
    lemma_flag_set(s, id, false);
}

} // verus!
