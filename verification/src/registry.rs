//! The window registry: the single authority over which top-level
//! windows are tracked and which of them carry a border entity. It
//! consumes snapshots of the live window set (the platform adapter's
//! enumeration) and typed events, runs the lazy-eviction sweep and the
//! reconciliation pass, and hands back the overlay operations to
//! perform. The caller serializes access (one lock around every call);
//! nothing here calls back into the platform, so the lock is never held
//! across a re-entrant call.

use vstd::prelude::*;
use crate::{spec_eligible, WindowHandle};
use crate::config::{spec_colors_for_window, Config, WindowRule, get_colors_for_window};
use crate::frame_drawer::{DrawCommand, TargetOutcome};
use crate::geometry::Rect;
use crate::window_border::{dpi_ok, frame_ok, PositionCmd, WindowBorder};

verus! {

/// Everything the registry reads about one live top-level window: the
/// eligibility inputs, the frame bounds (`None` when that query failed),
/// and the per-window display properties.
pub struct WindowInfo {
    pub handle: WindowHandle,
    pub visible: bool,
    pub title: String,
    pub class_name: String,
    pub ex_style: u32,
    pub frame: Option<Rect>,
    pub dpi: u32,
    pub corner_preference: i32,
}

/// Ambient inputs a property update depends on: the foreground window,
/// the accent colorization (when its query succeeded) and the current
/// rainbow color.
#[derive(Clone, Copy, PartialEq, Eq, Structural, Debug)]
pub struct RefreshInputs {
    pub foreground: Option<WindowHandle>,
    pub accent: Option<u32>,
    pub rainbow: u32,
}

/// One tracked window: a border entity while it is eligible, `None`
/// while it is visible but currently ineligible (membership state is
/// remembered); untracked windows have no entry at all.
#[derive(Clone, Copy, PartialEq, Eq, Structural, Debug)]
pub struct TrackedEntry {
    pub handle: WindowHandle,
    pub border: Option<WindowBorder>,
}

/// Index of the first element whose handle is `h`.
pub open spec fn spec_index_by<T>(s: Seq<T>, key: spec_fn(T) -> WindowHandle, h: WindowHandle) -> Option<
    int,
>
    decreases s.len(),
{
    if s.len() == 0 {
        None
    } else if key(s[0]) == h {
        Some(0)
    } else {
        match spec_index_by(s.drop_first(), key, h) {
            Some(i) => Some(i + 1),
            None => None,
        }
    }
}

/// The first element whose handle is `h`.
pub open spec fn spec_find_by<T>(s: Seq<T>, key: spec_fn(T) -> WindowHandle, h: WindowHandle) -> Option<
    T,
> {
    match spec_index_by(s, key, h) {
        Some(i) => Some(s[i]),
        None => None,
    }
}

pub open spec fn entry_key() -> spec_fn(TrackedEntry) -> WindowHandle {
    |e: TrackedEntry| e.handle
}

pub open spec fn info_key() -> spec_fn(WindowInfo) -> WindowHandle {
    |w: WindowInfo| w.handle
}

/// The tracked entry for `h`, if any.
pub open spec fn spec_find_entry(entries: Seq<TrackedEntry>, h: WindowHandle) -> Option<TrackedEntry> {
    spec_find_by(entries, entry_key(), h)
}

/// The live snapshot of `h`, if the enumeration saw it.
pub open spec fn spec_find_info(live: Seq<WindowInfo>, h: WindowHandle) -> Option<WindowInfo> {
    spec_find_by(live, info_key(), h)
}

/// Whether the enumeration saw `h` as a visible window.
pub open spec fn spec_visible_in(live: Seq<WindowInfo>, h: WindowHandle) -> bool {
    match spec_find_info(live, h) {
        Some(w) => w.visible,
        None => false,
    }
}

/// Whether `h` is tracked with a border entity.
pub open spec fn spec_has_border(entries: Seq<TrackedEntry>, h: WindowHandle) -> bool {
    match spec_find_entry(entries, h) {
        Some(e) => e.border is Some,
        None => false,
    }
}

proof fn lemma_index_by_props<T>(s: Seq<T>, key: spec_fn(T) -> WindowHandle, h: WindowHandle)
    ensures
        match spec_index_by(s, key, h) {
            Some(i) => 0 <= i < s.len() && key(s[i]) == h && (forall|j: int|
                0 <= j < i ==> key(s[j]) != h),
            None => forall|j: int| 0 <= j < s.len() ==> key(s[j]) != h,
        },
    decreases s.len(),
{
    if s.len() == 0 {
    } else if key(s[0]) == h {
    } else {
        let rest = s.drop_first();
        lemma_index_by_props(rest, key, h);
        assert(forall|j: int| 0 <= j < rest.len() ==> rest[j] == s[j + 1]);
        match spec_index_by(rest, key, h) {
            Some(i) => {
                assert(key(s[i + 1]) == h);
                assert forall|j: int| 0 <= j < i + 1 implies key(s[j]) != h by {
                    if j > 0 {
                        assert(key(rest[j - 1]) != h);
                    }
                }
            },
            None => {
                assert forall|j: int| 0 <= j < s.len() implies key(s[j]) != h by {
                    if j > 0 {
                        assert(key(rest[j - 1]) != h);
                    }
                }
            },
        }
    }
}

/// Under unique handles, any index holding `h` is the found one.
proof fn lemma_find_by_unique<T>(s: Seq<T>, key: spec_fn(T) -> WindowHandle, h: WindowHandle, i: int)
    requires
        forall|p: int, q: int| 0 <= p < q < s.len() ==> key(s[p]) != key(s[q]),
        0 <= i < s.len(),
        key(s[i]) == h,
    ensures
        spec_index_by(s, key, h) == Some(i),
        spec_find_by(s, key, h) == Some(s[i]),
{
    assert forall|j: int| 0 <= j < i implies key(#[trigger] s[j]) != h by {
        assert(key(s[j]) != key(s[i]));
    }
    lemma_index_by_exact(s, key, h, i);
}

/// The first index keyed `h` is found: holding `h` and being minimal
/// pins the lookup down.
proof fn lemma_index_by_exact<T>(s: Seq<T>, key: spec_fn(T) -> WindowHandle, h: WindowHandle, i: int)
    requires
        0 <= i < s.len(),
        key(s[i]) == h,
        forall|j: int| 0 <= j < i ==> key(#[trigger] s[j]) != h,
    ensures
        spec_index_by(s, key, h) == Some(i),
        spec_find_by(s, key, h) == Some(s[i]),
    decreases s.len(),
{
    if i == 0 {
    } else {
        let rest = s.drop_first();
        assert(forall|j: int| 0 <= j < rest.len() ==> rest[j] == s[j + 1]);
        lemma_index_by_exact(rest, key, h, i - 1);
    }
}

/// Appending an element changes a lookup only where nothing was found
/// and the new element's key matches.
proof fn lemma_find_by_push<T>(s: Seq<T>, key: spec_fn(T) -> WindowHandle, x: T, h: WindowHandle)
    ensures
        spec_find_by(s.push(x), key, h) == (match spec_find_by(s, key, h) {
            Some(e) => Some(e),
            None => if key(x) == h {
                Some(x)
            } else {
                None::<T>
            },
        }),
        spec_index_by(s.push(x), key, h) == (match spec_index_by(s, key, h) {
            Some(i) => Some(i),
            None => if key(x) == h {
                Some(s.len() as int)
            } else {
                None::<int>
            },
        }),
{
    let sx = s.push(x);
    lemma_index_by_props(s, key, h);
    match spec_index_by(s, key, h) {
        Some(i) => {
            assert(sx[i] == s[i]);
            assert(forall|j: int| 0 <= j < i ==> sx[j] == s[j]);
            lemma_index_by_exact(sx, key, h, i);
        },
        None => {
            if key(x) == h {
                assert(sx[s.len() as int] == x);
                assert(forall|j: int| 0 <= j < s.len() ==> sx[j] == s[j]);
                lemma_index_by_exact(sx, key, h, s.len() as int);
            } else {
                assert(forall|j: int| 0 <= j < sx.len() ==> key(#[trigger] sx[j]) != h) by {
                    assert(forall|j: int| 0 <= j < s.len() ==> sx[j] == s[j]);
                }
                lemma_find_by_none(sx, key, h);
            }
        },
    }
}

/// With no element keyed `h`, nothing is found.
proof fn lemma_find_by_none<T>(s: Seq<T>, key: spec_fn(T) -> WindowHandle, h: WindowHandle)
    requires
        forall|j: int| 0 <= j < s.len() ==> key(s[j]) != h,
    ensures
        spec_index_by(s, key, h) is None,
        spec_find_by(s, key, h) is None,
{
    lemma_index_by_props(s, key, h);
    if spec_index_by(s, key, h) is Some {
        let i = spec_index_by(s, key, h)->Some_0;
        assert(key(s[i]) != h);
    }
}

/// Every live window has ordered, outsettable frame bounds and a sane
/// DPI, and handles are unique.
pub open spec fn spec_live_wf(live: Seq<WindowInfo>) -> bool {
    &&& forall|i: int, j: int| 0 <= i < j < live.len() ==> live[i].handle != live[j].handle
    &&& forall|i: int|
        0 <= i < live.len() ==> frame_ok(#[trigger] live[i].frame) && dpi_ok(live[i].dpi)
}

/// A border entity belongs to the entry that holds it.
pub open spec fn spec_entry_wf(e: TrackedEntry) -> bool {
    match e.border {
        Some(b) => b.wf() && b.tracking_window == e.handle,
        None => true,
    }
}

/// Replacing an entry by one with the same handle changes exactly that
/// handle's lookup.
proof fn lemma_find_update(es: Seq<TrackedEntry>, k: int, x: TrackedEntry)
    requires
        forall|p: int, q: int| 0 <= p < q < es.len() ==> es[p].handle != es[q].handle,
        0 <= k < es.len(),
        x.handle == es[k].handle,
    ensures
        forall|h: WindowHandle| #[trigger]
            spec_find_entry(es.update(k, x), h) == (if h == x.handle {
                Some(x)
            } else {
                spec_find_entry(es, h)
            }),
{
    let u = es.update(k, x);
    assert(forall|j: int| 0 <= j < es.len() ==> u[j].handle == es[j].handle);
    assert forall|h: WindowHandle| #[trigger]
        spec_find_entry(u, h) == (if h == x.handle {
            Some(x)
        } else {
            spec_find_entry(es, h)
        }) by {
        if h == x.handle {
            assert forall|j: int| 0 <= j < k implies entry_key()(#[trigger] u[j]) != h by {
                assert(es[j].handle != es[k].handle);
            }
            lemma_index_by_exact(u, entry_key(), h, k);
        } else {
            lemma_index_by_props(es, entry_key(), h);
            match spec_index_by(es, entry_key(), h) {
                Some(i0) => {
                    assert(es[i0].handle == h);
                    assert(i0 != k);
                    assert forall|j: int| 0 <= j < i0 implies entry_key()(#[trigger] u[j]) != h by {
                        assert(es[j].handle != h);
                    }
                    lemma_index_by_exact(u, entry_key(), h, i0);
                },
                None => {
                    assert forall|j: int|
                        0 <= j < u.len() implies entry_key()(#[trigger] u[j]) != h by {
                        assert(es[j].handle != h);
                    }
                    lemma_find_by_none(u, entry_key(), h);
                },
            }
        }
    }
}

/// Whether the enumeration shows `h` as a visible window.
pub fn visible_in(live: &Vec<WindowInfo>, h: WindowHandle) -> (r: bool)
    requires
        spec_live_wf(live@),
    ensures
        r == spec_visible_in(live@, h),
{
    let n = live.len();
    let mut i: usize = 0;
    while i < n
        invariant
            spec_live_wf(live@),
            n == live@.len(),
            i <= n,
            forall|j: int| 0 <= j < i ==> live@[j].handle != h,
        decreases n - i,
    {
        if live[i].handle == h {
            proof {
                lemma_find_by_unique(live@, info_key(), h, i as int);
            }
            return live[i].visible;
        }
        i += 1;
    }
    proof {
        lemma_find_by_none(live@, info_key(), h);
    }
    false
}

/// The closed set of typed events the platform adapter feeds the
/// registry; each raw notification becomes exactly one of these.
#[derive(Clone, Copy, PartialEq, Eq, Structural, Debug)]
pub enum EventKind {
    Create,
    Destroy,
    LocationChange,
    MinimizeStart,
    MinimizeEnd,
    MoveSizeEnd,
    ForegroundChange,
    ObjectFocus,
}

/// What the registry does with an event, beyond the sweep it always
/// runs first.
#[derive(Clone, Copy, PartialEq, Eq, Structural, Debug)]
pub enum RegistryAction {
    /// Track the window if it is eligible.
    Assign,
    /// Forward a position update to that window's entity only.
    UpdatePosition,
    /// Run full reconciliation, then a property update on every entity.
    FullRefresh,
    /// Nothing beyond the sweep (destroy races the handle going stale,
    /// so destruction is left to the sweep; the rest are reserved).
    SweepOnly,
}

/// The dispatch table: creation assigns, geometry changes move one
/// overlay, a foreground change may change membership and every color.
pub open spec fn spec_dispatch(kind: EventKind) -> RegistryAction {
    match kind {
        EventKind::Create => RegistryAction::Assign,
        EventKind::LocationChange => RegistryAction::UpdatePosition,
        EventKind::MoveSizeEnd => RegistryAction::UpdatePosition,
        EventKind::ForegroundChange => RegistryAction::FullRefresh,
        EventKind::Destroy => RegistryAction::SweepOnly,
        EventKind::MinimizeStart => RegistryAction::SweepOnly,
        EventKind::MinimizeEnd => RegistryAction::SweepOnly,
        EventKind::ObjectFocus => RegistryAction::SweepOnly,
    }
}

/// Decide what to do with one event.
pub fn dispatch(kind: EventKind) -> (a: RegistryAction)
    ensures
        a == spec_dispatch(kind),
{
    match kind {
        EventKind::Create => RegistryAction::Assign,
        EventKind::LocationChange => RegistryAction::UpdatePosition,
        EventKind::MoveSizeEnd => RegistryAction::UpdatePosition,
        EventKind::ForegroundChange => RegistryAction::FullRefresh,
        EventKind::Destroy => RegistryAction::SweepOnly,
        EventKind::MinimizeStart => RegistryAction::SweepOnly,
        EventKind::MinimizeEnd => RegistryAction::SweepOnly,
        EventKind::ObjectFocus => RegistryAction::SweepOnly,
    }
}

/// Everything one event asks of the platform adapter: overlays to
/// destroy, overlays to create (rectangle and first draw pass via
/// `overlay_rect_of` / `render_command_of`), one overlay to move or
/// hide, and the draw passes the property updates found necessary.
pub struct EventResponse {
    pub destroyed: Vec<WindowHandle>,
    pub created: Vec<WindowHandle>,
    pub moved: Option<PositionCmd>,
    pub redraws: Vec<(WindowHandle, Option<DrawCommand>)>,
}

/// What the sweep leaves of the entry tracking `h`.
pub open spec fn spec_sweep_at(
    before: Option<TrackedEntry>,
    live: Seq<WindowInfo>,
    h: WindowHandle,
) -> Option<TrackedEntry> {
    if spec_visible_in(live, h) {
        before
    } else {
        None
    }
}

/// Whether a live window passes the eligibility predicate.
pub open spec fn spec_info_eligible(w: WindowInfo) -> bool {
    spec_eligible(w.visible, w.title@, w.ex_style)
}

/// The (active, inactive) colors the rules assign to a live window.
pub open spec fn spec_info_colors(w: WindowInfo, rules: Seq<WindowRule>, inputs: RefreshInputs) -> (
    u32,
    u32,
) {
    spec_colors_for_window(rules, w.title@, w.class_name@, inputs.accent, inputs.rainbow)
}

/// The border-entity construction attempt for a live window.
pub open spec fn spec_construct(
    w: WindowInfo,
    rules: Seq<WindowRule>,
    inputs: RefreshInputs,
    oc: TargetOutcome,
) -> Option<WindowBorder> {
    let colors = spec_info_colors(w, rules, inputs);
    WindowBorder::spec_new(
        w.handle,
        w.frame,
        inputs.foreground == Some(w.handle),
        w.dpi,
        w.corner_preference,
        colors.0,
        colors.1,
        oc,
    )
}

/// What one registry-wide property pass makes of a tracked entry:
/// entries without a border, and entries whose window the enumeration
/// does not show, are untouched; the rest get a property update from
/// their window's snapshot.
pub open spec fn spec_refresh_entry(
    e: TrackedEntry,
    live: Seq<WindowInfo>,
    rules: Seq<WindowRule>,
    inputs: RefreshInputs,
    outcomes: Seq<TargetOutcome>,
) -> TrackedEntry {
    match e.border {
        None => e,
        Some(b) => match spec_index_by(live, info_key(), e.handle) {
            None => e,
            Some(i) => {
                let w = live[i];
                let colors = spec_info_colors(w, rules, inputs);
                let (b2, _redraw) = b.spec_update_properties(
                    w.frame,
                    inputs.foreground == Some(e.handle),
                    w.dpi,
                    w.corner_preference,
                    colors.0,
                    colors.1,
                    outcomes[i],
                );
                TrackedEntry { handle: e.handle, border: Some(b2) }
            },
        },
    }
}

/// The draw pass the property pass issues for one entry: present exactly
/// when the update found a delta.
pub open spec fn spec_refresh_draw(
    e: TrackedEntry,
    live: Seq<WindowInfo>,
    rules: Seq<WindowRule>,
    inputs: RefreshInputs,
    outcomes: Seq<TargetOutcome>,
) -> Option<DrawCommand> {
    match e.border {
        None => None,
        Some(b) => match spec_index_by(live, info_key(), e.handle) {
            None => None,
            Some(i) => {
                let w = live[i];
                let colors = spec_info_colors(w, rules, inputs);
                let (b2, redraw) = b.spec_update_properties(
                    w.frame,
                    inputs.foreground == Some(e.handle),
                    w.dpi,
                    w.corner_preference,
                    colors.0,
                    colors.1,
                    outcomes[i],
                );
                if redraw {
                    b2.frame_drawer.spec_render()
                } else {
                    None
                }
            },
        },
    }
}

/// Index of the snapshot of `h` in the enumeration, if it was seen.
pub fn find_info_index(live: &Vec<WindowInfo>, h: WindowHandle) -> (r: Option<usize>)
    ensures
        match r {
            Some(k) => k < live@.len() && live@[k as int].handle == h && spec_index_by(
                live@,
                info_key(),
                h,
            ) == Some(k as int),
            None => spec_index_by(live@, info_key(), h) is None,
        },
{
    let n = live.len();
    let mut i: usize = 0;
    while i < n
        invariant
            n == live@.len(),
            i <= n,
            forall|j: int| 0 <= j < i ==> live@[j].handle != h,
        decreases n - i,
    {
        if live[i].handle == h {
            proof {
                lemma_index_by_exact(live@, info_key(), h, i as int);
            }
            return Some(i);
        }
        i += 1;
    }
    proof {
        lemma_find_by_none(live@, info_key(), h);
    }
    None
}

/// What `assign` makes of the entry tracking a window: nothing changes
/// for an ineligible window or one that already has a border; an
/// eligible window without one gets a freshly constructed entity, and a
/// failed construction leaves the window as it was.
pub open spec fn spec_assign_at(
    before: Option<TrackedEntry>,
    w: WindowInfo,
    rules: Seq<WindowRule>,
    inputs: RefreshInputs,
    oc: TargetOutcome,
) -> Option<TrackedEntry> {
    if !spec_info_eligible(w) {
        before
    } else {
        match before {
            Some(e) => match e.border {
                Some(_) => before,
                None => match spec_construct(w, rules, inputs, oc) {
                    Some(b) => Some(TrackedEntry { handle: w.handle, border: Some(b) }),
                    None => before,
                },
            },
            None => match spec_construct(w, rules, inputs, oc) {
                Some(b) => Some(TrackedEntry { handle: w.handle, border: Some(b) }),
                None => None,
            },
        }
    }
}

/// What one reconciliation pass makes of the window tracked as `h`,
/// given what was tracked before: windows the enumeration does not show
/// as visible are dropped; eligible windows keep their border or get one
/// constructed (a failed construction changes nothing and is retried by
/// the next pass); visible but ineligible windows that were tracked keep
/// their entry with the border dropped, so membership is remembered.
pub open spec fn spec_reconcile_at(
    before: Option<TrackedEntry>,
    live: Seq<WindowInfo>,
    rules: Seq<WindowRule>,
    inputs: RefreshInputs,
    outcomes: Seq<TargetOutcome>,
    h: WindowHandle,
) -> Option<TrackedEntry> {
    match spec_index_by(live, info_key(), h) {
        None => None,
        Some(i) => {
            let w = live[i];
            if !w.visible {
                None
            } else if spec_info_eligible(w) {
                match before {
                    Some(e) => match e.border {
                        Some(_) => before,
                        None => match spec_construct(w, rules, inputs, outcomes[i]) {
                            Some(b) => Some(TrackedEntry { handle: h, border: Some(b) }),
                            None => before,
                        },
                    },
                    None => match spec_construct(w, rules, inputs, outcomes[i]) {
                        Some(b) => Some(TrackedEntry { handle: h, border: Some(b) }),
                        None => None,
                    },
                }
            } else {
                match before {
                    Some(_) => Some(TrackedEntry { handle: h, border: None }),
                    None => None,
                }
            }
        },
    }
}

/// Reconciliation is idempotent: a second pass over the result of a
/// first, with the live set and the adapter's outcomes unchanged,
/// produces no state transition.
pub proof fn lemma_reconcile_idempotent(
    before: Option<TrackedEntry>,
    live: Seq<WindowInfo>,
    rules: Seq<WindowRule>,
    inputs: RefreshInputs,
    outcomes: Seq<TargetOutcome>,
    h: WindowHandle,
)
    ensures
        spec_reconcile_at(
            spec_reconcile_at(before, live, rules, inputs, outcomes, h),
            live,
            rules,
            inputs,
            outcomes,
            h,
        ) == spec_reconcile_at(before, live, rules, inputs, outcomes, h),
{
}

/// Reconciliation convergence: when the bounds query and target creation
/// succeed for every window involved, one pass leaves exactly the
/// visible, eligible windows tracked with a border — whatever sequence
/// of create and destroy notifications, reordered or dropped, produced
/// the prior state.
pub proof fn lemma_reconcile_converges(
    before: Option<TrackedEntry>,
    live: Seq<WindowInfo>,
    rules: Seq<WindowRule>,
    inputs: RefreshInputs,
    outcomes: Seq<TargetOutcome>,
    h: WindowHandle,
)
    requires
        forall|i: int|
            0 <= i < live.len() && spec_info_eligible(#[trigger] live[i]) ==> live[i].frame is Some
                && spec_construct(live[i], rules, inputs, outcomes[i]) is Some,
    ensures
        ({
            let after = spec_reconcile_at(before, live, rules, inputs, outcomes, h);
            (match after {
                Some(e) => e.border is Some,
                None => false,
            }) <==> (match spec_find_by(live, info_key(), h) {
                Some(w) => w.visible && spec_info_eligible(w),
                None => false,
            })
        }),
{
    lemma_index_by_props(live, info_key(), h);
}

/// Whether the enumeration shows `h` as an eligible window.
pub open spec fn spec_info_eligible_at(live: Seq<WindowInfo>, h: WindowHandle) -> bool {
    match spec_find_info(live, h) {
        Some(w) => spec_info_eligible(w),
        None => false,
    }
}

/// What the membership re-evaluation makes of one swept entry: an
/// eligible window keeps its border or gets one constructed; an
/// ineligible one keeps its entry with the border dropped.
spec fn spec_settle_entry(
    e: TrackedEntry,
    live: Seq<WindowInfo>,
    rules: Seq<WindowRule>,
    inputs: RefreshInputs,
    outcomes: Seq<TargetOutcome>,
) -> TrackedEntry {
    match spec_index_by(live, info_key(), e.handle) {
        None => e,
        Some(i) => {
            let w = live[i];
            if spec_info_eligible(w) {
                match e.border {
                    Some(_) => e,
                    None => match spec_construct(w, rules, inputs, outcomes[i]) {
                        Some(b) => TrackedEntry { handle: e.handle, border: Some(b) },
                        None => e,
                    },
                }
            } else {
                TrackedEntry { handle: e.handle, border: None }
            }
        },
    }
}

/// `h` stood at an index below `k` of the swept entries with a border,
/// and its window is no longer eligible: its border was dropped.
spec fn spec_demoted_before(
    s1: Seq<TrackedEntry>,
    live: Seq<WindowInfo>,
    h: WindowHandle,
    k: int,
) -> bool {
    match spec_index_by(s1, entry_key(), h) {
        Some(j) => j < k && s1[j].border is Some && !spec_info_eligible_at(live, h),
        None => false,
    }
}

/// `h` stood at an index below `k` of the swept entries without a
/// border, is eligible again, and its construction succeeds.
spec fn spec_promoted_before(
    s1: Seq<TrackedEntry>,
    live: Seq<WindowInfo>,
    rules: Seq<WindowRule>,
    inputs: RefreshInputs,
    outcomes: Seq<TargetOutcome>,
    h: WindowHandle,
    k: int,
) -> bool {
    match spec_index_by(s1, entry_key(), h) {
        Some(j) => j < k && s1[j].border is None && spec_info_eligible_at(live, h)
            && (match spec_index_by(live, info_key(), h) {
            Some(i) => spec_construct(live[i], rules, inputs, outcomes[i]) is Some,
            None => false,
        }),
        None => false,
    }
}

/// `h` stands at a live index below `j`, visible and eligible, was not
/// tracked after the sweep, and its construction succeeds: a new entry.
spec fn spec_added_before(
    s2: Seq<TrackedEntry>,
    live: Seq<WindowInfo>,
    rules: Seq<WindowRule>,
    inputs: RefreshInputs,
    outcomes: Seq<TargetOutcome>,
    h: WindowHandle,
    j: int,
) -> bool {
    match spec_index_by(live, info_key(), h) {
        Some(i) => i < j && live[i].visible && spec_info_eligible(live[i]) && spec_find_entry(
            s2,
            h,
        ) is None && spec_construct(live[i], rules, inputs, outcomes[i]) is Some,
        None => false,
    }
}

proof fn lemma_contains_concat<T>(a: Seq<T>, b: Seq<T>, y: T)
    ensures
        (a + b).contains(y) <==> (a.contains(y) || b.contains(y)),
{
    if (a + b).contains(y) {
        let i = choose|i: int| 0 <= i < (a + b).len() && (a + b)[i] == y;
        if i < a.len() {
            assert(a[i] == y);
        } else {
            assert(b[i - a.len()] == y);
        }
    }
    if a.contains(y) {
        let i = choose|i: int| 0 <= i < a.len() && a[i] == y;
        assert((a + b)[i] == y);
    }
    if b.contains(y) {
        let i = choose|i: int| 0 <= i < b.len() && b[i] == y;
        assert((a + b)[a.len() + i] == y);
    }
}

proof fn lemma_contains_push<T>(s: Seq<T>, x: T, y: T)
    ensures
        s.push(x).contains(y) <==> (s.contains(y) || y == x),
{
    if s.push(x).contains(y) {
        let i = choose|i: int| 0 <= i < s.push(x).len() && s.push(x)[i] == y;
        if i < s.len() {
            assert(s[i] == y);
        }
    }
    if s.contains(y) {
        let i = choose|i: int| 0 <= i < s.len() && s[i] == y;
        assert(s.push(x)[i] == y);
    }
    if y == x {
        assert(s.push(x)[s.len() as int] == y);
    }
}

/// Construct the border entity for one live window, colors resolved from
/// the rules and focus taken from the foreground handle.
fn construct_border(
    w: &WindowInfo,
    config: &Config,
    inputs: &RefreshInputs,
    outcome: &TargetOutcome,
) -> (b: Option<WindowBorder>)
    requires
        frame_ok(w.frame),
        dpi_ok(w.dpi),
    ensures
        b == spec_construct(*w, config.window_rules@, *inputs, *outcome),
        b matches Some(x) ==> x.wf() && x.tracking_window == w.handle,
{
    let colors = get_colors_for_window(
        w.title.as_str(),
        w.class_name.as_str(),
        false,
        config,
        inputs.accent,
        inputs.rainbow,
    );
    let focused = match inputs.foreground {
        Some(f) => f == w.handle,
        None => false,
    };
    WindowBorder::new(
        w.handle,
        w.frame,
        focused,
        w.dpi,
        w.corner_preference,
        colors.0,
        colors.1,
        outcome,
    )
}

/// The single authority over tracked windows.
pub struct WindowRegistry {
    pub entries: Vec<TrackedEntry>,
}

impl WindowRegistry {
    /// Handles are unique and every border entity is well-formed and
    /// keyed by its tracked window.
    pub open spec fn wf(self) -> bool {
        &&& forall|i: int, j: int|
            0 <= i < j < self.entries@.len() ==> self.entries@[i].handle != self.entries@[j].handle
        &&& forall|i: int| 0 <= i < self.entries@.len() ==> spec_entry_wf(#[trigger] self.entries@[i])
    }

    /// An empty registry; the tracked set is rebuilt from enumeration.
    pub fn new() -> (r: WindowRegistry)
        ensures
            r.wf(),
            r.entries@.len() == 0,
    {
        WindowRegistry { entries: Vec::new() }
    }

    /// Run the lazy-eviction sweep: every tracked entry whose window the
    /// enumeration no longer shows as visible is removed. This is how
    /// destruction is detected; a dedicated destroy reaction would race
    /// the handle becoming invalid. Returns the handles whose overlays
    /// must be destroyed (those that still had a border entity).
    pub fn sweep(&mut self, live: &Vec<WindowInfo>) -> (destroyed: Vec<WindowHandle>)
        requires
            old(self).wf(),
            spec_live_wf(live@),
        ensures
            final(self).wf(),
            forall|h: WindowHandle|
                #![trigger spec_find_entry(final(self).entries@, h)]
                #![trigger spec_find_entry(old(self).entries@, h)]
                spec_find_entry(final(self).entries@, h) == (if spec_visible_in(live@, h) {
                    spec_find_entry(old(self).entries@, h)
                } else {
                    None::<TrackedEntry>
                }),
            forall|h: WindowHandle| #[trigger]
                destroyed@.contains(h) <==> (spec_has_border(old(self).entries@, h)
                    && !spec_visible_in(live@, h)),
    {
        let ghost es = old(self).entries@;
        let mut kept: Vec<TrackedEntry> = Vec::new();
        let mut destroyed: Vec<WindowHandle> = Vec::new();
        let n = self.entries.len();
        let mut i: usize = 0;
        while i < n
            invariant
                old(self).wf(),
                spec_live_wf(live@),
                self.entries@ == es,
                es == old(self).entries@,
                n == es.len(),
                i <= n,
                forall|p: int, q: int|
                    0 <= p < q < kept@.len() ==> kept@[p].handle != kept@[q].handle,
                forall|p: int|
                    0 <= p < kept@.len() ==> spec_find_entry(es, #[trigger] kept@[p].handle)
                        == Some(kept@[p]) && spec_visible_in(live@, kept@[p].handle)
                        && spec_entry_wf(kept@[p]) && (match spec_index_by(
                        es,
                        entry_key(),
                        kept@[p].handle,
                    ) {
                        Some(k) => k < i,
                        None => false,
                    }),
                forall|k: int|
                    0 <= k < i ==> spec_find_entry(kept@, #[trigger] es[k].handle) == (
                    if spec_visible_in(live@, es[k].handle) {
                        Some(es[k])
                    } else {
                        None::<TrackedEntry>
                    }),
                forall|j: int|
                    0 <= j < destroyed@.len() ==> spec_has_border(es, #[trigger] destroyed@[j])
                        && !spec_visible_in(live@, destroyed@[j]),
                forall|k: int|
                    0 <= k < i && es[k].border is Some && !spec_visible_in(live@, es[k].handle)
                        ==> destroyed@.contains(#[trigger] es[k].handle),
            decreases n - i,
        {
            let e = self.entries[i];
            proof {
                lemma_find_by_unique(es, entry_key(), e.handle, i as int);
            }
            if visible_in(live, e.handle) {
                let ghost old_k = kept@;
                kept.push(e);
                proof {
                    assert forall|k: int|
                        0 <= k < i + 1 implies spec_find_entry(
                        kept@,
                        #[trigger] es[k].handle,
                    ) == (if spec_visible_in(live@, es[k].handle) {
                        Some(es[k])
                    } else {
                        None::<TrackedEntry>
                    }) by {
                        lemma_find_by_push(old_k, entry_key(), e, es[k].handle);
                        if k < i {
                            if spec_visible_in(live@, es[k].handle) {
                            } else {
                                assert(spec_find_entry(old_k, es[k].handle) is None);
                                if e.handle == es[k].handle {
                                    assert(spec_visible_in(live@, es[k].handle));
                                }
                            }
                        } else {
                            assert(es[k] == e);
                            match spec_find_entry(old_k, e.handle) {
                                Some(prev) => {
                                    // an earlier entry with this handle would
                                    // contradict uniqueness in the old registry
                                    lemma_index_by_props(old_k, entry_key(), e.handle);
                                    let p = spec_index_by(old_k, entry_key(), e.handle)->Some_0;
                                    assert(old_k[p].handle == e.handle);
                                    assert(spec_index_by(es, entry_key(), old_k[p].handle)
                                        == Some(i as int));
                                    assert(false);
                                },
                                None => {},
                            }
                        }
                    }
                    assert forall|p: int, q: int|
                        0 <= p < q < kept@.len() implies kept@[p].handle != kept@[q].handle by {
                        if q == kept@.len() - 1 && kept@[p].handle == kept@[q].handle {
                            assert(kept@[q] == e);
                            assert(spec_index_by(es, entry_key(), kept@[p].handle) == Some(
                                i as int,
                            ));
                        }
                    }
                }
            } else {
                if e.border.is_some() {
                    let ghost old_d = destroyed@;
                    destroyed.push(e.handle);
                    proof {
                        assert forall|j: int|
                            0 <= j < destroyed@.len() implies spec_has_border(
                            es,
                            #[trigger] destroyed@[j],
                        ) && !spec_visible_in(live@, destroyed@[j]) by {
                            if j < old_d.len() {
                                assert(destroyed@[j] == old_d[j]);
                            } else {
                                assert(destroyed@[j] == e.handle);
                            }
                        }
                        assert forall|k: int|
                            0 <= k < i + 1 && es[k].border is Some && !spec_visible_in(
                            live@,
                            es[k].handle,
                        ) implies destroyed@.contains(#[trigger] es[k].handle) by {
                            if k < i {
                                assert(old_d.contains(es[k].handle));
                                let j = choose|j: int|
                                    0 <= j < old_d.len() && old_d[j] == es[k].handle;
                                assert(destroyed@[j] == es[k].handle);
                            } else {
                                assert(destroyed@[destroyed@.len() - 1] == e.handle);
                            }
                        }
                    }
                }
                proof {
                    assert forall|k: int|
                        0 <= k < i + 1 implies spec_find_entry(
                        kept@,
                        #[trigger] es[k].handle,
                    ) == (if spec_visible_in(live@, es[k].handle) {
                        Some(es[k])
                    } else {
                        None::<TrackedEntry>
                    }) by {
                        if k == i {
                            if spec_find_entry(kept@, es[k].handle) is Some {
                                lemma_index_by_props(kept@, entry_key(), es[k].handle);
                                let p = spec_index_by(kept@, entry_key(), es[k].handle)->Some_0;
                                assert(spec_visible_in(live@, kept@[p].handle));
                            }
                        }
                    }
                }
            }
            i += 1;
        }
        self.entries = kept;
        proof {
            assert forall|h: WindowHandle|
                spec_find_entry(self.entries@, h) == (if spec_visible_in(live@, h) {
                    spec_find_entry(es, h)
                } else {
                    None::<TrackedEntry>
                }) by {
                lemma_index_by_props(es, entry_key(), h);
                lemma_index_by_props(self.entries@, entry_key(), h);
                match spec_index_by(es, entry_key(), h) {
                    Some(k) => {
                        assert(spec_find_entry(self.entries@, es[k].handle) == (
                        if spec_visible_in(live@, es[k].handle) {
                            Some(es[k])
                        } else {
                            None::<TrackedEntry>
                        }));
                    },
                    None => {
                        if spec_find_entry(self.entries@, h) is Some {
                            let p = spec_index_by(self.entries@, entry_key(), h)->Some_0;
                            assert(spec_find_entry(es, self.entries@[p].handle) == Some(
                                self.entries@[p],
                            ));
                            lemma_index_by_props(es, entry_key(), self.entries@[p].handle);
                        }
                    },
                }
            }
            assert forall|h: WindowHandle| #[trigger]
                destroyed@.contains(h) <==> (spec_has_border(es, h) && !spec_visible_in(live@, h)) by {
                if destroyed@.contains(h) {
                    let j = choose|j: int| 0 <= j < destroyed@.len() && destroyed@[j] == h;
                    assert(spec_has_border(es, destroyed@[j]));
                } else {
                    if spec_has_border(es, h) && !spec_visible_in(live@, h) {
                        lemma_index_by_props(es, entry_key(), h);
                        let k = spec_index_by(es, entry_key(), h)->Some_0;
                        assert(destroyed@.contains(es[k].handle));
                    }
                }
            }
        }
        destroyed
    }

    /// Run one reconciliation pass against the live enumeration: sweep
    /// away windows no longer visible, drop the border of tracked
    /// windows that stopped being eligible (the entry stays, so
    /// membership is remembered), give newly eligible windows a border,
    /// and start tracking eligible windows the registry had never seen.
    /// Returns the handles whose overlays must be destroyed and those
    /// whose overlays must be created (`overlay_rect_of` and
    /// `render_command_of` give each new overlay's rectangle and first
    /// draw pass).
    #[verifier::rlimit(80)]
    pub fn reconcile(
        &mut self,
        live: &Vec<WindowInfo>,
        config: &Config,
        inputs: &RefreshInputs,
        outcomes: &Vec<TargetOutcome>,
    ) -> (r: (Vec<WindowHandle>, Vec<WindowHandle>))
        requires
            old(self).wf(),
            spec_live_wf(live@),
            outcomes@.len() == live@.len(),
        ensures
            final(self).wf(),
            forall|h: WindowHandle| #[trigger]
                spec_find_entry(final(self).entries@, h) == spec_reconcile_at(
                    spec_find_entry(old(self).entries@, h),
                    live@,
                    config.window_rules@,
                    *inputs,
                    outcomes@,
                    h,
                ),
            forall|h: WindowHandle| #[trigger]
                r.0@.contains(h) <==> (spec_has_border(old(self).entries@, h)
                    && !spec_has_border(final(self).entries@, h)),
            forall|h: WindowHandle| #[trigger]
                r.1@.contains(h) <==> (!spec_has_border(old(self).entries@, h)
                    && spec_has_border(final(self).entries@, h)),
    {
        let ghost es = old(self).entries@;
        let ghost rules = config.window_rules@;
        let mut destroyed = self.sweep(live);
        let ghost s1 = self.entries@;
        proof {
            assert forall|j: int|
                0 <= j < s1.len() implies spec_visible_in(live@, #[trigger] s1[j].handle) by {
                lemma_find_by_unique(s1, entry_key(), s1[j].handle, j);
                assert(spec_find_entry(s1, s1[j].handle) == Some(s1[j]));
                assert(spec_find_entry(s1, s1[j].handle) == (if spec_visible_in(
                    live@,
                    s1[j].handle,
                ) {
                    spec_find_entry(es, s1[j].handle)
                } else {
                    None::<TrackedEntry>
                }));
            }
        }
        let (mut demoted, mut created) = self.settle_entries(live, config, inputs, outcomes);
        let ghost s2 = self.entries@;
        let ghost demoted_v = demoted@;
        let ghost promoted_v = created@;
        let mut added = self.add_missing(live, config, inputs, outcomes);
        let ghost added_v = added@;
        let ghost d1 = destroyed@;
        destroyed.append(&mut demoted);
        created.append(&mut added);

        // assemble: the pass as a whole acts on each handle as
        // spec_reconcile_at says
        proof {
            let fin = self.entries@;
            assert forall|h: WindowHandle| #[trigger]
                spec_find_entry(fin, h) == spec_reconcile_at(
                    spec_find_entry(es, h),
                    live@,
                    rules,
                    *inputs,
                    outcomes@,
                    h,
                ) by {
                lemma_index_by_props(live@, info_key(), h);
                lemma_index_by_props(s1, entry_key(), h);
                lemma_index_by_props(es, entry_key(), h);
            }
            assert forall|h: WindowHandle| #[trigger]
                destroyed@.contains(h) <==> (spec_has_border(es, h) && !spec_has_border(fin, h)) by {
                lemma_contains_concat(d1, demoted_v, h);
                lemma_index_by_props(s1, entry_key(), h);
                lemma_index_by_props(es, entry_key(), h);
                lemma_index_by_props(live@, info_key(), h);
            }
            assert forall|h: WindowHandle| #[trigger]
                created@.contains(h) <==> (!spec_has_border(es, h) && spec_has_border(fin, h)) by {
                lemma_contains_concat(promoted_v, added_v, h);
                lemma_index_by_props(s1, entry_key(), h);
                lemma_index_by_props(es, entry_key(), h);
                lemma_index_by_props(live@, info_key(), h);
            }
        }
        (destroyed, created)
    }

    /// Re-evaluate membership of every (swept) entry: drop the borders
    /// of windows that stopped being eligible, construct borders for
    /// tracked windows that became eligible again. Returns the demoted
    /// and the promoted handles.
    #[verifier::rlimit(80)]
    fn settle_entries(
        &mut self,
        live: &Vec<WindowInfo>,
        config: &Config,
        inputs: &RefreshInputs,
        outcomes: &Vec<TargetOutcome>,
    ) -> (r: (Vec<WindowHandle>, Vec<WindowHandle>))
        requires
            old(self).wf(),
            spec_live_wf(live@),
            outcomes@.len() == live@.len(),
            forall|j: int|
                0 <= j < old(self).entries@.len() ==> spec_visible_in(
                    live@,
                    #[trigger] old(self).entries@[j].handle,
                ),
        ensures
            final(self).wf(),
            final(self).entries@.len() == old(self).entries@.len(),
            forall|j: int|
                0 <= j < old(self).entries@.len() ==> #[trigger] final(self).entries@[j]
                    == spec_settle_entry(
                    old(self).entries@[j],
                    live@,
                    config.window_rules@,
                    *inputs,
                    outcomes@,
                ),
            forall|h: WindowHandle| #[trigger]
                spec_find_entry(final(self).entries@, h) == (match spec_find_entry(
                    old(self).entries@,
                    h,
                ) {
                    Some(e) => Some(
                        spec_settle_entry(e, live@, config.window_rules@, *inputs, outcomes@),
                    ),
                    None => None::<TrackedEntry>,
                }),
            forall|h: WindowHandle| #[trigger]
                r.0@.contains(h) <==> spec_demoted_before(
                    old(self).entries@,
                    live@,
                    h,
                    old(self).entries@.len() as int,
                ),
            forall|h: WindowHandle| #[trigger]
                r.1@.contains(h) <==> spec_promoted_before(
                    old(self).entries@,
                    live@,
                    config.window_rules@,
                    *inputs,
                    outcomes@,
                    h,
                    old(self).entries@.len() as int,
                ),
    {
        let ghost s1 = old(self).entries@;
        let ghost rules = config.window_rules@;
        let mut demoted: Vec<WindowHandle> = Vec::new();
        let mut promoted: Vec<WindowHandle> = Vec::new();
        let n = self.entries.len();
        let mut k: usize = 0;
        proof {
            assert forall|h: WindowHandle| !(#[trigger] spec_demoted_before(s1, live@, h, 0)) by {
                lemma_index_by_props(s1, entry_key(), h);
            }
            assert forall|h: WindowHandle|
                !(#[trigger] spec_promoted_before(s1, live@, rules, *inputs, outcomes@, h, 0)) by {
                lemma_index_by_props(s1, entry_key(), h);
            }
        }
        while k < n
            invariant
                spec_live_wf(live@),
                outcomes@.len() == live@.len(),
                rules == config.window_rules@,
                s1 == old(self).entries@,
                n == s1.len(),
                self.entries@.len() == n,
                k <= n,
                forall|p: int, q: int| 0 <= p < q < n ==> s1[p].handle != s1[q].handle,
                forall|j: int| 0 <= j < n ==> spec_entry_wf(#[trigger] s1[j]),
                forall|j: int| 0 <= j < n ==> spec_visible_in(live@, #[trigger] s1[j].handle),
                forall|j: int| k <= j < n ==> self.entries@[j] == s1[j],
                forall|j: int|
                    0 <= j < k ==> #[trigger] self.entries@[j] == spec_settle_entry(
                        s1[j],
                        live@,
                        rules,
                        *inputs,
                        outcomes@,
                    ),
                forall|j: int| 0 <= j < n ==> spec_entry_wf(#[trigger] self.entries@[j]),
                forall|j: int| 0 <= j < n ==> self.entries@[j].handle == s1[j].handle,
                forall|h: WindowHandle| #[trigger]
                    demoted@.contains(h) <==> spec_demoted_before(s1, live@, h, k as int),
                forall|h: WindowHandle| #[trigger]
                    promoted@.contains(h) <==> spec_promoted_before(
                        s1,
                        live@,
                        rules,
                        *inputs,
                        outcomes@,
                        h,
                        k as int,
                    ),
            decreases n - k,
        {
            let e = self.entries[k];
            let ghost eh = e.handle;
            proof {
                assert(e == s1[k as int]);
                lemma_find_by_unique(s1, entry_key(), eh, k as int);
            }
            let ghost old_d = demoted@;
            let ghost old_p = promoted@;
            match find_info_index(live, e.handle) {
                None => {
                    // every swept entry's window is in the enumeration
                    proof {
                        assert(spec_visible_in(live@, eh));
                        assert(false);
                    }
                },
                Some(i) => {
                    let eligible = crate::is_window_eligible(
                        live[i].visible,
                        live[i].title.as_str(),
                        live[i].ex_style,
                    );
                    if eligible {
                        if e.border.is_none() {
                            match construct_border(&live[i], config, inputs, &outcomes[i]) {
                                Some(b) => {
                                    let entry = TrackedEntry {
                                        handle: e.handle,
                                        border: Some(b),
                                    };
                                    self.entries[k] = entry;
                                    promoted.push(e.handle);
                                },
                                None => {},
                            }
                        }
                    } else {
                        if e.border.is_some() {
                            let entry = TrackedEntry { handle: e.handle, border: None };
                            self.entries[k] = entry;
                            demoted.push(e.handle);
                        }
                    }
                },
            }
            proof {
                assert forall|h: WindowHandle| #[trigger]
                    demoted@.contains(h) <==> spec_demoted_before(s1, live@, h, (k + 1) as int) by {
                    if demoted@ != old_d {
                        lemma_contains_push(old_d, eh, h);
                    }
                    lemma_index_by_props(s1, entry_key(), h);
                }
                assert forall|h: WindowHandle| #[trigger]
                    promoted@.contains(h) <==> spec_promoted_before(
                        s1,
                        live@,
                        rules,
                        *inputs,
                        outcomes@,
                        h,
                        (k + 1) as int,
                    ) by {
                    if promoted@ != old_p {
                        lemma_contains_push(old_p, eh, h);
                    }
                    lemma_index_by_props(s1, entry_key(), h);
                }
            }
            k += 1;
        }
        proof {
            let s2 = self.entries@;
            assert forall|h: WindowHandle| #[trigger]
                spec_find_entry(s2, h) == (match spec_find_entry(s1, h) {
                    Some(e) => Some(spec_settle_entry(e, live@, rules, *inputs, outcomes@)),
                    None => None::<TrackedEntry>,
                }) by {
                lemma_index_by_props(s1, entry_key(), h);
                match spec_index_by(s1, entry_key(), h) {
                    Some(i0) => {
                        assert forall|j: int|
                            0 <= j < i0 implies entry_key()(#[trigger] s2[j]) != h by {
                            assert(s1[j].handle != h);
                        }
                        lemma_index_by_exact(s2, entry_key(), h, i0);
                    },
                    None => {
                        assert forall|j: int|
                            0 <= j < s2.len() implies entry_key()(#[trigger] s2[j]) != h by {
                            assert(s1[j].handle != h);
                        }
                        lemma_find_by_none(s2, entry_key(), h);
                    },
                }
            }
        }
        (demoted, promoted)
    }

    /// Start tracking every visible, eligible live window the registry
    /// does not know yet; a failed construction leaves it untracked.
    /// Returns the handles that gained an entry.
    #[verifier::rlimit(80)]
    fn add_missing(
        &mut self,
        live: &Vec<WindowInfo>,
        config: &Config,
        inputs: &RefreshInputs,
        outcomes: &Vec<TargetOutcome>,
    ) -> (added: Vec<WindowHandle>)
        requires
            old(self).wf(),
            spec_live_wf(live@),
            outcomes@.len() == live@.len(),
        ensures
            final(self).wf(),
            forall|h: WindowHandle| #[trigger]
                spec_find_entry(final(self).entries@, h) == (if spec_added_before(
                    old(self).entries@,
                    live@,
                    config.window_rules@,
                    *inputs,
                    outcomes@,
                    h,
                    live@.len() as int,
                ) {
                    Some(
                        TrackedEntry {
                            handle: h,
                            border: spec_construct(
                                live@[spec_index_by(live@, info_key(), h)->Some_0],
                                config.window_rules@,
                                *inputs,
                                outcomes@[spec_index_by(live@, info_key(), h)->Some_0],
                            ),
                        },
                    )
                } else {
                    spec_find_entry(old(self).entries@, h)
                }),
            forall|h: WindowHandle| #[trigger]
                added@.contains(h) <==> spec_added_before(
                    old(self).entries@,
                    live@,
                    config.window_rules@,
                    *inputs,
                    outcomes@,
                    h,
                    live@.len() as int,
                ),
    {
        let ghost s2 = old(self).entries@;
        let ghost rules = config.window_rules@;
        let mut added: Vec<WindowHandle> = Vec::new();
        let m = live.len();
        let mut j: usize = 0;
        proof {
            assert forall|h: WindowHandle|
                !(#[trigger] spec_added_before(s2, live@, rules, *inputs, outcomes@, h, 0)) by {
                lemma_index_by_props(live@, info_key(), h);
            }
        }
        while j < m
            invariant
                spec_live_wf(live@),
                outcomes@.len() == live@.len(),
                rules == config.window_rules@,
                s2 == old(self).entries@,
                m == live@.len(),
                j <= m,
                self.wf(),
                forall|h: WindowHandle| #[trigger]
                    spec_find_entry(self.entries@, h) == (if spec_added_before(
                        s2,
                        live@,
                        rules,
                        *inputs,
                        outcomes@,
                        h,
                        j as int,
                    ) {
                        Some(
                            TrackedEntry {
                                handle: h,
                                border: spec_construct(
                                    live@[spec_index_by(live@, info_key(), h)->Some_0],
                                    rules,
                                    *inputs,
                                    outcomes@[spec_index_by(live@, info_key(), h)->Some_0],
                                ),
                            },
                        )
                    } else {
                        spec_find_entry(s2, h)
                    }),
                forall|h: WindowHandle| #[trigger]
                    added@.contains(h) <==> spec_added_before(
                        s2,
                        live@,
                        rules,
                        *inputs,
                        outcomes@,
                        h,
                        j as int,
                    ),
            decreases m - j,
        {
            let w = &live[j];
            let ghost wh = w.handle;
            proof {
                lemma_find_by_unique(live@, info_key(), wh, j as int);
            }
            let ghost old_a = added@;
            let eligible = crate::is_window_eligible(w.visible, w.title.as_str(), w.ex_style);
            if w.visible && eligible {
                match self.find_index(w.handle) {
                    Some(_) => {},
                    None => {
                        let ghost cur = self.entries@;
                        match construct_border(w, config, inputs, &outcomes[j]) {
                            Some(b) => {
                                let entry = TrackedEntry { handle: w.handle, border: Some(b) };
                                self.entries.push(entry);
                                added.push(w.handle);
                                proof {
                                    assert forall|p: int, q: int|
                                        0 <= p < q < self.entries@.len() implies self.entries@[p].handle
                                        != self.entries@[q].handle by {
                                        if q == self.entries@.len() - 1 {
                                            if self.entries@[p].handle == wh {
                                                lemma_find_by_unique(cur, entry_key(), wh, p);
                                            }
                                        }
                                    }
                                    assert forall|h: WindowHandle| #[trigger]
                                        spec_find_entry(self.entries@, h) == (
                                    if h == wh {
                                        Some(entry)
                                    } else {
                                        spec_find_entry(cur, h)
                                    }) by {
                                        lemma_find_by_push(cur, entry_key(), entry, h);
                                    }
                                }
                            },
                            None => {},
                        }
                    },
                }
            }
            proof {
                assert forall|h: WindowHandle| #[trigger]
                    spec_find_entry(self.entries@, h) == (if spec_added_before(
                        s2,
                        live@,
                        rules,
                        *inputs,
                        outcomes@,
                        h,
                        (j + 1) as int,
                    ) {
                        Some(
                            TrackedEntry {
                                handle: h,
                                border: spec_construct(
                                    live@[spec_index_by(live@, info_key(), h)->Some_0],
                                    rules,
                                    *inputs,
                                    outcomes@[spec_index_by(live@, info_key(), h)->Some_0],
                                ),
                            },
                        )
                    } else {
                        spec_find_entry(s2, h)
                    }) by {
                    lemma_index_by_props(live@, info_key(), h);
                }
                assert forall|h: WindowHandle| #[trigger]
                    added@.contains(h) <==> spec_added_before(
                        s2,
                        live@,
                        rules,
                        *inputs,
                        outcomes@,
                        h,
                        (j + 1) as int,
                    ) by {
                    if added@ != old_a {
                        lemma_contains_push(old_a, wh, h);
                    }
                    lemma_index_by_props(live@, info_key(), h);
                }
            }
            j += 1;
        }
        added
    }

    /// Track a window if the eligibility predicate holds and no entity
    /// exists yet. On construction failure the window is left as it was
    /// (no retry storm; the next reconciliation retries). Returns the
    /// rectangle at which the adapter must create the overlay window
    /// when an entity was constructed; its first draw pass is available
    /// from `render_command_of`.
    pub fn assign(
        &mut self,
        info: &WindowInfo,
        config: &Config,
        inputs: &RefreshInputs,
        outcome: &TargetOutcome,
    ) -> (created: Option<Rect>)
        requires
            old(self).wf(),
            frame_ok(info.frame),
            dpi_ok(info.dpi),
        ensures
            final(self).wf(),
            forall|h: WindowHandle|
                h != info.handle ==> #[trigger] spec_find_entry(final(self).entries@, h)
                    == spec_find_entry(old(self).entries@, h),
            spec_find_entry(final(self).entries@, info.handle) == spec_assign_at(
                spec_find_entry(old(self).entries@, info.handle),
                *info,
                config.window_rules@,
                *inputs,
                *outcome,
            ),
            created == (if spec_info_eligible(*info) && !spec_has_border(
                old(self).entries@,
                info.handle,
            ) && spec_construct(*info, config.window_rules@, *inputs, *outcome) is Some {
                Some(crate::geometry::spec_outset(info.frame->Some_0))
            } else {
                None::<Rect>
            }),
    {
        let ghost es = old(self).entries@;
        if !crate::is_window_eligible(info.visible, info.title.as_str(), info.ex_style) {
            return None;
        }
        match self.find_index(info.handle) {
            Some(k) => {
                let e = self.entries[k];
                if e.border.is_some() {
                    None
                } else {
                    match construct_border(info, config, inputs, outcome) {
                        Some(b) => {
                            let entry = TrackedEntry { handle: info.handle, border: Some(b) };
                            self.entries[k] = entry;
                            proof {
                                lemma_find_update(es, k as int, entry);
                            }
                            match info.frame {
                                Some(r) => Some(crate::geometry::outset_rect(&r)),
                                None => {
                                    // a constructed border always had frame bounds
                                    proof {
                                        assert(false);
                                    }
                                    None
                                },
                            }
                        },
                        None => None,
                    }
                }
            },
            None => {
                match construct_border(info, config, inputs, outcome) {
                    Some(b) => {
                        let entry = TrackedEntry { handle: info.handle, border: Some(b) };
                        self.entries.push(entry);
                        proof {
                            assert(self.entries@ == es.push(entry));
                            assert forall|h: WindowHandle|
                                h != info.handle implies #[trigger] spec_find_entry(
                                self.entries@,
                                h,
                            ) == spec_find_entry(es, h) by {
                                lemma_find_by_push(es, entry_key(), entry, h);
                            }
                            lemma_find_by_push(es, entry_key(), entry, info.handle);
                            assert forall|p: int, q: int|
                                0 <= p < q < self.entries@.len() implies self.entries@[p].handle
                                != self.entries@[q].handle by {
                                if q == self.entries@.len() - 1 {
                                    if self.entries@[p].handle == info.handle {
                                        lemma_find_by_unique(es, entry_key(), info.handle, p);
                                    }
                                }
                            }
                        }
                        match info.frame {
                            Some(r) => Some(crate::geometry::outset_rect(&r)),
                            None => {
                                // a constructed border always had frame bounds
                                proof {
                                    assert(false);
                                }
                                None
                            },
                        }
                    },
                    None => None,
                }
            },
        }
    }

    /// Forward a fresh bounds query to the entity tracking `h`: the
    /// overlay is moved, or hidden while the query fails. Windows
    /// tracked without a border, and untracked ones, are untouched.
    pub fn update_position_of(&mut self, h: WindowHandle, frame: Option<Rect>) -> (cmd: Option<
        PositionCmd,
    >)
        requires
            old(self).wf(),
            frame_ok(frame),
        ensures
            final(self).wf(),
            forall|h2: WindowHandle|
                h2 != h ==> #[trigger] spec_find_entry(final(self).entries@, h2)
                    == spec_find_entry(old(self).entries@, h2),
            ({
                let before = spec_find_entry(old(self).entries@, h);
                match before {
                    Some(e) => match e.border {
                        Some(b) => {
                            let (b2, c) = b.spec_update_position(frame);
                            &&& spec_find_entry(final(self).entries@, h) == Some(
                                TrackedEntry { handle: h, border: Some(b2) },
                            )
                            &&& cmd == Some(c)
                        },
                        None => spec_find_entry(final(self).entries@, h) == before
                            && cmd is None,
                    },
                    None => spec_find_entry(final(self).entries@, h) == before && cmd is None,
                }
            }),
    {
        let ghost es = old(self).entries@;
        match self.find_index(h) {
            Some(k) => {
                let e = self.entries[k];
                match e.border {
                    Some(mut b) => {
                        let c = b.update_border_position(frame);
                        let entry = TrackedEntry { handle: e.handle, border: Some(b) };
                        self.entries[k] = entry;
                        proof {
                            lemma_find_update(es, k as int, entry);
                        }
                        Some(c)
                    },
                    None => None,
                }
            },
            None => None,
        }
    }

    /// One firing of a border's refresh timer, the event-loss backstop:
    /// a position update, then a property update, for the entity
    /// tracking `h`, from its snapshot in `live`. Returns the position
    /// command and the draw pass if the update found a delta; `None`
    /// when `h` is not tracked with a border or not in the snapshot.
    pub fn handle_timer_of(
        &mut self,
        h: WindowHandle,
        live: &Vec<WindowInfo>,
        config: &Config,
        inputs: &RefreshInputs,
        outcomes: &Vec<TargetOutcome>,
    ) -> (r: Option<(PositionCmd, Option<DrawCommand>)>)
        requires
            old(self).wf(),
            spec_live_wf(live@),
            outcomes@.len() == live@.len(),
        ensures
            final(self).wf(),
            forall|h2: WindowHandle|
                h2 != h ==> #[trigger] spec_find_entry(final(self).entries@, h2)
                    == spec_find_entry(old(self).entries@, h2),
            ({
                let rules = config.window_rules@;
                let before = spec_find_entry(old(self).entries@, h);
                match before {
                    Some(e) => match e.border {
                        Some(b) => match spec_index_by(live@, info_key(), h) {
                            Some(i) => {
                                let w = live@[i];
                                let colors = spec_info_colors(w, rules, *inputs);
                                let (b1, cmd) = b.spec_update_position(w.frame);
                                let (b2, redraw) = b1.spec_update_properties(
                                    w.frame,
                                    inputs.foreground == Some(h),
                                    w.dpi,
                                    w.corner_preference,
                                    colors.0,
                                    colors.1,
                                    outcomes@[i],
                                );
                                &&& spec_find_entry(final(self).entries@, h) == Some(
                                    TrackedEntry { handle: h, border: Some(b2) },
                                )
                                &&& r == Some(
                                    (
                                        cmd,
                                        if redraw {
                                            b2.frame_drawer.spec_render()
                                        } else {
                                            None::<DrawCommand>
                                        },
                                    ),
                                )
                            },
                            None => spec_find_entry(final(self).entries@, h) == before
                                && r is None,
                        },
                        None => spec_find_entry(final(self).entries@, h) == before && r is None,
                    },
                    None => spec_find_entry(final(self).entries@, h) == before && r is None,
                }
            }),
    {
        let ghost es = old(self).entries@;
        match self.find_index(h) {
            Some(k) => {
                let e = self.entries[k];
                match e.border {
                    Some(mut b) => {
                        match find_info_index(live, h) {
                            Some(i) => {
                                let colors = get_colors_for_window(
                                    live[i].title.as_str(),
                                    live[i].class_name.as_str(),
                                    false,
                                    config,
                                    inputs.accent,
                                    inputs.rainbow,
                                );
                                let focused = match inputs.foreground {
                                    Some(f) => f == h,
                                    None => false,
                                };
                                let (cmd, draw) = b.handle_timer(
                                    live[i].frame,
                                    focused,
                                    live[i].dpi,
                                    live[i].corner_preference,
                                    colors.0,
                                    colors.1,
                                    &outcomes[i],
                                );
                                let entry = TrackedEntry { handle: e.handle, border: Some(b) };
                                self.entries[k] = entry;
                                proof {
                                    lemma_find_update(es, k as int, entry);
                                }
                                Some((cmd, draw))
                            },
                            None => None,
                        }
                    },
                    None => None,
                }
            },
            None => None,
        }
    }

    /// Forward a property update to every tracked entity (color depends
    /// on focus, so a foreground change touches them all). Returns, for
    /// each entry in order, its handle and the draw pass to run if its
    /// update found a delta.
    pub fn refresh_all(
        &mut self,
        live: &Vec<WindowInfo>,
        config: &Config,
        inputs: &RefreshInputs,
        outcomes: &Vec<TargetOutcome>,
    ) -> (redraws: Vec<(WindowHandle, Option<DrawCommand>)>)
        requires
            old(self).wf(),
            spec_live_wf(live@),
            outcomes@.len() == live@.len(),
        ensures
            final(self).wf(),
            final(self).entries@.len() == old(self).entries@.len(),
            forall|k: int|
                0 <= k < old(self).entries@.len() ==> #[trigger] final(self).entries@[k]
                    == spec_refresh_entry(
                    old(self).entries@[k],
                    live@,
                    config.window_rules@,
                    *inputs,
                    outcomes@,
                ),
            redraws@.len() == old(self).entries@.len(),
            forall|k: int|
                0 <= k < old(self).entries@.len() ==> #[trigger] redraws@[k] == (
                old(self).entries@[k].handle,
                spec_refresh_draw(
                    old(self).entries@[k],
                    live@,
                    config.window_rules@,
                    *inputs,
                    outcomes@,
                ),
            ),
            forall|h: WindowHandle| #[trigger]
                spec_find_entry(final(self).entries@, h) == (match spec_find_entry(
                    old(self).entries@,
                    h,
                ) {
                    Some(e) => Some(
                        spec_refresh_entry(e, live@, config.window_rules@, *inputs, outcomes@),
                    ),
                    None => None::<TrackedEntry>,
                }),
    {
        let ghost es = old(self).entries@;
        let ghost rules = config.window_rules@;
        let mut redraws: Vec<(WindowHandle, Option<DrawCommand>)> = Vec::new();
        let n = self.entries.len();
        let mut k: usize = 0;
        while k < n
            invariant
                old(self).wf(),
                spec_live_wf(live@),
                outcomes@.len() == live@.len(),
                es == old(self).entries@,
                rules == config.window_rules@,
                n == es.len(),
                self.entries@.len() == n,
                k <= n,
                forall|j: int| k <= j < n ==> self.entries@[j] == es[j],
                forall|j: int|
                    0 <= j < k ==> #[trigger] self.entries@[j] == spec_refresh_entry(
                        es[j],
                        live@,
                        rules,
                        *inputs,
                        outcomes@,
                    ),
                forall|j: int| 0 <= j < n ==> spec_entry_wf(#[trigger] self.entries@[j]),
                redraws@.len() == k,
                forall|j: int|
                    0 <= j < k ==> #[trigger] redraws@[j] == (
                    es[j].handle,
                    spec_refresh_draw(es[j], live@, rules, *inputs, outcomes@),
                ),
            decreases n - k,
        {
            let e = self.entries[k];
            match e.border {
                None => {
                    redraws.push((e.handle, None));
                },
                Some(b) => {
                    match find_info_index(live, e.handle) {
                        None => {
                            redraws.push((e.handle, None));
                        },
                        Some(i) => {
                            let colors = get_colors_for_window(
                                live[i].title.as_str(),
                                live[i].class_name.as_str(),
                                false,
                                config,
                                inputs.accent,
                                inputs.rainbow,
                            );
                            let focused = match inputs.foreground {
                                Some(f) => f == e.handle,
                                None => false,
                            };
                            let mut b2 = b;
                            let redraw = b2.update_border_properties(
                                live[i].frame,
                                focused,
                                live[i].dpi,
                                live[i].corner_preference,
                                colors.0,
                                colors.1,
                                &outcomes[i],
                            );
                            let entry = TrackedEntry { handle: e.handle, border: Some(b2) };
                            self.entries[k] = entry;
                            let cmd = if redraw {
                                b2.frame_drawer.render()
                            } else {
                                None
                            };
                            redraws.push((e.handle, cmd));
                        },
                    }
                },
            }
            k += 1;
        }
        proof {
            assert forall|j: int| 0 <= j < n implies #[trigger] self.entries@[j].handle
                == es[j].handle by {
                assert(self.entries@[j] == spec_refresh_entry(es[j], live@, rules, *inputs, outcomes@));
            }
            assert forall|h: WindowHandle| #[trigger]
                spec_find_entry(self.entries@, h) == (match spec_find_entry(es, h) {
                    Some(e) => Some(spec_refresh_entry(e, live@, rules, *inputs, outcomes@)),
                    None => None::<TrackedEntry>,
                }) by {
                lemma_index_by_props(es, entry_key(), h);
                match spec_index_by(es, entry_key(), h) {
                    Some(i0) => {
                        assert forall|j: int|
                            0 <= j < i0 implies entry_key()(#[trigger] self.entries@[j]) != h by {
                            assert(es[j].handle != h);
                        }
                        lemma_index_by_exact(self.entries@, entry_key(), h, i0);
                    },
                    None => {
                        assert forall|j: int|
                            0 <= j < n implies entry_key()(#[trigger] self.entries@[j]) != h by {
                            assert(es[j].handle != h);
                        }
                        lemma_find_by_none(self.entries@, entry_key(), h);
                    },
                }
            }
        }
        redraws
    }

    /// Index of the entry tracking `h`, if any.
    fn find_index(&self, h: WindowHandle) -> (r: Option<usize>)
        requires
            self.wf(),
        ensures
            match r {
                Some(k) => k < self.entries@.len() && self.entries@[k as int].handle == h
                    && spec_find_entry(self.entries@, h) == Some(self.entries@[k as int]),
                None => spec_find_entry(self.entries@, h) is None,
            },
    {
        let n = self.entries.len();
        let mut i: usize = 0;
        while i < n
            invariant
                self.wf(),
                n == self.entries@.len(),
                i <= n,
                forall|j: int| 0 <= j < i ==> self.entries@[j].handle != h,
            decreases n - i,
        {
            if self.entries[i].handle == h {
                proof {
                    lemma_find_by_unique(self.entries@, entry_key(), h, i as int);
                }
                return Some(i);
            }
            i += 1;
        }
        proof {
            lemma_find_by_none(self.entries@, entry_key(), h);
        }
        None
    }

    /// The draw pass currently described for `h`'s overlay, if `h` is
    /// tracked with a border.
    pub fn render_command_of(&self, h: WindowHandle) -> (cmd: Option<DrawCommand>)
        requires
            self.wf(),
        ensures
            cmd == (match spec_find_entry(self.entries@, h) {
                Some(e) => match e.border {
                    Some(b) => b.frame_drawer.spec_render(),
                    None => None::<DrawCommand>,
                },
                None => None::<DrawCommand>,
            }),
    {
        match self.find_index(h) {
            Some(k) => {
                let e = self.entries[k];
                match e.border {
                    Some(b) => b.frame_drawer.render(),
                    None => None,
                }
            },
            None => None,
        }
    }

    /// The rectangle `h`'s overlay stands at (the cached frame bounds,
    /// outset by the border thickness), if `h` carries a border.
    pub fn overlay_rect_of(&self, h: WindowHandle) -> (r: Option<Rect>)
        requires
            self.wf(),
        ensures
            r == (match spec_find_entry(self.entries@, h) {
                Some(e) => match e.border {
                    Some(b) => match b.last_frame {
                        Some(f) => Some(crate::geometry::spec_outset(f)),
                        None => None::<Rect>,
                    },
                    None => None::<Rect>,
                },
                None => None::<Rect>,
            }),
    {
        match self.find_index(h) {
            Some(k) => {
                let e = self.entries[k];
                match e.border {
                    Some(b) => match b.last_frame {
                        Some(f) => Some(crate::geometry::outset_rect(&f)),
                        None => None,
                    },
                    None => None,
                }
            },
            None => None,
        }
    }

    /// Consume one event: the lazy-eviction sweep runs first (destroy
    /// notifications race the handle going stale, so eviction never
    /// relies on them), then the action the dispatch table names.
    /// `handle` is the window the notification concerns; `live` is a
    /// fresh enumeration carrying each window's update inputs;
    /// `outcomes` reports target creation per live index.
    #[verifier::rlimit(80)]
    pub fn handle_event(
        &mut self,
        kind: EventKind,
        handle: WindowHandle,
        live: &Vec<WindowInfo>,
        config: &Config,
        inputs: &RefreshInputs,
        outcomes: &Vec<TargetOutcome>,
    ) -> (r: EventResponse)
        requires
            old(self).wf(),
            spec_live_wf(live@),
            outcomes@.len() == live@.len(),
        ensures
            final(self).wf(),
            forall|h: WindowHandle|
                !spec_visible_in(live@, h) ==> #[trigger] spec_find_entry(
                    final(self).entries@,
                    h,
                ) is None,
            forall|h: WindowHandle| #[trigger]
                r.destroyed@.contains(h) <==> (spec_has_border(old(self).entries@, h)
                    && !spec_has_border(final(self).entries@, h)),
            forall|h: WindowHandle| #[trigger]
                r.created@.contains(h) <==> (!spec_has_border(old(self).entries@, h)
                    && spec_has_border(final(self).entries@, h)),
            ({
                let rules = config.window_rules@;
                match spec_dispatch(kind) {
                    RegistryAction::SweepOnly => {
                        &&& forall|h: WindowHandle| #[trigger]
                            spec_find_entry(final(self).entries@, h) == spec_sweep_at(
                                spec_find_entry(old(self).entries@, h),
                                live@,
                                h,
                            )
                        &&& r.moved is None
                        &&& r.redraws@.len() == 0
                    },
                    RegistryAction::Assign => {
                        &&& forall|h: WindowHandle|
                            h != handle ==> #[trigger] spec_find_entry(final(self).entries@, h)
                                == spec_sweep_at(spec_find_entry(old(self).entries@, h), live@, h)
                        &&& spec_find_entry(final(self).entries@, handle) == (
                        match spec_index_by(live@, info_key(), handle) {
                            Some(i) => spec_assign_at(
                                spec_sweep_at(
                                    spec_find_entry(old(self).entries@, handle),
                                    live@,
                                    handle,
                                ),
                                live@[i],
                                rules,
                                *inputs,
                                outcomes@[i],
                            ),
                            None => spec_sweep_at(
                                spec_find_entry(old(self).entries@, handle),
                                live@,
                                handle,
                            ),
                        })
                        &&& r.moved is None
                        &&& r.redraws@.len() == 0
                    },
                    RegistryAction::UpdatePosition => {
                        let frame = match spec_index_by(live@, info_key(), handle) {
                            Some(i) => live@[i].frame,
                            None => None::<Rect>,
                        };
                        &&& forall|h: WindowHandle|
                            h != handle ==> #[trigger] spec_find_entry(final(self).entries@, h)
                                == spec_sweep_at(spec_find_entry(old(self).entries@, h), live@, h)
                        &&& (match spec_sweep_at(
                            spec_find_entry(old(self).entries@, handle),
                            live@,
                            handle,
                        ) {
                            Some(e) => match e.border {
                                Some(b) => {
                                    &&& spec_find_entry(final(self).entries@, handle) == Some(
                                        TrackedEntry {
                                            handle,
                                            border: Some(b.spec_update_position(frame).0),
                                        },
                                    )
                                    &&& r.moved == Some(b.spec_update_position(frame).1)
                                },
                                None => spec_find_entry(final(self).entries@, handle) == Some(e)
                                    && r.moved is None,
                            },
                            None => spec_find_entry(final(self).entries@, handle) is None
                                && r.moved is None,
                        })
                        &&& r.created@.len() == 0
                        &&& r.redraws@.len() == 0
                    },
                    RegistryAction::FullRefresh => {
                        &&& forall|h: WindowHandle| #[trigger]
                            spec_find_entry(final(self).entries@, h) == (
                        match spec_reconcile_at(
                            spec_find_entry(old(self).entries@, h),
                            live@,
                            rules,
                            *inputs,
                            outcomes@,
                            h,
                        ) {
                            Some(e) => Some(
                                spec_refresh_entry(e, live@, rules, *inputs, outcomes@),
                            ),
                            None => None::<TrackedEntry>,
                        })
                        &&& r.moved is None
                        &&& r.redraws@.len() == final(self).entries@.len()
                        &&& forall|k: int|
                            0 <= k < r.redraws@.len() ==> #[trigger] r.redraws@[k] == ({
                                let h = final(self).entries@[k].handle;
                                (
                                    h,
                                    spec_refresh_draw(
                                        spec_reconcile_at(
                                            spec_find_entry(old(self).entries@, h),
                                            live@,
                                            rules,
                                            *inputs,
                                            outcomes@,
                                            h,
                                        )->Some_0,
                                        live@,
                                        rules,
                                        *inputs,
                                        outcomes@,
                                    ),
                                )
                            })
                    },
                }
            }),
    {
        let ghost es = old(self).entries@;
        let ghost rules = config.window_rules@;
        match dispatch(kind) {
            RegistryAction::SweepOnly => {
                let destroyed = self.sweep(live);
                EventResponse { destroyed, created: Vec::new(), moved: None, redraws: Vec::new() }
            },
            RegistryAction::Assign => {
                let destroyed = self.sweep(live);
                let ghost s1 = self.entries@;
                let mut created: Vec<WindowHandle> = Vec::new();
                match find_info_index(live, handle) {
                    Some(i) => {
                        match self.assign(&live[i], config, inputs, &outcomes[i]) {
                            Some(_rect) => {
                                created.push(handle);
                            },
                            None => {},
                        }
                    },
                    None => {},
                }
                proof {
                    assert forall|h: WindowHandle| #[trigger]
                        created@.contains(h) <==> (!spec_has_border(es, h) && spec_has_border(
                            self.entries@,
                            h,
                        )) by {
                        if created@.len() > 0 {
                            lemma_contains_push(Seq::<WindowHandle>::empty(), handle, h);
                        }
                    }
                    assert forall|h: WindowHandle| #[trigger]
                        destroyed@.contains(h) <==> (spec_has_border(es, h) && !spec_has_border(
                            self.entries@,
                            h,
                        )) by {}
                }
                EventResponse { destroyed, created, moved: None, redraws: Vec::new() }
            },
            RegistryAction::UpdatePosition => {
                let destroyed = self.sweep(live);
                let frame = match find_info_index(live, handle) {
                    Some(i) => live[i].frame,
                    None => None,
                };
                let moved = self.update_position_of(handle, frame);
                proof {
                    assert forall|h: WindowHandle| #[trigger]
                        destroyed@.contains(h) <==> (spec_has_border(es, h) && !spec_has_border(
                            self.entries@,
                            h,
                        )) by {}
                }
                EventResponse { destroyed, created: Vec::new(), moved, redraws: Vec::new() }
            },
            RegistryAction::FullRefresh => {
                let (destroyed, created) = self.reconcile(live, config, inputs, outcomes);
                let ghost mid = self.entries@;
                let redraws = self.refresh_all(live, config, inputs, outcomes);
                proof {
                    assert forall|k: int|
                        0 <= k < redraws@.len() implies #[trigger] redraws@[k] == ({
                        let h = self.entries@[k].handle;
                        (
                            h,
                            spec_refresh_draw(
                                spec_reconcile_at(
                                    spec_find_entry(es, h),
                                    live@,
                                    rules,
                                    *inputs,
                                    outcomes@,
                                    h,
                                )->Some_0,
                                live@,
                                rules,
                                *inputs,
                                outcomes@,
                            ),
                        )
                    }) by {
                        assert(self.entries@[k] == spec_refresh_entry(
                            mid[k],
                            live@,
                            rules,
                            *inputs,
                            outcomes@,
                        ));
                        assert(self.entries@[k].handle == mid[k].handle);
                        lemma_find_by_unique(mid, entry_key(), mid[k].handle, k);
                        assert(spec_find_entry(mid, mid[k].handle) == Some(mid[k]));
                        assert(spec_find_entry(mid, mid[k].handle) == spec_reconcile_at(
                            spec_find_entry(es, mid[k].handle),
                            live@,
                            rules,
                            *inputs,
                            outcomes@,
                            mid[k].handle,
                        ));
                        assert(redraws@[k] == (
                            mid[k].handle,
                            spec_refresh_draw(mid[k], live@, rules, *inputs, outcomes@),
                        ));
                    }
                    assert forall|h: WindowHandle| #[trigger]
                        destroyed@.contains(h) <==> (spec_has_border(es, h) && !spec_has_border(
                            self.entries@,
                            h,
                        )) by {}
                    assert forall|h: WindowHandle| #[trigger]
                        created@.contains(h) <==> (!spec_has_border(es, h) && spec_has_border(
                            self.entries@,
                            h,
                        )) by {}
                }
                EventResponse { destroyed, created, moved: None, redraws }
            },
        }
    }

    /// Tear down every border entity and forget every entry. Returns the
    /// handles whose overlays the adapter must destroy (each entity's
    /// own teardown ordering still applies; order among entities is
    /// unconstrained).
    pub fn terminate(&mut self) -> (destroyed: Vec<WindowHandle>)
        requires
            old(self).wf(),
        ensures
            final(self).wf(),
            final(self).entries@.len() == 0,
            forall|h: WindowHandle| #[trigger]
                destroyed@.contains(h) <==> spec_has_border(old(self).entries@, h),
    {
        let ghost es = old(self).entries@;
        let mut destroyed: Vec<WindowHandle> = Vec::new();
        let n = self.entries.len();
        let mut i: usize = 0;
        while i < n
            invariant
                old(self).wf(),
                self.entries@ == es,
                es == old(self).entries@,
                n == es.len(),
                i <= n,
                forall|j: int|
                    0 <= j < destroyed@.len() ==> spec_has_border(es, #[trigger] destroyed@[j]),
                forall|k: int|
                    0 <= k < i && es[k].border is Some ==> destroyed@.contains(
                        #[trigger] es[k].handle,
                    ),
            decreases n - i,
        {
            let e = self.entries[i];
            if e.border.is_some() {
                let ghost old_d = destroyed@;
                destroyed.push(e.handle);
                proof {
                    lemma_find_by_unique(es, entry_key(), e.handle, i as int);
                    assert forall|j: int|
                        0 <= j < destroyed@.len() implies spec_has_border(
                        es,
                        #[trigger] destroyed@[j],
                    ) by {
                        if j < old_d.len() {
                            assert(destroyed@[j] == old_d[j]);
                        } else {
                            assert(destroyed@[j] == e.handle);
                        }
                    }
                    assert forall|k: int|
                        0 <= k < i + 1 && es[k].border is Some implies destroyed@.contains(
                        #[trigger] es[k].handle,
                    ) by {
                        if k < i {
                            assert(old_d.contains(es[k].handle));
                            let j = choose|j: int| 0 <= j < old_d.len() && old_d[j] == es[k].handle;
                            assert(destroyed@[j] == es[k].handle);
                        } else {
                            assert(destroyed@[destroyed@.len() - 1] == e.handle);
                        }
                    }
                }
            }
            i += 1;
        }
        self.entries = Vec::new();
        proof {
            assert forall|h: WindowHandle| #[trigger]
                destroyed@.contains(h) <==> spec_has_border(es, h) by {
                if destroyed@.contains(h) {
                    let j = choose|j: int| 0 <= j < destroyed@.len() && destroyed@[j] == h;
                    assert(spec_has_border(es, destroyed@[j]));
                } else {
                    if spec_has_border(es, h) {
                        lemma_index_by_props(es, entry_key(), h);
                        let k = spec_index_by(es, entry_key(), h)->Some_0;
                        assert(es[k].border is Some);
                        assert(destroyed@.contains(es[k].handle));
                    }
                }
            }
        }
        destroyed
    }
}

} // verus!
