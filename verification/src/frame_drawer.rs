//! Retained drawing state for one overlay: a render target sized to the
//! overlay, one cached solid-color brush, and the scene last handed to
//! the compositor. The target is rebuilt only when the pixel size's
//! structural hash changes; a redraw fires only when the scene differs or
//! the target was just rebuilt. The GPU itself lives in the platform
//! adapter, which reports each creation attempt's outcome and executes
//! the returned draw commands.

use vstd::prelude::*;
use crate::geometry::{PixelSize, Rect, rect_wf, rect_size, spec_rect_size};

verus! {

/// Structural hash of a render target's pixel size: a fast equality
/// proxy. Width in the high half, height in the low half, so two sizes
/// hash equal exactly when they are equal.
pub open spec fn spec_size_hash(s: PixelSize) -> u64 {
    (s.width as int * 0x100000000 + s.height as int) as u64
}

pub fn size_hash(s: PixelSize) -> (h: u64)
    ensures
        h == spec_size_hash(s),
{
    (s.width as u64) * 0x100000000u64 + (s.height as u64)
}

/// Structural-hash correctness: two pixel sizes hash equal exactly when
/// width and height agree, so a matching hash never hides a size change
/// and a differing pair always forces a rebuild.
pub proof fn lemma_size_hash_injective(a: PixelSize, b: PixelSize)
    ensures
        (spec_size_hash(a) == spec_size_hash(b)) <==> a == b,
{
    if spec_size_hash(a) == spec_size_hash(b) {
        assert(a.width == b.width && a.height == b.height) by (nonlinear_arith)
            requires
                a.width as int * 0x100000000 + a.height as int == b.width as int * 0x100000000
                    + b.height as int,
                a.height < 0x100000000,
                b.height < 0x100000000,
        ;
    }
}

/// Border shape: square corners or rounded ones.
#[derive(Clone, Copy, PartialEq, Eq, Structural, Debug)]
pub enum ShapeKind {
    Square,
    Rounded,
}

/// What the scene-equality check compares: shape kind, exact color and
/// stroke thickness. Geometry is recomputed on every call and is not
/// part of the delta.
#[derive(Clone, Copy, PartialEq, Eq, Structural, Debug)]
pub struct Scene {
    pub kind: ShapeKind,
    pub color: u32,
    pub thickness: u32,
}

/// The scene described by one property update: rounded exactly when the
/// corner radius is positive.
pub open spec fn spec_scene(color: u32, thickness: u32, corner_radius: u32) -> Scene {
    Scene {
        kind: if corner_radius > 0 {
            ShapeKind::Rounded
        } else {
            ShapeKind::Square
        },
        color,
        thickness,
    }
}

/// Everything the platform adapter needs to stroke one frame: clear to
/// transparent, then stroke `rect` with `color` at `thickness`, rounded
/// by `corner_radius` when the kind says so.
#[derive(Clone, Copy, PartialEq, Eq, Structural, Debug)]
pub struct DrawCommand {
    pub rect: Rect,
    pub kind: ShapeKind,
    pub corner_radius: u32,
    pub color: u32,
    pub thickness: u32,
}

/// Outcome of GPU target creation, reported by the adapter: the first
/// attempt's result, and the result of the single retry that is made
/// only when the first attempt failed.
#[derive(Clone, Copy, PartialEq, Eq, Structural, Debug)]
pub struct TargetOutcome {
    pub first_ok: bool,
    pub retry_ok: bool,
}

impl TargetOutcome {
    /// The creation sequence succeeds when either attempt does.
    pub open spec fn ok(self) -> bool {
        self.first_ok || self.retry_ok
    }
}

/// Retained drawing state for one overlay window.
#[derive(Clone, Copy, PartialEq, Eq, Structural, Debug)]
pub struct FrameDrawer {
    /// Pixel size of the live render target, `None` while absent.
    pub target: Option<PixelSize>,
    /// Structural hash of the last successfully built target size.
    pub target_size_hash: u64,
    /// Color of the cached solid brush, `None` while absent. A brush
    /// belongs to its target, so it never outlives one.
    pub brush: Option<u32>,
    /// The scene last rendered, `None` before the first property update.
    pub scene: Option<Scene>,
    /// Cached geometry, recomputed on every property update.
    pub scene_rect: Rect,
    pub corner_radius: u32,
    /// Whether the overlay window is currently shown.
    pub visible: bool,
}

impl FrameDrawer {
    /// No brush without a target, and the cached hash is the live
    /// target's hash.
    pub open spec fn wf(self) -> bool {
        &&& (self.brush is Some ==> self.target is Some)
        &&& match self.target {
            Some(s) => self.target_size_hash == spec_size_hash(s),
            None => true,
        }
    }

    /// State transition of `new`: no drawer without the overlay's
    /// rectangle and a successfully created target.
    pub open spec fn spec_new(client: Option<Rect>, oc: TargetOutcome) -> Option<FrameDrawer> {
        match client {
            None => None,
            Some(r) => if oc.ok() {
                Some(
                    FrameDrawer {
                        target: Some(spec_rect_size(r)),
                        target_size_hash: spec_size_hash(spec_rect_size(r)),
                        brush: None,
                        scene: None,
                        scene_rect: Rect { left: 0, top: 0, right: 0, bottom: 0 },
                        corner_radius: 0,
                        visible: false,
                    },
                )
            } else {
                None
            },
        }
    }

    /// Create the drawing state for one overlay. `client` is the
    /// overlay's rectangle (`None` when that query failed); construction
    /// fails closed on a failed query or a failed target creation.
    pub fn new(client: Option<Rect>, outcome: &TargetOutcome) -> (r: Option<FrameDrawer>)
        requires
            client matches Some(c) ==> rect_wf(c),
        ensures
            r == Self::spec_new(client, *outcome),
            r matches Some(d) ==> d.wf(),
    {
        match client {
            None => None,
            Some(c) => {
                if outcome.first_ok || outcome.retry_ok {
                    let size = rect_size(&c);
                    Some(
                        FrameDrawer {
                            target: Some(size),
                            target_size_hash: size_hash(size),
                            brush: None,
                            scene: None,
                            scene_rect: Rect { left: 0, top: 0, right: 0, bottom: 0 },
                            corner_radius: 0,
                            visible: false,
                        },
                    )
                } else {
                    None
                }
            },
        }
    }

    /// State transition of `ensure_target`: reuse on a matching hash;
    /// otherwise release the old target (and its brush) and install a
    /// new one, or none when both attempts failed.
    pub open spec fn spec_ensure_target(self, size: PixelSize, oc: TargetOutcome) -> (
        FrameDrawer,
        bool,
    ) {
        if self.target is Some && self.target_size_hash == spec_size_hash(size) {
            (self, true)
        } else if oc.ok() {
            (
                FrameDrawer {
                    target: Some(size),
                    target_size_hash: spec_size_hash(size),
                    brush: None,
                    ..self
                },
                true,
            )
        } else {
            (FrameDrawer { target: None, brush: None, ..self }, false)
        }
    }

    /// Make the render target match `size`. A target whose structural
    /// hash already matches is reused untouched; otherwise the old
    /// target is released first, and creation is retried once. On
    /// persistent failure the surface stays absent until a later call
    /// succeeds.
    pub fn ensure_target(&mut self, size: PixelSize, outcome: &TargetOutcome) -> (ok: bool)
        requires
            old(self).wf(),
        ensures
            (*final(self), ok) == old(self).spec_ensure_target(size, *outcome),
            final(self).wf(),
            ok ==> final(self).target == Some(size),
    {
        let h = size_hash(size);
        if self.target.is_some() && self.target_size_hash == h {
            proof {
                lemma_size_hash_injective(old(self).target->Some_0, size);
            }
            return true;
        }
        self.target = None;
        self.brush = None;
        if outcome.first_ok || outcome.retry_ok {
            self.target = Some(size);
            self.target_size_hash = h;
            true
        } else {
            false
        }
    }

    /// State transition of `set_scene`: the new scene is cached, the
    /// geometry refreshed, the brush rebuilt exactly when its color is
    /// missing or stale; the result says whether the scene differed from
    /// the one last rendered.
    pub open spec fn spec_set_scene(
        self,
        rect: Rect,
        color: u32,
        thickness: u32,
        corner_radius: u32,
    ) -> (FrameDrawer, bool) {
        let sc = spec_scene(color, thickness, corner_radius);
        (
            FrameDrawer {
                scene: Some(sc),
                scene_rect: rect,
                corner_radius,
                brush: if self.target is Some {
                    Some(color)
                } else {
                    None
                },
                ..self
            },
            self.scene != Some(sc),
        )
    }

    /// Install a new scene and decide, by value equality on shape kind,
    /// color and thickness, whether a redraw is due.
    pub fn set_scene(&mut self, rect: Rect, color: u32, thickness: u32, corner_radius: u32) -> (changed:
        bool)
        requires
            old(self).wf(),
        ensures
            (*final(self), changed) == old(self).spec_set_scene(rect, color, thickness, corner_radius),
            final(self).wf(),
    {
        let new_scene = Scene {
            kind: if corner_radius > 0 {
                ShapeKind::Rounded
            } else {
                ShapeKind::Square
            },
            color,
            thickness,
        };
        let changed = match self.scene {
            Some(s) => !(s == new_scene),
            None => true,
        };
        self.scene = Some(new_scene);
        self.scene_rect = rect;
        self.corner_radius = corner_radius;
        self.brush = if self.target.is_some() {
            Some(color)
        } else {
            None
        };
        changed
    }

    /// State transition of `set_border_rect`: the composition of
    /// `ensure_target` at the overlay's size and `set_scene`; a redraw
    /// fires when a target exists afterwards and either it was just
    /// rebuilt or the scene differs.
    pub open spec fn spec_set_border_rect(
        self,
        rect: Rect,
        color: u32,
        thickness: u32,
        corner_radius: u32,
        client: Rect,
        oc: TargetOutcome,
    ) -> (FrameDrawer, bool) {
        let size = spec_rect_size(client);
        let same_size = self.target is Some && self.target_size_hash == spec_size_hash(size);
        let (d1, _ok) = self.spec_ensure_target(size, oc);
        let (d2, scene_changed) = d1.spec_set_scene(rect, color, thickness, corner_radius);
        (d2, d2.target is Some && (!same_size || scene_changed))
    }

    /// One property update: size the target to the overlay's client
    /// rectangle, install the scene, and report whether a redraw was
    /// issued. Only a scene delta or a rebuilt target redraws.
    pub fn set_border_rect(
        &mut self,
        rect: Rect,
        color: u32,
        thickness: u32,
        corner_radius: u32,
        client: Rect,
        outcome: &TargetOutcome,
    ) -> (redraw: bool)
        requires
            old(self).wf(),
            rect_wf(client),
        ensures
            (*final(self), redraw) == old(self).spec_set_border_rect(
                rect,
                color,
                thickness,
                corner_radius,
                client,
                *outcome,
            ),
            final(self).wf(),
    {
        let size = rect_size(&client);
        let h = size_hash(size);
        let same_size = self.target.is_some() && self.target_size_hash == h;
        self.ensure_target(size, outcome);
        let scene_changed = self.set_scene(rect, color, thickness, corner_radius);
        self.target.is_some() && (!same_size || scene_changed)
    }

    /// The draw pass this state describes: present only while target,
    /// brush and scene all exist. Begin/end failures in the adapter skip
    /// the frame; nothing here changes, so the next tick retries.
    pub open spec fn spec_render(self) -> Option<DrawCommand> {
        match (self.target, self.brush, self.scene) {
            (Some(_), Some(color), Some(sc)) => Some(
                DrawCommand {
                    rect: self.scene_rect,
                    kind: sc.kind,
                    corner_radius: self.corner_radius,
                    color,
                    thickness: sc.thickness,
                },
            ),
            _ => None,
        }
    }

    /// The draw pass for the current state, if the retained resources
    /// exist.
    pub fn render(&self) -> (cmd: Option<DrawCommand>)
        ensures
            cmd == self.spec_render(),
    {
        match (&self.target, &self.brush, &self.scene) {
            (Some(_), Some(color), Some(sc)) => Some(
                DrawCommand {
                    rect: self.scene_rect,
                    kind: sc.kind,
                    corner_radius: self.corner_radius,
                    color: *color,
                    thickness: sc.thickness,
                },
            ),
            _ => None,
        }
    }

    /// Hide the overlay window.
    pub fn hide_overlay(&mut self)
        ensures
            *final(self) == (FrameDrawer { visible: false, ..*old(self) }),
    {
        self.visible = false;
    }

    /// Show the overlay window, forcing one immediate draw pass
    /// regardless of the delta check, so no blank overlay flashes.
    pub fn show(&mut self) -> (cmd: Option<DrawCommand>)
        ensures
            *final(self) == (FrameDrawer { visible: true, ..*old(self) }),
            cmd == old(self).spec_render(),
    {
        self.visible = true;
        self.render()
    }
}

/// Updating the border scene twice with unchanged inputs redraws at most
/// once in total: the second update finds the same scene and a matching
/// target and is a no-op.
pub proof fn lemma_set_border_rect_idempotent(
    d: FrameDrawer,
    rect: Rect,
    color: u32,
    thickness: u32,
    corner_radius: u32,
    client: Rect,
    oc: TargetOutcome,
)
    requires
        d.wf(),
    ensures
        ({
            let (d1, _r1) = d.spec_set_border_rect(rect, color, thickness, corner_radius, client, oc);
            let (d2, r2) = d1.spec_set_border_rect(rect, color, thickness, corner_radius, client, oc);
            d2 == d1 && !r2
        }),
{
}

} // verus!
