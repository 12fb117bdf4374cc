//! Borderless-window support: per-window hint contexts, the global
//! window-tracking table, the shared hit-test rules, and the decision
//! logic of both event-loop interceptors.
//!
//! The interceptors themselves live in the platform layer (a swapped
//! window procedure, a wrapped event fetch); they translate each raw
//! event into a `WindowEvent` or `WindowMessage`, call the decision
//! functions here, and perform the returned action.  For a window with
//! no registered context the platform layer chains straight to the
//! previous handler, so untracked windows behave exactly as before.

use vstd::prelude::*;
use vstd::pervasive::VecAdditionalExecFns;

verus! {

/// Hit-test answer: plain client area.
pub const HTCLIENT: u32 = 1;

/// Hit-test answer: draggable caption.
pub const HTCAPTION: u32 = 2;

/// Hit-test answer: left resize edge.
pub const HTLEFT: u32 = 10;

/// Hit-test answer: right resize edge.
pub const HTRIGHT: u32 = 11;

/// Hit-test answer: top resize edge.
pub const HTTOP: u32 = 12;

/// Hit-test answer: top-left resize corner.
pub const HTTOPLEFT: u32 = 13;

/// Hit-test answer: top-right resize corner.
pub const HTTOPRIGHT: u32 = 14;

/// Hit-test answer: bottom resize edge.
pub const HTBOTTOM: u32 = 15;

/// Hit-test answer: bottom-left resize corner.
pub const HTBOTTOMLEFT: u32 = 16;

/// Hit-test answer: bottom-right resize corner.
pub const HTBOTTOMRIGHT: u32 = 17;

/// Slot of the edge-inset thickness in a context's frame sizes.
pub const FRAME_EDGE_INSETS: usize = 0;

/// Slot of the title-bar height in a context's frame sizes.
pub const FRAME_TITLE_BAR: usize = 1;

/// An axis-aligned rectangle in window or screen coordinates.
#[derive(Clone, Copy, Debug, PartialEq, Eq, Structural)]
pub struct Rectangle {
    pub left: i32,
    pub top: i32,
    pub right: i32,
    pub bottom: i32,
}

impl Rectangle {
    /// Whether the point lies strictly inside (all four edges excluded).
    pub open spec fn contains_strict(self, x: int, y: int) -> bool {
        self.left < x < self.right && self.top < y < self.bottom
    }


    /// The all-zero rectangle, which contains no point.
    pub fn zero() -> (r: Self)
        ensures
            r == (Rectangle { left: 0, top: 0, right: 0, bottom: 0 }),
    {
        Rectangle { left: 0, top: 0, right: 0, bottom: 0 }
    }
}

/// Functional regions a pointer position can fall in.
#[derive(Clone, Copy, Debug, PartialEq, Eq, Structural)]
pub enum HitRegion {
    Client,
    Caption,
    Left,
    Right,
    Top,
    Bottom,
    TopLeft,
    TopRight,
    BottomLeft,
    BottomRight,
}

/// The shared hit-test rules, on window-local coordinates: a point in
/// any excluded control rectangle is plain client area; otherwise a
/// point within `edge` of a side is that side's resize region, corners
/// taking priority; otherwise a point above the title-bar height is the
/// draggable caption; otherwise plain client area.
pub open spec fn spec_hit_region(
    x: int,
    y: int,
    width: int,
    height: int,
    edge: int,
    title_bar: int,
    controls: Seq<Rectangle>,
) -> HitRegion {
    if exists|i: int| 0 <= i < controls.len() && (#[trigger] controls[i]).contains_strict(x, y) {
        HitRegion::Client
    } else {
        let in_left = x < edge;
        let in_top = y < edge;
        let in_right = x > width - edge;
        let in_bottom = y > height - edge;
        if in_top && in_left {
            HitRegion::TopLeft
        } else if in_top && in_right {
            HitRegion::TopRight
        } else if in_top {
            HitRegion::Top
        } else if in_bottom && in_left {
            HitRegion::BottomLeft
        } else if in_bottom && in_right {
            HitRegion::BottomRight
        } else if in_bottom {
            HitRegion::Bottom
        } else if in_left {
            HitRegion::Left
        } else if in_right {
            HitRegion::Right
        } else if y < title_bar {
            HitRegion::Caption
        } else {
            HitRegion::Client
        }
    }
}

/// The platform code for a region.
pub open spec fn spec_hit_code(r: HitRegion) -> u32 {
    match r {
        HitRegion::Client => HTCLIENT,
        HitRegion::Caption => HTCAPTION,
        HitRegion::Left => HTLEFT,
        HitRegion::Right => HTRIGHT,
        HitRegion::Top => HTTOP,
        HitRegion::Bottom => HTBOTTOM,
        HitRegion::TopLeft => HTTOPLEFT,
        HitRegion::TopRight => HTTOPRIGHT,
        HitRegion::BottomLeft => HTBOTTOMLEFT,
        HitRegion::BottomRight => HTBOTTOMRIGHT,
    }
}

/// Hit-test laws: a point in an excluded control rectangle is client
/// area no matter how close to an edge; a point within the inset of two
/// adjacent sides is the corresponding corner; a point clear of all
/// excluded rectangles and all edges but above the title-bar height is
/// the caption.
pub proof fn lemma_hit_region_laws(
    x: int,
    y: int,
    width: int,
    height: int,
    edge: int,
    title_bar: int,
    controls: Seq<Rectangle>,
)
    ensures
        (exists|i: int| 0 <= i < controls.len() && (#[trigger] controls[i]).contains_strict(x, y))
            ==> spec_hit_region(x, y, width, height, edge, title_bar, controls)
            == HitRegion::Client,
        (forall|i: int|
            0 <= i < controls.len() ==> !(#[trigger] controls[i]).contains_strict(x, y)) ==> {
            &&& (x < edge && y < edge) ==> spec_hit_region(
                x,
                y,
                width,
                height,
                edge,
                title_bar,
                controls,
            ) == HitRegion::TopLeft
            &&& (x > width - edge && !(x < edge) && y < edge) ==> spec_hit_region(
                x,
                y,
                width,
                height,
                edge,
                title_bar,
                controls,
            ) == HitRegion::TopRight
            &&& (x < edge && y > height - edge && !(y < edge)) ==> spec_hit_region(
                x,
                y,
                width,
                height,
                edge,
                title_bar,
                controls,
            ) == HitRegion::BottomLeft
            &&& (x > width - edge && !(x < edge) && y > height - edge && !(y < edge))
                ==> spec_hit_region(
                x,
                y,
                width,
                height,
                edge,
                title_bar,
                controls,
            ) == HitRegion::BottomRight
            &&& (edge <= x <= width - edge && edge <= y <= height - edge && y < title_bar)
                ==> spec_hit_region(x, y, width, height, edge, title_bar, controls)
                == HitRegion::Caption
        },
{
    if forall|i: int| 0 <= i < controls.len() ==> !(#[trigger] controls[i]).contains_strict(x, y) {
        assert(!(exists|i: int|
            0 <= i < controls.len() && (#[trigger] controls[i]).contains_strict(x, y)));
    }
}

/// Per-window hint state: the root window it belongs to, the window's
/// current screen bounds, the excluded control rectangles, and the two
/// frame sizes (edge inset, title-bar height).
#[derive(Clone, Copy)]
pub struct Context {
    root: u64,
    position: Rectangle,
    control_positions: [Rectangle; 2],
    frame_sizes: [u32; 2],
}

impl Context {
    /// The root window this context serves.
    pub closed spec fn root_spec(&self) -> u64 {
        self.root
    }

    /// The window's current screen bounds.
    pub closed spec fn position_spec(&self) -> Rectangle {
        self.position
    }

    /// The excluded control rectangles.
    pub closed spec fn controls_spec(&self) -> Seq<Rectangle> {
        self.control_positions@
    }

    /// The frame sizes: edge inset and title-bar height.
    pub closed spec fn frame_sizes_spec(&self) -> Seq<u32> {
        self.frame_sizes@
    }

    /// The root window id.
    pub fn root(&self) -> (r: u64)
        ensures
            r == self.root_spec(),
    {
        self.root
    }

    /// The left edge of the cached bounds.
    pub fn position_left(&self) -> (r: i32)
        ensures
            r == self.position_spec().left,
    {
        self.position.left
    }

    /// The top edge of the cached bounds.
    pub fn position_top(&self) -> (r: i32)
        ensures
            r == self.position_spec().top,
    {
        self.position.top
    }

    /// A fresh context for `root` with the given bounds, no excluded
    /// rectangles and zero frame sizes.
    pub fn new(root: u64, position: Rectangle) -> (c: Self)
        ensures
            c.root_spec() == root,
            c.position_spec() == position,
            c.controls_spec() =~= seq![
                Rectangle { left: 0, top: 0, right: 0, bottom: 0 },
                Rectangle { left: 0, top: 0, right: 0, bottom: 0 },
            ],
            c.frame_sizes_spec() =~= seq![0u32, 0u32],
    {
        Context {
            root,
            position,
            control_positions: [Rectangle::zero(), Rectangle::zero()],
            frame_sizes: [0, 0],
        }
    }

    /// Sets one excluded control rectangle.
    pub fn set_control_position(&mut self, idx: usize, left: i32, top: i32, right: i32, bottom: i32)
        requires
            idx < 2,
        ensures
            final(self).controls_spec() == old(self).controls_spec().update(
                idx as int,
                Rectangle { left, top, right, bottom },
            ),
            final(self).root_spec() == old(self).root_spec(),
            final(self).position_spec() == old(self).position_spec(),
            final(self).frame_sizes_spec() == old(self).frame_sizes_spec(),
    {
        let r = Rectangle { left, top, right, bottom };
        if idx == 0 {
            self.control_positions = [r, self.control_positions[1]];
        } else {
            self.control_positions = [self.control_positions[0], r];
        }
        proof {
            assert(self.control_positions@ =~= old(self).control_positions@.update(idx as int, r));
        }
    }

    /// Sets one frame size (edge inset or title-bar height).
    pub fn set_frame_size(&mut self, idx: usize, size: u32)
        requires
            idx < 2,
        ensures
            final(self).frame_sizes_spec() == old(self).frame_sizes_spec().update(
                idx as int,
                size,
            ),
            final(self).root_spec() == old(self).root_spec(),
            final(self).position_spec() == old(self).position_spec(),
            final(self).controls_spec() == old(self).controls_spec(),
    {
        if idx == 0 {
            self.frame_sizes = [size, self.frame_sizes[1]];
        } else {
            self.frame_sizes = [self.frame_sizes[0], size];
        }
        proof {
            assert(self.frame_sizes@ =~= old(self).frame_sizes@.update(idx as int, size));
        }
    }

    /// Updates the cached bounds after a size change, keeping the
    /// origin (window-local coordinate windows report sizes only).
    pub fn resize(&mut self, width: u32, height: u32)
        requires
            width <= i32::MAX,
            height <= i32::MAX,
            old(self).position_spec().left + width <= i32::MAX,
            old(self).position_spec().top + height <= i32::MAX,
        ensures
            final(self).position_spec() == (Rectangle {
                left: old(self).position_spec().left,
                top: old(self).position_spec().top,
                right: (old(self).position_spec().left + width) as i32,
                bottom: (old(self).position_spec().top + height) as i32,
            }),
            final(self).root_spec() == old(self).root_spec(),
            final(self).controls_spec() == old(self).controls_spec(),
            final(self).frame_sizes_spec() == old(self).frame_sizes_spec(),
    {
        self.position = Rectangle {
            left: self.position.left,
            top: self.position.top,
            right: self.position.left + width as i32,
            bottom: self.position.top + height as i32,
        };
    }

    /// Replaces the cached screen bounds.
    pub fn set_position(&mut self, position: Rectangle)
        ensures
            final(self).position_spec() == position,
            final(self).root_spec() == old(self).root_spec(),
            final(self).controls_spec() == old(self).controls_spec(),
            final(self).frame_sizes_spec() == old(self).frame_sizes_spec(),
    {
        self.position = position;
    }

    /// Classifies a window-local point under the shared hit-test
    /// rules.  Both interceptors' answers are this one classification:
    /// the window procedure maps it to the platform's region code, the
    /// event fetch asks whether it is the caption.
    pub fn hit_region_local(&self, x: i64, y: i64) -> (r: HitRegion)
        ensures
            r == spec_hit_region(
                x as int,
                y as int,
                self.position_spec().right - self.position_spec().left,
                self.position_spec().bottom - self.position_spec().top,
                self.frame_sizes_spec()[FRAME_EDGE_INSETS as int] as int,
                self.frame_sizes_spec()[FRAME_TITLE_BAR as int] as int,
                self.controls_spec(),
            ),
    {
        let mut i: usize = 0;
        while i < 2
            invariant
                i <= 2,
                forall|j: int|
                    0 <= j < i ==> !(#[trigger] self.controls_spec()[j]).contains_strict(
                        x as int,
                        y as int,
                    ),
            decreases 2 - i,
        {
            let rect = self.control_positions[i];
            if (rect.left as i64) < x && x < rect.right as i64 && (rect.top as i64) < y && y
                < rect.bottom as i64 {
                proof {
                    assert(self.controls_spec()[i as int].contains_strict(x as int, y as int));
                }
                return HitRegion::Client;
            }
            i = i + 1;
        }

        proof {
            assert(!(exists|i: int|
                0 <= i < self.controls_spec().len() && (
                #[trigger] self.controls_spec()[i]).contains_strict(x as int, y as int)));
        }
        let width = self.position.right as i64 - self.position.left as i64;
        let height = self.position.bottom as i64 - self.position.top as i64;
        let edge_inset = self.frame_sizes[0] as i64;

        let in_left = x < edge_inset;
        let in_top = y < edge_inset;
        let in_right = x > width - edge_inset;
        let in_bottom = y > height - edge_inset;

        if in_top && in_left {
            HitRegion::TopLeft
        } else if in_top && in_right {
            HitRegion::TopRight
        } else if in_top {
            HitRegion::Top
        } else if in_bottom && in_left {
            HitRegion::BottomLeft
        } else if in_bottom && in_right {
            HitRegion::BottomRight
        } else if in_bottom {
            HitRegion::Bottom
        } else if in_left {
            HitRegion::Left
        } else if in_right {
            HitRegion::Right
        } else if y < self.frame_sizes[1] as i64 {
            HitRegion::Caption
        } else {
            HitRegion::Client
        }
    }

    /// The caption test used by the event-fetch interceptor: the
    /// window-local point classifies as the caption under the shared
    /// hit-test rules — the same rules the window procedure answers, so
    /// the caption region agrees across platforms.
    pub fn is_match_title_bar(&self, x: i32, y: i32) -> (r: bool)
        ensures
            r == title_bar_hit(*self, x as int, y as int),
    {
        let region = self.hit_region_local(x as i64, y as i64);
        region == HitRegion::Caption
    }

    /// The window-procedure hit test: translates screen coordinates to
    /// window-local ones against the cached bounds, classifies them
    /// under the shared hit-test rules, and answers the platform's
    /// region code.
    pub fn match_client_area(&self, global_x: i32, global_y: i32) -> (r: u32)
        ensures
            r == spec_hit_code(
                spec_hit_region(
                    global_x - self.position_spec().left,
                    global_y - self.position_spec().top,
                    self.position_spec().right - self.position_spec().left,
                    self.position_spec().bottom - self.position_spec().top,
                    self.frame_sizes_spec()[FRAME_EDGE_INSETS as int] as int,
                    self.frame_sizes_spec()[FRAME_TITLE_BAR as int] as int,
                    self.controls_spec(),
                ),
            ),
    {
        let x = global_x as i64 - self.position.left as i64;
        let y = global_y as i64 - self.position.top as i64;
        match self.hit_region_local(x, y) {
            HitRegion::Client => HTCLIENT,
            HitRegion::Caption => HTCAPTION,
            HitRegion::Left => HTLEFT,
            HitRegion::Right => HTRIGHT,
            HitRegion::Top => HTTOP,
            HitRegion::Bottom => HTBOTTOM,
            HitRegion::TopLeft => HTTOPLEFT,
            HitRegion::TopRight => HTTOPRIGHT,
            HitRegion::BottomLeft => HTBOTTOMLEFT,
            HitRegion::BottomRight => HTBOTTOMRIGHT,
        }
    }
}

/// Hint-setter interface handed to the caller behind an opaque handle.
/// The two slots are, by convention, slot 0 the edge inset or first
/// control rectangle and slot 1 the title bar or second control
/// rectangle; the type does not enforce the convention.
pub trait WindowHints {
    /// The excluded control rectangles the setters write.
    spec fn hint_controls(&self) -> Seq<Rectangle>;

    /// The frame sizes the setters write.
    spec fn hint_frame_sizes(&self) -> Seq<u32>;

    /// Sets one excluded control rectangle, touching nothing else.
    fn set_control_position(&mut self, idx: usize, left: i32, top: i32, right: i32, bottom: i32)
        requires
            idx < 2,
        ensures
            final(self).hint_controls() == old(self).hint_controls().update(
                idx as int,
                Rectangle { left, top, right, bottom },
            ),
            final(self).hint_frame_sizes() == old(self).hint_frame_sizes(),
    ;

    /// Sets one frame size, touching nothing else.
    fn set_frame_size(&mut self, idx: usize, size: u32)
        requires
            idx < 2,
        ensures
            final(self).hint_frame_sizes() == old(self).hint_frame_sizes().update(
                idx as int,
                size,
            ),
            final(self).hint_controls() == old(self).hint_controls(),
    ;
}

/// The caller-held hint setter over a context value.  Where the
/// context is shared with the tracking table, the setters go through
/// `WindowTable::update_context` instead, so the interceptor sees the
/// change.
pub struct Hints {
    /// The context the setters write to.
    pub context: Context,
}

impl WindowHints for Hints {
    open spec fn hint_controls(&self) -> Seq<Rectangle> {
        self.context.controls_spec()
    }

    open spec fn hint_frame_sizes(&self) -> Seq<u32> {
        self.context.frame_sizes_spec()
    }

    fn set_control_position(&mut self, idx: usize, left: i32, top: i32, right: i32, bottom: i32) {
        self.context.set_control_position(idx, left, top, right, bottom);
    }

    fn set_frame_size(&mut self, idx: usize, size: u32) {
        self.context.set_frame_size(idx, size);
    }
}


/// The event-fetch interceptor's caption test, over a context's state:
/// the window-local point classifies as the caption under the shared
/// hit-test rules — the one hit-test classification serves both
/// platforms, so the caption region agrees across them.
pub open spec fn title_bar_hit(c: Context, x: int, y: int) -> bool {
    spec_hit_region(
        x,
        y,
        c.position_spec().right - c.position_spec().left,
        c.position_spec().bottom - c.position_spec().top,
        c.frame_sizes_spec()[FRAME_EDGE_INSETS as int] as int,
        c.frame_sizes_spec()[FRAME_TITLE_BAR as int] as int,
        c.controls_spec(),
    ) == HitRegion::Caption
}

/// Cross-platform caption agreement: the event-fetch interceptor's
/// caption test answers `true` exactly where the window procedure's
/// hit test answers the caption code, on the same context state and
/// the same window-local point.
pub proof fn lemma_caption_agreement(c: Context, x: int, y: int)
    ensures
        title_bar_hit(c, x, y) <==> spec_hit_code(
            spec_hit_region(
                x,
                y,
                c.position_spec().right - c.position_spec().left,
                c.position_spec().bottom - c.position_spec().top,
                c.frame_sizes_spec()[FRAME_EDGE_INSETS as int] as int,
                c.frame_sizes_spec()[FRAME_TITLE_BAR as int] as int,
                c.controls_spec(),
            ),
        ) == HTCAPTION,
{
}

/// The association described by `s`, later entries taking precedence.
spec fn window_assoc(s: Seq<(u64, usize)>) -> Map<u64, usize>
    decreases s.len(),
{
    if s.len() == 0 {
        Map::empty()
    } else {
        window_assoc(s.drop_last()).insert(s.last().0, s.last().1)
    }
}

/// Pairwise-distinct window ids.
spec fn window_keys_unique(s: Seq<(u64, usize)>) -> bool {
    forall|i: int, j: int| 0 <= i < j < s.len() ==> (#[trigger] s[i]).0 != (#[trigger] s[j]).0
}

proof fn lemma_window_assoc_contains(s: Seq<(u64, usize)>, k: u64)
    ensures
        window_assoc(s).contains_key(k) <==> exists|i: int|
            0 <= i < s.len() && (#[trigger] s[i]).0 == k,
    decreases s.len(),
{
    if s.len() > 0 {
        lemma_window_assoc_contains(s.drop_last(), k);
        if s.last().0 == k {
            assert(s[s.len() - 1].0 == k);
        } else if window_assoc(s).contains_key(k) {
            let i = choose|i: int|
                0 <= i < s.drop_last().len() && (#[trigger] s.drop_last()[i]).0 == k;
            assert(s[i].0 == k);
        } else {
            assert forall|i: int| 0 <= i < s.len() && (#[trigger] s[i]).0 == k implies false by {
                if i < s.len() - 1 {
                    assert(s.drop_last()[i].0 == k);
                }
            }
        }
    }
}

proof fn lemma_window_assoc_get(s: Seq<(u64, usize)>, i: int)
    requires
        window_keys_unique(s),
        0 <= i < s.len(),
    ensures
        window_assoc(s).contains_key(s[i].0),
        window_assoc(s)[s[i].0] == s[i].1,
    decreases s.len(),
{
    lemma_window_assoc_contains(s, s[i].0);
    if i < s.len() - 1 {
        assert(s.drop_last()[i] == s[i]);
        lemma_window_assoc_get(s.drop_last(), i);
        assert(s.last().0 != s[i].0);
    }
}

proof fn lemma_window_assoc_remove(s: Seq<(u64, usize)>, i: int)
    requires
        window_keys_unique(s),
        0 <= i < s.len(),
    ensures
        window_keys_unique(s.remove(i)),
        window_assoc(s.remove(i)) == window_assoc(s).remove(s[i].0),
    decreases s.len(),
{
    lemma_window_assoc_contains(s.drop_last(), s[i].0);
    if i == s.len() - 1 {
        assert(s.remove(i) =~= s.drop_last());
        assert(window_assoc(s.drop_last()) =~= window_assoc(s).remove(s[i].0));
    } else {
        lemma_window_assoc_remove(s.drop_last(), i);
        assert(s.remove(i).drop_last() =~= s.drop_last().remove(i));
        assert(s.remove(i).last() == s.last());
        assert(window_assoc(s.remove(i)) =~= window_assoc(s).remove(s[i].0));
    }
}

/// The global window-tracking table: the hint contexts, shared between
/// the caller's handle and the interceptor, and the map from native
/// window identity to the context serving it (a root window and its
/// registered children share one context).
pub struct WindowTable {
    contexts: Vec<Context>,
    windows: Vec<(u64, usize)>,
}

impl WindowTable {
    /// Window ids are unique and every entry points at a live context.
    pub closed spec fn wf(&self) -> bool {
        &&& window_keys_unique(self.windows@)
        &&& forall|i: int|
            0 <= i < self.windows@.len() ==> (#[trigger] self.windows@[i]).1
                < self.contexts@.len()
    }

    /// How many contexts are registered.
    pub closed spec fn ctx_count(&self) -> nat {
        self.contexts@.len()
    }

    /// The context at a slot.
    pub closed spec fn context_spec(&self, i: int) -> Context {
        self.contexts@[i]
    }

    /// The map from window identity to context slot.
    pub closed spec fn window_map(&self) -> Map<u64, usize> {
        window_assoc(self.windows@)
    }

    /// How many windows are tracked.
    pub closed spec fn tracked_count(&self) -> nat {
        self.windows@.len()
    }

    /// The registered contexts, by slot.
    pub closed spec fn contexts_spec(&self) -> Seq<Context> {
        self.contexts@
    }

    /// How many windows are tracked.
    pub fn tracked_window_count(&self) -> (n: usize)
        ensures
            n == self.tracked_count(),
    {
        self.windows.len()
    }

    /// An empty table.
    pub fn new() -> (t: Self)
        ensures
            t.wf(),
            t.ctx_count() == 0,
            t.window_map() == Map::<u64, usize>::empty(),
            t.tracked_count() == 0,
    {
        WindowTable { contexts: Vec::new(), windows: Vec::new() }
    }

    /// Registers a new hint context and answers its slot.
    pub fn add_context(&mut self, context: Context) -> (i: usize)
        requires
            old(self).wf(),
        ensures
            final(self).wf(),
            i == old(self).ctx_count(),
            final(self).ctx_count() == old(self).ctx_count() + 1,
            final(self).context_spec(i as int) == context,
            forall|j: int|
                0 <= j < old(self).ctx_count() ==> final(self).context_spec(j) == old(
                    self,
                ).context_spec(j),
            final(self).window_map() == old(self).window_map(),
            final(self).tracked_count() == old(self).tracked_count(),
    {
        let i = self.contexts.len();
        self.contexts.push(context);
        i
    }

    /// Reads the context at a slot.
    pub fn get_context(&self, i: usize) -> (c: &Context)
        requires
            self.wf(),
            i < self.ctx_count(),
        ensures
            *c == self.context_spec(i as int),
    {
        &self.contexts[i]
    }

    /// Replaces the context at a slot (hint setters and resize updates
    /// go through here; every window sharing the slot sees the change).
    pub fn update_context(&mut self, i: usize, context: Context)
        requires
            old(self).wf(),
            i < old(self).ctx_count(),
        ensures
            final(self).wf(),
            final(self).ctx_count() == old(self).ctx_count(),
            final(self).context_spec(i as int) == context,
            forall|j: int|
                0 <= j < old(self).ctx_count() && j != i ==> final(self).context_spec(j) == old(
                    self,
                ).context_spec(j),
            final(self).window_map() == old(self).window_map(),
            final(self).tracked_count() == old(self).tracked_count(),
    {
        self.contexts.set(i, context);
    }

    /// Starts tracking `window` under the context at `ctx_idx`; a
    /// window already tracked keeps its existing context.
    pub fn store_window(&mut self, window: u64, ctx_idx: usize)
        requires
            old(self).wf(),
            ctx_idx < old(self).ctx_count(),
        ensures
            final(self).wf(),
            old(self).window_map().contains_key(window) ==> *final(self) == *old(self),
            !old(self).window_map().contains_key(window) ==> final(self).window_map() == old(
                self,
            ).window_map().insert(window, ctx_idx) && final(self).tracked_count() == old(
                self,
            ).tracked_count() + 1,
            final(self).contexts_spec() == old(self).contexts_spec(),
    {
        if self.find_tracking_window(window).is_some() {
            return ;
        }
        proof {
            lemma_window_assoc_contains(self.windows@, window);
        }
        self.windows.push((window, ctx_idx));
        proof {
            assert(self.windows@.drop_last() =~= old(self).windows@);
        }
    }

    /// The context slot tracking `window`, if any.
    pub fn find_tracking_window(&self, window: u64) -> (r: Option<usize>)
        requires
            self.wf(),
        ensures
            match r {
                Some(i) => self.window_map().contains_key(window) && self.window_map()[window] == i
                    && i < self.ctx_count(),
                None => !self.window_map().contains_key(window),
            },
    {
        let mut i: usize = 0;
        while i < self.windows.len()
            invariant
                self.wf(),
                i <= self.windows@.len(),
                forall|j: int| 0 <= j < i ==> (#[trigger] self.windows@[j]).0 != window,
            decreases self.windows@.len() - i,
        {
            if self.windows[i].0 == window {
                proof {
                    lemma_window_assoc_get(self.windows@, i as int);
                }
                return Some(self.windows[i].1);
            }
            i = i + 1;
        }
        proof {
            lemma_window_assoc_contains(self.windows@, window);
        }
        None
    }

    /// Stops tracking `window` (its context slot stays; other windows
    /// may still share it).
    pub fn remove_window(&mut self, window: u64)
        requires
            old(self).wf(),
        ensures
            final(self).wf(),
            final(self).window_map() == old(self).window_map().remove(window),
            final(self).contexts_spec() == old(self).contexts_spec(),
            old(self).window_map().contains_key(window) ==> final(self).tracked_count() == old(
                self,
            ).tracked_count() - 1,
            !old(self).window_map().contains_key(window) ==> final(self).tracked_count() == old(
                self,
            ).tracked_count(),
    {
        let mut i: usize = 0;
        while i < self.windows.len()
            invariant
                self.wf(),
                *self == *old(self),
                i <= self.windows@.len(),
                forall|j: int| 0 <= j < i ==> (#[trigger] self.windows@[j]).0 != window,
            decreases self.windows@.len() - i,
        {
            if self.windows[i].0 == window {
                proof {
                    lemma_window_assoc_remove(self.windows@, i as int);
                    lemma_window_assoc_get(self.windows@, i as int);
                }
                self.windows.remove(i);
                proof {
                    lemma_window_assoc_contains(old(self).windows@, window);
                }
                return ;
            }
            i = i + 1;
        }
        proof {
            lemma_window_assoc_contains(self.windows@, window);
            assert(window_assoc(self.windows@) =~= window_assoc(self.windows@).remove(window));
        }
    }
}


/// One fetched toolkit event, as the event-fetch interceptor sees it.
#[derive(Clone, Copy, Debug, PartialEq, Eq, Structural)]
pub enum WindowEvent {
    /// A window was destroyed.
    Destroy { window: u64 },
    /// A window was resized or moved.
    Configure { window: u64, width: u32, height: u32 },
    /// A pointer button went down.
    ButtonPress { window: u64, button: u32, x: i32, y: i32, x_root: i32, y_root: i32 },
    /// A pointer button came up.
    ButtonRelease { window: u64, button: u32, x: i32, y: i32, x_root: i32, y_root: i32 },
    /// Anything else.
    Other,
}

/// What the event-fetch interceptor must do with a fetched event.
#[derive(Clone, Copy, Debug, PartialEq, Eq, Structural)]
pub enum EventAction {
    /// Hand the event to the toolkit as usual.
    Forward,
    /// Swallow the event and fetch the next one.
    Suppress,
    /// Ask the window manager to start moving the root window, then
    /// swallow the event.
    BeginMoveDrag { root: u64, x_root: i32, y_root: i32 },
    /// Ask the window manager to show the root window's menu, then
    /// swallow the event.
    ShowWindowMenu { root: u64, x_root: i32, y_root: i32 },
}

/// The left pointer button.
pub const BUTTON_PRIMARY: u32 = 1;

/// The right pointer button.
pub const BUTTON_SECONDARY: u32 = 3;

/// The action the interceptor takes for an event, given the context
/// (if any) tracking the event's window: primary presses in the custom
/// caption become a window-manager move request, secondary releases
/// there open the window menu, and their counterparts are swallowed so
/// the toolkit never sees a caption click; everything else, and every
/// event for an untracked window, is forwarded untouched.
pub open spec fn spec_x_event_action(found: Option<Context>, event: WindowEvent) -> EventAction {
    match event {
        WindowEvent::ButtonPress { button, x, y, x_root, y_root, .. } => match found {
            Some(c) => if title_bar_hit(c, x as int, y as int) {
                if button == BUTTON_PRIMARY {
                    EventAction::BeginMoveDrag { root: c.root_spec(), x_root, y_root }
                } else if button == BUTTON_SECONDARY {
                    EventAction::Suppress
                } else {
                    EventAction::Forward
                }
            } else {
                EventAction::Forward
            },
            None => EventAction::Forward,
        },
        WindowEvent::ButtonRelease { button, x, y, x_root, y_root, .. } => match found {
            Some(c) => if title_bar_hit(c, x as int, y as int) {
                if button == BUTTON_PRIMARY {
                    EventAction::Suppress
                } else if button == BUTTON_SECONDARY {
                    EventAction::ShowWindowMenu { root: c.root_spec(), x_root, y_root }
                } else {
                    EventAction::Forward
                }
            } else {
                EventAction::Forward
            },
            None => EventAction::Forward,
        },
        _ => EventAction::Forward,
    }
}

/// Processes one fetched event for the event-fetch interceptor: keeps
/// the tracking table current (windows leave on destruction, cached
/// bounds follow configure events) and decides what to do with the
/// event.  A destroyed window leaves the table; a configure event
/// updates the tracked window's context; button events are classified
/// by `spec_x_event_action` against the state the table had when the
/// event arrived.
#[verifier::loop_isolation(false)]
pub fn delegated_x_event(table: &mut WindowTable, event: &WindowEvent) -> (a: EventAction)
    requires
        old(table).wf(),
    ensures
        final(table).wf(),
        a == spec_x_event_action(
            match *event {
                WindowEvent::Destroy { .. } | WindowEvent::Configure { .. }
                    | WindowEvent::Other => None,
                WindowEvent::ButtonPress { window, .. } | WindowEvent::ButtonRelease {
                    window,
                    ..
                } => if old(table).window_map().contains_key(window) {
                    Some(old(table).context_spec(old(table).window_map()[window] as int))
                } else {
                    None
                },
            },
            *event,
        ),
        match *event {
            WindowEvent::Destroy { window } => final(table).window_map() == old(
                table,
            ).window_map().remove(window) && final(table).contexts_spec() == old(
                table,
            ).contexts_spec(),
            WindowEvent::Configure { window, width, height } => final(table).window_map() == old(
                table,
            ).window_map() && final(table).ctx_count() == old(table).ctx_count() && if old(
                table,
            ).window_map().contains_key(window) && ({
                let c = old(table).context_spec(old(table).window_map()[window] as int);
                width <= i32::MAX && height <= i32::MAX && c.position_spec().left + width
                    <= i32::MAX && c.position_spec().top + height <= i32::MAX
            }) {
                ({
                    let i = old(table).window_map()[window] as int;
                    let c = old(table).context_spec(i);
                    let c2 = final(table).context_spec(i);
                    &&& forall|j: int|
                        0 <= j < old(table).ctx_count() && j != i
                            ==> final(table).context_spec(j) == old(table).context_spec(j)
                    &&& c2.root_spec() == c.root_spec()
                    &&& c2.controls_spec() == c.controls_spec()
                    &&& c2.frame_sizes_spec() == c.frame_sizes_spec()
                    &&& c2.position_spec() == (Rectangle {
                        left: c.position_spec().left,
                        top: c.position_spec().top,
                        right: (c.position_spec().left + width) as i32,
                        bottom: (c.position_spec().top + height) as i32,
                    })
                })
            } else {
                final(table).contexts_spec() == old(table).contexts_spec()
            },
            _ => *final(table) == *old(table),
        },
{
    match event {
        WindowEvent::Destroy { window } => {
            table.remove_window(*window);
            EventAction::Forward
        },
        WindowEvent::Configure { window, width, height } => {
            match table.find_tracking_window(*window) {
                Some(i) => {
                    let c = *table.get_context(i);
                    if *width <= i32::MAX as u32 && *height <= i32::MAX as u32 && c.position_left()
                        <= i32::MAX - *width as i32 && c.position_top() <= i32::MAX
                        - *height as i32 {
                        let mut c2 = c;
                        c2.resize(*width, *height);
                        table.update_context(i, c2);
                    }
                },
                None => {},
            }
            EventAction::Forward
        },
        WindowEvent::ButtonPress { window, button, x, y, x_root, y_root } => {
            match table.find_tracking_window(*window) {
                Some(i) => {
                    let c = table.get_context(i);
                    if c.is_match_title_bar(*x, *y) {
                        if *button == BUTTON_PRIMARY {
                            EventAction::BeginMoveDrag {
                                root: c.root(),
                                x_root: *x_root,
                                y_root: *y_root,
                            }
                        } else if *button == BUTTON_SECONDARY {
                            EventAction::Suppress
                        } else {
                            EventAction::Forward
                        }
                    } else {
                        EventAction::Forward
                    }
                },
                None => EventAction::Forward,
            }
        },
        WindowEvent::ButtonRelease { window, button, x, y, x_root, y_root } => {
            match table.find_tracking_window(*window) {
                Some(i) => {
                    let c = table.get_context(i);
                    if c.is_match_title_bar(*x, *y) {
                        if *button == BUTTON_PRIMARY {
                            EventAction::Suppress
                        } else if *button == BUTTON_SECONDARY {
                            EventAction::ShowWindowMenu {
                                root: c.root(),
                                x_root: *x_root,
                                y_root: *y_root,
                            }
                        } else {
                            EventAction::Forward
                        }
                    } else {
                        EventAction::Forward
                    }
                },
                None => EventAction::Forward,
            }
        },
        WindowEvent::Other => EventAction::Forward,
    }
}

/// One message for a window the procedure interceptor serves, with the
/// platform facts the decision needs carried along (fresh bounds after
/// a size change, maximization state for frame calculation).
#[derive(Clone, Copy, Debug, PartialEq, Eq, Structural)]
pub enum WindowMessage {
    /// Non-client hit test at the given screen coordinates.
    NcHitTest { x: i32, y: i32 },
    /// Non-client size calculation; `client_area_requested` is whether
    /// the message asks for the client rectangle, `padded_border` the
    /// system's padded-border metric for the window's scale.
    NcCalcSize { client_area_requested: bool, maximized: bool, padded_border: i32 },
    /// The window was sized or moved; `bounds` is its fresh screen
    /// rectangle.
    BoundsChanged { bounds: Rectangle },
    /// Right button pressed in the non-client area classified `hit`.
    NcRButtonDown { hit: u32 },
    /// Right button released in the non-client area classified `hit`.
    NcRButtonUp { hit: u32, x: i32, y: i32 },
    /// A command notification with the given word.
    Command { wparam: u64 },
    /// A system command.
    SysCommand,
    /// The window is being destroyed.
    Destroy,
    /// Anything else.
    Other,
}

/// What the window-procedure interceptor must do with a message.
#[derive(Clone, Copy, Debug, PartialEq, Eq, Structural)]
pub enum MessageAction {
    /// Chain to the saved toolkit procedure.
    CallPrevious,
    /// Answer the hit test with this region code.
    ReturnHit { code: u32 },
    /// Answer the hit test as transparent, so the click falls through
    /// to the ancestor window.
    ReturnTransparent,
    /// Claim the frame: add this padding to the client rectangle's top
    /// and answer zero.
    AdjustTopInset { padding: i32 },
    /// Answer zero, suppressing default handling.
    SuppressDefault,
    /// Show the root window's system menu at these screen coordinates,
    /// then answer zero.
    ShowSystemMenu { x: i32, y: i32 },
    /// Re-send the message to the window as a system command.
    ForwardAsSysCommand,
    /// Hand the message to default handling on the root window.
    DefaultOnRoot,
    /// Drop this window's interception state, then chain to the saved
    /// toolkit procedure.
    DetachAndCallPrevious,
}

/// The action the procedure interceptor takes for a message, given the
/// window's context and whether the window is the tracked root: hit
/// tests answer the shared hit-test rules (children answer transparent
/// for non-client regions so clicks reach the root), the root claims
/// its frame when maximized, right clicks on the caption are rerouted
/// to the system menu, command words with system bits are re-sent as
/// system commands, and destruction detaches the interceptor.
pub open spec fn spec_window_message_action(
    c: Context,
    window_is_root: bool,
    m: WindowMessage,
) -> MessageAction {
    match m {
        WindowMessage::NcHitTest { x, y } => {
            let code = spec_hit_code(
                spec_hit_region(
                    x - c.position_spec().left,
                    y - c.position_spec().top,
                    c.position_spec().right - c.position_spec().left,
                    c.position_spec().bottom - c.position_spec().top,
                    c.frame_sizes_spec()[FRAME_EDGE_INSETS as int] as int,
                    c.frame_sizes_spec()[FRAME_TITLE_BAR as int] as int,
                    c.controls_spec(),
                ),
            );
            if window_is_root {
                MessageAction::ReturnHit { code }
            } else if code != HTCLIENT {
                MessageAction::ReturnTransparent
            } else {
                MessageAction::ReturnHit { code: HTCLIENT }
            }
        },
        WindowMessage::NcCalcSize { client_area_requested, maximized, padded_border } => {
            if window_is_root && client_area_requested {
                MessageAction::AdjustTopInset {
                    padding: if maximized {
                        padded_border
                    } else {
                        0
                    },
                }
            } else {
                MessageAction::CallPrevious
            }
        },
        WindowMessage::BoundsChanged { .. } => MessageAction::CallPrevious,
        WindowMessage::NcRButtonDown { hit } => if hit == HTCAPTION {
            MessageAction::SuppressDefault
        } else {
            MessageAction::CallPrevious
        },
        WindowMessage::NcRButtonUp { hit, x, y } => if hit == HTCAPTION {
            MessageAction::ShowSystemMenu { x, y }
        } else {
            MessageAction::CallPrevious
        },
        WindowMessage::Command { wparam } => if wparam & 0xf000 != 0 {
            MessageAction::ForwardAsSysCommand
        } else {
            MessageAction::CallPrevious
        },
        WindowMessage::SysCommand => MessageAction::DefaultOnRoot,
        WindowMessage::Destroy => MessageAction::DetachAndCallPrevious,
        WindowMessage::Other => MessageAction::CallPrevious,
    }
}

/// Processes one message for the window-procedure interceptor: refreshes
/// the root's cached bounds on a size or move, and decides the reply as
/// `spec_window_message_action` of the state the context had when the
/// message arrived.
pub fn delegated_window_message(
    context: &mut Context,
    window_is_root: bool,
    message: &WindowMessage,
) -> (a: MessageAction)
    ensures
        a == spec_window_message_action(*old(context), window_is_root, *message),
        match *message {
            WindowMessage::BoundsChanged { bounds } => if window_is_root {
                &&& final(context).position_spec() == bounds
                &&& final(context).root_spec() == old(context).root_spec()
                &&& final(context).controls_spec() == old(context).controls_spec()
                &&& final(context).frame_sizes_spec() == old(context).frame_sizes_spec()
            } else {
                *final(context) == *old(context)
            },
            _ => *final(context) == *old(context),
        },
{
    match message {
        WindowMessage::NcHitTest { x, y } => {
            let code = context.match_client_area(*x, *y);
            if window_is_root {
                MessageAction::ReturnHit { code }
            } else if code != HTCLIENT {
                MessageAction::ReturnTransparent
            } else {
                MessageAction::ReturnHit { code: HTCLIENT }
            }
        },
        WindowMessage::NcCalcSize { client_area_requested, maximized, padded_border } => {
            if window_is_root && *client_area_requested {
                MessageAction::AdjustTopInset {
                    padding: if *maximized {
                        *padded_border
                    } else {
                        0
                    },
                }
            } else {
                MessageAction::CallPrevious
            }
        },
        WindowMessage::BoundsChanged { bounds } => {
            if window_is_root {
                context.set_position(*bounds);
            }
            MessageAction::CallPrevious
        },
        WindowMessage::NcRButtonDown { hit } => {
            if *hit == HTCAPTION {
                MessageAction::SuppressDefault
            } else {
                MessageAction::CallPrevious
            }
        },
        WindowMessage::NcRButtonUp { hit, x, y } => {
            if *hit == HTCAPTION {
                MessageAction::ShowSystemMenu { x: *x, y: *y }
            } else {
                MessageAction::CallPrevious
            }
        },
        WindowMessage::Command { wparam } => {
            if *wparam & 0xf000 != 0 {
                MessageAction::ForwardAsSysCommand
            } else {
                MessageAction::CallPrevious
            }
        },
        WindowMessage::SysCommand => MessageAction::DefaultOnRoot,
        WindowMessage::Destroy => MessageAction::DetachAndCallPrevious,
        WindowMessage::Other => MessageAction::CallPrevious,
    }
}


/// Processes one message against the tracking table for the
/// window-procedure interceptor: looks the window's shared context up,
/// decides the action as `spec_window_message_action` of that context,
/// keeps the table current (fresh bounds on a size change, removal on
/// destruction), and — for a window with no registered context —
/// changes nothing and chains to the previous procedure, so untracked
/// windows behave exactly as before.
pub fn dispatch_window_message(table: &mut WindowTable, window: u64, message: &WindowMessage) -> (a:
    MessageAction)
    requires
        old(table).wf(),
    ensures
        final(table).wf(),
        !old(table).window_map().contains_key(window) ==> a == MessageAction::CallPrevious
            && *final(table) == *old(table),
        old(table).window_map().contains_key(window) ==> ({
            let i = old(table).window_map()[window] as int;
            let c = old(table).context_spec(i);
            let is_root = c.root_spec() == window;
            &&& a == spec_window_message_action(c, is_root, *message)
            &&& match *message {
                WindowMessage::BoundsChanged { bounds } => final(table).window_map() == old(
                    table,
                ).window_map() && final(table).ctx_count() == old(table).ctx_count() && if is_root {
                    ({
                        let c2 = final(table).context_spec(i);
                        &&& forall|j: int|
                            0 <= j < old(table).ctx_count() && j != i
                                ==> final(table).context_spec(j) == old(table).context_spec(j)
                        &&& c2.position_spec() == bounds
                        &&& c2.root_spec() == c.root_spec()
                        &&& c2.controls_spec() == c.controls_spec()
                        &&& c2.frame_sizes_spec() == c.frame_sizes_spec()
                    })
                } else {
                    final(table).contexts_spec() == old(table).contexts_spec()
                },
                WindowMessage::Destroy => final(table).window_map() == old(
                    table,
                ).window_map().remove(window) && final(table).contexts_spec() == old(
                    table,
                ).contexts_spec(),
                _ => *final(table) == *old(table),
            }
        }),
{
    let slot = match table.find_tracking_window(window) {
        Some(slot) => slot,
        None => {
            return MessageAction::CallPrevious;
        },
    };
    let is_root = table.get_context(slot).root() == window;
    let mut ctx = *table.get_context(slot);
    let action = delegated_window_message(&mut ctx, is_root, message);
    match message {
        WindowMessage::BoundsChanged { .. } => {
            if is_root {
                table.update_context(slot, ctx);
            }
        },
        WindowMessage::Destroy => {
            table.remove_window(window);
        },
        _ => {},
    }
    action
}

} // verus!
