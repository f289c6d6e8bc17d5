//! The editor: control points, their cached refinements, the drag in
//! progress and the playback of refinement levels.
//!
//! The editor does no input or output of its own. Its caller feeds it
//! pointer and key events and the time, and draws the frame it hands back.

use vstd::prelude::*;
use crate::geometry::{copy_points, spec_within, within, Pt, CLICK_RADIUS, HEIGHT, WIDTH};
use crate::levels::{
    cache_levels, closes, is_closed, levels_view, precompute_iterations, MAX_STEPS,
};

verus! {

/// Milliseconds between two steps of the playback.
pub const ANIM_INTERVAL_MS: u64 = 800;

/// A button of the pointer.
#[derive(Clone, Copy, Debug, PartialEq, Eq, Structural)]
pub enum MouseButton {
    Left,
    Middle,
    Right,
    Other,
}

/// A key, as far as the editor tells keys apart.
#[derive(Clone, Copy, Debug, PartialEq, Eq, Structural)]
pub enum Key {
    Escape,
    Return,
    NumpadEnter,
    C,
    Other,
}

/// What the event loop does after a key was handled.
#[derive(Clone, Copy, Debug, PartialEq, Eq, Structural)]
pub enum Flow {
    Continue,
    Quit,
}

/// What the left button does.
#[derive(Clone, Copy, Debug, PartialEq, Eq, Structural)]
pub enum ClickMode {
    /// The left button adds a point; only the right button drags.
    AddOnly,
    /// The left button drags the point under the pointer, and adds a point
    /// where there is none.
    DragOrAdd,
}

/// A pointer position as it arrives, in coordinate steps, possibly outside the
/// canvas.
#[derive(Clone, Copy, Debug, PartialEq, Eq, Structural)]
pub struct MousePos {
    pub x: i64,
    pub y: i64,
}

/// The state of the editor as the contracts see it.
pub struct AppView {
    /// The control points, in the order they were placed.
    pub points: Seq<Pt>,
    /// Index of the control point being dragged.
    pub dragging: Option<usize>,
    /// Where the pointer was last seen.
    pub mouse: MousePos,
    /// Whether the playback runs.
    pub running: bool,
    /// The refinement level on show.
    pub step: usize,
    /// When the playback last moved on, in milliseconds.
    pub last_advance: u64,
    /// What the left button does.
    pub mode: ClickMode,
}

/// `pos` brought into the canvas.
pub open spec fn clamp_to_canvas(pos: MousePos) -> Pt {
    Pt {
        x: if pos.x < 0 {
            0u32
        } else if pos.x > WIDTH {
            WIDTH
        } else {
            pos.x as u32
        },
        y: if pos.y < 0 {
            0u32
        } else if pos.y > HEIGHT {
            HEIGHT
        } else {
            pos.y as u32
        },
    }
}

/// Whether `i` is the lowest index of a point of `points` within `radius` of
/// `p`.
pub open spec fn is_first_near(points: Seq<Pt>, p: Pt, radius: u32, i: int) -> bool {
    &&& 0 <= i < points.len()
    &&& spec_within(points[i], p, radius)
    &&& forall|j: int| 0 <= j < i ==> !spec_within(#[trigger] points[j], p, radius)
}

/// The lowest index of a point of `points` within `radius` of `p`, if there
/// is one. Among several points in reach the one placed first wins, not the
/// nearest.
pub open spec fn first_near(points: Seq<Pt>, p: Pt, radius: u32) -> Option<usize> {
    if exists|i: int| is_first_near(points, p, radius, i) {
        Some((choose|i: int| is_first_near(points, p, radius, i)) as usize)
    } else {
        None
    }
}

/// Time passed from `since` to `now`; none if the clock went back.
pub open spec fn elapsed(now: u64, since: u64) -> int {
    if now >= since {
        now - since
    } else {
        0
    }
}

impl AppView {
    /// The editor before any event: no points, nothing dragged, playback
    /// stopped.
    pub open spec fn init(mode: ClickMode) -> AppView {
        AppView {
            points: Seq::empty(),
            dragging: None,
            mouse: MousePos { x: 0, y: 0 },
            running: false,
            step: 0,
            last_advance: 0,
            mode,
        }
    }

    /// What holds of the editor between any two events: the level on show
    /// is one of the cached levels, and it is the first one while there are
    /// fewer than three control points.
    pub open spec fn inv(self) -> bool {
        &&& self.step <= MAX_STEPS
        &&& self.points.len() < 3 ==> self.step == 0
    }

    /// The refinement levels of the control points.
    pub open spec fn cache(self) -> Seq<Seq<Pt>> {
        cache_levels(self.points, MAX_STEPS as nat, false)
    }

    /// The canvas point under the pointer.
    pub open spec fn pointer(self) -> Pt {
        clamp_to_canvas(self.mouse)
    }

    /// The control point under the pointer.
    pub open spec fn hit(self) -> Option<usize> {
        first_near(self.points, self.pointer(), CLICK_RADIUS)
    }

    /// The editor after the pointer moved to `pos`. A drag takes its point
    /// along; a drag whose point is no longer there ends and moves nothing.
    pub open spec fn mouse_move(self, pos: MousePos) -> AppView {
        match self.dragging {
            Some(i) => if i < self.points.len() {
                AppView {
                    points: self.points.update(i as int, clamp_to_canvas(pos)),
                    mouse: pos,
                    ..self
                }
            } else {
                AppView { dragging: None, mouse: pos, ..self }
            },
            None => AppView { mouse: pos, ..self },
        }
    }

    /// Whether pressing `button` picks up the point under the pointer, where
    /// there is one.
    pub open spec fn drags_with(self, button: MouseButton) -> bool {
        button == MouseButton::Right || (button == MouseButton::Left && self.mode
            == ClickMode::DragOrAdd)
    }

    /// The editor after `button` was pressed. The right button picks up the
    /// point under the pointer, or ends the drag where there is none. The
    /// left button places a new point under the pointer, unless it is set to
    /// drag and a point is there to pick up.
    pub open spec fn mouse_button_down(self, button: MouseButton) -> AppView {
        match button {
            MouseButton::Right => AppView { dragging: self.hit(), ..self },
            MouseButton::Left => if self.mode == ClickMode::DragOrAdd && self.hit() is Some {
                AppView { dragging: self.hit(), ..self }
            } else {
                AppView { points: self.points.push(self.pointer()), ..self }
            },
            _ => self,
        }
    }

    /// The editor after `button` was released: a button that can pick a
    /// point up lets it go.
    pub open spec fn mouse_button_up(self, button: MouseButton) -> AppView {
        if self.drags_with(button) {
            AppView { dragging: None, ..self }
        } else {
            self
        }
    }

    /// The editor after the playback was switched: started from the first
    /// level with a fresh timer, or stopped where it is. Without control
    /// points there is nothing to play and nothing changes.
    pub open spec fn toggled(self, now: u64) -> AppView {
        if self.points.len() == 0 {
            self
        } else if self.running {
            AppView { running: false, ..self }
        } else {
            AppView { running: true, step: 0, last_advance: now, ..self }
        }
    }

    /// The editor after all control points were removed: playback stopped at
    /// the first level, whatever it was doing.
    pub open spec fn cleared(self) -> AppView {
        AppView { points: Seq::empty(), running: false, step: 0, ..self }
    }

    /// The editor after `key` was pressed at time `now`.
    pub open spec fn key_down(self, key: Key, now: u64) -> AppView {
        match key {
            Key::Return | Key::NumpadEnter => self.toggled(now),
            Key::C => self.cleared(),
            _ => self,
        }
    }

    /// The editor as a frame is drawn at time `now`. A playback that runs on
    /// three points or more moves to the next level, round and round, each
    /// time the interval has passed. Otherwise the first level is on show.
    pub open spec fn tick(self, now: u64) -> AppView {
        if self.running && self.points.len() >= 3 {
            if elapsed(now, self.last_advance) >= ANIM_INTERVAL_MS {
                AppView {
                    step: ((self.step + 1) % (MAX_STEPS + 1)) as usize,
                    last_advance: now,
                    ..self
                }
            } else {
                self
            }
        } else {
            AppView { step: 0, ..self }
        }
    }

    /// The faint polyline through the control points, drawn from three
    /// points on.
    pub open spec fn context(self) -> Seq<Pt> {
        if self.points.len() >= 3 {
            self.points
        } else {
            Seq::empty()
        }
    }

    /// The curve on show: the cached level at the current step from three
    /// control points on, the control points themselves below that.
    pub open spec fn shown(self) -> Seq<Pt> {
        if self.points.len() >= 3 {
            self.cache()[self.step as int]
        } else {
            self.points
        }
    }
}

/// What `key` asks of the event loop: `Escape` ends it.
pub open spec fn flow_after(key: Key) -> Flow {
    if key == Key::Escape {
        Flow::Quit
    } else {
        Flow::Continue
    }
}

/// What to draw for one frame. Each polyline is a sequence of points to join
/// by line segments; `closed` says whether to join the last to the first as
/// well.
#[derive(Clone, Debug, PartialEq, Eq)]
pub struct Frame {
    /// The control points, each to be drawn as a marker.
    pub markers: Vec<Pt>,
    /// The faint polyline through the control points.
    pub context: Vec<Pt>,
    /// The highlighted curve.
    pub active: Vec<Pt>,
    /// Whether both polylines are closed.
    pub closed: bool,
    /// Whether the polylines are drawn at all; the markers always are.
    pub lines_visible: bool,
}

/// A line segment from `a` to `b`.
#[derive(Clone, Copy, Debug, PartialEq, Eq, Structural)]
pub struct Segment {
    pub a: Pt,
    pub b: Pt,
}

/// The segments that draw the polyline through `s`: one between each point
/// and the next and, for a closed one, one from the last point back to the
/// first. A single point draws nothing.
pub open spec fn polyline_segments(s: Seq<Pt>, closed: bool) -> Seq<Segment> {
    if s.len() < 2 {
        Seq::empty()
    } else {
        let open = Seq::new((s.len() - 1) as nat, |i: int| Segment { a: s[i], b: s[i + 1] });
        if closed {
            open.push(Segment { a: s[s.len() - 1], b: s[0] })
        } else {
            open
        }
    }
}

/// The segments that draw the polyline through `points`.
pub fn segments(points: &[Pt], closed: bool) -> (out: Vec<Segment>)
    ensures
        out@ == polyline_segments(points@, closed),
{
    let n: usize = points.len();
    let mut out: Vec<Segment> = Vec::new();
    if n < 2 {
        return out;
    }
    let mut i: usize = 0;
    while i < n - 1
        invariant
            n == points@.len(),
            n >= 2,
            i <= n - 1,
            out@.len() == i,
            forall|j: int| 0 <= j < i ==> out@[j] == (Segment { a: points@[j], b: points@[j + 1] }),
        decreases n - i,
    {
        out.push(Segment { a: points[i], b: points[i + 1] });
        i += 1;
    }
    if closed {
        out.push(Segment { a: points[n - 1], b: points[0] });
    }
    assert(out@ =~= polyline_segments(points@, closed));
    out
}

/// The editor.
pub struct App {
    control_points: Vec<Pt>,
    cached_iters: Vec<Vec<Pt>>,
    dragging: Option<usize>,
    last_mouse_pos: MousePos,
    anim_running: bool,
    anim_step: usize,
    last_anim_ms: u64,
    click_mode: ClickMode,
}

impl View for App {
    type V = AppView;

    closed spec fn view(&self) -> AppView {
        AppView {
            points: self.control_points@,
            dragging: self.dragging,
            mouse: self.last_mouse_pos,
            running: self.anim_running,
            step: self.anim_step,
            last_advance: self.last_anim_ms,
            mode: self.click_mode,
        }
    }
}

impl App {
    /// The cache always holds the refinement levels of the control points,
    /// and the level on show is always one of them.
    #[verifier::type_invariant]
    spec fn wf(&self) -> bool {
        &&& self.cached_iters@.len() == MAX_STEPS + 1
        &&& levels_view(self.cached_iters@) == self@.cache()
        &&& self@.inv()
    }

    /// An empty editor in which the left button adds points and the right
    /// button drags them.
    pub fn new() -> (app: App)
        ensures
            app@ == AppView::init(ClickMode::AddOnly),
            app@.inv(),
    {
        App::with_click_mode(ClickMode::AddOnly)
    }

    /// An empty editor with the given behaviour of the left button.
    pub fn with_click_mode(mode: ClickMode) -> (app: App)
        ensures
            app@ == AppView::init(mode),
            app@.inv(),
    {
        let control_points: Vec<Pt> = Vec::new();
        App {
            cached_iters: precompute_iterations(control_points.as_slice(), MAX_STEPS, false),
            control_points,
            dragging: None,
            last_mouse_pos: MousePos { x: 0, y: 0 },
            anim_running: false,
            anim_step: 0,
            last_anim_ms: 0,
            click_mode: mode,
        }
    }

    /// Brings a pointer position into the canvas.
    pub fn mouse_pos_to_pt(pos: MousePos) -> (p: Pt)
        ensures
            p == clamp_to_canvas(pos),
    {
        let x: u32 = if pos.x < 0 {
            0
        } else if pos.x > WIDTH as i64 {
            WIDTH
        } else {
            pos.x as u32
        };
        let y: u32 = if pos.y < 0 {
            0
        } else if pos.y > HEIGHT as i64 {
            HEIGHT
        } else {
            pos.y as u32
        };
        Pt { x, y }
    }

    /// The first control point within `radius` of `pt`.
    pub fn find_point_index_near(&self, pt: Pt, radius: u32) -> (found: Option<usize>)
        ensures
            found == first_near(self@.points, pt, radius),
    {
        let n: usize = self.control_points.len();
        let mut i: usize = 0;
        while i < n
            invariant
                n == self.control_points@.len(),
                i <= n,
                forall|j: int| 0 <= j < i ==> !spec_within(#[trigger] self.control_points@[j], pt, radius),
            decreases n - i,
        {
            if within(self.control_points[i], pt, radius) {
                proof {
                    lemma_first_near_is(self.control_points@, pt, radius, i as int);
                }
                return Some(i);
            }
            i += 1;
        }
        proof {
            lemma_first_near_none(self.control_points@, pt, radius);
        }
        None
    }

    /// Places `p` after the last control point.
    pub fn append(&mut self, p: Pt)
        ensures
            final(self)@ == (AppView { points: old(self)@.points.push(p), ..old(self)@ }),
            final(self)@.inv(),
    {
        proof {
            use_type_invariant(&*self);
        }
        let mut points: Vec<Pt> = copy_points(self.control_points.as_slice());
        points.push(p);
        self.recompute_cache(points);
    }

    /// Moves the control point at `index` to `p`.
    pub fn replace_at(&mut self, index: usize, p: Pt)
        requires
            index < old(self)@.points.len(),
        ensures
            final(self)@ == (AppView {
                points: old(self)@.points.update(index as int, p),
                ..old(self)@
            }),
            final(self)@.inv(),
    {
        proof {
            use_type_invariant(&*self);
        }
        let mut points: Vec<Pt> = copy_points(self.control_points.as_slice());
        points[index] = p;
        self.recompute_cache(points);
    }

    /// Removes all control points and stops the playback at the first
    /// level.
    pub fn clear(&mut self)
        ensures
            final(self)@ == old(self)@.cleared(),
            final(self)@.inv(),
    {
        proof {
            use_type_invariant(&*self);
        }
        self.anim_running = false;
        self.anim_step = 0;
        self.recompute_cache(Vec::new());
    }

    /// The pointer moved to `position`.
    pub fn on_mouse_move(&mut self, position: MousePos)
        ensures
            final(self)@ == old(self)@.mouse_move(position),
            final(self)@.inv(),
    {
        proof {
            use_type_invariant(&*self);
        }
        self.last_mouse_pos = position;
        match self.dragging {
            Some(idx) => {
                if idx < self.control_points.len() {
                    self.replace_at(idx, Self::mouse_pos_to_pt(position));
                } else {
                    self.dragging = None;
                }
            },
            None => {},
        }
    }

    /// `button` was pressed where the pointer was last seen.
    pub fn on_mouse_button_down(&mut self, button: MouseButton)
        ensures
            final(self)@ == old(self)@.mouse_button_down(button),
            final(self)@.inv(),
    {
        proof {
            use_type_invariant(&*self);
        }
        let pt: Pt = Self::mouse_pos_to_pt(self.last_mouse_pos);
        match button {
            MouseButton::Right => {
                self.dragging = self.find_point_index_near(pt, CLICK_RADIUS);
            },
            MouseButton::Left => {
                let hit: Option<usize> = match self.click_mode {
                    ClickMode::DragOrAdd => self.find_point_index_near(pt, CLICK_RADIUS),
                    ClickMode::AddOnly => None,
                };
                match hit {
                    Some(idx) => {
                        self.dragging = Some(idx);
                    },
                    None => {
                        self.append(pt);
                    },
                }
            },
            _ => {},
        }
    }

    /// `button` was released.
    pub fn on_mouse_button_up(&mut self, button: MouseButton)
        ensures
            final(self)@ == old(self)@.mouse_button_up(button),
            final(self)@.inv(),
    {
        proof {
            use_type_invariant(&*self);
        }
        let drags: bool = match button {
            MouseButton::Right => true,
            MouseButton::Left => match self.click_mode {
                ClickMode::DragOrAdd => true,
                ClickMode::AddOnly => false,
            },
            _ => false,
        };
        if drags {
            self.dragging = None;
        }
    }

    /// `key` was pressed at time `now`, in milliseconds. `Return` and
    /// `NumpadEnter` start or stop the playback, `C` removes all control
    /// points, `Escape` asks the event loop to end.
    pub fn on_key_down(&mut self, key: Key, now: u64) -> (flow: Flow)
        ensures
            final(self)@ == old(self)@.key_down(key, now),
            final(self)@.inv(),
            flow == flow_after(key),
    {
        proof {
            use_type_invariant(&*self);
        }
        match key {
            Key::Escape => {
                return Flow::Quit;
            },
            Key::Return | Key::NumpadEnter => {
                if self.control_points.len() > 0 {
                    self.anim_running = !self.anim_running;
                    if self.anim_running {
                        self.anim_step = 0;
                        self.last_anim_ms = now;
                    }
                }
            },
            Key::C => {
                self.clear();
            },
            Key::Other => {},
        }
        Flow::Continue
    }

    /// A frame is drawn at time `now`, in milliseconds: moves the playback
    /// on where it is due and says what to draw.
    pub fn on_draw(&mut self, now: u64) -> (frame: Frame)
        ensures
            final(self)@ == old(self)@.tick(now),
            final(self)@.inv(),
            frame.markers@ == final(self)@.points,
            frame.context@ == final(self)@.context(),
            frame.active@ == final(self)@.shown(),
            frame.closed == closes(final(self)@.points),
            frame.lines_visible == final(self)@.running,
    {
        proof {
            use_type_invariant(&*self);
        }
        let n: usize = self.control_points.len();
        if self.anim_running && n >= 3 {
            let due: bool = now >= self.last_anim_ms && now - self.last_anim_ms >= ANIM_INTERVAL_MS;
            if due {
                self.last_anim_ms = now;
                self.anim_step = (self.anim_step + 1) % (MAX_STEPS + 1);
            }
        } else {
            self.anim_step = 0;
        }
        let markers: Vec<Pt> = copy_points(self.control_points.as_slice());
        let context: Vec<Pt> = if n >= 3 {
            copy_points(self.control_points.as_slice())
        } else {
            Vec::new()
        };
        let active: Vec<Pt> = if n >= 3 {
            assert(self.cached_iters@[self.anim_step as int]@ == levels_view(
                self.cached_iters@,
            )[self.anim_step as int]);
            copy_points(self.cached_iters[self.anim_step].as_slice())
        } else {
            copy_points(self.control_points.as_slice())
        };
        Frame {
            markers,
            context,
            active,
            closed: is_closed(self.control_points.as_slice()),
            lines_visible: self.anim_running,
        }
    }

    /// The control points, in the order they were placed.
    pub fn control_points(&self) -> (points: &[Pt])
        ensures
            points@ == self@.points,
    {
        self.control_points.as_slice()
    }

    /// The cached refinement levels of the control points, level 0 first.
    pub fn cached_iters(&self) -> (levels: &Vec<Vec<Pt>>)
        ensures
            levels@.len() == MAX_STEPS + 1,
            levels_view(levels@) == self@.cache(),
    {
        proof {
            use_type_invariant(self);
        }
        &self.cached_iters
    }

    /// Index of the control point being dragged.
    pub fn dragging(&self) -> (index: Option<usize>)
        ensures
            index == self@.dragging,
    {
        self.dragging
    }

    /// Whether the playback runs.
    pub fn anim_running(&self) -> (running: bool)
        ensures
            running == self@.running,
    {
        self.anim_running
    }

    /// The refinement level on show.
    pub fn anim_step(&self) -> (step: usize)
        ensures
            step == self@.step,
            step <= MAX_STEPS,
    {
        proof {
            use_type_invariant(self);
        }
        self.anim_step
    }

    /// Takes `points` as the control points and rebuilds the cache from
    /// them, whole. Should the level on show not exist in the rebuilt cache,
    /// the first level is shown.
    fn recompute_cache(&mut self, points: Vec<Pt>)
        requires
            points@.len() < 3 ==> old(self)@.step == 0,
        ensures
            final(self)@ == (AppView { points: points@, ..old(self)@ }),
            final(self)@.inv(),
    {
        proof {
            use_type_invariant(&*self);
        }
        let cached_iters: Vec<Vec<Pt>> = precompute_iterations(points.as_slice(), MAX_STEPS, false);
        let anim_step: usize = if self.anim_step >= cached_iters.len() {
            0
        } else {
            self.anim_step
        };
        *self = App {
            control_points: points,
            cached_iters,
            dragging: self.dragging,
            last_mouse_pos: self.last_mouse_pos,
            anim_running: self.anim_running,
            anim_step,
            last_anim_ms: self.last_anim_ms,
            click_mode: self.click_mode,
        };
    }
}

/// The level on show is one of the cached levels at the start and stays one
/// whatever event comes.
pub proof fn lemma_events_keep_inv(
    s: AppView,
    mode: ClickMode,
    pos: MousePos,
    button: MouseButton,
    key: Key,
    now: u64,
)
    requires
        s.inv(),
    ensures
        AppView::init(mode).inv(),
        s.mouse_move(pos).inv(),
        s.mouse_button_down(button).inv(),
        s.mouse_button_up(button).inv(),
        s.key_down(key, now).inv(),
        s.tick(now).inv(),
{
}

/// A drag does not outlive a clear. Whatever was being dragged, once the
/// control points have been cleared the next pointer move changes no point
/// and leaves nothing dragged.
pub proof fn lemma_drag_ends_after_clear(s: AppView, now: u64, pos: MousePos)
    ensures
        s.key_down(Key::C, now).mouse_move(pos).points == s.key_down(Key::C, now).points,
        s.key_down(Key::C, now).mouse_move(pos).points.len() == 0,
        s.key_down(Key::C, now).mouse_move(pos).dragging is None,
{
}

/// A pointer move under a drag whose point is no longer there changes no
/// point and ends the drag.
pub proof fn lemma_stale_drag_ends(s: AppView, pos: MousePos)
    requires
        s.dragging matches Some(i) && i >= s.points.len(),
    ensures
        s.mouse_move(pos).points == s.points,
        s.mouse_move(pos).dragging is None,
{
}

/// Drawing a frame shows the first level whenever the playback is stopped or
/// there are fewer than three control points, and never changes whether the
/// playback runs.
pub proof fn lemma_tick_rests_at_first_level(s: AppView, now: u64)
    ensures
        s.tick(now).running == s.running,
        s.tick(now).points == s.points,
        !s.running || s.points.len() < 3 ==> s.tick(now).step == 0,
{
}

/// Between events the curve on show is always the cached level at the
/// current step: below three control points that is level 0, the control
/// points themselves.
pub proof fn lemma_shown_is_cached_level(s: AppView)
    requires
        s.inv(),
    ensures
        s.shown() == s.cache()[s.step as int],
{
}

/// An index that `is_first_near` is the one `first_near` gives.
pub proof fn lemma_first_near_is(points: Seq<Pt>, p: Pt, radius: u32, i: int)
    requires
        is_first_near(points, p, radius, i),
    ensures
        first_near(points, p, radius) == Some(i as usize),
{
    let c = choose|c: int| is_first_near(points, p, radius, c);
    assert(is_first_near(points, p, radius, c));
    if c < i {
        assert(!spec_within(points[c], p, radius));
    }
    if i < c {
        assert(!spec_within(points[i], p, radius));
    }
}

/// Where no point is within reach, `first_near` gives none.
pub proof fn lemma_first_near_none(points: Seq<Pt>, p: Pt, radius: u32)
    requires
        forall|j: int| 0 <= j < points.len() ==> !spec_within(#[trigger] points[j], p, radius),
    ensures
        first_near(points, p, radius) is None,
{
}

} // verus!
