//! The viewport: the drawing context that components draw through.

use crate::overlay::{
    all_lines, draw_debug_messages, is_addressable, overlay_area, overlay_reach, shown_over, texts,
};
use crate::rect::{min_int, Rect, RectSize, ScreenRect};
use crate::screen::{
    addressable, area_of, buffer_area, buffer_cells, cells_with_span, fill_style, no_buffer,
    overlay_style, print_span, same_outside, span_area, styled_cells,
};
use crate::text::lemma_subrange_whole_chars;
use crate::trace::{DrawTrace, TraceView};
use std::collections::HashMap;
use std::fmt::Debug;
use std::hash::Hash;
use tui::buffer::{Buffer, Cell};
use tui::style::Style;
use vstd::prelude::*;
use vstd::std_specs::convert::IntoSpec;
use vstd::string::StrSliceExecFns;
use vstd::utf8::{encode_utf8, is_char_boundary};

verus! {

/// A line of text in one style.
#[derive(Debug)]
pub struct Span {
    pub content: String,
    pub style: Style,
}

/// The state of a viewport, as a value.
#[verifier::reject_recursive_types(Id)]
pub struct ViewportView<Id> {
    /// The part of the virtual canvas that is shown on the screen.
    pub clip: Rect,
    /// The area of the screen that the physical grid covers.
    pub grid: ScreenRect,
    /// The cells of the physical grid, row by row.
    pub cells: Seq<Cell>,
    /// The traces of the components that are being drawn, outermost first.
    pub frames: Seq<TraceView<Id>>,
    /// The debug messages queued so far.
    pub messages: Seq<Seq<char>>,
}

/// Converts a coordinate to `u16`, clamped to the range that a `u16` holds.
pub open spec fn clamp_u16(value: int) -> u16 {
    if value <= 0 {
        0
    } else if value >= u16::MAX {
        u16::MAX
    } else {
        value as u16
    }
}

impl<Id> ViewportView<Id> {
    /// Whether a trace is open, every trace covers the components it has
    /// recorded, and every cell that the clip rectangle shows exists: the
    /// clip rectangle is empty, or it is no larger than the grid, and each
    /// cell of the grid can be addressed.
    pub open spec fn wf(self) -> bool {
        &&& self.frames.len() >= 1
        &&& forall|i: int| 0 <= i < self.frames.len() ==> (#[trigger] self.frames[i]).wf()
        &&& self.clip.is_empty() || {
            &&& addressable(self.grid, self.cells.len())
            &&& self.clip.width <= self.grid.width
            &&& self.clip.height <= self.grid.height
        }
    }

    /// The trace of the component that is drawing now.
    pub open spec fn top(self) -> TraceView<Id> {
        self.frames.last()
    }

    /// The same state with another trace for the component that is drawing
    /// now.
    pub open spec fn with_top(self, top: TraceView<Id>) -> ViewportView<Id> {
        ViewportView { frames: self.frames.update(self.frames.len() - 1, top), ..self }
    }

    /// The part of `rect` that the screen shows.
    pub open spec fn visible(self, rect: Rect) -> Rect {
        self.clip.intersect(rect)
    }

    /// Where on the grid the visible part of `rect` lies: as far right of and
    /// below the grid's first cell as the part lies within the clip
    /// rectangle, every number clamped to what a `u16` holds.
    pub open spec fn physical(self, rect: Rect) -> ScreenRect {
        let shown = self.visible(rect);
        ScreenRect {
            x: clamp_u16(self.grid.x + (shown.x - self.clip.x)),
            y: clamp_u16(self.grid.y + (shown.y - self.clip.y)),
            width: clamp_u16(shown.width as int),
            height: clamp_u16(shown.height as int),
        }
    }

    /// The part of the grid that shows the canvas: as many columns and rows
    /// from the grid's first cell on as the clip rectangle has.
    pub open spec fn window(self) -> ScreenRect {
        self.physical(self.clip)
    }

    /// The state after a style was set for `rect`: each cell of the visible
    /// part has the style, and the whole of `rect` is in the trace.
    pub open spec fn set_style(self, rect: Rect, style: Style) -> ViewportView<Id> {
        ViewportView {
            cells: styled_cells(self.cells, self.grid, self.physical(rect), style),
            ..self
        }.with_top(self.top().with_rect(rect))
    }

    /// The rectangle that a line of `text` takes from `(x, y)` on: one row,
    /// and a column for each character.
    pub open spec fn span_rect(x: isize, y: isize, text: Seq<char>) -> Rect {
        Rect { x, y, width: text.len() as usize, height: 1 }
    }

    /// The characters of a line of `text` at `(x, y)` that the screen shows.
    pub open spec fn visible_text(self, x: isize, y: isize, text: Seq<char>) -> Seq<char> {
        let shown = self.visible(Self::span_rect(x, y, text));
        text.subrange(shown.x - x, shown.x - x + shown.width)
    }

    /// The state after a line of `text` was drawn at `(x, y)`: its visible
    /// characters are printed where the visible part of its rectangle lies,
    /// and the whole rectangle is in the trace.
    pub open spec fn draw_span(self, x: isize, y: isize, text: Seq<char>, style: Style)
        -> ViewportView<Id> {
        let rect = Self::span_rect(x, y, text);
        let at = self.physical(rect);
        ViewportView {
            cells: if self.visible(rect).is_empty() {
                self.cells
            } else {
                cells_with_span(
                    self.cells,
                    self.grid,
                    at.x,
                    at.y,
                    self.visible_text(x, y, text),
                    style,
                    at.width,
                )
            },
            ..self
        }.with_top(self.top().with_rect(rect))
    }

    /// The state after `message` was queued.
    pub open spec fn debug(self, message: Seq<char>) -> ViewportView<Id> {
        ViewportView { messages: self.messages.push(message), ..self }
    }

    /// The state when a component starts to draw: a trace that holds nothing
    /// is the innermost.
    pub open spec fn enter(self) -> ViewportView<Id> {
        ViewportView { frames: self.frames.push(TraceView::<Id>::empty()), ..self }
    }

    /// The state when the component `id` has drawn, with `rect` as its own
    /// rectangle: its trace, the innermost, is closed with `rect` recorded
    /// for `id`, and merged into the trace of the enclosing component, which
    /// is the innermost again.
    pub open spec fn leave(self, id: Id, rect: Rect) -> ViewportView<Id> {
        ViewportView {
            frames: self.frames.drop_last().drop_last().push(
                self.frames[self.frames.len() - 2].merged(self.top().closed(id, rect)),
            ),
            ..self
        }
    }

    /// Where the component has drawn to a rectangle with an area, the state
    /// in which it leaves the viewport is determined: no two rectangles are
    /// both its own.
    pub proof fn lemma_leave_determined(self, id: Id, rect: Rect, other: Rect)
        requires
            rect.is_bounding_of(self.top().members()),
            other.is_bounding_of(self.top().members()),
            !Rect::all_empty(self.top().members()),
        ensures
            rect == other,
            self.leave(id, rect) == self.leave(id, other),
    {
        Rect::lemma_bounding_unique(rect, other, self.top().members());
    }

    /// Whether this state may follow `before` when a component has drawn:
    /// the clip rectangle, the grid's area and size, and the traces of the
    /// enclosing components are as they were, the component's own trace is
    /// still the innermost, and no cell outside the window has changed.
    pub open spec fn drawn_over(self, before: ViewportView<Id>) -> bool {
        &&& self.clip == before.clip
        &&& self.grid == before.grid
        &&& self.frames.len() == before.frames.len()
        &&& self.frames.drop_last() == before.frames.drop_last()
        &&& same_outside(self.cells, before.cells, before.grid, before.window())
    }

    /// The visible part of a rectangle lies within the window.
    pub proof fn lemma_physical_within_window(self, rect: Rect, i: int)
        requires
            self.wf(),
            self.grid.index_in(i, self.physical(rect)),
        ensures
            self.grid.index_in(i, self.window()),
    {
        self.lemma_physical_within_grid(rect);
        self.lemma_physical_within_grid(self.clip);
    }

    /// Where a part of `rect` is visible, its place on the grid is exact, and
    /// lies within the grid.
    pub proof fn lemma_physical_within_grid(self, rect: Rect)
        requires
            self.wf(),
            !self.visible(rect).is_empty(),
        ensures
            self.grid.encloses(self.physical(rect)),
            self.physical(rect).x == self.grid.x + (self.visible(rect).x - self.clip.x),
            self.physical(rect).y == self.grid.y + (self.visible(rect).y - self.clip.y),
            self.physical(rect).width == self.visible(rect).width,
            self.physical(rect).height == self.visible(rect).height,
            !self.physical(rect).is_empty(),
    {
    }

    /// A rectangle that lies outside the clip rectangle changes no cell when
    /// a style is set for it, and is in the trace all the same.
    pub proof fn lemma_set_style_outside_clip(self, rect: Rect, style: Style)
        requires
            self.visible(rect).is_empty(),
        ensures
            self.set_style(rect, style).cells == self.cells,
            self.frames.len() >= 1 ==> self.set_style(rect, style).top().rect
                == self.top().rect.union_bounding(rect),
    {
    }

    /// A line of text that lies outside the clip rectangle changes no cell
    /// when it is drawn, and its rectangle is in the trace all the same.
    pub proof fn lemma_draw_span_outside_clip(
        self,
        x: isize,
        y: isize,
        text: Seq<char>,
        style: Style,
    )
        requires
            self.visible(Self::span_rect(x, y, text)).is_empty(),
        ensures
            self.draw_span(x, y, text, style).cells == self.cells,
            self.frames.len() >= 1 ==> self.draw_span(x, y, text, style).top().rect
                == self.top().rect.union_bounding(Self::span_rect(x, y, text)),
    {
    }

    /// Where part of a line of text is visible, the characters printed are
    /// those that lie in the visible columns, and they are whole characters:
    /// their encoding is the part of the line's encoding between two
    /// boundaries of characters.
    pub proof fn lemma_visible_text_whole_chars(self, x: isize, y: isize, text: Seq<char>)
        requires
            text.len() <= usize::MAX,
            !self.visible(Self::span_rect(x, y, text)).is_empty(),
        ensures
            ({
                let shown = self.visible(Self::span_rect(x, y, text));
                let from = shown.x - x;
                let to = from + shown.width;
                let bytes = encode_utf8(text);
                let start = encode_utf8(text.take(from)).len() as int;
                let end = encode_utf8(text.take(to)).len() as int;
                &&& 0 <= from < to <= text.len()
                &&& self.visible_text(x, y, text) == text.subrange(from, to)
                &&& self.visible_text(x, y, text).len() == shown.width
                &&& is_char_boundary(bytes, start)
                &&& is_char_boundary(bytes, end)
                &&& encode_utf8(self.visible_text(x, y, text)) == bytes.subrange(
                    start,
                    end,
                )
            }),
    {
        let shown = self.visible(Self::span_rect(x, y, text));
        lemma_subrange_whole_chars(text, shown.x - x, shown.x - x + shown.width);
    }

    /// Setting a style changes cells within the visible part of the
    /// rectangle only.
    pub proof fn lemma_set_style_within(self, rect: Rect, style: Style, i: int)
        requires
            0 <= i < self.cells.len(),
            !self.grid.index_in(i, self.physical(rect)),
        ensures
            self.set_style(rect, style).cells[i] == self.cells[i],
    {
    }
}

/// A component which can be rendered on the virtual canvas. All calls to draw
/// components are traced so that it can be determined later where a given
/// component was drawn.
pub trait Component: Sized {
    /// A unique identifier which identifies this component or one of its child
    /// components. This can be used with the return value of
    /// `Viewport::render_top_level` to find where the component with a given ID
    /// was drawn.
    type Id: Clone + Debug + Eq + Hash;

    /// Get the ID for this component.
    fn id(&self) -> Self::Id;

    /// Draw this component and any child components.
    ///
    /// A component draws through the methods of the viewport. Each of them
    /// leaves the viewport well-formed and changes nothing but the cells, the
    /// innermost trace and the debug messages; so does `draw`.
    fn draw(&self, viewport: &mut Viewport<Self::Id>, x: isize, y: isize)
        requires
            old(viewport).wf(),
        ensures
            final(viewport).wf(),
            final(viewport)@.drawn_over(old(viewport)@),
    ;
}

/// Accessor to draw on the virtual canvas. The caller can draw anywhere on the
/// canvas, but the actual rendering will be restricted to this viewport. All
/// draw calls are also tracked so that we know where each component was drawn
/// after the fact (see `DrawTrace`).
#[derive(Debug)]
pub struct Viewport<ComponentId> {
    buf: Buffer,
    rect: Rect,
    trace: Vec<DrawTrace<ComponentId>>,
    debug_messages: Vec<String>,
}

impl<ComponentId> View for Viewport<ComponentId> {
    type V = ViewportView<ComponentId>;

    closed spec fn view(&self) -> ViewportView<ComponentId> {
        ViewportView {
            clip: self.rect,
            grid: buffer_area(self.buf),
            cells: buffer_cells(self.buf),
            frames: Seq::new(self.trace@.len(), |i: int| self.trace@[i]@),
            messages: texts(self.debug_messages@),
        }
    }
}

impl<ComponentId: Clone + Debug + Eq + Hash> Viewport<ComponentId> {
    /// Whether the viewport is in a state that drawing can start from: its
    /// state is well-formed, and component identifiers behave as keys must.
    pub open spec fn wf(&self) -> bool {
        self@.wf() && DrawTrace::<ComponentId>::valid_ids()
    }

    /// The size of the viewport.
    pub fn size(&self) -> (size: RectSize)
        ensures
            size.width == self@.grid.width,
            size.height == self@.grid.height,
    {
        let area = area_of(&self.buf);
        RectSize { width: area.width as usize, height: area.height as usize }
    }

    /// The size of the clip rectangle for a render pass that draws an area
    /// of size `area` onto a grid over `grid` that holds `cells` cells: the
    /// size of the area where it is within the grid, a cell of the canvas
    /// for each cell of the screen. Where the cells of the grid cannot be
    /// addressed, nothing is shown.
    pub open spec fn shown_size(grid: ScreenRect, cells: nat, area: ScreenRect) -> RectSize {
        if addressable(grid, cells) {
            RectSize {
                width: min_int(area.width as int, grid.width as int) as usize,
                height: min_int(area.height as int, grid.height as int) as usize,
            }
        } else {
            RectSize { width: 0, height: 0 }
        }
    }

    /// The part of a grid over `grid` that holds `cells` cells which a render
    /// pass for `area` draws the canvas onto.
    pub open spec fn shown_window(grid: ScreenRect, cells: nat, area: ScreenRect) -> ScreenRect {
        ScreenRect {
            x: grid.x,
            y: grid.y,
            width: Self::shown_size(grid, cells, area).width as u16,
            height: Self::shown_size(grid, cells, area).height as u16,
        }
    }

    /// The size of the clip rectangle for a render pass that draws `area`
    /// onto `buf`.
    fn clip_size(buf: &Buffer, area: ScreenRect) -> (size: RectSize)
        ensures
            size == Self::shown_size(
                buffer_area(*buf),
                buffer_cells(*buf).len(),
                area,
            ),
    {
        if is_addressable(buf) {
            let grid = area_of(buf);
            let width = if area.width <= grid.width {
                area.width
            } else {
                grid.width
            };
            let height = if area.height <= grid.height {
                area.height
            } else {
                grid.height
            };
            RectSize { width: width as usize, height: height as usize }
        } else {
            RectSize { width: 0, height: 0 }
        }
    }

    /// The state of the viewport at the start of a render pass that draws an
    /// area of the size of `area` onto a grid over `grid` that holds `cells`:
    /// the clip rectangle lies at `(x, y)`, one trace is open and holds
    /// nothing, and no message is queued.
    pub open spec fn started(
        grid: ScreenRect,
        cells: Seq<Cell>,
        area: ScreenRect,
        x: isize,
        y: isize,
    ) -> ViewportView<ComponentId> {
        ViewportView {
            clip: Rect {
                x,
                y,
                width: Self::shown_size(grid, cells.len(), area).width,
                height: Self::shown_size(grid, cells.len(), area).height,
            },
            grid,
            cells,
            frames: seq![TraceView::<ComponentId>::empty()],
            messages: Seq::<Seq<char>>::empty(),
        }
    }

    /// Starts a render pass onto `buf`, for the widget that fills an area of
    /// the size of `area`. The viewport takes the cells of `buf` and leaves
    /// a buffer without cells in its place, until `finish` hands them back.
    /// The cell of the virtual canvas at `(x, y)` is shown in the first cell
    /// of the buffer, and as much of the canvas right of and below it as the
    /// area and the buffer both have room for.
    pub fn start(buf: &mut Buffer, area: ScreenRect, x: isize, y: isize) -> (viewport: Self)
        requires
            DrawTrace::<ComponentId>::valid_ids(),
        ensures
            viewport.wf(),
            viewport@ == Self::started(buffer_area(*old(buf)), buffer_cells(*old(buf)), area, x, y),
    {
        let size = Self::clip_size(buf, area);
        let mut trace: Vec<DrawTrace<ComponentId>> = Vec::new();
        trace.push(DrawTrace::default());
        let mut screen = no_buffer();
        std::mem::swap(buf, &mut screen);
        let viewport = Viewport {
            buf: screen,
            rect: Rect { x, y, width: size.width, height: size.height },
            trace,
            debug_messages: Vec::new(),
        };
        proof {
            let started = Self::started(
                buffer_area(*old(buf)),
                buffer_cells(*old(buf)),
                area,
                x,
                y,
            );
            assert(viewport@.frames =~= started.frames);
            assert(viewport@.messages =~= started.messages);
        }
        viewport
    }

    /// Ends a render pass: hands the cells back to `buf`, with the debug
    /// messages that were queued printed over them in `style`, and returns
    /// the mapping of the innermost trace, which indicates where each
    /// component was drawn on the canvas.
    pub fn finish(
        self,
        buf: &mut Buffer,
        style: Style,
    ) -> (drawn_rects: HashMap<ComponentId, Rect>)
        requires
            self.wf(),
        ensures
            drawn_rects@ == self@.top().components,
            buffer_area(*final(buf)) == self@.grid,
            buffer_cells(*final(buf)) == shown_over(
                self@.cells,
                self@.grid,
                all_lines(self@.messages),
                style,
            ),
            same_outside(
                buffer_cells(*final(buf)),
                self@.cells,
                self@.grid,
                overlay_area(self@.grid, all_lines(self@.messages)),
            ),
    {
        let Viewport { buf: mut screen, rect: _, mut trace, debug_messages } = self;
        let top = trace.pop().unwrap();
        draw_debug_messages(&mut screen, &debug_messages, style);
        *buf = screen;
        top.components
    }

    /// Render the provided component onto `buf`, as the widget that fills an
    /// area of the size of `area`: the pass is started for the origin
    /// `(x, y)`, the component is drawn at the origin of the canvas, and the
    /// pass is finished. Returns a mapping indicating where each component
    /// was drawn on the canvas: it holds what the component recorded, and the
    /// component itself, with the bounding rectangle of all that it drew.
    ///
    /// When the component has drawn, the debug messages that were queued are
    /// printed over the screen.
    pub fn render_top_level<C: Component<Id = ComponentId>>(
        buf: &mut Buffer,
        area: ScreenRect,
        x: isize,
        y: isize,
        component: &C,
    ) -> (drawn_rects: HashMap<ComponentId, Rect>)
        requires
            DrawTrace::<ComponentId>::valid_ids(),
        ensures
            buffer_area(*final(buf)) == buffer_area(*old(buf)),
            buffer_cells(*final(buf)).len() == buffer_cells(*old(buf)).len(),
            (exists|id: ComponentId, view: &mut Viewport<ComponentId>, style: Style|
                {
                    &&& #[trigger] call_ensures(C::id, (component,), id)
                    &&& #[trigger] call_ensures(C::draw, (component, view, 0isize, 0isize), ())
                    &&& mut_ref_current(view)@ == Self::started(
                        buffer_area(*old(buf)),
                        buffer_cells(*old(buf)),
                        area,
                        x,
                        y,
                    ).enter()
                    &&& #[trigger] Self::rendered(
                        Self::started(
                            buffer_area(*old(buf)),
                            buffer_cells(*old(buf)),
                            area,
                            x,
                            y,
                        ),
                        mut_ref_future(view)@,
                        id,
                        style,
                        drawn_rects@,
                        buffer_cells(*final(buf)),
                    )
                }),
            (exists|id: ComponentId|
                {
                    &&& call_ensures(C::id, (component,), id)
                    &&& #[trigger] drawn_rects@.contains_key(id)
                    &&& forall|other: ComponentId| #[trigger]
                        drawn_rects@.contains_key(other) ==> drawn_rects@[id].absorbs(
                            drawn_rects@[other],
                        )
                }),
            ({
                let grid = buffer_area(*old(buf));
                let before = buffer_cells(*old(buf));
                let after = buffer_cells(*final(buf));
                &&& !addressable(grid, before.len()) ==> after == before
                &&& forall|i: int|
                    0 <= i < before.len() && !grid.index_in(
                        i,
                        Self::shown_window(grid, before.len(), area),
                    ) && !grid.index_in(i, overlay_reach(grid)) ==> #[trigger] after[i]
                        == before[i]
            }),
    {
        let mut viewport = Self::start(buf, area, x, y);
        let ghost started = viewport@;
        viewport.enter();
        component.draw(&mut viewport, 0, 0);
        let ghost drawn = viewport@;
        let id = component.id();
        let rect = viewport.leave(id);
        let style = overlay_style();
        let drawn_rects = viewport.finish(buf, style);
        proof {
            assert(drawn.frames.drop_last() =~= started.frames);
            assert(drawn.leave(id, rect).top() == started.top().merged(
                drawn.top().closed(id, rect),
            ));
            assert(drawn_rects@ =~= drawn.top().components.insert(id, rect));
            assert(drawn_rects@.contains_key(id));
            assert(Self::rendered(
                started,
                drawn,
                id,
                style,
                drawn_rects@,
                buffer_cells(*buf),
            ));
        }
        drawn_rects
    }

    /// Two render passes of a component that does the same whenever it is
    /// asked the same give the same mapping and the same cells, when they
    /// start in the same state and print the overlay in the same style, and
    /// the component's rectangle has an area. A component does the same when
    /// it gives one identifier, and leaves viewports that it was drawn on in
    /// the same state at the origin of the canvas in the same state.
    pub proof fn lemma_passes_alike<C: Component<Id = ComponentId>>(
        component: &C,
        started: ViewportView<ComponentId>,
        style: Style,
        first_rects: Map<ComponentId, Rect>,
        first_cells: Seq<Cell>,
        second_rects: Map<ComponentId, Rect>,
        second_cells: Seq<Cell>,
    )
        requires
            forall|id: ComponentId, other: ComponentId|
                #![trigger
                    call_ensures(C::id, (component,), id),
                    call_ensures(C::id, (component,), other)]
                call_ensures(C::id, (component,), id) && call_ensures(C::id, (component,), other)
                    ==> id == other,
            forall|view: &mut Viewport<ComponentId>, other: &mut Viewport<ComponentId>|
                #![trigger
                    call_ensures(C::draw, (component, view, 0isize, 0isize), ()),
                    call_ensures(C::draw, (component, other, 0isize, 0isize), ())]
                call_ensures(C::draw, (component, view, 0isize, 0isize), ()) && call_ensures(
                    C::draw,
                    (component, other, 0isize, 0isize),
                    (),
                ) && mut_ref_current(view)@ == mut_ref_current(other)@ ==> mut_ref_future(view)@
                    == mut_ref_future(other)@,
            (exists|id: ComponentId, view: &mut Viewport<ComponentId>|
                {
                    &&& #[trigger] call_ensures(C::id, (component,), id)
                    &&& #[trigger] call_ensures(C::draw, (component, view, 0isize, 0isize), ())
                    &&& mut_ref_current(view)@ == started.enter()
                    &&& !first_rects[id].is_empty()
                    &&& Self::rendered(
                        started,
                        mut_ref_future(view)@,
                        id,
                        style,
                        first_rects,
                        first_cells,
                    )
                }),
            (exists|id: ComponentId, view: &mut Viewport<ComponentId>|
                {
                    &&& #[trigger] call_ensures(C::id, (component,), id)
                    &&& #[trigger] call_ensures(C::draw, (component, view, 0isize, 0isize), ())
                    &&& mut_ref_current(view)@ == started.enter()
                    &&& Self::rendered(
                        started,
                        mut_ref_future(view)@,
                        id,
                        style,
                        second_rects,
                        second_cells,
                    )
                }),
        ensures
            first_rects == second_rects,
            first_cells == second_cells,
    {
        let (id, view) = choose|id: ComponentId, view: &mut Viewport<ComponentId>|
            {
                &&& #[trigger] call_ensures(C::id, (component,), id)
                &&& #[trigger] call_ensures(C::draw, (component, view, 0isize, 0isize), ())
                &&& mut_ref_current(view)@ == started.enter()
                &&& !first_rects[id].is_empty()
                &&& Self::rendered(
                    started,
                    mut_ref_future(view)@,
                    id,
                    style,
                    first_rects,
                    first_cells,
                )
            };
        let (other_id, other) = choose|id: ComponentId, view: &mut Viewport<ComponentId>|
            {
                &&& #[trigger] call_ensures(C::id, (component,), id)
                &&& #[trigger] call_ensures(C::draw, (component, view, 0isize, 0isize), ())
                &&& mut_ref_current(view)@ == started.enter()
                &&& Self::rendered(
                    started,
                    mut_ref_future(view)@,
                    id,
                    style,
                    second_rects,
                    second_cells,
                )
            };
        assert(id == other_id);
        assert(mut_ref_future(view)@ == mut_ref_future(other)@);
        let drawn = mut_ref_future(view)@;
        Rect::lemma_bounding_has_area(first_rects[id], drawn.top().members());
        Self::lemma_pass_determined(
            started,
            drawn,
            id,
            style,
            first_rects,
            first_cells,
            second_rects,
            second_cells,
        );
    }

    /// A render pass is determined by what the component does: where the
    /// component leaves the viewport in the same state, under the same
    /// identifier, having drawn to a rectangle with an area, two passes from
    /// the same start give the same mapping and the same cells.
    pub proof fn lemma_pass_determined(
        started: ViewportView<ComponentId>,
        drawn: ViewportView<ComponentId>,
        id: ComponentId,
        style: Style,
        first_rects: Map<ComponentId, Rect>,
        first_cells: Seq<Cell>,
        second_rects: Map<ComponentId, Rect>,
        second_cells: Seq<Cell>,
    )
        requires
            Self::rendered(started, drawn, id, style, first_rects, first_cells),
            Self::rendered(started, drawn, id, style, second_rects, second_cells),
            !Rect::all_empty(drawn.top().members()),
        ensures
            first_rects == second_rects,
            first_cells == second_cells,
    {
        Rect::lemma_bounding_unique(first_rects[id], second_rects[id], drawn.top().members());
    }

    /// Whether a render pass that started in the state `started` may end with
    /// the mapping `drawn_rects` and the cells `cells`, when `drawn` is the
    /// state in which the component `id` left the viewport, and `style` the
    /// style of the overlay: the component drew over the state in which its
    /// trace was opened; the mapping holds what the component recorded, and
    /// the component itself with the bounding rectangle of all that it drew;
    /// the cells are those that the component left, with the messages that
    /// it queued printed over them.
    pub open spec fn rendered(
        started: ViewportView<ComponentId>,
        drawn: ViewportView<ComponentId>,
        id: ComponentId,
        style: Style,
        drawn_rects: Map<ComponentId, Rect>,
        cells: Seq<Cell>,
    ) -> bool {
        &&& drawn.wf()
        &&& drawn.drawn_over(started.enter())
        &&& drawn_rects.contains_key(id)
        &&& drawn_rects[id].is_bounding_of(drawn.top().members())
        &&& drawn_rects == drawn.top().components.insert(id, drawn_rects[id])
        &&& cells == shown_over(
            drawn.cells,
            drawn.grid,
            all_lines(drawn.messages),
            style,
        )
    }

    fn current_trace_mut(&mut self) -> (trace: &mut DrawTrace<ComponentId>)
        requires
            old(self).trace@.len() >= 1,
        ensures
            *trace == old(self).trace@.last(),
            final(self).trace@ == old(self).trace@.update(
                old(self).trace@.len() - 1,
                *final(trace),
            ),
            final(self).rect == old(self).rect,
            final(self).buf == old(self).buf,
            final(self).debug_messages == old(self).debug_messages,
    {
        let last = self.trace.len() - 1;
        &mut self.trace[last]
    }

    /// Set the terminal styling for a certain area. This can also be
    /// accomplished using `draw_span` with a styled `Span`, but in some cases,
    /// it may be more appropriate to set the style of certain cells directly.
    pub fn set_style(&mut self, rect: Rect, style: Style)
        requires
            old(self).wf(),
        ensures
            final(self).wf(),
            final(self)@ == old(self)@.set_style(rect, style),
            final(self)@.drawn_over(old(self)@),
    {
        let area = self.translate_rect(rect);
        if !area.is_empty() {
            proof {
                self@.lemma_physical_within_grid(rect);
            }
            fill_style(&mut self.buf, area, style);
        }
        self.current_trace_mut().merge_rect(rect);
        proof {
            assert(self@.cells =~= old(self)@.set_style(rect, style).cells);
            assert(self@.frames =~= old(self)@.set_style(rect, style).frames);
            assert(self@.frames.drop_last() =~= old(self)@.frames.drop_last());
            assert forall|i: int|
                0 <= i < old(self)@.cells.len() && !old(self)@.grid.index_in(
                    i,
                    old(self)@.window(),
                ) implies #[trigger] self@.cells[i] == old(self)@.cells[i] by {
                if old(self)@.grid.index_in(i, area) {
                    old(self)@.lemma_physical_within_window(rect, i);
                }
            }
        }
    }

    /// Render a debug message to the screen (at an unspecified location).
    ///
    /// The message is converted to a `String` and queued by `debug_text`.
    pub fn debug<M: Into<String>>(&mut self, message: M)
        requires
            old(self).wf(),
        ensures
            final(self).wf(),
            final(self)@.drawn_over(old(self)@),
            final(self)@.frames == old(self)@.frames,
            final(self)@.cells == old(self)@.cells,
            final(self)@.messages.len() == old(self)@.messages.len() + 1,
            final(self)@.messages.drop_last() == old(self)@.messages,
            M::obeys_into_spec() ==> final(self)@ == old(self)@.debug(message.into_spec()@),
    {
        self.debug_text(message.into());
        proof {
            assert(self@.messages.drop_last() =~= old(self)@.messages);
        }
    }

    /// Queues `message` to be printed over the screen when the pass ends.
    pub fn debug_text(&mut self, message: String)
        requires
            old(self).wf(),
        ensures
            final(self).wf(),
            final(self)@ == old(self)@.debug(message@),
            final(self)@.drawn_over(old(self)@),
    {
        self.debug_messages.push(message);
        proof {
            assert(self@.messages =~= old(self)@.messages.push(message@));
            assert(self@.frames =~= old(self)@.frames);
        }
    }

    /// Opens a trace that holds nothing for a component that starts to draw.
    pub fn enter(&mut self)
        requires
            old(self).wf(),
        ensures
            final(self).wf(),
            final(self)@ == old(self)@.enter(),
    {
        self.trace.push(DrawTrace::default());
        proof {
            assert(self@.frames =~= old(self)@.enter().frames);
        }
    }

    /// Ends the drawing of the component `id`, whose trace is the innermost.
    /// The result is the component's rectangle: the bounding rectangle of all
    /// that the trace holds. The trace, with that rectangle recorded for
    /// `id`, is merged into the trace of the enclosing component.
    pub fn leave(&mut self, id: ComponentId) -> (rect: Rect)
        requires
            old(self).wf(),
            old(self)@.frames.len() >= 2,
        ensures
            final(self).wf(),
            rect.is_bounding_of(old(self)@.top().members()),
            final(self)@ == old(self)@.leave(id, rect),
    {
        let mut trace = self.trace.pop().unwrap();
        let trace_rect = trace.close(id);
        let ghost closed = trace@;
        self.current_trace_mut().merge(trace);
        proof {
            assert(closed == old(self)@.top().closed(id, trace_rect));
            assert(self@.frames =~= old(self)@.leave(id, trace_rect).frames);
        }
        trace_rect
    }

    /// Draw the provided child component to the screen at the given `(x, y)`
    /// location.
    ///
    /// A trace is opened for the component (`enter`), the component draws at
    /// `(x, y)` on this viewport, and its trace is closed and merged into
    /// that of the enclosing component (`leave`). The result is the
    /// component's rectangle: the bounding rectangle of all that its trace
    /// holds when it has drawn.
    pub fn draw_component<C: Component<Id = ComponentId>>(
        &mut self,
        x: isize,
        y: isize,
        component: &C,
    ) -> (rect: Rect)
        requires
            old(self).wf(),
        ensures
            final(self).wf(),
            final(self)@.drawn_over(old(self)@),
            (exists|id: ComponentId, view: &mut Viewport<ComponentId>|
                {
                    &&& #[trigger] call_ensures(C::id, (component,), id)
                    &&& #[trigger] call_ensures(C::draw, (component, view, x, y), ())
                    &&& mut_ref_current(view)@ == old(self)@.enter()
                    &&& mut_ref_future(view).wf()
                    &&& mut_ref_future(view)@.drawn_over(old(self)@.enter())
                    &&& rect.is_bounding_of(mut_ref_future(view)@.top().members())
                    &&& final(self)@ == mut_ref_future(view)@.leave(id, rect)
                }),
            final(self)@.top().rect == old(self)@.top().rect.union_bounding(rect),
    {
        self.enter();
        component.draw(self, x, y);
        let ghost drawn = self@;
        let id = component.id();
        let rect = self.leave(id);
        proof {
            assert(drawn.frames.drop_last() =~= old(self)@.frames);
            assert(self@.frames.drop_last() =~= old(self)@.frames.drop_last());
        }
        rect
    }

    /// Draw a `Span` directly to the screen at the given `(x, y)` location.
    ///
    /// The result is the rectangle of the whole span, whatever part of it is
    /// visible.
    pub fn draw_span(&mut self, x: isize, y: isize, span: &Span) -> (rect: Rect)
        requires
            old(self).wf(),
        ensures
            final(self).wf(),
            rect == ViewportView::<ComponentId>::span_rect(x, y, span.content@),
            final(self)@ == old(self)@.draw_span(x, y, span.content@, span.style),
            final(self)@.drawn_over(old(self)@),
            same_outside(
                final(self)@.cells,
                old(self)@.cells,
                old(self)@.grid,
                old(self)@.physical(rect),
            ),
    {
        let content = span.content.as_str();
        let span_rect = Rect { x, y, width: content.unicode_len(), height: 1 };
        self.current_trace_mut().merge_rect(span_rect);
        proof {
            assert(self@.frames =~= old(self)@.draw_span(x, y, span.content@, span.style).frames);
            assert(self@.frames.drop_last() =~= old(self)@.frames.drop_last());
        }

        let draw_rect = self.rect.intersect(span_rect);
        if !draw_rect.is_empty() {
            let span_start_idx = (draw_rect.x as i128 - span_rect.x as i128) as usize;
            let draw_span = content.substring_char(
                span_start_idx,
                span_start_idx + draw_rect.width,
            );
            let buf_rect = self.translate_rect(draw_rect);
            proof {
                self@.lemma_physical_within_grid(draw_rect);
            }
            print_span(
                &mut self.buf,
                buf_rect.x,
                buf_rect.y,
                draw_span,
                span.style,
                buf_rect.width,
            );
            proof {
                assert forall|i: int|
                    0 <= i < old(self)@.cells.len() && !old(self)@.grid.index_in(
                        i,
                        old(self)@.window(),
                    ) implies #[trigger] self@.cells[i] == old(self)@.cells[i] by {
                    if old(self)@.grid.index_in(i, buf_rect) {
                        old(self)@.lemma_physical_within_window(span_rect, i);
                    }
                }
            }
        }
        span_rect
    }

    /// Convert the virtual `Rect` being displayed on the viewport, potentially
    /// including an area off-screen, into a real terminal `ScreenRect`
    /// indicating the actual positions of the characters to be printed
    /// on-screen.
    fn translate_rect(&self, rect: Rect) -> (area: ScreenRect)
        ensures
            area == self@.physical(rect),
    {
        let grid = area_of(&self.buf);
        let draw_rect = self.rect.intersect(rect);
        let x = grid.x as i128 + (draw_rect.x as i128 - self.rect.x as i128);
        let y = grid.y as i128 + (draw_rect.y as i128 - self.rect.y as i128);
        ScreenRect {
            x: clamp_into_u16(x),
            y: clamp_into_u16(y),
            width: clamp_into_u16(draw_rect.width as i128),
            height: clamp_into_u16(draw_rect.height as i128),
        }
    }
}

/// Converts a coordinate to `u16`, clamped to the range that a `u16` holds.
pub fn clamp_into_u16(value: i128) -> (r: u16)
    ensures
        r == clamp_u16(value as int),
{
    if value <= 0 {
        0
    } else if value >= u16::MAX as i128 {
        u16::MAX
    } else {
        value as u16
    }
}

} // verus!
