//! Rectangles on the unbounded virtual canvas, and rectangles on the screen.

use vstd::prelude::*;
use vstd::std_specs::convert::FromSpecImpl;

verus! {

/// The dimensions of a region, without a position.
#[derive(Clone, Copy, Debug, PartialEq, Eq, Hash, PartialOrd, Ord, Structural)]
pub struct RectSize {
    pub width: usize,
    pub height: usize,
}

/// A region of the virtual canvas. Unlike a region of the screen, it may lie
/// at negative coordinates or beyond the screen. (Such coordinates are never
/// rendered.)
///
/// `x` and `y` are the top-left corner; the bottom-right corner is
/// `(x + width, y + height)`, which need not fit an `isize`.
#[derive(Clone, Copy, Debug, PartialEq, Eq, Hash, PartialOrd, Ord, Structural)]
pub struct Rect {
    pub x: isize,
    pub y: isize,
    pub width: usize,
    pub height: usize,
}

/// A region of the screen, in the coordinates of the character grid.
#[derive(Clone, Copy, Debug, PartialEq, Eq, Hash, Structural)]
pub struct ScreenRect {
    pub x: u16,
    pub y: u16,
    pub width: u16,
    pub height: u16,
}

/// The larger of two integers.
pub open spec fn max_int(a: int, b: int) -> int {
    if a >= b {
        a
    } else {
        b
    }
}

/// The smaller of two integers.
pub open spec fn min_int(a: int, b: int) -> int {
    if a <= b {
        a
    } else {
        b
    }
}

/// The length of the span from `from` to `to`: zero where `to` lies before
/// `from`, and never more than a `usize` holds.
pub open spec fn span_len(from: int, to: int) -> int {
    min_int(max_int(0, to - from), usize::MAX as int)
}

impl Default for RectSize {
    fn default() -> (size: RectSize)
        ensures
            size == (RectSize { width: 0, height: 0 }),
    {
        RectSize { width: 0, height: 0 }
    }
}

impl Default for Rect {
    fn default() -> (rect: Rect)
        ensures
            rect == Rect::zero(),
    {
        Rect { x: 0, y: 0, width: 0, height: 0 }
    }
}

impl Default for ScreenRect {
    fn default() -> (rect: ScreenRect)
        ensures
            rect == (ScreenRect { x: 0, y: 0, width: 0, height: 0 }),
    {
        ScreenRect { x: 0, y: 0, width: 0, height: 0 }
    }
}

impl From<Rect> for RectSize {
    fn from(rect: Rect) -> (size: RectSize) {
        let Rect { x: _, y: _, width, height } = rect;
        RectSize { width, height }
    }
}

impl FromSpecImpl<Rect> for RectSize {
    open spec fn obeys_from_spec() -> bool {
        true
    }

    open spec fn from_spec(rect: Rect) -> RectSize {
        RectSize { width: rect.width, height: rect.height }
    }
}

impl From<ScreenRect> for Rect {
    fn from(value: ScreenRect) -> (rect: Rect) {
        let ScreenRect { x, y, width, height } = value;
        Rect { x: x as isize, y: y as isize, width: width as usize, height: height as usize }
    }
}

impl FromSpecImpl<ScreenRect> for Rect {
    open spec fn obeys_from_spec() -> bool {
        true
    }

    open spec fn from_spec(value: ScreenRect) -> Rect {
        Rect {
            x: value.x as isize,
            y: value.y as isize,
            width: value.width as usize,
            height: value.height as usize,
        }
    }
}

impl From<ScreenRect> for RectSize {
    fn from(rect: ScreenRect) -> (size: RectSize) {
        RectSize::from(Rect::from(rect))
    }
}

impl FromSpecImpl<ScreenRect> for RectSize {
    open spec fn obeys_from_spec() -> bool {
        true
    }

    open spec fn from_spec(rect: ScreenRect) -> RectSize {
        RectSize { width: rect.width as usize, height: rect.height as usize }
    }
}

impl ScreenRect {
    /// The column just right of the region.
    pub open spec fn right(self) -> int {
        self.x + self.width
    }

    /// The row just below the region.
    pub open spec fn bottom(self) -> int {
        self.y + self.height
    }

    /// The region has zero area.
    pub open spec fn spec_is_empty(self) -> bool {
        self.width == 0 || self.height == 0
    }

    /// Whether the cell in column `col` of row `row` lies inside the region.
    pub open spec fn contains_cell(self, col: int, row: int) -> bool {
        self.x <= col < self.right() && self.y <= row < self.bottom()
    }

    /// Whether `inner` lies completely inside the region.
    pub open spec fn encloses(self, inner: ScreenRect) -> bool {
        &&& self.x <= inner.x
        &&& self.y <= inner.y
        &&& inner.right() <= self.right()
        &&& inner.bottom() <= self.bottom()
    }

    /// The column of the cell with index `i`, in a grid over this region
    /// that numbers its cells row by row.
    pub open spec fn column_of(self, i: int) -> int {
        self.x + i % (self.width as int)
    }

    /// The row of the cell with index `i`, in a grid over this region that
    /// numbers its cells row by row.
    pub open spec fn row_of(self, i: int) -> int {
        self.y + i / (self.width as int)
    }

    /// Whether the cell with index `i`, in a grid over this region that
    /// numbers its cells row by row, lies in `area`.
    pub open spec fn index_in(self, i: int, area: ScreenRect) -> bool {
        self.width > 0 && area.contains_cell(self.column_of(i), self.row_of(i))
    }

    /// Whether this region has zero area.
    #[verifier::when_used_as_spec(spec_is_empty)]
    pub fn is_empty(self) -> (empty: bool)
        ensures
            empty == self.spec_is_empty(),
    {
        self.width == 0 || self.height == 0
    }
}

impl Rect {
    /// The empty rectangle at the origin.
    pub open spec fn zero() -> Rect {
        Rect { x: 0, y: 0, width: 0, height: 0 }
    }

    /// The column just right of the rectangle.
    pub open spec fn right(self) -> int {
        self.x + self.width
    }

    /// The row just below the rectangle.
    pub open spec fn bottom(self) -> int {
        self.y + self.height
    }

    /// Whether the cell in column `col` of row `row` lies inside the
    /// rectangle.
    pub open spec fn contains_cell(self, col: int, row: int) -> bool {
        self.x <= col < self.right() && self.y <= row < self.bottom()
    }

    /// The rectangle has zero area.
    pub open spec fn spec_is_empty(self) -> bool {
        self.width == 0 || self.height == 0
    }

    /// The intersection of two rectangles: from the larger of the top-left
    /// corners to the smaller of the bottom-right corners, with a span of
    /// zero where the corners have crossed.
    pub open spec fn spec_intersect(self, other: Rect) -> Rect {
        let x1 = max_int(self.x as int, other.x as int);
        let y1 = max_int(self.y as int, other.y as int);
        let x2 = min_int(self.right(), other.right());
        let y2 = min_int(self.bottom(), other.bottom());
        Rect {
            x: x1 as isize,
            y: y1 as isize,
            width: span_len(x1, x2) as usize,
            height: span_len(y1, y2) as usize,
        }
    }

    /// The bounding union of two rectangles: an empty operand is ignored;
    /// otherwise from the smaller of the top-left corners to the larger of
    /// the bottom-right corners.
    pub open spec fn spec_union_bounding(self, other: Rect) -> Rect {
        if self.spec_is_empty() {
            other
        } else if other.spec_is_empty() {
            self
        } else {
            let x1 = min_int(self.x as int, other.x as int);
            let y1 = min_int(self.y as int, other.y as int);
            let x2 = max_int(self.right(), other.right());
            let y2 = max_int(self.bottom(), other.bottom());
            Rect {
                x: x1 as isize,
                y: y1 as isize,
                width: span_len(x1, x2) as usize,
                height: span_len(y1, y2) as usize,
            }
        }
    }

    /// Whether uniting `other` into this rectangle leaves it as it is: `other`
    /// adds nothing to the bounding box.
    pub open spec fn absorbs(self, other: Rect) -> bool {
        other.spec_is_empty() || self.spec_union_bounding(other) == self
    }

    /// The (x, y) coordinate of the top-left corner of this `Rect`.
    pub fn top_left(self) -> (corner: (isize, isize))
        ensures
            corner == (self.x, self.y),
    {
        (self.x, self.y)
    }

    /// The (x, y) coordinate of the bottom-right corner of this `Rect`. The
    /// corner may lie beyond what an `isize` holds, so it is given in a wider
    /// type.
    pub fn bottom_right(self) -> (corner: (i128, i128))
        ensures
            corner.0 == self.right(),
            corner.1 == self.bottom(),
    {
        (self.x as i128 + self.width as i128, self.y as i128 + self.height as i128)
    }

    /// Whether this `Rect` has zero area.
    #[verifier::when_used_as_spec(spec_is_empty)]
    pub fn is_empty(self) -> (empty: bool)
        ensures
            empty == self.spec_is_empty(),
    {
        self.width == 0 || self.height == 0
    }

    /// The largest `Rect` which is contained completely within both `self` and
    /// `other`.
    ///
    /// Where the two do not overlap, the result is empty; its corner is still
    /// the larger of the two top-left corners.
    #[verifier::when_used_as_spec(spec_intersect)]
    pub fn intersect(self, other: Rect) -> (r: Rect)
        ensures
            r == self.spec_intersect(other),
            r.x == max_int(self.x as int, other.x as int),
            r.y == max_int(self.y as int, other.y as int),
            r.width == max_int(0, min_int(self.right(), other.right()) - r.x),
            r.height == max_int(0, min_int(self.bottom(), other.bottom()) - r.y),
    {
        let (self_x1, self_y1) = self.top_left();
        let (self_x2, self_y2) = self.bottom_right();
        let (other_x1, other_y1) = other.top_left();
        let (other_x2, other_y2) = other.bottom_right();
        let x1 = if self_x1 >= other_x1 {
            self_x1
        } else {
            other_x1
        };
        let y1 = if self_y1 >= other_y1 {
            self_y1
        } else {
            other_y1
        };
        let x2 = if self_x2 <= other_x2 {
            self_x2
        } else {
            other_x2
        };
        let y2 = if self_y2 <= other_y2 {
            self_y2
        } else {
            other_y2
        };
        let width = clamp_to_usize(x2 - x1 as i128);
        let height = clamp_to_usize(y2 - y1 as i128);
        Rect { x: x1, y: y1, width, height }
    }

    /// The smallest `Rect` which contains both `self` and `other`. Note that if
    /// one of `self` or `other` is empty, the other is returned, i.e. we don't
    /// try to calculate the bounding box which includes a zero-area point.
    ///
    /// Where the two lie so far apart that the box would be wider or taller
    /// than a `usize` holds, that dimension is `usize::MAX`.
    #[verifier::when_used_as_spec(spec_union_bounding)]
    pub fn union_bounding(self, other: Rect) -> (r: Rect)
        ensures
            r == self.spec_union_bounding(other),
            self.spec_is_empty() ==> r == other,
            !self.spec_is_empty() && other.spec_is_empty() ==> r == self,
            !self.spec_is_empty() && !other.spec_is_empty() ==> {
                &&& r.x == min_int(self.x as int, other.x as int)
                &&& r.y == min_int(self.y as int, other.y as int)
                &&& r.width == span_len(r.x as int, max_int(self.right(), other.right()))
                &&& r.height == span_len(r.y as int, max_int(self.bottom(), other.bottom()))
            },
    {
        if self.is_empty() {
            other
        } else if other.is_empty() {
            self
        } else {
            let (self_x1, self_y1) = self.top_left();
            let (self_x2, self_y2) = self.bottom_right();
            let (other_x1, other_y1) = other.top_left();
            let (other_x2, other_y2) = other.bottom_right();
            let x1 = if self_x1 <= other_x1 {
                self_x1
            } else {
                other_x1
            };
            let y1 = if self_y1 <= other_y1 {
                self_y1
            } else {
                other_y1
            };
            let x2 = if self_x2 >= other_x2 {
                self_x2
            } else {
                other_x2
            };
            let y2 = if self_y2 >= other_y2 {
                self_y2
            } else {
                other_y2
            };
            let width = clamp_to_usize(x2 - x1 as i128);
            let height = clamp_to_usize(y2 - y1 as i128);
            Rect { x: x1, y: y1, width, height }
        }
    }

    /// Intersecting a rectangle with itself gives the rectangle back.
    pub proof fn lemma_intersect_self(a: Rect)
        ensures
            a.intersect(a) == a,
    {
    }

    /// The bounding union of a rectangle with itself is the rectangle.
    pub proof fn lemma_union_bounding_self(a: Rect)
        ensures
            a.union_bounding(a) == a,
    {
    }

    /// Intersection does not depend on the order of its operands.
    pub proof fn lemma_intersect_commutative(a: Rect, b: Rect)
        ensures
            a.intersect(b) == b.intersect(a),
    {
    }

    /// The bounding union does not depend on the order of its operands,
    /// unless both are empty: of two empty rectangles the second is returned,
    /// so the order shows where they differ.
    pub proof fn lemma_union_bounding_commutative(a: Rect, b: Rect)
        requires
            !(a.is_empty() && b.is_empty() && a != b),
        ensures
            a.union_bounding(b) == b.union_bounding(a),
    {
    }

    /// An empty rectangle on the left of a bounding union contributes
    /// nothing, wherever it lies.
    pub proof fn lemma_union_bounding_empty_left(a: Rect, empty: Rect)
        requires
            empty.is_empty(),
        ensures
            empty.union_bounding(a) == a,
    {
    }

    /// An empty rectangle on the right of a bounding union contributes
    /// nothing, wherever it lies, to a rectangle that has an area. (Of two
    /// empty rectangles the union is the right one.)
    pub proof fn lemma_union_bounding_empty_right(a: Rect, empty: Rect)
        requires
            empty.is_empty(),
            !a.is_empty() || a == empty,
        ensures
            a.union_bounding(empty) == a,
    {
    }

    /// Bounding unions may be grouped in any way.
    pub proof fn lemma_union_bounding_associative(a: Rect, b: Rect, c: Rect)
        ensures
            a.union_bounding(b).union_bounding(c) == a.union_bounding(
                b.union_bounding(c),
            ),
    {
    }

    /// The intersection holds exactly the cells that lie in both rectangles.
    pub proof fn lemma_intersect_cells(a: Rect, b: Rect, col: int, row: int)
        ensures
            a.intersect(b).contains_cell(col, row) <==> a.contains_cell(col, row)
                && b.contains_cell(col, row),
    {
    }

    /// No rectangle that lies within both operands holds a cell that the
    /// intersection lacks: the intersection is the largest such rectangle.
    pub proof fn lemma_intersect_largest(a: Rect, b: Rect, inner: Rect)
        requires
            !inner.is_empty(),
            a.x <= inner.x && inner.right() <= a.right(),
            a.y <= inner.y && inner.bottom() <= a.bottom(),
            b.x <= inner.x && inner.right() <= b.right(),
            b.y <= inner.y && inner.bottom() <= b.bottom(),
        ensures
            a.intersect(b).x <= inner.x,
            a.intersect(b).y <= inner.y,
            inner.right() <= a.intersect(b).right(),
            inner.bottom() <= a.intersect(b).bottom(),
    {
    }

    /// Every rectangle that both operands lie within holds their bounding
    /// union too: the bounding union is the smallest such rectangle.
    pub proof fn lemma_union_bounding_smallest(a: Rect, b: Rect, outer: Rect)
        requires
            !a.is_empty(),
            !b.is_empty(),
            outer.x <= a.x && a.right() <= outer.right(),
            outer.y <= a.y && a.bottom() <= outer.bottom(),
            outer.x <= b.x && b.right() <= outer.right(),
            outer.y <= b.y && b.bottom() <= outer.bottom(),
        ensures
            outer.x <= a.union_bounding(b).x,
            outer.y <= a.union_bounding(b).y,
            a.union_bounding(b).right() <= outer.right(),
            a.union_bounding(b).bottom() <= outer.bottom(),
    {
    }

    /// The bounding union holds every cell of both operands, as long as the
    /// box fits: its width and height are below `usize::MAX`.
    pub proof fn lemma_union_bounding_cells(a: Rect, b: Rect, col: int, row: int)
        requires
            a.contains_cell(col, row) || b.contains_cell(col, row),
            a.union_bounding(b).width < usize::MAX,
            a.union_bounding(b).height < usize::MAX,
        ensures
            a.union_bounding(b).contains_cell(col, row),
    {
    }

    /// A bounding union absorbs both of its operands.
    pub proof fn lemma_union_bounding_absorbs(a: Rect, b: Rect)
        ensures
            a.union_bounding(b).absorbs(a),
            a.union_bounding(b).absorbs(b),
    {
    }

    /// What a rectangle absorbs, every rectangle that absorbs it absorbs
    /// too.
    pub proof fn lemma_absorbs_transitive(outer: Rect, middle: Rect, inner: Rect)
        requires
            outer.absorbs(middle),
            middle.absorbs(inner),
            !middle.is_empty() || inner.is_empty(),
        ensures
            outer.absorbs(inner),
    {
    }

    /// What a rectangle absorbs, every bounding union that it is part of
    /// absorbs too.
    pub proof fn lemma_absorbs_grows(a: Rect, b: Rect, inner: Rect)
        requires
            a.absorbs(inner) || b.absorbs(inner),
        ensures
            a.union_bounding(b).absorbs(inner),
    {
    }
}

/// The extremes of a set of rectangles, as unbounded integers: the columns and
/// rows that its bounding box runs between, before the box is made to fit a
/// `Rect`.
pub struct Extent {
    pub left: int,
    pub top: int,
    pub right: int,
    pub bottom: int,
}

impl Extent {
    /// The extremes of one rectangle.
    pub open spec fn of(r: Rect) -> Extent {
        Extent { left: r.x as int, top: r.y as int, right: r.right(), bottom: r.bottom() }
    }

    /// The extremes of both.
    pub open spec fn join(self, other: Extent) -> Extent {
        Extent {
            left: min_int(self.left, other.left),
            top: min_int(self.top, other.top),
            right: max_int(self.right, other.right),
            bottom: max_int(self.bottom, other.bottom),
        }
    }

    /// The rectangle between the extremes, its width and height clamped to
    /// what a `usize` holds.
    pub open spec fn rect(self) -> Rect {
        Rect {
            x: self.left as isize,
            y: self.top as isize,
            width: span_len(self.left, self.right) as usize,
            height: span_len(self.top, self.bottom) as usize,
        }
    }

    /// Whether these are the extremes of the rectangles in `members` that
    /// have an area: none of them goes beyond, and each extreme is reached by
    /// one of them.
    pub open spec fn reached_by(self, members: Set<Rect>) -> bool {
        &&& forall|m: Rect| #[trigger]
            members.contains(m) && !m.is_empty() ==> {
                &&& self.left <= m.x
                &&& self.top <= m.y
                &&& m.right() <= self.right
                &&& m.bottom() <= self.bottom
            }
        &&& exists|m: Rect| #[trigger] members.contains(m) && !m.is_empty() && m.x == self.left
        &&& exists|m: Rect| #[trigger] members.contains(m) && !m.is_empty() && m.y == self.top
        &&& exists|m: Rect| #[trigger]
            members.contains(m) && !m.is_empty() && m.right() == self.right
        &&& exists|m: Rect| #[trigger]
            members.contains(m) && !m.is_empty() && m.bottom() == self.bottom
    }

    /// A set of rectangles has one set of extremes at most.
    pub proof fn lemma_reached_once(a: Extent, b: Extent, members: Set<Rect>)
        requires
            a.reached_by(members),
            b.reached_by(members),
        ensures
            a == b,
    {
        // Each extreme of one is reached by a member, which the other does
        // not let go beyond its own.
        let m = choose|m: Rect| #[trigger] members.contains(m) && !m.is_empty() && m.x == a.left;
        let n = choose|m: Rect| #[trigger] members.contains(m) && !m.is_empty() && m.x == b.left;
        assert(a.left <= n.x && b.left <= m.x);
        let m = choose|m: Rect| #[trigger] members.contains(m) && !m.is_empty() && m.y == a.top;
        let n = choose|m: Rect| #[trigger] members.contains(m) && !m.is_empty() && m.y == b.top;
        assert(a.top <= n.y && b.top <= m.y);
        let m = choose|m: Rect| #[trigger]
            members.contains(m) && !m.is_empty() && m.right() == a.right;
        let n = choose|m: Rect| #[trigger]
            members.contains(m) && !m.is_empty() && m.right() == b.right;
        assert(n.right() <= a.right && m.right() <= b.right);
        let m = choose|m: Rect| #[trigger]
            members.contains(m) && !m.is_empty() && m.bottom() == a.bottom;
        let n = choose|m: Rect| #[trigger]
            members.contains(m) && !m.is_empty() && m.bottom() == b.bottom;
        assert(n.bottom() <= a.bottom && m.bottom() <= b.bottom);
    }
}

impl Rect {
    /// Whether every rectangle in `members` is empty.
    pub open spec fn all_empty(members: Set<Rect>) -> bool {
        forall|m: Rect| #[trigger] members.contains(m) ==> m.is_empty()
    }

    /// Whether this is the bounding rectangle of `members`: the box between
    /// the extremes of those that have an area. Empty rectangles count for
    /// nothing; where all are empty, the bounding rectangle is one of them.
    pub open spec fn is_bounding_of(self, members: Set<Rect>) -> bool {
        if Rect::all_empty(members) {
            members.contains(self)
        } else {
            exists|e: Extent| #[trigger] e.reached_by(members) && self == e.rect()
        }
    }

    /// Where one rectangle at least has an area, the bounding rectangle is
    /// determined.
    pub proof fn lemma_bounding_unique(a: Rect, b: Rect, members: Set<Rect>)
        requires
            a.is_bounding_of(members),
            b.is_bounding_of(members),
            !Rect::all_empty(members),
        ensures
            a == b,
    {
        let ea = choose|e: Extent| #[trigger] e.reached_by(members) && a == e.rect();
        let eb = choose|e: Extent| #[trigger] e.reached_by(members) && b == e.rect();
        Extent::lemma_reached_once(ea, eb, members);
    }

    /// A bounding rectangle has an area as soon as one of the members has.
    pub proof fn lemma_bounding_has_area(r: Rect, members: Set<Rect>)
        requires
            r.is_bounding_of(members),
        ensures
            r.is_empty() <==> Rect::all_empty(members),
    {
        if !Rect::all_empty(members) {
            let e = choose|e: Extent| #[trigger] e.reached_by(members) && r == e.rect();
            let m = choose|m: Rect| #[trigger]
                members.contains(m) && !m.is_empty() && m.x == e.left;
            assert(e.left < m.right() <= e.right);
            assert(e.top < m.bottom() <= e.bottom);
        }
    }

    /// A bounding rectangle absorbs every member.
    pub proof fn lemma_bounding_absorbs(r: Rect, members: Set<Rect>, m: Rect)
        requires
            r.is_bounding_of(members),
            members.contains(m),
        ensures
            r.absorbs(m),
    {
        if !m.is_empty() {
            let e = choose|e: Extent| #[trigger] e.reached_by(members) && r == e.rect();
            assert(members.contains(m) && !m.is_empty());
            Rect::lemma_bounding_has_area(r, members);
        }
    }

    /// Uniting one more rectangle into the bounding rectangle of a set gives
    /// the bounding rectangle of the larger set.
    pub proof fn lemma_bounding_step(r: Rect, members: Set<Rect>, next: Rect)
        requires
            r.is_bounding_of(members),
        ensures
            r.union_bounding(next).is_bounding_of(members.insert(next)),
    {
        let more = members.insert(next);
        let joined = r.union_bounding(next);
        Rect::lemma_bounding_has_area(r, members);
        if Rect::all_empty(members) {
            if next.is_empty() {
                assert(Rect::all_empty(more));
                assert(more.contains(joined));
            } else {
                let e = Extent::of(next);
                assert(more.contains(next) && !next.is_empty());
                assert(e.reached_by(more));
                assert(joined == e.rect());
            }
        } else {
            let e = choose|e: Extent| #[trigger] e.reached_by(members) && r == e.rect();
            let ml = choose|m: Rect| #[trigger]
                members.contains(m) && !m.is_empty() && m.x == e.left;
            let mt = choose|m: Rect| #[trigger]
                members.contains(m) && !m.is_empty() && m.y == e.top;
            let mr = choose|m: Rect| #[trigger]
                members.contains(m) && !m.is_empty() && m.right() == e.right;
            let mb = choose|m: Rect| #[trigger]
                members.contains(m) && !m.is_empty() && m.bottom() == e.bottom;
            assert(more.contains(ml) && more.contains(mt));
            assert(more.contains(mr) && more.contains(mb));
            assert(!Rect::all_empty(more));
            if next.is_empty() {
                assert(e.reached_by(more));
                assert(joined == e.rect());
            } else {
                let e2 = e.join(Extent::of(next));
                assert(more.contains(next) && !next.is_empty());
                assert(e2.reached_by(more));
                assert(joined == e2.rect());
            }
        }
    }

    /// A set of one rectangle has that rectangle as its bounding rectangle.
    pub proof fn lemma_bounding_single(r: Rect)
        ensures
            r.is_bounding_of(set![r]),
    {
        if !r.is_empty() {
            let e = Extent::of(r);
            assert(set![r].contains(r) && !r.is_empty());
            assert(e.reached_by(set![r]));
            assert(r == e.rect());
        }
    }
}

/// Converts a length to `usize`, clamped to the range that a `usize` holds.
pub fn clamp_to_usize(len: i128) -> (r: usize)
    ensures
        r == min_int(max_int(0, len as int), usize::MAX as int),
{
    if len <= 0 {
        0
    } else if len > usize::MAX as i128 {
        usize::MAX
    } else {
        len as usize
    }
}

} // verus!
