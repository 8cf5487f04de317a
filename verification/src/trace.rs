//! The record of where components drew on the virtual canvas.

use crate::rect::{Extent, Rect};
use std::collections::HashMap;
use std::fmt::Debug;
use std::hash::Hash;
use vstd::pervasive::strictly_cloned;
use vstd::prelude::*;
use vstd::std_specs::hash::{obeys_key_model, spec_hash_map_iter};
use vstd::std_specs::iter::IteratorSpec;

verus! {

/// What a trace has recorded, as a value: the bounding box and, for each
/// component, the rectangle that the component drew within.
#[verifier::reject_recursive_types(Id)]
pub struct TraceView<Id> {
    pub rect: Rect,
    pub components: Map<Id, Rect>,
}

impl<Id> TraceView<Id> {
    /// The trace that has recorded nothing.
    pub open spec fn empty() -> TraceView<Id> {
        TraceView { rect: Rect::zero(), components: Map::empty() }
    }

    /// The trace after `rect` was drawn to directly.
    pub open spec fn with_rect(self, rect: Rect) -> TraceView<Id> {
        TraceView { rect: self.rect.union_bounding(rect), components: self.components }
    }

    /// The trace after `other` was merged into it: the bounding box includes
    /// that of `other`, and every entry of `other` is taken over, replacing
    /// an entry for the same component.
    pub open spec fn merged(self, other: TraceView<Id>) -> TraceView<Id> {
        TraceView {
            rect: self.rect.union_bounding(other.rect),
            components: self.components.union_prefer_right(other.components),
        }
    }

    /// The trace of a component after its drawing ended with `rect` as the
    /// component's own rectangle: `rect` is the bounding box, and is
    /// recorded for `id`.
    pub open spec fn closed(self, id: Id, rect: Rect) -> TraceView<Id> {
        TraceView { rect, components: self.components.insert(id, rect) }
    }

    /// Every rectangle that the trace holds: its bounding box and the
    /// rectangle of each component.
    pub open spec fn members(self) -> Set<Rect> {
        self.components.values().insert(self.rect)
    }

    /// Whether the bounding box is at least as big as the rectangles of all
    /// recorded components.
    pub open spec fn wf(self) -> bool {
        forall|id: Id| #[trigger]
            self.components.contains_key(id) ==> self.rect.absorbs(self.components[id])
    }

    /// Drawing to a rectangle directly keeps the bounding box as big as the
    /// recorded components need it.
    pub proof fn lemma_with_rect_wf(self, rect: Rect)
        requires
            self.wf(),
        ensures
            self.with_rect(rect).wf(),
    {
        assert forall|id: Id| #[trigger] self.components.contains_key(id) implies self.with_rect(
            rect,
        ).rect.absorbs(self.components[id]) by {
            Rect::lemma_absorbs_grows(self.rect, rect, self.components[id]);
        }
    }

    /// Merging a trace into another keeps the bounding box as big as the
    /// recorded components of both need it.
    pub proof fn lemma_merged_wf(self, other: TraceView<Id>)
        requires
            self.wf(),
            other.wf(),
        ensures
            self.merged(other).wf(),
    {
        let merged = self.merged(other);
        assert forall|id: Id| #[trigger]
            merged.components.contains_key(id) implies merged.rect.absorbs(
            merged.components[id],
        ) by {
            Rect::lemma_absorbs_grows(self.rect, other.rect, merged.components[id]);
        }
    }

    /// A component that draws nothing itself, and has two children of which
    /// one at least drew to a rectangle with an area, is as large as the two
    /// children together: its rectangle is the bounding union of theirs.
    pub proof fn lemma_parent_of_two(first: TraceView<Id>, second: TraceView<Id>, rect: Rect)
        requires
            first.wf(),
            second.wf(),
            !(first.rect.is_empty() && second.rect.is_empty()),
            rect.is_bounding_of(TraceView::<Id>::empty().merged(first).merged(second).members()),
        ensures
            rect == first.rect.union_bounding(second.rect),
    {
        let parent = TraceView::<Id>::empty().merged(first);
        TraceView::<Id>::empty().lemma_merged_wf(first);
        parent.lemma_merged_wf(second);
        parent.merged(second).lemma_wf_bounding(rect);
    }

    /// The trace of a component `id` that drew to `rect` and has no
    /// component within it, when its drawing has ended.
    pub open spec fn leaf(id: Id, rect: Rect) -> TraceView<Id> {
        TraceView::<Id>::empty().with_rect(rect).closed(id, rect)
    }

    /// A component `parent` that draws nothing itself, and has two children
    /// `first` and `second` that drew to rectangles with an area and hold no
    /// component themselves, records three entries: each child with its
    /// rectangle, and itself with the bounding union of the two.
    pub proof fn lemma_parent_of_two_entries(
        parent: Id,
        first: Id,
        first_rect: Rect,
        second: Id,
        second_rect: Rect,
        rect: Rect,
    )
        requires
            parent != first,
            parent != second,
            first != second,
            !first_rect.is_empty(),
            !second_rect.is_empty(),
            rect.is_bounding_of(
                TraceView::<Id>::empty().merged(Self::leaf(first, first_rect)).merged(
                    Self::leaf(second, second_rect),
                ).members(),
            ),
        ensures
            rect == first_rect.union_bounding(second_rect),
            TraceView::<Id>::empty().merged(Self::leaf(first, first_rect)).merged(
                Self::leaf(second, second_rect),
            ).closed(parent, rect).components == map![
                first => first_rect,
                second => second_rect,
                parent => first_rect.union_bounding(second_rect),
            ],
            map![
                first => first_rect,
                second => second_rect,
                parent => first_rect.union_bounding(second_rect),
            ].dom() == set![first, second, parent],
            set![first, second, parent].len() == 3,
    {
        let one = Self::leaf(first, first_rect);
        let two = Self::leaf(second, second_rect);
        assert(one.wf() && two.wf());
        TraceView::lemma_parent_of_two(one, two, rect);
        let entries = TraceView::<Id>::empty().merged(one).merged(two).closed(
            parent,
            rect,
        ).components;
        let expected = map![
            first => first_rect,
            second => second_rect,
            parent => first_rect.union_bounding(second_rect),
        ];
        assert(entries =~= expected);
        assert(expected.dom() =~= set![first, second, parent]);
    }

    /// What the bounding box of a component's trace covers, the component's
    /// own rectangle covers: what a component drew to is part of its
    /// rectangle, whether it was visible or not.
    pub proof fn lemma_own_rect_covers(self, drawn: Rect, own: Rect)
        requires
            self.rect.absorbs(drawn),
            own.is_bounding_of(self.members()),
        ensures
            own.absorbs(drawn),
    {
        if !drawn.is_empty() {
            Rect::lemma_bounding_absorbs(own, self.members(), self.rect);
            Rect::lemma_absorbs_transitive(own, self.rect, drawn);
        }
    }

    /// A bounding box that has an area, and covers the recorded components,
    /// is the bounding rectangle of all that the trace holds.
    pub proof fn lemma_wf_bounding(self, rect: Rect)
        requires
            self.wf(),
            rect.is_bounding_of(self.members()),
            !self.rect.is_empty(),
        ensures
            rect == self.rect,
    {
        let members = self.members();
        assert(members.contains(self.rect));
        let e = choose|e: Extent| #[trigger] e.reached_by(members) && rect == e.rect();
        assert forall|m: Rect| #[trigger] members.contains(m) implies self.rect.absorbs(m) by {
            if m != self.rect {
                let id = choose|id: Id| #[trigger]
                    self.components.contains_key(id) && self.components[id] == m;
                assert(self.components.contains_key(id));
            }
        }
        // The bounding box absorbs the members that reach the extremes, so
        // the extremes are its own.
        let ml = choose|m: Rect| #[trigger] members.contains(m) && !m.is_empty() && m.x == e.left;
        let mt = choose|m: Rect| #[trigger] members.contains(m) && !m.is_empty() && m.y == e.top;
        let mr = choose|m: Rect| #[trigger]
            members.contains(m) && !m.is_empty() && m.right() == e.right;
        let mb = choose|m: Rect| #[trigger]
            members.contains(m) && !m.is_empty() && m.bottom() == e.bottom;
        assert(self.rect.absorbs(ml) && self.rect.absorbs(mt));
        assert(self.rect.absorbs(mr) && self.rect.absorbs(mb));
    }
}

/// Recording of where the component with a certain ID drew on the virtual
/// canvas.
#[derive(Debug)]
pub struct DrawTrace<ComponentId> {
    /// The bounding box of all cells where the component drew.
    ///
    /// This `Rect` is at least as big as the bounding box containing all child
    /// component `Rect`s, and could be bigger if the component drew somewhere
    /// to the screen where no child component drew.
    pub rect: Rect,
    /// The bounding boxes of where each child component drew.
    pub components: HashMap<ComponentId, Rect>,
}

impl<ComponentId> View for DrawTrace<ComponentId> {
    type V = TraceView<ComponentId>;

    open spec fn view(&self) -> TraceView<ComponentId> {
        TraceView { rect: self.rect, components: self.components@ }
    }
}

impl<ComponentId> Default for DrawTrace<ComponentId> {
    fn default() -> (trace: Self)
        ensures
            trace@ == TraceView::<ComponentId>::empty(),
    {
        DrawTrace { rect: Rect::default(), components: HashMap::new() }
    }
}

impl<ComponentId: Clone + Debug + Eq + Hash> DrawTrace<ComponentId> {
    /// Whether identifiers behave as keys must: equal identifiers hash
    /// alike, `==` holds between identical identifiers only, and the clone
    /// of an identifier is identical to it.
    pub open spec fn valid_ids() -> bool {
        &&& obeys_key_model::<ComponentId>()
        &&& forall|id: ComponentId, copy: ComponentId| #[trigger]
            strictly_cloned(id, copy) ==> id == copy
    }

    /// Update the bounding box of this trace to include `other_rect`.
    pub fn merge_rect(&mut self, other_rect: Rect)
        ensures
            final(self)@ == old(self)@.with_rect(other_rect),
            old(self)@.wf() ==> final(self)@.wf(),
    {
        self.rect = self.rect.union_bounding(other_rect);
        proof {
            if old(self)@.wf() {
                old(self)@.lemma_with_rect_wf(other_rect);
            }
        }
    }

    /// Update the bounding box of this trace to include `other.rect` and copy
    /// all child component `Rect`s.
    pub fn merge(&mut self, other: Self)
        requires
            Self::valid_ids(),
        ensures
            final(self)@ == old(self)@.merged(other@),
            old(self)@.wf() && other@.wf() ==> final(self)@.wf(),
    {
        self.rect = self.rect.union_bounding(other.rect);
        let ghost mut copied: Set<ComponentId> = Set::empty();
        for entry in it: other.components.iter()
            invariant
                Self::valid_ids(),
                it.seq() == spec_hash_map_iter(&other.components).remaining(),
                self.rect == old(self).rect.union_bounding(other.rect),
                forall|j: int| 0 <= j < it.index() ==> copied.contains(*(#[trigger] it.seq()[j]).0),
                forall|id: ComponentId| #[trigger]
                    copied.contains(id) ==> other.components@.contains_key(id),
                self.components@ == old(self).components@.union_prefer_right(
                    other.components@.restrict(copied),
                ),
        {
            let (id, rect) = entry;
            let id = id.clone();
            proof {
                assert(strictly_cloned(*entry.0, id));
                copied = copied.insert(id);
            }
            self.components.insert(id, *rect);
            assert(self.components@ =~= old(self).components@.union_prefer_right(
                other.components@.restrict(copied),
            ));
        }
        proof {
            assert(other.components@.restrict(copied) =~= other.components@);
            if old(self)@.wf() && other@.wf() {
                old(self)@.lemma_merged_wf(other@);
            }
        }
    }

    /// The bounding rectangle of all that the trace holds: of its bounding
    /// box and of the rectangles of the recorded components. Where none of
    /// them has an area, the result is one of them.
    pub fn bounding_rect(&self) -> (rect: Rect)
        requires
            Self::valid_ids(),
        ensures
            rect.is_bounding_of(self@.members()),
            self@.wf() && !self.rect.is_empty() ==> rect == self.rect,
    {
        let mut acc = self.rect;
        let ghost mut seen: Set<Rect> = set![self.rect];
        proof {
            Rect::lemma_bounding_single(self.rect);
        }
        for elem in it: self.components.values()
            invariant
                acc.is_bounding_of(seen),
                seen.contains(self.rect),
                forall|j: int| 0 <= j < it.index() ==> seen.contains(*(#[trigger] it.seq()[j])),
                forall|r: Rect| #[trigger]
                    seen.contains(r) ==> r == self.rect || self.components@.values().contains(r),
        {
            proof {
                Rect::lemma_bounding_step(acc, seen, *elem);
                seen = seen.insert(*elem);
            }
            acc = acc.union_bounding(*elem);
        }
        proof {
            assert(seen =~= self@.members());
            if self@.wf() && !self.rect.is_empty() {
                self@.lemma_wf_bounding(acc);
            }
        }
        acc
    }

    /// Ends the drawing of the component `id`, whose trace this is: the
    /// component's own rectangle is the bounding rectangle of all that the
    /// trace holds. It becomes the bounding box and is recorded for `id`,
    /// replacing what a child may have recorded for the same identifier.
    pub fn close(&mut self, id: ComponentId) -> (rect: Rect)
        requires
            Self::valid_ids(),
        ensures
            rect.is_bounding_of(old(self)@.members()),
            old(self)@.wf() && !old(self).rect.is_empty() ==> rect == old(self).rect,
            final(self)@ == old(self)@.closed(id, rect),
            final(self)@.wf(),
    {
        let trace_rect = self.bounding_rect();
        self.rect = trace_rect;
        self.components.insert(id, trace_rect);
        proof {
            assert forall|k: ComponentId| #[trigger]
                self.components@.contains_key(k) implies self.rect.absorbs(
                self.components@[k],
            ) by {
                if k != id {
                    Rect::lemma_bounding_absorbs(
                        trace_rect,
                        old(self)@.members(),
                        old(self).components@[k],
                    );
                }
            }
        }
        trace_rect
    }
}

/// Integers behave as identifiers must.
pub proof fn lemma_integers_are_valid_ids()
    ensures
        DrawTrace::<u8>::valid_ids(),
        DrawTrace::<u16>::valid_ids(),
        DrawTrace::<u32>::valid_ids(),
        DrawTrace::<u64>::valid_ids(),
        DrawTrace::<usize>::valid_ids(),
        DrawTrace::<i8>::valid_ids(),
        DrawTrace::<i16>::valid_ids(),
        DrawTrace::<i32>::valid_ids(),
        DrawTrace::<i64>::valid_ids(),
        DrawTrace::<isize>::valid_ids(),
{
}

} // verus!
