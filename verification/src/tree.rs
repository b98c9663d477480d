//! The panes of the editor, in the order in which they are laid out.
//!
//! The tree keeps the panes as a sequence. A pane is attached behind the
//! focused one and remembers on which side. Every pane is given the tree's
//! whole area: how panes share the screen is left to whoever draws them.

use crate::graphics::Rect;
use crate::pane::{Layout, Pane, PaneModel, ViewId};
use vstd::prelude::*;

verus! {

/// A direction in which the focus can move.
#[derive(Clone, Copy, Debug, PartialEq, Eq, Structural, Hash)]
pub enum Direction {
    Up,
    Down,
    Left,
    Right,
}

/// The panes of the editor and the one that has the focus.
#[derive(Debug)]
pub struct Tree {
    focus: ViewId,
    area: Rect,
    panes: Vec<Pane>,
    next_view: usize,
}

/// The mathematical value of a `Tree`.
#[verifier::ext_equal]
pub struct TreeModel {
    pub panes: Seq<PaneModel>,
    pub focus: ViewId,
    pub area: Rect,
    /// The number of the next pane to be attached.
    pub next_view: usize,
}

/// The values of a sequence of panes.
pub open spec fn pane_models(panes: Seq<Pane>) -> Seq<PaneModel> {
    panes.map_values(|p: Pane| p@)
}

impl TreeModel {
    /// A tree without panes.
    pub open spec fn empty(area: Rect) -> TreeModel {
        TreeModel { panes: Seq::empty(), focus: ViewId(0), area, next_view: 1 }
    }

    /// The invariant of a tree: pane identifiers are positive, distinct and
    /// older than the next to be handed out, and the focus is on a pane
    /// whenever there is one.
    pub open spec fn wf(self) -> bool {
        &&& self.next_view >= 1
        &&& forall|i: int|
            0 <= i < self.panes.len() ==> 1 <= (#[trigger] self.panes[i]).id.0 < self.next_view
        &&& forall|i: int, j: int|
            0 <= i < j < self.panes.len() ==> (#[trigger] self.panes[i]).id != (
            #[trigger] self.panes[j]).id
        &&& self.panes.len() > 0 ==> self.contains(self.focus)
        &&& self.panes.len() == 0 ==> self.focus == ViewId(0)
    }

    pub open spec fn is_empty(self) -> bool {
        self.panes.len() == 0
    }

    /// True if another pane can be attached without running out of identifiers.
    pub open spec fn can_mint(self) -> bool {
        self.next_view < usize::MAX
    }

    pub open spec fn contains(self, id: ViewId) -> bool {
        exists|i: int| 0 <= i < self.panes.len() && (#[trigger] self.panes[i]).id == id
    }

    /// The place of pane `id` in the sequence.
    pub open spec fn index_of(self, id: ViewId) -> int
        recommends
            self.contains(id),
    {
        choose|i: int| 0 <= i < self.panes.len() && (#[trigger] self.panes[i]).id == id
    }

    pub open spec fn get(self, id: ViewId) -> PaneModel
        recommends
            self.contains(id),
    {
        self.panes[self.index_of(id)]
    }

    /// The pane that has the focus.
    pub open spec fn focused(self) -> PaneModel
        recommends
            !self.is_empty(),
    {
        self.get(self.focus)
    }

    /// The tree with the pane at `index` replaced.
    pub open spec fn with_pane(self, index: int, pane: PaneModel) -> TreeModel {
        TreeModel { panes: self.panes.update(index, pane), ..self }
    }

    /// The tree after `pane` was attached behind the focused pane, on the
    /// side that `layout` names. The new pane gets the next identifier, the
    /// tree's area, and the focus.
    pub open spec fn attach(self, pane: PaneModel, layout: Layout) -> TreeModel {
        let id = ViewId(self.next_view);
        let placed = PaneModel { id, area: self.area, layout, ..pane };
        let at = if self.is_empty() { 0 } else { self.index_of(self.focus) + 1 };
        TreeModel {
            panes: self.panes.insert(at, placed),
            focus: id,
            next_view: (self.next_view + 1) as usize,
            ..self
        }
    }

    /// The tree with the focus on the pane behind the focused one, or on the
    /// first pane if the last one had it.
    pub open spec fn focus_next(self) -> TreeModel {
        if self.is_empty() {
            self
        } else {
            let i = self.index_of(self.focus);
            let next = if i + 1 == self.panes.len() { 0 } else { i + 1 };
            TreeModel { focus: self.panes[next].id, ..self }
        }
    }

    /// The tree with the focus moved one pane in `direction`, if a pane is
    /// attached on that side of the focused one.
    pub open spec fn focus_direction(self, direction: Direction) -> TreeModel {
        if self.is_empty() {
            self
        } else {
            let i = self.index_of(self.focus);
            let forward = direction == Direction::Right || direction == Direction::Down;
            let wanted = if direction == Direction::Right || direction == Direction::Left {
                Layout::Vertical
            } else {
                Layout::Horizontal
            };
            if forward && i + 1 < self.panes.len() && self.panes[i + 1].layout == wanted {
                TreeModel { focus: self.panes[i + 1].id, ..self }
            } else if !forward && i >= 1 && self.panes[i].layout == wanted {
                TreeModel { focus: self.panes[i - 1].id, ..self }
            } else {
                self
            }
        }
    }

    /// The tree without pane `id`. If that pane had the focus, the focus
    /// first moves on to the next pane.
    pub open spec fn remove(self, id: ViewId) -> TreeModel {
        if !self.contains(id) {
            self
        } else {
            let moved = if self.focus == id { self.focus_next() } else { self };
            let panes = self.panes.remove(self.index_of(id));
            TreeModel {
                panes,
                focus: if panes.len() == 0 { ViewId(0) } else { moved.focus },
                ..self
            }
        }
    }

    /// The tree in a new area, which every pane is given.
    pub open spec fn resize(self, area: Rect) -> TreeModel {
        if area == self.area {
            self
        } else {
            TreeModel {
                panes: Seq::new(self.panes.len(), |i: int| PaneModel { area, ..self.panes[i] }),
                area,
                ..self
            }
        }
    }

    /// In a well-formed tree a pane is found at one place only.
    pub proof fn lemma_index_of(self, id: ViewId, i: int)
        requires
            self.wf(),
            0 <= i < self.panes.len(),
            self.panes[i].id == id,
        ensures
            self.contains(id),
            self.index_of(id) == i,
            self.get(id) == self.panes[i],
    {
        let j = self.index_of(id);
        assert(0 <= j < self.panes.len() && self.panes[j].id == id);
        if i < j {
            assert(self.panes[i].id != self.panes[j].id);
        } else if j < i {
            assert(self.panes[j].id != self.panes[i].id);
        }
    }

    /// Attaching a pane keeps the tree well-formed.
    pub proof fn lemma_attach_wf(self, pane: PaneModel, layout: Layout)
        requires
            self.wf(),
            self.can_mint(),
        ensures
            self.attach(pane, layout).wf(),
            self.attach(pane, layout).contains(ViewId(self.next_view)),
            !self.contains(ViewId(self.next_view)),
            forall|id: ViewId| self.contains(id) ==> self.attach(pane, layout).contains(id),
    {
        let t = self.attach(pane, layout);
        let at = if self.is_empty() { 0 } else { self.index_of(self.focus) + 1 };
        assert(0 <= at <= self.panes.len());
        assert(t.panes[at].id == ViewId(self.next_view));
        assert forall|i: int| 0 <= i < t.panes.len() implies 1 <= (#[trigger] t.panes[i]).id.0
            < t.next_view by {
            if i < at {
                assert(t.panes[i] == self.panes[i]);
            } else if i > at {
                assert(t.panes[i] == self.panes[i - 1]);
            }
        }
        assert forall|i: int, j: int| 0 <= i < j < t.panes.len() implies (#[trigger] t.panes[i]).id
            != (#[trigger] t.panes[j]).id by {
            let a = if i < at { i } else { i - 1 };
            let b = if j < at { j } else { j - 1 };
            if i != at {
                assert(t.panes[i] == self.panes[a]);
            }
            if j != at {
                assert(t.panes[j] == self.panes[b]);
            }
        }
        assert forall|id: ViewId| self.contains(id) implies t.contains(id) by {
            let i = self.index_of(id);
            let k = if i < at { i } else { i + 1 };
            assert(t.panes[k] == self.panes[i]);
        }
        if self.contains(ViewId(self.next_view)) {
            let i = self.index_of(ViewId(self.next_view));
            assert(self.panes[i].id.0 < self.next_view);
        }
    }

    /// Removing a pane keeps the tree well-formed, and keeps every other pane.
    pub proof fn lemma_remove_wf(self, id: ViewId)
        requires
            self.wf(),
        ensures
            self.remove(id).wf(),
            !self.remove(id).contains(id),
            forall|other: ViewId|
                other != id ==> (self.remove(id).contains(other) <==> self.contains(other)),
            forall|other: ViewId|
                other != id && self.contains(other) ==> self.remove(id).get(other) == self.get(
                    other,
                ),
    {
        let t = self.remove(id);
        if self.contains(id) {
            let at = self.index_of(id);
            assert forall|i: int| 0 <= i < t.panes.len() implies #[trigger] t.panes[i] == self.panes[if i
                < at { i } else { i + 1 }] by {}
            assert forall|i: int| 0 <= i < t.panes.len() implies 1 <= (#[trigger] t.panes[i]).id.0
                < t.next_view by {
                assert(t.panes[i] == self.panes[if i < at { i } else { i + 1 }]);
            }
            assert forall|i: int, j: int| 0 <= i < j < t.panes.len() implies (
            #[trigger] t.panes[i]).id != (#[trigger] t.panes[j]).id by {
                assert(t.panes[i] == self.panes[if i < at { i } else { i + 1 }]);
                assert(t.panes[j] == self.panes[if j < at { j } else { j + 1 }]);
            }
            assert forall|other: ViewId| other != id && self.contains(other) implies t.contains(
                other,
            ) && t.get(other) == self.get(other) by {
                let i = self.index_of(other);
                let k = if i < at { i } else { i - 1 };
                assert(t.panes[k] == self.panes[i]);
                t.lemma_index_of_distinct(other, k);
            }
            assert forall|other: ViewId| t.contains(other) implies self.contains(other) && other
                != id by {
                let k = t.index_of(other);
                let i = if k < at { k } else { k + 1 };
                assert(t.panes[k] == self.panes[i]);
                if other == id {
                    self.lemma_index_of(id, i);
                }
            }
            if t.panes.len() > 0 {
                let moved = if self.focus == id { self.focus_next() } else { self };
                if self.focus == id {
                    let next = if at + 1 == self.panes.len() { 0 } else { at + 1 };
                    assert(self.panes[next].id != self.panes[at].id);
                    assert(self.contains(self.panes[next].id));
                } else {
                    assert(self.contains(moved.focus));
                }
                assert(t.contains(moved.focus));
            }
        }
    }

    /// A pane found at `i` in a sequence of distinct panes is the pane that
    /// `get` names.
    pub proof fn lemma_index_of_distinct(self, id: ViewId, i: int)
        requires
            forall|a: int, b: int|
                0 <= a < b < self.panes.len() ==> (#[trigger] self.panes[a]).id != (
                #[trigger] self.panes[b]).id,
            0 <= i < self.panes.len(),
            self.panes[i].id == id,
        ensures
            self.contains(id),
            self.index_of(id) == i,
            self.get(id) == self.panes[i],
    {
        let j = self.index_of(id);
        assert(0 <= j < self.panes.len() && self.panes[j].id == id);
        if i < j {
            assert(self.panes[i].id != self.panes[j].id);
        } else if j < i {
            assert(self.panes[j].id != self.panes[i].id);
        }
    }
}

impl View for Tree {
    type V = TreeModel;

    closed spec fn view(&self) -> TreeModel {
        TreeModel {
            panes: pane_models(self.panes@),
            focus: self.focus,
            area: self.area,
            next_view: self.next_view,
        }
    }
}

impl Tree {
    /// A tree without panes that fills `area`.
    pub fn new(area: Rect) -> (tree: Tree)
        ensures
            tree@ == TreeModel::empty(area),
            tree@.wf(),
    {
        let tree = Tree { focus: ViewId(0), area, panes: Vec::new(), next_view: 1 };
        assert(tree@.panes =~= Seq::empty());
        tree
    }

    /// The pane that has the focus, or `ViewId(0)` in a tree without panes.
    pub fn focus(&self) -> (id: ViewId)
        ensures
            id == self@.focus,
    {
        self.focus
    }

    /// The area that the tree fills.
    pub fn area(&self) -> (area: Rect)
        ensures
            area == self@.area,
    {
        self.area
    }

    /// The number of panes.
    pub fn len(&self) -> (n: usize)
        ensures
            n == self@.panes.len(),
    {
        self.panes.len()
    }

    /// True if the tree has no pane.
    pub fn is_empty(&self) -> (b: bool)
        ensures
            b == self@.is_empty(),
    {
        self.panes.len() == 0
    }

    /// The panes in their order.
    pub fn views(&self) -> (panes: &Vec<Pane>)
        ensures
            pane_models(panes@) == self@.panes,
    {
        &self.panes
    }

    /// The panes in the order in which they are laid out.
    pub fn traverse(&self) -> (panes: &Vec<Pane>)
        ensures
            pane_models(panes@) == self@.panes,
    {
        &self.panes
    }

    /// The place of pane `id`, if the tree holds it.
    pub fn index_of(&self, id: ViewId) -> (r: Option<usize>)
        ensures
            match r {
                Some(i) => i < self@.panes.len() && self@.panes[i as int].id == id && (self@.wf()
                    ==> self@.index_of(id) == i),
                None => !self@.contains(id),
            },
            r is Some <==> self@.contains(id),
    {
        let mut i: usize = 0;
        while i < self.panes.len()
            invariant
                i <= self.panes.len(),
                forall|j: int| 0 <= j < i ==> (#[trigger] self@.panes[j]).id != id,
            decreases self.panes.len() - i,
        {
            if self.panes[i].id == id {
                proof {
                    if self@.wf() {
                        self@.lemma_index_of(id, i as int);
                    }
                }
                return Some(i);
            }
            i += 1;
        }
        None
    }

    /// True if the tree holds pane `id`.
    pub fn contains(&self, id: ViewId) -> (b: bool)
        ensures
            b == self@.contains(id),
    {
        self.index_of(id).is_some()
    }

    /// The pane at place `index`.
    pub fn pane(&self, index: usize) -> (pane: &Pane)
        requires
            index < self@.panes.len(),
        ensures
            pane@ == self@.panes[index as int],
    {
        &self.panes[index]
    }

    /// The pane at place `index`, to be changed.
    pub fn pane_mut(&mut self, index: usize) -> (pane: &mut Pane)
        requires
            index < old(self)@.panes.len(),
        ensures
            pane@ == old(self)@.panes[index as int],
            final(self)@ == old(self)@.with_pane(index as int, final(pane)@),
    {
        &mut self.panes[index]
    }

    /// Pane `id`.
    pub fn get(&self, id: ViewId) -> (pane: &Pane)
        requires
            self@.wf(),
            self@.contains(id),
        ensures
            pane@ == self@.get(id),
    {
        let i = self.index_of(id).unwrap();
        &self.panes[i]
    }

    /// Pane `id`, to be changed.
    pub fn get_mut(&mut self, id: ViewId) -> (pane: &mut Pane)
        requires
            old(self)@.wf(),
            old(self)@.contains(id),
        ensures
            pane@ == old(self)@.get(id),
            final(self)@ == old(self)@.with_pane(old(self)@.index_of(id), final(pane)@),
    {
        let i = self.index_of(id).unwrap();
        &mut self.panes[i]
    }

    /// Attaches `pane` to the right of the focused pane and gives it the focus.
    pub fn insert(&mut self, pane: Pane) -> (id: ViewId)
        requires
            old(self)@.wf(),
            old(self)@.can_mint(),
        ensures
            final(self)@ == old(self)@.attach(pane@, Layout::Vertical),
            final(self)@.wf(),
            id == ViewId(old(self)@.next_view),
    {
        self.split(pane, Layout::Vertical)
    }

    /// Attaches `pane` behind the focused pane, on the side that `layout`
    /// names, and gives it the focus.
    pub fn split(&mut self, pane: Pane, layout: Layout) -> (id: ViewId)
        requires
            old(self)@.wf(),
            old(self)@.can_mint(),
        ensures
            final(self)@ == old(self)@.attach(pane@, layout),
            final(self)@.wf(),
            id == ViewId(old(self)@.next_view),
    {
        let id = ViewId(self.next_view);
        let at: usize = if self.panes.len() == 0 {
            0
        } else {
            self.index_of(self.focus).unwrap() + 1
        };
        let mut pane = pane;
        let ghost given = pane@;
        pane.id = id;
        pane.area = self.area;
        pane.layout = layout;
        self.panes.insert(at, pane);
        self.focus = id;
        self.next_view = self.next_view + 1;
        proof {
            old(self)@.lemma_attach_wf(given, layout);
            assert(self@.panes =~= old(self)@.attach(given, layout).panes);
        }
        id
    }

    /// Removes pane `id`, if the tree holds it. If it had the focus, the
    /// focus moves on to the next pane.
    pub fn remove(&mut self, id: ViewId)
        requires
            old(self)@.wf(),
        ensures
            final(self)@ == old(self)@.remove(id),
            final(self)@.wf(),
    {
        proof {
            old(self)@.lemma_remove_wf(id);
        }
        match self.index_of(id) {
            None => {},
            Some(i) => {
                let n = self.panes.len();
                if self.focus == id {
                    let next: usize = if i + 1 == n { 0 } else { i + 1 };
                    self.focus = self.panes[next].id;
                }
                let _ = self.panes.remove(i);
                if self.panes.len() == 0 {
                    self.focus = ViewId(0);
                }
                assert(self@.panes =~= old(self)@.remove(id).panes);
            },
        }
    }

    /// Moves the tree into `area` and tells whether that changed anything.
    pub fn resize(&mut self, area: Rect) -> (changed: bool)
        ensures
            final(self)@ == old(self)@.resize(area),
            changed == (area != old(self)@.area),
            old(self)@.wf() ==> final(self)@.wf(),
    {
        if self.area == area {
            return false;
        }
        self.area = area;
        let mut i: usize = 0;
        while i < self.panes.len()
            invariant
                i <= self.panes.len(),
                self.panes.len() == old(self).panes.len(),
                self.focus == old(self).focus,
                self.next_view == old(self).next_view,
                self.area == area,
                forall|j: int|
                    0 <= j < i ==> (#[trigger] self.panes[j])@ == (PaneModel {
                        area,
                        ..old(self).panes[j]@
                    }),
                forall|j: int| i <= j < self.panes.len() ==> self.panes[j] == old(self).panes[j],
            decreases self.panes.len() - i,
        {
            self.panes[i].area = area;
            i += 1;
        }
        proof {
            assert(self@.panes =~= old(self)@.resize(area).panes);
            if old(self)@.wf() {
                let t = self@;
                let o = old(self)@;
                assert forall|id: ViewId| o.contains(id) implies t.contains(id) by {
                    let k = o.index_of(id);
                    assert(t.panes[k].id == id);
                }
                assert forall|a: int, b: int| 0 <= a < b < t.panes.len() implies (
                #[trigger] t.panes[a]).id != (#[trigger] t.panes[b]).id by {
                    assert(o.panes[a].id != o.panes[b].id);
                }
                assert forall|a: int| 0 <= a < t.panes.len() implies 1 <= (
                #[trigger] t.panes[a]).id.0 < t.next_view by {
                    assert(1 <= o.panes[a].id.0 < o.next_view);
                }
            }
        }
        true
    }

    /// Moves the focus to the pane behind the focused one, or to the first
    /// pane if the last one had it.
    pub fn focus_next(&mut self)
        requires
            old(self)@.wf(),
        ensures
            final(self)@ == old(self)@.focus_next(),
            final(self)@.wf(),
    {
        if self.panes.len() > 0 {
            let i = self.index_of(self.focus).unwrap();
            let next: usize = if i + 1 == self.panes.len() { 0 } else { i + 1 };
            self.focus = self.panes[next].id;
            assert(self@.panes[next as int].id == self.focus);
        }
    }

    /// Moves the focus one pane in `direction`, if a pane is attached on
    /// that side of the focused one.
    pub fn focus_direction(&mut self, direction: Direction)
        requires
            old(self)@.wf(),
        ensures
            final(self)@ == old(self)@.focus_direction(direction),
            final(self)@.wf(),
    {
        if self.panes.len() > 0 {
            let i = self.index_of(self.focus).unwrap();
            let forward = direction == Direction::Right || direction == Direction::Down;
            let wanted = if direction == Direction::Right || direction == Direction::Left {
                Layout::Vertical
            } else {
                Layout::Horizontal
            };
            if forward && i + 1 < self.panes.len() && self.panes[i + 1].layout == wanted {
                self.focus = self.panes[i + 1].id;
                assert(self@.panes[i + 1].id == self.focus);
            } else if !forward && i >= 1 && self.panes[i].layout == wanted {
                self.focus = self.panes[i - 1].id;
                assert(self@.panes[i - 1].id == self.focus);
            }
        }
    }

    /// True if another pane can be attached without running out of identifiers.
    pub fn can_mint(&self) -> (b: bool)
        ensures
            b == self@.can_mint(),
    {
        self.next_view < usize::MAX
    }

    /// True if the tree is well-formed.
    pub fn is_wf(&self) -> (b: bool)
        ensures
            b == self@.wf(),
    {
        if self.next_view < 1 {
            return false;
        }
        let n = self.panes.len();
        let mut i: usize = 0;
        while i < n
            invariant
                i <= n,
                n == self.panes.len(),
                self.next_view >= 1,
                forall|a: int|
                    0 <= a < i ==> 1 <= (#[trigger] self@.panes[a]).id.0 < self.next_view,
                forall|a: int, b: int|
                    0 <= a < i && a < b < n ==> (#[trigger] self@.panes[a]).id != (
                    #[trigger] self@.panes[b]).id,
            decreases n - i,
        {
            let id = self.panes[i].id;
            if id.0 < 1 || id.0 >= self.next_view {
                assert(!(1 <= self@.panes[i as int].id.0 < self@.next_view));
                return false;
            }
            let mut j: usize = i + 1;
            while j < n
                invariant
                    i < j <= n,
                    n == self.panes.len(),
                    id == self@.panes[i as int].id,
                    forall|b: int| i < b < j ==> (#[trigger] self@.panes[b]).id != id,
                decreases n - j,
            {
                if self.panes[j].id == id {
                    assert(self@.panes[i as int].id == self@.panes[j as int].id);
                    return false;
                }
                j += 1;
            }
            i += 1;
        }
        if n > 0 {
            self.index_of(self.focus).is_some()
        } else {
            self.focus == ViewId(0)
        }
    }
}

} // verus!
