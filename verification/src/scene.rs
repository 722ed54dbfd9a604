//! Objects shown on the canvas and in the sidebar (rectangles, sources and
//! probes), their running numbers, and the selection shared by both views.
use vstd::prelude::*;

verus! {

/// Every element of `ids` is smaller than the next one.
pub open spec fn strictly_increasing(ids: Seq<usize>) -> bool {
    forall|i: int, j: int| 0 <= i < j < ids.len() ==> ids[i] < ids[j]
}

/// Removing a number from an increasing list of numbers, all at least 1
/// and below `next`, leaves such a list.
proof fn lemma_remove_keeps_numbers(ids: Seq<usize>, index: int, next: int)
    requires
        0 <= index < ids.len(),
        strictly_increasing(ids),
        forall|i: int| 0 <= i < ids.len() ==> 1 <= #[trigger] ids[i] < next,
    ensures
        strictly_increasing(ids.remove(index)),
        forall|i: int| 0 <= i < ids.remove(index).len() ==> 1 <= #[trigger] ids.remove(index)[i] < next,
{
    let r = ids.remove(index);
    assert forall|i: int, j: int| 0 <= i < j < r.len() implies r[i] < r[j] by {
        let oi = if i < index { i } else { i + 1 };
        let oj = if j < index { j } else { j + 1 };
        assert(r[i] == ids[oi]);
        assert(r[j] == ids[oj]);
    }
    assert forall|i: int| 0 <= i < r.len() implies 1 <= #[trigger] r[i] < next by {
        let oi = if i < index { i } else { i + 1 };
        assert(r[i] == ids[oi]);
    }
}

/// A list of objects together with the running numbers shown for them.
/// Numbers are handed out from `next_id` on and never reused.
pub struct ObjectList<T> {
    items: Vec<T>,
    ids: Vec<usize>,
    next_id: usize,
}

impl<T> ObjectList<T> {
    /// The numbers are increasing along the list (so no number occurs twice),
    /// at least 1, and all below the next number to be handed out; there is a
    /// number for every object.
    #[verifier::type_invariant]
    spec fn wf(self) -> bool {
        &&& self.items.len() <= self.ids.len()
        &&& strictly_increasing(self.ids@)
        &&& forall|i: int| 0 <= i < self.ids@.len() ==> 1 <= #[trigger] self.ids@[i] < self.next_id
        &&& 1 <= self.next_id
    }

    pub closed spec fn spec_items(self) -> Seq<T> {
        self.items@
    }

    pub closed spec fn spec_ids(self) -> Seq<usize> {
        self.ids@
    }

    pub closed spec fn spec_next_id(self) -> nat {
        self.next_id as nat
    }

    /// The number shown for the object at `index`: its recorded number, or
    /// `index + 1` when none is recorded at that position.
    pub open spec fn spec_display_id(self, index: int) -> int {
        if 0 <= index < self.spec_ids().len() {
            self.spec_ids()[index] as int
        } else {
            index + 1
        }
    }

    /// Moves both vectors out, leaving the list empty but with its next
    /// number; the caller puts a list back.
    fn take_vecs(&mut self) -> (r: (Vec<T>, Vec<usize>))
        ensures
            r.0@ == old(self).items@,
            r.1@ == old(self).ids@,
            final(self).next_id == old(self).next_id,
    {
        proof {
            use_type_invariant(&*self);
        }
        let mut items: Vec<T> = Vec::new();
        std::mem::swap(&mut items, &mut self.items);
        let mut ids: Vec<usize> = Vec::new();
        std::mem::swap(&mut ids, &mut self.ids);
        (items, ids)
    }

    /// An empty list whose first object will be number 1.
    pub fn new() -> (r: ObjectList<T>)
        ensures
            r.spec_items().len() == 0,
            r.spec_ids().len() == 0,
            r.spec_next_id() == 1,
    {
        ObjectList { items: Vec::new(), ids: Vec::new(), next_id: 1 }
    }

    /// The objects of a freshly loaded project, numbered 1, 2, ... in order;
    /// the next object will be number `len + 1`.
    pub fn from_items(items: Vec<T>) -> (r: ObjectList<T>)
        requires
            items@.len() < usize::MAX,
        ensures
            r.spec_items() == items@,
            r.spec_ids().len() == items@.len(),
            forall|i: int| 0 <= i < items@.len() ==> #[trigger] r.spec_ids()[i] == i + 1,
            r.spec_next_id() == items@.len() + 1,
    {
        let n = items.len();
        let mut ids: Vec<usize> = Vec::new();
        let mut k: usize = 0;
        while k < n
            invariant
                k <= n,
                n < usize::MAX,
                ids@.len() == k,
                forall|i: int| 0 <= i < k ==> #[trigger] ids@[i] == i + 1,
            decreases n - k,
        {
            ids.push(k + 1);
            k = k + 1;
        }
        ObjectList { items, ids, next_id: n + 1 }
    }

    /// Number of objects.
    pub fn len(&self) -> (r: usize)
        ensures
            r == self.spec_items().len(),
    {
        self.items.len()
    }

    /// The objects, in order.
    pub fn items(&self) -> (r: &Vec<T>)
        ensures
            r@ == self.spec_items(),
    {
        &self.items
    }

    /// The recorded numbers, in order. They are increasing along the list
    /// (so no number occurs twice), at least 1, and all below the next number
    /// to be handed out; there is a number for every object.
    pub fn ids(&self) -> (r: &Vec<usize>)
        ensures
            r@ == self.spec_ids(),
            self.spec_items().len() <= r@.len(),
            strictly_increasing(r@),
            forall|i: int| 0 <= i < r@.len() ==> 1 <= #[trigger] r@[i] < self.spec_next_id(),
    {
        proof {
            use_type_invariant(self);
        }
        &self.ids
    }

    /// The number the next added object will get.
    pub fn next_id(&self) -> (r: usize)
        ensures
            r == self.spec_next_id(),
    {
        self.next_id
    }

    /// The number shown for the object at `index`.
    pub fn display_id(&self, index: usize) -> (r: usize)
        requires
            index < usize::MAX,
        ensures
            r == self.spec_display_id(index as int),
            index < self.spec_items().len() ==> r == self.spec_ids()[index as int],
    {
        proof {
            use_type_invariant(self);
        }
        if index < self.ids.len() {
            self.ids[index]
        } else {
            index + 1
        }
    }

    /// After the object at `index` is removed together with its number, every
    /// other object is shown with the number it had before: those in front
    /// keep their place, those behind move up by one.
    pub proof fn lemma_removal_keeps_numbers(before: ObjectList<T>, after: ObjectList<T>, index: int, j: int)
        requires
            0 <= index < before.spec_ids().len(),
            after.spec_ids() == before.spec_ids().remove(index),
            0 <= j < after.spec_ids().len(),
        ensures
            after.spec_display_id(j) == before.spec_display_id(if j < index { j } else { j + 1 }),
            after.spec_display_id(j) == before.spec_ids()[if j < index { j } else { j + 1 }],
    {
    }

    /// Adds an object at the end; it gets the next number, which is larger
    /// than every number in the list before.
    pub fn push(&mut self, item: T)
        requires
            old(self).spec_next_id() < usize::MAX,
        ensures
            forall|i: int|
                0 <= i < old(self).spec_ids().len() ==> #[trigger] old(self).spec_ids()[i]
                    < old(self).spec_next_id(),
            final(self).spec_items() == old(self).spec_items().push(item),
            final(self).spec_ids() == old(self).spec_ids().push(old(self).spec_next_id() as usize),
            final(self).spec_next_id() == old(self).spec_next_id() + 1,
    {
        proof {
            use_type_invariant(&*self);
        }
        let (mut items, mut ids) = self.take_vecs();
        let id = self.next_id;
        ids.push(id);
        items.push(item);
        *self = ObjectList { items, ids, next_id: id + 1 };
    }

    /// Removes the object at `index` together with its number, when there is
    /// such an object; tells whether it did.
    pub fn remove_at(&mut self, index: usize) -> (removed: bool)
        ensures
            removed == (index < old(self).spec_items().len()),
            removed ==> final(self).spec_items() == old(self).spec_items().remove(index as int),
            removed ==> final(self).spec_ids() == old(self).spec_ids().remove(index as int),
            !removed ==> *final(self) == *old(self),
            final(self).spec_next_id() == old(self).spec_next_id(),
    {
        proof {
            use_type_invariant(&*self);
        }
        if index < self.items.len() {
            proof {
                lemma_remove_keeps_numbers(self.ids@, index as int, self.next_id as int);
            }
            let (mut items, mut ids) = self.take_vecs();
            items.remove(index);
            ids.remove(index);
            *self = ObjectList { items, ids, next_id: self.next_id };
            true
        } else {
            false
        }
    }

    /// Removes the object at `index` but keeps the list of numbers as it is
    /// (what deleting from the canvas does); tells whether it removed one.
    pub fn remove_item_at(&mut self, index: usize) -> (removed: bool)
        ensures
            removed == (index < old(self).spec_items().len()),
            removed ==> final(self).spec_items() == old(self).spec_items().remove(index as int),
            !removed ==> *final(self) == *old(self),
            final(self).spec_ids() == old(self).spec_ids(),
            final(self).spec_next_id() == old(self).spec_next_id(),
    {
        proof {
            use_type_invariant(&*self);
        }
        if index < self.items.len() {
            let (mut items, ids) = self.take_vecs();
            items.remove(index);
            *self = ObjectList { items, ids, next_id: self.next_id };
            true
        } else {
            false
        }
    }
}

/// Which list of the sidebar an item belongs to.
#[derive(Clone, Copy, Debug, PartialEq, Eq, Structural)]
pub enum SidebarItemType {
    Rectangle,
    Source,
    Probe,
}

impl SidebarItemType {
    /// Name shown before the running number in the sidebar.
    pub fn label(self) -> (r: &'static str)
        ensures
            self == SidebarItemType::Rectangle ==> r@ == "Прямоугольник"@,
            self == SidebarItemType::Source ==> r@ == "Источник"@,
            self == SidebarItemType::Probe ==> r@ == "Датчик"@,
    {
        match self {
            SidebarItemType::Rectangle => "Прямоугольник",
            SidebarItemType::Source => "Источник",
            SidebarItemType::Probe => "Датчик",
        }
    }
}

/// The item selected in the sidebar or on the canvas.
#[derive(Clone, Copy, Debug, PartialEq, Eq, Structural)]
pub struct SidebarSelection {
    pub item_type: SidebarItemType,
    pub index: usize,
}

/// `i` is the first position of `s` that holds `true`.
pub open spec fn is_first_hit(s: Seq<bool>, i: int) -> bool {
    0 <= i < s.len() && s[i] && forall|j: int| 0 <= j < i ==> !s[j]
}

/// No position of `s` holds `true`.
pub open spec fn no_hit(s: Seq<bool>) -> bool {
    forall|j: int| 0 <= j < s.len() ==> !s[j]
}

/// The first position holding `true`, if any.
pub fn first_hit(s: &Vec<bool>) -> (r: Option<usize>)
    ensures
        r matches Some(i) ==> is_first_hit(s@, i as int),
        r is None ==> no_hit(s@),
{
    let n = s.len();
    for i in 0..n
        invariant
            n == s@.len(),
            forall|j: int| 0 <= j < i ==> !s@[j],
    {
        if s[i] {
            return Some(i);
        }
    }
    None
}

/// The selection after a click, given for each source, probe and rectangle
/// whether the click hit it: the first source hit, otherwise the first probe
/// hit, otherwise the first rectangle hit, otherwise nothing.
pub open spec fn click_selection(
    source_hits: Seq<bool>,
    probe_hits: Seq<bool>,
    rect_hits: Seq<bool>,
    sel: Option<SidebarSelection>,
) -> bool {
    match sel {
        Some(s) => match s.item_type {
            SidebarItemType::Source => is_first_hit(source_hits, s.index as int),
            SidebarItemType::Probe => no_hit(source_hits) && is_first_hit(probe_hits, s.index as int),
            SidebarItemType::Rectangle => no_hit(source_hits) && no_hit(probe_hits) && is_first_hit(
                rect_hits,
                s.index as int,
            ),
        },
        None => no_hit(source_hits) && no_hit(probe_hits) && no_hit(rect_hits),
    }
}

/// The rectangles, sources and probes of the workbench and the current
/// selection.
pub struct Scene<R, P> {
    pub rectangles: ObjectList<R>,
    pub sources: ObjectList<P>,
    pub probes: ObjectList<P>,
    pub selection: Option<SidebarSelection>,
}

impl<R, P> Scene<R, P> {
    /// No objects and no selection.
    pub fn new() -> (r: Scene<R, P>)
        ensures
            r.rectangles.spec_items().len() == 0 && r.rectangles.spec_ids().len() == 0
                && r.rectangles.spec_next_id() == 1,
            r.sources.spec_items().len() == 0 && r.sources.spec_ids().len() == 0
                && r.sources.spec_next_id() == 1,
            r.probes.spec_items().len() == 0 && r.probes.spec_ids().len() == 0
                && r.probes.spec_next_id() == 1,
            r.selection is None,
    {
        Scene {
            rectangles: ObjectList::new(),
            sources: ObjectList::new(),
            probes: ObjectList::new(),
            selection: None,
        }
    }

    /// Selects the item of the given list at `index`.
    pub fn select(&mut self, item_type: SidebarItemType, index: usize)
        ensures
            final(self).selection == Some(SidebarSelection { item_type, index }),
            final(self).rectangles == old(self).rectangles,
            final(self).sources == old(self).sources,
            final(self).probes == old(self).probes,
    {
        self.selection = Some(SidebarSelection { item_type, index });
    }

    /// The selected index in the given list, if the selection is in it.
    pub fn selected_index(&self, item_type: SidebarItemType) -> (r: Option<usize>)
        ensures
            r == match self.selection {
                Some(s) => if s.item_type == item_type {
                    Some(s.index)
                } else {
                    None
                },
                None => None,
            },
    {
        match self.selection {
            Some(s) => if s.item_type == item_type {
                Some(s.index)
            } else {
                None
            },
            None => None,
        }
    }

    /// Whether the item of the given list at `index` is selected.
    pub fn is_selected(&self, item_type: SidebarItemType, index: usize) -> (r: bool)
        ensures
            r == (self.selection == Some(SidebarSelection { item_type, index })),
    {
        match self.selection {
            Some(s) => s.item_type == item_type && s.index == index,
            None => false,
        }
    }

    /// Selects what a click hit: sources have priority over probes, and
    /// probes over rectangles; a click that hits nothing clears the selection.
    pub fn select_at(&mut self, source_hits: &Vec<bool>, probe_hits: &Vec<bool>, rect_hits: &Vec<bool>)
        ensures
            click_selection(source_hits@, probe_hits@, rect_hits@, final(self).selection),
            final(self).rectangles == old(self).rectangles,
            final(self).sources == old(self).sources,
            final(self).probes == old(self).probes,
    {
        if let Some(i) = first_hit(source_hits) {
            self.selection = Some(SidebarSelection { item_type: SidebarItemType::Source, index: i });
        } else if let Some(i) = first_hit(probe_hits) {
            self.selection = Some(SidebarSelection { item_type: SidebarItemType::Probe, index: i });
        } else if let Some(i) = first_hit(rect_hits) {
            self.selection = Some(
                SidebarSelection { item_type: SidebarItemType::Rectangle, index: i },
            );
        } else {
            self.selection = None;
        }
    }

    /// Delete key in the sidebar: removes the selected object and its number
    /// (when the index is valid) and clears the selection; the next numbers to
    /// be handed out stay as they are, so a deleted number is never reused.
    pub fn delete_selected(&mut self)
        ensures
            final(self).selection is None,
            final(self).rectangles.spec_next_id() == old(self).rectangles.spec_next_id(),
            final(self).sources.spec_next_id() == old(self).sources.spec_next_id(),
            final(self).probes.spec_next_id() == old(self).probes.spec_next_id(),
            match old(self).selection {
                None => final(self).rectangles == old(self).rectangles && final(self).sources
                    == old(self).sources && final(self).probes == old(self).probes,
                Some(s) => {
                    let i = s.index as int;
                    &&& s.item_type == SidebarItemType::Rectangle && i
                        < old(self).rectangles.spec_items().len() ==> {
                        &&& final(self).rectangles.spec_items() == old(self).rectangles.spec_items().remove(i)
                        &&& final(self).rectangles.spec_ids() == old(self).rectangles.spec_ids().remove(i)
                    }
                    &&& !(s.item_type == SidebarItemType::Rectangle && i
                        < old(self).rectangles.spec_items().len()) ==> final(self).rectangles
                        == old(self).rectangles
                    &&& s.item_type == SidebarItemType::Source && i
                        < old(self).sources.spec_items().len() ==> {
                        &&& final(self).sources.spec_items() == old(self).sources.spec_items().remove(i)
                        &&& final(self).sources.spec_ids() == old(self).sources.spec_ids().remove(i)
                    }
                    &&& !(s.item_type == SidebarItemType::Source && i
                        < old(self).sources.spec_items().len()) ==> final(self).sources
                        == old(self).sources
                    &&& s.item_type == SidebarItemType::Probe && i < old(self).probes.spec_items().len()
                        ==> {
                        &&& final(self).probes.spec_items() == old(self).probes.spec_items().remove(i)
                        &&& final(self).probes.spec_ids() == old(self).probes.spec_ids().remove(i)
                    }
                    &&& !(s.item_type == SidebarItemType::Probe && i
                        < old(self).probes.spec_items().len()) ==> final(self).probes
                        == old(self).probes
                },
            },
    {
        if let Some(s) = self.selection {
            match s.item_type {
                SidebarItemType::Rectangle => {
                    self.rectangles.remove_at(s.index);
                },
                SidebarItemType::Source => {
                    self.sources.remove_at(s.index);
                },
                SidebarItemType::Probe => {
                    self.probes.remove_at(s.index);
                },
            }
            self.selection = None;
        }
    }

    /// Delete key on the canvas: removes the selected object (when the index
    /// is valid) but keeps the numbers of its list as they are, and clears the
    /// selection; with nothing selected, nothing changes.
    pub fn delete_selected_from_canvas(&mut self)
        ensures
            old(self).selection is None ==> *final(self) == *old(self),
            old(self).selection is Some ==> final(self).selection is None,
            final(self).rectangles.spec_ids() == old(self).rectangles.spec_ids(),
            final(self).sources.spec_ids() == old(self).sources.spec_ids(),
            final(self).probes.spec_ids() == old(self).probes.spec_ids(),
            final(self).rectangles.spec_next_id() == old(self).rectangles.spec_next_id(),
            final(self).sources.spec_next_id() == old(self).sources.spec_next_id(),
            final(self).probes.spec_next_id() == old(self).probes.spec_next_id(),
            final(self).rectangles.spec_items() == match old(self).selection {
                Some(s) => if s.item_type == SidebarItemType::Rectangle && s.index
                    < old(self).rectangles.spec_items().len() {
                    old(self).rectangles.spec_items().remove(s.index as int)
                } else {
                    old(self).rectangles.spec_items()
                },
                None => old(self).rectangles.spec_items(),
            },
            final(self).sources.spec_items() == match old(self).selection {
                Some(s) => if s.item_type == SidebarItemType::Source && s.index
                    < old(self).sources.spec_items().len() {
                    old(self).sources.spec_items().remove(s.index as int)
                } else {
                    old(self).sources.spec_items()
                },
                None => old(self).sources.spec_items(),
            },
            final(self).probes.spec_items() == match old(self).selection {
                Some(s) => if s.item_type == SidebarItemType::Probe && s.index
                    < old(self).probes.spec_items().len() {
                    old(self).probes.spec_items().remove(s.index as int)
                } else {
                    old(self).probes.spec_items()
                },
                None => old(self).probes.spec_items(),
            },
    {
        if let Some(s) = self.selection {
            match s.item_type {
                SidebarItemType::Source => {
                    self.sources.remove_item_at(s.index);
                },
                SidebarItemType::Probe => {
                    self.probes.remove_item_at(s.index);
                },
                SidebarItemType::Rectangle => {
                    self.rectangles.remove_item_at(s.index);
                },
            }
            self.selection = None;
        }
    }
}

} // verus!
