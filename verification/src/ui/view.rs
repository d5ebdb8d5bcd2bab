//! Named view buffers for the terminal UI.
//!
//! A "view" is a named buffer that can be displayed in the renderer. The lead
//! session is always the `Lead` view. Other subsystems register named views by
//! choosing a `ViewId` and writing line buffers into them.
//!
//! The manager here holds the buffers and decides what moves where; the
//! renderer itself (taking the displayed buffer out, putting one back in) is
//! driven by the caller: each switching method takes the buffer the renderer
//! held and returns the one it must display next.

use vstd::prelude::*;

use crate::named_list::NamedList;
use crate::text::str_eq;

verus! {

/// A string identifier for a named view.
#[derive(Debug, Clone, PartialEq, Eq, Hash)]
pub struct ViewId(pub String);

impl ViewId {
    /// A view id with the given name.
    pub fn new(name: String) -> (r: Self)
        ensures
            r.0 == name,
    {
        ViewId(name)
    }

    /// The name of the view.
    pub fn as_str(&self) -> (r: &str)
        ensures
            r@ == self.0@,
    {
        self.0.as_str()
    }
}

impl From<String> for ViewId {
    fn from(s: String) -> (r: Self) {
        ViewId(s)
    }
}

impl vstd::std_specs::convert::FromSpecImpl<String> for ViewId {
    open spec fn obeys_from_spec() -> bool {
        true
    }

    /// The view id with that name.
    open spec fn from_spec(s: String) -> ViewId {
        ViewId(s)
    }
}

/// Which view is currently displayed in the renderer.
#[derive(Debug, Clone, PartialEq, Eq)]
pub enum ActiveView {
    /// The lead agent's session (default).
    Lead,
    /// A named view registered by a subsystem.
    Named(ViewId),
}

/// Manages named view buffers and which view the renderer shows.
pub struct ViewManager<L> {
    /// Which view is currently rendered.
    pub active: ActiveView,
    /// Lead session buffer, stored while a named view is displayed.
    lead_buffer: Vec<L>,
    /// Per-view buffers, keyed by view name.
    named_buffers: NamedList<Vec<L>>,
}

/// `active` displays the named view with this name.
pub open spec fn shows(active: ActiveView, name: Seq<char>) -> bool {
    active matches ActiveView::Named(v) && v.0@ == name
}

/// `b` is an element-wise clone of `a`.
pub open spec fn cloned_buffer<L: Clone>(a: Seq<L>, b: Seq<L>) -> bool {
    &&& a.len() == b.len()
    &&& forall|i: int| 0 <= i < a.len() ==> cloned::<L>(a[i], #[trigger] b[i])
}

impl<L> ViewManager<L> {
    /// Which view is displayed.
    pub closed spec fn spec_active(&self) -> ActiveView {
        self.active
    }

    /// The stored lead buffer.
    pub closed spec fn spec_lead(&self) -> Seq<L> {
        self.lead_buffer@
    }

    /// The stored named buffers, by view name.
    pub closed spec fn spec_named(&self) -> Map<Seq<char>, Seq<L>> {
        self.named_buffers@.map_values(|v: Vec<L>| v@)
    }

    /// The view names in registration order.
    pub closed spec fn spec_view_names(&self) -> Seq<String> {
        self.named_buffers.spec_names()
    }

    /// The internal map is well formed, and a displayed named view has a
    /// stored buffer.
    pub closed spec fn wf(&self) -> bool {
        &&& self.named_buffers.wf()
        &&& self.active matches ActiveView::Named(v) ==> self.named_buffers@.dom().contains(v.0@)
    }

    /// A displayed named view is one of the stored views.
    pub proof fn lemma_active_is_stored(&self)
        requires
            self.wf(),
        ensures
            self.spec_active() matches ActiveView::Named(v) ==> self.spec_named().dom().contains(v.0@),
    {
    }

    /// A manager showing the lead view, with no named views.
    pub fn new() -> (r: Self)
        ensures
            r.wf(),
            r.spec_active() == ActiveView::Lead,
            r.spec_lead().len() == 0,
            r.spec_named() == Map::<Seq<char>, Seq<L>>::empty(),
    {
        ViewManager { active: ActiveView::Lead, lead_buffer: Vec::new(), named_buffers: NamedList::new() }
    }

    /// Returns `true` if currently showing the lead view.
    pub fn is_lead(&self) -> (r: bool)
        ensures
            r == (self.spec_active() == ActiveView::Lead),
    {
        match &self.active {
            ActiveView::Lead => true,
            ActiveView::Named(_) => false,
        }
    }

    /// Returns the active `ViewId` if in a named view.
    pub fn active_named(&self) -> (r: Option<&ViewId>)
        ensures
            match self.spec_active() {
                ActiveView::Named(id) => r == Some(&id),
                ActiveView::Lead => r is None,
            },
    {
        match &self.active {
            ActiveView::Named(id) => Some(id),
            ActiveView::Lead => None,
        }
    }

    /// Returns the display string for the status bar, or `None` in lead view.
    pub fn status_label(&self) -> (r: Option<String>)
        ensures
            match self.spec_active() {
                ActiveView::Named(id) => r matches Some(s) && s@ == id.0@,
                ActiveView::Lead => r is None,
            },
    {
        match &self.active {
            ActiveView::Named(id) => Some(id.0.clone()),
            ActiveView::Lead => None,
        }
    }

    /// Whether the named view `id` is the one displayed.
    pub fn is_active(&self, id: &ViewId) -> (r: bool)
        ensures
            r == shows(self.spec_active(), id.0@),
    {
        match &self.active {
            ActiveView::Named(a) => str_eq(a.0.as_str(), id.0.as_str()),
            ActiveView::Lead => false,
        }
    }

    /// Switch to a named view. `current` is the buffer the renderer displayed;
    /// it is saved under the view that was active (the lead buffer, or the
    /// named view). The result is the id of the view switched to and the
    /// buffer to display: a copy of the stored buffer of `id`, which is
    /// created empty on first visit.
    pub fn switch_to(&mut self, id: ViewId, current: Vec<L>) -> (r: (ViewId, Vec<L>)) where L: Clone
        requires
            old(self).wf(),
        ensures
            final(self).wf(),
            switch_to_effect(*old(self), *final(self), id, current@),
            final(self).spec_named().dom().contains(id.0@),
            r.0 == id,
            cloned_buffer(final(self).spec_named()[id.0@], r.1@),
    {
        match &self.active {
            ActiveView::Lead => {
                self.lead_buffer = current;
            },
            ActiveView::Named(prev) => {
                let key = prev.0.clone();
                self.named_buffers.insert(key, current);
            },
        }
        if !self.named_buffers.contains(id.0.as_str()) {
            self.named_buffers.insert(id.0.clone(), Vec::new());
        }
        let target = match self.named_buffers.get(id.0.as_str()) {
            Some(b) => b.clone(),
            None => Vec::new(),
        };
        let shown = ViewId(id.0.clone());
        self.active = ActiveView::Named(id);
        (shown, target)
    }

    /// Settle a switch once the renderer has tried to display the new
    /// buffer. When it succeeded, or `previous` (the view displayed before
    /// the switch) is neither the lead view nor a stored view, nothing
    /// changes. When it failed, `previous` is displayed again; the buffers
    /// keep what the switch saved, so no content is lost.
    pub fn settle_switch(&mut self, previous: ActiveView, restored: bool)
        requires
            old(self).wf(),
        ensures
            final(self).wf(),
            settle_effect(*old(self), *final(self), previous, restored),
    {
        if !restored {
            let stored = match &previous {
                ActiveView::Lead => true,
                ActiveView::Named(v) => self.named_buffers.contains(v.0.as_str()),
            };
            if stored {
                self.active = previous;
            }
        }
    }

    /// Switch back to the lead view. `current` is the buffer the renderer
    /// displayed. When a named view is active, `current` is saved under it and
    /// the stored lead buffer is handed out (and emptied); the result is the
    /// buffer to display. When the lead view is already active nothing changes
    /// and the result is `None`.
    pub fn switch_to_lead(&mut self, current: Vec<L>) -> (r: Option<Vec<L>>)
        requires
            old(self).wf(),
        ensures
            final(self).wf(),
            switch_to_lead_effect(
                *old(self),
                *final(self),
                current@,
                match r {
                    Some(b) => Some(b@),
                    None => None,
                },
            ),
    {
        match &self.active {
            ActiveView::Lead => None,
            ActiveView::Named(prev) => {
                let key = prev.0.clone();
                self.named_buffers.insert(key, current);
                let mut lead: Vec<L> = Vec::new();
                std::mem::swap(&mut lead, &mut self.lead_buffer);
                self.active = ActiveView::Lead;
                Some(lead)
            },
        }
    }

    /// Append entries to a named view that is not displayed, creating it if
    /// needed. If the view is currently displayed this is a no-op: the
    /// renderer already holds its live buffer.
    pub fn write_to_inactive(&mut self, id: &ViewId, entries: Vec<L>)
        requires
            old(self).wf(),
        ensures
            final(self).wf(),
            final(self).spec_active() == old(self).spec_active(),
            final(self).spec_lead() == old(self).spec_lead(),
            shows(old(self).spec_active(), id.0@) ==> final(self).spec_named() == old(self).spec_named(),
            !shows(old(self).spec_active(), id.0@) ==> {
                &&& final(self).spec_named().dom() == old(self).spec_named().dom().insert(id.0@)
                &&& forall|k: Seq<char>|
                    k != id.0@ && #[trigger] old(self).spec_named().dom().contains(k) ==> final(self).spec_named()[k] == old(self).spec_named()[k]
                &&& final(self).spec_named()[id.0@] == (if old(self).spec_named().dom().contains(
                    id.0@,
                ) {
                    old(self).spec_named()[id.0@]
                } else {
                    Seq::<L>::empty()
                }) + entries@
            },
    {
        if self.is_active(id) {
            return;
        }
        let mut entries = entries;
        let mut buf: Vec<L> = match self.named_buffers.remove(id.0.as_str()) {
            Some(b) => b,
            None => Vec::new(),
        };
        buf.append(&mut entries);
        self.named_buffers.insert(id.0.clone(), buf);
    }

    /// Remove a named view's buffer. If the view is the one displayed, the
    /// manager switches to the lead view first: the result is then the lead
    /// buffer the renderer must display (the displayed buffer belonged to the
    /// removed view and is dropped). Otherwise the result is `None` and the
    /// displayed view stays.
    pub fn remove(&mut self, id: &ViewId) -> (r: Option<Vec<L>>)
        requires
            old(self).wf(),
        ensures
            final(self).wf(),
            final(self).spec_named() == old(self).spec_named().remove(id.0@),
            shows(old(self).spec_active(), id.0@) ==> {
                &&& final(self).spec_active() == ActiveView::Lead
                &&& r matches Some(b) && b@ == old(self).spec_lead()
                &&& final(self).spec_lead().len() == 0
            },
            !shows(old(self).spec_active(), id.0@) ==> {
                &&& final(self).spec_active() == old(self).spec_active()
                &&& r is None
                &&& final(self).spec_lead() == old(self).spec_lead()
            },
    {
        let shown = self.is_active(id);
        let _ = self.named_buffers.remove(id.0.as_str());
        if shown {
            let mut lead: Vec<L> = Vec::new();
            std::mem::swap(&mut lead, &mut self.lead_buffer);
            self.active = ActiveView::Lead;
            Some(lead)
        } else {
            None
        }
    }

    /// Returns `true` if a named view with this id has been registered.
    pub fn has_view(&self, id: &ViewId) -> (r: bool)
        requires
            self.wf(),
        ensures
            r == self.spec_named().dom().contains(id.0@),
    {
        self.named_buffers.contains(id.0.as_str())
    }

    /// List all registered named view ids.
    pub fn named_views(&self) -> (r: Vec<ViewId>)
        requires
            self.wf(),
        ensures
            r@.len() == self.spec_view_names().len(),
            forall|i: int| 0 <= i < r@.len() ==> #[trigger] r@[i].0 == self.spec_view_names()[i],
            forall|k: Seq<char>|
                #![trigger self.spec_named().dom().contains(k)]
                self.spec_named().dom().contains(k) <==> exists|i: int|
                    0 <= i < r@.len() && #[trigger] r@[i].0@ == k,
            forall|i: int, j: int| 0 <= i < j < r@.len() ==> #[trigger] r@[i].0@ != #[trigger] r@[j].0@,
    {
        let mut r: Vec<ViewId> = Vec::new();
        let n = self.named_buffers.len();
        let mut i: usize = 0;
        while i < n
            invariant
                self.wf(),
                n == self.spec_view_names().len(),
                i <= n,
                r@.len() == i,
                forall|j: int| 0 <= j < i ==> #[trigger] r@[j].0 == self.spec_view_names()[j],
            decreases n - i,
        {
            let (name, _) = self.named_buffers.entry(i);
            r.push(ViewId(name.clone()));
            i += 1;
        }
        proof {
            self.named_buffers.lemma_names_are_domain();
            self.named_buffers.lemma_distinct_names();
            assert forall|k: Seq<char>|
                #![trigger self.spec_named().dom().contains(k)]
                self.spec_named().dom().contains(k) <==> exists|i: int|
                    0 <= i < r@.len() && #[trigger] r@[i].0@ == k by {
                if self.spec_named().dom().contains(k) {
                    let j = choose|j: int|
                        0 <= j < self.spec_view_names().len() && #[trigger] self.spec_view_names()[j]@
                            == k;
                    assert(r@[j].0@ == k);
                }
                if exists|i: int| 0 <= i < r@.len() && #[trigger] r@[i].0@ == k {
                    let j = choose|j: int| 0 <= j < r@.len() && #[trigger] r@[j].0@ == k;
                    assert(self.spec_view_names()[j]@ == k);
                }
            }
        }
        r
    }
}


/// The state after `switch_to(id, current)` from `old`: `current` is saved
/// under the view that was displayed, `id` gets an empty buffer on first
/// visit, and `id` is displayed.
pub open spec fn switch_to_effect<L>(old: ViewManager<L>, new: ViewManager<L>, id: ViewId, current: Seq<L>) -> bool {
    let saved = match old.spec_active() {
        ActiveView::Lead => old.spec_named(),
        ActiveView::Named(prev) => old.spec_named().insert(prev.0@, current),
    };
    &&& new.spec_active() == ActiveView::Named(id)
    &&& new.spec_lead() =~= match old.spec_active() {
        ActiveView::Lead => current,
        ActiveView::Named(_) => old.spec_lead(),
    }
    &&& new.spec_named() =~= if saved.dom().contains(id.0@) {
        saved
    } else {
        saved.insert(id.0@, Seq::<L>::empty())
    }
}

/// The state after `settle_switch(previous, restored)` from `old`: the
/// buffers are kept; after a failed display `previous` is shown again when it
/// is the lead view or a stored view.
pub open spec fn settle_effect<L>(old: ViewManager<L>, new: ViewManager<L>, previous: ActiveView, restored: bool) -> bool {
    &&& new.spec_lead() == old.spec_lead()
    &&& new.spec_named() == old.spec_named()
    &&& new.spec_active() == if !restored && (previous matches ActiveView::Named(v)
        ==> old.spec_named().dom().contains(v.0@)) {
        previous
    } else {
        old.spec_active()
    }
}

/// A switch whose display failed loses nothing: the view displayed before
/// is displayed again, the buffer it showed is stored as its buffer (the lead
/// buffer when it was the lead view), and the target view exists.
pub proof fn law_failed_switch_keeps_view<L>(
    v0: ViewManager<L>,
    v1: ViewManager<L>,
    v2: ViewManager<L>,
    id: ViewId,
    shown: Seq<L>,
)
    requires
        v0.wf(),
        switch_to_effect(v0, v1, id, shown),
        settle_effect(v1, v2, v0.spec_active(), false),
    ensures
        v2.spec_active() == v0.spec_active(),
        v2.spec_named().dom().contains(id.0@),
        match v0.spec_active() {
            ActiveView::Lead => v2.spec_lead() == shown,
            ActiveView::Named(prev) => v2.spec_named()[prev.0@] == shown,
        },
{
    v0.lemma_active_is_stored();
}

/// The state after `switch_to_lead(current)` from `old`, which answered `r`:
/// from a named view, `current` is saved under it and the stored lead buffer
/// is handed out; from the lead view nothing changes.
pub open spec fn switch_to_lead_effect<L>(
    old: ViewManager<L>,
    new: ViewManager<L>,
    current: Seq<L>,
    r: Option<Seq<L>>,
) -> bool {
    &&& new.spec_active() == ActiveView::Lead
    &&& match old.spec_active() {
        ActiveView::Lead => {
            &&& r is None
            &&& new.spec_lead() =~= old.spec_lead()
            &&& new.spec_named() =~= old.spec_named()
        },
        ActiveView::Named(prev) => {
            &&& r == Some(old.spec_lead())
            &&& new.spec_lead().len() == 0
            &&& new.spec_named() =~= old.spec_named().insert(prev.0@, current)
        },
    }
}

/// Switching to `id` touches no other view: the stored views afterwards are
/// the ones before plus `id`; the view that was displayed keeps what it
/// displayed (the lead buffer, when it was the lead view); `id` keeps its
/// stored buffer, or starts empty on its first visit; and every other stored
/// view keeps exactly its buffer. The lead buffer changes only when the lead
/// view was displayed.
pub proof fn law_switch_touches_no_other_view<L>(
    old: ViewManager<L>,
    new: ViewManager<L>,
    id: ViewId,
    current: Seq<L>,
)
    requires
        old.wf(),
        switch_to_effect(old, new, id, current),
    ensures
        new.spec_active() == ActiveView::Named(id),
        new.spec_named().dom() == old.spec_named().dom().insert(id.0@),
        forall|k: Seq<char>|
            #[trigger] old.spec_named().dom().contains(k) && k != id.0@ && !shows(old.spec_active(), k)
                ==> new.spec_named()[k] == old.spec_named()[k],
        old.spec_active() matches ActiveView::Named(prev) ==> {
            &&& new.spec_named()[prev.0@] == current
            &&& new.spec_lead() == old.spec_lead()
        },
        old.spec_active() == ActiveView::Lead ==> new.spec_lead() == current,
        !shows(old.spec_active(), id.0@) ==> new.spec_named()[id.0@] == if old.spec_named().dom().contains(
            id.0@,
        ) {
            old.spec_named()[id.0@]
        } else {
            Seq::<L>::empty()
        },
{
    old.lemma_active_is_stored();
    assert(new.spec_named().dom() =~= old.spec_named().dom().insert(id.0@));
}

/// Switching back to the lead view touches no named view but the one that
/// was displayed, which keeps what it displayed; no view is added or
/// dropped, and the renderer gets back the stored lead buffer.
pub proof fn law_lead_switch_touches_no_other_view<L>(
    old: ViewManager<L>,
    new: ViewManager<L>,
    current: Seq<L>,
    r: Option<Seq<L>>,
)
    requires
        old.wf(),
        switch_to_lead_effect(old, new, current, r),
    ensures
        new.spec_active() == ActiveView::Lead,
        new.spec_named().dom() == old.spec_named().dom(),
        forall|k: Seq<char>|
            #[trigger] old.spec_named().dom().contains(k) && !shows(old.spec_active(), k) ==> new.spec_named()[k]
                == old.spec_named()[k],
        old.spec_active() matches ActiveView::Named(prev) ==> {
            &&& new.spec_named()[prev.0@] == current
            &&& r == Some(old.spec_lead())
        },
        old.spec_active() == ActiveView::Lead ==> r is None && new.spec_lead() == old.spec_lead(),
{
    old.lemma_active_is_stored();
    assert(new.spec_named().dom() =~= old.spec_named().dom());
}

/// Leaving the lead view for a named view and coming back hands the
/// renderer exactly the buffer it displayed before leaving, and keeps what
/// the named view displayed meanwhile under its name.
pub proof fn law_round_trip_restores_lead<L>(
    v0: ViewManager<L>,
    v1: ViewManager<L>,
    v2: ViewManager<L>,
    id: ViewId,
    lead_shown: Seq<L>,
    named_shown: Seq<L>,
    back: Option<Seq<L>>,
)
    requires
        v0.spec_active() == ActiveView::Lead,
        switch_to_effect(v0, v1, id, lead_shown),
        switch_to_lead_effect(v1, v2, named_shown, back),
    ensures
        back == Some(lead_shown),
        v2.spec_active() == ActiveView::Lead,
        v2.spec_named()[id.0@] == named_shown,
        v2.spec_named().dom() == v0.spec_named().dom().insert(id.0@),
{
    assert(v2.spec_named().dom() =~= v0.spec_named().dom().insert(id.0@));
}

/// Switching from one named view to another and back keeps what each of
/// them displayed: returning to a view shows what it showed when it was left.
pub proof fn law_views_keep_their_buffers<L>(
    v0: ViewManager<L>,
    v1: ViewManager<L>,
    v2: ViewManager<L>,
    a: ViewId,
    b: ViewId,
    a_shown: Seq<L>,
    b_shown: Seq<L>,
)
    requires
        v0.spec_active() == ActiveView::Named(a),
        a.0@ != b.0@,
        switch_to_effect(v0, v1, b, a_shown),
        switch_to_effect(v1, v2, a, b_shown),
    ensures
        v2.spec_active() == ActiveView::Named(a),
        v2.spec_named()[a.0@] == a_shown,
        v2.spec_named()[b.0@] == b_shown,
        v2.spec_lead() == v0.spec_lead(),
{
}

} // verus!
