//! The tab registry: the set of live tabs, their titles and visibility, the
//! currently active tab, and the monotonic identifier counter.
//!
//! The registry is the in-memory model of the shell's tab state. The host
//! mirrors it onto real rendering surfaces: after each successful operation
//! it shows exactly the surface of the active tab, hides every other, and
//! applies the returned tab-bar geometry.

use crate::errors::{not_found_error, not_found_msg, TabError};
use crate::geometry::{content_rect, spec_content_rect, spec_strip_size, strip_size, LogicalRect,
    LogicalSize};
use crate::tab_id::TabId;
use crate::urls::{parse_url, parse_url_spec};
use vstd::prelude::*;

verus! {

/// One live tab: its identifier, display title, the (normalized) URL its
/// surface was created with, and whether its surface is currently shown.
pub struct Tab {
    pub id: TabId,
    pub title: String,
    pub url: String,
    pub shown: bool,
}

/// The outcome of a successful `add_tab`: the minted identifier, the content
/// rectangle for the new tab's surface, and, when the registry was empty
/// beforehand, the size the tab-bar strip must be brought back to.
#[derive(Debug)]
pub struct AddOutcome {
    pub id: TabId,
    pub content: LogicalRect,
    pub tab_bar: Option<LogicalSize>,
}

/// The outcome of a successful `close_tab`: the tab that is active after the
/// close, if any, and, when no tabs remain, the size the tab-bar strip must
/// grow to (the entire window content area).
#[derive(Debug)]
pub struct CloseOutcome {
    pub new_active: Option<TabId>,
    pub tab_bar: Option<LogicalSize>,
}

/// One row of a snapshot: a tab's identifier, display title, and URL.
pub struct TabEntry {
    pub id: TabId,
    pub title: String,
    pub url: String,
}

/// A point-in-time snapshot of the registry, broadcast to the presentation
/// layer after every successful operation.
pub struct TabSnapshot {
    pub tabs: Vec<TabEntry>,
    pub active: Option<TabId>,
}

/// What it means for `snap` to be the snapshot of `reg`: one row per live
/// tab, in registry order, carrying its id, title, and URL, plus the active
/// tab. The snapshot is a function of the registry state alone.
pub open spec fn is_snapshot_of(snap: TabSnapshot, reg: TabRegistry) -> bool {
    &&& snap.active == reg.active
    &&& snap.tabs@.len() == reg.tabs@.len()
    &&& forall|i: int|
        0 <= i < reg.tabs@.len() ==> {
            &&& snap.tabs@[i].id == reg.tabs@[i].id
            &&& snap.tabs@[i].title@ == reg.tabs@[i].title@
            &&& snap.tabs@[i].url@ == reg.tabs@[i].url@
        }
}

/// How a successful `add_tab` moves the identifier state: the returned id is
/// minted from the counter, the counter advances by one, and the new tab is
/// appended after the existing ones, which keep their ids.
pub open spec fn add_step(pre: TabRegistry, post: TabRegistry, id: TabId) -> bool {
    &&& id.num == pre.next_id
    &&& post.next_id == pre.next_id + 1
    &&& post.tabs@.len() == pre.tabs@.len() + 1
    &&& post.tabs@.last().id == id
    &&& forall|i: int| 0 <= i < pre.tabs@.len() ==> post.tabs@[i].id == pre.tabs@[i].id
}

/// The registry of live tabs. At most one tab is active; the shown flags of
/// the tabs mirror the visibility of their rendering surfaces.
pub struct TabRegistry {
    /// Counter the next identifier is minted from; increments by one on every
    /// successful add and never goes back.
    pub next_id: u64,
    /// The live tabs, in order of creation (strictly increasing identifiers).
    pub tabs: Vec<Tab>,
    /// The active tab, if any; always one of the live tabs.
    pub active: Option<TabId>,
}

impl TabRegistry {
    /// Whether a tab with identifier `id` is currently registered.
    pub open spec fn has_tab(self, id: TabId) -> bool {
        exists|i: int| 0 <= i < self.tabs@.len() && self.tabs@[i].id == id
    }

    /// The index of the tab with identifier `id`, when one is registered.
    pub open spec fn index_of(self, id: TabId) -> int {
        choose|i: int| 0 <= i < self.tabs@.len() && self.tabs@[i].id == id
    }

    /// Well-formedness of the registry:
    /// - tab identifiers are strictly increasing in creation order (so they
    ///   are pairwise distinct, and the first tab has the lowest counter);
    /// - every identifier was minted below the counter (so the next minted
    ///   identifier is fresh);
    /// - the active tab, if any, is a registered tab;
    /// - a tab's surface is shown exactly when it is the active tab (so at
    ///   most one surface is shown).
    pub open spec fn wf(self) -> bool {
        &&& forall|i: int, j: int|
            0 <= i < j < self.tabs@.len() ==> self.tabs@[i].id.num < self.tabs@[j].id.num
        &&& forall|i: int| 0 <= i < self.tabs@.len() ==> self.tabs@[i].id.num < self.next_id
        &&& match self.active {
            Some(a) => self.has_tab(a),
            None => true,
        }
        &&& forall|i: int|
            0 <= i < self.tabs@.len() ==> (self.tabs@[i].shown <==> self.active == Some(
                self.tabs@[i].id,
            ))
    }

    /// Creates an empty registry whose identifier counter starts at
    /// `first_id`.
    pub fn new(first_id: u64) -> (r: TabRegistry)
        ensures
            r.wf(),
            r.next_id == first_id,
            r.tabs@.len() == 0,
            r.active is None,
    {
        TabRegistry { next_id: first_id, tabs: Vec::new(), active: None }
    }

    /// Looks up the index of the tab with identifier `id`.
    fn find_tab(&self, id: TabId) -> (r: Option<usize>)
        ensures
            match r {
                Some(i) => i < self.tabs@.len() && self.tabs@[i as int].id == id,
                None => !self.has_tab(id),
            },
    {
        let n = self.tabs.len();
        let mut i: usize = 0;
        while i < n
            invariant
                n == self.tabs@.len(),
                i <= n,
                forall|k: int| 0 <= k < i ==> self.tabs@[k].id != id,
            decreases n - i,
        {
            if self.tabs[i].id == id {
                return Some(i);
            }
            i = i + 1;
        }
        None
    }

    /// In a well-formed registry identifiers are pairwise distinct, so the
    /// index of a registered identifier is unique.
    proof fn lemma_index_unique(self, id: TabId, i: int)
        requires
            self.wf(),
            0 <= i < self.tabs@.len(),
            self.tabs@[i].id == id,
        ensures
            self.index_of(id) == i,
    {
        assert(self.has_tab(id));
        let j = self.index_of(id);
        if i < j {
            assert(self.tabs@[i].id.num < self.tabs@[j].id.num);
        }
        if j < i {
            assert(self.tabs@[j].id.num < self.tabs@[i].id.num);
        }
    }

    /// Registers a new tab for `url` in a window of content size `win`.
    ///
    /// When `url` parses as a URL: mints the next identifier, stores an empty
    /// title and the parsed URL's serialization, leaves the new surface
    /// hidden and the active tab unchanged, and reports the geometry the host
    /// must apply — the content rectangle below the tab-bar strip, and, when
    /// the registry was empty, the strip size to bring the tab bar back to.
    /// When `url` does not parse, returns `InvalidInput` and changes nothing:
    /// no identifier is allocated and the counter is unchanged.
    pub fn add_tab(&mut self, url: &str, win: LogicalSize) -> (r: Result<AddOutcome, TabError>)
        requires
            old(self).wf(),
            old(self).next_id < u64::MAX,
        ensures
            final(self).wf(),
            r is Ok <==> parse_url_spec(url@) is Some,
            match r {
                Ok(out) => {
                    &&& add_step(*old(self), *final(self), out.id)
                    &&& final(self).tabs@ == old(self).tabs@.push(final(self).tabs@.last())
                    &&& final(self).tabs@.last().title@ == Seq::<char>::empty()
                    &&& parse_url_spec(url@) == Some(final(self).tabs@.last().url@)
                    &&& final(self).tabs@.last().shown == false
                    &&& final(self).active == old(self).active
                    &&& out.content == spec_content_rect(win)
                    &&& out.tab_bar == (if old(self).tabs@.len() == 0 {
                        Some(spec_strip_size(win))
                    } else {
                        None::<LogicalSize>
                    })
                },
                Err(e) => {
                    &&& e is InvalidInput
                    &&& *final(self) == *old(self)
                },
            },
    {
        let stored = match parse_url(url) {
            Ok(u) => u,
            Err(m) => {
                return Err(TabError::InvalidInput(m));
            },
        };
        let id = TabId { num: self.next_id };
        self.next_id = self.next_id + 1;
        let tab_bar: Option<LogicalSize> = if self.tabs.len() == 0 {
            Some(strip_size(win))
        } else {
            None
        };
        let content = content_rect(win);
        self.tabs.push(Tab { id, title: String::new(), url: stored, shown: false });
        proof {
            assert(self.tabs@.last() == self.tabs@[old(self).tabs@.len() as int]);
            assert(self.tabs@ =~= old(self).tabs@.push(self.tabs@.last()));
            match old(self).active {
                Some(a) => {
                    let w = choose|k: int|
                        0 <= k < old(self).tabs@.len() && old(self).tabs@[k].id == a;
                    assert(self.tabs@[w].id == a);
                },
                None => {},
            }
        }
        Ok(AddOutcome { id, content, tab_bar })
    }

    /// Makes `id` the active tab: every surface is hidden except the one for
    /// `id`, which is shown, and the active tab becomes `id`. Succeeds exactly
    /// when `id` is registered; on `NotFound` nothing is changed.
    pub fn set_active_tab(&mut self, id: TabId) -> (r: Result<(), TabError>)
        requires
            old(self).wf(),
        ensures
            final(self).wf(),
            r is Ok <==> old(self).has_tab(id),
            r is Ok ==> {
                &&& final(self).active == Some(id)
                &&& final(self).next_id == old(self).next_id
                &&& final(self).tabs@.len() == old(self).tabs@.len()
                &&& forall|i: int|
                    0 <= i < old(self).tabs@.len() ==> {
                        &&& final(self).tabs@[i].id == old(self).tabs@[i].id
                        &&& final(self).tabs@[i].title == old(self).tabs@[i].title
                        &&& final(self).tabs@[i].url == old(self).tabs@[i].url
                    }
                &&& forall|i: int|
                    0 <= i < final(self).tabs@.len() ==> (final(self).tabs@[i].shown
                        <==> final(self).tabs@[i].id == id)
            },
            r matches Err(e) ==> {
                &&& *final(self) == *old(self)
                &&& e matches TabError::NotFound(m) && m@ == not_found_msg(id.num as nat)
            },
    {
        if self.find_tab(id).is_none() {
            return Err(not_found_error(id));
        }
        let n = self.tabs.len();
        let mut i: usize = 0;
        while i < n
            invariant
                n == self.tabs@.len(),
                i <= n,
                self.next_id == old(self).next_id,
                self.active == old(self).active,
                forall|k: int|
                    0 <= k < n ==> {
                        &&& self.tabs@[k].id == old(self).tabs@[k].id
                        &&& self.tabs@[k].title == old(self).tabs@[k].title
                        &&& self.tabs@[k].url == old(self).tabs@[k].url
                    },
                forall|k: int| 0 <= k < i ==> (self.tabs@[k].shown <==> self.tabs@[k].id == id),
            decreases n - i,
        {
            let shown = self.tabs[i].id == id;
            self.tabs[i].shown = shown;
            i = i + 1;
        }
        self.active = Some(id);
        Ok(())
    }

    /// Closes the tab `id`: its title entry and surface are removed (the host
    /// destroys the surface). Succeeds exactly when `id` is registered; on
    /// `NotFound` nothing is changed. The new active tab is then:
    /// - none, when no tabs remain — the outcome also carries the window size
    ///   the tab-bar strip must grow to;
    /// - the remaining tab with the lowest numeric suffix, shown, when the
    ///   closed tab was the active one;
    /// - unchanged otherwise.
    /// The outcome reports the tab that is active after the close.
    pub fn close_tab(&mut self, id: TabId, win: LogicalSize) -> (r: Result<
        CloseOutcome,
        TabError,
    >)
        requires
            old(self).wf(),
        ensures
            final(self).wf(),
            r is Ok <==> old(self).has_tab(id),
            r matches Ok(out) ==> ({
                let rest = old(self).tabs@.remove(old(self).index_of(id));
                &&& final(self).next_id == old(self).next_id
                &&& final(self).tabs@.len() == rest.len()
                &&& forall|i: int|
                    0 <= i < rest.len() ==> {
                        &&& final(self).tabs@[i].id == rest[i].id
                        &&& final(self).tabs@[i].title == rest[i].title
                        &&& final(self).tabs@[i].url == rest[i].url
                    }
                &&& !final(self).has_tab(id)
                &&& out.new_active == final(self).active
                &&& rest.len() == 0 ==> final(self).active is None && out.tab_bar == Some(win)
                &&& rest.len() > 0 ==> out.tab_bar is None
                &&& (rest.len() > 0 && old(self).active == Some(id)) ==> {
                    &&& final(self).active == Some(final(self).tabs@[0].id)
                    &&& forall|i: int|
                        0 <= i < final(self).tabs@.len() ==> final(self).tabs@[0].id.num <= (
                        #[trigger] final(self).tabs@[i]).id.num
                }
                &&& (rest.len() > 0 && old(self).active != Some(id))
                    ==> final(self).active == old(self).active
                &&& forall|i: int|
                    0 <= i < final(self).tabs@.len()
                        ==> (final(self).tabs@[i].shown
                            <==> final(self).active == Some(final(self).tabs@[i].id))
            }),
            r matches Err(e) ==> {
                &&& *final(self) == *old(self)
                &&& e matches TabError::NotFound(m) && m@ == not_found_msg(id.num as nat)
            },
    {
        let idx = match self.find_tab(id) {
            None => {
                return Err(not_found_error(id));
            },
            Some(i) => i,
        };
        proof {
            old(self).lemma_index_unique(id, idx as int);
        }
        let was_active = match self.active {
            Some(a) => a == id,
            None => false,
        };
        let _removed = self.tabs.remove(idx);
        let mut tab_bar: Option<LogicalSize> = None;
        if self.tabs.len() == 0 {
            self.active = None;
            tab_bar = Some(win);
        } else if was_active {
            let new_id = self.tabs[0].id;
            self.tabs[0].shown = true;
            self.active = Some(new_id);
        }
        proof {
            let j = idx as int;
            old(self).tabs@.remove_ensures(j);
            let rest = old(self).tabs@.remove(j);
            // the remaining tabs keep their fields, pointwise against `rest`
            assert forall|i: int| 0 <= i < self.tabs@.len() implies {
                &&& (#[trigger] self.tabs@[i]).id == rest[i].id
                &&& self.tabs@[i].title == rest[i].title
                &&& self.tabs@[i].url == rest[i].url
                &&& (i > 0 || !was_active ==> self.tabs@[i].shown == rest[i].shown)
            } by {}
            // the closed identifier is gone
            assert forall|i: int| 0 <= i < self.tabs@.len() implies (
            #[trigger] self.tabs@[i]).id.num != id.num by {
                if i < j {
                    assert(rest[i].id == old(self).tabs@[i].id);
                } else {
                    assert(rest[i].id == old(self).tabs@[i + 1].id);
                }
            }
            // identifiers remain strictly increasing and below the counter
            assert forall|a: int, b: int| 0 <= a < b < self.tabs@.len() implies (
            #[trigger] self.tabs@[a]).id.num < (#[trigger] self.tabs@[b]).id.num by {
                let a0: int = if a < j {
                    a
                } else {
                    a + 1
                };
                let b0: int = if b < j {
                    b
                } else {
                    b + 1
                };
                assert(rest[a].id == old(self).tabs@[a0].id);
                assert(rest[b].id == old(self).tabs@[b0].id);
                assert(old(self).tabs@[a0].id.num < old(self).tabs@[b0].id.num);
            }
            assert forall|i: int| 0 <= i < self.tabs@.len() implies (
            #[trigger] self.tabs@[i]).id.num < self.next_id by {
                if j <= i {
                    assert(rest[i].id == old(self).tabs@[i + 1].id);
                }
            }
            // the active tab, if any, is still registered
            if self.tabs@.len() > 0 && !was_active {
                match old(self).active {
                    Some(a) => {
                        let w = choose|k: int|
                            0 <= k < old(self).tabs@.len() && old(self).tabs@[k].id == a;
                        if w < j {
                            assert(self.tabs@[w].id == a);
                        } else {
                            assert(w != j);
                            assert(self.tabs@[w - 1].id == a);
                        }
                    },
                    None => {},
                }
            }
            // a surface is shown exactly for the active tab
            assert forall|i: int| 0 <= i < self.tabs@.len() implies ((
            #[trigger] self.tabs@[i]).shown <==> self.active == Some(self.tabs@[i].id)) by {
                let i0: int = if i < j {
                    i
                } else {
                    i + 1
                };
                assert(rest[i].id == old(self).tabs@[i0].id);
                if was_active {
                    if i == 0 {
                        assert(self.tabs@[0].shown);
                        assert(self.active == Some(self.tabs@[0].id));
                    } else {
                        assert(self.tabs@[i].shown == old(self).tabs@[i0].shown);
                        assert(old(self).tabs@[i0].id.num != id.num);
                        assert(!old(self).tabs@[i0].shown);
                        assert(self.tabs@[0].id.num < self.tabs@[i].id.num);
                    }
                } else {
                    assert(self.tabs@[i].shown == old(self).tabs@[i0].shown);
                    assert(self.active == old(self).active);
                }
            }
        }
        Ok(CloseOutcome { new_active: self.active, tab_bar })
    }

    /// Replaces the stored title of the tab `id` with `title`. Succeeds
    /// exactly when `id` is registered; on `NotFound` nothing is changed.
    pub fn update_tab(&mut self, id: TabId, title: String) -> (r: Result<(), TabError>)
        requires
            old(self).wf(),
        ensures
            final(self).wf(),
            r is Ok <==> old(self).has_tab(id),
            r is Ok ==> ({
                let j = old(self).index_of(id);
                &&& final(self).tabs@ == old(self).tabs@.update(j, final(self).tabs@[j])
                &&& final(self).tabs@[j].id == id
                &&& final(self).tabs@[j].title == title
                &&& final(self).tabs@[j].url == old(self).tabs@[j].url
                &&& final(self).tabs@[j].shown == old(self).tabs@[j].shown
                &&& final(self).active == old(self).active
                &&& final(self).next_id == old(self).next_id
            }),
            r matches Err(e) ==> {
                &&& *final(self) == *old(self)
                &&& e matches TabError::NotFound(m) && m@ == not_found_msg(id.num as nat)
            },
    {
        let i = match self.find_tab(id) {
            None => {
                return Err(not_found_error(id));
            },
            Some(i) => i,
        };
        proof {
            old(self).lemma_index_unique(id, i as int);
        }
        self.tabs[i].title = title;
        proof {
            assert(self.tabs@ =~= old(self).tabs@.update(i as int, self.tabs@[i as int]));
            match old(self).active {
                Some(a) => {
                    let w = choose|k: int|
                        0 <= k < old(self).tabs@.len() && old(self).tabs@[k].id == a;
                    assert(self.tabs@[w].id == a);
                },
                None => {},
            }
        }
        Ok(())
    }

    /// Builds the snapshot broadcast to the presentation layer: one row per
    /// live tab, in registry order, plus the active tab. The snapshot is
    /// never cached — it is derived fresh from the registry on every call.
    pub fn snapshot(&self) -> (r: TabSnapshot)
        ensures
            is_snapshot_of(r, *self),
    {
        let mut entries: Vec<TabEntry> = Vec::new();
        let n = self.tabs.len();
        let mut i: usize = 0;
        while i < n
            invariant
                n == self.tabs@.len(),
                i <= n,
                entries@.len() == i,
                forall|k: int|
                    0 <= k < i ==> {
                        &&& entries@[k].id == self.tabs@[k].id
                        &&& entries@[k].title@ == self.tabs@[k].title@
                        &&& entries@[k].url@ == self.tabs@[k].url@
                    },
            decreases n - i,
        {
            let entry = TabEntry {
                id: self.tabs[i].id,
                title: self.tabs[i].title.clone(),
                url: self.tabs[i].url.clone(),
            };
            entries.push(entry);
            i = i + 1;
        }
        TabSnapshot { tabs: entries, active: self.active }
    }
}

} // verus!
