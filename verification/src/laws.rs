//! Laws of the registry that relate several operations or spell out what the
//! well-formedness invariant guarantees.

use crate::registry::{add_step, is_snapshot_of, TabRegistry, TabSnapshot};
use crate::tab_id::TabId;
use vstd::prelude::*;

verus! {

/// A successful add returns an identifier distinct from that of every tab
/// registered before the call, and the counter moves strictly past it: the
/// identifier is fresh and is never minted again.
pub proof fn lemma_add_id_fresh(pre: TabRegistry, post: TabRegistry, id: TabId)
    requires
        pre.wf(),
        add_step(pre, post, id),
    ensures
        forall|i: int| 0 <= i < pre.tabs@.len() ==> (#[trigger] pre.tabs@[i]).id.num < id.num,
        post.next_id > id.num,
{
}

/// Identifiers returned by successive adds strictly increase in numeric
/// suffix — so they are pairwise distinct. Between the two adds the counter
/// may only have grown: `add_tab` is the only operation that moves it, and
/// every operation's contract keeps it or advances it.
pub proof fn lemma_add_ids_strictly_increase(
    pre1: TabRegistry,
    post1: TabRegistry,
    id1: TabId,
    pre2: TabRegistry,
    post2: TabRegistry,
    id2: TabId,
)
    requires
        add_step(pre1, post1, id1),
        add_step(pre2, post2, id2),
        pre2.next_id >= post1.next_id,
    ensures
        id2.num > id1.num,
{
}

/// In a well-formed registry the active tab, if any, is one of the
/// registered tabs. Every operation requires and re-establishes
/// well-formedness, so this holds after any sequence of calls.
pub proof fn lemma_active_is_registered(r: TabRegistry)
    requires
        r.wf(),
    ensures
        r.active matches Some(a) ==> r.has_tab(a),
{
}

/// In a well-formed registry exactly the active tab's surface is shown: a
/// tab is shown exactly when it is the active one, and no two distinct tabs
/// are shown at once. Every operation re-establishes well-formedness, so this
/// holds immediately after any successful call.
pub proof fn lemma_exactly_active_shown(r: TabRegistry)
    requires
        r.wf(),
    ensures
        forall|i: int|
            0 <= i < r.tabs@.len() ==> ((#[trigger] r.tabs@[i]).shown <==> r.active == Some(
                r.tabs@[i].id,
            )),
        forall|i: int, j: int|
            0 <= i < r.tabs@.len() && 0 <= j < r.tabs@.len() && (#[trigger] r.tabs@[i]).shown && (
            #[trigger] r.tabs@[j]).shown ==> i == j,
        r.active is None ==> forall|i: int|
            0 <= i < r.tabs@.len() ==> !(#[trigger] r.tabs@[i]).shown,
{
    assert forall|i: int, j: int|
        0 <= i < r.tabs@.len() && 0 <= j < r.tabs@.len() && (#[trigger] r.tabs@[i]).shown && (
        #[trigger] r.tabs@[j]).shown implies i == j by {
        if i < j {
            assert(r.tabs@[i].id.num < r.tabs@[j].id.num);
        }
        if j < i {
            assert(r.tabs@[j].id.num < r.tabs@[i].id.num);
        }
    }
}

/// The snapshot is a function of the registry state alone: two snapshots of
/// the same state — in particular two taken in a row with no mutation in
/// between — carry the same rows and the same active tab.
pub proof fn lemma_snapshot_deterministic(a: TabSnapshot, b: TabSnapshot, reg: TabRegistry)
    requires
        is_snapshot_of(a, reg),
        is_snapshot_of(b, reg),
    ensures
        a.active == b.active,
        a.tabs@.len() == b.tabs@.len(),
        forall|i: int|
            0 <= i < a.tabs@.len() ==> {
                &&& (#[trigger] a.tabs@[i]).id == (#[trigger] b.tabs@[i]).id
                &&& a.tabs@[i].title@ == b.tabs@[i].title@
                &&& a.tabs@[i].url@ == b.tabs@[i].url@
            },
{
}

} // verus!
