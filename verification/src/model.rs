use vstd::prelude::*;

verus! {

/// The mathematical state of the connection pool.
///
/// A backend connection is identified by the order in which it was dialed:
/// the first successful dial yields identifier `0`, the next `1`, and so
/// on, so `next_id` is also the number of connections that exist. `idle`
/// lists the identifiers waiting for reuse, oldest return first; `borrowed`
/// holds the identifiers currently lent out; `pending` counts dials in
/// flight, each of which already holds an admission permit; `permits` is
/// what remains of the admission gate.
#[verifier::ext_equal]
pub ghost struct PoolView {
    pub max_size: int,
    pub permits: int,
    pub pending: int,
    pub idle: Seq<usize>,
    pub borrowed: Set<usize>,
    pub next_id: int,
    pub host: Seq<char>,
    pub port: u16,
}

impl PoolView {
    /// Well-formedness of a pool state. Every permit is either available,
    /// reserved by a dial in flight, or held by a borrower; the idle store
    /// never outgrows the available permits; identifiers are minted in
    /// order, held by at most one place, and never by two borrowers.
    pub open spec fn inv(self) -> bool {
        &&& self.max_size >= 1
        &&& self.permits >= 0
        &&& self.pending >= 0
        &&& self.borrowed.finite()
        &&& self.permits + self.pending + self.borrowed.len() == self.max_size
        &&& self.idle.len() <= self.permits
        &&& self.next_id == self.borrowed.len() + self.idle.len()
        &&& (forall|i: int| 0 <= i < self.idle.len() ==> (#[trigger] self.idle[i]) < self.next_id)
        &&& (forall|c: usize| self.borrowed.contains(c) ==> c < self.next_id)
        &&& (forall|i: int, j: int| 0 <= i < j < self.idle.len() ==> self.idle[i] != self.idle[j])
        &&& (forall|i: int| 0 <= i < self.idle.len() ==> !self.borrowed.contains(
            #[trigger] self.idle[i],
        ))
    }
}

/// The capacity bound and the dial target never change after construction.
pub open spec fn keeps_config(pre: PoolView, post: PoolView) -> bool {
    &&& post.max_size == pre.max_size
    &&& post.host == pre.host
    &&& post.port == pre.port
}

/// An acquisition served from the idle store: the oldest idle connection is
/// handed out, and one permit is taken for as long as it stays out.
pub open spec fn reuse_step(pre: PoolView, post: PoolView, id: usize) -> bool {
    &&& pre.permits > 0
    &&& pre.idle.len() > 0
    &&& id == pre.idle[0]
    &&& post.permits == pre.permits - 1
    &&& post.pending == pre.pending
    &&& post.idle == pre.idle.subrange(1, pre.idle.len() as int)
    &&& post.borrowed == pre.borrowed.insert(id)
    &&& post.next_id == pre.next_id
    &&& keeps_config(pre, post)
}

/// An acquisition that found the idle store empty: a permit is taken and a
/// dial of a new backend connection begins.
pub open spec fn dial_begin_step(pre: PoolView, post: PoolView) -> bool {
    &&& pre.permits > 0
    &&& pre.idle.len() == 0
    &&& post.permits == pre.permits - 1
    &&& post.pending == pre.pending + 1
    &&& post.idle == pre.idle
    &&& post.borrowed == pre.borrowed
    &&& post.next_id == pre.next_id
    &&& keeps_config(pre, post)
}

/// A dial that came back with a fresh connection: the new identifier is
/// minted and lent out, still under the permit taken when the dial began.
pub open spec fn dial_success_step(pre: PoolView, post: PoolView, id: usize) -> bool {
    &&& pre.pending > 0
    &&& id as int == pre.next_id
    &&& post.permits == pre.permits
    &&& post.pending == pre.pending - 1
    &&& post.idle == pre.idle
    &&& post.borrowed == pre.borrowed.insert(id)
    &&& post.next_id == pre.next_id + 1
    &&& keeps_config(pre, post)
}

/// A dial that failed: the permit reserved for it becomes available again and
/// nothing else changes.
pub open spec fn dial_failure_step(pre: PoolView, post: PoolView) -> bool {
    &&& pre.pending > 0
    &&& post.permits == pre.permits + 1
    &&& post.pending == pre.pending - 1
    &&& post.idle == pre.idle
    &&& post.borrowed == pre.borrowed
    &&& post.next_id == pre.next_id
    &&& keeps_config(pre, post)
}

/// A borrowed connection coming home: it joins the back of the idle queue,
/// and only then is its permit released.
pub open spec fn return_step(pre: PoolView, post: PoolView, id: usize) -> bool {
    &&& pre.borrowed.contains(id)
    &&& post.permits == pre.permits + 1
    &&& post.pending == pre.pending
    &&& post.idle == pre.idle.push(id)
    &&& post.borrowed == pre.borrowed.remove(id)
    &&& post.next_id == pre.next_id
    &&& keeps_config(pre, post)
}

/// A freshly built pool: all permits available, nothing idle, nothing
/// borrowed, no dial in flight, no identifier minted yet.
pub open spec fn init(v: PoolView) -> bool {
    &&& v.max_size >= 1
    &&& v.permits == v.max_size
    &&& v.pending == 0
    &&& v.idle.len() == 0
    &&& v.borrowed =~= Set::<usize>::empty()
    &&& v.next_id == 0
}

/// Any single transition the pool can make, whoever the borrower is.
pub open spec fn step(pre: PoolView, post: PoolView) -> bool {
    ||| exists|id: usize| reuse_step(pre, post, id)
    ||| dial_begin_step(pre, post)
    ||| exists|id: usize| dial_success_step(pre, post, id)
    ||| dial_failure_step(pre, post)
    ||| exists|id: usize| return_step(pre, post, id)
}

/// A freshly built pool state is well-formed.
pub proof fn lemma_init_inv(v: PoolView)
    requires
        init(v),
    ensures
        v.inv(),
{
}

/// Every transition keeps the pool state well-formed. Together with
/// `lemma_init_inv` this makes `inv` hold after any sequence of
/// acquisitions, dial outcomes and releases, in whatever order concurrent
/// borrowers interleave them.
pub proof fn lemma_step_preserves_inv(pre: PoolView, post: PoolView)
    requires
        pre.inv(),
        step(pre, post),
    ensures
        post.inv(),
{
    if exists|id: usize| reuse_step(pre, post, id) {
        let id = choose|id: usize| reuse_step(pre, post, id);
        assert(!pre.borrowed.contains(id));
        assert forall|i: int| 0 <= i < post.idle.len() implies !post.borrowed.contains(
            #[trigger] post.idle[i],
        ) by {
            assert(post.idle[i] == pre.idle[i + 1]);
        }
    } else if exists|id: usize| dial_success_step(pre, post, id) {
        let id = choose|id: usize| dial_success_step(pre, post, id);
        assert(!pre.borrowed.contains(id));
    } else if exists|id: usize| return_step(pre, post, id) {
        let id = choose|id: usize| return_step(pre, post, id);
        assert forall|i: int, j: int| 0 <= i < j < post.idle.len() implies post.idle[i]
            != post.idle[j] by {
            if j == post.idle.len() - 1 {
                assert(post.idle[i] == pre.idle[i]);
            }
        }
    }
}

/// Bound invariant: in any well-formed pool state, the connections that are
/// borrowed or idle together never exceed the capacity bound. Every pool
/// operation keeps the state well-formed, so this holds at all times.
pub proof fn lemma_bound_invariant(v: PoolView)
    requires
        v.inv(),
    ensures
        v.borrowed.len() + v.idle.len() <= v.max_size,
{
}

/// No double hand-out, at rest: in any well-formed pool state the idle
/// connections are pairwise distinct and none of them is simultaneously in
/// a borrower's hands.
pub proof fn lemma_no_double_hand_out(v: PoolView)
    requires
        v.inv(),
    ensures
        forall|i: int, j: int| 0 <= i < j < v.idle.len() ==> v.idle[i] != v.idle[j],
        forall|i: int| 0 <= i < v.idle.len() ==> !v.borrowed.contains(#[trigger] v.idle[i]),
{
}

/// No double hand-out, at the moment of acquisition: however a connection
/// is handed out — reused or freshly dialed — its identifier was in no
/// other borrower's hands and is no longer in the idle store, so no two
/// concurrent borrowers ever hold the same connection.
pub proof fn lemma_handout_exclusive(pre: PoolView, post: PoolView, id: usize)
    requires
        pre.inv(),
        reuse_step(pre, post, id) || dial_success_step(pre, post, id),
    ensures
        !pre.borrowed.contains(id),
        post.borrowed.contains(id),
        !post.idle.contains(id),
{
    if reuse_step(pre, post, id) {
        assert forall|k: int| 0 <= k < post.idle.len() implies post.idle[k] != id by {
            assert(post.idle[k] == pre.idle[k + 1]);
        }
        assert(!post.idle.contains(id));
    } else {
        assert forall|k: int| 0 <= k < post.idle.len() implies post.idle[k] != id by {}
        assert(!post.idle.contains(id));
    }
}

/// Permit and connection conservation, reuse path: an acquisition served
/// from the idle store followed by the return of that same connection
/// restores the permit count, the pending count and the borrowed set, and
/// only rotates the idle queue; no connection and no permit is lost.
pub proof fn lemma_conservation_reuse(s0: PoolView, s1: PoolView, s2: PoolView, id: usize)
    requires
        s0.inv(),
        reuse_step(s0, s1, id),
        return_step(s1, s2, id),
    ensures
        s2.permits == s0.permits,
        s2.pending == s0.pending,
        s2.borrowed =~= s0.borrowed,
        s2.idle =~= s0.idle.subrange(1, s0.idle.len() as int).push(id),
        s2.borrowed.len() + s2.idle.len() == s0.borrowed.len() + s0.idle.len(),
{
    assert(!s0.borrowed.contains(id));
    assert(s2.borrowed =~= s0.borrowed);
}

/// Permit and connection conservation, dial path: an acquisition that had
/// to dial, the dial's success, and the eventual return of the new
/// connection restore the permit count, the pending count and the borrowed
/// set, and leave the new connection idle at the back of the queue.
pub proof fn lemma_conservation_dial(
    s0: PoolView,
    s1: PoolView,
    s2: PoolView,
    s3: PoolView,
    id: usize,
)
    requires
        s0.inv(),
        dial_begin_step(s0, s1),
        dial_success_step(s1, s2, id),
        return_step(s2, s3, id),
    ensures
        s3.permits == s0.permits,
        s3.pending == s0.pending,
        s3.borrowed =~= s0.borrowed,
        s3.idle =~= s0.idle.push(id),
{
    assert(!s0.borrowed.contains(id));
    assert(s3.borrowed =~= s0.borrowed);
}

/// Dial-failure cleanup: when the dial that an acquisition started fails,
/// returning the reserved permit restores the pool state exactly; in
/// particular the permit count after the failed acquisition equals the
/// permit count before it.
pub proof fn lemma_dial_failure_cleanup(s0: PoolView, s1: PoolView, s2: PoolView)
    requires
        dial_begin_step(s0, s1),
        dial_failure_step(s1, s2),
    ensures
        s2 =~= s0,
        s2.permits == s0.permits,
{
}

} // verus!
