//! Streaming: the wanted-chunk computation around a viewer, the pending
//! load and unload queues, and their re-sort by ascending distance after
//! every recompute. Membership in each queue is a set: no coordinate is
//! queued twice.

use vstd::prelude::*;
use vstd::seq_lib::group_to_multiset_ensures;
use crate::pos::{Vec3i, dist_sq, distance_squared};
use crate::world::World;
use crate::chunk::{CHUNK_COORD_MIN, CHUNK_COORD_MAX};

verus! {

/// Horizontal streaming radius, in chunks.
pub const VIEW_DISTANCE: i32 = 8;

/// Vertical streaming half-range, in chunks.
pub const VIEW_DISTANCE_HALF: i32 = 4;

/// Whether chunk coordinate `p` is wanted around the viewer's chunk
/// coordinate: the horizontal offset lies strictly inside the view-radius
/// circle and the vertical offset within the half-range.
pub open spec fn wanted(player: Vec3i, view_distance: int, half: int, p: Vec3i) -> bool {
    let dx = p.x - player.x;
    let dy = p.y - player.y;
    let dz = p.z - player.z;
    dx * dx + dz * dz < view_distance * view_distance && -half <= dy <= half
}

/// Keys are non-decreasing in distance from `base` along the sequence.
pub open spec fn sorted_by_distance(base: Vec3i, s: Seq<Vec3i>) -> bool {
    forall|a: int, b: int|
        0 <= a < b < s.len() ==> dist_sq(base, s[a]) <= dist_sq(base, s[b])
}

/// The pending chunk loads and unloads, each ordered by ascending
/// distance to the viewer as of the last recompute.
#[derive(Debug)]
pub struct WorldQueues {
    pub chunk_load_queue: Vec<Vec3i>,
    pub chunk_unload_queue: Vec<Vec3i>,
}

impl WorldQueues {
    /// No coordinate is queued twice in the same queue.
    pub open spec fn wf(self) -> bool {
        self.chunk_load_queue@.no_duplicates() && self.chunk_unload_queue@.no_duplicates()
    }

    /// Empty queues.
    pub fn new() -> (r: WorldQueues)
        ensures
            r.wf(),
            r.chunk_load_queue@ == Seq::<Vec3i>::empty(),
            r.chunk_unload_queue@ == Seq::<Vec3i>::empty(),
    {
        WorldQueues { chunk_load_queue: Vec::new(), chunk_unload_queue: Vec::new() }
    }

    /// The nearest pending load, removed from the front of the queue.
    pub fn pop_next_load(&mut self) -> (r: Option<Vec3i>)
        requires
            old(self).wf(),
        ensures
            final(self).wf(),
            final(self).chunk_unload_queue == old(self).chunk_unload_queue,
            old(self).chunk_load_queue@.len() == 0 ==> r is None && *final(self) == *old(self),
            old(self).chunk_load_queue@.len() > 0 ==> r == Some(old(self).chunk_load_queue@[0])
                && final(self).chunk_load_queue@ == old(self).chunk_load_queue@.remove(0),
    {
        if self.chunk_load_queue.len() == 0 {
            None
        } else {
            let p = self.chunk_load_queue.remove(0);
            proof {
                lemma_remove_keeps_no_duplicates(old(self).chunk_load_queue@, 0);
            }
            Some(p)
        }
    }

    /// The nearest pending unload, removed from the front of the queue.
    pub fn pop_next_unload(&mut self) -> (r: Option<Vec3i>)
        requires
            old(self).wf(),
        ensures
            final(self).wf(),
            final(self).chunk_load_queue == old(self).chunk_load_queue,
            old(self).chunk_unload_queue@.len() == 0 ==> r is None && *final(self) == *old(self),
            old(self).chunk_unload_queue@.len() > 0 ==> r == Some(old(self).chunk_unload_queue@[0])
                && final(self).chunk_unload_queue@ == old(self).chunk_unload_queue@.remove(0),
    {
        if self.chunk_unload_queue.len() == 0 {
            None
        } else {
            let p = self.chunk_unload_queue.remove(0);
            proof {
                lemma_remove_keeps_no_duplicates(old(self).chunk_unload_queue@, 0);
            }
            Some(p)
        }
    }
}

impl Default for WorldQueues {
    /// Empty queues.
    fn default() -> (r: WorldQueues)
        ensures
            r.wf(),
            r.chunk_load_queue@ == Seq::<Vec3i>::empty(),
            r.chunk_unload_queue@ == Seq::<Vec3i>::empty(),
    {
        WorldQueues::new()
    }
}

/// What a sequence holds after a push: its old entries and the new one.
proof fn lemma_push_contains(s: Seq<Vec3i>, e: Vec3i, t: Seq<Vec3i>)
    requires
        t == s.push(e),
    ensures
        forall|p: Vec3i| #[trigger] t.contains(p) <==> (s.contains(p) || p == e),
{
    assert forall|p: Vec3i| #[trigger] t.contains(p) <==> (s.contains(p) || p == e) by {
        if s.contains(p) {
            let k = choose|k: int| 0 <= k < s.len() && s[k] == p;
            assert(t[k] == p);
        }
        if p == e {
            assert(t[s.len() as int] == p);
        }
        if t.contains(p) {
            let k = choose|k: int| 0 <= k < t.len() && t[k] == p;
            if k < s.len() {
                assert(s[k] == p);
            }
        }
    }
}

/// A wanted coordinate lies strictly inside the view circle on both
/// horizontal axes.
proof fn lemma_wanted_range(player: Vec3i, vd: int, vh: int, p: Vec3i)
    by (nonlinear_arith)
    requires
        wanted(player, vd, vh, p),
        vd >= 0,
    ensures
        -vd < p.x - player.x < vd,
        -vd < p.z - player.z < vd,
{
}

/// Squares of view offsets stay well inside `i32`.
proof fn lemma_sq_bound(v: int)
    by (nonlinear_arith)
    requires
        -32000 <= v <= 32000,
    ensures
        0 <= v * v <= 1_024_000_000,
{
}

/// Extending a prefix by one entry.
proof fn lemma_subrange_extend(s: Seq<Vec3i>, i: int)
    requires
        0 <= i < s.len(),
    ensures
        s.subrange(0, i + 1) == s.subrange(0, i).push(s[i]),
{
    assert(s.subrange(0, i + 1) =~= s.subrange(0, i).push(s[i]));
}

/// Removing an element keeps the remaining entries distinct.
proof fn lemma_remove_keeps_no_duplicates(s: Seq<Vec3i>, i: int)
    requires
        s.no_duplicates(),
        0 <= i < s.len(),
    ensures
        s.remove(i).no_duplicates(),
{
    let t = s.remove(i);
    assert forall|a: int, b: int| 0 <= a < b < t.len() implies t[a] != t[b] by {
        let a0 = if a < i {
            a
        } else {
            a + 1
        };
        let b0 = if b < i {
            b
        } else {
            b + 1
        };
        assert(t[a] == s[a0] && t[b] == s[b0]);
    }
}

/// Whether one of the first `n` registry slots of `w` holds coordinate
/// `p`.
pub open spec fn key_among(w: World, n: int, p: Vec3i) -> bool {
    exists|k: int| 0 <= k < n && #[trigger] w.key_at(k) == p
}

/// The unload queue after scanning the first `n` registry slots: its
/// initial entries, plus every scanned resident coordinate outside the
/// wanted set.
pub open spec fn unload_queue_holds(
    q: Seq<Vec3i>,
    u0: Seq<Vec3i>,
    w: World,
    valid: Seq<Vec3i>,
    n: int,
) -> bool {
    forall|p: Vec3i|
        #[trigger] q.contains(p) <==> (u0.contains(p) || (key_among(w, n, p) && !valid.contains(
            p,
        )))
}

/// The load queue after a recompute: exactly the wanted coordinates that
/// were already queued or are not resident.
pub open spec fn load_queue_holds(
    q: Seq<Vec3i>,
    l0: Seq<Vec3i>,
    w: World,
    valid: Seq<Vec3i>,
) -> bool {
    forall|p: Vec3i|
        #[trigger] q.contains(p) <==> (valid.contains(p) && (l0.contains(p) || !w.resident(p)))
}

/// The unload queue after a recompute: its earlier entries, plus every
/// resident coordinate outside the wanted set.
pub open spec fn unload_queue_final(
    q: Seq<Vec3i>,
    u0: Seq<Vec3i>,
    w: World,
    valid: Seq<Vec3i>,
) -> bool {
    forall|p: Vec3i|
        #[trigger] q.contains(p) <==> (u0.contains(p) || (w.resident(p) && !valid.contains(p)))
}

/// Whether a coordinate occurs in a vector of coordinates.
pub fn contains_position(v: &Vec<Vec3i>, p: Vec3i) -> (r: bool)
    ensures
        r == v@.contains(p),
{
    let n = v.len();
    let mut i: usize = 0;
    while i < n
        invariant
            i <= n,
            n == v.len(),
            forall|j: int| 0 <= j < i ==> v@[j] != p,
        decreases n - i,
    {
        if v[i] == p {
            return true;
        }
        i += 1;
    }
    assert(!v@.contains(p));
    false
}

/// All chunk coordinates within view of the viewer's chunk coordinate, in
/// a fixed scan order, each exactly once: exactly the wanted set.
pub fn get_valid_chunk_positions(
    player_chunk_position: Vec3i,
    view_distance: i32,
    view_distance_half: i32,
) -> (r: Vec<Vec3i>)
    requires
        0 <= view_distance <= 32000,
        0 <= view_distance_half <= 32000,
        CHUNK_COORD_MIN <= player_chunk_position.x <= CHUNK_COORD_MAX,
        CHUNK_COORD_MIN <= player_chunk_position.y <= CHUNK_COORD_MAX,
        CHUNK_COORD_MIN <= player_chunk_position.z <= CHUNK_COORD_MAX,
    ensures
        forall|p: Vec3i|
            r@.contains(p) <==> wanted(
                player_chunk_position,
                view_distance as int,
                view_distance_half as int,
                p,
            ),
        r@.no_duplicates(),
{
    let player = player_chunk_position;
    let ghost vd: int = view_distance as int;
    let ghost vh: int = view_distance_half as int;
    let mut valid_positions: Vec<Vec3i> = Vec::new();
    proof {
        assert forall|p: Vec3i| wanted(player, vd, vh, p) implies (-vd < p.x - player.x < vd && -vd
            < p.z - player.z < vd) by {
            lemma_wanted_range(player, vd, vh, p);
        }
    }
    let mut x: i32 = -view_distance;
    while x <= view_distance
        invariant
            -view_distance <= x <= view_distance + 1,
            0 <= view_distance <= 32000,
            0 <= view_distance_half <= 32000,
            CHUNK_COORD_MIN <= player.x <= CHUNK_COORD_MAX,
            CHUNK_COORD_MIN <= player.y <= CHUNK_COORD_MAX,
            CHUNK_COORD_MIN <= player.z <= CHUNK_COORD_MAX,
            vd == view_distance as int,
            vh == view_distance_half as int,
            valid_positions@.no_duplicates(),
            forall|p: Vec3i|
                valid_positions@.contains(p) <==> (wanted(player, vd, vh, p) && p.x - player.x < x),
        decreases view_distance + 1 - x,
    {
        proof {
            assert forall|p: Vec3i| wanted(player, vd, vh, p) implies (-vd < p.x - player.x < vd
                && -vd < p.z - player.z < vd) by {
                lemma_wanted_range(player, vd, vh, p);
            }
        }
        let mut z: i32 = -view_distance;
        while z <= view_distance
            invariant
                -view_distance <= x <= view_distance,
                -view_distance <= z <= view_distance + 1,
                0 <= view_distance <= 32000,
                0 <= view_distance_half <= 32000,
                CHUNK_COORD_MIN <= player.x <= CHUNK_COORD_MAX,
                CHUNK_COORD_MIN <= player.y <= CHUNK_COORD_MAX,
                CHUNK_COORD_MIN <= player.z <= CHUNK_COORD_MAX,
                vd == view_distance as int,
                vh == view_distance_half as int,
                valid_positions@.no_duplicates(),
                forall|p: Vec3i|
                    valid_positions@.contains(p) <==> (wanted(player, vd, vh, p) && (p.x - player.x
                        < x || (p.x - player.x == x && p.z - player.z < z))),
            decreases view_distance + 1 - z,
        {
            proof {
                assert forall|p: Vec3i| wanted(player, vd, vh, p) implies (-vd < p.x - player.x
                    < vd && -vd < p.z - player.z < vd) by {
                    lemma_wanted_range(player, vd, vh, p);
                }
                lemma_sq_bound(x as int);
                lemma_sq_bound(z as int);
                lemma_sq_bound(vd);
            }
            if x * x + z * z < view_distance * view_distance {
                let mut y: i32 = -view_distance_half;
                while y <= view_distance_half
                    invariant
                        -view_distance <= x <= view_distance,
                        -view_distance <= z <= view_distance,
                        x * x + z * z < view_distance * view_distance,
                        -view_distance_half <= y <= view_distance_half + 1,
                        0 <= view_distance <= 32000,
                        0 <= view_distance_half <= 32000,
                        CHUNK_COORD_MIN <= player.x <= CHUNK_COORD_MAX,
                        CHUNK_COORD_MIN <= player.y <= CHUNK_COORD_MAX,
                        CHUNK_COORD_MIN <= player.z <= CHUNK_COORD_MAX,
                        vd == view_distance as int,
                        vh == view_distance_half as int,
                        valid_positions@.no_duplicates(),
                        forall|p: Vec3i|
                            valid_positions@.contains(p) <==> (wanted(player, vd, vh, p) && (p.x
                                - player.x < x || (p.x - player.x == x && (p.z - player.z < z || (
                            p.z - player.z == z && p.y - player.y < y))))),
                    decreases view_distance_half + 1 - y,
                {
                    let chunk_position = Vec3i {
                        x: player.x + x,
                        y: player.y + y,
                        z: player.z + z,
                    };
                    let ghost pre = valid_positions@;
                    proof {
                        assert(wanted(player, vd, vh, chunk_position));
                        assert(!pre.contains(chunk_position));
                    }
                    valid_positions.push(chunk_position);
                    proof {
                        lemma_push_keeps_no_duplicates(pre, chunk_position);
                        lemma_push_contains(pre, chunk_position, valid_positions@);
                        assert forall|p: Vec3i|
                            valid_positions@.contains(p) <==> (wanted(player, vd, vh, p) && (p.x
                                - player.x < x || (p.x - player.x == x && (p.z - player.z < z || (
                            p.z - player.z == z && p.y - player.y < y + 1))))) by {
                            if p != chunk_position && wanted(player, vd, vh, p) && p.x - player.x
                                == x && p.z - player.z == z && p.y - player.y == y {
                                assert(p.x == chunk_position.x && p.y == chunk_position.y && p.z
                                    == chunk_position.z);
                            }
                        }
                    }
                    y += 1;
                }
            }
            z += 1;
        }
        x += 1;
    }
    valid_positions
}

/// Pushing an element not yet present keeps entries distinct.
proof fn lemma_push_keeps_no_duplicates(s: Seq<Vec3i>, e: Vec3i)
    requires
        s.no_duplicates(),
        !s.contains(e),
    ensures
        s.push(e).no_duplicates(),
{
    let t = s.push(e);
    assert forall|a: int, b: int| 0 <= a < b < t.len() implies t[a] != t[b] by {
        if b < s.len() {
            assert(t[a] == s[a] && t[b] == s[b]);
        } else {
            assert(t[b] == e);
            assert(t[a] == s[a]);
            assert(s.contains(s[a]));
        }
    }
}

/// Queue every wanted coordinate that is neither resident nor already
/// queued, then drop queued loads that fell out of the wanted set: the
/// load queue ends up holding exactly the valid coordinates that were
/// already queued or are not resident.
pub fn enqueue_valid_chunks(
    queues: &mut WorldQueues,
    world: &World,
    valid_positions: &Vec<Vec3i>,
)
    requires
        old(queues).wf(),
        world.wf(),
    ensures
        final(queues).wf(),
        final(queues).chunk_unload_queue == old(queues).chunk_unload_queue,
        forall|p: Vec3i|
            final(queues).chunk_load_queue@.contains(p) <==> (valid_positions@.contains(p) && (old(
                queues,
            ).chunk_load_queue@.contains(p) || !world.resident(p))),
        load_queue_holds(
            final(queues).chunk_load_queue@,
            old(queues).chunk_load_queue@,
            *world,
            valid_positions@,
        ),
{
    let ghost q0 = queues.chunk_load_queue@;
    let n = valid_positions.len();
    let mut i: usize = 0;
    while i < n
        invariant
            i <= n,
            n == valid_positions.len(),
            world.wf(),
            queues.wf(),
            queues.chunk_unload_queue == old(queues).chunk_unload_queue,
            forall|p: Vec3i|
                queues.chunk_load_queue@.contains(p) <==> (q0.contains(p) || (
                valid_positions@.subrange(0, i as int).contains(p) && !world.resident(p))),
        decreases n - i,
    {
        let chunk_position = valid_positions[i];
        let ghost pre = queues.chunk_load_queue@;
        let absent = !contains_position(&queues.chunk_load_queue, chunk_position);
        let not_resident = !world.chunk_exists(chunk_position);
        if absent && not_resident {
            proof {
                lemma_push_keeps_no_duplicates(pre, chunk_position);
            }
            queues.chunk_load_queue.push(chunk_position);
            proof {
                lemma_push_contains(pre, chunk_position, queues.chunk_load_queue@);
            }
        }
        proof {
            lemma_subrange_extend(valid_positions@, i as int);
            lemma_push_contains(
                valid_positions@.subrange(0, i as int),
                valid_positions@[i as int],
                valid_positions@.subrange(0, i + 1),
            );
            assert forall|p: Vec3i|
                queues.chunk_load_queue@.contains(p) <==> (q0.contains(p) || (
                valid_positions@.subrange(0, i + 1).contains(p) && !world.resident(p))) by {
                assert(valid_positions@.subrange(0, i + 1).contains(p) <==> (
                valid_positions@.subrange(0, i as int).contains(p) || p
                    == valid_positions@[i as int]));
                assert(pre.contains(p) <==> (q0.contains(p) || (valid_positions@.subrange(
                    0,
                    i as int,
                ).contains(p) && !world.resident(p))));
                if absent && not_resident {
                    assert(queues.chunk_load_queue@.contains(p) <==> (pre.contains(p) || p
                        == chunk_position));
                } else {
                    assert(queues.chunk_load_queue@ == pre);
                    if p == chunk_position && !world.resident(p) {
                        assert(pre.contains(p));
                    }
                }
            }
        }
        i += 1;
    }
    proof {
        assert(valid_positions@.subrange(0, n as int) =~= valid_positions@);
    }

    let mut kept: Vec<Vec3i> = Vec::new();
    let m = queues.chunk_load_queue.len();
    let mut j: usize = 0;
    while j < m
        invariant
            j <= m,
            m == queues.chunk_load_queue.len(),
            queues.chunk_load_queue@.no_duplicates(),
            kept@.no_duplicates(),
            forall|p: Vec3i|
                kept@.contains(p) <==> (queues.chunk_load_queue@.subrange(0, j as int).contains(p)
                    && valid_positions@.contains(p)),
        decreases m - j,
    {
        let p = queues.chunk_load_queue[j];
        if contains_position(valid_positions, p) {
            proof {
                assert(!queues.chunk_load_queue@.subrange(0, j as int).contains(p)) by {
                    if queues.chunk_load_queue@.subrange(0, j as int).contains(p) {
                        let k = choose|k: int|
                            0 <= k < j && queues.chunk_load_queue@.subrange(0, j as int)[k] == p;
                        assert(queues.chunk_load_queue@[k] == p);
                    }
                }
                lemma_push_keeps_no_duplicates(kept@, p);
            }
            let ghost kpre = kept@;
            kept.push(p);
            proof {
                lemma_push_contains(kpre, p, kept@);
            }
        }
        proof {
            let q = queues.chunk_load_queue@;
            lemma_subrange_extend(q, j as int);
            lemma_push_contains(q.subrange(0, j as int), q[j as int], q.subrange(0, j + 1));
        }
        j += 1;
    }
    proof {
        assert(queues.chunk_load_queue@.subrange(0, m as int) =~= queues.chunk_load_queue@);
    }
    queues.chunk_load_queue = kept;
}

/// Queue every resident coordinate that fell out of the wanted set and is
/// not already queued for unload.
pub fn enqueue_invalid_chunks(
    queues: &mut WorldQueues,
    world: &World,
    valid_positions: &Vec<Vec3i>,
)
    requires
        old(queues).wf(),
        world.wf(),
    ensures
        final(queues).wf(),
        final(queues).chunk_load_queue == old(queues).chunk_load_queue,
        forall|p: Vec3i|
            final(queues).chunk_unload_queue@.contains(p) <==> (old(
                queues,
            ).chunk_unload_queue@.contains(p) || (world.resident(p) && !valid_positions@.contains(
                p,
            ))),
        unload_queue_final(
            final(queues).chunk_unload_queue@,
            old(queues).chunk_unload_queue@,
            *world,
            valid_positions@,
        ),
{
    let ghost u0 = queues.chunk_unload_queue@;
    let n = world.chunks.len();
    let mut i: usize = 0;
    while i < n
        invariant
            i <= n,
            world.wf(),
            n == world.chunks.len(),
            queues.wf(),
            queues.chunk_load_queue == old(queues).chunk_load_queue,
            unload_queue_holds(
                queues.chunk_unload_queue@,
                u0,
                *world,
                valid_positions@,
                i as int,
            ),
        decreases n - i,
    {
        let chunk_position = world.chunks[i].0;
        let ghost pre = queues.chunk_unload_queue@;
        let not_queued = !contains_position(&queues.chunk_unload_queue, chunk_position);
        let not_wanted = !contains_position(valid_positions, chunk_position);
        if not_queued && not_wanted {
            proof {
                lemma_push_keeps_no_duplicates(pre, chunk_position);
            }
            queues.chunk_unload_queue.push(chunk_position);
            proof {
                lemma_push_contains(pre, chunk_position, queues.chunk_unload_queue@);
            }
        }
        proof {
            assert(world.key_at(i as int) == chunk_position);
            assert forall|p: Vec3i|
                #[trigger] queues.chunk_unload_queue@.contains(p) <==> (u0.contains(p) || (
                key_among(*world, i + 1, p) && !valid_positions@.contains(p))) by {
                assert(pre.contains(p) <==> (u0.contains(p) || (key_among(*world, i as int, p)
                    && !valid_positions@.contains(p))));
                assert(key_among(*world, i + 1, p) <==> (key_among(*world, i as int, p) || p
                    == chunk_position)) by {
                    if key_among(*world, i + 1, p) {
                        let k = choose|k: int| 0 <= k < i + 1 && #[trigger] world.key_at(k) == p;
                        if k == i {
                            assert(p == chunk_position);
                        } else {
                            assert(key_among(*world, i as int, p));
                        }
                    }
                    if p == chunk_position {
                        assert(world.key_at(i as int) == p);
                        assert(key_among(*world, i + 1, p));
                    }
                }
                if not_queued && not_wanted {
                    assert(queues.chunk_unload_queue@.contains(p) <==> (pre.contains(p) || p
                        == chunk_position));
                } else {
                    assert(queues.chunk_unload_queue@ == pre);
                    if p == chunk_position && !valid_positions@.contains(p) {
                        assert(pre.contains(p));
                    }
                }
            }
            assert(unload_queue_holds(
                queues.chunk_unload_queue@,
                u0,
                *world,
                valid_positions@,
                i + 1,
            ));
        }
        i += 1;
    }
    proof {
        assert forall|p: Vec3i|
            queues.chunk_unload_queue@.contains(p) <==> (u0.contains(p) || (world.resident(p)
                && !valid_positions@.contains(p))) by {
            assert(queues.chunk_unload_queue@.contains(p) <==> (u0.contains(p) || (key_among(
                *world,
                n as int,
                p,
            ) && !valid_positions@.contains(p))));
            assert(key_among(*world, n as int, p) <==> world.resident(p)) by {
                if world.resident(p) {
                    let k = choose|k: int|
                        0 <= k < world.chunks.len() && #[trigger] world.key_at(k) == p;
                    assert(0 <= k < n && world.key_at(k) == p);
                    assert(key_among(*world, n as int, p));
                }
                if key_among(*world, n as int, p) {
                    let k = choose|k: int| 0 <= k < n && #[trigger] world.key_at(k) == p;
                    assert(world.resident(p));
                }
            }
        }
    }
}

/// Re-sort a queue by ascending distance from `base`. The entries are
/// kept (as a multiset, hence also as a set), only their order changes.
pub fn sort_queue_by_distance(queue: &mut Vec<Vec3i>, base: Vec3i)
    ensures
        final(queue)@.to_multiset() == old(queue)@.to_multiset(),
        forall|p: Vec3i| final(queue)@.contains(p) == old(queue)@.contains(p),
        sorted_by_distance(base, final(queue)@),
        old(queue)@.no_duplicates() ==> final(queue)@.no_duplicates(),
{
    broadcast use group_to_multiset_ensures;

    let ghost orig = queue@;
    let mut sorted: Vec<Vec3i> = Vec::new();
    while queue.len() > 0
        invariant
            sorted@.to_multiset().add(queue@.to_multiset()) =~= orig.to_multiset(),
            sorted_by_distance(base, sorted@),
            forall|a: int, b: int|
                0 <= a < sorted@.len() && 0 <= b < queue@.len() ==> dist_sq(base, sorted@[a])
                    <= dist_sq(base, queue@[b]),
        decreases queue@.len(),
    {
        let n = queue.len();
        let mut m: usize = 0;
        let mut k: usize = 1;
        while k < n
            invariant
                m < k <= n,
                n == queue.len(),
                forall|j: int| 0 <= j < k ==> dist_sq(base, queue@[m as int]) <= dist_sq(
                    base,
                    queue@[j],
                ),
            decreases n - k,
        {
            if distance_squared(base, queue[k]) < distance_squared(base, queue[m]) {
                m = k;
            }
            k += 1;
        }
        let ghost queue_before = queue@;
        let ghost sorted_before = sorted@;
        let e = queue.remove(m);
        sorted.push(e);
        proof {
            queue_before.to_multiset_ensures();
            sorted_before.to_multiset_ensures();
            assert(queue@.to_multiset() =~= queue_before.to_multiset().remove(e));
            assert(sorted@.to_multiset() =~= sorted_before.to_multiset().insert(e));
            assert(queue_before.contains(e));
            assert(queue_before.to_multiset().count(e) > 0);
            assert(sorted@.to_multiset().add(queue@.to_multiset()) =~= orig.to_multiset());
            assert forall|b: int| 0 <= b < queue@.len() implies dist_sq(base, e) <= dist_sq(
                base,
                queue@[b],
            ) by {
                if b < m {
                    assert(queue@[b] == queue_before[b]);
                } else {
                    assert(queue@[b] == queue_before[b + 1]);
                }
            }
            assert forall|a: int| 0 <= a < sorted@.len() - 1 implies dist_sq(base, sorted@[a])
                <= dist_sq(base, e) by {
                assert(sorted@[a] == sorted_before[a]);
                assert(queue_before[m as int] == e);
            }
        }
    }
    proof {
        assert(queue@.to_multiset() =~= Seq::<Vec3i>::empty().to_multiset());
        assert(sorted@.to_multiset() =~= orig.to_multiset());
        assert forall|p: Vec3i| sorted@.contains(p) == orig.contains(p) by {
            assert(sorted@.contains(p) <==> sorted@.to_multiset().count(p) > 0);
            assert(orig.contains(p) <==> orig.to_multiset().count(p) > 0);
        }
        if orig.no_duplicates() {
            orig.lemma_multiset_has_no_duplicates();
            sorted@.lemma_multiset_has_no_duplicates_conv();
        }
    }
    *queue = sorted;
}

/// Re-sort both queues by ascending distance from the viewer's chunk
/// coordinate.
pub fn sort_chunk_queues(queues: &mut WorldQueues, base_position: Vec3i)
    requires
        old(queues).wf(),
    ensures
        final(queues).wf(),
        forall|p: Vec3i|
            final(queues).chunk_load_queue@.contains(p) == old(
                queues,
            ).chunk_load_queue@.contains(p),
        forall|p: Vec3i|
            final(queues).chunk_unload_queue@.contains(p) == old(
                queues,
            ).chunk_unload_queue@.contains(p),
        sorted_by_distance(base_position, final(queues).chunk_load_queue@),
        sorted_by_distance(base_position, final(queues).chunk_unload_queue@),
{
    sort_queue_by_distance(&mut queues.chunk_load_queue, base_position);
    sort_queue_by_distance(&mut queues.chunk_unload_queue, base_position);
}

/// One full streaming recompute, run when the viewer enters a new chunk
/// cell: rebuild the wanted set, queue missing wanted chunks for load,
/// drop stale queued loads, queue resident unwanted chunks for unload,
/// and re-sort both queues by ascending distance from the viewer.
pub fn recompute_chunk_queues(
    queues: &mut WorldQueues,
    world: &World,
    player_chunk_position: Vec3i,
)
    requires
        old(queues).wf(),
        world.wf(),
        CHUNK_COORD_MIN <= player_chunk_position.x <= CHUNK_COORD_MAX,
        CHUNK_COORD_MIN <= player_chunk_position.y <= CHUNK_COORD_MAX,
        CHUNK_COORD_MIN <= player_chunk_position.z <= CHUNK_COORD_MAX,
    ensures
        final(queues).wf(),
        forall|p: Vec3i|
            final(queues).chunk_load_queue@.contains(p) <==> (wanted(
                player_chunk_position,
                VIEW_DISTANCE as int,
                VIEW_DISTANCE_HALF as int,
                p,
            ) && (old(queues).chunk_load_queue@.contains(p) || !world.resident(p))),
        forall|p: Vec3i|
            final(queues).chunk_unload_queue@.contains(p) <==> (old(
                queues,
            ).chunk_unload_queue@.contains(p) || (world.resident(p) && !wanted(
                player_chunk_position,
                VIEW_DISTANCE as int,
                VIEW_DISTANCE_HALF as int,
                p,
            ))),
        sorted_by_distance(player_chunk_position, final(queues).chunk_load_queue@),
        sorted_by_distance(player_chunk_position, final(queues).chunk_unload_queue@),
{
    let ghost entry_load = queues.chunk_load_queue@;
    let ghost entry_unload = queues.chunk_unload_queue@;
    let valid_positions = get_valid_chunk_positions(
        player_chunk_position,
        VIEW_DISTANCE,
        VIEW_DISTANCE_HALF,
    );
    enqueue_valid_chunks(queues, world, &valid_positions);
    let ghost load_mid = queues.chunk_load_queue@;
    enqueue_invalid_chunks(queues, world, &valid_positions);
    let ghost load_post = queues.chunk_load_queue@;
    let ghost unload_post = queues.chunk_unload_queue@;
    sort_chunk_queues(queues, player_chunk_position);
    proof {
        assert forall|p: Vec3i|
            queues.chunk_load_queue@.contains(p) <==> (wanted(
                player_chunk_position,
                VIEW_DISTANCE as int,
                VIEW_DISTANCE_HALF as int,
                p,
            ) && (entry_load.contains(p) || !world.resident(p))) by {
            assert(queues.chunk_load_queue@.contains(p) == load_post.contains(p));
            assert(load_post == load_mid);
            assert(load_queue_holds(load_mid, entry_load, *world, valid_positions@));
            assert(load_mid.contains(p) <==> (valid_positions@.contains(p) && (
            entry_load.contains(p) || !world.resident(p))));
            assert(valid_positions@.contains(p) <==> wanted(
                player_chunk_position,
                VIEW_DISTANCE as int,
                VIEW_DISTANCE_HALF as int,
                p,
            ));
        }
        assert forall|p: Vec3i|
            queues.chunk_unload_queue@.contains(p) <==> (entry_unload.contains(p) || (
            world.resident(p) && !wanted(
                player_chunk_position,
                VIEW_DISTANCE as int,
                VIEW_DISTANCE_HALF as int,
                p,
            ))) by {
            assert(queues.chunk_unload_queue@.contains(p) == unload_post.contains(p));
            assert(unload_queue_final(unload_post, entry_unload, *world, valid_positions@));
            assert(unload_post.contains(p) <==> (entry_unload.contains(p) || (world.resident(p)
                && !valid_positions@.contains(p))));
            assert(valid_positions@.contains(p) <==> wanted(
                player_chunk_position,
                VIEW_DISTANCE as int,
                VIEW_DISTANCE_HALF as int,
                p,
            ));
        }
    }
}

} // verus!
