//! Data-port planning for the admin hub.
//!
//! A server reports its visitor-port mappings; mappings that are enabled but
//! have no data port get one, chosen as the smallest free ports at or above
//! the hub's port base. A port is free when no mapping already uses it as a
//! visitor port or as a data port.

use vstd::prelude::*;
use std::collections::HashSet;

verus! {

broadcast use vstd::std_specs::hash::group_hash_axioms;

/// One visitor-port mapping of a server, as reported to the hub and as
/// pushed back in the hub's listen plan.
pub struct PortBinding {
    pub route_id: String,
    pub node_id: String,
    pub visitor_port: u16,
    pub data_port: Option<u16>,
    pub protocol: String,
    pub local_addr: String,
    pub enabled: bool,
}

/// The mapping still waits for a data port.
pub open spec fn needs_port(m: PortBinding) -> bool {
    m.enabled && m.data_port is None
}

/// `m` occupies port `p`, as visitor port or as data port.
pub open spec fn occupies(m: PortBinding, p: u16) -> bool {
    m.visitor_port == p || m.data_port == Some(p)
}

/// The ports that the mappings `ms` occupy.
pub open spec fn used_ports(ms: Seq<PortBinding>) -> Set<u16> {
    Set::new(|p: u16| exists|j: int| 0 <= j < ms.len() && occupies(#[trigger] ms[j], p))
}

/// The first port the plan may hand out.
pub open spec fn first_port(base: u16) -> int {
    if base == 0 {
        1
    } else {
        base as int
    }
}

/// How many ports in `lo..=65535` are not in `used`.
pub open spec fn free_count(used: Set<u16>, lo: int) -> nat
    decreases 65536 - lo,
{
    if lo > 65535 {
        0
    } else {
        free_count(used, lo + 1) + if used.contains(lo as u16) {
            0nat
        } else {
            1nat
        }
    }
}

/// How many mappings of `ms` wait for a data port.
pub open spec fn need_count(ms: Seq<PortBinding>) -> nat
    decreases ms.len(),
{
    if ms.len() == 0 {
        0
    } else {
        need_count(ms.drop_first()) + if needs_port(ms[0]) {
            1nat
        } else {
            0nat
        }
    }
}

/// There are enough free ports at or above the base for every mapping that
/// waits for one.
pub open spec fn ports_available(ms: Seq<PortBinding>, base: u16) -> bool {
    need_count(ms) <= free_count(used_ports(ms), first_port(base))
}

/// The plan kept the mapping at `i` unchanged but for its data port.
pub open spec fn same_but_port(a: PortBinding, b: PortBinding) -> bool {
    &&& a.route_id == b.route_id
    &&& a.node_id == b.node_id
    &&& a.visitor_port == b.visitor_port
    &&& a.protocol == b.protocol
    &&& a.local_addr == b.local_addr
    &&& a.enabled == b.enabled
}

/// Mapping `j` waited for a port and the plan gave it `q`.
pub open spec fn given(before: Seq<PortBinding>, after: Seq<PortBinding>, j: int, q: u16) -> bool {
    needs_port(before[j]) && after[j].data_port == Some(q)
}

/// The data port that the plan gave mapping `i`.
pub open spec fn port_at(after: Seq<PortBinding>, i: int) -> int {
    match after[i].data_port {
        Some(p) => p as int,
        None => -1,
    }
}

/// `after` is the hub's plan for `before` with port base `base`:
/// - every mapping keeps everything but its data port;
/// - a mapping that did not wait for a port keeps its data port;
/// - a mapping that waited and got a port got one at or above the base that
///   no mapping occupied;
/// - a mapping that waited and got none found every free port at or above
///   the base handed to an earlier mapping;
/// - when there are enough free ports, every waiting mapping gets one;
/// - the ports handed out grow strictly in the order of the mappings;
/// - no free port at or above the base is skipped: any free port below one
///   handed out went to an earlier mapping.
pub open spec fn port_plan(base: u16, before: Seq<PortBinding>, after: Seq<PortBinding>) -> bool {
    &&& after.len() == before.len()
    &&& forall|i: int| 0 <= i < before.len() ==> same_but_port(#[trigger] after[i], before[i])
    &&& forall|i: int|
        0 <= i < before.len() && !needs_port(#[trigger] before[i]) ==> after[i].data_port
            == before[i].data_port
    &&& forall|i: int|
        0 <= i < before.len() && needs_port(#[trigger] before[i]) && after[i].data_port is Some ==> {
            &&& !used_ports(before).contains(after[i].data_port->0)
            &&& first_port(base) <= after[i].data_port->0
        }
    &&& forall|i: int, q: u16|
        #![trigger before[i], used_ports(before).contains(q)]
        0 <= i < before.len() && needs_port(before[i]) && after[i].data_port is None && first_port(
            base,
        ) <= q && !used_ports(before).contains(q) ==> exists|j: int|
            0 <= j < i && #[trigger] given(before, after, j, q)
    &&& ports_available(before, base) ==> forall|i: int|
        0 <= i < before.len() && needs_port(#[trigger] before[i]) ==> after[i].data_port is Some
    &&& forall|i: int, j: int|
        0 <= i < j < before.len() && needs_port(#[trigger] before[i]) && needs_port(
            #[trigger] before[j],
        ) && after[i].data_port is Some && after[j].data_port is Some ==> port_at(after, i)
            < port_at(after, j)
    &&& forall|i: int, q: u16|
        #![trigger before[i], used_ports(before).contains(q)]
        0 <= i < before.len() && needs_port(before[i]) && first_port(base) <= q
            < port_at(after, i) && !used_ports(before).contains(q) ==> exists|j: int|
            0 <= j < i && #[trigger] given(before, after, j, q)
}

// ---------------------------------------------------------------------------
// Lemmas on the counting functions
// ---------------------------------------------------------------------------

proof fn lemma_free_count_insert_below(used: Set<u16>, p: u16, lo: int)
    requires
        p < lo,
    ensures
        free_count(used.insert(p), lo) == free_count(used, lo),
    decreases 65536 - lo,
{
    if lo <= 65535 {
        lemma_free_count_insert_below(used, p, lo + 1);
        assert(used.insert(p).contains(lo as u16) == used.contains(lo as u16));
    }
}

proof fn lemma_free_count_positive(used: Set<u16>, lo: int)
    requires
        free_count(used, lo) > 0,
    ensures
        lo <= 65535,
{
}

proof fn lemma_need_count_step(ms: Seq<PortBinding>, i: int)
    requires
        0 <= i < ms.len(),
    ensures
        need_count(ms.subrange(i, ms.len() as int)) == need_count(ms.subrange(i + 1, ms.len() as int))
            + if needs_port(ms[i]) {
            1nat
        } else {
            0nat
        },
{
    let s = ms.subrange(i, ms.len() as int);
    assert(s.drop_first() =~= ms.subrange(i + 1, ms.len() as int));
    assert(s[0] == ms[i]);
}

proof fn lemma_used_ports_step(ms: Seq<PortBinding>, i: int)
    requires
        0 <= i < ms.len(),
    ensures
        used_ports(ms.take(i + 1)) == used_ports(ms.take(i)).insert(ms[i].visitor_port).union(
            match ms[i].data_port {
                Some(d) => set![d],
                None => Set::empty(),
            },
        ),
{
    let a = used_ports(ms.take(i + 1));
    let b = used_ports(ms.take(i)).insert(ms[i].visitor_port).union(
        match ms[i].data_port {
            Some(d) => set![d],
            None => Set::empty(),
        },
    );
    assert forall|p: u16| a.contains(p) implies b.contains(p) by {
        let j = choose|j: int| 0 <= j < ms.take(i + 1).len() && occupies(#[trigger] ms.take(i + 1)[j], p);
        if j < i {
            assert(ms.take(i)[j] == ms.take(i + 1)[j]);
        }
    }
    assert forall|p: u16| b.contains(p) implies a.contains(p) by {
        if used_ports(ms.take(i)).contains(p) {
            let j = choose|j: int| 0 <= j < ms.take(i).len() && occupies(#[trigger] ms.take(i)[j], p);
            assert(ms.take(i + 1)[j] == ms.take(i)[j]);
        } else {
            assert(occupies(ms.take(i + 1)[i], p));
        }
    }
    assert(a =~= b);
}

// ---------------------------------------------------------------------------
// Executable planning
// ---------------------------------------------------------------------------

/// The set of ports that `ms` occupies, as visitor or data ports.
fn collect_used(ms: &Vec<PortBinding>) -> (r: HashSet<u16>)
    ensures
        r@ == used_ports(ms@),
{
    let mut used: HashSet<u16> = HashSet::new();
    let mut i: usize = 0;
    while i < ms.len()
        invariant
            i <= ms.len(),
            used@ == used_ports(ms@.take(i as int)),
        decreases ms.len() - i,
    {
        proof {
            lemma_used_ports_step(ms@, i as int);
        }
        match ms[i].data_port {
            Some(d) => {
                used.insert(d);
            },
            None => {},
        }
        used.insert(ms[i].visitor_port);
        assert(used@ =~= used_ports(ms@.take(i + 1)));
        i = i + 1;
    }
    assert(ms@.take(ms.len() as int) =~= ms@);
    used
}

/// Whether the plan for `mappings` with port base `port_base` can hand a data
/// port to every enabled mapping that lacks one.
pub fn can_issue_ports(port_base: u16, mappings: &Vec<PortBinding>) -> (r: bool)
    ensures
        r == ports_available(mappings@, port_base),
{
    let used = collect_used(mappings);
    let n = mappings.len();
    let mut need: usize = 0;
    let mut k: usize = n;
    while k > 0
        invariant
            k <= n == mappings.len(),
            need as nat == need_count(mappings@.subrange(k as int, n as int)),
            need <= n - k,
        decreases k,
    {
        proof {
            lemma_need_count_step(mappings@, k - 1);
        }
        if mappings[k - 1].enabled && mappings[k - 1].data_port.is_none() {
            need = need + 1;
        }
        k = k - 1;
    }
    assert(mappings@.subrange(0, n as int) =~= mappings@);
    let first: u32 = if port_base == 0 {
        1
    } else {
        port_base as u32
    };
    let mut free: u32 = 0;
    let mut p: u32 = 65536;
    while p > first
        invariant
            first <= p <= 65536,
            first >= 1,
            free as nat == free_count(used@, p as int),
            free <= 65536 - p,
        decreases p,
    {
        p = p - 1;
        if !used.contains(&(p as u16)) {
            free = free + 1;
        }
    }
    (need as u64) <= (free as u64)
}

/// Hands each enabled mapping without a data port the smallest free port at
/// or above `port_base` (at least 1), in the order of the mappings; once the
/// free ports run out, the remaining ones keep no data port.
pub fn plan_ports(port_base: u16, mappings: Vec<PortBinding>) -> (r: Vec<PortBinding>)
    ensures
        port_plan(port_base, mappings@, r@),
{
    let ghost before = mappings@;
    let ghost used0 = used_ports(mappings@);
    let mut ms = mappings;
    let mut used = collect_used(&ms);
    let first: u32 = if port_base == 0 {
        1
    } else {
        port_base as u32
    };
    let mut next: u32 = first;
    let n = ms.len();
    let mut i: usize = 0;
    proof {
        assert(before.subrange(0, n as int) =~= before);
    }
    while i < n
        invariant
            n == ms.len() == before.len(),
            i <= n,
            first as int == first_port(port_base),
            first <= next <= 65536,
            ports_available(before, port_base) ==> need_count(before.subrange(i as int, n as int))
                <= free_count(used@, next as int),
            forall|k: int| 0 <= k < n ==> same_but_port(#[trigger] ms@[k], before[k]),
            forall|k: int| i <= k < n ==> ms@[k].data_port == before[k].data_port,
            forall|k: int|
                0 <= k < i && !needs_port(#[trigger] before[k]) ==> ms@[k].data_port
                    == before[k].data_port,
            forall|k: int|
                0 <= k < i && needs_port(#[trigger] before[k]) && ms@[k].data_port is Some ==> {
                    &&& !used0.contains(ms@[k].data_port->0)
                    &&& first <= ms@[k].data_port->0 < next
                },
            forall|k: int|
                0 <= k < i && needs_port(#[trigger] before[k]) && ms@[k].data_port is None ==> next
                    == 65536,
            ports_available(before, port_base) ==> forall|k: int|
                0 <= k < i && needs_port(#[trigger] before[k]) ==> ms@[k].data_port is Some,
            forall|k: int, q: u16|
                #![trigger before[k], used0.contains(q)]
                0 <= k < i && needs_port(before[k]) && ms@[k].data_port is None && first <= q
                    && !used0.contains(q) ==> exists|j: int|
                    0 <= j < k && #[trigger] given(before, ms@, j, q),
            forall|p: u16|
                used@.contains(p) <==> (used0.contains(p) || exists|j: int|
                    0 <= j < i && #[trigger] given(before, ms@, j, p)),
            forall|a: int, b: int|
                0 <= a < b < i && needs_port(#[trigger] before[a]) && needs_port(
                    #[trigger] before[b],
                ) && ms@[a].data_port is Some && ms@[b].data_port is Some ==> port_at(ms@, a)
                    < port_at(ms@, b),
            forall|a: int, q: u16|
                #![trigger before[a], used0.contains(q)]
                0 <= a < i && needs_port(before[a]) && first <= q < port_at(ms@, a)
                    && !used0.contains(q) ==> exists|j: int|
                    0 <= j < a && #[trigger] given(before, ms@, j, q),
            forall|q: u16|
                #![trigger used0.contains(q)]
                first <= q < next && !used0.contains(q) ==> exists|j: int|
                    0 <= j < i && #[trigger] given(before, ms@, j, q),
        decreases n - i,
    {
        proof {
            lemma_need_count_step(before, i as int);
        }
        if ms[i].enabled && ms[i].data_port.is_none() {
            // Skip ports that are taken.
            let ghost next0 = next;
            while next <= 65535 && used.contains(&(next as u16))
                invariant
                    first <= next0 <= next <= 65536,
                    ports_available(before, port_base) ==> need_count(
                        before.subrange(i as int, n as int),
                    ) <= free_count(used@, next as int),
                    need_count(before.subrange(i as int, n as int)) >= 1,
                    forall|q: u16|
                        #![trigger used0.contains(q)]
                        first <= q < next && !used0.contains(q) ==> exists|j: int|
                            0 <= j < i && #[trigger] given(before, ms@, j, q),
                    forall|p: u16|
                        used@.contains(p) <==> (used0.contains(p) || exists|j: int|
                            0 <= j < i && #[trigger] given(before, ms@, j, p)),
                decreases 65536 - next,
            {
                next = next + 1;
            }
            if next <= 65535 {
                let p = next as u16;
                let ghost old_ms = ms@;
                let ghost old_used = used@;
                ms[i].data_port = Some(p);
                used.insert(p);
                next = next + 1;
                proof {
                    assert(!old_used.contains(p));
                    if ports_available(before, port_base) {
                        lemma_free_count_insert_below(old_used, p, next as int);
                    }
                    assert forall|k: int| 0 <= k < n && k != i implies ms@[k] == old_ms[k] by {}
                    assert(given(before, ms@, i as int, p));
                    assert forall|j: int, q: u16| 0 <= j < i && given(before, old_ms, j, q) implies given(
                        before,
                        ms@,
                        j,
                        q,
                    ) by {
                        assert(ms@[j] == old_ms[j]);
                    }
                    assert forall|q: u16| used@.contains(q) <==> (used0.contains(q) || exists|j: int|
                        0 <= j < i + 1 && #[trigger] given(before, ms@, j, q)) by {
                        if used@.contains(q) && !used0.contains(q) && q != p {
                            let j = choose|j: int| 0 <= j < i && #[trigger] given(before, old_ms, j, q);
                            assert(given(before, ms@, j, q));
                        }
                        if exists|j: int| 0 <= j < i + 1 && #[trigger] given(before, ms@, j, q) {
                            let j = choose|j: int| 0 <= j < i + 1 && #[trigger] given(before, ms@, j, q);
                            if j < i {
                                assert(ms@[j] == old_ms[j]);
                                assert(given(before, old_ms, j, q));
                            }
                        }
                    }
                    assert forall|q: u16| first <= q < next && !used0.contains(q) implies exists|j: int|
                        0 <= j < i + 1 && #[trigger] given(before, ms@, j, q) by {
                        if q < p {
                            let j = choose|j: int| 0 <= j < i && #[trigger] given(before, old_ms, j, q);
                            assert(given(before, ms@, j, q));
                        } else {
                            assert(q == p);
                            assert(given(before, ms@, i as int, q));
                        }
                    }
                    assert forall|a: int, q: u16|
                        #![trigger before[a], used0.contains(q)]
                        0 <= a < i + 1 && needs_port(before[a]) && first <= q < port_at(ms@, a)
                            && !used0.contains(q) implies exists|j: int|
                        0 <= j < a && #[trigger] given(before, ms@, j, q) by {
                        if a < i {
                            assert(ms@[a] == old_ms[a]);
                            let j = choose|j: int| 0 <= j < a && #[trigger] given(before, old_ms, j, q);
                            assert(given(before, ms@, j, q));
                        } else {
                            let j = choose|j: int| 0 <= j < i && #[trigger] given(before, old_ms, j, q);
                            assert(given(before, ms@, j, q));
                        }
                    }
                    assert forall|a: int, b: int|
                        0 <= a < b < i + 1 && needs_port(#[trigger] before[a]) && needs_port(
                            #[trigger] before[b],
                        ) implies port_at(ms@, a) < port_at(ms@, b) by {
                        assert(ms@[a] == old_ms[a]);
                        if b < i {
                            assert(ms@[b] == old_ms[b]);
                        }
                    }
                }
            } else {
                proof {
                    if ports_available(before, port_base) {
                        assert(free_count(used@, next as int) == 0);
                    }
                    assert forall|q: u16| used@.contains(q) <==> (used0.contains(q) || exists|j: int|
                        0 <= j < i + 1 && #[trigger] given(before, ms@, j, q)) by {
                        if exists|j: int| 0 <= j < i + 1 && #[trigger] given(before, ms@, j, q) {
                            let j = choose|j: int| 0 <= j < i + 1 && #[trigger] given(before, ms@, j, q);
                            assert(j != i);
                        }
                    }
                    assert forall|q: u16| first <= q < next && !used0.contains(q) implies exists|j: int|
                        0 <= j < i + 1 && #[trigger] given(before, ms@, j, q) by {
                        let j = choose|j: int| 0 <= j < i && #[trigger] given(before, ms@, j, q);
                    }
                }
            }
        } else {
            proof {
                assert forall|q: u16| used@.contains(q) <==> (used0.contains(q) || exists|j: int|
                    0 <= j < i + 1 && #[trigger] given(before, ms@, j, q)) by {
                    if exists|j: int| 0 <= j < i + 1 && #[trigger] given(before, ms@, j, q) {
                        let j = choose|j: int| 0 <= j < i + 1 && #[trigger] given(before, ms@, j, q);
                        assert(j != i);
                    }
                }
                assert forall|q: u16| first <= q < next && !used0.contains(q) implies exists|j: int|
                    0 <= j < i + 1 && #[trigger] given(before, ms@, j, q) by {
                    let j = choose|j: int| 0 <= j < i && #[trigger] given(before, ms@, j, q);
                }
            }
        }
        i = i + 1;
    }
    ms
}

/// A planned data port never clashes: it is no mapping's visitor port, and
/// no two mappings end up with the same handed-out port.
pub proof fn planned_ports_never_clash(base: u16, before: Seq<PortBinding>, after: Seq<PortBinding>)
    requires
        port_plan(base, before, after),
    ensures
        forall|i: int, j: int|
            0 <= i < before.len() && 0 <= j < before.len() && needs_port(#[trigger] before[i])
                ==> after[i].data_port != Some(#[trigger] after[j].visitor_port),
        forall|i: int, j: int|
            0 <= i < before.len() && 0 <= j < before.len() && i != j && needs_port(
                #[trigger] before[i],
            ) && after[i].data_port is Some ==> after[i].data_port != #[trigger] after[j].data_port,
{
    assert forall|i: int, j: int|
        0 <= i < before.len() && 0 <= j < before.len() && needs_port(#[trigger] before[i])
            implies after[i].data_port != Some(#[trigger] after[j].visitor_port) by {
        assert(same_but_port(after[j], before[j]));
        if after[i].data_port == Some(after[j].visitor_port) {
            assert(occupies(before[j], after[j].visitor_port));
            assert(used_ports(before).contains(after[j].visitor_port));
        }
    }
    assert forall|i: int, j: int|
        0 <= i < before.len() && 0 <= j < before.len() && i != j && needs_port(
            #[trigger] before[i],
        ) && after[i].data_port is Some implies after[i].data_port != #[trigger] after[j].data_port by {
        if needs_port(before[j]) && after[j].data_port is Some {
            if i < j {
                assert(port_at(after, i) < port_at(after, j));
            } else {
                assert(port_at(after, j) < port_at(after, i));
            }
        } else if before[j].data_port is Some {
            let p = before[j].data_port->0;
            assert(after[j].data_port == before[j].data_port);
            assert(occupies(before[j], p));
            assert(used_ports(before).contains(p));
        }
    }
}

/// Ports run out in order: once a waiting mapping is left without a data
/// port, every later waiting mapping is left without one too.
pub proof fn ports_run_out_in_order(base: u16, before: Seq<PortBinding>, after: Seq<PortBinding>)
    requires
        port_plan(base, before, after),
    ensures
        forall|i: int, j: int|
            0 <= i < j < before.len() && needs_port(#[trigger] before[i]) && needs_port(
                #[trigger] before[j],
            ) && after[i].data_port is None ==> after[j].data_port is None,
{
    assert forall|i: int, j: int|
        0 <= i < j < before.len() && needs_port(#[trigger] before[i]) && needs_port(
            #[trigger] before[j],
        ) && after[i].data_port is None implies after[j].data_port is None by {
        if after[j].data_port is Some {
            let q = after[j].data_port->0;
            assert(!used_ports(before).contains(q));
            assert(first_port(base) <= q);
            let k = choose|k: int| 0 <= k < i && #[trigger] given(before, after, k, q);
            assert(port_at(after, k) < port_at(after, j));
        }
    }
}

/// Planning a plan again changes nothing when there were enough free ports:
/// after one plan no enabled mapping is left without a data port.
pub proof fn replanning_changes_nothing(
    base: u16,
    before: Seq<PortBinding>,
    after: Seq<PortBinding>,
    base2: u16,
    again: Seq<PortBinding>,
)
    requires
        port_plan(base, before, after),
        ports_available(before, base),
        port_plan(base2, after, again),
    ensures
        again == after,
{
    assert forall|i: int| 0 <= i < after.len() implies !needs_port(#[trigger] after[i]) by {
        assert(same_but_port(after[i], before[i]));
    }
    assert forall|i: int| 0 <= i < after.len() implies #[trigger] again[i] == after[i] by {
        assert(!needs_port(after[i]));
        assert(same_but_port(again[i], after[i]));
    }
    assert(again =~= after);
}

} // verus!
