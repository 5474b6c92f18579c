//! The KV-cluster resharder's planning: classify slots to move so every
//! master ends near `16384 / N`, and build the exact command argument
//! lists of the migration protocol. Issuing the commands over node
//! connections is the caller's outside work.

use vstd::prelude::*;
use vstd::string::StringExecFns;

use crate::json_value::{dec_digits, u64_to_string};

verus! {

/// The fixed slot-space size of the cluster.
pub const SLOTS_COUNT: usize = 16384;

/// One master node of the cluster.
#[derive(Clone, Debug, PartialEq)]
pub struct ClusterNode {
    pub id: String,
    pub host: String,
    pub port: String,
    pub address: String,
    pub slots: Vec<u16>,
}

/// The resharding extractor: it holds the cluster URL; the caller
/// snapshots the topology over that connection, lets `plan_reshard`
/// decide the moves, and issues the command lists built below, node by
/// node, failing fast on the first slot that cannot be moved.
pub struct RedisReshardExtractor {
    pub url: String,
}

/// The slots every node holds beyond the per-node target, in node order.
pub open spec fn move_out_slots_spec(nodes: Seq<ClusterNode>, avg: int, i: int) -> Seq<u16>
    decreases nodes.len() - i,
{
    if i < 0 || i >= nodes.len() {
        Seq::<u16>::empty()
    } else {
        let extra = if nodes[i].slots@.len() > avg {
            nodes[i].slots@.subrange(avg, nodes[i].slots@.len() as int)
        } else {
            Seq::<u16>::empty()
        };
        extra + move_out_slots_spec(nodes, avg, i + 1)
    }
}

/// How many slots the node at `i` demands.
pub open spec fn deficit_of(node: ClusterNode, avg: int) -> int {
    if node.slots@.len() < avg {
        avg - node.slots@.len()
    } else {
        0
    }
}

/// The greedy deal of the move-out slots to the nodes below target, in
/// node order: each taker receives the next slots up to its deficit.
pub open spec fn move_in_plan_spec(
    nodes: Seq<ClusterNode>,
    avg: int,
    pool: Seq<u16>,
    cursor: int,
    i: int,
) -> Seq<(String, Seq<u16>)>
    decreases nodes.len() - i,
{
    if i < 0 || i >= nodes.len() {
        Seq::<(String, Seq<u16>)>::empty()
    } else if nodes[i].slots@.len() >= avg || cursor >= pool.len() {
        move_in_plan_spec(nodes, avg, pool, cursor, i + 1)
    } else {
        let count = if pool.len() - cursor < deficit_of(nodes[i], avg) {
            pool.len() - cursor
        } else {
            deficit_of(nodes[i], avg)
        };
        seq![(nodes[i].id, pool.subrange(cursor, cursor + count))] + move_in_plan_spec(
            nodes,
            avg,
            pool,
            cursor + count,
            i + 1,
        )
    }
}

/// Plan a reshard: the slots each under-target node should receive, dealt
/// greedily from the slots the over-target nodes give up.
pub fn plan_reshard(nodes: &Vec<ClusterNode>) -> (r: Vec<(String, Vec<u16>)>)
    requires
        nodes@.len() > 0,
    ensures
        r@.map_values(|e: (String, Vec<u16>)| (e.0, e.1@)) == move_in_plan_spec(
            nodes@,
            (SLOTS_COUNT as int) / (nodes@.len() as int),
            move_out_slots_spec(nodes@, (SLOTS_COUNT as int) / (nodes@.len() as int), 0),
            0,
            0,
        ),
{
    let avg_slot_count = SLOTS_COUNT / nodes.len();
    let ghost avg = avg_slot_count as int;
    let mut move_out_slots: Vec<u16> = Vec::new();
    let mut i: usize = 0;
    proof {
        assert(move_out_slots@ =~= Seq::<u16>::empty());
    }
    while i < nodes.len()
        invariant
            i <= nodes@.len(),
            avg == avg_slot_count as int,
            move_out_slots_spec(nodes@, avg, 0) == move_out_slots@ + move_out_slots_spec(
                nodes@,
                avg,
                i as int,
            ),
        decreases nodes@.len() - i,
    {
        let ghost prev = move_out_slots@;
        let node = &nodes[i];
        let mut k: usize = avg_slot_count;
        while k < node.slots.len()
            invariant
                avg_slot_count <= k <= node.slots@.len() || k == avg_slot_count,
                node == nodes@[i as int],
                i < nodes@.len(),
                avg == avg_slot_count as int,
                node.slots@.len() > avg ==> move_out_slots@ == prev + node.slots@.subrange(
                    avg,
                    k as int,
                ),
                node.slots@.len() <= avg ==> move_out_slots@ == prev,
                k >= avg_slot_count,
            decreases node.slots@.len() - k,
        {
            move_out_slots.push(node.slots[k]);
            k = k + 1;
            proof {
                assert(move_out_slots@ =~= prev + node.slots@.subrange(avg, k as int));
            }
        }
        proof {
            let extra = if nodes@[i as int].slots@.len() > avg {
                nodes@[i as int].slots@.subrange(avg, nodes@[i as int].slots@.len() as int)
            } else {
                Seq::<u16>::empty()
            };
            assert(move_out_slots@ =~= prev + extra);
            assert(prev + move_out_slots_spec(nodes@, avg, i as int) =~= move_out_slots@
                + move_out_slots_spec(nodes@, avg, i + 1));
        }
        i = i + 1;
    }
    proof {
        assert(move_out_slots_spec(nodes@, avg, nodes@.len() as int) =~= Seq::<u16>::empty());
        assert(move_out_slots@ =~= move_out_slots_spec(nodes@, avg, 0));
    }
    let ghost pool = move_out_slots@;
    let mut plan: Vec<(String, Vec<u16>)> = Vec::new();
    let mut cursor: usize = 0;
    let mut j: usize = 0;
    let ghost m = |e: (String, Vec<u16>)| (e.0, e.1@);
    proof {
        assert(plan@.map_values(m) =~= Seq::<(String, Seq<u16>)>::empty());
    }
    while j < nodes.len()
        invariant
            j <= nodes@.len(),
            cursor <= pool.len(),
            pool == move_out_slots@,
            avg == avg_slot_count as int,
            m == (|e: (String, Vec<u16>)| (e.0, e.1@)),
            move_in_plan_spec(nodes@, avg, pool, 0, 0) == plan@.map_values(m)
                + move_in_plan_spec(nodes@, avg, pool, cursor as int, j as int),
        decreases nodes@.len() - j,
    {
        let ghost prev_plan = plan@;
        let ghost prev_cursor = cursor as int;
        let node = &nodes[j];
        if node.slots.len() < avg_slot_count && cursor < move_out_slots.len() {
            let deficit = avg_slot_count - node.slots.len();
            let remaining = move_out_slots.len() - cursor;
            let count = if remaining < deficit {
                remaining
            } else {
                deficit
            };
            let mut slots: Vec<u16> = Vec::new();
            let pool_len = move_out_slots.len();
            let mut t: usize = 0;
            while t < count
                invariant
                    t <= count,
                    pool_len == pool.len(),
                    cursor + count <= pool_len,
                    pool == move_out_slots@,
                    slots@ == pool.subrange(cursor as int, cursor + t),
                decreases count - t,
            {
                slots.push(move_out_slots[cursor + t]);
                t = t + 1;
                proof {
                    assert(slots@ =~= pool.subrange(cursor as int, cursor + t));
                }
            }
            plan.push((node.id.clone(), slots));
            cursor = cursor + count;
            proof {
                assert(count as int == if pool.len() - prev_cursor < deficit_of(
                    nodes@[j as int],
                    avg,
                ) {
                    pool.len() - prev_cursor
                } else {
                    deficit_of(nodes@[j as int], avg)
                });
                assert(plan@.map_values(m) =~= prev_plan.map_values(m).push(
                    (nodes@[j as int].id, pool.subrange(prev_cursor, prev_cursor + count)),
                ));
                assert(prev_plan.map_values(m) + move_in_plan_spec(
                    nodes@,
                    avg,
                    pool,
                    prev_cursor,
                    j as int,
                ) =~= plan@.map_values(m) + move_in_plan_spec(
                    nodes@,
                    avg,
                    pool,
                    cursor as int,
                    j + 1,
                ));
            }
        } else {
            proof {
                assert(move_in_plan_spec(nodes@, avg, pool, prev_cursor, j as int)
                    == move_in_plan_spec(nodes@, avg, pool, prev_cursor, j + 1));
            }
        }
        j = j + 1;
    }
    proof {
        assert(move_in_plan_spec(nodes@, avg, pool, cursor as int, nodes@.len() as int)
            =~= Seq::<(String, Seq<u16>)>::empty());
        assert(plan@.map_values(m) =~= move_in_plan_spec(nodes@, avg, pool, 0, 0));
    }
    plan
}

/// Which end of a migration a command is issued on.
#[derive(Clone, Copy, Debug, PartialEq, Eq, Structural)]
pub enum CmdTarget {
    Source,
    Destination,
}

pub open spec fn is_setslot_importing(args: Seq<String>, slot: u16, src_id: Seq<char>) -> bool {
    &&& args.len() == 5
    &&& args[0]@ == "cluster"@
    &&& args[1]@ == "setslot"@
    &&& args[2]@ == dec_digits(slot as int)
    &&& args[3]@ == "importing"@
    &&& args[4]@ == src_id
}

pub open spec fn is_setslot_migrating(args: Seq<String>, slot: u16, dst_id: Seq<char>) -> bool {
    &&& args.len() == 5
    &&& args[0]@ == "cluster"@
    &&& args[1]@ == "setslot"@
    &&& args[2]@ == dec_digits(slot as int)
    &&& args[3]@ == "migrating"@
    &&& args[4]@ == dst_id
}

pub open spec fn is_setslot_node(args: Seq<String>, slot: u16, dst_id: Seq<char>) -> bool {
    &&& args.len() == 5
    &&& args[0]@ == "cluster"@
    &&& args[1]@ == "setslot"@
    &&& args[2]@ == dec_digits(slot as int)
    &&& args[3]@ == "node"@
    &&& args[4]@ == dst_id
}

pub open spec fn is_migrate(
    args: Seq<String>,
    dst_host: Seq<char>,
    dst_port: Seq<char>,
    key: Seq<char>,
) -> bool {
    &&& args.len() == 8
    &&& args[0]@ == "migrate"@
    &&& args[1]@ == dst_host
    &&& args[2]@ == dst_port
    &&& args[3]@.len() == 0
    &&& args[4]@ == "0"@
    &&& args[5]@ == "5000"@
    &&& args[6]@ == "keys"@
    &&& args[7]@ == key
}

/// The commands that move one slot whose keys are already enumerated, in
/// protocol order: mark it importing on the destination and migrating on
/// the source, migrate every key from the source, then assign the slot
/// to the destination on both ends.
pub fn slot_migration_steps(
    src_node: &ClusterNode,
    dst_node: &ClusterNode,
    slot: u16,
    keys: &Vec<String>,
) -> (r: Vec<(CmdTarget, Vec<String>)>)
    ensures
        r@.len() == keys@.len() + 4,
        r@[0].0 == CmdTarget::Destination && is_setslot_importing(r@[0].1@, slot, src_node.id@),
        r@[1].0 == CmdTarget::Source && is_setslot_migrating(r@[1].1@, slot, dst_node.id@),
        forall|k: int|
            0 <= k < keys@.len() ==> (#[trigger] r@[2 + k]).0 == CmdTarget::Source && is_migrate(
                r@[2 + k].1@,
                dst_node.host@,
                dst_node.port@,
                keys@[k]@,
            ),
        r@[keys@.len() as int + 2].0 == CmdTarget::Destination && is_setslot_node(
            r@[keys@.len() as int + 2].1@,
            slot,
            dst_node.id@,
        ),
        r@[keys@.len() as int + 3].0 == CmdTarget::Source && is_setslot_node(
            r@[keys@.len() as int + 3].1@,
            slot,
            dst_node.id@,
        ),
{
    let mut r: Vec<(CmdTarget, Vec<String>)> = Vec::new();
    r.push((CmdTarget::Destination, setslot_importing_cmd(slot, src_node.id.as_str())));
    r.push((CmdTarget::Source, setslot_migrating_cmd(slot, dst_node.id.as_str())));
    let mut k: usize = 0;
    while k < keys.len()
        invariant
            k <= keys@.len(),
            r@.len() == k + 2,
            r@[0].0 == CmdTarget::Destination && is_setslot_importing(
                r@[0].1@,
                slot,
                src_node.id@,
            ),
            r@[1].0 == CmdTarget::Source && is_setslot_migrating(r@[1].1@, slot, dst_node.id@),
            forall|q: int|
                0 <= q < k ==> (#[trigger] r@[2 + q]).0 == CmdTarget::Source && is_migrate(
                    r@[2 + q].1@,
                    dst_node.host@,
                    dst_node.port@,
                    keys@[q]@,
                ),
        decreases keys@.len() - k,
    {
        r.push(
            (
                CmdTarget::Source,
                migrate_cmd(dst_node.host.as_str(), dst_node.port.as_str(), keys[k].as_str()),
            ),
        );
        k = k + 1;
    }
    r.push((CmdTarget::Destination, setslot_node_cmd(slot, dst_node.id.as_str())));
    r.push((CmdTarget::Source, setslot_node_cmd(slot, dst_node.id.as_str())));
    r
}

/// `CLUSTER SETSLOT <slot> IMPORTING <src>` for the destination node.
pub fn setslot_importing_cmd(slot: u16, src_node_id: &str) -> (r: Vec<String>)
    ensures
        r@.len() == 5,
        r@[0]@ == "cluster"@,
        r@[1]@ == "setslot"@,
        r@[2]@ == dec_digits(slot as int),
        r@[3]@ == "importing"@,
        r@[4]@ == src_node_id@,
{
    let mut r: Vec<String> = Vec::new();
    r.push(String::from_str("cluster"));
    r.push(String::from_str("setslot"));
    r.push(u64_to_string(slot as u64));
    r.push(String::from_str("importing"));
    r.push(src_node_id.to_owned());
    r
}

/// `CLUSTER SETSLOT <slot> MIGRATING <dst>` for the source node.
pub fn setslot_migrating_cmd(slot: u16, dst_node_id: &str) -> (r: Vec<String>)
    ensures
        r@.len() == 5,
        r@[0]@ == "cluster"@,
        r@[1]@ == "setslot"@,
        r@[2]@ == dec_digits(slot as int),
        r@[3]@ == "migrating"@,
        r@[4]@ == dst_node_id@,
{
    let mut r: Vec<String> = Vec::new();
    r.push(String::from_str("cluster"));
    r.push(String::from_str("setslot"));
    r.push(u64_to_string(slot as u64));
    r.push(String::from_str("migrating"));
    r.push(dst_node_id.to_owned());
    r
}

/// `CLUSTER SETSLOT <slot> NODE <dst>`, issued on both ends.
pub fn setslot_node_cmd(slot: u16, dst_node_id: &str) -> (r: Vec<String>)
    ensures
        r@.len() == 5,
        r@[0]@ == "cluster"@,
        r@[1]@ == "setslot"@,
        r@[2]@ == dec_digits(slot as int),
        r@[3]@ == "node"@,
        r@[4]@ == dst_node_id@,
{
    let mut r: Vec<String> = Vec::new();
    r.push(String::from_str("cluster"));
    r.push(String::from_str("setslot"));
    r.push(u64_to_string(slot as u64));
    r.push(String::from_str("node"));
    r.push(dst_node_id.to_owned());
    r
}

/// `CLUSTER GETKEYSINSLOT <slot> 100000000`: enumerate the slot's keys.
pub fn getkeysinslot_cmd(slot: u16) -> (r: Vec<String>)
    ensures
        r@.len() == 4,
        r@[0]@ == "cluster"@,
        r@[1]@ == "getkeysinslot"@,
        r@[2]@ == dec_digits(slot as int),
        r@[3]@ == "100000000"@,
{
    let mut r: Vec<String> = Vec::new();
    r.push(String::from_str("cluster"));
    r.push(String::from_str("getkeysinslot"));
    r.push(u64_to_string(slot as u64));
    r.push(String::from_str("100000000"));
    r
}

/// `MIGRATE <host> <port> "" 0 5000 KEYS <key>` for one key.
pub fn migrate_cmd(dst_host: &str, dst_port: &str, key: &str) -> (r: Vec<String>)
    ensures
        r@.len() == 8,
        r@[0]@ == "migrate"@,
        r@[1]@ == dst_host@,
        r@[2]@ == dst_port@,
        r@[3]@.len() == 0,
        r@[4]@ == "0"@,
        r@[5]@ == "5000"@,
        r@[6]@ == "keys"@,
        r@[7]@ == key@,
{
    let mut r: Vec<String> = Vec::new();
    r.push(String::from_str("migrate"));
    r.push(dst_host.to_owned());
    r.push(dst_port.to_owned());
    r.push(String::new());
    r.push(String::from_str("0"));
    r.push(String::from_str("5000"));
    r.push(String::from_str("keys"));
    r.push(key.to_owned());
    r
}

/// The connection URL for one node, with the source URL's credentials.
pub fn node_conn_url(username: &str, password: &str, address: &str) -> (r: String)
    ensures
        r@ == "redis://"@ + username@ + ":"@ + password@ + "@"@ + address@,
{
    let mut r = String::from_str("redis://");
    r.append(username);
    r.append(":");
    r.append(password);
    r.append("@");
    r.append(address);
    r
}

} // verus!
