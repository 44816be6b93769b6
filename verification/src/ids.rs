use vstd::prelude::*;

use crate::data::{
    message_stats, meter_stats, meters_stats, node_stats, nodes_stats, ESmartMessage, Meter, Node,
};
use crate::text::{decimal, lemma_prefixed_decimal_injective, lemma_prefixes_differ};

verus! {

/// The prefix of the identifiers of each kind of statistic: `0` to `2` for
/// flow, power and temperature meters, `3` to `5` for the temperature,
/// heating switch and heating power of a room, `6` and `7` for the power and
/// switch of a valve.
pub open spec fn id_prefix(tag: int) -> Seq<char> {
    if tag == 0 {
        "flow_"@
    } else if tag == 1 {
        "power_"@
    } else if tag == 2 {
        "temperature_"@
    } else if tag == 3 {
        "room_temperature_"@
    } else if tag == 4 {
        "room_heating_on_"@
    } else if tag == 5 {
        "room_heating_power_"@
    } else if tag == 6 {
        "valve_power_"@
    } else {
        "valve_on_"@
    }
}

/// The identifier of the statistic of kind `key.0` of the entity `key.1`.
pub open spec fn identifier(key: (int, nat)) -> Seq<char> {
    id_prefix(key.0) + decimal(key.1)
}

/// The kind of a meter: `0` flow, `1` power, `2` temperature.
pub open spec fn meter_kind(m: Meter) -> int {
    match m {
        Meter::Flow { .. } => 0,
        Meter::Power { .. } => 1,
        Meter::Temperature { .. } => 2,
    }
}

pub open spec fn meter_id(m: Meter) -> u16 {
    match m {
        Meter::Flow { id, .. } => id,
        Meter::Power { id, .. } => id,
        Meter::Temperature { id, .. } => id,
    }
}

pub open spec fn node_id(n: Node) -> u16 {
    match n {
        Node::Room { id, .. } => id,
        Node::Valve { id, .. } => id,
    }
}

pub open spec fn meter_key(m: Meter) -> (int, nat) {
    (meter_kind(m), meter_id(m) as nat)
}

pub open spec fn node_keys(n: Node) -> Seq<(int, nat)> {
    match n {
        Node::Room { id, .. } => seq![(3int, id as nat), (4int, id as nat), (5int, id as nat)],
        Node::Valve { id, .. } => seq![(6int, id as nat), (7int, id as nat)],
    }
}

pub open spec fn meters_keys(ms: Seq<Meter>) -> Seq<(int, nat)>
    decreases ms.len(),
{
    if ms.len() == 0 {
        seq![]
    } else {
        meters_keys(ms.drop_last()).push(meter_key(ms.last()))
    }
}

pub open spec fn nodes_keys(ns: Seq<Node>) -> Seq<(int, nat)>
    decreases ns.len(),
{
    if ns.len() == 0 {
        seq![]
    } else {
        nodes_keys(ns.drop_last()) + node_keys(ns.last())
    }
}

/// No two meters of one kind, and no two nodes of one kind, share an id.
pub open spec fn distinct_entities(msg: ESmartMessage) -> bool {
    let ms = msg.body.meters@;
    let ns = msg.body.nodes@;
    &&& forall|i: int, j: int|
        0 <= i < j < ms.len() && meter_kind(ms[i]) == meter_kind(ms[j]) ==> meter_id(ms[i])
            != meter_id(ms[j])
    &&& forall|i: int, j: int|
        0 <= i < j < ns.len() && (ns[i] is Room) == (ns[j] is Room) ==> node_id(ns[i]) != node_id(
            ns[j],
        )
}

proof fn lemma_identifier_injective(k1: (int, nat), k2: (int, nat))
    requires
        0 <= k1.0 < 8,
        0 <= k2.0 < 8,
        k1 != k2,
    ensures
        identifier(k1) != identifier(k2),
{
    reveal_strlit("flow_");
    reveal_strlit("power_");
    reveal_strlit("temperature_");
    reveal_strlit("room_temperature_");
    reveal_strlit("room_heating_on_");
    reveal_strlit("room_heating_power_");
    reveal_strlit("valve_power_");
    reveal_strlit("valve_on_");
    let p = id_prefix(k1.0);
    let q = id_prefix(k2.0);
    if k1.0 == k2.0 {
        if identifier(k1) == identifier(k2) {
            lemma_prefixed_decimal_injective(p, k1.1, k2.1);
        }
    } else {
        let t1 = k1.0;
        let t2 = k2.0;
        let k = if (t1 == 3 || t1 == 4 || t1 == 5) && (t2 == 3 || t2 == 4 || t2 == 5) {
            if t1 == 3 || t2 == 3 {
                5int
            } else {
                13int
            }
        } else if (t1 == 6 || t1 == 7) && (t2 == 6 || t2 == 7) {
            6int
        } else {
            0int
        };
        lemma_prefixes_differ(p, q, decimal(k1.1), decimal(k2.1), k);
    }
}

proof fn lemma_meters_keys(ms: Seq<Meter>)
    ensures
        meters_keys(ms).len() == ms.len(),
        meters_stats(ms).len() == ms.len(),
        forall|p: int| 0 <= p < ms.len() ==> #[trigger] meters_keys(ms)[p] == meter_key(ms[p]),
        forall|p: int|
            0 <= p < ms.len() ==> (#[trigger] meters_stats(ms)[p]).0 == identifier(
                meter_key(ms[p]),
            ),
    decreases ms.len(),
{
    if ms.len() > 0 {
        let init = ms.drop_last();
        lemma_meters_keys(init);
        assert forall|p: int| 0 <= p < ms.len() implies #[trigger] meters_keys(ms)[p]
            == meter_key(ms[p]) by {
            if p < init.len() {
                assert(ms[p] == init[p]);
            }
        }
        assert forall|p: int| 0 <= p < ms.len() implies (#[trigger] meters_stats(ms)[p]).0
            == identifier(meter_key(ms[p])) by {
            if p < init.len() {
                assert(ms[p] == init[p]);
                assert(meters_stats(ms)[p] == meters_stats(init)[p]);
            } else {
                assert(meters_stats(ms)[p] == meter_stats(ms.last())[0]);
            }
        }
    }
}

proof fn lemma_node_keys(n: Node)
    ensures
        node_stats(n).len() == node_keys(n).len(),
        forall|r: int|
            0 <= r < node_keys(n).len() ==> (#[trigger] node_stats(n)[r]).0 == identifier(
                node_keys(n)[r],
            ),
        forall|r: int|
            0 <= r < node_keys(n).len() ==> (#[trigger] node_keys(n)[r]).1 == node_id(n) as nat
                && (if n is Room {
                3 <= node_keys(n)[r].0 <= 5
            } else {
                6 <= node_keys(n)[r].0 <= 7
            }),
        forall|r1: int, r2: int|
            0 <= r1 < r2 < node_keys(n).len() ==> (#[trigger] node_keys(n)[r1]).0 != (
            #[trigger] node_keys(n)[r2]).0,
{
}

proof fn lemma_nodes_keys(ns: Seq<Node>)
    requires
        forall|i: int, j: int|
            0 <= i < j < ns.len() && (ns[i] is Room) == (ns[j] is Room) ==> node_id(ns[i])
                != node_id(ns[j]),
    ensures
        nodes_keys(ns).len() == nodes_stats(ns).len(),
        forall|p: int|
            0 <= p < nodes_keys(ns).len() ==> (#[trigger] nodes_stats(ns)[p]).0 == identifier(
                nodes_keys(ns)[p],
            ),
        forall|p: int|
            0 <= p < nodes_keys(ns).len() ==> exists|q: int|
                0 <= q < ns.len() && (#[trigger] nodes_keys(ns)[p]).1 == node_id(ns[q]) as nat
                    && (if ns[q] is Room {
                    3 <= nodes_keys(ns)[p].0 <= 5
                } else {
                    6 <= nodes_keys(ns)[p].0 <= 7
                }),
        forall|p1: int, p2: int|
            0 <= p1 < p2 < nodes_keys(ns).len() ==> #[trigger] nodes_keys(ns)[p1]
                != #[trigger] nodes_keys(ns)[p2],
    decreases ns.len(),
{
    if ns.len() > 0 {
        let init = ns.drop_last();
        let last = ns.last();
        lemma_nodes_keys(init);
        lemma_node_keys(last);
        let a = nodes_keys(init);
        let b = node_keys(last);
        let keys = nodes_keys(ns);
        assert(keys == a + b);
        assert forall|p: int| 0 <= p < keys.len() implies (#[trigger] nodes_stats(ns)[p]).0
            == identifier(keys[p]) by {
            if p < a.len() {
                assert(nodes_stats(ns)[p] == nodes_stats(init)[p]);
            } else {
                assert(nodes_stats(ns)[p] == node_stats(last)[p - a.len()]);
            }
        }
        assert forall|p: int| 0 <= p < keys.len() implies exists|q: int|
            0 <= q < ns.len() && (#[trigger] keys[p]).1 == node_id(ns[q]) as nat && (if ns[q] is Room {
                3 <= keys[p].0 <= 5
            } else {
                6 <= keys[p].0 <= 7
            }) by {
            if p < a.len() {
                assert(keys[p] == a[p]);
                let q = choose|q: int|
                    0 <= q < init.len() && (#[trigger] a[p]).1 == node_id(init[q]) as nat && (
                    if init[q] is Room {
                        3 <= a[p].0 <= 5
                    } else {
                        6 <= a[p].0 <= 7
                    });
                assert(init[q] == ns[q]);
            } else {
                assert(keys[p] == b[p - a.len()]);
                assert(ns[ns.len() - 1] == last);
            }
        }
        assert forall|p1: int, p2: int| 0 <= p1 < p2 < keys.len() implies #[trigger] keys[p1]
            != #[trigger] keys[p2] by {
            if p2 < a.len() {
                assert(keys[p1] == a[p1]);
                assert(keys[p2] == a[p2]);
            } else if p1 >= a.len() {
                assert(keys[p1] == b[p1 - a.len()]);
                assert(keys[p2] == b[p2 - a.len()]);
            } else {
                assert(keys[p1] == a[p1]);
                assert(keys[p2] == b[p2 - a.len()]);
                let q = choose|q: int|
                    0 <= q < init.len() && (#[trigger] a[p1]).1 == node_id(init[q]) as nat && (
                    if init[q] is Room {
                        3 <= a[p1].0 <= 5
                    } else {
                        6 <= a[p1].0 <= 7
                    });
                assert(init[q] == ns[q]);
                assert(ns[ns.len() - 1] == last);
                if (ns[q] is Room) == (last is Room) {
                    assert(node_id(ns[q]) != node_id(ns[ns.len() - 1]));
                }
            }
        }
    }
}

/// Every statistic of a message has an identifier of its own, as long as no
/// two meters of one kind and no two nodes of one kind share an id: the
/// identifiers (and so the Home Assistant unique ids and state topics) of
/// different statistics never collide.
pub proof fn law_identifiers_unique(msg: ESmartMessage)
    requires
        distinct_entities(msg),
    ensures
        forall|i: int, j: int|
            0 <= i < j < message_stats(msg).len() ==> (#[trigger] message_stats(msg)[i]).0 != (
            #[trigger] message_stats(msg)[j]).0,
{
    let ms = msg.body.meters@;
    let ns = msg.body.nodes@;
    lemma_meters_keys(ms);
    lemma_nodes_keys(ns);
    let a = meters_stats(ms);
    let b = nodes_stats(ns);
    let s = message_stats(msg);
    assert(s == a + b);
    let ka = meters_keys(ms);
    let kb = nodes_keys(ns);
    let keys = ka + kb;
    assert forall|p: int| 0 <= p < s.len() implies (#[trigger] s[p]).0 == identifier(keys[p])
        && 0 <= keys[p].0 < 8 by {
        if p < a.len() {
            assert(s[p] == a[p]);
            assert(keys[p] == ka[p]);
        } else {
            assert(s[p] == b[p - a.len()]);
            assert(keys[p] == kb[p - a.len()]);
            let q = choose|q: int|
                0 <= q < ns.len() && (#[trigger] kb[p - a.len()]).1 == node_id(ns[q]) as nat && (
                if ns[q] is Room {
                    3 <= kb[p - a.len()].0 <= 5
                } else {
                    6 <= kb[p - a.len()].0 <= 7
                });
        }
    }
    assert forall|i: int, j: int| 0 <= i < j < s.len() implies (#[trigger] s[i]).0 != (
    #[trigger] s[j]).0 by {
        assert(s[i].0 == identifier(keys[i]) && 0 <= keys[i].0 < 8);
        assert(s[j].0 == identifier(keys[j]) && 0 <= keys[j].0 < 8);
        if j < a.len() {
            assert(keys[i] == ka[i]);
            assert(keys[j] == ka[j]);
        } else if i >= a.len() {
            assert(keys[i] == kb[i - a.len()]);
            assert(keys[j] == kb[j - a.len()]);
        } else {
            assert(keys[i] == ka[i]);
            assert(keys[j] == kb[j - a.len()]);
            let q = choose|q: int|
                0 <= q < ns.len() && (#[trigger] kb[j - a.len()]).1 == node_id(ns[q]) as nat && (
                if ns[q] is Room {
                    3 <= kb[j - a.len()].0 <= 5
                } else {
                    6 <= kb[j - a.len()].0 <= 7
                });
        }
        lemma_identifier_injective(keys[i], keys[j]);
    }
}

} // verus!
