//! The collection coordinator's core: the address space of one pass, and the
//! aggregation of what every fetch task delivered into one collection.
//!
//! The fan-out itself (probing, fetching, the worker pool) is the caller's:
//! workers hand their deliveries in as plain values, and the aggregation here
//! is proved to keep every record of every delivery — in whatever order the
//! deliveries arrive.

use vstd::prelude::*;

use crate::mapping::clock_views;
use crate::records::{
    Address, AddressView, AllStoredClocks, Clocks, ClocksView, StoredClocks, StoredClocksView,
    stored_of,
};

verus! {

/// What one fetch task delivers: the "host:port" label of the node it
/// polled, the moment its fetch began (microseconds since the Unix epoch),
/// and the clock records parsed from the node's page.  An unreachable node
/// or a table-less page delivers no records, never an error.
pub struct NodeClocks {
    pub hostname_port: String,
    pub timestamp: i64,
    pub clocks: Vec<Clocks>,
}

/// The contents of a [`NodeClocks`] delivery.
pub ghost struct NodeClocksView {
    pub hostname_port: Seq<char>,
    pub timestamp: int,
    pub clocks: Seq<ClocksView>,
}

impl View for NodeClocks {
    type V = NodeClocksView;

    open spec fn view(&self) -> NodeClocksView {
        NodeClocksView {
            hostname_port: self.hostname_port@,
            timestamp: self.timestamp as int,
            clocks: clock_views(self.clocks@),
        }
    }
}

/// The views of a sequence of deliveries.
pub open spec fn node_views(s: Seq<NodeClocks>) -> Seq<NodeClocksView> {
    s.map_values(|n: NodeClocks| n@)
}

/// The stored records that one delivery contributes: each of its clock
/// records, tagged with the delivery's label and collection time.
pub open spec fn node_records(n: NodeClocksView) -> Seq<StoredClocksView> {
    n.clocks.map_values(|c: ClocksView| stored_of(n.hostname_port, n.timestamp, c))
}

/// The collection that a sequence of deliveries aggregates to, in arrival
/// order.
pub open spec fn collected(rs: Seq<NodeClocksView>) -> Seq<StoredClocksView>
    decreases rs.len(),
{
    if rs.len() == 0 {
        Seq::empty()
    } else {
        collected(rs.drop_last()) + node_records(rs.last())
    }
}

/// The total row count across a sequence of deliveries.
pub open spec fn total_rows(rs: Seq<NodeClocksView>) -> nat
    decreases rs.len(),
{
    if rs.len() == 0 {
        0
    } else {
        total_rows(rs.drop_last()) + rs.last().clocks.len()
    }
}

/// Law: one pass yields exactly as many records as its deliveries hold rows
/// — an unreachable node contributes zero, and fails nothing else.
pub proof fn lemma_collected_len(rs: Seq<NodeClocksView>)
    ensures
        collected(rs).len() == total_rows(rs),
    decreases rs.len(),
{
    if rs.len() > 0 {
        lemma_collected_len(rs.drop_last());
    }
}

/// Aggregation distributes over concatenation of delivery batches.
pub proof fn lemma_collected_append(a: Seq<NodeClocksView>, b: Seq<NodeClocksView>)
    ensures
        collected(a + b) == collected(a) + collected(b),
    decreases b.len(),
{
    if b.len() == 0 {
        assert(a + b =~= a);
        assert(collected(a) + collected(b) =~= collected(a));
    } else {
        lemma_collected_append(a, b.drop_last());
        assert((a + b).drop_last() =~= a + b.drop_last());
        assert((a + b).last() == b.last());
        assert((collected(a) + collected(b.drop_last())) + node_records(b.last()) =~= collected(a)
            + (collected(b.drop_last()) + node_records(b.last())));
    }
}

/// Law: every aggregated record carries the label of the delivery it came
/// from.  When every delivery is labelled with an address of the requested
/// space, so is every record of the collection.
pub proof fn lemma_collected_labels(rs: Seq<NodeClocksView>, labels: Set<Seq<char>>)
    requires
        forall|k: int| 0 <= k < rs.len() ==> labels.contains(#[trigger] rs[k].hostname_port),
    ensures
        forall|k: int|
            0 <= k < collected(rs).len() ==> labels.contains(
                #[trigger] collected(rs)[k].hostname_port,
            ),
    decreases rs.len(),
{
    if rs.len() > 0 {
        lemma_collected_labels(rs.drop_last(), labels);
        let prefix = collected(rs.drop_last());
        let last = node_records(rs.last());
        assert forall|k: int| 0 <= k < collected(rs).len() implies labels.contains(
            #[trigger] collected(rs)[k].hostname_port,
        ) by {
            if k < prefix.len() {
                assert(collected(rs)[k] == prefix[k]);
            } else {
                assert(collected(rs)[k] == last[k - prefix.len()]);
                assert(last[k - prefix.len()].hostname_port == rs.last().hostname_port);
                assert(rs[rs.len() - 1] == rs.last());
            }
        }
    }
}

/// Taking one delivery out takes exactly its records out of the aggregated
/// multiset.
proof fn lemma_collected_remove(rs: Seq<NodeClocksView>, j: int)
    requires
        0 <= j < rs.len(),
    ensures
        collected(rs).to_multiset() == collected(rs.remove(j)).to_multiset().add(
            node_records(rs[j]).to_multiset(),
        ),
{
    let a = rs.take(j);
    let x = rs[j];
    let b = rs.skip(j + 1);
    assert(rs =~= a + (seq![x] + b));
    assert(rs.remove(j) =~= a + b);
    assert(seq![x].drop_last() =~= Seq::<NodeClocksView>::empty());
    assert(collected(seq![x].drop_last()) =~= Seq::<StoredClocksView>::empty());
    assert(collected(seq![x]) =~= node_records(x));
    lemma_collected_append(a, seq![x] + b);
    lemma_collected_append(seq![x], b);
    lemma_collected_append(a, b);
    vstd::seq_lib::lemma_multiset_commutative(collected(a), collected(seq![x] + b));
    vstd::seq_lib::lemma_multiset_commutative(collected(seq![x]), collected(b));
    vstd::seq_lib::lemma_multiset_commutative(collected(a), collected(b));
    assert(collected(rs).to_multiset() =~= collected(rs.remove(j)).to_multiset().add(
        node_records(x).to_multiset(),
    ));
}

/// Law: arrival order carries no meaning.  Any two arrival orders of the
/// same deliveries aggregate, as a multiset of records, to the same
/// collection.
pub proof fn lemma_collection_order_irrelevant(rs1: Seq<NodeClocksView>, rs2: Seq<NodeClocksView>)
    requires
        rs1.to_multiset() == rs2.to_multiset(),
    ensures
        collected(rs1).to_multiset() == collected(rs2).to_multiset(),
    decreases rs1.len(),
{
    broadcast use vstd::seq_lib::group_to_multiset_ensures;

    if rs1.len() == 0 {
        assert(rs2.len() == rs2.to_multiset().len());
        assert(rs2.len() == 0);
    } else {
        let i = rs1.len() - 1;
        let x = rs1.last();
        assert(rs1.contains(x)) by {
            assert(rs1[i as int] == x);
        }
        assert(rs2.to_multiset().count(x) > 0);
        assert(rs2.contains(x));
        let j = choose|k: int| 0 <= k < rs2.len() && rs2[k] == x;
        assert(rs1.remove(i as int) =~= rs1.drop_last());
        assert(rs1.drop_last().to_multiset() == rs1.to_multiset().remove(x));
        assert(rs2.remove(j).to_multiset() == rs2.to_multiset().remove(x));
        lemma_collection_order_irrelevant(rs1.drop_last(), rs2.remove(j));
        lemma_collected_remove(rs2, j);
        vstd::seq_lib::lemma_multiset_commutative(collected(rs1.drop_last()), node_records(x));
        assert(collected(rs1).to_multiset() =~= collected(rs2).to_multiset());
    }
}

impl AllStoredClocks {
    /// Append every record of one delivery, tagged with its label and
    /// collection time.
    pub fn add_node(&mut self, node: &NodeClocks)
        ensures
            final(self)@ == old(self)@ + node_records(node@),
    {
        let ghost orig = self@;
        let mut j: usize = 0;
        while j < node.clocks.len()
            invariant
                0 <= j <= node.clocks.len(),
                self@ =~= orig + node_records(node@).take(j as int),
            decreases node.clocks.len() - j,
        {
            let ghost prev = self.stored_clocks@;
            let ghost pre_view = self@;
            let clock = &node.clocks[j];
            self.stored_clocks.push(StoredClocks {
                hostname_port: node.hostname_port.clone(),
                timestamp: node.timestamp,
                server: clock.server.clone(),
                time_since_heartbeat: clock.time_since_heartbeat.clone(),
                status_uptime: clock.status_uptime.clone(),
                physical_time_utc: clock.physical_time_utc.clone(),
                hybrid_time_utc: clock.hybrid_time_utc.clone(),
                heartbeat_rtt: clock.heartbeat_rtt.clone(),
                cloud: clock.cloud.clone(),
                region: clock.region.clone(),
                zone: clock.zone.clone(),
            });
            j = j + 1;
            proof {
                let recs = node_records(node@);
                let target = orig + recs.take(j as int);
                assert(recs.len() == node.clocks@.len());
                assert(pre_view == orig + recs.take(j as int - 1));
                assert(pre_view.len() == prev.len());
                assert(prev.len() == orig.len() + j - 1);
                assert(self.stored_clocks@ == prev.push(self.stored_clocks@.last()));
                assert(self.stored_clocks@.last()@ == stored_of(
                    node@.hostname_port,
                    node@.timestamp,
                    node@.clocks[j - 1],
                ));
                assert(recs[j - 1] == stored_of(
                    node@.hostname_port,
                    node@.timestamp,
                    node@.clocks[j - 1],
                ));
                assert forall|k: int| 0 <= k < self@.len() implies self@[k] == target[k] by {
                    assert(self@[k] == self.stored_clocks@[k]@);
                    if k < prev.len() {
                        assert(self.stored_clocks@[k] == prev[k]);
                        assert(prev[k]@ == pre_view[k]);
                        assert((orig + recs.take(j as int - 1))[k] == target[k]);
                    } else {
                        assert(k == prev.len());
                        assert(self.stored_clocks@[k] == self.stored_clocks@.last());
                        assert(target[k] == recs.take(j as int)[j - 1]);
                        assert(target[k] == recs[j - 1]);
                    }
                }
                assert(self@ =~= target);
            }
        }
        proof {
            assert(node_records(node@).take(node.clocks@.len() as int) =~= node_records(node@));
        }
    }

    /// Aggregate what every task of one pass delivered into one collection.
    /// The caller joins all its tasks first and hands the full batch in: the
    /// result holds every record of every delivery, and no other.
    pub fn read_clocks(responses: Vec<NodeClocks>) -> (r: AllStoredClocks)
        ensures
            r@ == collected(node_views(responses@)),
    {
        let mut all = AllStoredClocks::new();
        let mut i: usize = 0;
        while i < responses.len()
            invariant
                0 <= i <= responses.len(),
                all@ =~= collected(node_views(responses@).take(i as int)),
            decreases responses.len() - i,
        {
            let ghost taken = node_views(responses@).take(i as int);
            all.add_node(&responses[i]);
            i = i + 1;
            proof {
                let now = node_views(responses@).take(i as int);
                assert(now.drop_last() =~= taken);
                assert(now.last() == responses@[i - 1]@);
                assert(all@ =~= collected(now));
            }
        }
        proof {
            assert(node_views(responses@).take(responses@.len() as int) =~= node_views(
                responses@,
            ));
        }
        all
    }
}

/// One host's slice of the address space: that host on every port.
pub open spec fn host_row(host: Seq<char>, ports: Seq<Seq<char>>) -> Seq<AddressView> {
    ports.map_values(|p: Seq<char>| AddressView { host: host, port: p })
}

/// The cross product of a host list and a port list, hosts outermost.
pub open spec fn cross(hosts: Seq<Seq<char>>, ports: Seq<Seq<char>>) -> Seq<AddressView>
    decreases hosts.len(),
{
    if hosts.len() == 0 {
        Seq::empty()
    } else {
        cross(hosts.drop_last(), ports) + host_row(hosts.last(), ports)
    }
}

/// The cross product pairs every host with every port.
pub proof fn lemma_cross_len(hosts: Seq<Seq<char>>, ports: Seq<Seq<char>>)
    ensures
        cross(hosts, ports).len() == hosts.len() * ports.len(),
    decreases hosts.len(),
{
    if hosts.len() == 0 {
        assert(hosts.len() * ports.len() == 0);
    } else {
        lemma_cross_len(hosts.drop_last(), ports);
        let n = hosts.len() as int;
        let m = ports.len() as int;
        assert((n - 1) * m + m == n * m) by (nonlinear_arith);
    }
}

/// The views of a sequence of addresses.
pub open spec fn address_views(s: Seq<Address>) -> Seq<AddressView> {
    s.map_values(|a: Address| a@)
}

/// The full address space of one pass: every host crossed with every port,
/// so that the same host may be probed on several ports.  One fetch task is
/// spawned per element, which makes the task count of a pass exactly
/// `|hosts| * |ports|`, however many nodes turn out unreachable.
pub fn address_space(hosts: &Vec<String>, ports: &Vec<String>) -> (r: Vec<Address>)
    ensures
        address_views(r@) == cross(hosts.deep_view(), ports.deep_view()),
        r@.len() == hosts@.len() * ports@.len(),
{
    let ghost hv = hosts.deep_view();
    let ghost pv = ports.deep_view();
    let mut out: Vec<Address> = Vec::new();
    let mut i: usize = 0;
    while i < hosts.len()
        invariant
            0 <= i <= hosts.len(),
            hv == hosts.deep_view(),
            pv == ports.deep_view(),
            address_views(out@) =~= cross(hv.take(i as int), pv),
        decreases hosts.len() - i,
    {
        let mut j: usize = 0;
        while j < ports.len()
            invariant
                0 <= i < hosts.len(),
                0 <= j <= ports.len(),
                hv == hosts.deep_view(),
                pv == ports.deep_view(),
                address_views(out@) =~= cross(hv.take(i as int), pv) + host_row(
                    hv[i as int],
                    pv.take(j as int),
                ),
            decreases ports.len() - j,
        {
            let ghost prev = out@;
            let ghost pre_views = address_views(out@);
            out.push(Address { host: hosts[i].clone(), port: ports[j].clone() });
            j = j + 1;
            proof {
                let row = host_row(hv[i as int], pv.take(j as int));
                let target = cross(hv.take(i as int), pv) + row;
                assert(pre_views == cross(hv.take(i as int), pv) + host_row(
                    hv[i as int],
                    pv.take(j as int - 1),
                ));
                assert(prev.len() == pre_views.len());
                assert(prev.len() == cross(hv.take(i as int), pv).len() + j - 1);
                assert(out@ == prev.push(out@.last()));
                assert(out@.last()@ == (AddressView { host: hv[i as int], port: pv[j - 1] }));
                assert(row[j - 1] == (AddressView { host: hv[i as int], port: pv[j - 1] }));
                assert forall|k: int| 0 <= k < out@.len() implies address_views(out@)[k]
                    == target[k] by {
                    assert(address_views(out@)[k] == out@[k]@);
                    if k < prev.len() {
                        assert(out@[k] == prev[k]);
                        assert(prev[k]@ == pre_views[k]);
                        assert((cross(hv.take(i as int), pv) + host_row(
                            hv[i as int],
                            pv.take(j as int - 1),
                        ))[k] == target[k]);
                    } else {
                        assert(k == prev.len());
                        assert(out@[k] == out@.last());
                        assert(target[k] == row[j - 1]);
                    }
                }
                assert(address_views(out@) =~= target);
            }
        }
        i = i + 1;
        proof {
            assert(pv.take(ports@.len() as int) =~= pv);
            assert(hv.take(i as int).drop_last() =~= hv.take(i as int - 1));
            assert(hv.take(i as int).last() == hv[i as int - 1]);
            assert(address_views(out@) =~= cross(hv.take(i as int), pv));
        }
    }
    proof {
        assert(hv.take(hosts@.len() as int) =~= hv);
        lemma_cross_len(hv, pv);
    }
    out
}

} // verus!
