//! Properties that relate the runs to each other and to the frames.
use crate::filter::{ports_match, PktFilter, PortPredicate};
use crate::pipeline::{admitted_by, records_of};
use crate::record::{decode_spec, ip_layer, is_tcp_ipv4_frame, record_of, tcp_layer, PktInfo};
use crate::wire::{
    ethertype_of, ipv4_protocol_of, ETHERNET_HEADER_LEN, ETHERTYPE_IPV4, IPV4_MIN_HEADER_LEN,
    IP_PROTOCOL_TCP, TCP_MIN_HEADER_LEN,
};
use vstd::prelude::*;

verus! {

/// When every frame is Ethernet carrying IPv4 carrying TCP, the unfiltered
/// run yields exactly one record per frame, and record `i` is that of frame `i`.
pub proof fn lemma_every_frame_kept(frames: Seq<Vec<u8>>)
    requires
        forall|i: int| 0 <= i < frames.len() ==> is_tcp_ipv4_frame(#[trigger] frames[i]@),
    ensures
        records_of(frames).len() == frames.len(),
        forall|i: int|
            0 <= i < frames.len() ==> #[trigger] records_of(frames)[i] == record_of(frames[i]@),
    decreases frames.len(),
{
    if frames.len() > 0 {
        let prev = frames.drop_last();
        assert forall|i: int| 0 <= i < prev.len() implies is_tcp_ipv4_frame(
            #[trigger] prev[i]@,
        ) by {
            assert(prev[i] == frames[i]);
        }
        lemma_every_frame_kept(prev);
        assert(is_tcp_ipv4_frame(frames[frames.len() - 1]@));
        assert forall|i: int| 0 <= i < frames.len() implies #[trigger] records_of(frames)[i]
            == record_of(frames[i]@) by {
            if i < frames.len() - 1 {
                assert(prev[i] == frames[i]);
            }
        }
    }
}

/// A frame that is too short for its Ethernet, IPv4 or TCP header, or whose
/// ethertype is not IPv4, or whose next protocol is not TCP, yields no record:
/// appending it to the frames leaves the records unchanged.
pub proof fn lemma_other_frame_dropped(frames: Seq<Vec<u8>>, frame: Vec<u8>)
    requires
        frame@.len() < ETHERNET_HEADER_LEN || ethertype_of(frame@) != ETHERTYPE_IPV4
            || ip_layer(frame@).len() < IPV4_MIN_HEADER_LEN || ipv4_protocol_of(ip_layer(frame@))
            != IP_PROTOCOL_TCP || tcp_layer(frame@).len() < TCP_MIN_HEADER_LEN,
    ensures
        decode_spec(frame@) is None,
        records_of(frames.push(frame)) == records_of(frames),
{
    assert(frames.push(frame).drop_last() =~= frames);
}

/// A record is admitted by a predicate exactly when it is one of the records
/// and the predicate admits its ports.
proof fn lemma_admitted_contains<P: PortPredicate>(records: Seq<PktInfo>, pred: P, r: PktInfo)
    ensures
        admitted_by(records, pred).contains(r) <==> records.contains(r) && pred.admits(
            r.src_port,
            r.dst_port,
        ),
    decreases records.len(),
{
    if records.len() > 0 {
        let prev = records.drop_last();
        let last = records.last();
        lemma_admitted_contains(prev, pred, r);
        assert(records =~= prev.push(last));
        let out = admitted_by(prev, pred);
        if pred.admits(last.src_port, last.dst_port) {
            assert(out.push(last)[out.len() as int] == last);
            if out.push(last).contains(r) {
                let k = choose|k: int| 0 <= k < out.push(last).len() && out.push(last)[k] == r;
                if k < out.len() {
                    assert(out[k] == r);
                }
            }
            if out.contains(r) {
                let k = choose|k: int| 0 <= k < out.len() && out[k] == r;
                assert(out.push(last)[k] == r);
            }
        }
        if records.contains(r) {
            let k = choose|k: int| 0 <= k < records.len() && records[k] == r;
            if k < prev.len() {
                assert(prev[k] == r);
            }
        }
        if prev.contains(r) {
            let k = choose|k: int| 0 <= k < prev.len() && prev[k] == r;
            assert(records[k] == r);
        }
        assert(records[records.len() - 1] == last);
    }
}

/// Of the records of the frames, the port-filter run keeps exactly those whose
/// source port or destination port is one of the filter's ports, and nothing else.
pub proof fn lemma_port_filter_membership(frames: Seq<Vec<u8>>, pkt_filter: PktFilter, r: PktInfo)
    ensures
        admitted_by(records_of(frames), pkt_filter).contains(r) <==> records_of(frames).contains(r)
            && ports_match(pkt_filter.ports@, r.src_port, r.dst_port),
{
    lemma_admitted_contains(records_of(frames), pkt_filter, r);
}

/// Two predicates that admit the same ports admit the same records.
proof fn lemma_admitted_agree<P: PortPredicate, Q: PortPredicate>(
    records: Seq<PktInfo>,
    p: P,
    q: Q,
)
    requires
        forall|s: u16, d: u16| #[trigger] p.admits(s, d) == q.admits(s, d),
    ensures
        admitted_by(records, p) == admitted_by(records, q),
    decreases records.len(),
{
    if records.len() > 0 {
        lemma_admitted_agree(records.drop_last(), p, q);
        assert(p.admits(records.last().src_port, records.last().dst_port) == q.admits(
            records.last().src_port,
            records.last().dst_port,
        ));
    }
}

/// A run with a predicate that follows the port-membership rule of a filter
/// yields the same records as the run with that filter.
pub proof fn lemma_same_rule_same_output<P: PortPredicate>(
    frames: Seq<Vec<u8>>,
    pred: P,
    pkt_filter: PktFilter,
)
    requires
        forall|s: u16, d: u16| #[trigger] pred.admits(s, d) == ports_match(pkt_filter.ports@, s, d),
    ensures
        admitted_by(records_of(frames), pred) == admitted_by(records_of(frames), pkt_filter),
{
    assert forall|s: u16, d: u16| #[trigger] pred.admits(s, d) == pkt_filter.admits(s, d) by {}
    lemma_admitted_agree(records_of(frames), pred, pkt_filter);
}

} // verus!
