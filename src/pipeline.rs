//! The three runs over a sequence of captured frames: every record, the
//! records that a predicate admits, and the records that a port filter admits.
use crate::filter::{ports_match, FilterInvocationError, PktFilter, PortPredicate};
use crate::record::{decode_frame, decode_spec, PktInfo};
use vstd::prelude::*;

verus! {

/// The records of the frames that decode, in frame order.
pub open spec fn records_of(frames: Seq<Vec<u8>>) -> Seq<PktInfo>
    decreases frames.len(),
{
    if frames.len() == 0 {
        Seq::empty()
    } else {
        let prev = records_of(frames.drop_last());
        match decode_spec(frames.last()@) {
            Some(r) => prev.push(r),
            None => prev,
        }
    }
}

/// The records that a predicate admits, in their order.
pub open spec fn admitted_by<P: PortPredicate>(records: Seq<PktInfo>, pred: P) -> Seq<PktInfo>
    decreases records.len(),
{
    if records.len() == 0 {
        Seq::empty()
    } else {
        let prev = admitted_by(records.drop_last(), pred);
        if pred.admits(records.last().src_port, records.last().dst_port) {
            prev.push(records.last())
        } else {
            prev
        }
    }
}

/// Extending the frames by one adds the record of that frame, if any.
proof fn lemma_records_step(frames: Seq<Vec<u8>>, i: int)
    requires
        0 <= i < frames.len(),
    ensures
        records_of(frames.subrange(0, i + 1)) == match decode_spec(frames[i]@) {
            Some(r) => records_of(frames.subrange(0, i)).push(r),
            None => records_of(frames.subrange(0, i)),
        },
{
    assert(frames.subrange(0, i + 1).drop_last() =~= frames.subrange(0, i));
}

/// Every record of the frames, in capture order.
pub fn get_pkt_infos(frames: &Vec<Vec<u8>>) -> (r: Vec<PktInfo>)
    ensures
        r@ == records_of(frames@),
{
    let mut out: Vec<PktInfo> = Vec::new();
    let mut i: usize = 0;
    while i < frames.len()
        invariant
            0 <= i <= frames@.len(),
            out@ == records_of(frames@.subrange(0, i as int)),
        decreases frames@.len() - i,
    {
        proof {
            lemma_records_step(frames@, i as int);
        }
        if let Some(info) = decode_frame(frames[i].as_slice()) {
            out.push(info);
        }
        i = i + 1;
    }
    assert(frames@.subrange(0, frames@.len() as int) =~= frames@);
    out
}

/// The records of the frames that `pkt_filter` admits, in capture order.
/// The predicate is asked once per record; its first failure ends the run.
pub fn get_filtered_pkt_infos<P: PortPredicate>(frames: &Vec<Vec<u8>>, pkt_filter: &P) -> (r:
    Result<Vec<PktInfo>, FilterInvocationError>)
    ensures
        r matches Ok(out) ==> out@ == admitted_by(records_of(frames@), *pkt_filter),
        r is Err ==> exists|k: int| 0 <= k < frames@.len() && decode_spec(#[trigger] frames@[k]@) is Some,
{
    let mut out: Vec<PktInfo> = Vec::new();
    let mut i: usize = 0;
    while i < frames.len()
        invariant
            0 <= i <= frames@.len(),
            out@ == admitted_by(records_of(frames@.subrange(0, i as int)), *pkt_filter),
        decreases frames@.len() - i,
    {
        proof {
            lemma_records_step(frames@, i as int);
        }
        if let Some(info) = decode_frame(frames[i].as_slice()) {
            let ghost recs = records_of(frames@.subrange(0, i as int + 1));
            assert(recs.drop_last() == records_of(frames@.subrange(0, i as int)));
            match pkt_filter.accepts(info.src_port, info.dst_port) {
                Ok(true) => out.push(info),
                Ok(false) => {},
                Err(e) => {
                    assert(decode_spec(frames@[i as int]@) is Some);
                    return Err(e);
                },
            }
        }
        i = i + 1;
    }
    assert(frames@.subrange(0, frames@.len() as int) =~= frames@);
    Ok(out)
}

/// The records of the frames that the port filter admits, in capture order.
pub fn get_filtered_pkt_infos2(frames: &Vec<Vec<u8>>, pkt_filter: &PktFilter) -> (r: Vec<PktInfo>)
    ensures
        r@ == admitted_by(records_of(frames@), *pkt_filter),
{
    let mut out: Vec<PktInfo> = Vec::new();
    let mut i: usize = 0;
    while i < frames.len()
        invariant
            0 <= i <= frames@.len(),
            out@ == admitted_by(records_of(frames@.subrange(0, i as int)), *pkt_filter),
        decreases frames@.len() - i,
    {
        proof {
            lemma_records_step(frames@, i as int);
        }
        if let Some(info) = decode_frame(frames[i].as_slice()) {
            let ghost recs = records_of(frames@.subrange(0, i as int + 1));
            assert(recs.drop_last() == records_of(frames@.subrange(0, i as int)));
            if pkt_filter.check_ports(info.src_port, info.dst_port) {
                out.push(info);
            }
        }
        i = i + 1;
    }
    assert(frames@.subrange(0, frames@.len() as int) =~= frames@);
    out
}

} // verus!
