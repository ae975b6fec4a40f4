//! Resolving a barrier edge into queue-family ownership terms.
use vstd::prelude::*;

use crate::domain::{PassDomain, ResourceId, UsageIntent};
use crate::frame::BarrierEdge;
use crate::types::QUEUE_FAMILY_IGNORED;

verus! {

/// A barrier with its queue ownership resolved: domain intents and queue
/// family indices, no backend types.
#[derive(Debug, Clone, Copy)]
pub struct BarrierDesc {
    pub resource: ResourceId,
    pub src_usage: UsageIntent,
    pub dst_usage: UsageIntent,
    pub src_queue_family: u32,
    pub dst_queue_family: u32,
}

/// The resolved form of `edge` when its source domain runs on family `src`
/// and its destination domain on family `dst`: on one family there is no
/// ownership transfer and both indices are ignored.
pub open spec fn resolved(edge: BarrierEdge, src: u32, dst: u32) -> BarrierDesc {
    BarrierDesc {
        resource: edge.resource,
        src_usage: edge.src_usage,
        dst_usage: edge.dst_usage,
        src_queue_family: if src == dst { QUEUE_FAMILY_IGNORED } else { src },
        dst_queue_family: if src == dst { QUEUE_FAMILY_IGNORED } else { dst },
    }
}

/// Resolves `edge`, asking `domain_to_family` for the queue family of each
/// side.
pub fn resolve_barrier(edge: &BarrierEdge, domain_to_family: impl Fn(PassDomain) -> u32) -> (r: BarrierDesc)
    requires
        forall|d: PassDomain| call_requires(domain_to_family, (d,)),
    ensures
        exists|src: u32, dst: u32|
            call_ensures(domain_to_family, (edge.src_domain,), src) && call_ensures(
                domain_to_family,
                (edge.dst_domain,),
                dst,
            ) && r == resolved(*edge, src, dst),
{
    let src = domain_to_family(edge.src_domain);
    let dst = domain_to_family(edge.dst_domain);
    let (src_qf, dst_qf) = if src == dst {
        (QUEUE_FAMILY_IGNORED, QUEUE_FAMILY_IGNORED)
    } else {
        (src, dst)
    };
    let r = BarrierDesc {
        resource: edge.resource,
        src_usage: edge.src_usage,
        dst_usage: edge.dst_usage,
        src_queue_family: src_qf,
        dst_queue_family: dst_qf,
    };
    assert(r == resolved(*edge, src, dst));
    r
}

} // verus!
