//! What the exports that only answer say, and which buffers the submissions take.
use vstd::prelude::*;
use crate::agc::effects::{law_submission_list, law_submission_packet};
use crate::agc::patched::law_counted_sizes;
use crate::agc::submit::{submit_list_start, Submit};
use crate::context::{arg, GpuQueue, Machine};
use crate::libsce_agc::{effect, AgcExport};
use crate::mem::{load_u32, load_u64, mapped, Mem};
use crate::registry::Reply;

verus! {

/// `s` is the submission of the packet at `packet` to `queue`: it takes the buffer
/// whose address stands at 0 and whose length in DWORDs stands at 8.
pub open spec fn submits(m: Mem, s: Submit, packet: u64, queue: GpuQueue) -> bool {
    let readable = packet != 0 && mapped(m, packet as int, 16);
    &&& !readable ==> s == (Submit::Done { code: 0x8002_0016 })
    &&& readable ==> {
        &&& s is Drain
        &&& Some(s->Drain_address) == load_u64(m, packet as int)
        &&& Some(s->Drain_dwords) == load_u32(m, packet + 8)
        &&& s->Drain_queue == queue
        &&& s->Drain_acb is None && s->Drain_list is None
    }
}

/// A draw buffer is the first argument of its submission, and goes to the graphics
/// queue; a compute buffer is the second, and goes to a compute queue; lists go to
/// the same queues.
pub proof fn law_submissions(m: Machine, a: Seq<u64>)
    ensures
        ({
            let (after, reply) = effect(AgcExport::DriverSubmitDcb, m, a);
            &&& after == m
            &&& reply is Submit
            &&& submits(m.mem, reply->Submit_0, arg(a, 0), GpuQueue::Graphics)
        }),
        ({
            let (after, reply) = effect(AgcExport::DriverSubmitAcb, m, a);
            &&& after == m
            &&& reply is Submit
            &&& submits(m.mem, reply->Submit_0, arg(a, 1), GpuQueue::AsyncCompute)
        }),
        ({
            let (after, reply) = effect(AgcExport::DriverSubmitMultiDcbs, m, a);
            &&& after == m
            &&& reply is Submit
            &&& reply->Submit_0 is Drain ==> reply->Submit_0->Drain_queue == GpuQueue::Graphics
            &&& reply->Submit_0 == submit_list_start(m.mem, a, GpuQueue::Graphics)
        }),
        ({
            let (after, reply) = effect(AgcExport::DriverSubmitMultiAcbs, m, a);
            &&& after == m
            &&& reply is Submit
            &&& reply->Submit_0 is Drain ==> reply->Submit_0->Drain_queue == GpuQueue::AsyncCompute
            &&& reply->Submit_0 == submit_list_start(m.mem, a, GpuQueue::AsyncCompute)
        }),
{
    law_submission_packet(m.mem, arg(a, 0), GpuQueue::Graphics);
    law_submission_packet(m.mem, arg(a, 1), GpuQueue::AsyncCompute);
    law_submission_list(m.mem, a, GpuQueue::Graphics);
    law_submission_list(m.mem, a, GpuQueue::AsyncCompute);
}

/// The export changes nothing and answers `n`.
pub open spec fn only_answers(e: AgcExport, m: Machine, a: Seq<u64>, n: u64) -> bool {
    effect(e, m, a) == (m, Reply::Return(n))
}

/// The sizes that depend on nothing, in bytes.
pub proof fn law_fixed_sizes(m: Machine, a: Seq<u64>)
    ensures
        only_answers(AgcExport::GetSize2Dwords, m, a, 8),
        only_answers(AgcExport::GetSize3Dwords, m, a, 12),
        only_answers(AgcExport::GetSize4Dwords, m, a, 16),
        only_answers(AgcExport::GetSize5Dwords, m, a, 20),
        only_answers(AgcExport::GetSize6Dwords, m, a, 24),
        only_answers(AgcExport::GetSize7Dwords, m, a, 28),
        only_answers(AgcExport::GetSize9Dwords, m, a, 36),
        only_answers(AgcExport::GetSize10Dwords, m, a, 40),
        only_answers(AgcExport::CbDispatchGetSize, m, a, 20),
        only_answers(AgcExport::AcquireMemGetSize, m, a, 32),
        only_answers(AgcExport::DcbJumpGetSize, m, a, 16),
        only_answers(AgcExport::DcbRewindGetSize, m, a, 8),
        only_answers(AgcExport::QueueEopActionGetSize, m, a, 32),
        only_answers(AgcExport::DmaDataGetSize, m, a, 32),
        only_answers(AgcExport::DcbDrawIndexIndirectGetSize, m, a, 20),
        only_answers(AgcExport::DcbSetIndexCountGetSize, m, a, 28),
        only_answers(AgcExport::DcbStallCommandBufferParserGetSize, m, a, 8),
        only_answers(AgcExport::EventWriteGetSize, m, a, 16),
        only_answers(AgcExport::AtomicMemGetSize, m, a, 36),
        only_answers(AgcExport::AtomicGdsGetSize, m, a, 36),
        only_answers(AgcExport::PrimeUtcl2GetSize, m, a, 20),
        only_answers(AgcExport::CbBranchGetSize, m, a, 56),
        only_answers(AgcExport::CbCondWriteGetSize, m, a, 36),
        only_answers(AgcExport::DcbContextStateOpGetSize, m, a, 8),
{
}

/// What is accepted without effect, and what is not available: packets that cannot be
/// built have no address, and the semaphore memory is refused.
pub proof fn law_fixed_answers(m: Machine, a: Seq<u64>)
    ensures
        only_answers(AgcExport::Accept, m, a, 0),
        only_answers(AgcExport::GetIsTrinityMode, m, a, 0),
        only_answers(AgcExport::UnknownAgcDolOmWh, m, a, 0),
        only_answers(AgcExport::UnknownAgcFd5Bp5t, m, a, 0),
        only_answers(AgcExport::SetPacketPredication, m, a, 0),
        only_answers(AgcExport::SetRangePredication, m, a, 0),
        only_answers(AgcExport::DebugRaiseException, m, a, 0),
        only_answers(AgcExport::DriverTriggerCapture, m, a, 0),
        only_answers(AgcExport::AtomicMemUnavailable, m, a, 0),
        only_answers(AgcExport::MemSemaphoreUnavailable, m, a, 0),
        only_answers(AgcExport::CbCondWriteUnavailable, m, a, 0),
        only_answers(AgcExport::SetIndexIndirectArgsUnavailable, m, a, 0),
        only_answers(AgcExport::GetDefaultCxStateFlatUnavailable, m, a, 0),
        only_answers(AgcExport::SetNopUnavailable, m, a, 0),
        only_answers(AgcExport::GetGsOversubscriptionUnavailable, m, a, 0),
        only_answers(AgcExport::GetSemaphoreLabelUnavailable, m, a, 0),
        only_answers(AgcExport::SetAmmSemaphoreMemoryUnavailable, m, a, 0x8002_0016),
{
}

/// The export changes nothing and answers the number `n`.
pub open spec fn answers_number(e: AgcExport, m: Machine, a: Seq<u64>, n: int) -> bool {
    let (after, reply) = effect(e, m, a);
    after == m && reply is Return && reply->Return_0 == n
}

/// The sizes that depend on a count, the first argument: in bytes, but for the range of
/// shader registers, which is in DWORDs. And the versions that an initialization
/// accepts.
pub proof fn law_counted_answers(m: Machine, a: Seq<u64>)
    ensures
        ({
            let n = arg(a, 0) as u32;
            &&& answers_number(AgcExport::CbNopGetSize, m, a, 4 * n)
            &&& answers_number(AgcExport::DcbGetLodStatsGetSize, m, a, if n == 0 {
                20
            } else {
                16 + 4 * n
            })
            &&& answers_number(AgcExport::DcbWriteDataGetSize, m, a, 16 + 4 * n)
            &&& answers_number(AgcExport::CbSetShRegisterRangeGetSize, m, a, n + 4)
            &&& answers_number(AgcExport::CbSetRegistersDirectGetSize, m, a, 12 * n)
            &&& answers_number(AgcExport::CbSetUcRegisterRangeGetSize, m, a, 8 + 4 * n)
        }),
        answers_number(
            AgcExport::DcbWaitOnAddressGetSize,
            m,
            a,
            if a.len() > 0 && a[0] == 0 {
                56
            } else if a.len() > 0 && a[0] == 1 {
                64
            } else {
                0
            },
        ),
        ({
            let v = arg(a, 1) as u32;
            let known = arg(a, 0) != 0 && (v == 7 || v == 8 || v == 10 || v == 12 || v == 13);
            answers_number(
                AgcExport::Init,
                m,
                a,
                if known {
                    0
                } else {
                    0x8002_0016
                },
            )
        }),
{
    law_counted_sizes(a);
}

} // verus!
