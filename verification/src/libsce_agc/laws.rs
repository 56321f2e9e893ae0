//! What holds of packet builders and their size queries when they are called by
//! name.
use vstd::prelude::*;
use crate::agc::laws::{law_packet_takes_its_length, lemma_draw_index_takes, takes};
use crate::agc::packet::emit;
use crate::context::{arg, Machine};
use crate::libsce_agc::names::law_names_answer;
use crate::libsce_agc::{effect, registered, AgcExport, EXPORTS};
use crate::registry::{answers, row_key, Handler, Key, Registry, Reply};

verus! {

/// The export that tells the size of what a builder of fixed-length packets
/// emits.
pub open spec fn size_query(builder: AgcExport) -> Option<AgcExport> {
    match builder {
        AgcExport::CbDispatch => Some(AgcExport::CbDispatchGetSize),
        AgcExport::DcbAcquireMem => Some(AgcExport::AcquireMemGetSize),
        AgcExport::AcbAcquireMem => Some(AgcExport::AcquireMemGetSize),
        AgcExport::DcbJump => Some(AgcExport::DcbJumpGetSize),
        AgcExport::DcbRewind => Some(AgcExport::DcbRewindGetSize),
        AgcExport::DcbDrawIndexIndirect => Some(AgcExport::DcbDrawIndexIndirectGetSize),
        AgcExport::DcbStallCommandBufferParser => Some(
            AgcExport::DcbStallCommandBufferParserGetSize,
        ),
        AgcExport::DcbSetNumInstances => Some(AgcExport::GetSize2Dwords),
        AgcExport::DcbSetIndexSize => Some(AgcExport::GetSize2Dwords),
        AgcExport::DcbSetCxRegisterDirect => Some(AgcExport::GetSize3Dwords),
        AgcExport::DcbSetShRegisterDirect => Some(AgcExport::GetSize3Dwords),
        AgcExport::DcbSetUcRegisterDirect => Some(AgcExport::GetSize3Dwords),
        AgcExport::DcbDispatchIndirect => Some(AgcExport::GetSize3Dwords),
        AgcExport::DcbSetCxRegsIndirect => Some(AgcExport::GetSize4Dwords),
        AgcExport::DcbSetShRegsIndirect => Some(AgcExport::GetSize4Dwords),
        AgcExport::DcbSetUcRegsIndirect => Some(AgcExport::GetSize4Dwords),
        AgcExport::AcbDispatchIndirect => Some(AgcExport::GetSize4Dwords),
        AgcExport::DcbSetBaseIndirectArgs => Some(AgcExport::GetSize4Dwords),
        AgcExport::DcbSetPredication => Some(AgcExport::GetSize4Dwords),
        AgcExport::DcbSetIndexBuffer => Some(AgcExport::GetSize5Dwords),
        AgcExport::DcbDrawIndexOffset => Some(AgcExport::GetSize5Dwords),
        AgcExport::DcbDrawIndirect => Some(AgcExport::GetSize5Dwords),
        AgcExport::DcbCondExec => Some(AgcExport::GetSize5Dwords),
        AgcExport::DcbCopyData => Some(AgcExport::GetSize6Dwords),
        AgcExport::AcbCopyData => Some(AgcExport::GetSize6Dwords),
        AgcExport::DcbDrawIndexAuto => Some(AgcExport::GetSize7Dwords),
        AgcExport::DcbDrawIndexMultiInstanced => Some(AgcExport::GetSize9Dwords),
        AgcExport::DcbDrawIndexIndirectMulti => Some(AgcExport::GetSize9Dwords),
        AgcExport::DcbDrawIndirectMulti => Some(AgcExport::GetSize9Dwords),
        AgcExport::DcbDrawIndex => Some(AgcExport::GetSize10Dwords),
        AgcExport::PrimeUtcl2 => Some(AgcExport::PrimeUtcl2GetSize),
        AgcExport::CbBranch => Some(AgcExport::CbBranchGetSize),
        _ => None,
    }
}

/// The size of what a builder of fixed-length packets emits, in bytes.
pub open spec fn fixed_size(builder: AgcExport) -> int {
    match builder {
        AgcExport::DcbRewind => 8,
        AgcExport::DcbStallCommandBufferParser => 8,
        AgcExport::DcbSetNumInstances => 8,
        AgcExport::DcbSetIndexSize => 8,
        AgcExport::DcbSetCxRegisterDirect => 12,
        AgcExport::DcbSetShRegisterDirect => 12,
        AgcExport::DcbSetUcRegisterDirect => 12,
        AgcExport::DcbDispatchIndirect => 12,
        AgcExport::DcbJump => 16,
        AgcExport::DcbSetCxRegsIndirect => 16,
        AgcExport::DcbSetShRegsIndirect => 16,
        AgcExport::DcbSetUcRegsIndirect => 16,
        AgcExport::AcbDispatchIndirect => 16,
        AgcExport::DcbSetBaseIndirectArgs => 16,
        AgcExport::DcbSetPredication => 16,
        AgcExport::DcbCopyData => 24,
        AgcExport::AcbCopyData => 24,
        AgcExport::DcbDrawIndexAuto => 28,
        AgcExport::DcbAcquireMem => 32,
        AgcExport::AcbAcquireMem => 32,
        AgcExport::DcbDrawIndexMultiInstanced => 36,
        AgcExport::DcbDrawIndexIndirectMulti => 36,
        AgcExport::DcbDrawIndirectMulti => 36,
        AgcExport::DcbDrawIndex => 40,
        AgcExport::CbBranch => 56,
        _ => 20,
    }
}

/// A builder of fixed-length packets returns an address or 0, and takes what it
/// emits.
spec fn builder_takes(builder: AgcExport, m: Machine, a: Seq<u64>) -> bool {
    &&& effect(builder, m, a).1 is Return
    &&& takes(
        arg(a, 0),
        (effect(builder, m, a).0, effect(builder, m, a).1->Return_0),
        fixed_size(builder),
    )
}

proof fn lemma_emit_takes(m: Machine, cb: u64)
    ensures
        forall|words: Seq<u32>|
            words.len() <= u64::MAX ==> takes(
                cb,
                #[trigger] emit(m, cb, words),
                4 * words.len() as int,
            ),
{
    assert forall|words: Seq<u32>| words.len() <= u64::MAX implies takes(
        cb,
        #[trigger] emit(m, cb, words),
        4 * words.len() as int,
    ) by {
        law_packet_takes_its_length(m, cb, words);
    }
}

proof fn lemma_queue_takes(builder: AgcExport, m: Machine, a: Seq<u64>)
    requires
        builder is CbDispatch || builder is DcbAcquireMem || builder is AcbAcquireMem
            || builder is DcbJump || builder is DcbRewind
            || builder is DcbStallCommandBufferParser,
    ensures
        builder_takes(builder, m, a),
{
    lemma_emit_takes(m, arg(a, 0));
}

proof fn lemma_register_takes(builder: AgcExport, m: Machine, a: Seq<u64>)
    requires
        builder is DcbSetNumInstances || builder is DcbSetCxRegisterDirect
            || builder is DcbSetShRegisterDirect || builder is DcbSetUcRegisterDirect
            || builder is DcbSetIndexBuffer,
    ensures
        builder_takes(builder, m, a),
{
    lemma_emit_takes(m, arg(a, 0));
}

proof fn lemma_register_list_takes(builder: AgcExport, m: Machine, a: Seq<u64>)
    requires
        builder is DcbSetIndexSize || builder is DcbSetCxRegsIndirect
            || builder is DcbSetShRegsIndirect || builder is DcbSetUcRegsIndirect,
    ensures
        builder_takes(builder, m, a),
{
    lemma_emit_takes(m, arg(a, 0));
}

proof fn lemma_argument_takes(builder: AgcExport, m: Machine, a: Seq<u64>)
    requires
        builder is DcbDispatchIndirect || builder is AcbDispatchIndirect
            || builder is DcbSetBaseIndirectArgs || builder is DcbSetPredication
            || builder is DcbCondExec,
    ensures
        builder_takes(builder, m, a),
{
    lemma_emit_takes(m, arg(a, 0));
}

proof fn lemma_copy_takes(builder: AgcExport, m: Machine, a: Seq<u64>)
    requires
        builder is DcbCopyData || builder is AcbCopyData || builder is PrimeUtcl2
            || builder is CbBranch,
    ensures
        builder_takes(builder, m, a),
{
    lemma_emit_takes(m, arg(a, 0));
}

proof fn lemma_draw_takes(builder: AgcExport, m: Machine, a: Seq<u64>)
    requires
        builder is DcbDrawIndexOffset || builder is DcbDrawIndirect
            || builder is DcbDrawIndexIndirect || builder is DcbDrawIndexAuto,
    ensures
        builder_takes(builder, m, a),
{
    lemma_emit_takes(m, arg(a, 0));
}

proof fn lemma_multi_draw_takes(builder: AgcExport, m: Machine, a: Seq<u64>)
    requires
        builder is DcbDrawIndexMultiInstanced || builder is DcbDrawIndexIndirectMulti
            || builder is DcbDrawIndirectMulti,
    ensures
        builder_takes(builder, m, a),
{
    lemma_emit_takes(m, arg(a, 0));
}

proof fn lemma_builder_takes(builder: AgcExport, m: Machine, a: Seq<u64>)
    requires
        size_query(builder) is Some,
    ensures
        builder_takes(builder, m, a),
{
    match builder {
        AgcExport::CbDispatch
        | AgcExport::DcbAcquireMem
        | AgcExport::AcbAcquireMem
        | AgcExport::DcbJump
        | AgcExport::DcbRewind
        | AgcExport::DcbStallCommandBufferParser => {
            lemma_queue_takes(builder, m, a);
        },
        AgcExport::DcbSetNumInstances
        | AgcExport::DcbSetCxRegisterDirect
        | AgcExport::DcbSetShRegisterDirect
        | AgcExport::DcbSetUcRegisterDirect
        | AgcExport::DcbSetIndexBuffer => {
            lemma_register_takes(builder, m, a);
        },
        AgcExport::DcbSetIndexSize
        | AgcExport::DcbSetCxRegsIndirect
        | AgcExport::DcbSetShRegsIndirect
        | AgcExport::DcbSetUcRegsIndirect => {
            lemma_register_list_takes(builder, m, a);
        },
        AgcExport::DcbDispatchIndirect
        | AgcExport::AcbDispatchIndirect
        | AgcExport::DcbSetBaseIndirectArgs
        | AgcExport::DcbSetPredication
        | AgcExport::DcbCondExec => {
            lemma_argument_takes(builder, m, a);
        },
        AgcExport::DcbCopyData
        | AgcExport::AcbCopyData
        | AgcExport::PrimeUtcl2
        | AgcExport::CbBranch => {
            lemma_copy_takes(builder, m, a);
        },
        AgcExport::DcbDrawIndexOffset
        | AgcExport::DcbDrawIndirect
        | AgcExport::DcbDrawIndexIndirect
        | AgcExport::DcbDrawIndexAuto => {
            lemma_draw_takes(builder, m, a);
        },
        AgcExport::DcbDrawIndexMultiInstanced
        | AgcExport::DcbDrawIndexIndirectMulti
        | AgcExport::DcbDrawIndirectMulti => {
            lemma_multi_draw_takes(builder, m, a);
        },
        _ => {
            lemma_draw_index_takes(m, a);
        },
    }
}

proof fn lemma_query_tells(builder: AgcExport, m: Machine, a: Seq<u64>)
    requires
        size_query(builder) is Some,
    ensures
        effect(size_query(builder)->0, m, a) == (m, Reply::Return(fixed_size(builder) as u64)),
{
}

/// The size of a fixed-length packet is what its builder takes, called by name:
/// let `builder_name` be answered by a builder and `query_name` by its size
/// query. If the builder, called with `a`, returned an address, then it took from
/// there on exactly the bytes that the query answers, to any arguments and on any
/// machine.
pub proof fn law_size_by_name(
    r: Registry,
    builder_name: Key,
    query_name: Key,
    builder: AgcExport,
    m: Machine,
    a: Seq<u64>,
    after: Machine,
    reply: Reply,
    n: Machine,
    b: Seq<u64>,
    asked: Machine,
    size: Reply,
)
    requires
        size_query(builder) is Some,
        r.exports[builder_name].handler == Handler::Agc(builder),
        r.exports[query_name].handler == Handler::Agc(size_query(builder)->0),
        answers(r.exports[builder_name].handler, m, a, after, reply),
        answers(r.exports[query_name].handler, n, b, asked, size),
    ensures
        asked == n,
        reply is Return,
        size is Return,
        takes(arg(a, 0), (after, reply->Return_0), size->Return_0 as int),
{
    lemma_builder_takes(builder, m, a);
    lemma_query_tells(builder, n, b);
}

/// An index buffer, an auto-indexed draw and an indexed draw are bound to size
/// queries that tell what they emit, with their bindings.
pub proof fn law_draws_are_sized(r: Registry)
    ensures
        ({
            let x = registered(r).exports;
            &&& x[("libSceAgc"@, "sceAgcDcbSetIndexBuffer"@)].handler == Handler::Agc(
                AgcExport::DcbSetIndexBuffer,
            )
            &&& x[("libSceAgc"@, "sceAgcDcbSetIndexBufferGetSize"@)].handler == Handler::Agc(
                size_query(AgcExport::DcbSetIndexBuffer)->0,
            )
            &&& x[("libSceAgc"@, "sceAgcDcbDrawIndexAuto"@)].handler == Handler::Agc(
                AgcExport::DcbDrawIndexAuto,
            )
            &&& x[("libSceAgc"@, "sceAgcDcbDrawIndexAutoGetSize"@)].handler == Handler::Agc(
                size_query(AgcExport::DcbDrawIndexAuto)->0,
            )
            &&& x[("libSceAgc"@, "sceAgcDcbDrawIndex"@)].handler == Handler::Agc(
                AgcExport::DcbDrawIndex,
            )
            &&& x[("libSceAgc"@, "sceAgcDcbDrawIndexGetSize"@)].handler == Handler::Agc(
                size_query(AgcExport::DcbDrawIndex)->0,
            )
        }),
{
    law_names_answer(r, 2);
    law_names_answer(r, 4);
    law_names_answer(r, 5);
    law_names_answer(r, 93);
    law_names_answer(r, 94);
    law_names_answer(r, 103);
    assert(row_key(EXPORTS@[2]) == ("libSceAgc"@, "sceAgcDcbDrawIndexAuto"@));
    assert(row_key(EXPORTS@[4]) == ("libSceAgc"@, "sceAgcDcbSetIndexBuffer"@));
    assert(row_key(EXPORTS@[5]) == ("libSceAgc"@, "sceAgcDcbDrawIndex"@));
    assert(row_key(EXPORTS@[93]) == ("libSceAgc"@, "sceAgcDcbSetIndexBufferGetSize"@));
    assert(row_key(EXPORTS@[94]) == ("libSceAgc"@, "sceAgcDcbDrawIndexAutoGetSize"@));
    assert(row_key(EXPORTS@[103]) == ("libSceAgc"@, "sceAgcDcbDrawIndexGetSize"@));
}

} // verus!
