//! libSceAgc and libSceAgcDriver: the exports of the graphics library and of
//! its driver, and the names they are known by.
pub mod answers;
pub mod laws;
pub mod names;

use vstd::prelude::*;
use crate::agc::packet::lo;
use crate::agc::{builders, data, defaults, driver, packet, patch, registers, shader, sizes, submit};
use crate::context::{arg, GpuQueue, HleContext, Machine, OK, SCE_ERROR_INVALID_ARGUMENT};
use crate::registry::{
    returns_value, with_exports, with_incomplete, with_nids, Export, Handler, HleRegistry, Outcome,
    Registry, Reply,
};

verus! {

/// The exports of libSceAgc and libSceAgcDriver.
#[derive(Clone, Copy, PartialEq, Eq, Structural, Debug)]
pub enum AgcExport {
    GetPacketSize,
    DcbSetIndexSize,
    DcbDrawIndexAuto,
    DcbSetNumInstances,
    DcbSetIndexBuffer,
    DcbDrawIndex,
    DcbResetQueue,
    DcbWaitUntilSafe,
    DcbPopMarker,
    CbDispatch,
    CbNop,
    CbReleaseMem,
    DcbSetFlip,
    GetIsTrinityMode,
    UnknownAgcDolOmWh,
    UnknownAgcFd5Bp5t,
    AcbResetQueue,
    CbSetShRegisterRange,
    Init,
    DcbEventWrite,
    AcbEventWrite,
    DcbWriteData,
    AcbDispatchIndirect,
    DcbWaitRegMem,
    DcbDmaData,
    DcbAcquireMem,
    DcbSetCxRegisterDirect,
    DcbSetShRegisterDirect,
    DcbSetUcRegisterDirect,
    DcbCondExec,
    DcbSetCxRegsIndirect,
    DcbSetShRegsIndirect,
    DcbSetUcRegsIndirect,
    CreatePrimState,
    CreateShader,
    CreateInterpolantMapping,
    GetDataPacketPayloadAddress,
    DcbDispatchIndirect,
    SuspendPoint,
    UnknownKrzWekV120,
    DriverRegisterOwner,
    DriverRegisterResource,
    DriverAddEqEvent,
    DcbDrawIndexOffset,
    UnknownFiller,
    DcbPushMarker,
    DcbSetBaseIndirectArgs,
    DriverSubmitDcb,
    DriverSubmitAcb,
    QueueEopPatchAddress,
    DmaDataPatchAddress,
    WaitRegMemPatchAddress,
    WriteDataPatchAddress,
    SetIndirectPatchAddress,
    AddIndirectPatchRegisters,
    GetRegisterDefaults2,
    GetRegisterDefaults2Internal,
    DcbCopyData,
    DcbDrawIndexIndirectMulti,
    DcbDrawIndirectMulti,
    DcbSetIndexCount,
    DcbSetPredication,
    SetRangePredication,
    DebugRaiseException,
    CbSetShRegisterRangeGetSize,
    AcbDmaData,
    AcbCopyData,
    AcbAcquireMem,
    AcbWaitRegMem,
    CbSetShRegistersDirect,
    CbDispatchGetSize,
    CbNopGetSize,
    AcquireMemGetSize,
    DcbJumpGetSize,
    DcbRewindGetSize,
    QueueEopActionGetSize,
    DmaDataGetSize,
    DcbDrawIndexIndirectGetSize,
    DcbSetIndexCountGetSize,
    DcbStallCommandBufferParserGetSize,
    DcbGetLodStatsGetSize,
    GetSize2Dwords,
    GetSize3Dwords,
    GetSize5Dwords,
    GetSize6Dwords,
    GetSize7Dwords,
    GetSize9Dwords,
    GetSize10Dwords,
    DcbWriteDataGetSize,
    DcbWaitOnAddressGetSize,
    Accept,
    DcbDrawIndexIndirect,
    DcbStallCommandBufferParser,
    DcbGetLodStats,
    DcbJump,
    CbBranch,
    DcbDrawIndirect,
    SetPacketPredication,
    SetIndirectPatchSetNumRegisters,
    DcbSetMarker,
    DriverSubmitMultiDcbs,
    DriverSubmitMultiAcbs,
    DriverTriggerCapture,
    GetResourceMaxNameLength,
    DriverRegisterDefaultOwner,
    DriverGetDefaultOwner,
    DriverDeleteEqEvent,
    DriverQueryResourceMemory,
    DriverInitResourceRegistration,
    EventWriteGetSize,
    GetSize4Dwords,
    AtomicMemGetSize,
    AtomicGdsGetSize,
    PrimeUtcl2GetSize,
    CbBranchGetSize,
    CbCondWriteGetSize,
    CbSetRegistersDirectGetSize,
    CbSetUcRegisterRangeGetSize,
    DcbContextStateOpGetSize,
    DcbRewind,
    DcbSetWorkloadsActive,
    DcbSetWorkloadComplete,
    DcbSetWorkloadStreamInactive,
    DcbDrawIndexMultiInstanced,
    CbSetUcRegisterRange,
    CbSetUcRegistersDirect,
    PrimeUtcl2,
    QueueEopPatchData,
    QueueEopPatchGcrCntl,
    QueueEopPatchType,
    CondExecPatchSetEnd,
    CondExecPatchSetCommandAddress,
    RewindPatchSetRewindState,
    BranchPatchSetCompareAddress,
    WaitRegMemPatchReference,
    WaitRegMemPatchCompareFunction,
    DmaDataPatchSrc,
    UpdatePrimState,
    GetDataPacketPayloadRange,
    AtomicMemUnavailable,
    MemSemaphoreUnavailable,
    CbCondWriteUnavailable,
    SetIndexIndirectArgsUnavailable,
    GetDefaultCxStateFlatUnavailable,
    SetNopUnavailable,
    GetGsOversubscriptionUnavailable,
    SetAmmSemaphoreMemoryUnavailable,
    GetSemaphoreLabelUnavailable,
}

impl Export for AgcExport {
    open spec fn as_handler(self) -> Handler {
        Handler::Agc(self)
    }

    fn handler(self) -> (r: Handler) {
        Handler::Agc(self)
    }
}

/// Names and the exports that answer them.
pub const EXPORTS: [(&'static str, &'static str, AgcExport); 202] = [
    ("libSceAgc", "sceAgcGetPacketSize", AgcExport::GetPacketSize),
    ("libSceAgc", "sceAgcDcbSetIndexSize", AgcExport::DcbSetIndexSize),
    ("libSceAgc", "sceAgcDcbDrawIndexAuto", AgcExport::DcbDrawIndexAuto),
    ("libSceAgc", "sceAgcDcbSetNumInstances", AgcExport::DcbSetNumInstances),
    ("libSceAgc", "sceAgcDcbSetIndexBuffer", AgcExport::DcbSetIndexBuffer),
    ("libSceAgc", "sceAgcDcbDrawIndex", AgcExport::DcbDrawIndex),
    ("libSceAgc", "sceAgcDcbResetQueue", AgcExport::DcbResetQueue),
    ("libSceAgc", "sceAgcDcbWaitUntilSafeForRendering", AgcExport::DcbWaitUntilSafe),
    ("libSceAgc", "sceAgcDcbPopMarker", AgcExport::DcbPopMarker),
    ("libSceAgc", "sceAgcCbDispatch", AgcExport::CbDispatch),
    ("libSceAgc", "sceAgcCbNop", AgcExport::CbNop),
    ("libSceAgc", "sceAgcCbReleaseMem", AgcExport::CbReleaseMem),
    ("libSceAgc", "sceAgcDcbSetFlip", AgcExport::DcbSetFlip),
    ("libSceAgc", "sceAgcGetIsTrinityMode", AgcExport::GetIsTrinityMode),
    ("libSceAgc", "sceAgcAcbResetQueue", AgcExport::AcbResetQueue),
    ("libSceAgc", "sceAgcCbSetShRegisterRangeDirect", AgcExport::CbSetShRegisterRange),
    ("libSceAgc", "sceAgcDcbEventWrite", AgcExport::DcbEventWrite),
    ("libSceAgc", "sceAgcAcbEventWrite", AgcExport::AcbEventWrite),
    ("libSceAgc", "sceAgcDcbWriteData", AgcExport::DcbWriteData),
    ("libSceAgc", "sceAgcAcbWriteData", AgcExport::DcbWriteData),
    ("libSceAgc", "sceAgcAcbDispatchIndirect", AgcExport::AcbDispatchIndirect),
    ("libSceAgc", "sceAgcDcbWaitRegMem", AgcExport::DcbWaitRegMem),
    ("libSceAgc", "sceAgcDcbDmaData", AgcExport::DcbDmaData),
    ("libSceAgc", "sceAgcDcbAcquireMem", AgcExport::DcbAcquireMem),
    ("libSceAgc", "sceAgcDcbSetCxRegisterDirect", AgcExport::DcbSetCxRegisterDirect),
    ("libSceAgc", "sceAgcDcbSetShRegisterDirect", AgcExport::DcbSetShRegisterDirect),
    ("libSceAgc", "sceAgcDcbSetUcRegisterDirect", AgcExport::DcbSetUcRegisterDirect),
    ("libSceAgc", "sceAgcDcbCondExec", AgcExport::DcbCondExec),
    ("libSceAgc", "sceAgcAcbCondExec", AgcExport::DcbCondExec),
    ("libSceAgc", "sceAgcDcbSetCxRegistersIndirect", AgcExport::DcbSetCxRegsIndirect),
    ("libSceAgc", "sceAgcDcbSetShRegistersIndirect", AgcExport::DcbSetShRegsIndirect),
    ("libSceAgc", "sceAgcDcbSetUcRegistersIndirect", AgcExport::DcbSetUcRegsIndirect),
    ("libSceAgc", "sceAgcCreatePrimState", AgcExport::CreatePrimState),
    ("libSceAgc", "sceAgcCreateShader", AgcExport::CreateShader),
    ("libSceAgc", "sceAgcCreateInterpolantMapping", AgcExport::CreateInterpolantMapping),
    ("libSceAgc", "sceAgcDcbDispatchIndirect", AgcExport::DcbDispatchIndirect),
    ("libSceAgc", "sceAgcSuspendPoint", AgcExport::SuspendPoint),
    ("libSceAgcDriver", "sceAgcDriverRegisterOwner", AgcExport::DriverRegisterOwner),
    ("libSceAgcDriver", "sceAgcDriverRegisterResource", AgcExport::DriverRegisterResource),
    ("libSceAgc", "sceAgcDriverAddEqEvent", AgcExport::DriverAddEqEvent),
    ("libSceAgc", "sceAgcDcbDrawIndexOffset", AgcExport::DcbDrawIndexOffset),
    ("libSceAgc", "sceAgcDcbPushMarker", AgcExport::DcbPushMarker),
    ("libSceAgc", "sceAgcDcbSetBaseIndirectArgs", AgcExport::DcbSetBaseIndirectArgs),
    ("libSceAgcDriver", "sceAgcDriverSubmitDcb", AgcExport::DriverSubmitDcb),
    ("libSceAgcDriver", "sceAgcDriverAgrSubmitDcb", AgcExport::DriverSubmitDcb),
    ("libSceAgcDriver", "sceAgcDriverSubmitAcb", AgcExport::DriverSubmitAcb),
    ("libSceAgcDriver", "sceAgcDriverAddEqEvent", AgcExport::DriverAddEqEvent),
    ("libSceAgc", "sceAgcDriverSubmitDcb", AgcExport::DriverSubmitDcb),
    ("libSceAgc", "sceAgcDriverSubmitAcb", AgcExport::DriverSubmitAcb),
    ("libSceAgc", "sceAgcQueueEndOfPipeActionPatchAddress", AgcExport::QueueEopPatchAddress),
    ("libSceAgc", "sceAgcDmaDataPatchSetDstAddressOrOffset", AgcExport::DmaDataPatchAddress),
    ("libSceAgc", "sceAgcWaitRegMemPatchAddress", AgcExport::WaitRegMemPatchAddress),
    ("libSceAgc", "sceAgcSetCxRegIndirectPatchSetAddress", AgcExport::SetIndirectPatchAddress),
    ("libSceAgc", "sceAgcSetCxRegIndirectPatchAddRegisters", AgcExport::AddIndirectPatchRegisters),
    ("libSceAgc", "sceAgcSetShRegIndirectPatchSetAddress", AgcExport::SetIndirectPatchAddress),
    ("libSceAgc", "sceAgcSetShRegIndirectPatchAddRegisters", AgcExport::AddIndirectPatchRegisters),
    ("libSceAgc", "sceAgcSetUcRegIndirectPatchSetAddress", AgcExport::SetIndirectPatchAddress),
    ("libSceAgc", "sceAgcSetUcRegIndirectPatchAddRegisters", AgcExport::AddIndirectPatchRegisters),
    ("libSceAgc", "sceAgcGetRegisterDefaults2", AgcExport::GetRegisterDefaults2),
    ("libSceAgc", "sceAgcGetRegisterDefaults2Internal", AgcExport::GetRegisterDefaults2Internal),
    ("libSceAgc", "sceAgcDcbCopyData", AgcExport::DcbCopyData),
    ("libSceAgc", "sceAgcDcbDrawIndexIndirectMulti", AgcExport::DcbDrawIndexIndirectMulti),
    ("libSceAgc", "sceAgcDcbDrawIndirectMulti", AgcExport::DcbDrawIndirectMulti),
    ("libSceAgc", "sceAgcDcbSetIndexCount", AgcExport::DcbSetIndexCount),
    ("libSceAgc", "sceAgcDcbSetPredication", AgcExport::DcbSetPredication),
    ("libSceAgc", "sceAgcSetRangePredication", AgcExport::SetRangePredication),
    ("libSceAgc", "sceAgcDebugRaiseException", AgcExport::DebugRaiseException),
    (
        "libSceAgc",
        "sceAgcCbSetShRegisterRangeDirectGetSize",
        AgcExport::CbSetShRegisterRangeGetSize,
    ),
    ("libSceAgc", "sceAgcAcbDmaData", AgcExport::AcbDmaData),
    ("libSceAgc", "sceAgcAcbCopyData", AgcExport::AcbCopyData),
    ("libSceAgc", "sceAgcAcbAcquireMem", AgcExport::AcbAcquireMem),
    ("libSceAgc", "sceAgcAcbWaitRegMem", AgcExport::AcbWaitRegMem),
    ("libSceAgc", "sceAgcAcbPushMarker", AgcExport::DcbPushMarker),
    ("libSceAgc", "sceAgcAcbPopMarker", AgcExport::DcbPopMarker),
    ("libSceAgc", "sceAgcCbSetShRegistersDirect", AgcExport::CbSetShRegistersDirect),
    ("libSceAgc", "sceAgcCbDispatchGetSize", AgcExport::CbDispatchGetSize),
    ("libSceAgc", "sceAgcCbNopGetSize", AgcExport::CbNopGetSize),
    ("libSceAgc", "sceAgcDcbAcquireMemGetSize", AgcExport::AcquireMemGetSize),
    ("libSceAgc", "sceAgcAcbAcquireMemGetSize", AgcExport::AcquireMemGetSize),
    ("libSceAgc", "sceAgcDcbJumpGetSize", AgcExport::DcbJumpGetSize),
    ("libSceAgc", "sceAgcDcbRewindGetSize", AgcExport::DcbRewindGetSize),
    ("libSceAgc", "sceAgcCbQueueEndOfPipeActionGetSize", AgcExport::QueueEopActionGetSize),
    ("libSceAgc", "sceAgcDcbDmaDataGetSize", AgcExport::DmaDataGetSize),
    ("libSceAgc", "sceAgcAcbDmaDataGetSize", AgcExport::DmaDataGetSize),
    ("libSceAgc", "sceAgcDcbDrawIndexIndirectGetSize", AgcExport::DcbDrawIndexIndirectGetSize),
    ("libSceAgc", "sceAgcDcbSetIndexCountGetSize", AgcExport::DcbSetIndexCountGetSize),
    (
        "libSceAgc",
        "sceAgcDcbStallCommandBufferParserGetSize",
        AgcExport::DcbStallCommandBufferParserGetSize,
    ),
    ("libSceAgc", "sceAgcDcbGetLodStatsGetSize", AgcExport::DcbGetLodStatsGetSize),
    ("libSceAgc", "sceAgcDcbSetNumInstancesGetSize", AgcExport::GetSize2Dwords),
    ("libSceAgc", "sceAgcDcbSetCxRegisterDirectGetSize", AgcExport::GetSize3Dwords),
    ("libSceAgc", "sceAgcDcbSetShRegisterDirectGetSize", AgcExport::GetSize3Dwords),
    ("libSceAgc", "sceAgcDcbSetUcRegisterDirectGetSize", AgcExport::GetSize3Dwords),
    ("libSceAgc", "sceAgcDcbSetIndexSizeGetSize", AgcExport::GetSize2Dwords),
    ("libSceAgc", "sceAgcDcbSetIndexBufferGetSize", AgcExport::GetSize5Dwords),
    ("libSceAgc", "sceAgcDcbDrawIndexAutoGetSize", AgcExport::GetSize7Dwords),
    ("libSceAgc", "sceAgcDcbDispatchIndirectGetSize", AgcExport::GetSize3Dwords),
    ("libSceAgc", "sceAgcDcbSetCxRegistersIndirectGetSize", AgcExport::GetSize4Dwords),
    ("libSceAgc", "sceAgcDcbSetShRegistersIndirectGetSize", AgcExport::GetSize4Dwords),
    ("libSceAgc", "sceAgcDcbSetUcRegistersIndirectGetSize", AgcExport::GetSize4Dwords),
    ("libSceAgc", "sceAgcDcbDrawIndexOffsetGetSize", AgcExport::GetSize5Dwords),
    ("libSceAgc", "sceAgcDcbDrawIndirectGetSize", AgcExport::GetSize5Dwords),
    ("libSceAgc", "sceAgcDcbCondExecGetSize", AgcExport::GetSize5Dwords),
    ("libSceAgc", "sceAgcAcbCondExecGetSize", AgcExport::GetSize5Dwords),
    ("libSceAgc", "sceAgcDcbDrawIndexGetSize", AgcExport::GetSize10Dwords),
    ("libSceAgc", "sceAgcDcbDrawIndexMultiInstancedGetSize", AgcExport::GetSize9Dwords),
    ("libSceAgc", "sceAgcDcbWriteDataGetSize", AgcExport::DcbWriteDataGetSize),
    ("libSceAgc", "sceAgcDcbWaitOnAddressGetSize", AgcExport::DcbWaitOnAddressGetSize),
    ("libSceAgc", "sceAgcDcbDrawIndexIndirect", AgcExport::DcbDrawIndexIndirect),
    ("libSceAgc", "sceAgcDcbStallCommandBufferParser", AgcExport::DcbStallCommandBufferParser),
    ("libSceAgc", "sceAgcDcbGetLodStats", AgcExport::DcbGetLodStats),
    ("libSceAgc", "sceAgcDcbJump", AgcExport::DcbJump),
    ("libSceAgc", "sceAgcCbBranch", AgcExport::CbBranch),
    ("libSceAgc", "sceAgcDcbDrawIndirect", AgcExport::DcbDrawIndirect),
    ("libSceAgc", "sceAgcSetPacketPredication", AgcExport::SetPacketPredication),
    (
        "libSceAgc",
        "sceAgcSetCxRegIndirectPatchSetNumRegisters",
        AgcExport::SetIndirectPatchSetNumRegisters,
    ),
    ("libSceAgc", "sceAgcDcbSetMarker", AgcExport::DcbSetMarker),
    ("libSceAgc", "sceAgcDriverSubmitMultiDcbs", AgcExport::DriverSubmitMultiDcbs),
    ("libSceAgcDriver", "sceAgcDriverSubmitMultiDcbs", AgcExport::DriverSubmitMultiDcbs),
    ("libSceAgc", "sceAgcDriverAgrSubmitMultiDcbs", AgcExport::DriverSubmitMultiDcbs),
    ("libSceAgcDriver", "sceAgcDriverAgrSubmitMultiDcbs", AgcExport::DriverSubmitMultiDcbs),
    ("libSceAgc", "sceAgcDriverSubmitMultiAcbs", AgcExport::DriverSubmitMultiAcbs),
    ("libSceAgcDriver", "sceAgcDriverSubmitMultiAcbs", AgcExport::DriverSubmitMultiAcbs),
    ("libSceAgc", "sceAgcDriverTriggerCapture", AgcExport::DriverTriggerCapture),
    ("libSceAgcDriver", "sceAgcDriverTriggerCapture", AgcExport::DriverTriggerCapture),
    (
        "libSceAgc",
        "sceAgcDriverGetResourceRegistrationMaxNameLength",
        AgcExport::GetResourceMaxNameLength,
    ),
    (
        "libSceAgcDriver",
        "sceAgcDriverGetResourceRegistrationMaxNameLength",
        AgcExport::GetResourceMaxNameLength,
    ),
    ("libSceAgc", "sceAgcDriverRegisterDefaultOwner", AgcExport::DriverRegisterDefaultOwner),
    ("libSceAgcDriver", "sceAgcDriverRegisterDefaultOwner", AgcExport::DriverRegisterDefaultOwner),
    ("libSceAgc", "sceAgcDriverGetDefaultOwner", AgcExport::DriverGetDefaultOwner),
    ("libSceAgcDriver", "sceAgcDriverGetDefaultOwner", AgcExport::DriverGetDefaultOwner),
    ("libSceAgc", "sceAgcDriverDeleteEqEvent", AgcExport::DriverDeleteEqEvent),
    ("libSceAgcDriver", "sceAgcDriverDeleteEqEvent", AgcExport::DriverDeleteEqEvent),
    (
        "libSceAgc",
        "sceAgcDriverQueryResourceRegistrationUserMemoryRequirements",
        AgcExport::DriverQueryResourceMemory,
    ),
    (
        "libSceAgcDriver",
        "sceAgcDriverQueryResourceRegistrationUserMemoryRequirements",
        AgcExport::DriverQueryResourceMemory,
    ),
    (
        "libSceAgc",
        "sceAgcDriverInitResourceRegistration",
        AgcExport::DriverInitResourceRegistration,
    ),
    (
        "libSceAgcDriver",
        "sceAgcDriverInitResourceRegistration",
        AgcExport::DriverInitResourceRegistration,
    ),
    ("libSceAgc", "sceAgcDcbEventWriteGetSize", AgcExport::EventWriteGetSize),
    ("libSceAgc", "sceAgcAcbEventWriteGetSize", AgcExport::EventWriteGetSize),
    ("libSceAgc", "sceAgcDcbCopyDataGetSize", AgcExport::GetSize6Dwords),
    ("libSceAgc", "sceAgcAcbCopyDataGetSize", AgcExport::GetSize6Dwords),
    ("libSceAgc", "sceAgcAcbDispatchIndirectGetSize", AgcExport::GetSize4Dwords),
    ("libSceAgc", "sceAgcAcbJumpGetSize", AgcExport::DcbJumpGetSize),
    ("libSceAgc", "sceAgcAcbRewindGetSize", AgcExport::DcbRewindGetSize),
    ("libSceAgc", "sceAgcAcbWaitOnAddressGetSize", AgcExport::DcbWaitOnAddressGetSize),
    ("libSceAgc", "sceAgcDcbAtomicMemGetSize", AgcExport::AtomicMemGetSize),
    ("libSceAgc", "sceAgcAcbAtomicMemGetSize", AgcExport::AtomicMemGetSize),
    ("libSceAgc", "sceAgcDcbAtomicGdsGetSize", AgcExport::AtomicGdsGetSize),
    ("libSceAgc", "sceAgcAcbAtomicGdsGetSize", AgcExport::AtomicGdsGetSize),
    ("libSceAgc", "sceAgcDcbPrimeUtcl2GetSize", AgcExport::PrimeUtcl2GetSize),
    ("libSceAgc", "sceAgcAcbPrimeUtcl2GetSize", AgcExport::PrimeUtcl2GetSize),
    ("libSceAgc", "sceAgcCbBranchGetSize", AgcExport::CbBranchGetSize),
    ("libSceAgc", "sceAgcCbCondWriteGetSize", AgcExport::CbCondWriteGetSize),
    ("libSceAgc", "sceAgcCbSetShRegistersDirectGetSize", AgcExport::CbSetRegistersDirectGetSize),
    ("libSceAgc", "sceAgcCbSetUcRegistersDirectGetSize", AgcExport::CbSetRegistersDirectGetSize),
    (
        "libSceAgc",
        "sceAgcCbSetUcRegisterRangeDirectGetSize",
        AgcExport::CbSetUcRegisterRangeGetSize,
    ),
    ("libSceAgc", "sceAgcDcbSetBaseDrawIndirectArgsGetSize", AgcExport::GetSize4Dwords),
    ("libSceAgc", "sceAgcDcbSetBaseDispatchIndirectArgsGetSize", AgcExport::GetSize4Dwords),
    ("libSceAgc", "sceAgcDcbSetIndexIndirectArgsGetSize", AgcExport::GetSize4Dwords),
    ("libSceAgc", "sceAgcDcbSetPredicationDisableGetSize", AgcExport::GetSize4Dwords),
    ("libSceAgc", "sceAgcDcbSetZPassPredicationEnableGetSize", AgcExport::GetSize4Dwords),
    ("libSceAgc", "sceAgcDcbSetBoolPredicationEnableGetSize", AgcExport::GetSize4Dwords),
    ("libSceAgc", "sceAgcDcbBeginOcclusionQueryGetSize", AgcExport::GetSize4Dwords),
    ("libSceAgc", "sceAgcDcbEndOcclusionQueryGetSize", AgcExport::GetSize4Dwords),
    ("libSceAgc", "sceAgcDcbQueueEndOfShaderActionGetSize", AgcExport::QueueEopActionGetSize),
    ("libSceAgc", "sceAgcAcbQueueEndOfShaderActionGetSize", AgcExport::QueueEopActionGetSize),
    ("libSceAgc", "sceAgcDcbContextStateOpGetSize", AgcExport::DcbContextStateOpGetSize),
    ("libSceAgc", "sceAgcDcbDrawIndexIndirectMultiGetSize", AgcExport::GetSize9Dwords),
    ("libSceAgc", "sceAgcDcbDrawIndirectMultiGetSize", AgcExport::GetSize9Dwords),
    ("libSceAgc", "sceAgcDcbRewind", AgcExport::DcbRewind),
    ("libSceAgc", "sceAgcAcbRewind", AgcExport::DcbRewind),
    ("libSceAgc", "sceAgcAcbJump", AgcExport::DcbJump),
    ("libSceAgc", "sceAgcAcbSetFlip", AgcExport::DcbSetFlip),
    ("libSceAgc", "sceAgcAcbSetMarker", AgcExport::DcbSetMarker),
    ("libSceAgc", "sceAgcAcbWaitUntilSafeForRendering", AgcExport::DcbWaitUntilSafe),
    ("libSceAgc", "sceAgcDcbSetWorkloadsActive", AgcExport::DcbSetWorkloadsActive),
    ("libSceAgc", "sceAgcAcbSetWorkloadsActive", AgcExport::DcbSetWorkloadsActive),
    ("libSceAgc", "sceAgcDcbSetWorkloadComplete", AgcExport::DcbSetWorkloadComplete),
    ("libSceAgc", "sceAgcAcbSetWorkloadComplete", AgcExport::DcbSetWorkloadComplete),
    ("libSceAgc", "sceAgcDcbSetWorkloadStreamInactive", AgcExport::DcbSetWorkloadStreamInactive),
    ("libSceAgc", "sceAgcAcbSetWorkloadStreamInactive", AgcExport::DcbSetWorkloadStreamInactive),
    ("libSceAgc", "sceAgcDcbDrawIndexMultiInstanced", AgcExport::DcbDrawIndexMultiInstanced),
    ("libSceAgc", "sceAgcCbSetUcRegisterRangeDirect", AgcExport::CbSetUcRegisterRange),
    ("libSceAgc", "sceAgcCbSetUcRegistersDirect", AgcExport::CbSetUcRegistersDirect),
    ("libSceAgc", "sceAgcDcbPrimeUtcl2", AgcExport::PrimeUtcl2),
    ("libSceAgc", "sceAgcAcbPrimeUtcl2", AgcExport::PrimeUtcl2),
    ("libSceAgc", "sceAgcQueueEndOfPipeActionPatchData", AgcExport::QueueEopPatchData),
    ("libSceAgc", "sceAgcQueueEndOfPipeActionPatchGcrCntl", AgcExport::QueueEopPatchGcrCntl),
    ("libSceAgc", "sceAgcQueueEndOfPipeActionPatchType", AgcExport::QueueEopPatchType),
    ("libSceAgc", "sceAgcCondExecPatchSetEnd", AgcExport::CondExecPatchSetEnd),
    ("libSceAgc", "sceAgcAsyncCondExecPatchSetEnd", AgcExport::CondExecPatchSetEnd),
    (
        "libSceAgc",
        "sceAgcCondExecPatchSetCommandAddress",
        AgcExport::CondExecPatchSetCommandAddress,
    ),
    (
        "libSceAgc",
        "sceAgcAsyncCondExecPatchSetCommandAddress",
        AgcExport::CondExecPatchSetCommandAddress,
    ),
    ("libSceAgc", "sceAgcRewindPatchSetRewindState", AgcExport::RewindPatchSetRewindState),
    ("libSceAgc", "sceAgcAsyncRewindPatchSetRewindState", AgcExport::RewindPatchSetRewindState),
    ("libSceAgc", "sceAgcBranchPatchSetCompareAddress", AgcExport::BranchPatchSetCompareAddress),
    ("libSceAgc", "sceAgcWaitRegMemPatchReference", AgcExport::WaitRegMemPatchReference),
    (
        "libSceAgc",
        "sceAgcWaitRegMemPatchCompareFunction",
        AgcExport::WaitRegMemPatchCompareFunction,
    ),
    ("libSceAgc", "sceAgcDmaDataPatchSetSrcAddressOrOffsetOrImmediate", AgcExport::DmaDataPatchSrc),
    (
        "libSceAgc",
        "sceAgcSetShRegIndirectPatchSetNumRegisters",
        AgcExport::SetIndirectPatchSetNumRegisters,
    ),
    (
        "libSceAgc",
        "sceAgcSetUcRegIndirectPatchSetNumRegisters",
        AgcExport::SetIndirectPatchSetNumRegisters,
    ),
    ("libSceAgc", "sceAgcUpdatePrimState", AgcExport::UpdatePrimState),
    ("libSceAgc", "sceAgcGetDataPacketPayloadRange", AgcExport::GetDataPacketPayloadRange),
];

/// Names that are imported by an identifier of their own.
pub const NID_EXPORTS: [(&'static str, &'static str, u64, AgcExport); 8] = [
    ("libSceAgc", "sceAgcUnknownDolOmWHhuQ", 0x7689_4e99_61fe_86e4, AgcExport::UnknownAgcDolOmWh),
    ("libSceAgc", "sceAgcUnknownFd5Bp5tGTgo", 0x7dde_41a7_9b46_4e0a, AgcExport::UnknownAgcFd5Bp5t),
    ("libSceAgc", "sceAgcInit", 0xdb72_d151_2bd8_bb53, AgcExport::Init),
    (
        "libSceAgc",
        "sceAgcCreateInterpolantMapping",
        0x1d5e_23f8_4d0c_0471,
        AgcExport::CreateInterpolantMapping,
    ),
    (
        "libSceAgc",
        "sceAgcGetDataPacketPayloadAddress",
        0x57ef_9480_1b50_867d,
        AgcExport::GetDataPacketPayloadAddress,
    ),
    ("libSceAgc", "sceAgcUnknownKRzWekV120", 0xfca4_7359_e915_d76d, AgcExport::UnknownKrzWekV120),
    ("libSceAgc", "sceAgcUnknownQj7QZpgr9Uw", 0xaa3e_d066_982b_f54c, AgcExport::UnknownFiller),
    (
        "libSceAgc",
        "sceAgcWriteDataPatchAddress",
        0x7cf4_8275_0c60_a52c,
        AgcExport::WriteDataPatchAddress,
    ),
];

/// Names whose exports do less than they should, and what is missing.
pub const INCOMPLETE_EXPORTS: [(&'static str, &'static str, AgcExport, &'static str); 35] = [
    (
        "libSceAgcDriver",
        "sceAgcDriverSetTFRing",
        AgcExport::Accept,
        "tessellation-factor ring is accepted but not bound to host GPU state",
    ),
    (
        "libSceAgcDriver",
        "sceAgcDriverSetHsOffchipParam",
        AgcExport::Accept,
        "driver bookkeeping/capture surface has no host implementation",
    ),
    (
        "libSceAgcDriver",
        "sceAgcDriverSetResourceUserData",
        AgcExport::Accept,
        "driver bookkeeping/capture surface has no host implementation",
    ),
    (
        "libSceAgcDriver",
        "sceAgcDriverGetResourceUserData",
        AgcExport::Accept,
        "driver bookkeeping/capture surface has no host implementation",
    ),
    (
        "libSceAgcDriver",
        "sceAgcDriverRegisterWorkloadStream",
        AgcExport::Accept,
        "driver bookkeeping/capture surface has no host implementation",
    ),
    (
        "libSceAgcDriver",
        "sceAgcDriverUnregisterWorkloadStream",
        AgcExport::Accept,
        "driver bookkeeping/capture surface has no host implementation",
    ),
    (
        "libSceAgcDriver",
        "sceAgcDriverRegisterGdsResource",
        AgcExport::Accept,
        "driver bookkeeping/capture surface has no host implementation",
    ),
    (
        "libSceAgcDriver",
        "sceAgcDriverUnregisterResource",
        AgcExport::Accept,
        "driver bookkeeping/capture surface has no host implementation",
    ),
    (
        "libSceAgcDriver",
        "sceAgcDriverUnregisterAllResourcesForOwner",
        AgcExport::Accept,
        "driver bookkeeping/capture surface has no host implementation",
    ),
    (
        "libSceAgcDriver",
        "sceAgcDriverUnregisterOwnerAndResources",
        AgcExport::Accept,
        "driver bookkeeping/capture surface has no host implementation",
    ),
    (
        "libSceAgcDriver",
        "sceAgcDriverFindResourcesPublic",
        AgcExport::Accept,
        "driver bookkeeping/capture surface has no host implementation",
    ),
    (
        "libSceAgcDriver",
        "sceAgcDriverGetOwnerName",
        AgcExport::Accept,
        "driver bookkeeping/capture surface has no host implementation",
    ),
    (
        "libSceAgcDriver",
        "sceAgcDriverGetResourceName",
        AgcExport::Accept,
        "driver bookkeeping/capture surface has no host implementation",
    ),
    (
        "libSceAgcDriver",
        "sceAgcDriverGetResourceType",
        AgcExport::Accept,
        "driver bookkeeping/capture surface has no host implementation",
    ),
    (
        "libSceAgcDriver",
        "sceAgcDriverGetResourceShaderGuid",
        AgcExport::Accept,
        "driver bookkeeping/capture surface has no host implementation",
    ),
    (
        "libSceAgcDriver",
        "sceAgcDriverGetResourceBaseAddressAndSizeInBytes",
        AgcExport::Accept,
        "driver bookkeeping/capture surface has no host implementation",
    ),
    (
        "libSceAgcDriver",
        "sceAgcDriverGetEqEventType",
        AgcExport::Accept,
        "driver bookkeeping/capture surface has no host implementation",
    ),
    (
        "libSceAgcDriver",
        "sceAgcDriverGetEqContextId",
        AgcExport::Accept,
        "driver bookkeeping/capture surface has no host implementation",
    ),
    (
        "libSceAgcDriver",
        "sceAgcDriverGetShaderDebuggingStatus",
        AgcExport::Accept,
        "driver bookkeeping/capture surface has no host implementation",
    ),
    (
        "libSceAgcDriver",
        "sceAgcDriverIsTraceInProgress",
        AgcExport::Accept,
        "driver bookkeeping/capture surface has no host implementation",
    ),
    (
        "libSceAgcDriver",
        "sceAgcDriverIsCaptureInProgress",
        AgcExport::Accept,
        "driver bookkeeping/capture surface has no host implementation",
    ),
    (
        "libSceAgcDriver",
        "sceAgcDriverIsSubmitValidationEnabled",
        AgcExport::Accept,
        "driver bookkeeping/capture surface has no host implementation",
    ),
    (
        "libSceAgcDriver",
        "sceAgcDriverRequestCaptureStart",
        AgcExport::Accept,
        "driver bookkeeping/capture surface has no host implementation",
    ),
    (
        "libSceAgcDriver",
        "sceAgcDriverRequestCaptureStop",
        AgcExport::Accept,
        "driver bookkeeping/capture surface has no host implementation",
    ),
    (
        "libSceAgc",
        "sceAgcDcbAtomicMem",
        AgcExport::AtomicMemUnavailable,
        "ATOMIC_MEM guest signature unreferenced — returns null, never a guessed packet",
    ),
    (
        "libSceAgc",
        "sceAgcAcbAtomicMem",
        AgcExport::AtomicMemUnavailable,
        "ATOMIC_MEM guest signature unreferenced — returns null, never a guessed packet",
    ),
    (
        "libSceAgc",
        "sceAgcDcbMemSemaphore",
        AgcExport::MemSemaphoreUnavailable,
        "MEM_SEMAPHORE layout/signature unreferenced — returns null",
    ),
    (
        "libSceAgc",
        "sceAgcAcbMemSemaphore",
        AgcExport::MemSemaphoreUnavailable,
        "MEM_SEMAPHORE layout/signature unreferenced — returns null",
    ),
    (
        "libSceAgc",
        "sceAgcCbCondWrite",
        AgcExport::CbCondWriteUnavailable,
        "COND_WRITE guest signature unreferenced — returns null",
    ),
    (
        "libSceAgc",
        "sceAgcDcbSetIndexIndirectArgs",
        AgcExport::SetIndexIndirectArgsUnavailable,
        "SET_BASE select constant unreferenced — returns null",
    ),
    (
        "libSceAgc",
        "sceAgcGetDefaultCxStateFlat",
        AgcExport::GetDefaultCxStateFlatUnavailable,
        "flat default-CX-state layout unreferenced — returns null",
    ),
    (
        "libSceAgc",
        "sceAgcSetNop",
        AgcExport::SetNopUnavailable,
        "signature unreferenced — writes nothing, returns 0",
    ),
    (
        "libSceAgc",
        "sceAgcGetGsOversubscription",
        AgcExport::GetGsOversubscriptionUnavailable,
        "semantics unreferenced — returns 0",
    ),
    (
        "libSceAgc",
        "sceAgcSetAmmSemaphoreMemory",
        AgcExport::SetAmmSemaphoreMemoryUnavailable,
        "semantics unreferenced — returns SCE_ERROR_INVALID_ARGUMENT",
    ),
    (
        "libSceAgc",
        "sceAgcGetSemaphoreLabel",
        AgcExport::GetSemaphoreLabelUnavailable,
        "semantics unreferenced — returns null",
    ),
];

/// The registry with this library in it.
pub open spec fn registered(r: Registry) -> Registry {
    with_incomplete(with_nids(with_exports(r, EXPORTS@), NID_EXPORTS@), INCOMPLETE_EXPORTS@)
}

/// Register libSceAgc and libSceAgcDriver.
pub fn register(registry: &mut HleRegistry)
    ensures
        final(registry)@ == registered(old(registry)@),
{
    registry.register_exports(&EXPORTS);
    registry.register_nids(&NID_EXPORTS);
    registry.register_incompletes(&INCOMPLETE_EXPORTS);
}

/// What an export does: the next machine and the answer.
pub open spec fn effect(e: AgcExport, m: Machine, a: Seq<u64>) -> (Machine, Reply) {
    match e {
        AgcExport::GetPacketSize => returns_value(patch::get_packet_size(m, a)),
        AgcExport::DcbSetIndexSize => returns_value(builders::dcb_set_index_size(m, a)),
        AgcExport::DcbDrawIndexAuto => returns_value(builders::dcb_draw_index_auto(m, a)),
        AgcExport::DcbSetNumInstances => returns_value(builders::dcb_set_num_instances(m, a)),
        AgcExport::DcbSetIndexBuffer => returns_value(builders::dcb_set_index_buffer(m, a)),
        AgcExport::DcbDrawIndex => returns_value(data::dcb_draw_index(m, a)),
        AgcExport::DcbResetQueue => returns_value(builders::dcb_reset_queue(m, a)),
        AgcExport::DcbWaitUntilSafe => returns_value(builders::dcb_wait_until_safe(m, a)),
        AgcExport::DcbPopMarker => returns_value(builders::dcb_pop_marker(m, a)),
        AgcExport::CbDispatch => returns_value(builders::cb_dispatch(m, a)),
        AgcExport::CbNop => returns_value(data::cb_nop(m, a)),
        AgcExport::CbReleaseMem => returns_value(builders::cb_release_mem(m, a)),
        AgcExport::DcbSetFlip => returns_value(builders::dcb_set_flip(m, a)),
        AgcExport::GetIsTrinityMode => (m, Reply::Return(0)),
        AgcExport::UnknownAgcDolOmWh => (m, Reply::Return(OK)),
        AgcExport::UnknownAgcFd5Bp5t => (m, Reply::Return(OK)),
        AgcExport::AcbResetQueue => returns_value(builders::acb_reset_queue(m, a)),
        AgcExport::CbSetShRegisterRange => returns_value(data::cb_set_sh_register_range(m, a)),
        AgcExport::Init => (m, Reply::Return(sizes::init_result(a))),
        AgcExport::DcbEventWrite => returns_value(builders::dcb_event_write(m, a)),
        AgcExport::AcbEventWrite => returns_value(builders::acb_event_write(m, a)),
        AgcExport::DcbWriteData => returns_value(data::dcb_write_data(m, a)),
        AgcExport::AcbDispatchIndirect => returns_value(builders::acb_dispatch_indirect(m, a)),
        AgcExport::DcbWaitRegMem => returns_value(builders::dcb_wait_reg_mem(m, a)),
        AgcExport::DcbDmaData => returns_value(data::dcb_dma_data(m, a)),
        AgcExport::DcbAcquireMem => returns_value(builders::dcb_acquire_mem(m, a)),
        AgcExport::DcbSetCxRegisterDirect => returns_value(
            builders::dcb_set_cx_register_direct(m, a),
        ),
        AgcExport::DcbSetShRegisterDirect => returns_value(
            builders::dcb_set_sh_register_direct(m, a),
        ),
        AgcExport::DcbSetUcRegisterDirect => returns_value(
            builders::dcb_set_uc_register_direct(m, a),
        ),
        AgcExport::DcbCondExec => returns_value(builders::dcb_cond_exec(m, a)),
        AgcExport::DcbSetCxRegsIndirect => returns_value(builders::dcb_set_cx_regs_indirect(m, a)),
        AgcExport::DcbSetShRegsIndirect => returns_value(builders::dcb_set_sh_regs_indirect(m, a)),
        AgcExport::DcbSetUcRegsIndirect => returns_value(builders::dcb_set_uc_regs_indirect(m, a)),
        AgcExport::CreatePrimState => returns_value(shader::create_prim_state(m, a)),
        AgcExport::CreateShader => returns_value(shader::create_shader(m, a)),
        AgcExport::CreateInterpolantMapping => returns_value(
            shader::create_interpolant_mapping(m, a),
        ),
        AgcExport::GetDataPacketPayloadAddress => returns_value(
            patch::get_data_packet_payload_address(m, a),
        ),
        AgcExport::DcbDispatchIndirect => returns_value(builders::dcb_dispatch_indirect(m, a)),
        AgcExport::SuspendPoint => returns_value(driver::suspend_point(m, a)),
        AgcExport::UnknownKrzWekV120 => returns_value(builders::unknown_krz_wek_v120(m, a)),
        AgcExport::DriverRegisterOwner => returns_value(driver::driver_register_owner(m, a)),
        AgcExport::DriverRegisterResource => returns_value(driver::driver_register_resource(m, a)),
        AgcExport::DriverAddEqEvent => returns_value(driver::driver_add_eq_event(m, a)),
        AgcExport::DcbDrawIndexOffset => returns_value(builders::dcb_draw_index_offset(m, a)),
        AgcExport::UnknownFiller => returns_value(builders::unknown_filler(m, a)),
        AgcExport::DcbPushMarker => returns_value(data::dcb_marker(m, a, packet::R_PUSH_MARKER)),
        AgcExport::DcbSetBaseIndirectArgs => returns_value(
            builders::dcb_set_base_indirect_args(m, a),
        ),
        AgcExport::DriverSubmitDcb => (
            m,
            Reply::Submit(submit::submit_start(m.mem, arg(a, 0), GpuQueue::Graphics)),
        ),
        AgcExport::DriverSubmitAcb => (
            m,
            Reply::Submit(submit::submit_start(m.mem, arg(a, 1), GpuQueue::AsyncCompute)),
        ),
        AgcExport::QueueEopPatchAddress => returns_value(patch::queue_eop_patch_address(m, a)),
        AgcExport::DmaDataPatchAddress => returns_value(patch::dma_data_patch_address(m, a)),
        AgcExport::WaitRegMemPatchAddress => returns_value(patch::wait_reg_mem_patch_address(m, a)),
        AgcExport::WriteDataPatchAddress => returns_value(patch::write_data_patch_address(m, a)),
        AgcExport::SetIndirectPatchAddress => returns_value(
            patch::set_indirect_patch_address(m, a),
        ),
        AgcExport::AddIndirectPatchRegisters => returns_value(
            patch::add_indirect_patch_registers(m, a),
        ),
        AgcExport::GetRegisterDefaults2 => (
            m,
            Reply::Defaults(defaults::defaults_request(m, lo(arg(a, 0)), 0)),
        ),
        AgcExport::GetRegisterDefaults2Internal => (
            m,
            Reply::Defaults(
                defaults::defaults_request(m, lo(arg(a, 0)), defaults::REG_DEFAULTS_HEADER_BYTES),
            ),
        ),
        AgcExport::DcbCopyData => returns_value(builders::dcb_copy_data(m, a)),
        AgcExport::DcbDrawIndexIndirectMulti => returns_value(
            builders::dcb_draw_index_indirect_multi(m, a),
        ),
        AgcExport::DcbDrawIndirectMulti => returns_value(builders::dcb_draw_indirect_multi(m, a)),
        AgcExport::DcbSetIndexCount => returns_value(builders::dcb_set_index_count(m, a)),
        AgcExport::DcbSetPredication => returns_value(builders::dcb_set_predication(m, a)),
        AgcExport::SetRangePredication => (m, Reply::Return(OK)),
        AgcExport::DebugRaiseException => (m, Reply::Return(OK)),
        AgcExport::CbSetShRegisterRangeGetSize => (
            m,
            Reply::Return(sizes::sh_register_range_dwords(a)),
        ),
        AgcExport::AcbDmaData => returns_value(data::acb_dma_data(m, a)),
        AgcExport::AcbCopyData => returns_value(builders::dcb_copy_data(m, a)),
        AgcExport::AcbAcquireMem => returns_value(builders::acb_acquire_mem(m, a)),
        AgcExport::AcbWaitRegMem => returns_value(builders::acb_wait_reg_mem(m, a)),
        AgcExport::CbSetShRegistersDirect => returns_value(
            registers::cb_set_registers_direct(m, a, packet::IT_SET_SH_REG),
        ),
        AgcExport::CbDispatchGetSize => (m, Reply::Return(20)),
        AgcExport::CbNopGetSize => (m, Reply::Return(sizes::nop_size(a))),
        AgcExport::AcquireMemGetSize => (m, Reply::Return(32)),
        AgcExport::DcbJumpGetSize => (m, Reply::Return(16)),
        AgcExport::DcbRewindGetSize => (m, Reply::Return(8)),
        AgcExport::QueueEopActionGetSize => (m, Reply::Return(32)),
        AgcExport::DmaDataGetSize => (m, Reply::Return(32)),
        AgcExport::DcbDrawIndexIndirectGetSize => (m, Reply::Return(20)),
        AgcExport::DcbSetIndexCountGetSize => (m, Reply::Return(28)),
        AgcExport::DcbStallCommandBufferParserGetSize => (m, Reply::Return(8)),
        AgcExport::DcbGetLodStatsGetSize => (m, Reply::Return(sizes::lod_stats_size(a))),
        AgcExport::GetSize2Dwords => (m, Reply::Return(8)),
        AgcExport::GetSize3Dwords => (m, Reply::Return(12)),
        AgcExport::GetSize5Dwords => (m, Reply::Return(20)),
        AgcExport::GetSize6Dwords => (m, Reply::Return(24)),
        AgcExport::GetSize7Dwords => (m, Reply::Return(28)),
        AgcExport::GetSize9Dwords => (m, Reply::Return(36)),
        AgcExport::GetSize10Dwords => (m, Reply::Return(40)),
        AgcExport::DcbWriteDataGetSize => (m, Reply::Return(sizes::write_data_size(a))),
        AgcExport::DcbWaitOnAddressGetSize => (m, Reply::Return(sizes::wait_on_address_size(a))),
        AgcExport::Accept => (m, Reply::Return(OK)),
        AgcExport::DcbDrawIndexIndirect => returns_value(builders::dcb_draw_index_indirect(m, a)),
        AgcExport::DcbStallCommandBufferParser => returns_value(
            builders::dcb_stall_command_buffer_parser(m, a),
        ),
        AgcExport::DcbGetLodStats => returns_value(builders::dcb_get_lod_stats(m, a)),
        AgcExport::DcbJump => returns_value(builders::dcb_jump(m, a)),
        AgcExport::CbBranch => returns_value(builders::cb_branch(m, a)),
        AgcExport::DcbDrawIndirect => returns_value(builders::dcb_draw_indirect(m, a)),
        AgcExport::SetPacketPredication => (m, Reply::Return(OK)),
        AgcExport::SetIndirectPatchSetNumRegisters => returns_value(
            patch::set_indirect_patch_set_num_registers(m, a),
        ),
        AgcExport::DcbSetMarker => returns_value(data::dcb_marker(m, a, packet::R_ZERO)),
        AgcExport::DriverSubmitMultiDcbs => (
            m,
            Reply::Submit(submit::submit_list_start(m.mem, a, GpuQueue::Graphics)),
        ),
        AgcExport::DriverSubmitMultiAcbs => (
            m,
            Reply::Submit(submit::submit_list_start(m.mem, a, GpuQueue::AsyncCompute)),
        ),
        AgcExport::DriverTriggerCapture => (m, Reply::Return(OK)),
        AgcExport::GetResourceMaxNameLength => returns_value(
            driver::get_resource_max_name_length(m, a),
        ),
        AgcExport::DriverRegisterDefaultOwner => returns_value(
            driver::driver_register_default_owner(m, a),
        ),
        AgcExport::DriverGetDefaultOwner => returns_value(driver::driver_get_default_owner(m, a)),
        AgcExport::DriverDeleteEqEvent => returns_value(driver::driver_delete_eq_event(m, a)),
        AgcExport::DriverQueryResourceMemory => returns_value(
            driver::driver_query_resource_memory(m, a),
        ),
        AgcExport::DriverInitResourceRegistration => returns_value(
            driver::driver_init_resource_registration(m, a),
        ),
        AgcExport::EventWriteGetSize => (m, Reply::Return(16)),
        AgcExport::GetSize4Dwords => (m, Reply::Return(16)),
        AgcExport::AtomicMemGetSize => (m, Reply::Return(36)),
        AgcExport::AtomicGdsGetSize => (m, Reply::Return(36)),
        AgcExport::PrimeUtcl2GetSize => (m, Reply::Return(20)),
        AgcExport::CbBranchGetSize => (m, Reply::Return(56)),
        AgcExport::CbCondWriteGetSize => (m, Reply::Return(36)),
        AgcExport::CbSetRegistersDirectGetSize => (
            m,
            Reply::Return(sizes::registers_direct_size(a)),
        ),
        AgcExport::CbSetUcRegisterRangeGetSize => (
            m,
            Reply::Return(sizes::uc_register_range_size(a)),
        ),
        AgcExport::DcbContextStateOpGetSize => (m, Reply::Return(8)),
        AgcExport::DcbRewind => returns_value(builders::dcb_rewind(m, a)),
        AgcExport::DcbSetWorkloadsActive => returns_value(data::dcb_set_workloads_active(m, a)),
        AgcExport::DcbSetWorkloadComplete => returns_value(
            builders::dcb_set_workload_complete(m, a),
        ),
        AgcExport::DcbSetWorkloadStreamInactive => returns_value(
            builders::dcb_set_workload_stream_inactive(m, a),
        ),
        AgcExport::DcbDrawIndexMultiInstanced => returns_value(
            builders::dcb_draw_index_multi_instanced(m, a),
        ),
        AgcExport::CbSetUcRegisterRange => returns_value(data::cb_set_uc_register_range(m, a)),
        AgcExport::CbSetUcRegistersDirect => returns_value(
            registers::cb_set_registers_direct(m, a, packet::IT_SET_UCONFIG_REG),
        ),
        AgcExport::PrimeUtcl2 => returns_value(builders::prime_utcl2(m, a)),
        AgcExport::QueueEopPatchData => returns_value(patch::queue_eop_patch_data(m, a)),
        AgcExport::QueueEopPatchGcrCntl => returns_value(patch::queue_eop_patch_gcr_cntl(m, a)),
        AgcExport::QueueEopPatchType => returns_value(patch::queue_eop_patch_type(m, a)),
        AgcExport::CondExecPatchSetEnd => returns_value(patch::cond_exec_patch_set_end(m, a)),
        AgcExport::CondExecPatchSetCommandAddress => returns_value(
            patch::cond_exec_patch_set_command_address(m, a),
        ),
        AgcExport::RewindPatchSetRewindState => returns_value(
            patch::rewind_patch_set_rewind_state(m, a),
        ),
        AgcExport::BranchPatchSetCompareAddress => returns_value(
            patch::branch_patch_set_compare_address(m, a),
        ),
        AgcExport::WaitRegMemPatchReference => returns_value(
            patch::wait_reg_mem_patch_reference(m, a),
        ),
        AgcExport::WaitRegMemPatchCompareFunction => returns_value(
            patch::wait_reg_mem_patch_compare_function(m, a),
        ),
        AgcExport::DmaDataPatchSrc => returns_value(patch::dma_data_patch_src(m, a)),
        AgcExport::UpdatePrimState => returns_value(patch::update_prim_state(m, a)),
        AgcExport::GetDataPacketPayloadRange => returns_value(
            patch::get_data_packet_payload_range(m, a),
        ),
        AgcExport::AtomicMemUnavailable => (m, Reply::Return(0)),
        AgcExport::MemSemaphoreUnavailable => (m, Reply::Return(0)),
        AgcExport::CbCondWriteUnavailable => (m, Reply::Return(0)),
        AgcExport::SetIndexIndirectArgsUnavailable => (m, Reply::Return(0)),
        AgcExport::GetDefaultCxStateFlatUnavailable => (m, Reply::Return(0)),
        AgcExport::SetNopUnavailable => (m, Reply::Return(0)),
        AgcExport::GetGsOversubscriptionUnavailable => (m, Reply::Return(0)),
        AgcExport::SetAmmSemaphoreMemoryUnavailable => (
            m,
            Reply::Return(SCE_ERROR_INVALID_ARGUMENT),
        ),
        AgcExport::GetSemaphoreLabelUnavailable => (m, Reply::Return(0)),
    }
}

/// Call an export.
pub fn call(e: AgcExport, ctx: &mut HleContext, args: &[u64]) -> (r: Outcome)
    ensures
        final(ctx)@ == effect(e, old(ctx)@, args@).0,
        r@ == effect(e, old(ctx)@, args@).1,
{
    match e {
        AgcExport::GetPacketSize => Outcome::Return(patch::hle_get_packet_size(ctx, args)),
        AgcExport::DcbSetIndexSize => Outcome::Return(builders::hle_dcb_set_index_size(ctx, args)),
        AgcExport::DcbDrawIndexAuto => Outcome::Return(
            builders::hle_dcb_draw_index_auto(ctx, args),
        ),
        AgcExport::DcbSetNumInstances => Outcome::Return(
            builders::hle_dcb_set_num_instances(ctx, args),
        ),
        AgcExport::DcbSetIndexBuffer => Outcome::Return(
            builders::hle_dcb_set_index_buffer(ctx, args),
        ),
        AgcExport::DcbDrawIndex => Outcome::Return(data::hle_dcb_draw_index(ctx, args)),
        AgcExport::DcbResetQueue => Outcome::Return(builders::hle_dcb_reset_queue(ctx, args)),
        AgcExport::DcbWaitUntilSafe => Outcome::Return(
            builders::hle_dcb_wait_until_safe(ctx, args),
        ),
        AgcExport::DcbPopMarker => Outcome::Return(builders::hle_dcb_pop_marker(ctx, args)),
        AgcExport::CbDispatch => Outcome::Return(builders::hle_cb_dispatch(ctx, args)),
        AgcExport::CbNop => Outcome::Return(data::hle_cb_nop(ctx, args)),
        AgcExport::CbReleaseMem => Outcome::Return(builders::hle_cb_release_mem(ctx, args)),
        AgcExport::DcbSetFlip => Outcome::Return(builders::hle_dcb_set_flip(ctx, args)),
        AgcExport::GetIsTrinityMode => Outcome::Return(sizes::hle_get_is_trinity_mode()),
        AgcExport::UnknownAgcDolOmWh => Outcome::Return(sizes::hle_unknown_agc_dol_om_wh()),
        AgcExport::UnknownAgcFd5Bp5t => Outcome::Return(sizes::hle_unknown_agc_fd5_bp5t()),
        AgcExport::AcbResetQueue => Outcome::Return(builders::hle_acb_reset_queue(ctx, args)),
        AgcExport::CbSetShRegisterRange => Outcome::Return(
            data::hle_cb_set_sh_register_range(ctx, args),
        ),
        AgcExport::Init => Outcome::Return(sizes::hle_init(args)),
        AgcExport::DcbEventWrite => Outcome::Return(builders::hle_dcb_event_write(ctx, args)),
        AgcExport::AcbEventWrite => Outcome::Return(builders::hle_acb_event_write(ctx, args)),
        AgcExport::DcbWriteData => Outcome::Return(data::hle_dcb_write_data(ctx, args)),
        AgcExport::AcbDispatchIndirect => Outcome::Return(
            builders::hle_acb_dispatch_indirect(ctx, args),
        ),
        AgcExport::DcbWaitRegMem => Outcome::Return(builders::hle_dcb_wait_reg_mem(ctx, args)),
        AgcExport::DcbDmaData => Outcome::Return(data::hle_dcb_dma_data(ctx, args)),
        AgcExport::DcbAcquireMem => Outcome::Return(builders::hle_dcb_acquire_mem(ctx, args)),
        AgcExport::DcbSetCxRegisterDirect => Outcome::Return(
            builders::hle_dcb_set_cx_register_direct(ctx, args),
        ),
        AgcExport::DcbSetShRegisterDirect => Outcome::Return(
            builders::hle_dcb_set_sh_register_direct(ctx, args),
        ),
        AgcExport::DcbSetUcRegisterDirect => Outcome::Return(
            builders::hle_dcb_set_uc_register_direct(ctx, args),
        ),
        AgcExport::DcbCondExec => Outcome::Return(builders::hle_dcb_cond_exec(ctx, args)),
        AgcExport::DcbSetCxRegsIndirect => Outcome::Return(
            builders::hle_dcb_set_cx_regs_indirect(ctx, args),
        ),
        AgcExport::DcbSetShRegsIndirect => Outcome::Return(
            builders::hle_dcb_set_sh_regs_indirect(ctx, args),
        ),
        AgcExport::DcbSetUcRegsIndirect => Outcome::Return(
            builders::hle_dcb_set_uc_regs_indirect(ctx, args),
        ),
        AgcExport::CreatePrimState => Outcome::Return(shader::hle_create_prim_state(ctx, args)),
        AgcExport::CreateShader => Outcome::Return(shader::hle_create_shader(ctx, args)),
        AgcExport::CreateInterpolantMapping => Outcome::Return(
            shader::hle_create_interpolant_mapping(ctx, args),
        ),
        AgcExport::GetDataPacketPayloadAddress => Outcome::Return(
            patch::hle_get_data_packet_payload_address(ctx, args),
        ),
        AgcExport::DcbDispatchIndirect => Outcome::Return(
            builders::hle_dcb_dispatch_indirect(ctx, args),
        ),
        AgcExport::SuspendPoint => Outcome::Return(driver::hle_suspend_point(ctx, args)),
        AgcExport::UnknownKrzWekV120 => Outcome::Return(
            builders::hle_unknown_krz_wek_v120(ctx, args),
        ),
        AgcExport::DriverRegisterOwner => Outcome::Return(
            driver::hle_driver_register_owner(ctx, args),
        ),
        AgcExport::DriverRegisterResource => Outcome::Return(
            driver::hle_driver_register_resource(ctx, args),
        ),
        AgcExport::DriverAddEqEvent => Outcome::Return(driver::hle_driver_add_eq_event(ctx, args)),
        AgcExport::DcbDrawIndexOffset => Outcome::Return(
            builders::hle_dcb_draw_index_offset(ctx, args),
        ),
        AgcExport::UnknownFiller => Outcome::Return(builders::hle_unknown_filler(ctx, args)),
        AgcExport::DcbPushMarker => Outcome::Return(data::hle_dcb_push_marker(ctx, args)),
        AgcExport::DcbSetBaseIndirectArgs => Outcome::Return(
            builders::hle_dcb_set_base_indirect_args(ctx, args),
        ),
        AgcExport::DriverSubmitDcb => Outcome::Submit(submit::hle_driver_submit_dcb(ctx, args)),
        AgcExport::DriverSubmitAcb => Outcome::Submit(submit::hle_driver_submit_acb(ctx, args)),
        AgcExport::QueueEopPatchAddress => Outcome::Return(
            patch::hle_queue_eop_patch_address(ctx, args),
        ),
        AgcExport::DmaDataPatchAddress => Outcome::Return(
            patch::hle_dma_data_patch_address(ctx, args),
        ),
        AgcExport::WaitRegMemPatchAddress => Outcome::Return(
            patch::hle_wait_reg_mem_patch_address(ctx, args),
        ),
        AgcExport::WriteDataPatchAddress => Outcome::Return(
            patch::hle_write_data_patch_address(ctx, args),
        ),
        AgcExport::SetIndirectPatchAddress => Outcome::Return(
            patch::hle_set_indirect_patch_address(ctx, args),
        ),
        AgcExport::AddIndirectPatchRegisters => Outcome::Return(
            patch::hle_add_indirect_patch_registers(ctx, args),
        ),
        AgcExport::GetRegisterDefaults2 => Outcome::Defaults(
            defaults::hle_get_register_defaults2(ctx, args),
        ),
        AgcExport::GetRegisterDefaults2Internal => Outcome::Defaults(
            defaults::hle_get_register_defaults2_internal(ctx, args),
        ),
        AgcExport::DcbCopyData => Outcome::Return(builders::hle_dcb_copy_data(ctx, args)),
        AgcExport::DcbDrawIndexIndirectMulti => Outcome::Return(
            builders::hle_dcb_draw_index_indirect_multi(ctx, args),
        ),
        AgcExport::DcbDrawIndirectMulti => Outcome::Return(
            builders::hle_dcb_draw_indirect_multi(ctx, args),
        ),
        AgcExport::DcbSetIndexCount => Outcome::Return(
            builders::hle_dcb_set_index_count(ctx, args),
        ),
        AgcExport::DcbSetPredication => Outcome::Return(
            builders::hle_dcb_set_predication(ctx, args),
        ),
        AgcExport::SetRangePredication => Outcome::Return(sizes::hle_set_range_predication()),
        AgcExport::DebugRaiseException => Outcome::Return(sizes::hle_debug_raise_exception()),
        AgcExport::CbSetShRegisterRangeGetSize => Outcome::Return(
            sizes::hle_cb_set_sh_register_range_get_size(args),
        ),
        AgcExport::AcbDmaData => Outcome::Return(data::hle_acb_dma_data(ctx, args)),
        AgcExport::AcbCopyData => Outcome::Return(builders::hle_acb_copy_data(ctx, args)),
        AgcExport::AcbAcquireMem => Outcome::Return(builders::hle_acb_acquire_mem(ctx, args)),
        AgcExport::AcbWaitRegMem => Outcome::Return(builders::hle_acb_wait_reg_mem(ctx, args)),
        AgcExport::CbSetShRegistersDirect => Outcome::Return(
            registers::hle_cb_set_sh_registers_direct(ctx, args),
        ),
        AgcExport::CbDispatchGetSize => Outcome::Return(sizes::hle_cb_dispatch_get_size()),
        AgcExport::CbNopGetSize => Outcome::Return(sizes::hle_cb_nop_get_size(args)),
        AgcExport::AcquireMemGetSize => Outcome::Return(sizes::hle_acquire_mem_get_size()),
        AgcExport::DcbJumpGetSize => Outcome::Return(sizes::hle_dcb_jump_get_size()),
        AgcExport::DcbRewindGetSize => Outcome::Return(sizes::hle_dcb_rewind_get_size()),
        AgcExport::QueueEopActionGetSize => Outcome::Return(sizes::hle_queue_eop_action_get_size()),
        AgcExport::DmaDataGetSize => Outcome::Return(sizes::hle_dma_data_get_size()),
        AgcExport::DcbDrawIndexIndirectGetSize => Outcome::Return(
            sizes::hle_dcb_draw_index_indirect_get_size(),
        ),
        AgcExport::DcbSetIndexCountGetSize => Outcome::Return(
            sizes::hle_dcb_set_index_count_get_size(),
        ),
        AgcExport::DcbStallCommandBufferParserGetSize => Outcome::Return(
            sizes::hle_dcb_stall_command_buffer_parser_get_size(),
        ),
        AgcExport::DcbGetLodStatsGetSize => Outcome::Return(
            sizes::hle_dcb_get_lod_stats_get_size(args),
        ),
        AgcExport::GetSize2Dwords => Outcome::Return(sizes::hle_get_size_2_dwords()),
        AgcExport::GetSize3Dwords => Outcome::Return(sizes::hle_get_size_3_dwords()),
        AgcExport::GetSize5Dwords => Outcome::Return(sizes::hle_get_size_5_dwords()),
        AgcExport::GetSize6Dwords => Outcome::Return(sizes::hle_get_size_6_dwords()),
        AgcExport::GetSize7Dwords => Outcome::Return(sizes::hle_get_size_7_dwords()),
        AgcExport::GetSize9Dwords => Outcome::Return(sizes::hle_get_size_9_dwords()),
        AgcExport::GetSize10Dwords => Outcome::Return(sizes::hle_get_size_10_dwords()),
        AgcExport::DcbWriteDataGetSize => Outcome::Return(sizes::hle_dcb_write_data_get_size(args)),
        AgcExport::DcbWaitOnAddressGetSize => Outcome::Return(
            sizes::hle_dcb_wait_on_address_get_size(args),
        ),
        AgcExport::Accept => Outcome::Return(sizes::hle_ok_stub()),
        AgcExport::DcbDrawIndexIndirect => Outcome::Return(
            builders::hle_dcb_draw_index_indirect(ctx, args),
        ),
        AgcExport::DcbStallCommandBufferParser => Outcome::Return(
            builders::hle_dcb_stall_command_buffer_parser(ctx, args),
        ),
        AgcExport::DcbGetLodStats => Outcome::Return(builders::hle_dcb_get_lod_stats(ctx, args)),
        AgcExport::DcbJump => Outcome::Return(builders::hle_dcb_jump(ctx, args)),
        AgcExport::CbBranch => Outcome::Return(builders::hle_cb_branch(ctx, args)),
        AgcExport::DcbDrawIndirect => Outcome::Return(builders::hle_dcb_draw_indirect(ctx, args)),
        AgcExport::SetPacketPredication => Outcome::Return(sizes::hle_set_packet_predication()),
        AgcExport::SetIndirectPatchSetNumRegisters => Outcome::Return(
            patch::hle_set_indirect_patch_set_num_registers(ctx, args),
        ),
        AgcExport::DcbSetMarker => Outcome::Return(data::hle_dcb_set_marker(ctx, args)),
        AgcExport::DriverSubmitMultiDcbs => Outcome::Submit(
            submit::hle_driver_submit_multi_dcbs(ctx, args),
        ),
        AgcExport::DriverSubmitMultiAcbs => Outcome::Submit(
            submit::hle_driver_submit_multi_acbs(ctx, args),
        ),
        AgcExport::DriverTriggerCapture => Outcome::Return(sizes::hle_driver_trigger_capture()),
        AgcExport::GetResourceMaxNameLength => Outcome::Return(
            driver::hle_get_resource_max_name_length(ctx, args),
        ),
        AgcExport::DriverRegisterDefaultOwner => Outcome::Return(
            driver::hle_driver_register_default_owner(ctx, args),
        ),
        AgcExport::DriverGetDefaultOwner => Outcome::Return(
            driver::hle_driver_get_default_owner(ctx, args),
        ),
        AgcExport::DriverDeleteEqEvent => Outcome::Return(
            driver::hle_driver_delete_eq_event(ctx, args),
        ),
        AgcExport::DriverQueryResourceMemory => Outcome::Return(
            driver::hle_driver_query_resource_memory(ctx, args),
        ),
        AgcExport::DriverInitResourceRegistration => Outcome::Return(
            driver::hle_driver_init_resource_registration(ctx, args),
        ),
        AgcExport::EventWriteGetSize => Outcome::Return(sizes::hle_event_write_get_size()),
        AgcExport::GetSize4Dwords => Outcome::Return(sizes::hle_get_size_4_dwords()),
        AgcExport::AtomicMemGetSize => Outcome::Return(sizes::hle_atomic_mem_get_size()),
        AgcExport::AtomicGdsGetSize => Outcome::Return(sizes::hle_atomic_gds_get_size()),
        AgcExport::PrimeUtcl2GetSize => Outcome::Return(sizes::hle_prime_utcl2_get_size()),
        AgcExport::CbBranchGetSize => Outcome::Return(sizes::hle_cb_branch_get_size()),
        AgcExport::CbCondWriteGetSize => Outcome::Return(sizes::hle_cb_cond_write_get_size()),
        AgcExport::CbSetRegistersDirectGetSize => Outcome::Return(
            sizes::hle_cb_set_registers_direct_get_size(args),
        ),
        AgcExport::CbSetUcRegisterRangeGetSize => Outcome::Return(
            sizes::hle_cb_set_uc_register_range_get_size(args),
        ),
        AgcExport::DcbContextStateOpGetSize => Outcome::Return(
            sizes::hle_dcb_context_state_op_get_size(),
        ),
        AgcExport::DcbRewind => Outcome::Return(builders::hle_dcb_rewind(ctx, args)),
        AgcExport::DcbSetWorkloadsActive => Outcome::Return(
            data::hle_dcb_set_workloads_active(ctx, args),
        ),
        AgcExport::DcbSetWorkloadComplete => Outcome::Return(
            builders::hle_dcb_set_workload_complete(ctx, args),
        ),
        AgcExport::DcbSetWorkloadStreamInactive => Outcome::Return(
            builders::hle_dcb_set_workload_stream_inactive(ctx, args),
        ),
        AgcExport::DcbDrawIndexMultiInstanced => Outcome::Return(
            builders::hle_dcb_draw_index_multi_instanced(ctx, args),
        ),
        AgcExport::CbSetUcRegisterRange => Outcome::Return(
            data::hle_cb_set_uc_register_range(ctx, args),
        ),
        AgcExport::CbSetUcRegistersDirect => Outcome::Return(
            registers::hle_cb_set_uc_registers_direct(ctx, args),
        ),
        AgcExport::PrimeUtcl2 => Outcome::Return(builders::hle_prime_utcl2(ctx, args)),
        AgcExport::QueueEopPatchData => Outcome::Return(patch::hle_queue_eop_patch_data(ctx, args)),
        AgcExport::QueueEopPatchGcrCntl => Outcome::Return(
            patch::hle_queue_eop_patch_gcr_cntl(ctx, args),
        ),
        AgcExport::QueueEopPatchType => Outcome::Return(patch::hle_queue_eop_patch_type(ctx, args)),
        AgcExport::CondExecPatchSetEnd => Outcome::Return(
            patch::hle_cond_exec_patch_set_end(ctx, args),
        ),
        AgcExport::CondExecPatchSetCommandAddress => Outcome::Return(
            patch::hle_cond_exec_patch_set_command_address(ctx, args),
        ),
        AgcExport::RewindPatchSetRewindState => Outcome::Return(
            patch::hle_rewind_patch_set_rewind_state(ctx, args),
        ),
        AgcExport::BranchPatchSetCompareAddress => Outcome::Return(
            patch::hle_branch_patch_set_compare_address(ctx, args),
        ),
        AgcExport::WaitRegMemPatchReference => Outcome::Return(
            patch::hle_wait_reg_mem_patch_reference(ctx, args),
        ),
        AgcExport::WaitRegMemPatchCompareFunction => Outcome::Return(
            patch::hle_wait_reg_mem_patch_compare_function(ctx, args),
        ),
        AgcExport::DmaDataPatchSrc => Outcome::Return(patch::hle_dma_data_patch_src(ctx, args)),
        AgcExport::UpdatePrimState => Outcome::Return(patch::hle_update_prim_state(ctx, args)),
        AgcExport::GetDataPacketPayloadRange => Outcome::Return(
            patch::hle_get_data_packet_payload_range(ctx, args),
        ),
        AgcExport::AtomicMemUnavailable => Outcome::Return(sizes::hle_atomic_mem_unavailable()),
        AgcExport::MemSemaphoreUnavailable => Outcome::Return(
            sizes::hle_mem_semaphore_unavailable(),
        ),
        AgcExport::CbCondWriteUnavailable => Outcome::Return(
            sizes::hle_cb_cond_write_unavailable(),
        ),
        AgcExport::SetIndexIndirectArgsUnavailable => Outcome::Return(
            sizes::hle_set_index_indirect_args_unavailable(),
        ),
        AgcExport::GetDefaultCxStateFlatUnavailable => Outcome::Return(
            sizes::hle_get_default_cx_state_flat_unavailable(),
        ),
        AgcExport::SetNopUnavailable => Outcome::Return(sizes::hle_set_nop_unavailable()),
        AgcExport::GetGsOversubscriptionUnavailable => Outcome::Return(
            sizes::hle_get_gs_oversubscription_unavailable(),
        ),
        AgcExport::SetAmmSemaphoreMemoryUnavailable => Outcome::Return(
            sizes::hle_set_amm_semaphore_memory_unavailable(),
        ),
        AgcExport::GetSemaphoreLabelUnavailable => Outcome::Return(
            sizes::hle_get_semaphore_label_unavailable(),
        ),
    }
}

} // verus!
