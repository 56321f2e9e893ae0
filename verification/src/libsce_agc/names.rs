//! The names of the two libraries: two rows of their tables have the same name
//! only where they have the same export.
use vstd::prelude::*;
use crate::libsce_agc::{registered, EXPORTS, INCOMPLETE_EXPORTS, NID_EXPORTS};
use crate::registry::{
    incomplete_key, law_incomplete_tables_answer, law_nid_tables_answer, law_tables_answer, nid_key,
    row_key, with_exports, with_nids, Export, Key, Registered, Registry,
};

verus! {

/// The row of a name of libSceAgc, told from its length and a few of its letters:
/// the rows of the complete exports first, then those with an identifier, then
/// the incomplete ones.
spec fn row_of_agc(s: Seq<char>) -> int {
    if s.len() == 10 {
        204
    } else if s.len() == 11 {
        10
    } else if s.len() == 12 {
        241
    } else if s.len() == 13 {
        if s[6] == 'D' {
            110
        } else {
            170
        }
    } else if s.len() == 14 {
        111
    } else if s.len() == 15 {
        if s[6] == 'D' {
            168
        } else {
            169
        }
    } else if s.len() == 16 {
        if s[6] == 'C' {
            9
        } else if s[6] == 'D' {
            if s[9] == 'S' {
                12
            } else {
                22
            }
        } else {
            if s[9] == 'D' {
                68
            } else {
                171
            }
        }
    } else if s.len() == 17 {
        if s[6] == 'D' {
            if s[11] == 'n' {
                27
            } else {
                60
            }
        } else if s[6] == 'A' {
            if s[11] == 'n' {
                28
            } else {
                69
            }
        } else {
            238
        }
    } else if s.len() == 18 {
        if s[9] == 'D' {
            5
        } else if s[9] == 'P' {
            if s[6] == 'D' {
                8
            } else {
                73
            }
        } else if s[9] == 'e' {
            11
        } else if s[9] == 'W' {
            if s[6] == 'D' {
                18
            } else {
                19
            }
        } else if s[9] == 'a' {
            33
        } else if s[9] == 'p' {
            36
        } else if s[9] == 'o' {
            76
        } else if s[9] == 'S' {
            if s[6] == 'D' {
                115
            } else {
                172
            }
        } else {
            if s[6] == 'D' {
                234
            } else {
                235
            }
        }
    } else if s.len() == 19 {
        if s[12] == 'k' {
            0
        } else if s[12] == 'e' {
            if s[6] == 'D' {
                6
            } else {
                14
            }
        } else if s[12] == 'n' {
            if s[6] == 'D' {
                16
            } else {
                17
            }
        } else if s[12] == 't' {
            if s[6] == 'D' {
                21
            } else {
                71
            }
        } else if s[12] == 'u' {
            if s[6] == 'D' {
                23
            } else {
                70
            }
        } else if s[12] == 'h' {
            if s[6] == 'D' {
                41
            } else {
                72
            }
        } else {
            if s[6] == 'D' {
                183
            } else {
                184
            }
        }
    } else if s.len() == 20 {
        if s[6] == 'D' {
            if s[9] == 'J' {
                79
            } else {
                109
            }
        } else {
            141
        }
    } else if s.len() == 21 {
        if s[9] == 'S' {
            1
        } else if s[9] == 'a' {
            if s[6] == 'C' {
                32
            } else {
                200
            }
        } else if s[9] == 'v' {
            if s[18] == 'D' {
                47
            } else {
                48
            }
        } else if s[9] == 'D' {
            112
        } else if s[9] == 'r' {
            150
        } else {
            if s[6] == 'D' {
                236
            } else {
                237
            }
        }
    } else if s.len() == 22 {
        if s[9] == 'D' {
            2
        } else if s[9] == 'I' {
            13
        } else if s[9] == 'v' {
            39
        } else if s[9] == 'S' {
            63
        } else {
            if s[6] == 'D' {
                80
            } else {
                142
            }
        }
    } else if s.len() == 23 {
        if s[13] == 'n' {
            4
        } else if s[13] == 'r' {
            64
        } else if s[13] == 't' {
            75
        } else if s[13] == 'a' {
            if s[6] == 'D' {
                82
            } else {
                83
            }
        } else if s[13] == 'D' {
            202
        } else if s[13] == 'K' {
            207
        } else {
            244
        }
    } else if s.len() == 24 {
        if s[13] == 'u' {
            3
        } else if s[13] == 'I' {
            40
        } else if s[13] == 'E' {
            if s[6] == 'D' {
                101
            } else {
                102
            }
        } else if s[13] == 'D' {
            if s[6] == 'D' {
                138
            } else {
                139
            }
        } else if s[13] == 'r' {
            151
        } else if s[13] == 'F' {
            203
        } else {
            208
        }
    } else if s.len() == 25 {
        if s[11] == 's' {
            if s[6] == 'A' {
                20
            } else {
                35
            }
        } else if s[11] == 'n' {
            65
        } else if s[11] == 'R' {
            66
        } else if s[11] == 'a' {
            103
        } else if s[11] == 'i' {
            105
        } else if s[11] == 'r' {
            130
        } else if s[11] == 'o' {
            if s[6] == 'D' {
                if s[15] == 'M' {
                    144
                } else {
                    146
                }
            } else {
                if s[15] == 'M' {
                    145
                } else {
                    147
                }
            }
        } else {
            188
        }
    } else if s.len() == 26 {
        if s[11] == 'g' {
            58
        } else if s[11] == 'a' {
            if s[16] == 'i' {
                62
            } else {
                107
            }
        } else if s[11] == 'q' {
            if s[6] == 'D' {
                77
            } else {
                78
            }
        } else if s[11] == 'c' {
            113
        } else if s[11] == 'r' {
            122
        } else if s[11] == 'e' {
            if s[6] == 'D' {
                136
            } else {
                137
            }
        } else {
            if s[6] == 'D' {
                148
            } else {
                149
            }
        }
    } else if s.len() == 27 {
        if s[15] == 'S' {
            87
        } else if s[15] == 'm' {
            if s[23] == 'D' {
                116
            } else {
                120
            }
        } else if s[15] == 'D' {
            128
        } else if s[15] == 'k' {
            if s[6] == 'D' {
                174
            } else {
                175
            }
        } else if s[15] == 'P' {
            209
        } else if s[15] == 't' {
            240
        } else if s[15] == 's' {
            242
        } else {
            243
        }
    } else if s.len() == 28 {
        if s[12] == 'C' {
            24
        } else if s[12] == 'S' {
            25
        } else if s[12] == 'U' {
            26
        } else if s[12] == 'B' {
            42
        } else if s[12] == 'g' {
            51
        } else if s[12] == 'h' {
            74
        } else if s[12] == 'I' {
            92
        } else if s[12] == 'w' {
            100
        } else if s[12] == 'W' {
            if s[6] == 'D' {
                176
            } else {
                177
            }
        } else {
            182
        }
    } else if s.len() == 29 {
        if s[17] == 'C' {
            85
        } else if s[17] == 'x' {
            94
        } else if s[17] == 'd' {
            if s[6] == 'D' {
                106
            } else {
                143
            }
        } else {
            239
        }
    } else if s.len() == 30 {
        if s[9] == 'a' {
            34
        } else if s[9] == 'S' {
            93
        } else if s[9] == 'v' {
            118
        } else if s[9] == 'C' {
            165
        } else if s[9] == 'n' {
            189
        } else {
            195
        }
    } else if s.len() == 31 {
        if s[12] == 'C' {
            29
        } else if s[12] == 'S' {
            30
        } else if s[12] == 'U' {
            31
        } else if s[12] == 'w' {
            if s[18] == 'I' {
                61
            } else {
                99
            }
        } else if s[12] == 'N' {
            88
        } else if s[12] == 'P' {
            192
        } else {
            201
        }
    } else if s.len() == 32 {
        if s[11] == 'S' {
            15
        } else if s[11] == 's' {
            if s[6] == 'D' {
                95
            } else {
                140
            }
        } else if s[11] == 'r' {
            126
        } else if s[11] == 'a' {
            180
        } else {
            181
        }
    } else if s.len() == 33 {
        if s[16] == 'e' {
            84
        } else if s[16] == 'm' {
            108
        } else if s[16] == 'u' {
            162
        } else if s[16] == 'i' {
            167
        } else {
            206
        }
    } else if s.len() == 34 {
        if s[6] == 'D' {
            if s[9] == 'W' {
                7
            } else {
                178
            }
        } else if s[6] == 'G' {
            59
        } else if s[6] == 'A' {
            if s[9] == 'W' {
                173
            } else {
                179
            }
        } else {
            194
        }
    } else if s.len() == 35 {
        if s[12] == 'e' {
            81
        } else if s[12] == 'C' {
            89
        } else if s[12] == 'S' {
            90
        } else if s[12] == 'U' {
            91
        } else if s[12] == 'h' {
            152
        } else if s[12] == 'c' {
            153
        } else if s[12] == 'i' {
            161
        } else {
            if s[31] == 'D' {
                185
            } else {
                187
            }
        }
    } else if s.len() == 36 {
        if s[7] == 'r' {
            134
        } else if s[7] == 'c' {
            157
        } else if s[7] == 'o' {
            190
        } else if s[7] == 's' {
            193
        } else {
            196
        }
    } else if s.len() == 37 {
        if s[10] == 'x' {
            52
        } else if s[10] == 'h' {
            54
        } else if s[10] == 'c' {
            56
        } else {
            158
        }
    } else if s.len() == 38 {
        if s[12] == 'n' {
            if s[31] == 'A' {
                49
            } else {
                186
            }
        } else if s[12] == 'C' {
            96
        } else if s[12] == 'S' {
            97
        } else if s[12] == 'U' {
            98
        } else if s[12] == 'u' {
            if s[6] == 'D' {
                163
            } else {
                164
            }
        } else {
            166
        }
    } else if s.len() == 39 {
        if s[10] == 'a' {
            50
        } else if s[10] == 'x' {
            53
        } else if s[10] == 'h' {
            55
        } else if s[10] == 'c' {
            57
        } else if s[10] == 't' {
            if s[11] == 'S' {
                67
            } else {
                154
            }
        } else if s[10] == 'r' {
            104
        } else {
            155
        }
    } else if s.len() == 40 {
        if s[10] == 't' {
            86
        } else {
            160
        }
    } else if s.len() == 41 {
        if s[6] == 'D' {
            159
        } else {
            191
        }
    } else if s.len() == 42 {
        if s[9] == 'C' {
            114
        } else if s[9] == 'S' {
            198
        } else {
            199
        }
    } else if s.len() == 43 {
        156
    } else if s.len() == 48 {
        124
    } else if s.len() == 50 {
        197
    } else if s.len() == 59 {
        132
    } else {
        -1
    }
}

/// The row of a name of libSceAgcDriver.
spec fn row_of_driver(s: Seq<char>) -> int {
    if s.len() == 21 {
        if s[18] == 'D' {
            43
        } else if s[18] == 'A' {
            45
        } else {
            210
        }
    } else if s.len() == 22 {
        46
    } else if s.len() == 24 {
        if s[12] == 'A' {
            44
        } else {
            221
        }
    } else if s.len() == 25 {
        if s[12] == 'R' {
            37
        } else {
            131
        }
    } else if s.len() == 26 {
        if s[17] == 'e' {
            123
        } else if s[17] == 'E' {
            226
        } else {
            227
        }
    } else if s.len() == 27 {
        if s[23] == 'D' {
            117
        } else if s[23] == 'A' {
            121
        } else if s[23] == 'w' {
            129
        } else if s[23] == 'N' {
            222
        } else {
            223
        }
    } else if s.len() == 28 {
        38
    } else if s.len() == 29 {
        if s[12] == 'S' {
            211
        } else {
            229
        }
    } else if s.len() == 30 {
        if s[12] == 'A' {
            119
        } else if s[12] == 'U' {
            217
        } else {
            233
        }
    } else if s.len() == 31 {
        if s[12] == 'S' {
            212
        } else if s[12] == 'G' {
            213
        } else if s[12] == 'R' {
            if s[14] == 'g' {
                216
            } else {
                232
            }
        } else if s[12] == 'F' {
            220
        } else {
            230
        }
    } else if s.len() == 32 {
        127
    } else if s.len() == 33 {
        224
    } else if s.len() == 34 {
        214
    } else if s.len() == 36 {
        if s[12] == 'I' {
            135
        } else if s[12] == 'U' {
            215
        } else {
            228
        }
    } else if s.len() == 37 {
        231
    } else if s.len() == 39 {
        219
    } else if s.len() == 42 {
        218
    } else if s.len() == 48 {
        if s[23] == 'R' {
            125
        } else {
            225
        }
    } else if s.len() == 59 {
        133
    } else {
        -1
    }
}

spec fn row_of(k: Key) -> int {
    if k.0.len() == 9 {
        row_of_agc(k.1)
    } else {
        row_of_driver(k.1)
    }
}

proof fn lemma_row_of_export(i: int)
    requires
        0 <= i < EXPORTS@.len(),
    ensures
        row_of(row_key(EXPORTS@[i])) == i,
{
    reveal_strlit("libSceAgc");
    reveal_strlit("libSceAgcDriver");
    reveal_strlit("sceAgcGetPacketSize");
    reveal_strlit("sceAgcDcbSetIndexSize");
    reveal_strlit("sceAgcDcbDrawIndexAuto");
    reveal_strlit("sceAgcDcbSetNumInstances");
    reveal_strlit("sceAgcDcbSetIndexBuffer");
    reveal_strlit("sceAgcDcbDrawIndex");
    reveal_strlit("sceAgcDcbResetQueue");
    reveal_strlit("sceAgcDcbWaitUntilSafeForRendering");
    reveal_strlit("sceAgcDcbPopMarker");
    reveal_strlit("sceAgcCbDispatch");
    reveal_strlit("sceAgcCbNop");
    reveal_strlit("sceAgcCbReleaseMem");
    reveal_strlit("sceAgcDcbSetFlip");
    reveal_strlit("sceAgcGetIsTrinityMode");
    reveal_strlit("sceAgcAcbResetQueue");
    reveal_strlit("sceAgcCbSetShRegisterRangeDirect");
    reveal_strlit("sceAgcDcbEventWrite");
    reveal_strlit("sceAgcAcbEventWrite");
    reveal_strlit("sceAgcDcbWriteData");
    reveal_strlit("sceAgcAcbWriteData");
    reveal_strlit("sceAgcAcbDispatchIndirect");
    reveal_strlit("sceAgcDcbWaitRegMem");
    reveal_strlit("sceAgcDcbDmaData");
    reveal_strlit("sceAgcDcbAcquireMem");
    reveal_strlit("sceAgcDcbSetCxRegisterDirect");
    reveal_strlit("sceAgcDcbSetShRegisterDirect");
    reveal_strlit("sceAgcDcbSetUcRegisterDirect");
    reveal_strlit("sceAgcDcbCondExec");
    reveal_strlit("sceAgcAcbCondExec");
    reveal_strlit("sceAgcDcbSetCxRegistersIndirect");
    reveal_strlit("sceAgcDcbSetShRegistersIndirect");
    reveal_strlit("sceAgcDcbSetUcRegistersIndirect");
    reveal_strlit("sceAgcCreatePrimState");
    reveal_strlit("sceAgcCreateShader");
    reveal_strlit("sceAgcCreateInterpolantMapping");
    reveal_strlit("sceAgcDcbDispatchIndirect");
    reveal_strlit("sceAgcSuspendPoint");
    reveal_strlit("sceAgcDriverRegisterOwner");
    reveal_strlit("sceAgcDriverRegisterResource");
    reveal_strlit("sceAgcDriverAddEqEvent");
    reveal_strlit("sceAgcDcbDrawIndexOffset");
    reveal_strlit("sceAgcDcbPushMarker");
    reveal_strlit("sceAgcDcbSetBaseIndirectArgs");
    reveal_strlit("sceAgcDriverSubmitDcb");
    reveal_strlit("sceAgcDriverAgrSubmitDcb");
    reveal_strlit("sceAgcDriverSubmitAcb");
    reveal_strlit("sceAgcQueueEndOfPipeActionPatchAddress");
    reveal_strlit("sceAgcDmaDataPatchSetDstAddressOrOffset");
    reveal_strlit("sceAgcWaitRegMemPatchAddress");
    reveal_strlit("sceAgcSetCxRegIndirectPatchSetAddress");
    reveal_strlit("sceAgcSetCxRegIndirectPatchAddRegisters");
    reveal_strlit("sceAgcSetShRegIndirectPatchSetAddress");
    reveal_strlit("sceAgcSetShRegIndirectPatchAddRegisters");
    reveal_strlit("sceAgcSetUcRegIndirectPatchSetAddress");
    reveal_strlit("sceAgcSetUcRegIndirectPatchAddRegisters");
    reveal_strlit("sceAgcGetRegisterDefaults2");
    reveal_strlit("sceAgcGetRegisterDefaults2Internal");
    reveal_strlit("sceAgcDcbCopyData");
    reveal_strlit("sceAgcDcbDrawIndexIndirectMulti");
    reveal_strlit("sceAgcDcbDrawIndirectMulti");
    reveal_strlit("sceAgcDcbSetIndexCount");
    reveal_strlit("sceAgcDcbSetPredication");
    reveal_strlit("sceAgcSetRangePredication");
    reveal_strlit("sceAgcDebugRaiseException");
    reveal_strlit("sceAgcCbSetShRegisterRangeDirectGetSize");
    reveal_strlit("sceAgcAcbDmaData");
    reveal_strlit("sceAgcAcbCopyData");
    reveal_strlit("sceAgcAcbAcquireMem");
    reveal_strlit("sceAgcAcbWaitRegMem");
    reveal_strlit("sceAgcAcbPushMarker");
    reveal_strlit("sceAgcAcbPopMarker");
    reveal_strlit("sceAgcCbSetShRegistersDirect");
    reveal_strlit("sceAgcCbDispatchGetSize");
    reveal_strlit("sceAgcCbNopGetSize");
    reveal_strlit("sceAgcDcbAcquireMemGetSize");
    reveal_strlit("sceAgcAcbAcquireMemGetSize");
    reveal_strlit("sceAgcDcbJumpGetSize");
    reveal_strlit("sceAgcDcbRewindGetSize");
    reveal_strlit("sceAgcCbQueueEndOfPipeActionGetSize");
    reveal_strlit("sceAgcDcbDmaDataGetSize");
    reveal_strlit("sceAgcAcbDmaDataGetSize");
    reveal_strlit("sceAgcDcbDrawIndexIndirectGetSize");
    reveal_strlit("sceAgcDcbSetIndexCountGetSize");
    reveal_strlit("sceAgcDcbStallCommandBufferParserGetSize");
    reveal_strlit("sceAgcDcbGetLodStatsGetSize");
    reveal_strlit("sceAgcDcbSetNumInstancesGetSize");
    reveal_strlit("sceAgcDcbSetCxRegisterDirectGetSize");
    reveal_strlit("sceAgcDcbSetShRegisterDirectGetSize");
    reveal_strlit("sceAgcDcbSetUcRegisterDirectGetSize");
    reveal_strlit("sceAgcDcbSetIndexSizeGetSize");
    reveal_strlit("sceAgcDcbSetIndexBufferGetSize");
    reveal_strlit("sceAgcDcbDrawIndexAutoGetSize");
    reveal_strlit("sceAgcDcbDispatchIndirectGetSize");
    reveal_strlit("sceAgcDcbSetCxRegistersIndirectGetSize");
    reveal_strlit("sceAgcDcbSetShRegistersIndirectGetSize");
    reveal_strlit("sceAgcDcbSetUcRegistersIndirectGetSize");
    reveal_strlit("sceAgcDcbDrawIndexOffsetGetSize");
    reveal_strlit("sceAgcDcbDrawIndirectGetSize");
    reveal_strlit("sceAgcDcbCondExecGetSize");
    reveal_strlit("sceAgcAcbCondExecGetSize");
    reveal_strlit("sceAgcDcbDrawIndexGetSize");
    reveal_strlit("sceAgcDcbDrawIndexMultiInstancedGetSize");
    reveal_strlit("sceAgcDcbWriteDataGetSize");
    reveal_strlit("sceAgcDcbWaitOnAddressGetSize");
    reveal_strlit("sceAgcDcbDrawIndexIndirect");
    reveal_strlit("sceAgcDcbStallCommandBufferParser");
    reveal_strlit("sceAgcDcbGetLodStats");
    reveal_strlit("sceAgcDcbJump");
    reveal_strlit("sceAgcCbBranch");
    reveal_strlit("sceAgcDcbDrawIndirect");
    reveal_strlit("sceAgcSetPacketPredication");
    reveal_strlit("sceAgcSetCxRegIndirectPatchSetNumRegisters");
    reveal_strlit("sceAgcDcbSetMarker");
    reveal_strlit("sceAgcDriverSubmitMultiDcbs");
    reveal_strlit("sceAgcDriverAgrSubmitMultiDcbs");
    reveal_strlit("sceAgcDriverSubmitMultiAcbs");
    reveal_strlit("sceAgcDriverTriggerCapture");
    reveal_strlit("sceAgcDriverGetResourceRegistrationMaxNameLength");
    reveal_strlit("sceAgcDriverRegisterDefaultOwner");
    reveal_strlit("sceAgcDriverGetDefaultOwner");
    reveal_strlit("sceAgcDriverDeleteEqEvent");
    reveal_strlit("sceAgcDriverQueryResourceRegistrationUserMemoryRequirements");
    reveal_strlit("sceAgcDriverInitResourceRegistration");
    reveal_strlit("sceAgcDcbEventWriteGetSize");
    reveal_strlit("sceAgcAcbEventWriteGetSize");
    reveal_strlit("sceAgcDcbCopyDataGetSize");
    reveal_strlit("sceAgcAcbCopyDataGetSize");
    reveal_strlit("sceAgcAcbDispatchIndirectGetSize");
    reveal_strlit("sceAgcAcbJumpGetSize");
    reveal_strlit("sceAgcAcbRewindGetSize");
    reveal_strlit("sceAgcAcbWaitOnAddressGetSize");
    reveal_strlit("sceAgcDcbAtomicMemGetSize");
    reveal_strlit("sceAgcAcbAtomicMemGetSize");
    reveal_strlit("sceAgcDcbAtomicGdsGetSize");
    reveal_strlit("sceAgcAcbAtomicGdsGetSize");
    reveal_strlit("sceAgcDcbPrimeUtcl2GetSize");
    reveal_strlit("sceAgcAcbPrimeUtcl2GetSize");
    reveal_strlit("sceAgcCbBranchGetSize");
    reveal_strlit("sceAgcCbCondWriteGetSize");
    reveal_strlit("sceAgcCbSetShRegistersDirectGetSize");
    reveal_strlit("sceAgcCbSetUcRegistersDirectGetSize");
    reveal_strlit("sceAgcCbSetUcRegisterRangeDirectGetSize");
    reveal_strlit("sceAgcDcbSetBaseDrawIndirectArgsGetSize");
    reveal_strlit("sceAgcDcbSetBaseDispatchIndirectArgsGetSize");
    reveal_strlit("sceAgcDcbSetIndexIndirectArgsGetSize");
    reveal_strlit("sceAgcDcbSetPredicationDisableGetSize");
    reveal_strlit("sceAgcDcbSetZPassPredicationEnableGetSize");
    reveal_strlit("sceAgcDcbSetBoolPredicationEnableGetSize");
    reveal_strlit("sceAgcDcbBeginOcclusionQueryGetSize");
    reveal_strlit("sceAgcDcbEndOcclusionQueryGetSize");
    reveal_strlit("sceAgcDcbQueueEndOfShaderActionGetSize");
    reveal_strlit("sceAgcAcbQueueEndOfShaderActionGetSize");
    reveal_strlit("sceAgcDcbContextStateOpGetSize");
    reveal_strlit("sceAgcDcbDrawIndexIndirectMultiGetSize");
    reveal_strlit("sceAgcDcbDrawIndirectMultiGetSize");
    reveal_strlit("sceAgcDcbRewind");
    reveal_strlit("sceAgcAcbRewind");
    reveal_strlit("sceAgcAcbJump");
    reveal_strlit("sceAgcAcbSetFlip");
    reveal_strlit("sceAgcAcbSetMarker");
    reveal_strlit("sceAgcAcbWaitUntilSafeForRendering");
    reveal_strlit("sceAgcDcbSetWorkloadsActive");
    reveal_strlit("sceAgcAcbSetWorkloadsActive");
    reveal_strlit("sceAgcDcbSetWorkloadComplete");
    reveal_strlit("sceAgcAcbSetWorkloadComplete");
    reveal_strlit("sceAgcDcbSetWorkloadStreamInactive");
    reveal_strlit("sceAgcAcbSetWorkloadStreamInactive");
    reveal_strlit("sceAgcDcbDrawIndexMultiInstanced");
    reveal_strlit("sceAgcCbSetUcRegisterRangeDirect");
    reveal_strlit("sceAgcCbSetUcRegistersDirect");
    reveal_strlit("sceAgcDcbPrimeUtcl2");
    reveal_strlit("sceAgcAcbPrimeUtcl2");
    reveal_strlit("sceAgcQueueEndOfPipeActionPatchData");
    reveal_strlit("sceAgcQueueEndOfPipeActionPatchGcrCntl");
    reveal_strlit("sceAgcQueueEndOfPipeActionPatchType");
    reveal_strlit("sceAgcCondExecPatchSetEnd");
    reveal_strlit("sceAgcAsyncCondExecPatchSetEnd");
    reveal_strlit("sceAgcCondExecPatchSetCommandAddress");
    reveal_strlit("sceAgcAsyncCondExecPatchSetCommandAddress");
    reveal_strlit("sceAgcRewindPatchSetRewindState");
    reveal_strlit("sceAgcAsyncRewindPatchSetRewindState");
    reveal_strlit("sceAgcBranchPatchSetCompareAddress");
    reveal_strlit("sceAgcWaitRegMemPatchReference");
    reveal_strlit("sceAgcWaitRegMemPatchCompareFunction");
    reveal_strlit("sceAgcDmaDataPatchSetSrcAddressOrOffsetOrImmediate");
    reveal_strlit("sceAgcSetShRegIndirectPatchSetNumRegisters");
    reveal_strlit("sceAgcSetUcRegIndirectPatchSetNumRegisters");
    reveal_strlit("sceAgcUpdatePrimState");
    reveal_strlit("sceAgcGetDataPacketPayloadRange");
}

/// One row with an identifier has the name of a complete export.
spec fn row_of_nid(i: int) -> int {
    if i == 3 {
        34
    } else {
        EXPORTS@.len() + i
    }
}

proof fn lemma_row_of_nid(i: int)
    requires
        0 <= i < NID_EXPORTS@.len(),
    ensures
        row_of(nid_key(NID_EXPORTS@[i])) == row_of_nid(i),
        i == 3 ==> NID_EXPORTS@[i].3 == EXPORTS@[34].2,
{
    reveal_strlit("libSceAgc");
    reveal_strlit("libSceAgcDriver");
    reveal_strlit("sceAgcUnknownDolOmWHhuQ");
    reveal_strlit("sceAgcUnknownFd5Bp5tGTgo");
    reveal_strlit("sceAgcInit");
    reveal_strlit("sceAgcCreateInterpolantMapping");
    reveal_strlit("sceAgcGetDataPacketPayloadAddress");
    reveal_strlit("sceAgcUnknownKRzWekV120");
    reveal_strlit("sceAgcUnknownQj7QZpgr9Uw");
    reveal_strlit("sceAgcWriteDataPatchAddress");
}

proof fn lemma_row_of_incomplete(i: int)
    requires
        0 <= i < INCOMPLETE_EXPORTS@.len(),
    ensures
        row_of(incomplete_key(INCOMPLETE_EXPORTS@[i])) == EXPORTS@.len() + NID_EXPORTS@.len() + i,
{
    reveal_strlit("libSceAgc");
    reveal_strlit("libSceAgcDriver");
    reveal_strlit("sceAgcDriverSetTFRing");
    reveal_strlit("sceAgcDriverSetHsOffchipParam");
    reveal_strlit("sceAgcDriverSetResourceUserData");
    reveal_strlit("sceAgcDriverGetResourceUserData");
    reveal_strlit("sceAgcDriverRegisterWorkloadStream");
    reveal_strlit("sceAgcDriverUnregisterWorkloadStream");
    reveal_strlit("sceAgcDriverRegisterGdsResource");
    reveal_strlit("sceAgcDriverUnregisterResource");
    reveal_strlit("sceAgcDriverUnregisterAllResourcesForOwner");
    reveal_strlit("sceAgcDriverUnregisterOwnerAndResources");
    reveal_strlit("sceAgcDriverFindResourcesPublic");
    reveal_strlit("sceAgcDriverGetOwnerName");
    reveal_strlit("sceAgcDriverGetResourceName");
    reveal_strlit("sceAgcDriverGetResourceType");
    reveal_strlit("sceAgcDriverGetResourceShaderGuid");
    reveal_strlit("sceAgcDriverGetResourceBaseAddressAndSizeInBytes");
    reveal_strlit("sceAgcDriverGetEqEventType");
    reveal_strlit("sceAgcDriverGetEqContextId");
    reveal_strlit("sceAgcDriverGetShaderDebuggingStatus");
    reveal_strlit("sceAgcDriverIsTraceInProgress");
    reveal_strlit("sceAgcDriverIsCaptureInProgress");
    reveal_strlit("sceAgcDriverIsSubmitValidationEnabled");
    reveal_strlit("sceAgcDriverRequestCaptureStart");
    reveal_strlit("sceAgcDriverRequestCaptureStop");
    reveal_strlit("sceAgcDcbAtomicMem");
    reveal_strlit("sceAgcAcbAtomicMem");
    reveal_strlit("sceAgcDcbMemSemaphore");
    reveal_strlit("sceAgcAcbMemSemaphore");
    reveal_strlit("sceAgcCbCondWrite");
    reveal_strlit("sceAgcDcbSetIndexIndirectArgs");
    reveal_strlit("sceAgcGetDefaultCxStateFlat");
    reveal_strlit("sceAgcSetNop");
    reveal_strlit("sceAgcGetGsOversubscription");
    reveal_strlit("sceAgcSetAmmSemaphoreMemory");
    reveal_strlit("sceAgcGetSemaphoreLabel");
}

/// Every name of the complete exports is answered by the export of its row.
pub proof fn law_names_answer(r: Registry, i: int)
    requires
        0 <= i < EXPORTS@.len(),
    ensures
        registered(r).exports.dom().contains(row_key(EXPORTS@[i])),
        registered(r).exports[row_key(EXPORTS@[i])] == (Registered {
            handler: EXPORTS@[i].2.as_handler(),
            reason: None,
        }),
{
    let k = row_key(EXPORTS@[i]);
    lemma_row_of_export(i);
    assert forall|j: int| i < j < EXPORTS@.len() implies row_key(#[trigger] EXPORTS@[j]) != k by {
        lemma_row_of_export(j);
    }
    assert forall|j: int| 0 <= j < INCOMPLETE_EXPORTS@.len() implies incomplete_key(
        #[trigger] INCOMPLETE_EXPORTS@[j],
    ) != k by {
        lemma_row_of_incomplete(j);
    }
    assert forall|j: int|
        0 <= j < NID_EXPORTS@.len() && nid_key(#[trigger] NID_EXPORTS@[j]) == k implies j == 3
        && NID_EXPORTS@[j].3 == EXPORTS@[i].2 by {
        lemma_row_of_nid(j);
    }
    let r1 = with_exports(r, EXPORTS@);
    law_tables_answer(r, EXPORTS@, k);
    law_nid_tables_answer(r1, NID_EXPORTS@, k);
    law_incomplete_tables_answer(with_nids(r1, NID_EXPORTS@), INCOMPLETE_EXPORTS@, k);
    if nid_key(NID_EXPORTS@[3]) == k {
        assert forall|j: int| 3 < j < NID_EXPORTS@.len() implies nid_key(#[trigger] NID_EXPORTS@[j])
            != k by {}
    }
}

/// Every name with an identifier is answered by the export of its row.
pub proof fn law_nid_names_answer(r: Registry, i: int)
    requires
        0 <= i < NID_EXPORTS@.len(),
    ensures
        registered(r).exports.dom().contains(nid_key(NID_EXPORTS@[i])),
        registered(r).exports[nid_key(NID_EXPORTS@[i])] == (Registered {
            handler: NID_EXPORTS@[i].3.as_handler(),
            reason: None,
        }),
{
    let k = nid_key(NID_EXPORTS@[i]);
    lemma_row_of_nid(i);
    assert forall|j: int| i < j < NID_EXPORTS@.len() implies nid_key(#[trigger] NID_EXPORTS@[j]) != k by {
        lemma_row_of_nid(j);
    }
    assert forall|j: int| 0 <= j < INCOMPLETE_EXPORTS@.len() implies incomplete_key(
        #[trigger] INCOMPLETE_EXPORTS@[j],
    ) != k by {
        lemma_row_of_incomplete(j);
    }
    let r1 = with_exports(r, EXPORTS@);
    law_nid_tables_answer(r1, NID_EXPORTS@, k);
    law_incomplete_tables_answer(with_nids(r1, NID_EXPORTS@), INCOMPLETE_EXPORTS@, k);
}

/// Every incomplete name is answered by the export of its row, and says what is
/// missing.
pub proof fn law_incomplete_names_answer(r: Registry, i: int)
    requires
        0 <= i < INCOMPLETE_EXPORTS@.len(),
    ensures
        registered(r).exports.dom().contains(incomplete_key(INCOMPLETE_EXPORTS@[i])),
        registered(r).exports[incomplete_key(INCOMPLETE_EXPORTS@[i])] == (Registered {
            handler: INCOMPLETE_EXPORTS@[i].2.as_handler(),
            reason: Some(INCOMPLETE_EXPORTS@[i].3@),
        }),
{
    let k = incomplete_key(INCOMPLETE_EXPORTS@[i]);
    lemma_row_of_incomplete(i);
    assert forall|j: int| i < j < INCOMPLETE_EXPORTS@.len() implies incomplete_key(
        #[trigger] INCOMPLETE_EXPORTS@[j],
    ) != k by {
        lemma_row_of_incomplete(j);
    }
    let r1 = with_exports(r, EXPORTS@);
    law_incomplete_tables_answer(with_nids(r1, NID_EXPORTS@), INCOMPLETE_EXPORTS@, k);
}

} // verus!
