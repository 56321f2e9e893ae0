//! The names of the library: no two rows of its tables have the same.
use vstd::prelude::*;
use crate::libsce_ampr::{registered, EXPORTS, INCOMPLETE_EXPORTS};
use crate::registry::{
    incomplete_key, law_incomplete_tables_answer, law_tables_answer, row_key, with_exports, Export,
    Registered, Registry,
};

verus! {

/// The row of a name, told from its length and a few of its letters: the rows of
/// the complete exports first, then those of the incomplete ones.
spec fn row_of(s: Seq<char>) -> int {
    if s.len() == 23 {
        16
    } else if s.len() == 25 {
        5
    } else if s.len() == 27 {
        if s[23] == 'S' {
            7
        } else {
            25
        }
    } else if s.len() == 28 {
        32
    } else if s.len() == 29 {
        if s[20] == 'S' {
            if s[23] == 'B' {
                4
            } else {
                20
            }
        } else if s[20] == 'P' {
            24
        } else {
            61
        }
    } else if s.len() == 30 {
        if s[20] == 'D' {
            2
        } else {
            22
        }
    } else if s.len() == 31 {
        if s[23] == 's' {
            0
        } else if s[23] == 'a' {
            6
        } else if s[23] == 'R' {
            10
        } else if s[23] == 'W' {
            17
        } else if s[23] == 'z' {
            52
        } else {
            59
        }
    } else if s.len() == 32 {
        18
    } else if s.len() == 33 {
        if s[25] == 's' {
            3
        } else if s[25] == 'R' {
            13
        } else {
            50
        }
    } else if s.len() == 34 {
        if s[25] == 'n' {
            1
        } else if s[25] == 'm' {
            9
        } else if s[25] == 'S' {
            34
        } else {
            38
        }
    } else if s.len() == 35 {
        if s[7] == 'C' {
            19
        } else {
            36
        }
    } else if s.len() == 36 {
        if s[7] == 'C' {
            8
        } else {
            33
        }
    } else if s.len() == 37 {
        if s[23] == 'R' {
            28
        } else {
            60
        }
    } else if s.len() == 38 {
        if s[25] == 'r' {
            21
        } else if s[25] == 'A' {
            27
        } else if s[25] == 'a' {
            29
        } else {
            55
        }
    } else if s.len() == 39 {
        if s[26] == 'r' {
            23
        } else if s[26] == 'e' {
            46
        } else if s[26] == 'a' {
            51
        } else if s[26] == 'A' {
            53
        } else {
            54
        }
    } else if s.len() == 40 {
        if s[7] == 'C' {
            26
        } else {
            47
        }
    } else if s.len() == 43 {
        if s[30] == 'r' {
            35
        } else if s[30] == 'A' {
            39
        } else {
            45
        }
    } else if s.len() == 44 {
        if s[31] == 's' {
            12
        } else if s[31] == 'G' {
            30
        } else if s[31] == 'r' {
            37
        } else if s[31] == 'A' {
            43
        } else {
            44
        }
    } else if s.len() == 46 {
        if s[7] == 'A' {
            31
        } else {
            48
        }
    } else if s.len() == 47 {
        11
    } else if s.len() == 48 {
        49
    } else if s.len() == 49 {
        if s[7] == 'M' {
            15
        } else {
            56
        }
    } else if s.len() == 52 {
        14
    } else if s.len() == 53 {
        if s[36] == 'C' {
            57
        } else {
            58
        }
    } else if s.len() == 54 {
        40
    } else if s.len() == 58 {
        if s[41] == 'C' {
            41
        } else {
            42
        }
    } else {
        -1
    }
}

proof fn lemma_row_of_export(i: int)
    requires
        0 <= i < EXPORTS@.len(),
    ensures
        row_of(EXPORTS@[i].1@) == i,
{
    reveal_strlit("sceAmprCommandBufferConstructor");
    reveal_strlit("sceAmprAprCommandBufferConstructor");
    reveal_strlit("sceAmprCommandBufferDestructor");
    reveal_strlit("sceAmprAprCommandBufferDestructor");
    reveal_strlit("sceAmprCommandBufferSetBuffer");
    reveal_strlit("sceAmprCommandBufferReset");
    reveal_strlit("sceAmprCommandBufferClearBuffer");
    reveal_strlit("sceAmprCommandBufferGetSize");
    reveal_strlit("sceAmprCommandBufferGetCurrentOffset");
    reveal_strlit("sceAmprCommandBufferGetNumCommands");
    reveal_strlit("sceAmprAprCommandBufferReadFile");
    reveal_strlit("sceAmprCommandBufferWriteKernelEventQueue_04_00");
    reveal_strlit("sceAmprCommandBufferWriteAddressOnCompletion");
    reveal_strlit("sceAmprMeasureCommandSizeReadFile");
    reveal_strlit("sceAmprMeasureCommandSizeWriteKernelEventQueue_04_00");
    reveal_strlit("sceAmprMeasureCommandSizeWriteAddressOnCompletion");
    reveal_strlit("sceAmprCommandBufferNop");
    reveal_strlit("sceAmprCommandBufferNopWithData");
    reveal_strlit("sceAmprCommandBufferConstructNop");
    reveal_strlit("sceAmprCommandBufferConstructMarker");
    reveal_strlit("sceAmprCommandBufferSetMarker");
    reveal_strlit("sceAmprCommandBufferSetMarkerWithColor");
    reveal_strlit("sceAmprCommandBufferPushMarker");
    reveal_strlit("sceAmprCommandBufferPushMarkerWithColor");
    reveal_strlit("sceAmprCommandBufferPopMarker");
    reveal_strlit("sceAmprCommandBufferGetType");
    reveal_strlit("sceAmprCommandBufferGetBufferBaseAddress");
    reveal_strlit("sceAmprCommandBufferWriteAddress_04_00");
    reveal_strlit("sceAmprAprCommandBufferReadFileGather");
    reveal_strlit("sceAmprAprCommandBufferReadFileScatter");
    reveal_strlit("sceAmprAprCommandBufferReadFileGatherScatter");
    reveal_strlit("sceAmprAprCommandBufferResetGatherScatterState");
    reveal_strlit("sceAmprMeasureCommandSizeNop");
    reveal_strlit("sceAmprMeasureCommandSizeNopWithData");
    reveal_strlit("sceAmprMeasureCommandSizeSetMarker");
    reveal_strlit("sceAmprMeasureCommandSizeSetMarkerWithColor");
    reveal_strlit("sceAmprMeasureCommandSizePushMarker");
    reveal_strlit("sceAmprMeasureCommandSizePushMarkerWithColor");
    reveal_strlit("sceAmprMeasureCommandSizePopMarker");
    reveal_strlit("sceAmprMeasureCommandSizeWriteAddress_04_00");
    reveal_strlit("sceAmprMeasureCommandSizeWriteAddressFromCounter_04_00");
    reveal_strlit("sceAmprMeasureCommandSizeWriteAddressFromCounterPair_04_00");
    reveal_strlit("sceAmprMeasureCommandSizeWriteAddressFromTimeCounter_04_00");
    reveal_strlit("sceAmprMeasureCommandSizeWaitOnAddress_04_00");
    reveal_strlit("sceAmprMeasureCommandSizeWaitOnCounter_04_00");
    reveal_strlit("sceAmprMeasureCommandSizeWriteCounter_04_00");
    reveal_strlit("sceAmprMeasureCommandSizeReadFileGather");
    reveal_strlit("sceAmprMeasureCommandSizeReadFileScatter");
    reveal_strlit("sceAmprMeasureCommandSizeReadFileGatherScatter");
    reveal_strlit("sceAmprMeasureCommandSizeResetGatherScatterState");
    reveal_strlit("sceAmprMeasureCommandSizeMapBegin");
    reveal_strlit("sceAmprMeasureCommandSizeMapDirectBegin");
    reveal_strlit("sceAmprMeasureCommandSizeMapEnd");
}

proof fn lemma_row_of_incomplete(i: int)
    requires
        0 <= i < INCOMPLETE_EXPORTS@.len(),
    ensures
        row_of(INCOMPLETE_EXPORTS@[i].1@) == EXPORTS@.len() + i,
{
    reveal_strlit("sceAmprCommandBufferWaitOnAddress_04_00");
    reveal_strlit("sceAmprCommandBufferWaitOnCounter_04_00");
    reveal_strlit("sceAmprCommandBufferWriteCounter_04_00");
    reveal_strlit("sceAmprCommandBufferWriteAddressFromCounter_04_00");
    reveal_strlit("sceAmprCommandBufferWriteAddressFromCounterPair_04_00");
    reveal_strlit("sceAmprCommandBufferWriteAddressFromTimeCounter_04_00");
    reveal_strlit("sceAmprAprCommandBufferMapBegin");
    reveal_strlit("sceAmprAprCommandBufferMapDirectBegin");
    reveal_strlit("sceAmprAprCommandBufferMapEnd");
}

/// Every name of the library is answered by the export of its row.
pub proof fn law_names_answer(r: Registry, i: int)
    requires
        0 <= i < EXPORTS@.len(),
    ensures
        registered(r).exports.dom().contains(row_key(EXPORTS@[i])),
        registered(r).exports[row_key(EXPORTS@[i])] == (Registered {
            handler: EXPORTS@[i].2.as_handler(),
            reason: None,
        }),
{
    let k = row_key(EXPORTS@[i]);
    lemma_row_of_export(i);
    assert forall|j: int| i < j < EXPORTS@.len() implies row_key(#[trigger] EXPORTS@[j]) != k by {
        lemma_row_of_export(j);
    }
    assert forall|j: int| 0 <= j < INCOMPLETE_EXPORTS@.len() implies incomplete_key(
        #[trigger] INCOMPLETE_EXPORTS@[j],
    ) != k by {
        lemma_row_of_incomplete(j);
    }
    law_tables_answer(r, EXPORTS@, k);
    law_incomplete_tables_answer(with_exports(r, EXPORTS@), INCOMPLETE_EXPORTS@, k);
}

/// Every incomplete name of the library is answered by the export of its row, and
/// says what is missing.
pub proof fn law_incomplete_names_answer(r: Registry, i: int)
    requires
        0 <= i < INCOMPLETE_EXPORTS@.len(),
    ensures
        registered(r).exports.dom().contains(incomplete_key(INCOMPLETE_EXPORTS@[i])),
        registered(r).exports[incomplete_key(INCOMPLETE_EXPORTS@[i])] == (Registered {
            handler: INCOMPLETE_EXPORTS@[i].2.as_handler(),
            reason: Some(INCOMPLETE_EXPORTS@[i].3@),
        }),
{
    let k = incomplete_key(INCOMPLETE_EXPORTS@[i]);
    lemma_row_of_incomplete(i);
    assert forall|j: int| i < j < INCOMPLETE_EXPORTS@.len() implies incomplete_key(
        #[trigger] INCOMPLETE_EXPORTS@[j],
    ) != k by {
        lemma_row_of_incomplete(j);
    }
    law_incomplete_tables_answer(with_exports(r, EXPORTS@), INCOMPLETE_EXPORTS@, k);
}

} // verus!
