//! What the small libraries answer and remember: the dialogs, the on-screen
//! keyboard, the crash handler, content export and sound propagation.
use vstd::prelude::*;
use crate::agc::effects::{apart, lemma_kept_reads, lemma_put_u32_keeps_rest, lemma_put_u64_keeps_rest};
use crate::agc::fields::{lemma_put_u32_keeps, lemma_put_u64_keeps};
use crate::context::{arg, Machine};
use crate::libsce_audio_propagation::{effect as propagation_effect, system_query_memory, AudioPropagationExport};
use crate::libsce_content_export::{init, init2, term};
use crate::libsce_coredump::{register_handler, unregister_handler};
use crate::libsce_dialog_misc::{
    effect as dialog_effect, error_close, error_initialize, error_open, reported, vr_close,
    vr_initialize, vr_open, DialogExport,
};
use crate::libsce_ime_dialog::{
    abort, effect as keyboard_effect, get_panel_size_extended, get_result, init as keyboard_init,
    term as keyboard_term, ImeDialogExport,
};
use crate::mem::{law_read_back_u32, law_read_back_u64, load_u32, load_u64, mapped, put_u32, put_u64};
use crate::registry::Reply;

verus! {

/// The error dialog: 1 once it is initialised, 3 as soon as it is opened, 0 once it
/// is closed; its status is what its status call answers, and the other dialog is
/// left alone. It reports the error code behind the first DWORD of its parameters.
pub proof fn law_error_dialog(m: Machine, a: Seq<u64>)
    ensures
        error_initialize(m, a).1 == 0 && error_open(m, a).1 == 0 && error_close(m, a).1 == 0,
        dialog_effect(DialogExport::ErrorStatus, error_initialize(m, a).0, a).1 == Reply::Return(1),
        dialog_effect(DialogExport::ErrorStatus, error_open(m, a).0, a).1 == Reply::Return(3),
        dialog_effect(DialogExport::ErrorStatus, error_close(m, a).0, a).1 == Reply::Return(0),
        dialog_effect(DialogExport::VrStatus, error_open(m, a).0, a).1 == dialog_effect(
            DialogExport::VrStatus,
            m,
            a,
        ).1,
        arg(a, 0) != 0 && arg(a, 0) <= 0xFFFF_FFFF_FFFF_FFFB ==> reported(m, a) == load_u32(
            m.mem,
            arg(a, 0) + 4,
        ),
        arg(a, 0) == 0 ==> reported(m, a) is None,
        error_open(m, a).0.mem == m.mem,
{
}

/// The headset dialog, likewise.
pub proof fn law_headset_dialog(m: Machine, a: Seq<u64>)
    ensures
        vr_initialize(m, a).1 == 0 && vr_open(m, a).1 == 0 && vr_close(m, a).1 == 0,
        dialog_effect(DialogExport::VrStatus, vr_initialize(m, a).0, a).1 == Reply::Return(1),
        dialog_effect(DialogExport::VrStatus, vr_open(m, a).0, a).1 == Reply::Return(3),
        dialog_effect(DialogExport::VrStatus, vr_close(m, a).0, a).1 == Reply::Return(0),
        dialog_effect(DialogExport::ErrorStatus, vr_open(m, a).0, a).1 == dialog_effect(
            DialogExport::ErrorStatus,
            m,
            a,
        ).1,
{
}

/// The on-screen keyboard: it is finished (2) as soon as it is opened or aborted, with
/// the user having cancelled (1) or the abort (2) as its result, and gone (0) once it
/// is terminated. Null and unmapped places are refused.
pub proof fn law_keyboard(m: Machine, a: Seq<u64>, out: Seq<u64>)
    ensures
        arg(a, 0) == 0 ==> keyboard_init(m, a) == (m, 0x80BC_0031u64),
        arg(a, 0) != 0 ==> {
            &&& keyboard_init(m, a).1 == 0
            &&& keyboard_effect(ImeDialogExport::GetStatus, keyboard_init(m, a).0, a).1
                == Reply::Return(2)
            &&& keyboard_init(m, a).0.small.ime_end_status == 1
        },
        abort(m, a).1 == 0,
        keyboard_effect(ImeDialogExport::GetStatus, abort(m, a).0, a).1 == Reply::Return(2),
        abort(m, a).0.small.ime_end_status == 2,
        keyboard_term(m, a).1 == 0,
        keyboard_effect(ImeDialogExport::GetStatus, keyboard_term(m, a).0, a).1 == Reply::Return(0),
        ({
            let (after, code) = get_result(m, out);
            let valid = arg(out, 0) != 0 && mapped(m.mem, arg(out, 0) as int, 4);
            &&& !valid ==> code == 0x80BC_0031 && after == m
            &&& valid ==> code == 0 && load_u32(after.mem, arg(out, 0) as int) == Some(
                m.small.ime_end_status,
            )
        }),
{
    lemma_put_u32_keeps(m.mem, arg(out, 0) as int, m.small.ime_end_status, 0, 0);
    if arg(out, 0) != 0 && mapped(m.mem, arg(out, 0) as int, 4) {
        law_read_back_u32(m.mem, arg(out, 0) as int, m.small.ime_end_status);
    }
}

/// The keyboard's panel is 1920 wide and 480 high. (The two places are apart.)
pub proof fn law_keyboard_panel(m: Machine, a: Seq<u64>)
    ensures
        arg(a, 0) == 0 || arg(a, 2) == 0 || arg(a, 3) == 0 ==> get_panel_size_extended(m, a) == (
            m,
            0x80BC_0031u64,
        ),
        ({
            let (after, code) = get_panel_size_extended(m, a);
            &&& code == 0 || code == 0x80BC_0031
            &&& arg(a, 0) != 0 && arg(a, 2) != 0 && arg(a, 3) != 0 && mapped(
                m.mem,
                arg(a, 2) as int,
                4,
            ) && mapped(m.mem, arg(a, 3) as int, 4) ==> code == 0
            &&& code == 0 && apart(arg(a, 2) as int, 4, arg(a, 3) as int, 4) ==> load_u32(
                after.mem,
                arg(a, 2) as int,
            ) == Some(1920u32)
            &&& code == 0 ==> load_u32(after.mem, arg(a, 3) as int) == Some(480u32)
        }),
{
    let w = arg(a, 2) as int;
    let h = arg(a, 3) as int;
    let m1 = put_u32(m.mem, w, 1920).0;
    let (after, code) = get_panel_size_extended(m, a);
    lemma_put_u32_keeps(m.mem, w, 1920, h, 4);
    lemma_put_u32_keeps(m1, h, 480, 0, 0);
    if code == 0 {
        law_read_back_u32(m.mem, w, 1920);
        law_read_back_u32(m1, h, 480);
        if apart(w, 4, h, 4) {
            lemma_put_u32_keeps_rest(m1, h, 480, w, 4);
            lemma_kept_reads(m1, after.mem, w, 4, w, 4);
        }
    }
}

/// The crash handler that was registered last, with its context, is the one that is
/// remembered; once it is unregistered there is none.
pub proof fn law_crash_handler(m: Machine, a: Seq<u64>)
    ensures
        register_handler(m, a).1 == 0,
        register_handler(m, a).0.small.coredump_handler == arg(a, 0),
        register_handler(m, a).0.small.coredump_handler_context == arg(a, 1),
        unregister_handler(m, a).1 == 0,
        unregister_handler(m, a).0.small.coredump_handler == 0,
        unregister_handler(m, a).0.small.coredump_handler_context == 0,
        register_handler(m, a).0.mem == m.mem,
{
}

/// Content export is initialised once: with a parameter block whose two callbacks (at
/// 0 and 8) are there; the second form also wants the reserved fields (at 0x20 and
/// 0x28) to be zero and the buffer size (at 0x18) to be zero or at least 0x100.
/// Unreadable fields count as zero.
pub proof fn law_content_export(m: Machine, a: Seq<u64>)
    requires
        arg(a, 0) != 0 ==> mapped(m.mem, arg(a, 0) as int, 0x30),
    ensures
        ({
            let p = arg(a, 0) as int;
            let callbacks = p != 0 && load_u64(m.mem, p)->0 != 0 && load_u64(m.mem, p + 8)->0 != 0;
            let size = load_u64(m.mem, p + 0x18)->0;
            let plain = load_u64(m.mem, p + 0x20)->0 == 0 && load_u64(m.mem, p + 0x28)->0 == 0 && (
            size == 0 || size >= 0x100);
            let started = m.small.content_export_initialized;
            &&& started ==> init(m, a) == (m, 0x809D_3005u64) && init2(m, a) == (m, 0x809D_3005u64)
            &&& !started && !callbacks ==> init(m, a) == (m, 0x809D_3016u64) && init2(m, a) == (
                m,
                0x809D_3016u64,
            )
            &&& !started && callbacks ==> init(m, a).1 == 0
                && init(m, a).0.small.content_export_initialized
            &&& !started && callbacks && plain ==> init2(m, a).1 == 0
                && init2(m, a).0.small.content_export_initialized
            &&& !started && callbacks && !plain ==> init2(m, a) == (m, 0x809D_3016u64)
            &&& started ==> term(m, a).1 == 0 && !term(m, a).0.small.content_export_initialized
            &&& !started ==> term(m, a) == (m, 0x809D_3004u64)
        }),
{
    let p = arg(a, 0) as int;
    if p != 0 {
        assert forall|k: int| 0 <= k <= 0x28 implies #[trigger] mapped(m.mem, p + k, 8) by {
            assert forall|x: int| p + k <= x < p + k + 8 implies #[trigger] m.mem.dom().contains(
                x,
            ) by {}
        }
        assert(mapped(m.mem, p + 0, 8) && mapped(m.mem, p + 8, 8) && mapped(m.mem, p + 0x18, 8)
            && mapped(m.mem, p + 0x20, 8) && mapped(m.mem, p + 0x28, 8));
    }
}

/// The propagation system takes a working set of a mebibyte, aligned to 0x100.
pub proof fn law_propagation_memory(m: Machine, a: Seq<u64>)
    ensures
        system_query_memory(m, a).1 == 0,
        arg(a, 1) == 0 ==> system_query_memory(m, a).0 == m,
        arg(a, 1) != 0 && mapped(m.mem, arg(a, 1) as int, 16) ==> {
            &&& load_u64(system_query_memory(m, a).0.mem, arg(a, 1) as int) == Some(0x10_0000u64)
            &&& load_u64(system_query_memory(m, a).0.mem, arg(a, 1) + 8) == Some(0x100u64)
        },
        propagation_effect(AudioPropagationExport::Accept, m, a) == (m, Reply::Return(0)),
{
    let p = arg(a, 1) as int;
    if p != 0 && mapped(m.mem, p, 16) {
        let m1 = put_u64(m.mem, p, 0x10_0000).0;
        assert forall|x: int| p <= x < p + 8 implies #[trigger] m.mem.dom().contains(x) by {}
        assert forall|x: int| p + 8 <= x < p + 16 implies #[trigger] m.mem.dom().contains(x) by {}
        assert(mapped(m.mem, p, 8) && mapped(m.mem, p + 8, 8));
        lemma_put_u64_keeps(m.mem, p, 0x10_0000, p + 8, 8);
        lemma_put_u64_keeps(m1, p + 8, 0x100, 0, 0);
        law_read_back_u64(m.mem, p, 0x10_0000);
        law_read_back_u64(m1, p + 8, 0x100);
        lemma_put_u64_keeps_rest(m1, p + 8, 0x100, p, 8);
        lemma_kept_reads(m1, system_query_memory(m, a).0.mem, p, 8, p, 8);
    }
}

} // verus!
