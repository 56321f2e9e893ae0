//! All libraries together: what one library registers, the others leave alone.
use vstd::prelude::*;
use crate::context::{Machine, OK};
use crate::libsce_audio_propagation::{law_every_name_is_accepted, system_query_memory};
use crate::registry::{
    all_libraries, answers, incomplete_key, law_incomplete_tables_answer, law_tables_answer,
    no_registrations, row_key, with_exports, Export, Key, Registered, Registry, Reply,
};
use crate::{
    libsce_agc, libsce_ampr, libsce_audio_in, libsce_audio_out2, libsce_audio_propagation,
    libsce_content_export, libsce_coredump, libsce_dialog_misc, libsce_fiber, libsce_http,
    libsce_ime_dialog,
};

verus! {

/// `s` answers `k` as `r` does.
spec fn same_answer(r: Registry, s: Registry, k: Key) -> bool {
    &&& s.exports.dom().contains(k) <==> r.exports.dom().contains(k)
    &&& s.exports[k] == r.exports[k]
}

/// Which library a name is of, told from the library's length and a letter or
/// two; two libraries have different numbers.
spec fn library(s: Seq<char>) -> int {
    if s.len() == 10 && s[6] == 'H' {
        1
    } else if s.len() == 15 && s[6] == 'I' {
        2
    } else if s.len() == 15 && s[7] == 'u' {
        3
    } else if s.len() == 19 && s[6] == 'V' {
        4
    } else if s.len() == 11 && s[6] == 'H' {
        5
    } else {
        s.len() as int
    }
}

proof fn lemma_ampr_keeps(r: Registry, k: Key)
    requires
        library(k.0) != 10,
    ensures
        same_answer(r, libsce_ampr::registered(r), k),
{
    reveal_strlit("libSceAmpr");
    assert forall|i: int| 0 <= i < libsce_ampr::EXPORTS@.len() implies row_key(
        #[trigger] libsce_ampr::EXPORTS@[i],
    ) != k by {}
    law_tables_answer(r, libsce_ampr::EXPORTS@, k);
    assert forall|i: int| 0 <= i < libsce_ampr::INCOMPLETE_EXPORTS@.len() implies incomplete_key(
        #[trigger] libsce_ampr::INCOMPLETE_EXPORTS@[i],
    ) != k by {}
    law_incomplete_tables_answer(
        with_exports(r, libsce_ampr::EXPORTS@),
        libsce_ampr::INCOMPLETE_EXPORTS@,
        k,
    );
}

proof fn lemma_audio_in_keeps(r: Registry, k: Key)
    requires
        library(k.0) != 13,
    ensures
        same_answer(r, libsce_audio_in::registered(r), k),
{
    reveal_strlit("libSceAudioIn");
    assert forall|i: int| 0 <= i < libsce_audio_in::EXPORTS@.len() implies row_key(
        #[trigger] libsce_audio_in::EXPORTS@[i],
    ) != k by {}
    law_tables_answer(r, libsce_audio_in::EXPORTS@, k);
}

proof fn lemma_audio_out2_keeps(r: Registry, k: Key)
    requires
        library(k.0) != 3,
    ensures
        same_answer(r, libsce_audio_out2::registered(r), k),
{
    reveal_strlit("libSceAudioOut2");
    assert forall|i: int| 0 <= i < libsce_audio_out2::EXPORTS@.len() implies row_key(
        #[trigger] libsce_audio_out2::EXPORTS@[i],
    ) != k by {}
    law_tables_answer(r, libsce_audio_out2::EXPORTS@, k);
}

proof fn lemma_audio_propagation_keeps(r: Registry, k: Key)
    requires
        library(k.0) != 22,
    ensures
        same_answer(r, libsce_audio_propagation::registered(r), k),
{
    reveal_strlit("libSceAudioPropagation");
    assert forall|i: int| 0 <= i < libsce_audio_propagation::EXPORTS@.len() implies row_key(
        #[trigger] libsce_audio_propagation::EXPORTS@[i],
    ) != k by {}
    law_tables_answer(r, libsce_audio_propagation::EXPORTS@, k);
}

proof fn lemma_content_export_keeps(r: Registry, k: Key)
    requires
        library(k.0) != 19,
    ensures
        same_answer(r, libsce_content_export::registered(r), k),
{
    reveal_strlit("libSceContentExport");
    assert forall|i: int| 0 <= i < libsce_content_export::EXPORTS@.len() implies row_key(
        #[trigger] libsce_content_export::EXPORTS@[i],
    ) != k by {}
    law_tables_answer(r, libsce_content_export::EXPORTS@, k);
    assert forall|i: int| 0 <= i < libsce_content_export::INCOMPLETE_EXPORTS@.len() implies incomplete_key(
        #[trigger] libsce_content_export::INCOMPLETE_EXPORTS@[i],
    ) != k by {}
    law_incomplete_tables_answer(
        with_exports(r, libsce_content_export::EXPORTS@),
        libsce_content_export::INCOMPLETE_EXPORTS@,
        k,
    );
}

proof fn lemma_coredump_keeps(r: Registry, k: Key)
    requires
        library(k.0) != 14,
    ensures
        same_answer(r, libsce_coredump::registered(r), k),
{
    reveal_strlit("libSceCoredump");
    assert forall|i: int| 0 <= i < libsce_coredump::EXPORTS@.len() implies row_key(
        #[trigger] libsce_coredump::EXPORTS@[i],
    ) != k by {}
    law_tables_answer(r, libsce_coredump::EXPORTS@, k);
}

proof fn lemma_dialog_misc_keeps(r: Registry, k: Key)
    requires
        library(k.0) != 17 && library(k.0) != 4,
    ensures
        same_answer(r, libsce_dialog_misc::registered(r), k),
{
    reveal_strlit("libSceErrorDialog");
    reveal_strlit("libSceVrSetupDialog");
    assert forall|i: int| 0 <= i < libsce_dialog_misc::EXPORTS@.len() implies row_key(
        #[trigger] libsce_dialog_misc::EXPORTS@[i],
    ) != k by {}
    law_tables_answer(r, libsce_dialog_misc::EXPORTS@, k);
    assert forall|i: int| 0 <= i < libsce_dialog_misc::INCOMPLETE_EXPORTS@.len() implies incomplete_key(
        #[trigger] libsce_dialog_misc::INCOMPLETE_EXPORTS@[i],
    ) != k by {}
    law_incomplete_tables_answer(
        with_exports(r, libsce_dialog_misc::EXPORTS@),
        libsce_dialog_misc::INCOMPLETE_EXPORTS@,
        k,
    );
}

proof fn lemma_fiber_keeps(r: Registry, k: Key)
    requires
        library(k.0) != 11,
    ensures
        same_answer(r, libsce_fiber::registered(r), k),
{
    reveal_strlit("libSceFiber");
    assert forall|i: int| 0 <= i < libsce_fiber::EXPORTS@.len() implies row_key(
        #[trigger] libsce_fiber::EXPORTS@[i],
    ) != k by {}
    law_tables_answer(r, libsce_fiber::EXPORTS@, k);
}

proof fn lemma_http_keeps(r: Registry, k: Key)
    requires
        library(k.0) != 1 && library(k.0) != 5,
    ensures
        same_answer(r, libsce_http::registered(r), k),
{
    reveal_strlit("libSceHttp");
    reveal_strlit("libSceHttp2");
    assert forall|i: int| 0 <= i < libsce_http::EXPORTS@.len() implies row_key(
        #[trigger] libsce_http::EXPORTS@[i],
    ) != k by {}
    law_tables_answer(r, libsce_http::EXPORTS@, k);
}

proof fn lemma_ime_dialog_keeps(r: Registry, k: Key)
    requires
        library(k.0) != 2,
    ensures
        same_answer(r, libsce_ime_dialog::registered(r), k),
{
    reveal_strlit("libSceImeDialog");
    assert forall|i: int| 0 <= i < libsce_ime_dialog::EXPORTS@.len() implies row_key(
        #[trigger] libsce_ime_dialog::EXPORTS@[i],
    ) != k by {}
    law_tables_answer(r, libsce_ime_dialog::EXPORTS@, k);
}

/// The libraries behind libSceAudioPropagation keep its names and those of the
/// libraries before it.
proof fn lemma_last_keep(r: Registry, k: Key)
    requires
        library(k.0) == 9 || library(k.0) == 15 || library(k.0) == 10 || library(k.0) == 22,
    ensures
        ({
            let r1 = libsce_content_export::registered(r);
            let r2 = libsce_coredump::registered(r1);
            let r3 = libsce_dialog_misc::registered(r2);
            let r4 = libsce_fiber::registered(r3);
            let r5 = libsce_http::registered(r4);
            same_answer(r, libsce_ime_dialog::registered(r5), k)
        }),
{
    let r1 = libsce_content_export::registered(r);
    let r2 = libsce_coredump::registered(r1);
    let r3 = libsce_dialog_misc::registered(r2);
    let r4 = libsce_fiber::registered(r3);
    let r5 = libsce_http::registered(r4);
    lemma_content_export_keeps(r, k);
    lemma_coredump_keeps(r1, k);
    lemma_dialog_misc_keeps(r2, k);
    lemma_fiber_keeps(r3, k);
    lemma_http_keeps(r4, k);
    lemma_ime_dialog_keeps(r5, k);
}

/// The libraries behind libSceAmpr keep its names and those of the graphics
/// libraries.
proof fn lemma_all_keep(k: Key)
    requires
        library(k.0) == 9 || library(k.0) == 15 || library(k.0) == 10,
    ensures
        ({
            let r = libsce_agc::registered(no_registrations());
            &&& same_answer(libsce_ampr::registered(r), all_libraries(), k)
            &&& library(k.0) != 10 ==> same_answer(r, all_libraries(), k)
        }),
{
    let r = libsce_agc::registered(no_registrations());
    let r1 = libsce_ampr::registered(r);
    let r2 = libsce_audio_in::registered(r1);
    let r3 = libsce_audio_out2::registered(r2);
    if library(k.0) != 10 {
        lemma_ampr_keeps(r, k);
    }
    lemma_audio_in_keeps(r1, k);
    lemma_audio_out2_keeps(r2, k);
    lemma_audio_propagation_keeps(r3, k);
    lemma_last_keep(libsce_audio_propagation::registered(r3), k);
}

/// With every library registered, each complete name of the graphics libraries is
/// answered by the export of its row.
pub proof fn law_graphics_names_answer(i: int)
    requires
        0 <= i < libsce_agc::EXPORTS@.len(),
    ensures
        all_libraries().exports.dom().contains(row_key(libsce_agc::EXPORTS@[i])),
        all_libraries().exports[row_key(libsce_agc::EXPORTS@[i])] == (Registered {
            handler: libsce_agc::EXPORTS@[i].2.as_handler(),
            reason: None,
        }),
{
    reveal_strlit("libSceAgc");
    reveal_strlit("libSceAgcDriver");
    libsce_agc::names::law_names_answer(no_registrations(), i);
    lemma_all_keep(row_key(libsce_agc::EXPORTS@[i]));
}

/// With every library registered, each complete command-buffer name is answered
/// by the export of its row.
pub proof fn law_command_buffer_names_answer(i: int)
    requires
        0 <= i < libsce_ampr::EXPORTS@.len(),
    ensures
        all_libraries().exports.dom().contains(row_key(libsce_ampr::EXPORTS@[i])),
        all_libraries().exports[row_key(libsce_ampr::EXPORTS@[i])] == (Registered {
            handler: libsce_ampr::EXPORTS@[i].2.as_handler(),
            reason: None,
        }),
{
    reveal_strlit("libSceAmpr");
    libsce_ampr::names::law_names_answer(libsce_agc::registered(no_registrations()), i);
    lemma_all_keep(row_key(libsce_ampr::EXPORTS@[i]));
}

/// With every library registered, each incomplete command-buffer name is answered
/// by the export of its row, and says what is missing.
pub proof fn law_incomplete_command_buffer_names_answer(i: int)
    requires
        0 <= i < libsce_ampr::INCOMPLETE_EXPORTS@.len(),
    ensures
        all_libraries().exports.dom().contains(incomplete_key(libsce_ampr::INCOMPLETE_EXPORTS@[i])),
        all_libraries().exports[incomplete_key(libsce_ampr::INCOMPLETE_EXPORTS@[i])] == (Registered {
            handler: libsce_ampr::INCOMPLETE_EXPORTS@[i].2.as_handler(),
            reason: Some(libsce_ampr::INCOMPLETE_EXPORTS@[i].3@),
        }),
{
    reveal_strlit("libSceAmpr");
    libsce_ampr::names::law_incomplete_names_answer(
        libsce_agc::registered(no_registrations()),
        i,
    );
    lemma_all_keep(incomplete_key(libsce_ampr::INCOMPLETE_EXPORTS@[i]));
}

/// With every library registered, each acoustics name answers 0, whatever it is
/// called with. Only the memory query writes; every other name leaves the machine
/// as it is.
pub proof fn law_acoustics_names_answer(
    i: int,
    m: Machine,
    a: Seq<u64>,
    after: Machine,
    reply: Reply,
)
    requires
        0 <= i < libsce_audio_propagation::EXPORTS@.len(),
        answers(
            all_libraries().exports[row_key(libsce_audio_propagation::EXPORTS@[i])].handler,
            m,
            a,
            after,
            reply,
        ),
    ensures
        all_libraries().exports.dom().contains(row_key(libsce_audio_propagation::EXPORTS@[i])),
        reply == Reply::Return(OK),
        after == m || (libsce_audio_propagation::EXPORTS@[i].1@
            == "sceAudioPropagationSystemQueryMemory"@ && after == system_query_memory(m, a).0),
{
    reveal_strlit("libSceAudioPropagation");
    let r = libsce_agc::registered(no_registrations());
    let r1 = libsce_ampr::registered(r);
    let r2 = libsce_audio_in::registered(r1);
    let r3 = libsce_audio_out2::registered(r2);
    lemma_last_keep(
        libsce_audio_propagation::registered(r3),
        row_key(libsce_audio_propagation::EXPORTS@[i]),
    );
    law_every_name_is_accepted(r3, i, m, a, after, reply);
}

} // verus!
