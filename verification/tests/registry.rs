//! The registry, guest memory and handle tables.
use raeen_hle::agc::trace::{agc_guest_stack_chain, CODE_BASE, CODE_SPAN};
use raeen_hle::context::HleContext;
use raeen_hle::libsce_coredump::CoredumpExport;
use raeen_hle::libsce_fiber::FiberExport;
use raeen_hle::mem::GuestMemory;
use raeen_hle::registry::{Handler, HleRegistry, Outcome};
use raeen_hle::table::Table;

/// A process with `size` bytes of memory from address zero on.
fn ctx_of(size: usize) -> HleContext {
    let mut mem = GuestMemory::empty();
    mem.map_region(0, size);
    HleContext::new(mem)
}

/// The value that a call returned at once.
fn returned(outcome: Option<Outcome>) -> Option<u64> {
    match outcome {
        Some(Outcome::Return(value)) => Some(value),
        _ => None,
    }
}

#[test]
fn names_are_answered_by_their_last_registration() {
    let mut registry = HleRegistry::empty();
    assert!(!registry.is_implemented("lib", "name"));
    registry.register("lib", "name", Handler::Fiber(FiberExport::FiberFinalize));
    registry.register_incomplete(
        "lib",
        "name",
        Handler::Coredump(CoredumpExport::WriteUserData),
        "nothing is written",
    );
    assert_eq!(
        registry.handler("lib", "name"),
        Some(Handler::Coredump(CoredumpExport::WriteUserData))
    );
    assert_eq!(registry.handler("lib", "other"), None);
    assert_eq!(registry.handler("other", "name"), None);
    assert_eq!(registry.registered_names(), vec![("lib", "name")]);
    assert_eq!(
        registry.incomplete_registrations(),
        vec![("lib", "name", "nothing is written")]
    );
    registry.register("lib", "name", Handler::Fiber(FiberExport::FiberFinalize));
    assert!(registry.incomplete_registrations().is_empty());
}

#[test]
fn identifiers_are_bound_to_names() {
    let mut registry = HleRegistry::empty();
    registry.register_nid("lib", "a", 7, Handler::Coredump(CoredumpExport::WriteUserData));
    registry.register_nid("lib", "b", 8, Handler::Coredump(CoredumpExport::WriteUserData));
    registry.register_nid("lib", "c", 7, Handler::Coredump(CoredumpExport::WriteUserData));
    let mut nids = registry.registered_nid_overrides();
    nids.sort();
    assert_eq!(nids, vec![(7, "lib", "c"), (8, "lib", "b")]);
    assert!(registry.is_implemented("lib", "a"));
}

#[test]
fn registering_a_library_again_changes_nothing() {
    let mut registry = HleRegistry::new();
    let names = registry.registered_names();
    let nids = registry.registered_nid_overrides();
    let incomplete = registry.incomplete_registrations();
    raeen_hle::libsce_agc::register(&mut registry);
    raeen_hle::libsce_ampr::register(&mut registry);
    raeen_hle::libsce_audio_in::register(&mut registry);
    raeen_hle::libsce_audio_out2::register(&mut registry);
    raeen_hle::libsce_audio_propagation::register(&mut registry);
    raeen_hle::libsce_content_export::register(&mut registry);
    raeen_hle::libsce_coredump::register(&mut registry);
    raeen_hle::libsce_dialog_misc::register(&mut registry);
    raeen_hle::libsce_fiber::register(&mut registry);
    raeen_hle::libsce_http::register(&mut registry);
    raeen_hle::libsce_ime_dialog::register(&mut registry);
    assert_eq!(registry.registered_names(), names);
    assert_eq!(registry.registered_nid_overrides().len(), nids.len());
    assert_eq!(registry.incomplete_registrations(), incomplete);
    assert_eq!(names.len(), 408);
    assert_eq!(nids.len(), 8);
}

#[test]
fn calls_by_name_do_what_the_export_does() {
    let registry = HleRegistry::new();
    let mut ctx = ctx_of(0x1000);
    assert!(registry.call(&mut ctx, "libSceHttp", "sceHttpNothing", &[]).is_none());
    assert_eq!(
        returned(registry.call(&mut ctx, "libSceHttp", "sceHttpInit", &[0, 0, 0x1000])),
        Some(1)
    );
    assert_eq!(
        returned(registry.call(&mut ctx, "libSceAgc", "sceAgcCbDispatchGetSize", &[])),
        Some(20)
    );
    assert_eq!(
        returned(registry.call(
            &mut ctx,
            "libSceFiber",
            "sceFiberStartContextSizeCheck",
            &[0]
        )),
        Some(0)
    );
    assert_eq!(ctx.kernel.small.fiber_context_size_check, 1);
    assert_eq!(
        returned(registry.call(&mut ctx, "libSceErrorDialog", "sceErrorDialogOpen", &[0])),
        Some(0)
    );
    assert_eq!(
        returned(registry.call(&mut ctx, "libSceErrorDialog", "sceErrorDialogGetStatus", &[])),
        Some(3)
    );
    assert_eq!(
        returned(registry.call(
            &mut ctx,
            "libSceAudioPropagation",
            "sceAudioPropagationRoomCreate",
            &[]
        )),
        Some(0)
    );
    assert!(matches!(
        registry.call(&mut ctx, "libSceAgcDriver", "sceAgcDriverSubmitDcb", &[0x100]),
        Some(Outcome::Submit(_))
    ));
    assert!(matches!(
        registry.call(&mut ctx, "libSceAgc", "sceAgcGetRegisterDefaults2", &[8]),
        Some(Outcome::Defaults(_))
    ));
    assert!(matches!(
        registry.call(
            &mut ctx,
            "libSceAmpr",
            "sceAmprAprCommandBufferReadFile",
            &[0x40, 0, 0, 1, 0x300, 16, 0]
        ),
        Some(Outcome::Read(_))
    ));
    assert!(matches!(
        registry.call(&mut ctx, "libSceAudioIn", "sceAudioInInput", &[0x3000_0000, 0x300]),
        Some(Outcome::Delayed(_))
    ));
    assert!(matches!(
        registry.call(&mut ctx, "libSceAudioOut2", "sceAudioOut2ContextPush", &[9]),
        Some(Outcome::Push { context: 9, .. })
    ));
    assert!(matches!(
        registry.call(&mut ctx, "libSceAudioOut2", "sceAudioOut2ContextAdvance", &[9]),
        Some(Outcome::Pace { context: 9 })
    ));
}

#[test]
fn memory_is_all_or_nothing() {
    let mut mem = GuestMemory::empty();
    mem.map_region(0x1000, 0x10);
    mem.map_region(0x1010, 0x10);
    mem.map_region(0x1030, 0x10);
    // Neighbouring regions read as one.
    assert!(mem.write(0x100C, 0, &[1, 2, 3, 4, 5, 6, 7, 8]));
    assert_eq!(mem.read_u64(0x100C, 0), Some(0x0807_0605_0403_0201));
    assert_eq!(mem.read_u32(0x1000, 0x10), Some(0x0807_0605));
    // A gap refuses the whole write.
    assert!(!mem.write(0x101C, 0, &[9; 8]));
    assert_eq!(mem.read_u32(0x101C, 0), Some(0));
    assert_eq!(mem.read(0x1018, 0, 9), None);
    // So does the end of the address space.
    let mut top = GuestMemory::empty();
    top.map_region(u64::MAX - 7, 8);
    assert_eq!(top.read_u64(u64::MAX - 7, 0), Some(0));
    assert_eq!(top.read_u64(u64::MAX - 6, 0), None);
    assert_eq!(top.read_u8(u64::MAX, 1), None);
}

#[test]
fn tables_hold_each_handle_once() {
    let mut table: Table<u64> = Table::new();
    table.insert(1, 10);
    table.insert(2, 20);
    table.insert(1, 30);
    table.insert(3, 30);
    assert_eq!(table.len(), 3);
    assert_eq!(table.get(1), Some(&30));
    let mut handles = table.handles();
    handles.sort();
    assert_eq!(handles, vec![1, 2, 3]);
    table.remove_value(30);
    assert_eq!(table.handles(), vec![2]);
    assert!(table.remove(2));
    assert!(!table.remove(2));
}

#[test]
fn stack_chains_hold_code_words_in_order() {
    let mut mem = GuestMemory::empty();
    mem.map_region(0x1000, 0x28);
    let words = [CODE_BASE + 0x10, 7, CODE_BASE + CODE_SPAN, CODE_BASE, CODE_BASE + 0x20];
    for (i, w) in words.iter().enumerate() {
        assert!(mem.write_u64(0x1000, 8 * i as u64, *w));
    }
    // The walk ends where the mapping does.
    assert_eq!(agc_guest_stack_chain(&mem, 0x1000, 16), Some(vec![0x10, 0, 0x20]));
    assert_eq!(agc_guest_stack_chain(&mem, 0x1000, 2), Some(vec![0x10, 0]));
    assert_eq!(agc_guest_stack_chain(&mem, 0x1008, 1), Some(vec![0]));
    assert_eq!(agc_guest_stack_chain(&mem, 0x2000, 16), Some(vec![]));
    assert_eq!(agc_guest_stack_chain(&mem, 0, 16), None);
}

#[test]
fn incomplete_names_are_listed_once() {
    let mut registry = HleRegistry::new();
    let count = registry.incomplete_registrations().len();
    raeen_hle::libsce_ampr::register(&mut registry);
    let rows = registry.incomplete_registrations();
    assert_eq!(rows.len(), count);
    for (i, (library, name, _)) in rows.iter().enumerate() {
        assert!(!rows[..i].iter().any(|(l, n, _)| l == library && n == name), "{name}");
    }
}
