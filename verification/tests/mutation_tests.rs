use native_memory_scripter::mem::memory::MemError;
use native_memory_scripter::mem::vtable::SlotWrite;
use native_memory_scripter::mutation::hook::{make_jmp, plan_hook, Trampoline};
use native_memory_scripter::mutation::monitor::{
    aligned_range, classify_exception, exception_action, HandlerAction, WriteFault, set_trap_flag, write_fault, ExceptionKind, MonitorEntry,
    MonitorGuard, MonitorRegistry, MonitorType, StepState, STATUS_ACCESS_VIOLATION,
    STATUS_GUARD_PAGE_VIOLATION, STATUS_SINGLE_STEP,
};
use native_memory_scripter::mutation::prot::Prot;
use native_memory_scripter::mutation::vtable::VTable;
use native_memory_scripter::mutation::write_monitor;

#[test]
fn mutation_prot_flags() {
    for p in [Prot::NoAccess, Prot::R, Prot::W, Prot::X, Prot::XR, Prot::XW, Prot::RW, Prot::XRW] {
        assert_eq!(Prot::from_flags(p.to_flags()), p);
    }
    assert_eq!(Prot::NoAccess.to_flags(), 0x01);
    assert_eq!(Prot::from_flags(0x104), Prot::Other);
}

#[test]
fn mutation_make_jmp_backwards_is_relative() {
    let jmp = make_jmp(0x2000, 0x1000, false);
    // 0x1000 - 0x2000 - 5 = -0x1005
    assert_eq!(jmp.as_slice(), &[0xE9, 0xFB, 0xEF, 0xFF, 0xFF]);
    let fwd = make_jmp(0x1000, 0x2000, false);
    assert_eq!(fwd.as_slice(), &[0xE9, 0xFB, 0x0F, 0x00, 0x00]);
    let forced = make_jmp(0x1000, 0x2000, true);
    assert_eq!(forced.len(), 14);
}

#[test]
fn mutation_make_jmp_far_is_absolute() {
    let far = make_jmp(0x1000, 0x7FFF_0000_0000, false);
    assert_eq!(&far.as_slice()[..6], &[0xFF, 0x25, 0, 0, 0, 0]);
    assert_eq!(&far.as_slice()[6..], &0x7FFF_0000_0000u64.to_le_bytes());
}

#[test]
fn mutation_plan_hook_and_unhook() {
    let mut code = vec![0x55, 0x48, 0x89, 0xE5, 0x48, 0x83, 0xEC, 0x20];
    code.extend(std::iter::repeat(0x90).take(40));
    let plan = plan_hook(0x1000, 0x2000, &code).unwrap();
    assert_eq!(plan.code_len, 8);
    assert_eq!(&plan.trampoline[..8], &code[..8]);
    let t = Trampoline::new(0x1000, &plan, 0x9000);
    let copy = t.clone();
    let r = t.unhook();
    assert_eq!((r.src, r.dst, r.len), (0x9000, 0x1000, 8));
    assert_eq!(copy.unhook(), r);
}

#[test]
fn mutation_plan_hook_null_is_refused() {
    let code = vec![0x90; 40];
    assert!(plan_hook(0, 0x2000, &code).is_err());
}

#[test]
fn mutation_vtable_keeps_records() {
    let mut vt = VTable::new(0x2000);
    assert_eq!(vt.hook(1, 0xAA, 0xBB), SlotWrite { addr: 0x2008, value: 0xBB });
    assert_eq!(vt.unhook(1), Some(SlotWrite { addr: 0x2008, value: 0xAA }));
    // the record stays, so a second unhook writes the original again
    assert_eq!(vt.unhook(1), Some(SlotWrite { addr: 0x2008, value: 0xAA }));
    assert_eq!(vt.get_original(1), Some(0xAA));
    assert_eq!(vt.unhook(7), None);
    vt.hook(3, 0xCC, 0xDD);
    assert_eq!(
        vt.reset(),
        vec![
            SlotWrite { addr: 0x2008, value: 0xAA },
            SlotWrite { addr: 0x2018, value: 0xCC }
        ]
    );
}

#[test]
fn monitor_pages_cover_object() {
    assert_eq!(aligned_range(0x1234, 8, 0x1000), (0x1000, 0x1000));
    assert_eq!(aligned_range(0x1FFC, 8, 0x1000), (0x1000, 0x2000));
    assert_eq!(aligned_range(0x1000, 0x1000, 0x1000), (0x1000, 0x1000));
}

#[test]
fn monitor_protections() {
    assert_eq!(MonitorType::Read.start_protection(), (Prot::RW, true));
    assert_eq!(MonitorType::Write.start_protection(), (Prot::R, false));
    assert_eq!(MonitorType::Read.stop_protection(), Prot::RW);
}

#[test]
fn monitor_registry_refuses_overlap() {
    let mut reg = MonitorRegistry::new();
    let e = reg.plan(0x1234, 8, MonitorType::Write, 0x1000, 1).unwrap();
    assert_eq!((e.aligned_base, e.aligned_size), (0x1000, 0x1000));
    reg.insert(e);
    assert!(reg.overlaps(0x1FFF));
    assert!(!reg.overlaps(0x2000));
    assert!(matches!(
        reg.plan(0x1800, 4, MonitorType::Read, 0x1000, 2),
        Err(MemError::Overlaps)
    ));
    let e2 = reg.plan(0x3000, 4, MonitorType::Read, 0x1000, 3).unwrap();
    reg.insert(e2);
    assert_eq!(reg.overlapping(0x3004).unwrap().id, 3);
}

#[test]
fn monitor_write_fault_notifies_inside_object() {
    let mut reg = MonitorRegistry::new();
    let e = reg.plan(0x1234, 8, MonitorType::Write, 0x1000, 9).unwrap();
    reg.insert(e);
    let inside = write_fault(&reg, 0x1238).unwrap();
    assert!(inside.notify);
    assert_eq!(inside.entry.id, 9);
    let outside = write_fault(&reg, 0x1100).unwrap();
    assert!(!outside.notify);
    assert!(write_fault(&reg, 0x5000).is_none());
}

#[test]
fn monitor_classifies_exceptions() {
    assert_eq!(
        classify_exception(STATUS_ACCESS_VIOLATION, 1, 0x1234),
        ExceptionKind::AccessViolation { write: true, addr: 0x1234 }
    );
    assert_eq!(
        classify_exception(STATUS_ACCESS_VIOLATION, 0, 0x1234),
        ExceptionKind::AccessViolation { write: false, addr: 0x1234 }
    );
    assert_eq!(
        classify_exception(STATUS_GUARD_PAGE_VIOLATION, 0, 0x10),
        ExceptionKind::GuardPage { addr: 0x10 }
    );
    assert_eq!(classify_exception(STATUS_SINGLE_STEP, 0, 0), ExceptionKind::SingleStep);
    assert_eq!(classify_exception(0xC000_0094, 0, 0), ExceptionKind::Other);
    assert_eq!(set_trap_flag(0x202), 0x302);
}

#[test]
fn monitor_step_state_for_reads() {
    let entry = MonitorEntry {
        aligned_base: 0x1000,
        aligned_size: 0x1000,
        base: 0x1010,
        size: 4,
        ty: MonitorType::Read,
        id: 1,
    };
    let mut st = StepState::new();
    st.on_guard_page(entry, Some(&[1, 2, 3, 4]));
    assert_eq!(st.take_queued(), Some(entry));
    assert_eq!(st.take_queued(), None);
    assert!(st.finish_read(&[1, 2, 3, 4]));
    st.on_guard_page(entry, Some(&[1, 2, 3, 4]));
    assert!(!st.finish_read(&[1, 2, 9, 4]));
    st.queue(entry);
    assert_eq!(st.take_queued(), Some(entry));
}

#[test]
fn monitor_guards_release_pages() {
    let entry = MonitorEntry {
        aligned_base: 0x4000,
        aligned_size: 0x2000,
        base: 0x4ff0,
        size: 0x20,
        ty: MonitorType::Write,
        id: 5,
    };
    let mut reg = MonitorRegistry::new();
    reg.insert(entry);
    let g = MonitorGuard::new(&entry);
    assert_eq!(g.base, 0x4ff0);
    let r = g.release(&mut reg);
    assert_eq!((r.aligned_base, r.aligned_size, r.prot, r.entry), (0x4000, 0x2000, Prot::RW, Some(entry)));
    assert!(!reg.overlaps(0x4000));
    let w = write_monitor::MonitorGuard::new(&entry, Prot::XRW);
    let r = w.release(&mut reg);
    assert_eq!((r.aligned_base, r.aligned_size, r.prot, r.entry), (0x4000, 0x2000, Prot::XRW, None));
}

#[test]
fn monitor_rewatch_after_release() {
    let mut reg = MonitorRegistry::new();
    let other = reg.plan(0x9000, 8, MonitorType::Read, 0x1000, 0).unwrap();
    reg.insert(other);
    let entry = reg.plan(0x4ff0, 0x20, MonitorType::Write, 0x1000, 1).unwrap();
    reg.insert(entry);
    assert!(matches!(reg.plan(0x4ff0, 0x20, MonitorType::Write, 0x1000, 2), Err(MemError::Overlaps)));
    let r = MonitorGuard::new(&entry).release(&mut reg);
    assert_eq!(r.entry, Some(entry));
    let again = reg.plan(0x4ff0, 0x20, MonitorType::Write, 0x1000, 2).unwrap();
    assert_eq!((again.aligned_base, again.aligned_size, again.id), (0x4000, 0x2000, 2));
    assert!(reg.overlaps(0x9000));
    assert_eq!(reg.remove(0x9000, 0x1000), Some(other));
    assert_eq!(reg.remove(0x9000, 0x1000), None);
}

#[test]
fn mutation_trampoline_text() {
    let mut code = vec![0x55, 0x48, 0x89, 0xE5, 0x48, 0x83, 0xEC, 0x20];
    code.extend(std::iter::repeat(0x90).take(40));
    let plan = plan_hook(0x1000, 0x2000, &code).unwrap();
    let t = Trampoline::new(0x1000, &plan, 0x9abc);
    assert_eq!(t.to_string(), format!("Trampoline {{ address: 0x9abc, size: {} }}", t.size));
    assert_eq!(t.to_string(), "Trampoline { address: 0x9abc, size: 22 }");
}

#[test]
fn exception_action_per_event() {
    let mut reg = MonitorRegistry::new();
    let w = reg.plan(0x4ff0, 0x20, MonitorType::Write, 0x1000, 1).unwrap();
    reg.insert(w);
    let r = reg.plan(0x9010, 8, MonitorType::Read, 0x1000, 2).unwrap();
    reg.insert(r);
    assert_eq!(
        exception_action(&reg, STATUS_ACCESS_VIOLATION, 1, 0x4ff8),
        HandlerAction::Write(WriteFault { entry: w, notify: true })
    );
    assert_eq!(
        exception_action(&reg, STATUS_ACCESS_VIOLATION, 1, 0x4000),
        HandlerAction::Write(WriteFault { entry: w, notify: false })
    );
    assert_eq!(exception_action(&reg, STATUS_ACCESS_VIOLATION, 0, 0x4ff8), HandlerAction::PassOn);
    assert_eq!(exception_action(&reg, STATUS_ACCESS_VIOLATION, 1, 0x8000), HandlerAction::PassOn);
    assert_eq!(
        exception_action(&reg, STATUS_GUARD_PAGE_VIOLATION, 0, 0x9014),
        HandlerAction::Guard { entry: r, inside: true }
    );
    assert_eq!(
        exception_action(&reg, STATUS_GUARD_PAGE_VIOLATION, 0, 0x9800),
        HandlerAction::Guard { entry: r, inside: false }
    );
    assert_eq!(exception_action(&reg, STATUS_SINGLE_STEP, 0, 0), HandlerAction::Step);
    assert_eq!(exception_action(&reg, 0xC000_0094, 0, 0x4ff8), HandlerAction::PassOn);
}
