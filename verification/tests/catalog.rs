use handler_rt::catalog::{ExceptionHandlerTarget, HandlerKind, Injection, ReturnRule};
use handler_rt::diagnostic::{Site, Violation};

#[test]
fn hazardous_targets_are_unsafe_to_define() {
    assert!(ExceptionHandlerTarget::NonMaskableInt.is_unsafe_to_define());
    assert!(ExceptionHandlerTarget::HardFault.is_unsafe_to_define());
    assert!(ExceptionHandlerTarget::DefaultHandler.is_unsafe_to_define());
}

#[test]
fn other_targets_are_safe_to_define() {
    for target in [
        ExceptionHandlerTarget::MemoryManagement,
        ExceptionHandlerTarget::BusFault,
        ExceptionHandlerTarget::UsageFault,
        ExceptionHandlerTarget::SecureFault,
        ExceptionHandlerTarget::SVCall,
        ExceptionHandlerTarget::DebugMonitor,
        ExceptionHandlerTarget::PendSV,
        ExceptionHandlerTarget::SysTick,
    ] {
        assert!(!target.is_unsafe_to_define());
    }
}

#[test]
fn every_target_is_parsed_from_its_name() {
    for target in [
        ExceptionHandlerTarget::DefaultHandler,
        ExceptionHandlerTarget::NonMaskableInt,
        ExceptionHandlerTarget::HardFault,
        ExceptionHandlerTarget::MemoryManagement,
        ExceptionHandlerTarget::BusFault,
        ExceptionHandlerTarget::UsageFault,
        ExceptionHandlerTarget::SecureFault,
        ExceptionHandlerTarget::SVCall,
        ExceptionHandlerTarget::DebugMonitor,
        ExceptionHandlerTarget::PendSV,
        ExceptionHandlerTarget::SysTick,
    ] {
        assert_eq!(ExceptionHandlerTarget::parse(target.name()).ok(), Some(target));
    }
}

#[test]
fn unknown_exception_name_is_rejected() {
    let d = ExceptionHandlerTarget::parse("Reset").err().unwrap();
    assert_eq!(d.violation, Violation::InvalidExceptionName);
    assert_eq!(d.site, Site::ArgumentToken(0));
    assert_eq!(d.subject, "Reset");
    assert_eq!(d.message(), "invalid exception name `Reset`");
}

#[test]
fn rules_of_the_kinds() {
    let entry = HandlerKind::EntryPoint.rule();
    assert_eq!(entry.injection, Injection::Nothing);
    assert!(entry.static_resources);
    assert!(entry.trampoline_diverges);
    assert!(!entry.marker_required);

    let default = HandlerKind::DefaultHandler.rule();
    assert_eq!(default.injection, Injection::InterruptNumber);
    assert!(default.marker_required);

    let hard_fault = HandlerKind::HardFault.rule();
    assert_eq!(hard_fault.injection, Injection::ExceptionFrame);
    assert_eq!(hard_fault.returns, ReturnRule::Never);
    assert!(hard_fault.marker_required);

    let nmi = HandlerKind::NonMaskableInt.rule();
    assert_eq!(nmi.injection, Injection::Nothing);
    assert!(nmi.marker_required);

    let other = HandlerKind::OtherException(ExceptionHandlerTarget::SysTick).rule();
    assert!(!other.marker_required);
    assert!(!other.static_resources);
    assert_eq!(other.returns, ReturnRule::UnitOrNever);

    let interrupt = HandlerKind::Interrupt.rule();
    assert!(!interrupt.marker_required);
    assert!(!interrupt.static_resources);
}
