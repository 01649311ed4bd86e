//! The fixed catalog of handler kinds: the exceptions that can be overridden,
//! which of them are hazardous to define, and the signature that each kind of
//! handler must have.

use vstd::prelude::*;
use crate::diagnostic::{Diagnostic, DiagnosticView, Site, Violation};
use crate::syntax::same_text;

verus! {

/// The exceptions that a handler can be registered for, and the catch-all
/// `DefaultHandler`.
#[derive(Clone, Copy, Debug, PartialEq, Eq, Structural)]
pub enum ExceptionHandlerTarget {
    DefaultHandler,
    NonMaskableInt,
    HardFault,
    MemoryManagement,
    BusFault,
    UsageFault,
    SecureFault,
    SVCall,
    DebugMonitor,
    PendSV,
    SysTick,
}

impl ExceptionHandlerTarget {
    /// The name of the vector, which is also the name the attribute takes.
    pub open spec fn spec_name(self) -> Seq<char> {
        match self {
            Self::DefaultHandler => "DefaultHandler"@,
            Self::NonMaskableInt => "NonMaskableInt"@,
            Self::HardFault => "HardFault"@,
            Self::MemoryManagement => "MemoryManagement"@,
            Self::BusFault => "BusFault"@,
            Self::UsageFault => "UsageFault"@,
            Self::SecureFault => "SecureFault"@,
            Self::SVCall => "SVCall"@,
            Self::DebugMonitor => "DebugMonitor"@,
            Self::PendSV => "PendSV"@,
            Self::SysTick => "SysTick"@,
        }
    }

    /// The target that `name` denotes, if it denotes one.
    pub open spec fn named(name: Seq<char>) -> Option<Self> {
        if name == "DefaultHandler"@ {
            Some(Self::DefaultHandler)
        } else if name == "NonMaskableInt"@ {
            Some(Self::NonMaskableInt)
        } else if name == "HardFault"@ {
            Some(Self::HardFault)
        } else if name == "MemoryManagement"@ {
            Some(Self::MemoryManagement)
        } else if name == "BusFault"@ {
            Some(Self::BusFault)
        } else if name == "UsageFault"@ {
            Some(Self::UsageFault)
        } else if name == "SecureFault"@ {
            Some(Self::SecureFault)
        } else if name == "SVCall"@ {
            Some(Self::SVCall)
        } else if name == "DebugMonitor"@ {
            Some(Self::DebugMonitor)
        } else if name == "PendSV"@ {
            Some(Self::PendSV)
        } else if name == "SysTick"@ {
            Some(Self::SysTick)
        } else {
            None
        }
    }

    /// Whether a handler for this target can preempt critical sections: the
    /// non-maskable interrupt, the hard fault, and the default handler, which
    /// serves the non-maskable interrupt where no handler of its own is set.
    pub open spec fn hazardous(self) -> bool {
        self == Self::NonMaskableInt || self == Self::HardFault || self == Self::DefaultHandler
    }

    /// What `parse` answers for `name`.
    pub open spec fn parsed(name: Seq<char>) -> Result<Self, DiagnosticView> {
        match Self::named(name) {
            Some(target) => Ok(target),
            None => Err(
                DiagnosticView {
                    violation: Violation::InvalidExceptionName,
                    site: Site::ArgumentToken(0),
                    subject: name,
                },
            ),
        }
    }

    /// The vector's name.
    pub fn name(self) -> (text: &'static str)
        ensures
            text@ == self.spec_name(),
    {
        match self {
            Self::DefaultHandler => "DefaultHandler",
            Self::NonMaskableInt => "NonMaskableInt",
            Self::HardFault => "HardFault",
            Self::MemoryManagement => "MemoryManagement",
            Self::BusFault => "BusFault",
            Self::UsageFault => "UsageFault",
            Self::SecureFault => "SecureFault",
            Self::SVCall => "SVCall",
            Self::DebugMonitor => "DebugMonitor",
            Self::PendSV => "PendSV",
            Self::SysTick => "SysTick",
        }
    }

    /// Reads the name given to the exception attribute, its first token.
    pub fn parse(name: &str) -> (result: Result<Self, Diagnostic>)
        ensures
            match Self::parsed(name@) {
                Ok(target) => result == Ok::<Self, Diagnostic>(target),
                Err(d) => result is Err && result->Err_0@ == d,
            },
    {
        if same_text(name, "DefaultHandler") {
            Ok(Self::DefaultHandler)
        } else if same_text(name, "NonMaskableInt") {
            Ok(Self::NonMaskableInt)
        } else if same_text(name, "HardFault") {
            Ok(Self::HardFault)
        } else if same_text(name, "MemoryManagement") {
            Ok(Self::MemoryManagement)
        } else if same_text(name, "BusFault") {
            Ok(Self::BusFault)
        } else if same_text(name, "UsageFault") {
            Ok(Self::UsageFault)
        } else if same_text(name, "SecureFault") {
            Ok(Self::SecureFault)
        } else if same_text(name, "SVCall") {
            Ok(Self::SVCall)
        } else if same_text(name, "DebugMonitor") {
            Ok(Self::DebugMonitor)
        } else if same_text(name, "PendSV") {
            Ok(Self::PendSV)
        } else if same_text(name, "SysTick") {
            Ok(Self::SysTick)
        } else {
            Err(Diagnostic::naming(Violation::InvalidExceptionName, Site::ArgumentToken(0), name))
        }
    }

    /// Some exceptions are unsafe to handle since they cannot be masked,
    /// which breaks critical sections.
    pub fn is_unsafe_to_define(self) -> (hazardous: bool)
        ensures
            hazardous == self.hazardous(),
    {
        match self {
            Self::NonMaskableInt | Self::HardFault | Self::DefaultHandler => true,
            Self::MemoryManagement
            | Self::BusFault
            | Self::UsageFault
            | Self::SecureFault
            | Self::SVCall
            | Self::DebugMonitor
            | Self::PendSV
            | Self::SysTick => false,
        }
    }

    /// The kind of handler that serves this target.
    pub fn kind(self) -> (kind: HandlerKind)
        ensures
            kind == HandlerKind::of_exception(self),
    {
        match self {
            Self::DefaultHandler => HandlerKind::DefaultHandler,
            Self::HardFault => HandlerKind::HardFault,
            Self::NonMaskableInt => HandlerKind::NonMaskableInt,
            other => HandlerKind::OtherException(other),
        }
    }
}

/// A name that denotes a target is the name of that target.
pub proof fn lemma_named_by_its_name(name: Seq<char>)
    ensures
        ExceptionHandlerTarget::named(name) matches Some(target) ==> target.spec_name() == name,
{
}

/// Every target is found again by its own name.
pub proof fn lemma_name_denotes_target(target: ExceptionHandlerTarget)
    ensures
        ExceptionHandlerTarget::named(target.spec_name()) == Some(target),
{
    reveal_strlit("DefaultHandler");
    reveal_strlit("NonMaskableInt");
    reveal_strlit("HardFault");
    reveal_strlit("MemoryManagement");
    reveal_strlit("BusFault");
    reveal_strlit("UsageFault");
    reveal_strlit("SecureFault");
    reveal_strlit("SVCall");
    reveal_strlit("DebugMonitor");
    reveal_strlit("PendSV");
    reveal_strlit("SysTick");
    let name = target.spec_name();
    assert("DefaultHandler"@[0] == 'D' && "DefaultHandler"@[1] == 'e');
    assert("NonMaskableInt"@[0] == 'N');
    assert("HardFault"@[0] == 'H');
    assert("MemoryManagement"@[0] == 'M');
    assert("BusFault"@[0] == 'B');
    assert("UsageFault"@[0] == 'U');
    assert("SecureFault"@[0] == 'S' && "SecureFault"@[1] == 'e');
    assert("SVCall"@[0] == 'S' && "SVCall"@[1] == 'V');
    assert("DebugMonitor"@[0] == 'D' && "DebugMonitor"@[1] == 'e' && "DebugMonitor"@[2] == 'b');
    assert("DefaultHandler"@[2] == 'f');
    assert("PendSV"@[0] == 'P');
    assert("SysTick"@[0] == 'S' && "SysTick"@[1] == 'y');
}

/// What is injected into a handler besides its resources.
#[derive(Clone, Copy, Debug, PartialEq, Eq, Structural)]
pub enum Injection {
    /// Nothing: the handler takes resources only.
    Nothing,
    /// The number of the interrupt being served, as an `i16`.
    InterruptNumber,
    /// A shared reference to the registers stacked on exception entry.
    ExceptionFrame,
}

/// How a handler may end.
#[derive(Clone, Copy, Debug, PartialEq, Eq, Structural)]
pub enum ReturnRule {
    /// It returns nothing, or never returns.
    UnitOrNever,
    /// It never returns.
    Never,
}

/// The kinds of handler.
#[derive(Clone, Copy, Debug, PartialEq, Eq, Structural)]
pub enum HandlerKind {
    /// The process entry point.
    EntryPoint,
    /// The handler of every exception and interrupt without one of its own.
    DefaultHandler,
    /// The hard fault handler.
    HardFault,
    /// The handler of the non-maskable interrupt.
    NonMaskableInt,
    /// The handler of one of the other exceptions.
    OtherException(ExceptionHandlerTarget),
    /// The handler of a device interrupt, named by a path in its attribute.
    Interrupt,
}

/// What a kind of handler asks of a declaration.
#[derive(Clone, Copy, Debug, PartialEq, Eq, Structural)]
pub struct ContractRule {
    /// The one parameter that is not a resource, if the kind has one. A kind
    /// with an injected parameter takes no resources.
    pub injection: Injection,
    /// How the function may end.
    pub returns: ReturnRule,
    /// Whether the explicit safety marker is mandatory.
    pub marker_required: bool,
    /// Whether a resource may be borrowed for `'static`.
    pub static_resources: bool,
    /// Whether the generated trampoline itself never returns.
    pub trampoline_diverges: bool,
    /// Whether the function may carry only the attributes that pass
    /// through to the trampoline.
    pub listed_attributes: bool,
}

impl HandlerKind {
    /// The kind of handler that serves `target`.
    pub open spec fn of_exception(target: ExceptionHandlerTarget) -> HandlerKind {
        match target {
            ExceptionHandlerTarget::DefaultHandler => HandlerKind::DefaultHandler,
            ExceptionHandlerTarget::HardFault => HandlerKind::HardFault,
            ExceptionHandlerTarget::NonMaskableInt => HandlerKind::NonMaskableInt,
            other => HandlerKind::OtherException(other),
        }
    }

    /// The exception that a handler of this kind serves, if it serves one.
    pub open spec fn exception(self) -> Option<ExceptionHandlerTarget> {
        match self {
            HandlerKind::DefaultHandler => Some(ExceptionHandlerTarget::DefaultHandler),
            HandlerKind::HardFault => Some(ExceptionHandlerTarget::HardFault),
            HandlerKind::NonMaskableInt => Some(ExceptionHandlerTarget::NonMaskableInt),
            HandlerKind::OtherException(target) => Some(target),
            HandlerKind::EntryPoint | HandlerKind::Interrupt => None,
        }
    }

    /// The name of the exception that a handler of this kind serves; empty
    /// where it serves none.
    pub open spec fn vector(self) -> Seq<char> {
        match self.exception() {
            Some(target) => target.spec_name(),
            None => Seq::empty(),
        }
    }

    /// The name of the exception that a handler of this kind serves; empty
    /// where it serves none.
    pub fn vector_name(self) -> (name: &'static str)
        ensures
            name@ == self.vector(),
    {
        match self {
            HandlerKind::DefaultHandler => ExceptionHandlerTarget::DefaultHandler.name(),
            HandlerKind::HardFault => ExceptionHandlerTarget::HardFault.name(),
            HandlerKind::NonMaskableInt => ExceptionHandlerTarget::NonMaskableInt.name(),
            HandlerKind::OtherException(target) => target.name(),
            HandlerKind::EntryPoint | HandlerKind::Interrupt => {
                proof {
                    reveal_strlit("");
                }
                assert(""@ =~= Seq::<char>::empty());
                ""
            },
        }
    }

    /// Whether a handler of this kind can preempt critical sections.
    pub open spec fn hazardous(self) -> bool {
        self == HandlerKind::DefaultHandler || self == HandlerKind::HardFault || self
            == HandlerKind::NonMaskableInt
    }

    /// The contract of this kind.
    pub open spec fn spec_rule(self) -> ContractRule {
        match self {
            HandlerKind::EntryPoint => ContractRule {
                injection: Injection::Nothing,
                returns: ReturnRule::UnitOrNever,
                marker_required: false,
                static_resources: true,
                trampoline_diverges: true,
                listed_attributes: false,
            },
            HandlerKind::DefaultHandler => ContractRule {
                injection: Injection::InterruptNumber,
                returns: ReturnRule::UnitOrNever,
                marker_required: true,
                static_resources: false,
                trampoline_diverges: false,
                listed_attributes: true,
            },
            HandlerKind::HardFault => ContractRule {
                injection: Injection::ExceptionFrame,
                returns: ReturnRule::Never,
                marker_required: true,
                static_resources: false,
                trampoline_diverges: true,
                listed_attributes: true,
            },
            HandlerKind::NonMaskableInt => ContractRule {
                injection: Injection::Nothing,
                returns: ReturnRule::UnitOrNever,
                marker_required: true,
                static_resources: false,
                trampoline_diverges: false,
                listed_attributes: true,
            },
            HandlerKind::OtherException(_) => ContractRule {
                injection: Injection::Nothing,
                returns: ReturnRule::UnitOrNever,
                marker_required: false,
                static_resources: false,
                trampoline_diverges: false,
                listed_attributes: true,
            },
            HandlerKind::Interrupt => ContractRule {
                injection: Injection::Nothing,
                returns: ReturnRule::UnitOrNever,
                marker_required: false,
                static_resources: false,
                trampoline_diverges: false,
                listed_attributes: false,
            },
        }
    }

    /// The contract of this kind.
    pub fn rule(self) -> (rule: ContractRule)
        ensures
            rule == self.spec_rule(),
    {
        match self {
            HandlerKind::EntryPoint => ContractRule {
                injection: Injection::Nothing,
                returns: ReturnRule::UnitOrNever,
                marker_required: false,
                static_resources: true,
                trampoline_diverges: true,
                listed_attributes: false,
            },
            HandlerKind::DefaultHandler => ContractRule {
                injection: Injection::InterruptNumber,
                returns: ReturnRule::UnitOrNever,
                marker_required: true,
                static_resources: false,
                trampoline_diverges: false,
                listed_attributes: true,
            },
            HandlerKind::HardFault => ContractRule {
                injection: Injection::ExceptionFrame,
                returns: ReturnRule::Never,
                marker_required: true,
                static_resources: false,
                trampoline_diverges: true,
                listed_attributes: true,
            },
            HandlerKind::NonMaskableInt => ContractRule {
                injection: Injection::Nothing,
                returns: ReturnRule::UnitOrNever,
                marker_required: true,
                static_resources: false,
                trampoline_diverges: false,
                listed_attributes: true,
            },
            HandlerKind::OtherException(_) => ContractRule {
                injection: Injection::Nothing,
                returns: ReturnRule::UnitOrNever,
                marker_required: false,
                static_resources: false,
                trampoline_diverges: false,
                listed_attributes: true,
            },
            HandlerKind::Interrupt => ContractRule {
                injection: Injection::Nothing,
                returns: ReturnRule::UnitOrNever,
                marker_required: false,
                static_resources: false,
                trampoline_diverges: false,
                listed_attributes: false,
            },
        }
    }
}

/// The safety marker is mandatory for exactly the hazardous kinds, and a
/// target is hazardous exactly when the kind that serves it is.
pub proof fn lemma_marker_follows_hazard(target: ExceptionHandlerTarget)
    ensures
        HandlerKind::of_exception(target).spec_rule().marker_required == target.hazardous(),
        HandlerKind::of_exception(target).hazardous() == target.hazardous(),
{
}

} // verus!
