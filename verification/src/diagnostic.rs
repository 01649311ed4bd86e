//! Build-time diagnostics: which clause of a contract a declaration breaks,
//! and the construct the message is to be attached to.

use vstd::prelude::*;
use vstd::string::StringExecFns;

verus! {

/// The clause that a rejected declaration breaks.
#[derive(Clone, Copy, Debug, PartialEq, Eq, Structural)]
pub enum Violation {
    /// The attribute was given arguments and accepts none.
    UnexpectedArguments,
    /// The arguments do not begin with a name.
    ExpectedIdentifier,
    /// A token that nothing in the arguments accounts for.
    UnexpectedToken,
    /// The exception attribute names no known exception.
    InvalidExceptionName,
    /// A hazardous exception is defined without the safety marker.
    UnsafeToHandle,
    /// The pre-init attribute lacks its safety marker.
    MissingSafetyMarker,
    /// The interrupt path has fewer than two segments.
    PathTooShort,
    /// A segment of the interrupt path carries generic arguments.
    PathArguments,
    /// The function is `async`.
    Async,
    /// The function is variadic.
    Variadic,
    /// The function has generic parameters.
    Generic,
    /// The function has a where-clause.
    WhereClause,
    /// The function has a `self` parameter.
    Receiver,
    /// A parameter has no attribute that denotes its role.
    MissingRole,
    /// A parameter has more than one attribute that denotes its role.
    MultipleRoles,
    /// `#[irqn]` was given arguments.
    IrqnArguments,
    /// `#[exception_frame]` was given arguments.
    ExceptionFrameArguments,
    /// `#[init(..)]` does not hold one expression in parentheses.
    InvalidInitializer,
    /// A resource parameter names a lifetime other than `'static`.
    ExplicitLifetime,
    /// A resource parameter is not a mutable reference.
    ResourceType,
    /// A resource asks for `'static` where the handler is entered repeatedly.
    StaticResource,
    /// An interrupt-number parameter on a handler that has none.
    IrqnNotAllowed,
    /// An exception-frame parameter on a handler that has none.
    ExceptionFrameNotAllowed,
    /// A resource parameter on a handler that takes only its injected
    /// argument.
    ResourceNotAllowed,
    /// The handler does not take exactly the one injected parameter.
    Arity,
    /// The interrupt-number parameter is not an `i16`.
    IrqnType,
    /// The exception-frame parameter is not a plain shared reference.
    ExceptionFrameType,
    /// The function returns a value.
    ReturnType,
    /// The function may return, and a handler of its kind must not.
    MustDiverge,
    /// The pre-init function is not a plain `fn()`.
    PreInitSignature,
    /// An attribute that may not stand on an entry point.
    EntryAttribute,
    /// An attribute that may not stand on an exception handler.
    ExceptionAttribute,
    /// An attribute that may not stand on an interrupt handler.
    InterruptAttribute,
    /// An attribute that may not stand on a pre-init function.
    PreInitAttribute,
    /// Two `static mut` items of one name at the top of a body.
    DuplicateStatic,
}

/// The construct a diagnostic points at.
#[derive(Clone, Copy, Debug, PartialEq, Eq, Structural)]
pub enum Site {
    /// The place where the attribute was applied.
    CallSite,
    /// The arguments of the handler attribute.
    Arguments,
    /// The token of the arguments with this index.
    ArgumentToken(usize),
    /// The whole function.
    Function,
    /// The `async` keyword.
    Asyncness,
    /// The dots of a variadic parameter list.
    Variadic,
    /// The generic parameter list.
    Generics,
    /// The where-clause.
    WhereClause,
    /// The return type.
    Output,
    /// The function's attribute with this index.
    FunctionAttribute(usize),
    /// The parameter with this index.
    Parameter(usize),
    /// The type of the parameter with this index.
    ParameterType(usize),
    /// The lifetime in the type of the parameter with this index.
    ParameterLifetime(usize),
    /// The role attribute of the parameter with this index.
    ParameterAttribute(usize),
    /// The arguments of the role attribute of the parameter with this
    /// index.
    ParameterAttributeArguments(usize),
    /// What the reference that is the type of the parameter with this index
    /// refers to.
    ParameterReferent(usize),
    /// The name of the `static` item that is the statement of the body
    /// with this index.
    StaticName(usize),
}

/// A rejected declaration: the clause, the place, and the name that the
/// message quotes, if it quotes one.
pub struct Diagnostic {
    pub violation: Violation,
    pub site: Site,
    pub subject: String,
}

pub struct DiagnosticView {
    pub violation: Violation,
    pub site: Site,
    pub subject: Seq<char>,
}

impl View for Diagnostic {
    type V = DiagnosticView;

    open spec fn view(&self) -> DiagnosticView {
        DiagnosticView { violation: self.violation, site: self.site, subject: self.subject@ }
    }
}

/// The failure that a result carries, if any.
pub open spec fn failure<T>(result: Result<T, Diagnostic>) -> Option<DiagnosticView> {
    match result {
        Ok(_) => None,
        Err(d) => Some(d@),
    }
}

/// A failure that quotes no name.
pub open spec fn plain_failure(violation: Violation, site: Site) -> DiagnosticView {
    DiagnosticView { violation, site, subject: Seq::empty() }
}

/// What `check` finds at index `i`.
pub open spec fn failure_at(check: spec_fn(int) -> Option<DiagnosticView>, i: int) -> Option<
    DiagnosticView,
> {
    check(i)
}

/// The first failure that `check` finds among the indices below `n`.
pub open spec fn first_failure(check: spec_fn(int) -> Option<DiagnosticView>, n: nat) -> Option<
    DiagnosticView,
>
    decreases n,
{
    if n == 0 {
        None
    } else {
        match first_failure(check, (n - 1) as nat) {
            Some(d) => Some(d),
            None => check(n - 1),
        }
    }
}

/// A failure at index `k`, with none before it, is the first failure of
/// every longer range.
pub proof fn lemma_first_failure_found(
    check: spec_fn(int) -> Option<DiagnosticView>,
    k: nat,
    n: nat,
)
    requires
        k < n,
        first_failure(check, k) is None,
        check(k as int) is Some,
    ensures
        first_failure(check, n) == check(k as int),
    decreases n,
{
    if n > k + 1 {
        lemma_first_failure_found(check, k, (n - 1) as nat);
    }
}

/// A range has no failure exactly when no index in it fails.
pub proof fn lemma_first_failure_none(check: spec_fn(int) -> Option<DiagnosticView>, n: nat)
    ensures
        first_failure(check, n) is None <==> (forall|i: int|
            0 <= i < n ==> #[trigger] failure_at(check, i) is None),
    decreases n,
{
    if n > 0 {
        lemma_first_failure_none(check, (n - 1) as nat);
        assert(failure_at(check, n - 1) == check(n - 1));
        if first_failure(check, (n - 1) as nat) is Some {
            let i = choose|i: int| 0 <= i < n - 1 && !(#[trigger] failure_at(check, i) is None);
            assert(!(failure_at(check, i) is None));
        }
    }
}

/// The first failure of a range is the failure of its least failing index.
pub proof fn lemma_first_failure_some(check: spec_fn(int) -> Option<DiagnosticView>, n: nat)
    requires
        first_failure(check, n) is Some,
    ensures
        exists|k: int|
            0 <= k < n && #[trigger] failure_at(check, k) == first_failure(check, n)
                && first_failure(check, k as nat) is None,
    decreases n,
{
    if first_failure(check, (n - 1) as nat) is Some {
        lemma_first_failure_some(check, (n - 1) as nat);
        let k = choose|k: int|
            0 <= k < n - 1 && #[trigger] failure_at(check, k) == first_failure(
                check,
                (n - 1) as nat,
            ) && first_failure(check, k as nat) is None;
        assert(0 <= k < n && failure_at(check, k) == first_failure(check, n) && first_failure(
            check,
            k as nat,
        ) is None);
    } else {
        let k = n - 1;
        assert(0 <= k < n && failure_at(check, k) == first_failure(check, n) && first_failure(
            check,
            k as nat,
        ) is None);
    }
}

impl DiagnosticView {
    /// The text shown to the developer.
    pub open spec fn message(self) -> Seq<char> {
        match self.violation {
            Violation::InvalidExceptionName => "invalid exception name `"@ + self.subject + "`"@,
            Violation::UnsafeToHandle => "it is unsafe to handle `"@ + self.subject + "`"@,
            Violation::DuplicateStatic => "the name `"@ + self.subject
                + "` is defined multiple times"@,
            other => other.text(),
        }
    }
}

impl Violation {
    /// The fixed part of the message for this clause.
    pub open spec fn text(self) -> Seq<char> {
        match self {
            Violation::UnexpectedArguments => "this attribute accepts no arguments"@,
            Violation::ExpectedIdentifier => "expected identifier"@,
            Violation::UnexpectedToken => "unexpected token"@,
            Violation::InvalidExceptionName => "invalid exception name"@,
            Violation::UnsafeToHandle => "it is unsafe to handle this exception"@,
            Violation::MissingSafetyMarker => "expected `unsafe`"@,
            Violation::PathTooShort => "path must be of the form `Enum::Variant` (just `Variant` is not allowed)"@,
            Violation::PathArguments => "path must not contain type, lifetime, or const parameters"@,
            Violation::Async => "interrupt and exception handlers must not be `async`"@,
            Violation::Variadic => "interrupt and exception handlers must not be variadic"@,
            Violation::Generic => "interrupt and exception handlers must not be generic"@,
            Violation::WhereClause => "interrupt and exception handlers must not have where-clauses"@,
            Violation::Receiver => "interrupt and exception handlers must not have a `self` parameter"@,
            Violation::MissingRole => "handler parameters must have an attribute denoting their type (try `#[init(<initial value>)]`)"@,
            Violation::MultipleRoles => "only one attribute allowed on this parameter"@,
            Violation::IrqnArguments => "`#[irqn]` does not take arguments"@,
            Violation::ExceptionFrameArguments => "`#[exception_frame]` does not take arguments"@,
            Violation::InvalidInitializer => "`#[init(..)]` takes one initializer expression in parentheses"@,
            Violation::ExplicitLifetime => "explicit lifetime annotations besides `'static` are not allowed on resource parameters"@,
            Violation::ResourceType => "resource parameters must have type `&mut T`"@,
            Violation::StaticResource => "this resource cannot use the `'static` lifetime"@,
            Violation::IrqnNotAllowed => "`#[irqn]` is not allowed on this handler"@,
            Violation::ExceptionFrameNotAllowed => "`#[exception_frame]` is not allowed on this handler"@,
            Violation::ResourceNotAllowed => "`#[init(..)]` is not allowed on this handler"@,
            Violation::Arity => "this handler must take exactly one parameter"@,
            Violation::IrqnType => "the `#[irqn]` parameter must have type `i16`"@,
            Violation::ExceptionFrameType => "the `#[exception_frame]` parameter must have type `&ExceptionFrame`"@,
            Violation::ReturnType => "this handler must not return a value"@,
            Violation::MustDiverge => "this handler must never return: its return type must be `!`"@,
            Violation::PreInitSignature => "`#[pre_init]` function must have signature `fn()`"@,
            Violation::EntryAttribute => "this attribute is not allowed on a cortex-m-rt entry point"@,
            Violation::ExceptionAttribute => "this attribute is not allowed on an exception handler controlled by cortex-m-rt"@,
            Violation::InterruptAttribute => "this attribute is not allowed on an interrupt handler controlled by cortex-m-rt"@,
            Violation::PreInitAttribute => "this attribute is not allowed on a pre-init controlled by cortex-m-rt"@,
            Violation::DuplicateStatic => "a name is defined multiple times"@,
        }
    }

    /// The fixed part of the message for this clause.
    pub fn description(self) -> (text: &'static str)
        ensures
            text@ == self.text(),
    {
        match self {
            Violation::UnexpectedArguments => "this attribute accepts no arguments",
            Violation::ExpectedIdentifier => "expected identifier",
            Violation::UnexpectedToken => "unexpected token",
            Violation::InvalidExceptionName => "invalid exception name",
            Violation::UnsafeToHandle => "it is unsafe to handle this exception",
            Violation::MissingSafetyMarker => "expected `unsafe`",
            Violation::PathTooShort => "path must be of the form `Enum::Variant` (just `Variant` is not allowed)",
            Violation::PathArguments => "path must not contain type, lifetime, or const parameters",
            Violation::Async => "interrupt and exception handlers must not be `async`",
            Violation::Variadic => "interrupt and exception handlers must not be variadic",
            Violation::Generic => "interrupt and exception handlers must not be generic",
            Violation::WhereClause => "interrupt and exception handlers must not have where-clauses",
            Violation::Receiver => "interrupt and exception handlers must not have a `self` parameter",
            Violation::MissingRole => "handler parameters must have an attribute denoting their type (try `#[init(<initial value>)]`)",
            Violation::MultipleRoles => "only one attribute allowed on this parameter",
            Violation::IrqnArguments => "`#[irqn]` does not take arguments",
            Violation::ExceptionFrameArguments => "`#[exception_frame]` does not take arguments",
            Violation::InvalidInitializer => "`#[init(..)]` takes one initializer expression in parentheses",
            Violation::ExplicitLifetime => "explicit lifetime annotations besides `'static` are not allowed on resource parameters",
            Violation::ResourceType => "resource parameters must have type `&mut T`",
            Violation::StaticResource => "this resource cannot use the `'static` lifetime",
            Violation::IrqnNotAllowed => "`#[irqn]` is not allowed on this handler",
            Violation::ExceptionFrameNotAllowed => "`#[exception_frame]` is not allowed on this handler",
            Violation::ResourceNotAllowed => "`#[init(..)]` is not allowed on this handler",
            Violation::Arity => "this handler must take exactly one parameter",
            Violation::IrqnType => "the `#[irqn]` parameter must have type `i16`",
            Violation::ExceptionFrameType => "the `#[exception_frame]` parameter must have type `&ExceptionFrame`",
            Violation::ReturnType => "this handler must not return a value",
            Violation::MustDiverge => "this handler must never return: its return type must be `!`",
            Violation::PreInitSignature => "`#[pre_init]` function must have signature `fn()`",
            Violation::EntryAttribute => "this attribute is not allowed on a cortex-m-rt entry point",
            Violation::ExceptionAttribute => "this attribute is not allowed on an exception handler controlled by cortex-m-rt",
            Violation::InterruptAttribute => "this attribute is not allowed on an interrupt handler controlled by cortex-m-rt",
            Violation::PreInitAttribute => "this attribute is not allowed on a pre-init controlled by cortex-m-rt",
            Violation::DuplicateStatic => "a name is defined multiple times",
        }
    }
}

impl Diagnostic {
    /// A diagnostic that quotes no name.
    pub fn new(violation: Violation, site: Site) -> (d: Diagnostic)
        ensures
            d@ == plain_failure(violation, site),
    {
        Diagnostic { violation, site, subject: String::new() }
    }

    /// A diagnostic whose message quotes `subject`.
    pub fn naming(violation: Violation, site: Site, subject: &str) -> (d: Diagnostic)
        ensures
            d@ == (DiagnosticView { violation, site, subject: subject@ }),
    {
        Diagnostic { violation, site, subject: String::from_str(subject) }
    }

    /// The text shown to the developer.
    pub fn message(&self) -> (text: String)
        ensures
            text@ == self@.message(),
    {
        match self.violation {
            Violation::InvalidExceptionName => {
                let mut text = String::from_str("invalid exception name `");
                text.append(self.subject.as_str());
                text.append("`");
                text
            },
            Violation::UnsafeToHandle => {
                let mut text = String::from_str("it is unsafe to handle `");
                text.append(self.subject.as_str());
                text.append("`");
                text
            },
            Violation::DuplicateStatic => {
                let mut text = String::from_str("the name `");
                text.append(self.subject.as_str());
                text.append("` is defined multiple times");
                text
            },
            other => String::from_str(other.description()),
        }
    }
}

} // verus!
