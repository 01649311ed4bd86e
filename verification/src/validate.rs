//! Holding a declaration to the contract of its kind.

use vstd::prelude::*;
use crate::catalog::{HandlerKind, Injection, ReturnRule};
use crate::diagnostic::{
    failure, first_failure, lemma_first_failure_found, plain_failure, Diagnostic, DiagnosticView,
    Site, Violation,
};
use crate::input::{
    base_failure, extract_handler_params, lemma_filter_next, params_of, parse_handler_base,
    stripped, HandlerParam,
    HandlerParamKind, HandlerParamKindView, HandlerParamView,
};
use crate::syntax::{text_is, views, Attribute, AttributeView, HandlerFn, ParamType, ReturnType};

verus! {

/// The attribute whose function is being checked.
#[derive(Clone, Copy, Debug, PartialEq, Eq, Structural)]
pub enum WhiteListCaller {
    Entry,
    Exception,
    Interrupt,
    PreInit,
}

impl WhiteListCaller {
    /// The clause that an attribute outside the list breaks.
    pub open spec fn spec_violation(self) -> Violation {
        match self {
            WhiteListCaller::Entry => Violation::EntryAttribute,
            WhiteListCaller::Exception => Violation::ExceptionAttribute,
            WhiteListCaller::Interrupt => Violation::InterruptAttribute,
            WhiteListCaller::PreInit => Violation::PreInitAttribute,
        }
    }

    /// The clause that an attribute outside the list breaks.
    pub fn violation(self) -> (violation: Violation)
        ensures
            violation == self.spec_violation(),
    {
        match self {
            WhiteListCaller::Entry => Violation::EntryAttribute,
            WhiteListCaller::Exception => Violation::ExceptionAttribute,
            WhiteListCaller::Interrupt => Violation::InterruptAttribute,
            WhiteListCaller::PreInit => Violation::PreInitAttribute,
        }
    }
}

/// The attributes that pass through to the generated function: outer
/// attributes for documentation, link placement, conditional compilation
/// and lint control.
pub open spec fn passes_through(attr: AttributeView) -> bool {
    attr.outer && (attr.is_ident("doc"@) || attr.is_ident("link_section"@) || attr.is_ident(
        "cfg"@,
    ) || attr.is_ident("allow"@) || attr.is_ident("warn"@) || attr.is_ident("deny"@)
        || attr.is_ident("forbid"@) || attr.is_ident("cold"@))
}

/// Whether `attr` may stand on a handler.
pub fn is_pass_through(attr: &Attribute) -> (allowed: bool)
    ensures
        allowed == passes_through(attr@),
{
    attr.outer && (attr.is_ident("doc") || attr.is_ident("link_section") || attr.is_ident("cfg")
        || attr.is_ident("allow") || attr.is_ident("warn") || attr.is_ident("deny")
        || attr.is_ident("forbid") || attr.is_ident("cold"))
}

/// The attributes among `attrs` that pass through to the trampoline, in
/// order.
pub open spec fn passing(attrs: Seq<Attribute>) -> Seq<Attribute> {
    attrs.filter(|a: Attribute| passes_through(a@))
}

/// The attributes among `attrs` that pass through to the trampoline.
pub fn pass_through_attributes(attrs: &Vec<Attribute>) -> (kept: Vec<Attribute>)
    ensures
        kept@ == passing(attrs@),
{
    let mut kept: Vec<Attribute> = Vec::new();
    let mut i: usize = 0;
    while i < attrs.len()
        invariant
            i <= attrs.len(),
            kept@ == passing(attrs@.take(i as int)),
        decreases attrs.len() - i,
    {
        proof {
            lemma_filter_next(attrs@, |a: Attribute| passes_through(a@), i as int);
        }
        if is_pass_through(&attrs[i]) {
            kept.push(attrs[i].clone());
        }
        i = i + 1;
    }
    assert(attrs@.take(attrs.len() as int) =~= attrs@);
    kept
}

/// Where no attribute is objected to, all of them pass through.
pub proof fn lemma_listed_attributes_pass(attrs: Seq<Attribute>, caller: WhiteListCaller)
    requires
        whitelist_failure(attrs, caller) is None,
    ensures
        passing(attrs) == attrs,
{
    crate::diagnostic::lemma_first_failure_none(whitelist_check(attrs, caller), attrs.len());
    assert forall|i: int| 0 <= i < attrs.len() implies passes_through(#[trigger] attrs[i]@) by {
        assert(crate::diagnostic::failure_at(whitelist_check(attrs, caller), i) is None);
    }
    lemma_filter_all(attrs, |a: Attribute| passes_through(a@), attrs.len() as int);
    assert(attrs.take(attrs.len() as int) =~= attrs);
}

/// Filtering items that are all kept changes nothing.
pub proof fn lemma_filter_all<A>(items: Seq<A>, keep: spec_fn(A) -> bool, n: int)
    requires
        0 <= n <= items.len(),
        forall|i: int| 0 <= i < n ==> keep(#[trigger] items[i]),
    ensures
        items.take(n).filter(keep) == items.take(n),
    decreases n,
{
    reveal(Seq::filter);
    if n > 0 {
        lemma_filter_all(items, keep, n - 1);
        lemma_filter_next(items, keep, n - 1);
        assert(items.take(n - 1).push(items[n - 1]) =~= items.take(n));
    } else {
        assert(items.take(0).filter(keep) =~= items.take(0));
    }
}

/// The objection to the function's attribute number `i`, if there is one.
pub open spec fn whitelist_check(attrs: Seq<Attribute>, caller: WhiteListCaller) -> spec_fn(
    int,
) -> Option<DiagnosticView> {
    |i: int|
        if passes_through(attrs[i]@) {
            None
        } else {
            Some(plain_failure(caller.spec_violation(), Site::FunctionAttribute(i as usize)))
        }
}

/// The objection to the first attribute that may not stand on a handler.
pub open spec fn whitelist_failure(attrs: Seq<Attribute>, caller: WhiteListCaller) -> Option<
    DiagnosticView,
> {
    first_failure(whitelist_check(attrs, caller), attrs.len())
}

/// Rejects the first attribute that does not pass through.
pub fn check_attr_whitelist(attrs: &Vec<Attribute>, caller: WhiteListCaller) -> (result: Result<
    (),
    Diagnostic,
>)
    ensures
        failure(result) == whitelist_failure(attrs@, caller),
{
    let mut i: usize = 0;
    while i < attrs.len()
        invariant
            i <= attrs.len(),
            first_failure(whitelist_check(attrs@, caller), i as nat) is None,
        decreases attrs.len() - i,
    {
        if !is_pass_through(&attrs[i]) {
            proof {
                lemma_first_failure_found(
                    whitelist_check(attrs@, caller),
                    i as nat,
                    attrs@.len(),
                );
            }
            return Err(Diagnostic::new(caller.violation(), Site::FunctionAttribute(i)));
        }
        i = i + 1;
    }
    Ok(())
}

/// Whether `ty` is written `i16`.
pub open spec fn is_i16(ty: ParamType) -> bool {
    ty matches ParamType::Other { text } && text@ == "i16"@
}

/// Whether `ty` is a shared reference without a lifetime.
pub open spec fn is_plain_reference(ty: ParamType) -> bool {
    ty matches ParamType::Reference { lifetime: None, mutable: false, .. }
}

/// The objection of a kind with this injection to parameter number
/// `index`: a kind without an injected parameter takes resources only; a
/// kind with one takes only that, with the type that is passed.
pub open spec fn role_failure(injection: Injection, param: HandlerParamView, index: usize)
    -> Option<DiagnosticView> {
    match param.kind {
        HandlerParamKindView::Resource(_) => if injection == Injection::Nothing {
            None
        } else {
            Some(plain_failure(Violation::ResourceNotAllowed, Site::ParameterAttribute(index)))
        },
        HandlerParamKindView::Irqn => if injection != Injection::InterruptNumber {
            Some(plain_failure(Violation::IrqnNotAllowed, Site::ParameterAttribute(index)))
        } else if is_i16(param.ty) {
            None
        } else {
            Some(plain_failure(Violation::IrqnType, Site::ParameterType(index)))
        },
        HandlerParamKindView::ExceptionFrame => if injection != Injection::ExceptionFrame {
            Some(
                plain_failure(Violation::ExceptionFrameNotAllowed, Site::ParameterAttribute(index)),
            )
        } else if is_plain_reference(param.ty) {
            None
        } else {
            Some(plain_failure(Violation::ExceptionFrameType, Site::ParameterType(index)))
        },
    }
}

/// The objection to the role of parameter number `i`.
pub open spec fn role_check(injection: Injection, params: Seq<HandlerParamView>) -> spec_fn(
    int,
) -> Option<DiagnosticView> {
    |i: int| role_failure(injection, params[i], i as usize)
}

/// The objection to the parameter list as a whole: a kind with an injected
/// parameter takes exactly one parameter; then every parameter must have a
/// role that the kind admits.
pub open spec fn roles_failure(injection: Injection, params: Seq<HandlerParamView>) -> Option<
    DiagnosticView,
> {
    if injection != Injection::Nothing && params.len() != 1 {
        Some(plain_failure(Violation::Arity, Site::Function))
    } else {
        first_failure(role_check(injection, params), params.len())
    }
}

/// The objection to parameter number `i` where resources may not be
/// `'static`.
pub open spec fn static_check(params: Seq<HandlerParamView>) -> spec_fn(int) -> Option<
    DiagnosticView,
> {
    |i: int|
        match params[i].kind {
            HandlerParamKindView::Resource(res) => if res.is_static {
                Some(plain_failure(Violation::StaticResource, Site::ParameterReferent(i as usize)))
            } else {
                None
            },
            _ => None,
        }
}

/// The objection to the first `'static` resource.
pub open spec fn static_failure(params: Seq<HandlerParamView>) -> Option<DiagnosticView> {
    first_failure(static_check(params), params.len())
}

/// The objection to the declared return type: no handler returns a value,
/// and some must not return at all. The two are different clauses.
pub open spec fn return_failure(rule: ReturnRule, output: ReturnType) -> Option<DiagnosticView> {
    match output {
        ReturnType::Never => None,
        ReturnType::Default | ReturnType::Unit => if rule == ReturnRule::UnitOrNever {
            None
        } else {
            Some(plain_failure(Violation::MustDiverge, Site::Output))
        },
        ReturnType::Other { .. } => Some(plain_failure(Violation::ReturnType, Site::Output)),
    }
}

/// The first clause of the contract of `kind` that a declaration with
/// these attributes, parameters and return type breaks: the safety marker,
/// the attributes where the kind admits only those that pass through, the
/// roles of the parameters, `'static` resources, the return type.
pub open spec fn contract_failure(
    kind: HandlerKind,
    marker: bool,
    attrs: Seq<Attribute>,
    output: ReturnType,
    params: Seq<HandlerParamView>,
) -> Option<DiagnosticView> {
    let rule = kind.spec_rule();
    if rule.marker_required && !marker {
        Some(
            DiagnosticView {
                violation: Violation::UnsafeToHandle,
                site: Site::Arguments,
                subject: kind.vector(),
            },
        )
    } else if rule.listed_attributes && whitelist_failure(attrs, WhiteListCaller::Exception)
        is Some {
        whitelist_failure(attrs, WhiteListCaller::Exception)
    } else if roles_failure(rule.injection, params) is Some {
        roles_failure(rule.injection, params)
    } else if !rule.static_resources && static_failure(params) is Some {
        static_failure(params)
    } else {
        return_failure(rule.returns, output)
    }
}

/// The function as it is left once its parameters have been read: the
/// same but for the role attributes, which are gone from its parameters.
pub open spec fn residual(before: HandlerFn, after: HandlerFn) -> bool {
    &&& after == (HandlerFn { inputs: after.inputs, ..before })
    &&& after.inputs@.len() == before.inputs@.len()
    &&& forall|i: int|
        0 <= i < before.inputs@.len() ==> stripped(#[trigger] before.inputs@[i], after.inputs@[i])
}

/// A handler function with what was read from its attribute and its
/// parameters.
pub struct HandlerDeclaration {
    pub kind: HandlerKind,
    /// Whether the explicit safety marker was given.
    pub marker: bool,
    /// The function, without the role attributes of its parameters.
    pub func: HandlerFn,
    /// The parameters, in the order of declaration.
    pub params: Vec<HandlerParam>,
}

impl HandlerDeclaration {
    /// The parameters read from `func`, or the reason why it cannot be a
    /// handler of any kind.
    pub open spec fn parsed(func: HandlerFn) -> Result<Seq<HandlerParamView>, DiagnosticView> {
        match base_failure(func) {
            Some(d) => Err(d),
            None => params_of(func.inputs@),
        }
    }

    /// What `declare` objects to, if anything.
    pub open spec fn declared_failure(kind: HandlerKind, marker: bool, func: HandlerFn) -> Option<
        DiagnosticView,
    > {
        match Self::parsed(func) {
            Err(d) => Some(d),
            Ok(params) => contract_failure(kind, marker, func.attrs@, func.output, params),
        }
    }

    /// Reads `func` as a handler: checks what holds of every handler and
    /// finds the role of each parameter.
    pub fn parse(kind: HandlerKind, marker: bool, func: HandlerFn) -> (result: Result<
        HandlerDeclaration,
        Diagnostic,
    >)
        ensures
            match Self::parsed(func) {
                Ok(params) => result matches Ok(decl) && decl.kind == kind && decl.marker == marker
                    && views(decl.params@) == params && residual(func, decl.func),
                Err(d) => result matches Err(e) && e@ == d,
            },
    {
        let mut func = func;
        match parse_handler_base(&func) {
            Err(d) => {
                return Err(d);
            },
            Ok(()) => {},
        }
        match extract_handler_params(&mut func) {
            Err(d) => Err(d),
            Ok(params) => Ok(HandlerDeclaration { kind, marker, func, params }),
        }
    }

    /// Rejects the first parameter whose role the kind does not admit, or
    /// a parameter list of the wrong length.
    pub fn check_roles(&self) -> (result: Result<(), Diagnostic>)
        ensures
            failure(result) == roles_failure(self.kind.spec_rule().injection, views(self.params@)),
    {
        let injection = self.kind.rule().injection;
        if injection != Injection::Nothing && self.params.len() != 1 {
            return Err(Diagnostic::new(Violation::Arity, Site::Function));
        }
        let ghost check = role_check(injection, views(self.params@));
        let mut i: usize = 0;
        while i < self.params.len()
            invariant
                i <= self.params.len(),
                injection == self.kind.spec_rule().injection,
                injection == Injection::Nothing || self.params.len() == 1,
                check == role_check(injection, views(self.params@)),
                first_failure(check, i as nat) is None,
            decreases self.params.len() - i,
        {
            let param = &self.params[i];
            assert(views(self.params@)[i as int] == param@);
            let violation = match &param.kind {
                HandlerParamKind::Resource(_) => {
                    if injection == Injection::Nothing {
                        None
                    } else {
                        Some((Violation::ResourceNotAllowed, Site::ParameterAttribute(i)))
                    }
                },
                HandlerParamKind::Irqn => {
                    if injection != Injection::InterruptNumber {
                        Some((Violation::IrqnNotAllowed, Site::ParameterAttribute(i)))
                    } else if type_is_i16(&param.ty) {
                        None
                    } else {
                        Some((Violation::IrqnType, Site::ParameterType(i)))
                    }
                },
                HandlerParamKind::ExceptionFrame => {
                    if injection != Injection::ExceptionFrame {
                        Some((Violation::ExceptionFrameNotAllowed, Site::ParameterAttribute(i)))
                    } else if type_is_plain_reference(&param.ty) {
                        None
                    } else {
                        Some((Violation::ExceptionFrameType, Site::ParameterType(i)))
                    }
                },
            };
            if let Some((violation, site)) = violation {
                proof {
                    lemma_first_failure_found(check, i as nat, self.params@.len());
                }
                return Err(Diagnostic::new(violation, site));
            }
            i = i + 1;
        }
        Ok(())
    }

    /// Rejects the first resource that is borrowed for `'static`.
    pub fn reject_static_resources(&self) -> (result: Result<(), Diagnostic>)
        ensures
            failure(result) == static_failure(views(self.params@)),
    {
        let ghost check = static_check(views(self.params@));
        let mut i: usize = 0;
        while i < self.params.len()
            invariant
                i <= self.params.len(),
                check == static_check(views(self.params@)),
                first_failure(check, i as nat) is None,
            decreases self.params.len() - i,
        {
            assert(views(self.params@)[i as int] == self.params@[i as int]@);
            if let HandlerParamKind::Resource(res) = &self.params[i].kind {
                match res.reject_static_resource(i) {
                    Err(d) => {
                        proof {
                            lemma_first_failure_found(check, i as nat, self.params@.len());
                        }
                        return Err(d);
                    },
                    Ok(()) => {},
                }
            }
            i = i + 1;
        }
        Ok(())
    }

    /// Rejects a return type that the kind does not admit.
    pub fn check_return(&self) -> (result: Result<(), Diagnostic>)
        ensures
            failure(result) == return_failure(self.kind.spec_rule().returns, self.func.output),
    {
        match &self.func.output {
            ReturnType::Never => Ok(()),
            ReturnType::Default | ReturnType::Unit => {
                if self.kind.rule().returns == ReturnRule::UnitOrNever {
                    Ok(())
                } else {
                    Err(Diagnostic::new(Violation::MustDiverge, Site::Output))
                }
            },
            ReturnType::Other { .. } => Err(Diagnostic::new(Violation::ReturnType, Site::Output)),
        }
    }

    /// Holds the declaration to the contract of its kind, and names the
    /// first clause that it breaks.
    pub fn validate(&self) -> (result: Result<(), Diagnostic>)
        ensures
            failure(result) == contract_failure(
                self.kind,
                self.marker,
                self.func.attrs@,
                self.func.output,
                views(self.params@),
            ),
    {
        let rule = self.kind.rule();
        if rule.marker_required && !self.marker {
            return Err(
                Diagnostic::naming(
                    Violation::UnsafeToHandle,
                    Site::Arguments,
                    self.kind.vector_name(),
                ),
            );
        }
        if rule.listed_attributes {
            match check_attr_whitelist(&self.func.attrs, WhiteListCaller::Exception) {
                Err(d) => {
                    return Err(d);
                },
                Ok(()) => {},
            }
        }
        match self.check_roles() {
            Err(d) => {
                return Err(d);
            },
            Ok(()) => {},
        }
        if !rule.static_resources {
            match self.reject_static_resources() {
                Err(d) => {
                    return Err(d);
                },
                Ok(()) => {},
            }
        }
        self.check_return()
    }

    /// Reads `func` as a handler of `kind` and holds it to the contract of
    /// that kind.
    pub fn declare(kind: HandlerKind, marker: bool, func: HandlerFn) -> (result: Result<
        HandlerDeclaration,
        Diagnostic,
    >)
        ensures
            failure(result) == Self::declared_failure(kind, marker, func),
            result matches Ok(decl) ==> decl.kind == kind && decl.marker == marker && Ok::<
                Seq<HandlerParamView>,
                DiagnosticView,
            >(views(decl.params@)) == Self::parsed(func) && residual(func, decl.func),
    {
        let decl = match Self::parse(kind, marker, func) {
            Err(d) => {
                return Err(d);
            },
            Ok(decl) => decl,
        };
        match decl.validate() {
            Err(d) => Err(d),
            Ok(()) => Ok(decl),
        }
    }
}

/// Whether `ty` is written `i16`.
pub fn type_is_i16(ty: &ParamType) -> (same: bool)
    ensures
        same == is_i16(*ty),
{
    match ty {
        ParamType::Other { text } => text_is(text, "i16"),
        _ => false,
    }
}

/// Whether `ty` is a shared reference without a lifetime.
pub fn type_is_plain_reference(ty: &ParamType) -> (plain: bool)
    ensures
        plain == is_plain_reference(*ty),
{
    match ty {
        ParamType::Reference { lifetime: None, mutable: false, .. } => true,
        _ => false,
    }
}

} // verus!
