//! The four attributes: entry point, exception, interrupt and pre-init.

use vstd::prelude::*;
use vstd::string::StringExecFns;
use crate::arguments::{texts, ExceptionArgs, InterruptArgs, PreInitArgs};
use crate::catalog::{lemma_named_by_its_name, ExceptionHandlerTarget, HandlerKind, Injection};
use crate::codegen::{
    call_arguments, codegen_exception_handler, codegen_interrupt_handler, codegen_simple_handler,
    lemma_injected_number, link_section_of, number_passed, trampoline_of, Assertion, Expansion,
};
use crate::contract::{
    conforms, keeps, lemma_accepted_iff_conforms, lemma_rejection_names_broken_clause,
};
use crate::diagnostic::{
    failure, failure_at, lemma_first_failure_none, plain_failure, Diagnostic, DiagnosticView, Site,
    Violation,
};
use crate::input::{
    base_failure, lemma_params_accepted, lemma_params_read, param_of, params_of,
    HandlerParamView,
};
use crate::syntax::{views, Attribute, HandlerFn, ReturnType, Token, TokenView};
use crate::validate::{
    check_attr_whitelist, residual, role_check, whitelist_failure, HandlerDeclaration,
    WhiteListCaller,
};

verus! {

/// Whether `expansion` is what a handler of `kind`, declared by `func`,
/// expands to under the symbol `export_name`: the function without the
/// role attributes of its parameters, and the trampoline that the kind
/// asks for.
pub open spec fn expands(
    kind: HandlerKind,
    export_name: Seq<char>,
    func: HandlerFn,
    expansion: Expansion,
) -> bool {
    let rule = kind.spec_rule();
    &&& residual(func, expansion.handler)
    &&& HandlerDeclaration::parsed(func) matches Ok(params) && expansion.trampoline@
        == trampoline_of(
        export_name,
        link_section_of(rule.injection),
        rule.injection,
        rule.trampoline_diverges,
        func,
        params,
    )
}

/// What `entry` objects to, if anything.
pub open spec fn entry_failure(args: Seq<TokenView>, func: HandlerFn) -> Option<DiagnosticView> {
    if args.len() > 0 {
        Some(plain_failure(Violation::UnexpectedArguments, Site::CallSite))
    } else {
        HandlerDeclaration::declared_failure(HandlerKind::EntryPoint, false, func)
    }
}

/// Declares the entry point of the program. The attribute takes no
/// arguments; the trampoline is bound to `main` and never returns.
pub fn entry(args: &Vec<Token>, func: HandlerFn) -> (result: Result<Expansion, Diagnostic>)
    ensures
        failure(result) == entry_failure(views(args@), func),
        result matches Ok(expansion) ==> expansion.assertion == Assertion::Nothing && expands(
            HandlerKind::EntryPoint,
            "main"@,
            func,
            expansion,
        ),
{
    if args.len() > 0 {
        return Err(Diagnostic::new(Violation::UnexpectedArguments, Site::CallSite));
    }
    let handler = match HandlerDeclaration::declare(HandlerKind::EntryPoint, false, func) {
        Err(d) => {
            return Err(d);
        },
        Ok(handler) => handler,
    };
    Ok(codegen_simple_handler("main", true, handler))
}

/// An entry point is accepted where the attribute has no arguments and
/// the function is neither `async` nor variadic nor generic, has no
/// where-clause, takes resources only, and returns no value.
pub proof fn lemma_entry_accepts(func: HandlerFn)
    requires
        base_failure(func) is None,
        forall|i: int|
            0 <= i < func.inputs@.len() ==> (#[trigger] param_of(func.inputs@[i], i as usize)
                matches Ok(param) && param.kind is Resource),
        !(func.output is Other),
    ensures
        entry_failure(Seq::empty(), func) is None,
{
    let inputs = func.inputs@;
    assert forall|i: int| 0 <= i < inputs.len() implies #[trigger] param_of(
        inputs[i],
        i as usize,
    ) is Ok by {}
    lemma_params_accepted(inputs, inputs.len());
    lemma_params_read(inputs, inputs.len());
    let params = params_of(inputs)->Ok_0;
    let check = role_check(Injection::Nothing, params);
    assert forall|i: int| 0 <= i < params.len() implies #[trigger] failure_at(check, i)
        is None by {
        assert(param_of(inputs[i], i as usize) == Ok::<HandlerParamView, DiagnosticView>(
            params[i],
        ));
    }
    lemma_first_failure_none(check, params.len());
}

/// An accepted default handler is called with one argument, the number of
/// the active vector less sixteen: whatever the status register reads,
/// the number lies between -16 and 495 and depends on the low nine bits
/// alone.
pub proof fn lemma_default_handler_number(args: Seq<TokenView>, func: HandlerFn, status: u32)
    requires
        ExceptionArgs::parsed(args) matches Ok((target, _)) && target
            == ExceptionHandlerTarget::DefaultHandler,
        exception_failure(args, func) is None,
    ensures
        ({
            let params = HandlerDeclaration::parsed(func)->Ok_0;
            let arguments = call_arguments(Injection::InterruptNumber, params);
            &&& arguments.len() == 1
            &&& number_passed(arguments[0], status) == Some((status & 0x1FF) - 16)
            &&& -16 <= (status & 0x1FF) - 16 <= 495
            &&& number_passed(arguments[0], status) == number_passed(
                arguments[0],
                status & 0x1FF,
            )
        }),
{
    lemma_injected_number(status);
}

/// What `exception` objects to, if anything.
pub open spec fn exception_failure(args: Seq<TokenView>, func: HandlerFn) -> Option<
    DiagnosticView,
> {
    match ExceptionArgs::parsed(args) {
        Err(d) => Some(d),
        Ok((target, marker)) => HandlerDeclaration::declared_failure(
            HandlerKind::of_exception(target),
            marker,
            func,
        ),
    }
}

/// Declares the handler of the exception that the arguments name. The
/// trampoline is bound to the exception's name.
pub fn exception(args: &Vec<Token>, func: HandlerFn) -> (result: Result<Expansion, Diagnostic>)
    ensures
        failure(result) == exception_failure(views(args@), func),
        result matches Ok(expansion) ==> {
            &&& ExceptionArgs::parsed(views(args@)) matches Ok((target, marker))
            &&& expands(HandlerKind::of_exception(target), target.spec_name(), func, expansion)
            &&& if target.hazardous() {
                expansion.assertion == Assertion::Nothing
            } else {
                expansion.assertion matches Assertion::Exception { name: asserted } && asserted@
                    == target.spec_name()
            }
        },
{
    let args = match ExceptionArgs::parse(args) {
        Err(d) => {
            return Err(d);
        },
        Ok(args) => args,
    };
    proof {
        lemma_named_by_its_name(args.name@);
    }
    let kind = args.exception.kind();
    let handler = match HandlerDeclaration::declare(kind, args.unsafe_token, func) {
        Err(d) => {
            return Err(d);
        },
        Ok(handler) => handler,
    };
    Ok(codegen_exception_handler(&args, kind.rule().trampoline_diverges, handler))
}

/// An exception handler is accepted exactly when its arguments are read
/// and it keeps every clause of the contract of its kind, and a rejection
/// of the handler names a clause that is broken.
pub proof fn lemma_exception_contract(args: Seq<TokenView>, func: HandlerFn)
    requires
        ExceptionArgs::parsed(args) is Ok,
    ensures
        ({
            let (target, marker) = ExceptionArgs::parsed(args)->Ok_0;
            let kind = HandlerKind::of_exception(target);
            &&& exception_failure(args, func) is None <==> conforms(kind, marker, func)
            &&& exception_failure(args, func) matches Some(d) ==> !keeps(
                kind,
                marker,
                func,
                d.violation,
            )
        }),
{
    let (target, marker) = ExceptionArgs::parsed(args)->Ok_0;
    let kind = HandlerKind::of_exception(target);
    lemma_accepted_iff_conforms(kind, marker, func);
    if HandlerDeclaration::declared_failure(kind, marker, func) is Some {
        lemma_rejection_names_broken_clause(kind, marker, func);
    }
}

/// A hazardous exception without the safety marker is rejected before the
/// function is looked at.
pub proof fn lemma_marker_checked_first(args: Seq<TokenView>, func: HandlerFn)
    requires
        args.len() > 0,
        args[0] matches TokenView::Ident { name } && (ExceptionHandlerTarget::named(name) matches Some(
            target,
        ) && target.hazardous()),
        !ExceptionArgs::marked(args),
    ensures
        exception_failure(args, func) matches Some(d) && d.violation == Violation::UnsafeToHandle,
{
}

/// What `interrupt` objects to, if anything.
pub open spec fn interrupt_failure(args: Seq<TokenView>, func: HandlerFn) -> Option<
    DiagnosticView,
> {
    match InterruptArgs::parsed(args) {
        Err(d) => Some(d),
        Ok(_) => HandlerDeclaration::declared_failure(HandlerKind::Interrupt, false, func),
    }
}

/// Declares the handler of the interrupt that the path in the arguments
/// names. The trampoline is bound to the last segment of the path.
pub fn interrupt(args: &Vec<Token>, func: HandlerFn) -> (result: Result<Expansion, Diagnostic>)
    ensures
        failure(result) == interrupt_failure(views(args@), func),
        result matches Ok(expansion) ==> {
            &&& InterruptArgs::parsed(views(args@)) matches Ok((leading_colon, path))
            &&& expansion.assertion matches Assertion::Interrupt { leading_colon: leading, segments }
            &&& leading == leading_colon
            &&& texts(segments@) == path
            &&& expands(HandlerKind::Interrupt, path.last(), func, expansion)
        },
{
    let args = match InterruptArgs::parse(args) {
        Err(d) => {
            return Err(d);
        },
        Ok(args) => args,
    };
    let ghost path = texts(args.segments@);
    assert(path.last() == args.segments@.last()@);
    let handler = match HandlerDeclaration::declare(HandlerKind::Interrupt, false, func) {
        Err(d) => {
            return Err(d);
        },
        Ok(handler) => handler,
    };
    Ok(codegen_interrupt_handler(args, handler))
}

/// A path that cannot be read, or that is too short, is rejected whatever
/// the function is: nothing is generated for it.
pub proof fn lemma_interrupt_path_checked_first(args: Seq<TokenView>, func: HandlerFn)
    ensures
        InterruptArgs::parsed(args) matches Err(d) ==> interrupt_failure(args, func) == Some(d),
{
}

/// The function that runs before the static data is set up.
pub struct PreInit {
    /// The symbol the reset sequence calls.
    pub export_name: String,
    pub attrs: Vec<Attribute>,
    pub ident: String,
    /// The body, braces included.
    pub block: String,
}

/// Whether `func` is a plain `fn()`: not `const`, private, without an ABI,
/// parameters, generics or a where-clause, and returning nothing.
pub open spec fn plain_signature(func: HandlerFn) -> bool {
    &&& !func.constness
    &&& func.vis@.len() == 0
    &&& func.abi is None
    &&& func.inputs@.len() == 0
    &&& func.generics@.len() == 0
    &&& func.where_clause is None
    &&& !func.variadic
    &&& (func.output is Default || func.output is Unit)
}

/// What `pre_init` objects to, if anything.
pub open spec fn pre_init_failure(args: Seq<TokenView>, func: HandlerFn) -> Option<
    DiagnosticView,
> {
    if PreInitArgs::failure(args) is Some {
        PreInitArgs::failure(args)
    } else if !plain_signature(func) {
        Some(plain_failure(Violation::PreInitSignature, Site::Function))
    } else {
        whitelist_failure(func.attrs@, WhiteListCaller::PreInit)
    }
}

/// Declares the function that runs before the static data is set up. It
/// keeps its attributes, its name and its body, and is bound to
/// `__pre_init`.
pub fn pre_init(args: &Vec<Token>, func: HandlerFn) -> (result: Result<PreInit, Diagnostic>)
    ensures
        failure(result) == pre_init_failure(views(args@), func),
        result matches Ok(expansion) ==> expansion.export_name@ == "__pre_init"@ && expansion.attrs
            == func.attrs && expansion.ident == func.ident && expansion.block == func.block,
{
    match PreInitArgs::parse(args) {
        Err(d) => {
            return Err(d);
        },
        Ok(_) => {},
    }
    let returns_nothing = match &func.output {
        ReturnType::Default | ReturnType::Unit => true,
        _ => false,
    };
    let valid_signature = !func.constness && func.vis.as_str().is_empty() && func.abi.is_none()
        && func.inputs.len() == 0 && func.generics.as_str().is_empty()
        && func.where_clause.is_none() && !func.variadic && returns_nothing;
    if !valid_signature {
        return Err(Diagnostic::new(Violation::PreInitSignature, Site::Function));
    }
    match check_attr_whitelist(&func.attrs, WhiteListCaller::PreInit) {
        Err(d) => {
            return Err(d);
        },
        Ok(()) => {},
    }
    Ok(
        PreInit {
            export_name: String::from_str("__pre_init"),
            attrs: func.attrs,
            ident: func.ident,
            block: func.block,
        },
    )
}

} // verus!
