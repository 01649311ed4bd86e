//! The contract of each kind of handler, clause by clause, and the proof
//! that a declaration is accepted exactly when it keeps every clause, and
//! that a rejection names a clause that is broken.

use vstd::prelude::*;
use crate::catalog::{HandlerKind, Injection, ReturnRule};
use crate::codegen::{call_arguments, resources_of, slot_name, slots_of, ArgumentView};
use crate::diagnostic::{
    failure_at, first_failure, lemma_first_failure_none, lemma_first_failure_some, DiagnosticView,
    Violation,
};
use crate::input::{
    base_failure, param_of, params_of, role_attributes, role_of, HandlerParamKindView,
    HandlerParamView, Role,
};
use crate::syntax::{Attribute, FnArg, HandlerFn, ParamType, PatType, ReturnType};
use crate::validate::{
    is_i16, is_plain_reference, passes_through, role_check, roles_failure, static_check,
    static_failure, whitelist_check, whitelist_failure, HandlerDeclaration, WhiteListCaller,
};

verus! {

/// Whether one of the role attributes `roles` denotes `role`.
pub open spec fn has_role(roles: Seq<Attribute>, role: Role) -> bool {
    exists|j: int| 0 <= j < roles.len() && role_of(#[trigger] roles[j]@) == Some(role)
}

/// Whether `ty` is a mutable reference.
pub open spec fn is_mutable_reference(ty: ParamType) -> bool {
    ty matches ParamType::Reference { mutable: true, .. }
}

/// Whether `ty` is a reference with a lifetime other than `'static`.
pub open spec fn has_other_lifetime(ty: ParamType) -> bool {
    ty matches ParamType::Reference { lifetime: Some(name), .. } && name@ != "static"@
}

/// Whether `ty` is a reference for `'static`.
pub open spec fn is_static_reference(ty: ParamType) -> bool {
    ty matches ParamType::Reference { lifetime: Some(name), .. } && name@ == "static"@
}

/// Whether the parameter `param` of a handler of `kind` keeps `clause`.
/// Clauses that say nothing of a parameter are kept.
pub open spec fn param_keeps(kind: HandlerKind, param: PatType, clause: Violation) -> bool {
    let rule = kind.spec_rule();
    let roles = role_attributes(param.attrs@);
    match clause {
        Violation::MissingRole => roles.len() >= 1,
        Violation::MultipleRoles => roles.len() <= 1,
        Violation::IrqnArguments => forall|j: int|
            0 <= j < roles.len() && role_of(#[trigger] roles[j]@) == Some(Role::Irqn)
                ==> roles[j]@.tokens.len() == 0,
        Violation::ExceptionFrameArguments => forall|j: int|
            0 <= j < roles.len() && role_of(#[trigger] roles[j]@) == Some(Role::ExceptionFrame)
                ==> roles[j]@.tokens.len() == 0,
        Violation::InvalidInitializer => forall|j: int|
            0 <= j < roles.len() && role_of(#[trigger] roles[j]@) == Some(Role::Init)
                ==> roles[j]@.expression is Some,
        Violation::ResourceType => has_role(roles, Role::Init) ==> is_mutable_reference(param.ty),
        Violation::ExplicitLifetime => has_role(roles, Role::Init) && is_mutable_reference(
            param.ty,
        ) ==> !has_other_lifetime(param.ty),
        Violation::StaticResource => !rule.static_resources && has_role(roles, Role::Init)
            && is_mutable_reference(param.ty) ==> !is_static_reference(param.ty),
        Violation::IrqnNotAllowed => rule.injection != Injection::InterruptNumber ==> !has_role(
            roles,
            Role::Irqn,
        ),
        Violation::ExceptionFrameNotAllowed => rule.injection != Injection::ExceptionFrame
            ==> !has_role(roles, Role::ExceptionFrame),
        Violation::ResourceNotAllowed => rule.injection != Injection::Nothing ==> !has_role(
            roles,
            Role::Init,
        ),
        Violation::IrqnType => rule.injection == Injection::InterruptNumber && has_role(
            roles,
            Role::Irqn,
        ) ==> is_i16(param.ty),
        Violation::ExceptionFrameType => rule.injection == Injection::ExceptionFrame && has_role(
            roles,
            Role::ExceptionFrame,
        ) ==> is_plain_reference(param.ty),
        _ => true,
    }
}

/// Whether the argument number `i` of `func` keeps `clause`.
pub open spec fn input_keeps(kind: HandlerKind, func: HandlerFn, i: int, clause: Violation)
    -> bool {
    match func.inputs@[i] {
        FnArg::Receiver { .. } => clause != Violation::Receiver,
        FnArg::Typed(param) => param_keeps(kind, param, clause),
    }
}

/// Whether a handler of `kind`, declared by `func` with or without the
/// safety marker, keeps `clause`. Clauses of other contracts are kept.
pub open spec fn keeps(kind: HandlerKind, marker: bool, func: HandlerFn, clause: Violation)
    -> bool {
    let rule = kind.spec_rule();
    match clause {
        Violation::UnsafeToHandle => rule.marker_required ==> marker,
        Violation::Async => !func.asyncness,
        Violation::Variadic => !func.variadic,
        Violation::Generic => func.generics@.len() == 0,
        Violation::WhereClause => func.where_clause is None,
        Violation::Arity => rule.injection != Injection::Nothing ==> func.inputs@.len() == 1,
        Violation::ReturnType => !(func.output is Other),
        Violation::MustDiverge => rule.returns == ReturnRule::Never ==> !(func.output is Default
            || func.output is Unit),
        Violation::ExceptionAttribute => rule.listed_attributes ==> forall|j: int|
            0 <= j < func.attrs@.len() ==> passes_through(#[trigger] func.attrs@[j]@),
        _ => forall|i: int| 0 <= i < func.inputs@.len() ==> #[trigger] input_keeps(kind, func, i, clause),
    }
}

/// Whether the declaration keeps every clause of the contract of `kind`.
pub open spec fn conforms(kind: HandlerKind, marker: bool, func: HandlerFn) -> bool {
    forall|clause: Violation| #[trigger] keeps(kind, marker, func, clause)
}

/// A parameter that is rejected breaks the clause that the diagnostic
/// names.
pub proof fn lemma_param_rejection(kind: HandlerKind, arg: FnArg, index: usize)
    requires
        param_of(arg, index) is Err,
    ensures
        match arg {
            FnArg::Receiver { .. } => param_of(arg, index)->Err_0.violation == Violation::Receiver,
            FnArg::Typed(param) => !param_keeps(
                kind,
                param,
                param_of(arg, index)->Err_0.violation,
            ),
        },
{
    match arg {
        FnArg::Receiver { .. } => {},
        FnArg::Typed(param) => {
            let roles = role_attributes(param.attrs@);
            if roles.len() == 1 {
                param.attrs@.lemma_filter_pred(|a: Attribute| role_of(a@) is Some, 0);
                assert(role_of(roles[0]@) is Some);
                if role_of(roles[0]@) == Some(Role::Init) {
                    assert(has_role(roles, Role::Init));
                }
            }
        },
    }
}

/// What is known of a parameter that can be read: exactly one attribute
/// denotes its role, the arguments of that attribute are as the role asks,
/// and a resource is a mutable reference for the call or for `'static`.
pub proof fn lemma_param_acceptance(param: PatType, index: usize)
    requires
        param_of(FnArg::Typed(param), index) is Ok,
    ensures
        ({
            let roles = role_attributes(param.attrs@);
            let read = param_of(FnArg::Typed(param), index)->Ok_0;
            &&& roles.len() == 1
            &&& read.ty == param.ty
            &&& read.attr == roles[0]@
            &&& match role_of(roles[0]@) {
                Some(Role::Init) => {
                    &&& read.kind matches HandlerParamKindView::Resource(res)
                    &&& res.is_static == is_static_reference(param.ty)
                    &&& is_mutable_reference(param.ty)
                    &&& !has_other_lifetime(param.ty)
                    &&& roles[0]@.expression is Some
                },
                Some(Role::Irqn) => read.kind is Irqn && roles[0]@.tokens.len() == 0,
                Some(Role::ExceptionFrame) => read.kind is ExceptionFrame
                    && roles[0]@.tokens.len() == 0,
                None => false,
            }
        }),
{
    let roles = role_attributes(param.attrs@);
    param.attrs@.lemma_filter_pred(|a: Attribute| role_of(a@) is Some, 0);
    assert(role_of(roles[0]@) is Some);
}

/// A declaration that is rejected breaks the clause that the diagnostic
/// names.
pub proof fn lemma_rejection_names_broken_clause(kind: HandlerKind, marker: bool, func: HandlerFn)
    requires
        HandlerDeclaration::declared_failure(kind, marker, func) is Some,
    ensures
        !keeps(
            kind,
            marker,
            func,
            HandlerDeclaration::declared_failure(kind, marker, func)->Some_0.violation,
        ),
{
    let d = HandlerDeclaration::declared_failure(kind, marker, func)->Some_0;
    let rule = kind.spec_rule();
    let inputs = func.inputs@;
    if base_failure(func) is Some {
    } else if params_of(inputs) is Err {
        crate::input::lemma_params_refused(inputs, inputs.len());
        let k = choose|k: int|
            0 <= k < inputs.len() && #[trigger] param_of(inputs[k], k as usize) == Err::<
                HandlerParamView,
                DiagnosticView,
            >(params_of(inputs)->Err_0);
        lemma_param_rejection(kind, inputs[k], k as usize);
        lemma_parameter_violations(inputs[k], k as usize);
        assert(!input_keeps(kind, func, k, d.violation));
    } else {
        let params = params_of(inputs)->Ok_0;
        crate::input::lemma_params_read(inputs, inputs.len());
        let caller = WhiteListCaller::Exception;
        if rule.marker_required && !marker {
        } else if rule.listed_attributes && whitelist_failure(func.attrs@, caller) is Some {
            let check = whitelist_check(func.attrs@, caller);
            lemma_first_failure_some(check, func.attrs@.len());
            let k = choose|k: int|
                0 <= k < func.attrs@.len() && #[trigger] failure_at(check, k) == first_failure(
                    check,
                    func.attrs@.len(),
                ) && first_failure(check, k as nat) is None;
            assert(!passes_through(func.attrs@[k]@));
        } else if roles_failure(rule.injection, params) is Some {
            if rule.injection != Injection::Nothing && params.len() != 1 {
            } else {
                let check = role_check(rule.injection, params);
                lemma_first_failure_some(check, params.len());
                let k = choose|k: int|
                    0 <= k < params.len() && #[trigger] failure_at(check, k) == first_failure(
                        check,
                        params.len(),
                    ) && first_failure(check, k as nat) is None;
                assert(param_of(inputs[k], k as usize) is Ok);
                let param = inputs[k]->Typed_0;
                lemma_param_acceptance(param, k as usize);
                let roles = role_attributes(param.attrs@);
                assert(role_of(roles[0]@) is Some);
                assert(has_role(roles, role_of(roles[0]@)->Some_0));
                assert(!input_keeps(kind, func, k, d.violation));
            }
        } else if !rule.static_resources && static_failure(params) is Some {
            let check = static_check(params);
            lemma_first_failure_some(check, params.len());
            let k = choose|k: int|
                0 <= k < params.len() && #[trigger] failure_at(check, k) == first_failure(
                    check,
                    params.len(),
                ) && first_failure(check, k as nat) is None;
            assert(param_of(inputs[k], k as usize) is Ok);
            let param = inputs[k]->Typed_0;
            lemma_param_acceptance(param, k as usize);
            let roles = role_attributes(param.attrs@);
            assert(has_role(roles, Role::Init));
            assert(!input_keeps(kind, func, k, d.violation));
        }
    }
}

/// Whether `func` has the signature of a hard fault handler: one
/// parameter, marked as the exception frame and typed as a shared
/// reference without a lifetime, and the return type `!`.
pub open spec fn hard_fault_signature(func: HandlerFn) -> bool {
    &&& func.inputs@.len() == 1
    &&& func.inputs@[0] matches FnArg::Typed(param)
    &&& role_attributes(param.attrs@).len() == 1
    &&& role_of(role_attributes(param.attrs@)[0]@) == Some(Role::ExceptionFrame)
    &&& role_attributes(param.attrs@)[0]@.tokens.len() == 0
    &&& is_plain_reference(param.ty)
    &&& func.output is Never
}

/// A hard fault handler is accepted exactly when it has the signature of
/// one, carries the safety marker and only attributes that pass through,
/// and is not `async`, variadic or generic. So one whose parameter is not
/// a reference, or that may return, is rejected.
pub proof fn lemma_hard_fault_contract(marker: bool, func: HandlerFn)
    ensures
        HandlerDeclaration::declared_failure(HandlerKind::HardFault, marker, func) is None <==> {
            &&& marker
            &&& base_failure(func) is None
            &&& whitelist_failure(func.attrs@, WhiteListCaller::Exception) is None
            &&& hard_fault_signature(func)
        },
        !(func.output is Never) ==> HandlerDeclaration::declared_failure(
            HandlerKind::HardFault,
            marker,
            func,
        ) is Some,
        func.inputs@.len() > 0 && (func.inputs@[0] matches FnArg::Typed(param) && param.ty
            is Other) ==> HandlerDeclaration::declared_failure(
            HandlerKind::HardFault,
            marker,
            func,
        ) is Some,
{
    let kind = HandlerKind::HardFault;
    let inputs = func.inputs@;
    if HandlerDeclaration::declared_failure(kind, marker, func) is None {
        crate::input::lemma_params_read(inputs, inputs.len());
        let params = params_of(inputs)->Ok_0;
        assert(params.len() == 1);
        assert(param_of(inputs[0], 0usize) is Ok);
        lemma_param_acceptance(inputs[0]->Typed_0, 0);
        lemma_first_failure_none(role_check(Injection::ExceptionFrame, params), 1);
        assert(failure_at(role_check(Injection::ExceptionFrame, params), 0) is None);
    }
    if marker && base_failure(func) is None && whitelist_failure(
        func.attrs@,
        WhiteListCaller::Exception,
    ) is None && hard_fault_signature(func) {
        assert(param_of(inputs[0], 0usize) is Ok);
        crate::input::lemma_params_accepted(inputs, 1);
        crate::input::lemma_params_read(inputs, 1);
        let params = params_of(inputs)->Ok_0;
        assert(first_failure(role_check(Injection::ExceptionFrame, params), 0) is None);
        assert(static_failure(params) is None) by {
            assert(first_failure(static_check(params), 0) is None);
        }
    }
}

/// Where every one of the first `n` parameters is a resource, the
/// resources among them are these parameters, one for one.
pub proof fn lemma_all_resources(params: Seq<HandlerParamView>, n: int)
    requires
        0 <= n <= params.len(),
        forall|i: int| 0 <= i < n ==> (#[trigger] params[i]).kind is Resource,
    ensures
        resources_of(params.take(n)).len() == n,
        forall|i: int|
            0 <= i < n ==> #[trigger] resources_of(params.take(n))[i]
                == params[i].kind->Resource_0,
    decreases n,
{
    if n > 0 {
        lemma_all_resources(params, n - 1);
        crate::codegen::lemma_resources_next(params, n - 1);
        assert(params[n - 1].kind is Resource);
    }
}

/// The call of an accepted handler is well formed: the trampoline passes
/// one argument for each parameter of the handler, in order. A kind with an
/// injected parameter passes just that; any other kind passes, for
/// parameter number `i`, a borrow of slot number `i` under the guards of
/// that parameter.
pub proof fn lemma_call_matches_parameters(kind: HandlerKind, marker: bool, func: HandlerFn)
    requires
        HandlerDeclaration::declared_failure(kind, marker, func) is None,
    ensures
        ({
            let params = HandlerDeclaration::parsed(func)->Ok_0;
            let injection = kind.spec_rule().injection;
            let arguments = call_arguments(injection, params);
            &&& arguments.len() == func.inputs@.len()
            &&& injection == Injection::Nothing ==> slots_of(resources_of(params)).len()
                == func.inputs@.len()
            &&& forall|i: int|
                0 <= i < func.inputs@.len() ==> match (#[trigger] params[i]).kind {
                    HandlerParamKindView::Resource(res) => arguments[i] == (
                    ArgumentView::Resource { cfgs: res.cfgs, slot: slot_name(i as nat) }),
                    HandlerParamKindView::Irqn => arguments[i] == ArgumentView::InterruptNumber,
                    HandlerParamKindView::ExceptionFrame => arguments[i]
                        == ArgumentView::ExceptionFrame,
                }
        }),
{
    let inputs = func.inputs@;
    let params = params_of(inputs)->Ok_0;
    let injection = kind.spec_rule().injection;
    crate::input::lemma_params_read(inputs, inputs.len());
    lemma_first_failure_none(role_check(injection, params), params.len());
    assert forall|i: int| 0 <= i < params.len() implies match (#[trigger] params[i]).kind {
        HandlerParamKindView::Resource(_) => injection == Injection::Nothing,
        HandlerParamKindView::Irqn => injection == Injection::InterruptNumber,
        HandlerParamKindView::ExceptionFrame => injection == Injection::ExceptionFrame,
    } by {
        assert(failure_at(role_check(injection, params), i) is None);
    }
    if injection == Injection::Nothing {
        lemma_all_resources(params, params.len() as int);
        assert(params.take(params.len() as int) =~= params);
    }
}

/// The clauses that the reading of a parameter can name.
pub proof fn lemma_parameter_violations(arg: FnArg, index: usize)
    requires
        param_of(arg, index) is Err,
    ensures
        ({
            let v = param_of(arg, index)->Err_0.violation;
            v == Violation::Receiver || v == Violation::MissingRole || v
                == Violation::MultipleRoles || v == Violation::IrqnArguments || v
                == Violation::ExceptionFrameArguments || v == Violation::InvalidInitializer || v
                == Violation::ExplicitLifetime || v == Violation::ResourceType
        }),
{
}

/// A declaration that is accepted keeps every clause of the contract of
/// its kind.
pub proof fn lemma_accepted_conforms(kind: HandlerKind, marker: bool, func: HandlerFn)
    requires
        HandlerDeclaration::declared_failure(kind, marker, func) is None,
    ensures
        conforms(kind, marker, func),
{
    let rule = kind.spec_rule();
    let inputs = func.inputs@;
    let params = params_of(inputs)->Ok_0;
    let caller = WhiteListCaller::Exception;
    crate::input::lemma_params_read(inputs, inputs.len());
    lemma_first_failure_none(whitelist_check(func.attrs@, caller), func.attrs@.len());
    lemma_first_failure_none(role_check(rule.injection, params), params.len());
    lemma_first_failure_none(static_check(params), params.len());
    if rule.listed_attributes {
        assert forall|j: int| 0 <= j < func.attrs@.len() implies passes_through(
            #[trigger] func.attrs@[j]@,
        ) by {
            assert(failure_at(whitelist_check(func.attrs@, caller), j) is None);
        }
    }
    assert forall|i: int, clause: Violation| 0 <= i < inputs.len() implies #[trigger] input_keeps(
        kind,
        func,
        i,
        clause,
    ) by {
        assert(param_of(inputs[i], i as usize) is Ok);
        let param = inputs[i]->Typed_0;
        lemma_param_acceptance(param, i as usize);
        assert(failure_at(role_check(rule.injection, params), i) is None);
        if !rule.static_resources {
            assert(failure_at(static_check(params), i) is None);
        }
    }
    assert forall|clause: Violation| #[trigger] keeps(kind, marker, func, clause) by {
    }
}

/// A declaration is accepted exactly when it keeps every clause of the
/// contract of its kind.
pub proof fn lemma_accepted_iff_conforms(kind: HandlerKind, marker: bool, func: HandlerFn)
    ensures
        HandlerDeclaration::declared_failure(kind, marker, func) is None <==> conforms(
            kind,
            marker,
            func,
        ),
{
    if HandlerDeclaration::declared_failure(kind, marker, func) is None {
        lemma_accepted_conforms(kind, marker, func);
    } else {
        lemma_rejection_names_broken_clause(kind, marker, func);
    }
}

/// A declaration that breaks one clause and keeps all the others is
/// rejected, and the diagnostic names that clause.
pub proof fn lemma_single_violation_is_named(
    kind: HandlerKind,
    marker: bool,
    func: HandlerFn,
    clause: Violation,
)
    requires
        !keeps(kind, marker, func, clause),
        forall|other: Violation| other != clause ==> #[trigger] keeps(kind, marker, func, other),
    ensures
        HandlerDeclaration::declared_failure(kind, marker, func) matches Some(d) && d.violation
            == clause,
{
    lemma_accepted_iff_conforms(kind, marker, func);
    lemma_rejection_names_broken_clause(kind, marker, func);
}

} // verus!
