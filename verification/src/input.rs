//! Reading a declaration: the arguments of the handler attributes, the role
//! of each parameter, and the resources a handler declares.

use vstd::prelude::*;
use crate::diagnostic::{failure, plain_failure, Diagnostic, DiagnosticView, Site, Violation};
use crate::syntax::{
    copy_attributes, guards, text_is, views, Attribute, AttributeView, FnArg, HandlerFn,
    ParamType, PatType,
};

verus! {

/// What a parameter attribute says the parameter is.
#[derive(Clone, Copy, Debug, PartialEq, Eq, Structural)]
pub enum Role {
    /// `#[init(..)]`: a resource with its initial value.
    Init,
    /// `#[irqn]`: the number of the interrupt being served.
    Irqn,
    /// `#[exception_frame]`: the registers stacked on exception entry.
    ExceptionFrame,
}

/// The role that an attribute denotes, if it denotes one.
pub open spec fn role_of(attr: AttributeView) -> Option<Role> {
    if attr.is_ident("init"@) {
        Some(Role::Init)
    } else if attr.is_ident("irqn"@) {
        Some(Role::Irqn)
    } else if attr.is_ident("exception_frame"@) {
        Some(Role::ExceptionFrame)
    } else {
        None
    }
}

/// The role that `attr` denotes, if it denotes one.
pub fn role(attr: &Attribute) -> (role: Option<Role>)
    ensures
        role == role_of(attr@),
{
    if attr.is_ident("init") {
        Some(Role::Init)
    } else if attr.is_ident("irqn") {
        Some(Role::Irqn)
    } else if attr.is_ident("exception_frame") {
        Some(Role::ExceptionFrame)
    } else {
        None
    }
}

/// A resource: private storage of type `ty`, set to `init` once, which the
/// handler receives by mutable reference on every call.
pub struct ResourceParam {
    /// The initializing expression.
    pub init: String,
    /// The type of the resource.
    pub ty: String,
    /// The conditional-compilation guards of the parameter.
    pub cfgs: Vec<Attribute>,
    /// Whether the handler asked for a `&'static mut`.
    pub is_static: bool,
}

pub struct ResourceParamView {
    pub init: Seq<char>,
    pub ty: Seq<char>,
    pub cfgs: Seq<AttributeView>,
    pub is_static: bool,
}

impl View for ResourceParam {
    type V = ResourceParamView;

    open spec fn view(&self) -> ResourceParamView {
        ResourceParamView {
            init: self.init@,
            ty: self.ty@,
            cfgs: views(self.cfgs@),
            is_static: self.is_static,
        }
    }
}

impl ResourceParam {
    /// The resource declared by parameter number `index` of type `ty` with
    /// guards `cfgs`, whose `#[init(..)]` holds the expression `init`, or
    /// holds none.
    pub open spec fn declared(
        init: Option<Seq<char>>,
        cfgs: Seq<Attribute>,
        ty: ParamType,
        index: usize,
    ) -> Result<ResourceParamView, DiagnosticView> {
        match init {
            None => Err(
                plain_failure(Violation::InvalidInitializer, Site::ParameterAttribute(index)),
            ),
            Some(init) => match ty {
                ParamType::Reference { lifetime, mutable: true, elem } => match lifetime {
                    None => Ok(
                        ResourceParamView { init, ty: elem@, cfgs: views(cfgs), is_static: false },
                    ),
                    Some(name) => if name@ == "static"@ {
                        Ok(
                            ResourceParamView {
                                init,
                                ty: elem@,
                                cfgs: views(cfgs),
                                is_static: true,
                            },
                        )
                    } else {
                        Err(
                            plain_failure(
                                Violation::ExplicitLifetime,
                                Site::ParameterLifetime(index),
                            ),
                        )
                    },
                },
                _ => Err(plain_failure(Violation::ResourceType, Site::ParameterType(index))),
            },
        }
    }

    /// Reads the resource that `attr`, an `#[init(..)]`, declares on
    /// parameter number `index`.
    pub fn parse(attr: &Attribute, cfgs: &Vec<Attribute>, ty: &ParamType, index: usize) -> (result:
        Result<ResourceParam, Diagnostic>)
        ensures
            outcome(result) == Self::declared(attr@.expression, cfgs@, *ty, index),
    {
        let init = match &attr.expression {
            Some(init) => init.clone(),
            None => {
                return Err(
                    Diagnostic::new(Violation::InvalidInitializer, Site::ParameterAttribute(index)),
                );
            },
        };
        match ty {
            ParamType::Reference { lifetime, mutable: true, elem } => {
                let is_static = match lifetime {
                    None => false,
                    Some(name) => {
                        if text_is(name, "static") {
                            true
                        } else {
                            return Err(
                                Diagnostic::new(
                                    Violation::ExplicitLifetime,
                                    Site::ParameterLifetime(index),
                                ),
                            );
                        }
                    },
                };
                Ok(ResourceParam { init, ty: elem.clone(), cfgs: copy_attributes(cfgs), is_static })
            },
            _ => Err(Diagnostic::new(Violation::ResourceType, Site::ParameterType(index))),
        }
    }

    /// What `reject_static_resource` answers for a resource that is
    /// parameter number `index`.
    pub open spec fn static_failure(self, index: usize) -> Option<DiagnosticView> {
        if self.is_static {
            Some(plain_failure(Violation::StaticResource, Site::ParameterReferent(index)))
        } else {
            None
        }
    }

    /// Rejects a `'static` resource, for the handlers that are entered anew
    /// with each event.
    pub fn reject_static_resource(&self, index: usize) -> (result: Result<(), Diagnostic>)
        ensures
            failure(result) == self.static_failure(index),
    {
        if self.is_static {
            Err(Diagnostic::new(Violation::StaticResource, Site::ParameterReferent(index)))
        } else {
            Ok(())
        }
    }
}

/// What a parameter is, as its role attribute says.
pub enum HandlerParamKind {
    /// A resource, declared with `#[init(<expr>)]`.
    Resource(ResourceParam),
    /// `#[irqn]`: the interrupt number, passed as an `i16`. Only the
    /// default handler has it.
    Irqn,
    /// `#[exception_frame]`: a reference to the registers stacked on
    /// exception entry. Only the hard fault handler has it.
    ExceptionFrame,
}

pub enum HandlerParamKindView {
    Resource(ResourceParamView),
    Irqn,
    ExceptionFrame,
}

impl View for HandlerParamKind {
    type V = HandlerParamKindView;

    open spec fn view(&self) -> HandlerParamKindView {
        match self {
            HandlerParamKind::Resource(res) => HandlerParamKindView::Resource(res@),
            HandlerParamKind::Irqn => HandlerParamKindView::Irqn,
            HandlerParamKind::ExceptionFrame => HandlerParamKindView::ExceptionFrame,
        }
    }
}

impl HandlerParamKind {
    /// What `attr` makes of parameter number `index`: nothing where it
    /// denotes no role.
    pub open spec fn denoted(attr: AttributeView, cfgs: Seq<Attribute>, ty: ParamType, index: usize)
        -> Option<Result<HandlerParamKindView, DiagnosticView>> {
        match role_of(attr) {
            None => None,
            Some(Role::Init) => Some(
                match ResourceParam::declared(attr.expression, cfgs, ty, index) {
                    Ok(res) => Ok(HandlerParamKindView::Resource(res)),
                    Err(d) => Err(d),
                },
            ),
            Some(Role::Irqn) => Some(
                if attr.tokens.len() == 0 {
                    Ok(HandlerParamKindView::Irqn)
                } else {
                    Err(
                        plain_failure(
                            Violation::IrqnArguments,
                            Site::ParameterAttributeArguments(index),
                        ),
                    )
                },
            ),
            Some(Role::ExceptionFrame) => Some(
                if attr.tokens.len() == 0 {
                    Ok(HandlerParamKindView::ExceptionFrame)
                } else {
                    Err(
                        plain_failure(
                            Violation::ExceptionFrameArguments,
                            Site::ParameterAttributeArguments(index),
                        ),
                    )
                },
            ),
        }
    }

    /// Reads one attribute of parameter number `index`: `None` where it
    /// denotes no role and stays on the parameter.
    pub fn parse(attr: &Attribute, cfgs: &Vec<Attribute>, ty: &ParamType, index: usize) -> (result:
        Option<Result<HandlerParamKind, Diagnostic>>)
        ensures
            match Self::denoted(attr@, cfgs@, *ty, index) {
                None => result is None,
                Some(expected) => result is Some && outcome(result->Some_0) == expected,
            },
    {
        match role(attr) {
            None => None,
            Some(Role::Init) => Some(
                match ResourceParam::parse(attr, cfgs, ty, index) {
                    Ok(res) => Ok(HandlerParamKind::Resource(res)),
                    Err(d) => Err(d),
                },
            ),
            Some(Role::Irqn) => {
                if !attr.tokens.as_str().is_empty() {
                    return Some(
                        Err(
                            Diagnostic::new(
                                Violation::IrqnArguments,
                                Site::ParameterAttributeArguments(index),
                            ),
                        ),
                    );
                }
                Some(Ok(HandlerParamKind::Irqn))
            },
            Some(Role::ExceptionFrame) => {
                if !attr.tokens.as_str().is_empty() {
                    return Some(
                        Err(
                            Diagnostic::new(
                                Violation::ExceptionFrameArguments,
                                Site::ParameterAttributeArguments(index),
                            ),
                        ),
                    );
                }
                Some(Ok(HandlerParamKind::ExceptionFrame))
            },
        }
    }
}

/// A parameter of a handler: the attribute that denotes its role, and
/// what that makes of it.
pub struct HandlerParam {
    pub attr: Attribute,
    pub kind: HandlerParamKind,
    /// The parameter's type, as declared.
    pub ty: ParamType,
}

pub struct HandlerParamView {
    pub attr: AttributeView,
    pub kind: HandlerParamKindView,
    pub ty: ParamType,
}

impl View for HandlerParam {
    type V = HandlerParamView;

    open spec fn view(&self) -> HandlerParamView {
        HandlerParamView { attr: self.attr@, kind: self.kind@, ty: self.ty }
    }
}

/// The attributes among `attrs` that denote a role, in order.
pub open spec fn role_attributes(attrs: Seq<Attribute>) -> Seq<Attribute> {
    attrs.filter(|a: Attribute| role_of(a@) is Some)
}

/// The attributes among `attrs` that denote no role, in order.
pub open spec fn other_attributes(attrs: Seq<Attribute>) -> Seq<Attribute> {
    attrs.filter(|a: Attribute| role_of(a@) is None)
}

/// Filtering one item more either appends that item or changes nothing.
pub proof fn lemma_filter_next<A>(items: Seq<A>, keep: spec_fn(A) -> bool, n: int)
    requires
        0 <= n < items.len(),
    ensures
        items.take(n + 1).filter(keep) == if keep(items[n]) {
            items.take(n).filter(keep).push(items[n])
        } else {
            items.take(n).filter(keep)
        },
{
    reveal(Seq::filter);
    assert(items.take(n + 1).drop_last() =~= items.take(n));
}

/// The conditional-compilation guards among `attrs`.
pub fn extract_cfgs(attrs: &Vec<Attribute>) -> (cfgs: Vec<Attribute>)
    ensures
        cfgs@ == guards(attrs@),
{
    let mut cfgs: Vec<Attribute> = Vec::new();
    let mut i: usize = 0;
    while i < attrs.len()
        invariant
            i <= attrs.len(),
            cfgs@ == guards(attrs@.take(i as int)),
        decreases attrs.len() - i,
    {
        proof {
            lemma_filter_next(attrs@, |a: Attribute| a@.is_cfg(), i as int);
        }
        if attrs[i].is_ident("cfg") {
            cfgs.push(attrs[i].clone());
        }
        i = i + 1;
    }
    assert(attrs@.take(attrs.len() as int) =~= attrs@);
    cfgs
}

/// What parameter number `index` is: the argument must not be a receiver,
/// and exactly one of its attributes must denote a role.
pub open spec fn param_of(arg: FnArg, index: usize) -> Result<HandlerParamView, DiagnosticView> {
    match arg {
        FnArg::Receiver { .. } => Err(plain_failure(Violation::Receiver, Site::Parameter(index))),
        FnArg::Typed(param) => {
            let roles = role_attributes(param.attrs@);
            if roles.len() == 0 {
                Err(plain_failure(Violation::MissingRole, Site::Parameter(index)))
            } else if roles.len() > 1 {
                Err(plain_failure(Violation::MultipleRoles, Site::Parameter(index)))
            } else {
                match HandlerParamKind::denoted(roles[0]@, guards(param.attrs@), param.ty, index) {
                    Some(Ok(kind)) => Ok(HandlerParamView { attr: roles[0]@, kind, ty: param.ty }),
                    Some(Err(d)) => Err(d),
                    None => Err(plain_failure(Violation::MissingRole, Site::Parameter(index))),
                }
            }
        },
    }
}

/// The parameter without the attributes that denote a role: what is left
/// on the function once its parameters have been read.
pub open spec fn stripped(before: FnArg, after: FnArg) -> bool {
    match before {
        FnArg::Receiver { .. } => after == before,
        FnArg::Typed(param) => after matches FnArg::Typed(rest) && rest.pat == param.pat && rest.ty
            == param.ty && rest.attrs@ == other_attributes(param.attrs@),
    }
}

/// The parameters among the first `n` of `inputs`, or the diagnostic of the
/// first that is rejected.
pub open spec fn params_upto(inputs: Seq<FnArg>, n: nat) -> Result<
    Seq<HandlerParamView>,
    DiagnosticView,
>
    decreases n,
{
    if n == 0 {
        Ok(Seq::empty())
    } else {
        match params_upto(inputs, (n - 1) as nat) {
            Err(d) => Err(d),
            Ok(params) => match param_of(inputs[n - 1], (n - 1) as usize) {
                Ok(param) => Ok(params.push(param)),
                Err(d) => Err(d),
            },
        }
    }
}

/// The parameters of a function with these inputs.
pub open spec fn params_of(inputs: Seq<FnArg>) -> Result<Seq<HandlerParamView>, DiagnosticView> {
    params_upto(inputs, inputs.len())
}

/// Reads one parameter: its role, and the attributes that stay on it.
fn extract_handler_param(param: &PatType, index: usize) -> (result: Result<
    (HandlerParam, Vec<Attribute>),
    Diagnostic,
>)
    ensures
        match param_of(FnArg::Typed(*param), index) {
            Ok(expected) => result is Ok && result->Ok_0.0@ == expected && result->Ok_0.1@
                == other_attributes(param.attrs@),
            Err(d) => result is Err && result->Err_0@ == d,
        },
{
    let mut roles: Vec<Attribute> = Vec::new();
    let mut others: Vec<Attribute> = Vec::new();
    let mut i: usize = 0;
    while i < param.attrs.len()
        invariant
            i <= param.attrs.len(),
            roles@ == role_attributes(param.attrs@.take(i as int)),
            others@ == other_attributes(param.attrs@.take(i as int)),
        decreases param.attrs.len() - i,
    {
        proof {
            lemma_filter_next(param.attrs@, |a: Attribute| role_of(a@) is Some, i as int);
            lemma_filter_next(param.attrs@, |a: Attribute| role_of(a@) is None, i as int);
        }
        if role(&param.attrs[i]).is_some() {
            roles.push(param.attrs[i].clone());
        } else {
            others.push(param.attrs[i].clone());
        }
        i = i + 1;
    }
    assert(param.attrs@.take(param.attrs.len() as int) =~= param.attrs@);
    if roles.len() == 0 {
        return Err(Diagnostic::new(Violation::MissingRole, Site::Parameter(index)));
    }
    if roles.len() > 1 {
        return Err(Diagnostic::new(Violation::MultipleRoles, Site::Parameter(index)));
    }
    let cfgs = extract_cfgs(&param.attrs);
    let attr = roles.pop().unwrap();
    match HandlerParamKind::parse(&attr, &cfgs, &param.ty, index) {
        Some(Ok(kind)) => Ok((HandlerParam { attr, kind, ty: param.ty.clone() }, others)),
        Some(Err(d)) => Err(d),
        None => Err(Diagnostic::new(Violation::MissingRole, Site::Parameter(index))),
    }
}

/// Reads the parameters of `func` and takes the attributes that denote
/// their roles off the function. A rejected function is left as it was.
pub fn extract_handler_params(func: &mut HandlerFn) -> (result: Result<
    Vec<HandlerParam>,
    Diagnostic,
>)
    ensures
        match params_of(old(func).inputs@) {
            Ok(expected) => {
                &&& result is Ok
                &&& views(result->Ok_0@) == expected
                &&& *final(func) == (HandlerFn { inputs: final(func).inputs, ..*old(func) })
                &&& final(func).inputs@.len() == old(func).inputs@.len()
                &&& forall|i: int|
                    0 <= i < old(func).inputs@.len() ==> stripped(
                        #[trigger] old(func).inputs@[i],
                        final(func).inputs@[i],
                    )
            },
            Err(d) => result is Err && result->Err_0@ == d && *final(func) == *old(func),
        },
{
    let mut params: Vec<HandlerParam> = Vec::new();
    let mut inputs: Vec<FnArg> = Vec::new();
    let mut i: usize = 0;
    assert(views(params@) =~= Seq::<HandlerParamView>::empty());
    while i < func.inputs.len()
        invariant
            i <= func.inputs.len(),
            *func == *old(func),
            params_upto(func.inputs@, i as nat) == Ok::<Seq<HandlerParamView>, DiagnosticView>(
                views(params@),
            ),
            inputs@.len() == i,
            forall|j: int| 0 <= j < i ==> stripped(#[trigger] func.inputs@[j], inputs@[j]),
        decreases func.inputs.len() - i,
    {
        match &func.inputs[i] {
            FnArg::Receiver { .. } => {
                let d = Diagnostic::new(Violation::Receiver, Site::Parameter(i));
                proof {
                    lemma_params_rejected(func.inputs@, i as nat, func.inputs@.len());
                }
                return Err(d);
            },
            FnArg::Typed(param) => {
                match extract_handler_param(param, i) {
                    Err(d) => {
                        proof {
                            lemma_params_rejected(func.inputs@, i as nat, func.inputs@.len());
                        }
                        return Err(d);
                    },
                    Ok((handler_param, attrs)) => {
                        proof {
                            assert(views(params@.push(handler_param)) =~= views(params@).push(
                                handler_param@,
                            ));
                        }
                        params.push(handler_param);
                        inputs.push(
                            FnArg::Typed(
                                PatType { attrs, pat: param.pat.clone(), ty: param.ty.clone() },
                            ),
                        );
                    },
                }
            },
        }
        i = i + 1;
    }
    func.inputs = inputs;
    Ok(params)
}

/// A list of parameters that is read holds what each parameter is.
pub proof fn lemma_params_read(inputs: Seq<FnArg>, n: nat)
    requires
        params_upto(inputs, n) is Ok,
    ensures
        params_upto(inputs, n)->Ok_0.len() == n,
        forall|i: int|
            0 <= i < n ==> #[trigger] param_of(inputs[i], i as usize) == Ok::<
                HandlerParamView,
                DiagnosticView,
            >(params_upto(inputs, n)->Ok_0[i]),
    decreases n,
{
    if n > 0 {
        lemma_params_read(inputs, (n - 1) as nat);
    }
}

/// A list of parameters that is rejected has a parameter that is rejected
/// for that reason.
pub proof fn lemma_params_refused(inputs: Seq<FnArg>, n: nat)
    requires
        params_upto(inputs, n) is Err,
    ensures
        exists|k: int|
            0 <= k < n && #[trigger] param_of(inputs[k], k as usize) == Err::<
                HandlerParamView,
                DiagnosticView,
            >(params_upto(inputs, n)->Err_0),
    decreases n,
{
    if params_upto(inputs, (n - 1) as nat) is Err {
        lemma_params_refused(inputs, (n - 1) as nat);
        let k = choose|k: int|
            0 <= k < n - 1 && #[trigger] param_of(inputs[k], k as usize) == Err::<
                HandlerParamView,
                DiagnosticView,
            >(params_upto(inputs, (n - 1) as nat)->Err_0);
        assert(param_of(inputs[k], k as usize) == Err::<HandlerParamView, DiagnosticView>(
            params_upto(inputs, n)->Err_0,
        ));
    } else {
        assert(param_of(inputs[n - 1], (n - 1) as usize) == Err::<
            HandlerParamView,
            DiagnosticView,
        >(params_upto(inputs, n)->Err_0));
    }
}

/// If every parameter can be read, so can the list.
pub proof fn lemma_params_accepted(inputs: Seq<FnArg>, n: nat)
    requires
        forall|i: int| 0 <= i < n ==> #[trigger] param_of(inputs[i], i as usize) is Ok,
    ensures
        params_upto(inputs, n) is Ok,
    decreases n,
{
    if n > 0 {
        lemma_params_accepted(inputs, (n - 1) as nat);
        assert(param_of(inputs[n - 1], (n - 1) as usize) is Ok);
    }
}

/// Once a parameter is rejected, so is every longer list of parameters,
/// with the same diagnostic.
pub proof fn lemma_params_rejected(inputs: Seq<FnArg>, k: nat, n: nat)
    requires
        k < n <= inputs.len(),
        params_upto(inputs, k) is Ok,
        param_of(inputs[k as int], k as usize) is Err,
    ensures
        params_upto(inputs, n) == Err::<Seq<HandlerParamView>, DiagnosticView>(
            param_of(inputs[k as int], k as usize)->Err_0,
        ),
    decreases n,
{
    if n > k + 1 {
        lemma_params_rejected(inputs, k, (n - 1) as nat);
    }
}

/// What `parse_handler_base` answers: the first of these that the function
/// breaks, in this order: not `async`, not variadic, no generic parameters,
/// no where-clause.
pub open spec fn base_failure(func: HandlerFn) -> Option<DiagnosticView> {
    if func.asyncness {
        Some(plain_failure(Violation::Async, Site::Asyncness))
    } else if func.variadic {
        Some(plain_failure(Violation::Variadic, Site::Variadic))
    } else if func.generics@.len() > 0 {
        Some(plain_failure(Violation::Generic, Site::Generics))
    } else if func.where_clause is Some {
        Some(plain_failure(Violation::WhereClause, Site::WhereClause))
    } else {
        None
    }
}

/// Checks what holds of every handler, whatever its kind.
pub fn parse_handler_base(func: &HandlerFn) -> (result: Result<(), Diagnostic>)
    ensures
        failure(result) == base_failure(*func),
{
    if func.asyncness {
        return Err(Diagnostic::new(Violation::Async, Site::Asyncness));
    }
    if func.variadic {
        return Err(Diagnostic::new(Violation::Variadic, Site::Variadic));
    }
    if !func.generics.as_str().is_empty() {
        return Err(Diagnostic::new(Violation::Generic, Site::Generics));
    }
    if func.where_clause.is_some() {
        return Err(Diagnostic::new(Violation::WhereClause, Site::WhereClause));
    }
    Ok(())
}

/// A result seen through the views of what it carries.
pub open spec fn outcome<T: View>(result: Result<T, Diagnostic>) -> Result<T::V, DiagnosticView> {
    match result {
        Ok(value) => Ok(value@),
        Err(d) => Err(d@),
    }
}

} // verus!
