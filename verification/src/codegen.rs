//! Lowering resources to private storage and building the trampoline that
//! is bound to the vector's symbol.

use vstd::prelude::*;
use vstd::string::StringExecFns;
use crate::catalog::Injection;
use crate::arguments::{ExceptionArgs, InterruptArgs};
use crate::input::{
    HandlerParam, HandlerParamKind, HandlerParamKindView, HandlerParamView, ResourceParam,
    ResourceParamView,
};
use crate::syntax::{copy_attributes, views, Attribute, AttributeView, HandlerFn};
use crate::validate::{pass_through_attributes, passing, HandlerDeclaration};

verus! {

/// The decimal digit `d`.
pub open spec fn digit(d: nat) -> char {
    if d == 0 {
        '0'
    } else if d == 1 {
        '1'
    } else if d == 2 {
        '2'
    } else if d == 3 {
        '3'
    } else if d == 4 {
        '4'
    } else if d == 5 {
        '5'
    } else if d == 6 {
        '6'
    } else if d == 7 {
        '7'
    } else if d == 8 {
        '8'
    } else {
        '9'
    }
}

/// `n` in decimal, without leading zeros.
pub open spec fn decimal(n: nat) -> Seq<char>
    decreases n,
{
    if n < 10 {
        seq![digit(n)]
    } else {
        decimal(n / 10).push(digit(n % 10))
    }
}

/// The name of the storage slot of resource number `index`.
pub open spec fn slot_name(index: nat) -> Seq<char> {
    "RESOURCE_"@ + decimal(index)
}

/// The decimal digit `d`, as text.
fn digit_text(d: usize) -> (text: &'static str)
    requires
        d < 10,
    ensures
        text@ == seq![digit(d as nat)],
{
    proof {
        reveal_strlit("0");
        reveal_strlit("1");
        reveal_strlit("2");
        reveal_strlit("3");
        reveal_strlit("4");
        reveal_strlit("5");
        reveal_strlit("6");
        reveal_strlit("7");
        reveal_strlit("8");
        reveal_strlit("9");
    }
    let text = if d == 0 {
        "0"
    } else if d == 1 {
        "1"
    } else if d == 2 {
        "2"
    } else if d == 3 {
        "3"
    } else if d == 4 {
        "4"
    } else if d == 5 {
        "5"
    } else if d == 6 {
        "6"
    } else if d == 7 {
        "7"
    } else if d == 8 {
        "8"
    } else {
        "9"
    };
    assert(text@ =~= seq![digit(d as nat)]);
    text
}

/// Appends `n` in decimal to `text`.
pub fn append_decimal(text: &mut String, n: usize)
    ensures
        final(text)@ == old(text)@ + decimal(n as nat),
    decreases n,
{
    if n < 10 {
        text.append(digit_text(n));
    } else {
        append_decimal(text, n / 10);
        text.append(digit_text(n % 10));
        assert(old(text)@ + decimal((n / 10) as nat) + seq![digit((n % 10) as nat)] =~= old(text)@
            + decimal(n as nat));
    }
}

/// The name of the storage slot of resource number `index`.
pub fn resource_name(index: usize) -> (name: String)
    ensures
        name@ == slot_name(index as nat),
{
    let mut name = String::from_str("RESOURCE_");
    append_decimal(&mut name, index);
    name
}

/// The private storage of one resource: `static mut name: ty = init;`,
/// under the guards of the parameter that declared it.
pub struct StorageSlot {
    pub cfgs: Vec<Attribute>,
    pub name: String,
    pub ty: String,
    pub init: String,
}

pub struct StorageSlotView {
    pub cfgs: Seq<AttributeView>,
    pub name: Seq<char>,
    pub ty: Seq<char>,
    pub init: Seq<char>,
}

impl View for StorageSlot {
    type V = StorageSlotView;

    open spec fn view(&self) -> StorageSlotView {
        StorageSlotView {
            cfgs: views(self.cfgs@),
            name: self.name@,
            ty: self.ty@,
            init: self.init@,
        }
    }
}

/// An argument of the call that the trampoline makes.
pub enum Argument {
    /// `&mut slot`, under the guards of the parameter it is passed for.
    Resource { cfgs: Vec<Attribute>, slot: String },
    /// The number of the interrupt being served.
    InterruptNumber,
    /// The reference to the stacked registers that the trampoline was
    /// entered with.
    ExceptionFrame,
}

pub enum ArgumentView {
    Resource { cfgs: Seq<AttributeView>, slot: Seq<char> },
    InterruptNumber,
    ExceptionFrame,
}

impl View for Argument {
    type V = ArgumentView;

    open spec fn view(&self) -> ArgumentView {
        match self {
            Argument::Resource { cfgs, slot } => ArgumentView::Resource {
                cfgs: views(cfgs@),
                slot: slot@,
            },
            Argument::InterruptNumber => ArgumentView::InterruptNumber,
            Argument::ExceptionFrame => ArgumentView::ExceptionFrame,
        }
    }
}

/// The resources among `params`, in order.
pub open spec fn resources_of(params: Seq<HandlerParamView>) -> Seq<ResourceParamView> {
    params.filter_map(
        |p: HandlerParamView|
            match p.kind {
                HandlerParamKindView::Resource(res) => Some(res),
                _ => None,
            },
    )
}

/// One storage slot for each resource, in order: slot number `i` is named
/// by `i` and has the type, the initial value and the guards of resource
/// number `i`.
pub open spec fn slots_of(resources: Seq<ResourceParamView>) -> Seq<StorageSlotView> {
    Seq::new(
        resources.len(),
        |i: int|
            StorageSlotView {
                cfgs: resources[i].cfgs,
                name: slot_name(i as nat),
                ty: resources[i].ty,
                init: resources[i].init,
            },
    )
}

/// One call argument for each resource, in order: argument number `i`
/// borrows slot number `i` under the guards of resource number `i`.
pub open spec fn arguments_of(resources: Seq<ResourceParamView>) -> Seq<ArgumentView> {
    Seq::new(
        resources.len(),
        |i: int| ArgumentView::Resource { cfgs: resources[i].cfgs, slot: slot_name(i as nat) },
    )
}

/// The storage slots of the resources `res`.
pub fn declare_resources(res: &Vec<ResourceParam>) -> (slots: Vec<StorageSlot>)
    ensures
        views(slots@) == slots_of(views(res@)),
{
    let mut slots: Vec<StorageSlot> = Vec::new();
    let mut i: usize = 0;
    while i < res.len()
        invariant
            i <= res.len(),
            slots@.len() == i,
            forall|j: int| 0 <= j < i ==> (#[trigger] slots@[j])@ == slots_of(views(res@))[j],
        decreases res.len() - i,
    {
        let slot = StorageSlot {
            cfgs: copy_attributes(&res[i].cfgs),
            name: resource_name(i),
            ty: res[i].ty.clone(),
            init: res[i].init.clone(),
        };
        assert(views(res@)[i as int] == res@[i as int]@);
        slots.push(slot);
        i = i + 1;
    }
    assert(views(slots@) =~= slots_of(views(res@)));
    slots
}

/// The expressions that pass the resources `res` to the handler.
pub fn resource_arguments(res: &Vec<ResourceParam>) -> (arguments: Vec<Argument>)
    ensures
        views(arguments@) == arguments_of(views(res@)),
{
    let mut arguments: Vec<Argument> = Vec::new();
    let mut i: usize = 0;
    while i < res.len()
        invariant
            i <= res.len(),
            arguments@.len() == i,
            forall|j: int|
                0 <= j < i ==> (#[trigger] arguments@[j])@ == arguments_of(views(res@))[j],
        decreases res.len() - i,
    {
        let argument = Argument::Resource {
            cfgs: copy_attributes(&res[i].cfgs),
            slot: resource_name(i),
        };
        assert(views(res@)[i as int] == res@[i as int]@);
        arguments.push(argument);
        i = i + 1;
    }
    assert(views(arguments@) =~= arguments_of(views(res@)));
    arguments
}

/// Filtering one parameter more either appends its resource or changes
/// nothing.
pub proof fn lemma_resources_next(params: Seq<HandlerParamView>, n: int)
    requires
        0 <= n < params.len(),
    ensures
        resources_of(params.take(n + 1)) == match params[n].kind {
            HandlerParamKindView::Resource(res) => resources_of(params.take(n)).push(res),
            _ => resources_of(params.take(n)),
        },
{
    assert(params.take(n + 1).drop_last() =~= params.take(n));
    match params[n].kind {
        HandlerParamKindView::Resource(res) => {
            assert(resources_of(params.take(n)) + seq![res] =~= resources_of(
                params.take(n),
            ).push(res));
        },
        _ => {},
    }
}

/// The resources among `params`, in order.
pub fn resources(params: &Vec<HandlerParam>) -> (res: Vec<ResourceParam>)
    ensures
        views(res@) == resources_of(views(params@)),
{
    let mut res: Vec<ResourceParam> = Vec::new();
    let mut i: usize = 0;
    assert(views(res@) =~= resources_of(views(params@).take(0)));
    while i < params.len()
        invariant
            i <= params.len(),
            views(res@) == resources_of(views(params@).take(i as int)),
        decreases params.len() - i,
    {
        proof {
            lemma_resources_next(views(params@), i as int);
        }
        assert(views(params@)[i as int] == params@[i as int]@);
        if let HandlerParamKind::Resource(r) = &params[i].kind {
            let copy = ResourceParam {
                init: r.init.clone(),
                ty: r.ty.clone(),
                cfgs: copy_attributes(&r.cfgs),
                is_static: r.is_static,
            };
            assert(views(res@.push(copy)) =~= views(res@).push(copy@));
            res.push(copy);
        }
        i = i + 1;
    }
    assert(views(params@).take(params.len() as int) =~= views(params@));
    res
}

/// The function bound to the vector's symbol. It declares the storage of
/// the resources and calls the handler with them, or with what the
/// hardware handed in.
pub struct Trampoline {
    /// The attributes of the handler that pass through: documentation,
    /// link placement, conditional compilation and lint control.
    pub attrs: Vec<Attribute>,
    /// The symbol that the linker places in the vector table.
    pub export_name: String,
    /// The link section that keeps the function resident, on bare metal.
    pub link_section: Option<String>,
    /// What the trampoline takes in and hands on.
    pub injection: Injection,
    /// Whether the trampoline is declared never to return.
    pub diverges: bool,
    pub slots: Vec<StorageSlot>,
    /// The name of the handler.
    pub callee: String,
    pub arguments: Vec<Argument>,
}

pub struct TrampolineView {
    pub attrs: Seq<AttributeView>,
    pub export_name: Seq<char>,
    pub link_section: Option<Seq<char>>,
    pub injection: Injection,
    pub diverges: bool,
    pub slots: Seq<StorageSlotView>,
    pub callee: Seq<char>,
    pub arguments: Seq<ArgumentView>,
}

impl View for Trampoline {
    type V = TrampolineView;

    open spec fn view(&self) -> TrampolineView {
        TrampolineView {
            attrs: views(self.attrs@),
            export_name: self.export_name@,
            link_section: crate::syntax::text_view(self.link_section),
            injection: self.injection,
            diverges: self.diverges,
            slots: views(self.slots@),
            callee: self.callee@,
            arguments: views(self.arguments@),
        }
    }
}

/// A reference to the member of the hardware's enumeration that the
/// handler is named after, so that an unknown name fails the build.
pub enum Assertion {
    /// Nothing is asserted.
    Nothing,
    /// `Exception::name` must exist on the target.
    Exception { name: String },
    /// The path must be a value of the type named by the path without its
    /// last segment.
    Interrupt { leading_colon: bool, segments: Vec<String> },
}

/// What a handler attribute puts in place of the function it stands on.
pub struct Expansion {
    pub assertion: Assertion,
    pub trampoline: Trampoline,
    /// The handler itself.
    pub handler: HandlerFn,
}

/// The arguments that a trampoline with this injection passes for
/// `params`.
pub open spec fn call_arguments(injection: Injection, params: Seq<HandlerParamView>) -> Seq<
    ArgumentView,
> {
    match injection {
        Injection::Nothing => arguments_of(resources_of(params)),
        Injection::InterruptNumber => seq![ArgumentView::InterruptNumber],
        Injection::ExceptionFrame => seq![ArgumentView::ExceptionFrame],
    }
}

/// The trampoline of a handler `func` with parameters `params`.
pub open spec fn trampoline_of(
    export_name: Seq<char>,
    link_section: Option<Seq<char>>,
    injection: Injection,
    diverges: bool,
    func: HandlerFn,
    params: Seq<HandlerParamView>,
) -> TrampolineView {
    TrampolineView {
        attrs: views(passing(func.attrs@)),
        export_name,
        link_section,
        injection,
        diverges,
        slots: slots_of(resources_of(params)),
        callee: func.ident@,
        arguments: call_arguments(injection, params),
    }
}

/// Builds the trampoline of `handler`.
fn build_trampoline(
    export_name: &str,
    link_section: Option<String>,
    injection: Injection,
    diverges: bool,
    handler: &HandlerDeclaration,
) -> (trampoline: Trampoline)
    ensures
        trampoline@ == trampoline_of(
            export_name@,
            crate::syntax::text_view(link_section),
            injection,
            diverges,
            handler.func,
            views(handler.params@),
        ),
{
    let res = resources(&handler.params);
    let slots = declare_resources(&res);
    let arguments = match injection {
        Injection::Nothing => resource_arguments(&res),
        Injection::InterruptNumber => {
            let mut arguments: Vec<Argument> = Vec::new();
            arguments.push(Argument::InterruptNumber);
            assert(views(arguments@) =~= seq![ArgumentView::InterruptNumber]);
            arguments
        },
        Injection::ExceptionFrame => {
            let mut arguments: Vec<Argument> = Vec::new();
            arguments.push(Argument::ExceptionFrame);
            assert(views(arguments@) =~= seq![ArgumentView::ExceptionFrame]);
            arguments
        },
    };
    Trampoline {
        attrs: pass_through_attributes(&handler.func.attrs),
        export_name: String::from_str(export_name),
        link_section,
        injection,
        diverges,
        slots,
        callee: handler.func.ident.clone(),
        arguments,
    }
}

/// The expansion of a handler that takes resources only: a trampoline
/// bound to `export_name`, and the handler unchanged.
pub fn codegen_simple_handler(export_name: &str, must_diverge: bool, handler: HandlerDeclaration)
    -> (expansion: Expansion)
    ensures
        expansion.assertion == Assertion::Nothing,
        expansion.trampoline@ == trampoline_of(
            export_name@,
            None,
            Injection::Nothing,
            must_diverge,
            handler.func,
            views(handler.params@),
        ),
        expansion.handler == handler.func,
{
    let trampoline = build_trampoline(export_name, None, Injection::Nothing, must_diverge, &handler);
    Expansion { assertion: Assertion::Nothing, trampoline, handler: handler.func }
}

/// The expansion of an interrupt handler: the trampoline is bound to the
/// name of the variant, the last segment of the path, and the path is
/// asserted to be a value of the enumeration it names.
pub fn codegen_interrupt_handler(args: InterruptArgs, handler: HandlerDeclaration) -> (expansion:
    Expansion)
    requires
        args.wf(),
    ensures
        expansion.assertion == (Assertion::Interrupt {
            leading_colon: args.leading_colon,
            segments: args.segments,
        }),
        expansion.trampoline@ == trampoline_of(
            args.segments@.last()@,
            None,
            Injection::Nothing,
            false,
            handler.func,
            views(handler.params@),
        ),
        expansion.handler == handler.func,
{
    let variant = &args.segments[args.segments.len() - 1];
    let trampoline = build_trampoline(variant.as_str(), None, Injection::Nothing, false, &handler);
    Expansion {
        assertion: Assertion::Interrupt {
            leading_colon: args.leading_colon,
            segments: args.segments,
        },
        trampoline,
        handler: handler.func,
    }
}

/// The link section of the hard fault trampoline.
pub open spec fn hard_fault_section() -> Seq<char> {
    ".HardFault.user"@
}

/// The link section that the trampoline of a handler with this injection
/// is placed in: only the hard fault trampoline, which takes the exception
/// frame, has one.
pub open spec fn link_section_of(injection: Injection) -> Option<Seq<char>> {
    if injection == Injection::ExceptionFrame {
        Some(hard_fault_section())
    } else {
        None
    }
}

/// The assertion that goes with the handler of `args`: the exceptions that
/// not every target has are referred to by name.
pub open spec fn exception_assertion(args: ExceptionArgs, assertion: Assertion) -> bool {
    if args.exception.hazardous() {
        assertion == Assertion::Nothing
    } else {
        assertion matches Assertion::Exception { name } && name@ == args.name@
    }
}

/// The expansion of an exception handler: the trampoline is bound to the
/// exception's name and passes what the kind injects.
pub fn codegen_exception_handler(
    args: &ExceptionArgs,
    must_diverge: bool,
    handler: HandlerDeclaration,
) -> (expansion: Expansion)
    ensures
        exception_assertion(*args, expansion.assertion),
        expansion.trampoline@ == trampoline_of(
            args.name@,
            link_section_of(handler.kind.spec_rule().injection),
            handler.kind.spec_rule().injection,
            must_diverge,
            handler.func,
            views(handler.params@),
        ),
        expansion.handler == handler.func,
{
    let injection = handler.kind.rule().injection;
    let link_section = if injection == Injection::ExceptionFrame {
        Some(String::from_str(".HardFault.user"))
    } else {
        None
    };
    let trampoline = build_trampoline(
        args.name.as_str(),
        link_section,
        injection,
        must_diverge,
        &handler,
    );
    let assertion = if args.exception.is_unsafe_to_define() {
        Assertion::Nothing
    } else {
        Assertion::Exception { name: args.name.clone() }
    };
    Expansion { assertion, trampoline, handler: handler.func }
}

/// The address of the interrupt control and state register.
pub const STATUS_REGISTER: u32 = 0xE000_ED04;

/// The bits of the status register that hold the number of the active
/// vector.
pub const VECTOR_MASK: u32 = 0x1FF;

/// The number of vectors that stand before the first interrupt.
pub const EXCEPTION_VECTORS: u16 = 16;

/// The number that is passed for a status register that reads `status`:
/// the number of the active vector, less the vectors of the exceptions.
pub open spec fn injected_number(status: u32) -> int {
    (status & VECTOR_MASK) - EXCEPTION_VECTORS
}

/// The number that `argument` passes to the handler when the status
/// register reads `status`, if it passes a number.
pub open spec fn number_passed(argument: ArgumentView, status: u32) -> Option<int> {
    match argument {
        ArgumentView::InterruptNumber => Some(injected_number(status)),
        _ => None,
    }
}

/// The number that the default handler is called with: the low nine bits
/// of the interrupt control and state register hold the number of the
/// active vector, and the first sixteen vectors are the exceptions, which
/// get the negative numbers.
pub fn interrupt_number(status_register: u32) -> (irqn: i16)
    ensures
        irqn == injected_number(status_register),
        irqn == (status_register & 0x1FF) - 16,
        -16 <= irqn <= 495,
{
    let active: u32 = status_register & VECTOR_MASK;
    assert(active <= 0x1FF) by (bit_vector)
        requires
            active == status_register & 0x1FF,
    ;
    (active as i16) - (EXCEPTION_VECTORS as i16)
}

/// The number passed depends on the low nine bits of the status register
/// alone, and lies between -16 and 495.
pub proof fn lemma_injected_number(status: u32)
    ensures
        injected_number(status) == (status & 0x1FF) - 16,
        -16 <= injected_number(status) <= 495,
        injected_number(status) == injected_number(status & 0x1FF),
{
    assert(status & 0x1FF <= 0x1FF) by (bit_vector);
    assert((status & 0x1FF) & 0x1FF == status & 0x1FF) by (bit_vector);
}

/// The hexadecimal digit `d`, in upper case.
pub open spec fn hex_digit(d: nat) -> char {
    if d < 10 {
        digit(d)
    } else if d == 10 {
        'A'
    } else if d == 11 {
        'B'
    } else if d == 12 {
        'C'
    } else if d == 13 {
        'D'
    } else if d == 14 {
        'E'
    } else {
        'F'
    }
}

/// `n` in hexadecimal, in upper case and without leading zeros, its digits
/// in groups of four from the right with `_` between the groups, where
/// `phase` digits of a group already stand to the right of it.
pub open spec fn hexadecimal(n: nat, phase: nat) -> Seq<char>
    decreases n,
{
    if n < 16 {
        seq![hex_digit(n)]
    } else if phase % 4 == 3 {
        hexadecimal(n / 16, 0).push('_').push(hex_digit(n % 16))
    } else {
        hexadecimal(n / 16, phase % 4 + 1).push(hex_digit(n % 16))
    }
}

/// The hexadecimal digit `d`, as text.
fn hex_digit_text(d: u32) -> (text: &'static str)
    requires
        d < 16,
    ensures
        text@ == seq![hex_digit(d as nat)],
{
    proof {
        reveal_strlit("A");
        reveal_strlit("B");
        reveal_strlit("C");
        reveal_strlit("D");
        reveal_strlit("E");
        reveal_strlit("F");
    }
    if d < 10 {
        digit_text(d as usize)
    } else {
        let text = if d == 10 {
            "A"
        } else if d == 11 {
            "B"
        } else if d == 12 {
            "C"
        } else if d == 13 {
            "D"
        } else if d == 14 {
            "E"
        } else {
            "F"
        };
        assert(text@ =~= seq![hex_digit(d as nat)]);
        text
    }
}

/// Appends `n` in hexadecimal to `text`, where `phase` digits of a group
/// will stand to the right of it.
pub fn append_hexadecimal(text: &mut String, n: u32, phase: u8)
    requires
        phase < 4,
    ensures
        final(text)@ == old(text)@ + hexadecimal(n as nat, phase as nat),
    decreases n,
{
    if n < 16 {
        text.append(hex_digit_text(n));
    } else if phase == 3 {
        append_hexadecimal(text, n / 16, 0);
        proof {
            reveal_strlit("_");
        }
        assert("_"@ =~= seq!['_']);
        text.append("_");
        text.append(hex_digit_text(n % 16));
        assert(text@ =~= old(text)@ + hexadecimal(n as nat, phase as nat));
    } else {
        append_hexadecimal(text, n / 16, phase + 1);
        text.append(hex_digit_text(n % 16));
        assert(text@ =~= old(text)@ + hexadecimal(n as nat, phase as nat));
    }
}

} // verus!
