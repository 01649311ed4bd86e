//! Writing an expansion out as source text.
//!
//! Each piece is described by the text that stands once it has been
//! written after what was there before.

use vstd::prelude::*;
use vstd::string::StringExecFns;
use crate::attributes::PreInit;
use crate::catalog::Injection;
use crate::codegen::{
    append_decimal, append_hexadecimal, decimal, hexadecimal, Argument, Assertion, Expansion,
    StorageSlot, Trampoline, EXCEPTION_VECTORS, STATUS_REGISTER, VECTOR_MASK,
};
use crate::syntax::{Attribute, FnArg, HandlerFn, ParamType, ReturnType};

verus! {

/// `before`, then `text` if `condition` holds.
pub open spec fn with_if(before: Seq<char>, condition: bool, text: Seq<char>) -> Seq<char> {
    if condition {
        before + text
    } else {
        before
    }
}

/// `before`, then `#[path tokens]`, or `#![path tokens]` for an inner
/// attribute.
pub open spec fn with_attribute(before: Seq<char>, attr: Attribute) -> Seq<char> {
    before + (if attr.outer {
        "#["@
    } else {
        "#!["@
    }) + attr.path@ + " "@ + attr.tokens@ + "] "@
}

/// `before`, then the first `n` of `attrs`.
pub open spec fn with_attributes(before: Seq<char>, attrs: Seq<Attribute>, n: nat) -> Seq<char>
    decreases n,
{
    if n == 0 {
        before
    } else {
        with_attribute(with_attributes(before, attrs, (n - 1) as nat), attrs[n - 1])
    }
}

/// `before`, then the type as it is written.
pub open spec fn with_type(before: Seq<char>, ty: ParamType) -> Seq<char> {
    match ty {
        ParamType::Reference { lifetime, mutable, elem } => {
            let reference = before + "&"@;
            let lifetime = match lifetime {
                Some(name) => reference + "'"@ + name@ + " "@,
                None => reference,
            };
            with_if(lifetime, mutable, "mut "@) + elem@
        },
        ParamType::Other { text } => before + text@,
    }
}

/// `before`, then the parameter and a comma.
pub open spec fn with_input(before: Seq<char>, arg: FnArg) -> Seq<char> {
    match arg {
        FnArg::Receiver { text } => before + text@ + ", "@,
        FnArg::Typed(param) => with_type(
            with_attributes(before, param.attrs@, param.attrs@.len()) + param.pat@ + ": "@,
            param.ty,
        ) + ", "@,
    }
}

/// `before`, then the first `n` of `inputs`.
pub open spec fn with_inputs(before: Seq<char>, inputs: Seq<FnArg>, n: nat) -> Seq<char>
    decreases n,
{
    if n == 0 {
        before
    } else {
        with_input(with_inputs(before, inputs, (n - 1) as nat), inputs[n - 1])
    }
}

/// `before`, then the return type with its arrow.
pub open spec fn with_output(before: Seq<char>, output: ReturnType) -> Seq<char> {
    match output {
        ReturnType::Default => before,
        ReturnType::Unit => before + " -> ()"@,
        ReturnType::Never => before + " -> !"@,
        ReturnType::Other { text } => before + " -> "@ + text@,
    }
}

/// `before`, then the words that stand before `fn`.
pub open spec fn with_qualifiers(before: Seq<char>, func: HandlerFn) -> Seq<char> {
    let visibility = if func.vis@.len() > 0 {
        before + func.vis@ + " "@
    } else {
        before
    };
    let constness = with_if(visibility, func.constness, "const "@);
    let asyncness = with_if(constness, func.asyncness, "async "@);
    let unsafety = with_if(asyncness, func.unsafety, "unsafe "@);
    match func.abi {
        Some(abi) => unsafety + "extern "@ + abi@ + " "@,
        None => unsafety,
    }
}

/// `before`, then the function as it is written.
pub open spec fn with_function(before: Seq<char>, func: HandlerFn) -> Seq<char> {
    let qualifiers = with_qualifiers(
        with_attributes(before, func.attrs@, func.attrs@.len()),
        func,
    );
    let name = qualifiers + "fn "@ + func.ident@;
    let generics = if func.generics@.len() > 0 {
        name + "<"@ + func.generics@ + ">"@
    } else {
        name
    };
    let inputs = with_if(
        with_inputs(generics + "("@, func.inputs@, func.inputs@.len()),
        func.variadic,
        "..."@,
    ) + ")"@;
    let output = with_output(inputs, func.output);
    let bounds = match func.where_clause {
        Some(predicates) => output + " where "@ + predicates@,
        None => output,
    };
    bounds + " "@ + func.block@
}

/// `before`, then `static mut name: ty = init;` under its guards.
pub open spec fn with_slot(before: Seq<char>, slot: StorageSlot) -> Seq<char> {
    with_attributes(before, slot.cfgs@, slot.cfgs@.len()) + "static mut "@ + slot.name@ + ": "@
        + slot.ty@ + " = "@ + slot.init@ + "; "@
}

/// `before`, then the first `n` of `slots`.
pub open spec fn with_slots(before: Seq<char>, slots: Seq<StorageSlot>, n: nat) -> Seq<char>
    decreases n,
{
    if n == 0 {
        before
    } else {
        with_slot(with_slots(before, slots, (n - 1) as nat), slots[n - 1])
    }
}

/// `before`, then the argument and a comma.
pub open spec fn with_argument(before: Seq<char>, argument: Argument) -> Seq<char> {
    match argument {
        Argument::Resource { cfgs, slot } => with_attributes(before, cfgs@, cfgs@.len())
            + "&mut "@ + slot@ + ", "@,
        Argument::InterruptNumber => before + "irqn, "@,
        Argument::ExceptionFrame => before + "frame, "@,
    }
}

/// `before`, then the first `n` of `arguments`.
pub open spec fn with_arguments(before: Seq<char>, arguments: Seq<Argument>, n: nat) -> Seq<
    char,
>
    decreases n,
{
    if n == 0 {
        before
    } else {
        with_argument(with_arguments(before, arguments, (n - 1) as nat), arguments[n - 1])
    }
}

/// `before`, then the statement that reads the number of the active
/// vector from the status register and takes off the vectors of the
/// exceptions: the computation of `interrupt_number`, written with the
/// same address, mask and count.
pub open spec fn with_number_read(before: Seq<char>) -> Seq<char> {
    before + "let irqn = unsafe { (::core::ptr::read_volatile(0x"@ + hexadecimal(
        STATUS_REGISTER as nat,
        0,
    ) + " as *const u32) & 0x"@ + hexadecimal(VECTOR_MASK as nat, 0) + ") as i16 - "@ + decimal(
        EXCEPTION_VECTORS as nat,
    ) + " }; "@
}

/// `before`, then the trampoline: a function without a name of its own,
/// bound to its symbol, that declares the slots and calls the handler.
pub open spec fn with_trampoline(before: Seq<char>, trampoline: Trampoline) -> Seq<char> {
    let attrs = with_attributes(
        before + "const _: () = { "@,
        trampoline.attrs@,
        trampoline.attrs@.len(),
    );
    let symbol = attrs + "#[export_name = \""@ + trampoline.export_name@ + "\"] "@;
    let section = match trampoline.link_section {
        Some(section) => symbol + "#[cfg_attr(target_os = \"none\", link_section = \""@ + section@
            + "\")] "@,
        None => symbol,
    };
    let parameter = with_if(
        section + "unsafe extern \"C\" fn cmrt_handler("@,
        trampoline.injection == Injection::ExceptionFrame,
        "frame: &::cortex_m_rt::ExceptionFrame"@,
    ) + ")"@;
    let body = with_if(parameter, trampoline.diverges, " -> !"@) + " { "@;
    let slots = with_slots(body, trampoline.slots@, trampoline.slots@.len());
    let number = if trampoline.injection == Injection::InterruptNumber {
        with_number_read(slots)
    } else {
        slots
    };
    with_arguments(
        number + trampoline.callee@ + "("@,
        trampoline.arguments@,
        trampoline.arguments@.len(),
    ) + ") } }; "@
}

/// `before`, then the first `to` of `segments`, joined by `::`.
pub open spec fn with_segments(before: Seq<char>, segments: Seq<String>, to: nat) -> Seq<char>
    decreases to,
{
    if to == 0 {
        before
    } else {
        with_if(with_segments(before, segments, (to - 1) as nat), to > 1, "::"@) + segments[to
            - 1]@
    }
}

/// `before`, then the first `to` segments of the path, after `::` if the
/// path has a leading one.
pub open spec fn with_path(
    before: Seq<char>,
    leading_colon: bool,
    segments: Seq<String>,
    to: nat,
) -> Seq<char> {
    with_segments(with_if(before, leading_colon, "::"@), segments, to)
}

/// `before`, then the assertion.
pub open spec fn with_assertion(before: Seq<char>, assertion: Assertion) -> Seq<char> {
    match assertion {
        Assertion::Nothing => before,
        Assertion::Exception { name } => before
            + "const _: () = { let _ = ::cortex_m_rt::Exception::"@ + name@ + "; }; "@,
        Assertion::Interrupt { leading_colon, segments } => with_path(
            with_path(
                before + "const _: () = { let _: "@,
                leading_colon,
                segments@,
                if segments@.len() == 0 {
                    0
                } else {
                    (segments@.len() - 1) as nat
                },
            ) + " = "@,
            leading_colon,
            segments@,
            segments@.len(),
        ) + "; }; "@,
    }
}

/// The expansion, as it is written: the assertion, the trampoline, the
/// handler.
pub open spec fn expansion_text(expansion: Expansion) -> Seq<char> {
    with_function(
        with_trampoline(
            with_assertion(Seq::empty(), expansion.assertion),
            expansion.trampoline,
        ),
        expansion.handler,
    )
}

/// The pre-init function, as it is written.
pub open spec fn pre_init_text(expansion: PreInit) -> Seq<char> {
    with_attributes(
        "#[export_name = \""@ + expansion.export_name@ + "\"] "@,
        expansion.attrs@,
        expansion.attrs@.len(),
    ) + "extern \"C\" fn "@ + expansion.ident@ + "() "@ + expansion.block@
}

/// Appends `attrs` to `out`.
fn write_attributes(out: &mut String, attrs: &Vec<Attribute>)
    ensures
        final(out)@ == with_attributes(old(out)@, attrs@, attrs@.len()),
{
    let mut i: usize = 0;
    while i < attrs.len()
        invariant
            i <= attrs.len(),
            out@ == with_attributes(old(out)@, attrs@, i as nat),
        decreases attrs.len() - i,
    {
        let attr = &attrs[i];
        out.append(if attr.outer {
            "#["
        } else {
            "#!["
        });
        out.append(attr.path.as_str());
        out.append(" ");
        out.append(attr.tokens.as_str());
        out.append("] ");
        i = i + 1;
    }
}

/// Appends `ty` to `out`.
fn write_type(out: &mut String, ty: &ParamType)
    ensures
        final(out)@ == with_type(old(out)@, *ty),
{
    match ty {
        ParamType::Reference { lifetime, mutable, elem } => {
            out.append("&");
            match lifetime {
                Some(name) => {
                    out.append("'");
                    out.append(name.as_str());
                    out.append(" ");
                },
                None => {},
            }
            if *mutable {
                out.append("mut ");
            }
            out.append(elem.as_str());
        },
        ParamType::Other { text } => {
            out.append(text.as_str());
        },
    }
}

/// Appends `inputs` to `out`.
fn write_inputs(out: &mut String, inputs: &Vec<FnArg>)
    ensures
        final(out)@ == with_inputs(old(out)@, inputs@, inputs@.len()),
{
    let mut i: usize = 0;
    while i < inputs.len()
        invariant
            i <= inputs.len(),
            out@ == with_inputs(old(out)@, inputs@, i as nat),
        decreases inputs.len() - i,
    {
        match &inputs[i] {
            FnArg::Receiver { text } => {
                out.append(text.as_str());
                out.append(", ");
            },
            FnArg::Typed(param) => {
                write_attributes(out, &param.attrs);
                out.append(param.pat.as_str());
                out.append(": ");
                write_type(out, &param.ty);
                out.append(", ");
            },
        }
        i = i + 1;
    }
}

/// Appends the words before `fn` to `out`.
fn write_qualifiers(out: &mut String, func: &HandlerFn)
    ensures
        final(out)@ == with_qualifiers(old(out)@, *func),
{
    if !func.vis.as_str().is_empty() {
        out.append(func.vis.as_str());
        out.append(" ");
    }
    if func.constness {
        out.append("const ");
    }
    if func.asyncness {
        out.append("async ");
    }
    if func.unsafety {
        out.append("unsafe ");
    }
    match &func.abi {
        Some(abi) => {
            out.append("extern ");
            out.append(abi.as_str());
            out.append(" ");
        },
        None => {},
    }
}

/// Appends `func` to `out`.
fn write_function(out: &mut String, func: &HandlerFn)
    ensures
        final(out)@ == with_function(old(out)@, *func),
{
    write_attributes(out, &func.attrs);
    write_qualifiers(out, func);
    out.append("fn ");
    out.append(func.ident.as_str());
    if !func.generics.as_str().is_empty() {
        out.append("<");
        out.append(func.generics.as_str());
        out.append(">");
    }
    out.append("(");
    write_inputs(out, &func.inputs);
    if func.variadic {
        out.append("...");
    }
    out.append(")");
    match &func.output {
        ReturnType::Default => {},
        ReturnType::Unit => {
            out.append(" -> ()");
        },
        ReturnType::Never => {
            out.append(" -> !");
        },
        ReturnType::Other { text } => {
            out.append(" -> ");
            out.append(text.as_str());
        },
    }
    match &func.where_clause {
        Some(predicates) => {
            out.append(" where ");
            out.append(predicates.as_str());
        },
        None => {},
    }
    out.append(" ");
    out.append(func.block.as_str());
}

/// Appends `slots` to `out`.
fn write_slots(out: &mut String, slots: &Vec<StorageSlot>)
    ensures
        final(out)@ == with_slots(old(out)@, slots@, slots@.len()),
{
    let mut i: usize = 0;
    while i < slots.len()
        invariant
            i <= slots.len(),
            out@ == with_slots(old(out)@, slots@, i as nat),
        decreases slots.len() - i,
    {
        let slot = &slots[i];
        write_attributes(out, &slot.cfgs);
        out.append("static mut ");
        out.append(slot.name.as_str());
        out.append(": ");
        out.append(slot.ty.as_str());
        out.append(" = ");
        out.append(slot.init.as_str());
        out.append("; ");
        i = i + 1;
    }
}

/// Appends `arguments` to `out`.
fn write_arguments(out: &mut String, arguments: &Vec<Argument>)
    ensures
        final(out)@ == with_arguments(old(out)@, arguments@, arguments@.len()),
{
    let mut i: usize = 0;
    while i < arguments.len()
        invariant
            i <= arguments.len(),
            out@ == with_arguments(old(out)@, arguments@, i as nat),
        decreases arguments.len() - i,
    {
        match &arguments[i] {
            Argument::Resource { cfgs, slot } => {
                write_attributes(out, cfgs);
                out.append("&mut ");
                out.append(slot.as_str());
                out.append(", ");
            },
            Argument::InterruptNumber => {
                out.append("irqn, ");
            },
            Argument::ExceptionFrame => {
                out.append("frame, ");
            },
        }
        i = i + 1;
    }
}

/// Appends the statement that reads the number of the active vector to
/// `out`.
fn write_number_read(out: &mut String)
    ensures
        final(out)@ == with_number_read(old(out)@),
{
    out.append("let irqn = unsafe { (::core::ptr::read_volatile(0x");
    append_hexadecimal(out, STATUS_REGISTER, 0);
    out.append(" as *const u32) & 0x");
    append_hexadecimal(out, VECTOR_MASK, 0);
    out.append(") as i16 - ");
    append_decimal(out, EXCEPTION_VECTORS as usize);
    out.append(" }; ");
}

/// Appends `trampoline` to `out`.
fn write_trampoline(out: &mut String, trampoline: &Trampoline)
    ensures
        final(out)@ == with_trampoline(old(out)@, *trampoline),
{
    out.append("const _: () = { ");
    write_attributes(out, &trampoline.attrs);
    out.append("#[export_name = \"");
    out.append(trampoline.export_name.as_str());
    out.append("\"] ");
    match &trampoline.link_section {
        Some(section) => {
            out.append("#[cfg_attr(target_os = \"none\", link_section = \"");
            out.append(section.as_str());
            out.append("\")] ");
        },
        None => {},
    }
    out.append("unsafe extern \"C\" fn cmrt_handler(");
    if trampoline.injection == Injection::ExceptionFrame {
        out.append("frame: &::cortex_m_rt::ExceptionFrame");
    }
    out.append(")");
    if trampoline.diverges {
        out.append(" -> !");
    }
    out.append(" { ");
    write_slots(out, &trampoline.slots);
    if trampoline.injection == Injection::InterruptNumber {
        write_number_read(out);
    }
    out.append(trampoline.callee.as_str());
    out.append("(");
    write_arguments(out, &trampoline.arguments);
    out.append(") } }; ");
}

/// Appends the first `n` segments of the path to `out`.
fn write_path(out: &mut String, leading_colon: bool, segments: &Vec<String>, n: usize)
    requires
        n <= segments@.len(),
    ensures
        final(out)@ == with_path(old(out)@, leading_colon, segments@, n as nat),
{
    if leading_colon {
        out.append("::");
    }
    let ghost start = out@;
    let mut i: usize = 0;
    while i < n
        invariant
            i <= n <= segments@.len(),
            out@ == with_segments(start, segments@, i as nat),
        decreases n - i,
    {
        if i > 0 {
            out.append("::");
        }
        out.append(segments[i].as_str());
        i = i + 1;
    }
}

/// Appends `assertion` to `out`.
fn write_assertion(out: &mut String, assertion: &Assertion)
    ensures
        final(out)@ == with_assertion(old(out)@, *assertion),
{
    match assertion {
        Assertion::Nothing => {},
        Assertion::Exception { name } => {
            out.append("const _: () = { let _ = ::cortex_m_rt::Exception::");
            out.append(name.as_str());
            out.append("; }; ");
        },
        Assertion::Interrupt { leading_colon, segments } => {
            out.append("const _: () = { let _: ");
            let enumeration = if segments.len() == 0 {
                0
            } else {
                segments.len() - 1
            };
            write_path(out, *leading_colon, segments, enumeration);
            out.append(" = ");
            write_path(out, *leading_colon, segments, segments.len());
            out.append("; }; ");
        },
    }
}

impl Expansion {
    /// The source text of the expansion.
    pub fn render(&self) -> (text: String)
        ensures
            text@ == expansion_text(*self),
    {
        let mut text = String::new();
        write_assertion(&mut text, &self.assertion);
        write_trampoline(&mut text, &self.trampoline);
        write_function(&mut text, &self.handler);
        text
    }
}

impl PreInit {
    /// The source text of the pre-init function.
    pub fn render(&self) -> (text: String)
        ensures
            text@ == pre_init_text(*self),
    {
        let mut text = String::from_str("#[export_name = \"");
        text.append(self.export_name.as_str());
        text.append("\"] ");
        write_attributes(&mut text, &self.attrs);
        text.append("extern \"C\" fn ");
        text.append(self.ident.as_str());
        text.append("() ");
        text.append(self.block.as_str());
        text
    }
}

} // verus!
