//! What a build configuration leaves of the storage and of the call: a
//! resource whose guards do not all hold contributes neither a slot nor an
//! argument.

use vstd::prelude::*;
use crate::codegen::{
    arguments_of, decimal, digit, slot_name, slots_of, ArgumentView, StorageSlotView,
};
use crate::input::{lemma_filter_next, other_attributes, param_of, role_of, ResourceParamView};
use crate::syntax::{guards, views, Attribute, AttributeView, FnArg, PatType};

verus! {

/// Whether all of `cfgs` hold in the configuration `holds`.
pub open spec fn enabled(cfgs: Seq<AttributeView>, holds: spec_fn(AttributeView) -> bool) -> bool {
    forall|i: int| 0 <= i < cfgs.len() ==> holds(#[trigger] cfgs[i])
}

/// Whether a slot is compiled in.
pub open spec fn slot_active(holds: spec_fn(AttributeView) -> bool) -> spec_fn(
    StorageSlotView,
) -> bool {
    |slot: StorageSlotView| enabled(slot.cfgs, holds)
}

/// Whether an argument is compiled in.
pub open spec fn argument_active(holds: spec_fn(AttributeView) -> bool) -> spec_fn(
    ArgumentView,
) -> bool {
    |argument: ArgumentView|
        match argument {
            ArgumentView::Resource { cfgs, .. } => enabled(cfgs, holds),
            _ => true,
        }
}

/// The slots that are compiled in.
pub open spec fn active_slots(slots: Seq<StorageSlotView>, holds: spec_fn(AttributeView) -> bool)
    -> Seq<StorageSlotView> {
    slots.filter(slot_active(holds))
}

/// The arguments that are compiled in.
pub open spec fn active_arguments(
    arguments: Seq<ArgumentView>,
    holds: spec_fn(AttributeView) -> bool,
) -> Seq<ArgumentView> {
    arguments.filter(argument_active(holds))
}

/// The number of resources among the first `n` whose guards all hold.
pub open spec fn active_count(
    resources: Seq<ResourceParamView>,
    holds: spec_fn(AttributeView) -> bool,
    n: nat,
) -> nat
    decreases n,
{
    if n == 0 {
        0
    } else {
        active_count(resources, holds, (n - 1) as nat) + if enabled(resources[n - 1].cfgs, holds) {
            1nat
        } else {
            0nat
        }
    }
}

/// Whether argument and slot belong together: the argument borrows that
/// slot, under the same guards.
pub open spec fn borrows(argument: ArgumentView, slot: StorageSlotView) -> bool {
    argument matches ArgumentView::Resource { cfgs, slot: name } && name == slot.name && cfgs
        == slot.cfgs
}

/// Lowering `n` resources gives `n` slots and `n` arguments, in the order
/// of the resources: slot and argument number `i` carry the guards of
/// resource number `i`, the slot has its type and its initial value, and
/// the argument borrows that slot.
pub proof fn lemma_one_slot_per_resource(resources: Seq<ResourceParamView>)
    ensures
        slots_of(resources).len() == resources.len(),
        arguments_of(resources).len() == resources.len(),
        forall|i: int|
            0 <= i < resources.len() ==> {
                &&& (#[trigger] slots_of(resources)[i]).cfgs == resources[i].cfgs
                &&& slots_of(resources)[i].ty == resources[i].ty
                &&& slots_of(resources)[i].init == resources[i].init
                &&& slots_of(resources)[i].name == slot_name(i as nat)
                &&& borrows(arguments_of(resources)[i], slots_of(resources)[i])
            },
{
}

/// Among the first `n` resources, the slots and the arguments that are
/// compiled in are as many as the resources whose guards hold, and they
/// pair off in order.
pub proof fn lemma_active_prefix(
    resources: Seq<ResourceParamView>,
    holds: spec_fn(AttributeView) -> bool,
    n: nat,
)
    requires
        n <= resources.len(),
    ensures
        ({
            let slots = active_slots(slots_of(resources).take(n as int), holds);
            let arguments = active_arguments(arguments_of(resources).take(n as int), holds);
            &&& slots.len() == active_count(resources, holds, n)
            &&& arguments.len() == active_count(resources, holds, n)
            &&& forall|i: int| 0 <= i < slots.len() ==> borrows(#[trigger] arguments[i], slots[i])
        }),
    decreases n,
{
    reveal(Seq::filter);
    if n > 0 {
        lemma_active_prefix(resources, holds, (n - 1) as nat);
        lemma_filter_next(slots_of(resources), slot_active(holds), n - 1);
        lemma_filter_next(arguments_of(resources), argument_active(holds), n - 1);
    }
}

/// Storage and call stay in step under every build configuration: the
/// slots that are compiled in and the arguments that are compiled in are
/// equally many, and the argument number `i` borrows the slot number `i`.
pub proof fn lemma_lowering_in_step(
    resources: Seq<ResourceParamView>,
    holds: spec_fn(AttributeView) -> bool,
)
    ensures
        ({
            let slots = active_slots(slots_of(resources), holds);
            let arguments = active_arguments(arguments_of(resources), holds);
            &&& slots.len() == active_count(resources, holds, resources.len())
            &&& arguments.len() == slots.len()
            &&& forall|i: int| 0 <= i < slots.len() ==> borrows(#[trigger] arguments[i], slots[i])
        }),
{
    lemma_active_prefix(resources, holds, resources.len());
    assert(slots_of(resources).take(resources.len() as int) =~= slots_of(resources));
    assert(arguments_of(resources).take(resources.len() as int) =~= arguments_of(resources));
}

/// Switching one resource off takes one from the count of those among the
/// first `n`, if it is among them.
pub proof fn lemma_count_without(
    resources: Seq<ResourceParamView>,
    before: spec_fn(AttributeView) -> bool,
    after: spec_fn(AttributeView) -> bool,
    k: int,
    n: nat,
)
    requires
        0 <= k < resources.len(),
        n <= resources.len(),
        enabled(resources[k].cfgs, before),
        !enabled(resources[k].cfgs, after),
        forall|i: int|
            0 <= i < resources.len() && i != k ==> enabled(
                (#[trigger] resources[i]).cfgs,
                before,
            ) == enabled(resources[i].cfgs, after),
    ensures
        active_count(resources, after, n) + (if k < n {
            1nat
        } else {
            0nat
        }) == active_count(resources, before, n),
    decreases n,
{
    if n > 0 {
        lemma_count_without(resources, before, after, k, (n - 1) as nat);
        if n - 1 != k {
            assert(enabled(resources[n - 1].cfgs, before) == enabled(resources[n - 1].cfgs, after));
        }
    }
}

/// Switching off the guards of one resource, and changing nothing for the
/// others, removes exactly its slot and its argument: there is one slot
/// less and one argument less.
pub proof fn lemma_disabling_removes_one(
    resources: Seq<ResourceParamView>,
    before: spec_fn(AttributeView) -> bool,
    after: spec_fn(AttributeView) -> bool,
    k: int,
)
    requires
        0 <= k < resources.len(),
        enabled(resources[k].cfgs, before),
        !enabled(resources[k].cfgs, after),
        forall|i: int|
            0 <= i < resources.len() && i != k ==> enabled(
                (#[trigger] resources[i]).cfgs,
                before,
            ) == enabled(resources[i].cfgs, after),
    ensures
        active_slots(slots_of(resources), after).len() + 1 == active_slots(
            slots_of(resources),
            before,
        ).len(),
        active_arguments(arguments_of(resources), after).len() + 1 == active_arguments(
            arguments_of(resources),
            before,
        ).len(),
{
    lemma_lowering_in_step(resources, before);
    lemma_lowering_in_step(resources, after);
    lemma_count_without(resources, before, after, k, resources.len());
}

/// A resource carries the guards of its parameter, and the parameter
/// keeps them when its role attribute is taken off: the guards stand on
/// the parameter, on the slot and on the argument alike.
pub proof fn lemma_guards_carried(param: PatType, index: usize)
    requires
        param_of(FnArg::Typed(param), index) matches Ok(read) && read.kind is Resource,
    ensures
        param_of(FnArg::Typed(param), index)->Ok_0.kind->Resource_0.cfgs == views(
            guards(param.attrs@),
        ),
        guards(other_attributes(param.attrs@)) == guards(param.attrs@),
{
    lemma_guards_are_no_roles(param.attrs@);
}

/// A guard denotes no role, so taking the role attributes off a list
/// leaves its guards as they were.
pub proof fn lemma_guards_are_no_roles(attrs: Seq<Attribute>)
    ensures
        guards(other_attributes(attrs)) == guards(attrs),
    decreases attrs.len(),
{
    reveal(Seq::filter);
    reveal_strlit("cfg");
    reveal_strlit("init");
    reveal_strlit("irqn");
    reveal_strlit("exception_frame");
    if attrs.len() > 0 {
        lemma_guards_are_no_roles(attrs.drop_last());
        let last = attrs.last();
        if last@.is_cfg() {
            assert("cfg"@.len() == 3);
            assert(role_of(last@) is None);
        }
        if role_of(last@) is None {
            assert(other_attributes(attrs).drop_last() =~= other_attributes(attrs.drop_last()));
        }
    }
}

/// The last digit and the digits before it.
proof fn lemma_decimal_shape(n: nat)
    ensures
        decimal(n).len() >= 1,
        n >= 10 ==> decimal(n).len() >= 2,
        decimal(n).last() == digit(n % 10),
        n >= 10 ==> decimal(n).drop_last() == decimal(n / 10),
    decreases n,
{
    if n >= 10 {
        lemma_decimal_shape(n / 10);
        assert(decimal(n).drop_last() =~= decimal(n / 10));
    }
}

/// Different numbers are written differently.
pub proof fn lemma_decimal_distinct(a: nat, b: nat)
    requires
        decimal(a) == decimal(b),
    ensures
        a == b,
    decreases a,
{
    lemma_decimal_shape(a);
    lemma_decimal_shape(b);
    assert(a % 10 == b % 10);
    if a >= 10 || b >= 10 {
        assert(a >= 10 && b >= 10);
        lemma_decimal_distinct(a / 10, b / 10);
    }
}

/// Every resource has a slot of its own: different resources get
/// different names.
pub proof fn lemma_slots_distinct(i: nat, j: nat)
    requires
        slot_name(i) == slot_name(j),
    ensures
        i == j,
{
    let prefix = "RESOURCE_"@;
    assert(decimal(i) =~= slot_name(i).subrange(prefix.len() as int, slot_name(i).len() as int));
    assert(decimal(j) =~= slot_name(j).subrange(prefix.len() as int, slot_name(j).len() as int));
    lemma_decimal_distinct(i, j);
}

} // verus!
