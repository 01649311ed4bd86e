//! Handing the core peripherals from the code that runs before the entry
//! point on to the entry point.
//!
//! The peripherals can be claimed once. Code that runs before `main` may
//! take them, use them, and give back any subset of them; `main` then
//! takes what was given. Once `main` has begun nothing can be given back.

use vstd::prelude::*;

verus! {

/// The core peripherals, by name.
#[allow(non_camel_case_types)]
#[derive(Clone, Copy, Debug, PartialEq, Eq, Structural)]
pub enum Peripheral {
    /// Cache and branch predictor maintenance operations
    CBP,
    /// CPUID
    CPUID,
    /// Debug Control Block
    DCB,
    /// Data Watchpoint and Trace unit
    DWT,
    /// Flash Patch and Breakpoint unit
    FPB,
    /// Floating Point Unit
    FPU,
    /// Instrumentation Trace Macrocell
    ITM,
    /// Memory Protection Unit
    MPU,
    /// Nested Vector Interrupt Controller
    NVIC,
    /// System Control Block
    SCB,
    /// SysTick: System Timer
    SYST,
    /// Trace Port Interface Unit
    TPIU,
}

/// The handles of all the core peripherals, as the claim hands them out.
#[allow(non_snake_case)]
pub struct Peripherals<CBP, CPUID, DCB, DWT, FPB, FPU, ITM, MPU, NVIC, SCB, SYST, TPIU> {
    pub CBP: CBP,
    pub CPUID: CPUID,
    pub DCB: DCB,
    pub DWT: DWT,
    pub FPB: FPB,
    pub FPU: FPU,
    pub ITM: ITM,
    pub MPU: MPU,
    pub NVIC: NVIC,
    pub SCB: SCB,
    pub SYST: SYST,
    pub TPIU: TPIU,
}

/// Core peripherals handed on through the hand-over slot: each handle is
/// there, or was kept back.
#[allow(non_snake_case)]
pub struct InitArrayPeripherals<CBP, CPUID, DCB, DWT, FPB, FPU, ITM, MPU, NVIC, SCB, SYST, TPIU> {
    pub CBP: Option<CBP>,
    pub CPUID: Option<CPUID>,
    pub DCB: Option<DCB>,
    pub DWT: Option<DWT>,
    pub FPB: Option<FPB>,
    pub FPU: Option<FPU>,
    pub ITM: Option<ITM>,
    pub MPU: Option<MPU>,
    pub NVIC: Option<NVIC>,
    pub SCB: Option<SCB>,
    pub SYST: Option<SYST>,
    pub TPIU: Option<TPIU>,
}

/// The hand-over slot: at most one bundle waits in it, and once the entry
/// point has begun it takes no more.
pub struct HandoffState<CBP, CPUID, DCB, DWT, FPB, FPU, ITM, MPU, NVIC, SCB, SYST, TPIU> {
    pending: Option<
        InitArrayPeripherals<CBP, CPUID, DCB, DWT, FPB, FPU, ITM, MPU, NVIC, SCB, SYST, TPIU>,
    >,
    done: bool,
}

impl<CBP, CPUID, DCB, DWT, FPB, FPU, ITM, MPU, NVIC, SCB, SYST, TPIU> HandoffState<
    CBP,
    CPUID,
    DCB,
    DWT,
    FPB,
    FPU,
    ITM,
    MPU,
    NVIC,
    SCB,
    SYST,
    TPIU,
> {
    /// The bundle that waits in the slot.
    pub closed spec fn pending(self) -> Option<
        InitArrayPeripherals<CBP, CPUID, DCB, DWT, FPB, FPU, ITM, MPU, NVIC, SCB, SYST, TPIU>,
    > {
        self.pending
    }

    /// Whether the entry point has begun.
    pub closed spec fn is_done(self) -> bool {
        self.done
    }

    /// The slot at program start: empty and open.
    pub fn new() -> (state: Self)
        ensures
            state.pending() is None,
            !state.is_done(),
    {
        HandoffState { pending: None, done: false }
    }
}

impl<CBP, CPUID, DCB, DWT, FPB, FPU, ITM, MPU, NVIC, SCB, SYST, TPIU> InitArrayPeripherals<
    CBP,
    CPUID,
    DCB,
    DWT,
    FPB,
    FPU,
    ITM,
    MPU,
    NVIC,
    SCB,
    SYST,
    TPIU,
> {
    /// Whether the handle of `peripheral` is in the bundle.
    pub open spec fn holds(self, peripheral: Peripheral) -> bool {
        match peripheral {
            Peripheral::CBP => self.CBP is Some,
            Peripheral::CPUID => self.CPUID is Some,
            Peripheral::DCB => self.DCB is Some,
            Peripheral::DWT => self.DWT is Some,
            Peripheral::FPB => self.FPB is Some,
            Peripheral::FPU => self.FPU is Some,
            Peripheral::ITM => self.ITM is Some,
            Peripheral::MPU => self.MPU is Some,
            Peripheral::NVIC => self.NVIC is Some,
            Peripheral::SCB => self.SCB is Some,
            Peripheral::SYST => self.SYST is Some,
            Peripheral::TPIU => self.TPIU is Some,
        }
    }

    /// The peripherals whose handles are in the bundle.
    pub open spec fn present(self) -> Set<Peripheral> {
        Set::new(|peripheral: Peripheral| self.holds(peripheral))
    }

    /// The bundle that holds every handle of `p`.
    pub open spec fn all(
        p: Peripherals<CBP, CPUID, DCB, DWT, FPB, FPU, ITM, MPU, NVIC, SCB, SYST, TPIU>,
    ) -> Self {
        InitArrayPeripherals {
            CBP: Some(p.CBP),
            CPUID: Some(p.CPUID),
            DCB: Some(p.DCB),
            DWT: Some(p.DWT),
            FPB: Some(p.FPB),
            FPU: Some(p.FPU),
            ITM: Some(p.ITM),
            MPU: Some(p.MPU),
            NVIC: Some(p.NVIC),
            SCB: Some(p.SCB),
            SYST: Some(p.SYST),
            TPIU: Some(p.TPIU),
        }
    }

    /// What a claim turns into: the bundle of all the handles of a claim
    /// that succeeded.
    pub open spec fn claimed(
        claim: Option<Peripherals<CBP, CPUID, DCB, DWT, FPB, FPU, ITM, MPU, NVIC, SCB, SYST, TPIU>>,
    ) -> Option<Self> {
        match claim {
            Some(p) => Some(Self::all(p)),
            None => None,
        }
    }

    /// What `take` does: it empties the slot and returns what waited there;
    /// if nothing did, it claims from the primitive and returns all of a
    /// claim that succeeded.
    pub open spec fn took(
        before: HandoffState<CBP, CPUID, DCB, DWT, FPB, FPU, ITM, MPU, NVIC, SCB, SYST, TPIU>,
        primitive_before: Option<
            Peripherals<CBP, CPUID, DCB, DWT, FPB, FPU, ITM, MPU, NVIC, SCB, SYST, TPIU>,
        >,
        after: HandoffState<CBP, CPUID, DCB, DWT, FPB, FPU, ITM, MPU, NVIC, SCB, SYST, TPIU>,
        primitive_after: Option<
            Peripherals<CBP, CPUID, DCB, DWT, FPB, FPU, ITM, MPU, NVIC, SCB, SYST, TPIU>,
        >,
        bundle: Option<Self>,
    ) -> bool {
        &&& after.pending() is None
        &&& after.is_done() == before.is_done()
        &&& if before.pending() is Some {
            bundle == before.pending() && primitive_after == primitive_before
        } else {
            bundle == Self::claimed(primitive_before) && primitive_after is None
        }
    }

    /// What `give` does: while the slot is open, `p` replaces what waited
    /// in it; once it is closed, nothing changes.
    pub open spec fn gave(
        before: HandoffState<CBP, CPUID, DCB, DWT, FPB, FPU, ITM, MPU, NVIC, SCB, SYST, TPIU>,
        p: Self,
        after: HandoffState<CBP, CPUID, DCB, DWT, FPB, FPU, ITM, MPU, NVIC, SCB, SYST, TPIU>,
    ) -> bool {
        if before.is_done() {
            after == before
        } else {
            after.pending() == Some(p) && !after.is_done()
        }
    }

    /// What `done` does: it closes the slot and leaves in it what waits
    /// there.
    pub open spec fn closed(
        before: HandoffState<CBP, CPUID, DCB, DWT, FPB, FPU, ITM, MPU, NVIC, SCB, SYST, TPIU>,
        after: HandoffState<CBP, CPUID, DCB, DWT, FPB, FPU, ITM, MPU, NVIC, SCB, SYST, TPIU>,
    ) -> bool {
        after.is_done() && after.pending() == before.pending()
    }

    /// Returns the bundle that was given, if one waits in the slot. If
    /// none does, claims the peripherals from `primitive`, which holds them
    /// until the first claim, and returns them all. `None` if the slot is
    /// empty and the peripherals were claimed before.
    pub fn take(
        state: &mut HandoffState<CBP, CPUID, DCB, DWT, FPB, FPU, ITM, MPU, NVIC, SCB, SYST, TPIU>,
        primitive: &mut Option<
            Peripherals<CBP, CPUID, DCB, DWT, FPB, FPU, ITM, MPU, NVIC, SCB, SYST, TPIU>,
        >,
    ) -> (bundle: Option<Self>)
        ensures
            Self::took(*old(state), *old(primitive), *final(state), *final(primitive), bundle),
    {
        match state.pending.take() {
            Some(bundle) => Some(bundle),
            None => match primitive.take() {
                Some(p) => Some(Self::from(p)),
                None => None,
            },
        }
    }

    /// Gives the peripherals back for `main` to take. A bundle that still
    /// waited in the slot is dropped. Does nothing once `main` has begun.
    pub fn give(
        state: &mut HandoffState<CBP, CPUID, DCB, DWT, FPB, FPU, ITM, MPU, NVIC, SCB, SYST, TPIU>,
        p: Self,
    )
        ensures
            Self::gave(*old(state), p, *final(state)),
    {
        if !state.done {
            state.pending = Some(p);
        }
    }

    /// Marks that the entry point has begun: from now on nothing is
    /// accepted. What waits in the slot stays there.
    pub fn done(
        state: &mut HandoffState<CBP, CPUID, DCB, DWT, FPB, FPU, ITM, MPU, NVIC, SCB, SYST, TPIU>,
    )
        ensures
            Self::closed(*old(state), *final(state)),
    {
        state.done = true;
    }

    /// At program start the first `take` yields the whole claim, and a
    /// second `take` with no `give` between them yields nothing.
    pub proof fn lemma_first_take_claims_all(
        start: HandoffState<CBP, CPUID, DCB, DWT, FPB, FPU, ITM, MPU, NVIC, SCB, SYST, TPIU>,
        peripherals: Peripherals<CBP, CPUID, DCB, DWT, FPB, FPU, ITM, MPU, NVIC, SCB, SYST, TPIU>,
        second: HandoffState<CBP, CPUID, DCB, DWT, FPB, FPU, ITM, MPU, NVIC, SCB, SYST, TPIU>,
        primitive_second: Option<
            Peripherals<CBP, CPUID, DCB, DWT, FPB, FPU, ITM, MPU, NVIC, SCB, SYST, TPIU>,
        >,
        first_bundle: Option<Self>,
        third: HandoffState<CBP, CPUID, DCB, DWT, FPB, FPU, ITM, MPU, NVIC, SCB, SYST, TPIU>,
        primitive_third: Option<
            Peripherals<CBP, CPUID, DCB, DWT, FPB, FPU, ITM, MPU, NVIC, SCB, SYST, TPIU>,
        >,
        second_bundle: Option<Self>,
    )
        requires
            start.pending() is None,
            Self::took(start, Some(peripherals), second, primitive_second, first_bundle),
            Self::took(second, primitive_second, third, primitive_third, second_bundle),
        ensures
            first_bundle == Some(Self::all(peripherals)),
            Self::all(peripherals).present() == Set::<Peripheral>::full(),
            second_bundle is None,
    {
        assert(Self::all(peripherals).present() =~= Set::<Peripheral>::full());
    }

    /// While the slot is open, `take` returns the very bundle that was
    /// given last, and the primitive is not asked.
    pub proof fn lemma_take_returns_given(
        before: HandoffState<CBP, CPUID, DCB, DWT, FPB, FPU, ITM, MPU, NVIC, SCB, SYST, TPIU>,
        p: Self,
        given: HandoffState<CBP, CPUID, DCB, DWT, FPB, FPU, ITM, MPU, NVIC, SCB, SYST, TPIU>,
        primitive: Option<
            Peripherals<CBP, CPUID, DCB, DWT, FPB, FPU, ITM, MPU, NVIC, SCB, SYST, TPIU>,
        >,
        after: HandoffState<CBP, CPUID, DCB, DWT, FPB, FPU, ITM, MPU, NVIC, SCB, SYST, TPIU>,
        primitive_after: Option<
            Peripherals<CBP, CPUID, DCB, DWT, FPB, FPU, ITM, MPU, NVIC, SCB, SYST, TPIU>,
        >,
        bundle: Option<Self>,
    )
        requires
            !before.is_done(),
            Self::gave(before, p, given),
            Self::took(given, primitive, after, primitive_after, bundle),
        ensures
            bundle == Some(p),
            primitive_after == primitive,
    {
    }

    /// Once the slot is closed it stays closed, and `give` changes nothing:
    /// a `take` that follows returns what it would have returned without
    /// the `give`.
    pub proof fn lemma_give_after_done_is_ignored(
        before: HandoffState<CBP, CPUID, DCB, DWT, FPB, FPU, ITM, MPU, NVIC, SCB, SYST, TPIU>,
        closed: HandoffState<CBP, CPUID, DCB, DWT, FPB, FPU, ITM, MPU, NVIC, SCB, SYST, TPIU>,
        p: Self,
        given: HandoffState<CBP, CPUID, DCB, DWT, FPB, FPU, ITM, MPU, NVIC, SCB, SYST, TPIU>,
        primitive: Option<
            Peripherals<CBP, CPUID, DCB, DWT, FPB, FPU, ITM, MPU, NVIC, SCB, SYST, TPIU>,
        >,
        after: HandoffState<CBP, CPUID, DCB, DWT, FPB, FPU, ITM, MPU, NVIC, SCB, SYST, TPIU>,
        primitive_after: Option<
            Peripherals<CBP, CPUID, DCB, DWT, FPB, FPU, ITM, MPU, NVIC, SCB, SYST, TPIU>,
        >,
        bundle: Option<Self>,
    )
        requires
            Self::closed(before, closed),
            Self::gave(closed, p, given),
            Self::took(given, primitive, after, primitive_after, bundle),
        ensures
            given == closed,
            given.is_done() && after.is_done(),
            Self::took(closed, primitive, after, primitive_after, bundle),
            before.pending() is None ==> bundle == Self::claimed(primitive),
    {
    }

    /// The peripherals of an optional bundle.
    pub open spec fn present_in(bundle: Option<Self>) -> Option<Set<Peripheral>> {
        match bundle {
            Some(b) => Some(b.present()),
            None => None,
        }
    }

    /// The owners, given a slot, the claim primitive and what the callers
    /// hold.
    pub open spec fn owners(
        state: HandoffState<CBP, CPUID, DCB, DWT, FPB, FPU, ITM, MPU, NVIC, SCB, SYST, TPIU>,
        primitive: Option<
            Peripherals<CBP, CPUID, DCB, DWT, FPB, FPU, ITM, MPU, NVIC, SCB, SYST, TPIU>,
        >,
        held: Seq<Set<Peripheral>>,
    ) -> Owners {
        Owners {
            unclaimed: primitive is Some,
            pending: Self::present_in(state.pending()),
            done: state.is_done(),
            held,
        }
    }

    /// A `take` is the event `Take`: the caller adds the peripherals of
    /// the bundle it got to those it holds.
    pub proof fn lemma_take_is_event(
        before: HandoffState<CBP, CPUID, DCB, DWT, FPB, FPU, ITM, MPU, NVIC, SCB, SYST, TPIU>,
        primitive_before: Option<
            Peripherals<CBP, CPUID, DCB, DWT, FPB, FPU, ITM, MPU, NVIC, SCB, SYST, TPIU>,
        >,
        after: HandoffState<CBP, CPUID, DCB, DWT, FPB, FPU, ITM, MPU, NVIC, SCB, SYST, TPIU>,
        primitive_after: Option<
            Peripherals<CBP, CPUID, DCB, DWT, FPB, FPU, ITM, MPU, NVIC, SCB, SYST, TPIU>,
        >,
        bundle: Option<Self>,
        held: Seq<Set<Peripheral>>,
        caller: int,
    )
        requires
            Self::took(before, primitive_before, after, primitive_after, bundle),
            0 <= caller < held.len(),
            Self::owners(before, primitive_before, held).exclusive(),
        ensures
            Self::owners(before, primitive_before, held).step(Event::Take { caller })
                == Self::owners(
                after,
                primitive_after,
                held.update(
                    caller,
                    match bundle {
                        Some(b) => held[caller].union(b.present()),
                        None => held[caller],
                    },
                ),
            ),
    {
        let model = Self::owners(before, primitive_before, held);
        if before.pending() is None && primitive_before is Some {
            let all = Self::all(primitive_before->Some_0);
            assert(all.present() =~= Set::<Peripheral>::full());
            assert forall|p: Peripheral| !held[caller].contains(p) by {
                assert(!model.holds(caller, p));
            }
            assert(held[caller].union(all.present()) =~= Set::<Peripheral>::full());
        }
        if bundle is None {
            assert(held.update(caller, held[caller]) =~= held);
        }
    }

    /// A `give` of a bundle made of handles that the caller holds is the
    /// event `Give` of these peripherals.
    pub proof fn lemma_give_is_event(
        before: HandoffState<CBP, CPUID, DCB, DWT, FPB, FPU, ITM, MPU, NVIC, SCB, SYST, TPIU>,
        p: Self,
        after: HandoffState<CBP, CPUID, DCB, DWT, FPB, FPU, ITM, MPU, NVIC, SCB, SYST, TPIU>,
        primitive: Option<
            Peripherals<CBP, CPUID, DCB, DWT, FPB, FPU, ITM, MPU, NVIC, SCB, SYST, TPIU>,
        >,
        held: Seq<Set<Peripheral>>,
        caller: int,
    )
        requires
            Self::gave(before, p, after),
            0 <= caller < held.len(),
            p.present().subset_of(held[caller]),
        ensures
            Self::owners(before, primitive, held).step(
                Event::Give { caller, peripherals: p.present() },
            ) == Self::owners(
                after,
                primitive,
                held.update(caller, held[caller].difference(p.present())),
            ),
    {
        assert(held[caller].intersect(p.present()) =~= p.present());
    }

    /// A `done` is the event `Done`.
    pub proof fn lemma_done_is_event(
        before: HandoffState<CBP, CPUID, DCB, DWT, FPB, FPU, ITM, MPU, NVIC, SCB, SYST, TPIU>,
        after: HandoffState<CBP, CPUID, DCB, DWT, FPB, FPU, ITM, MPU, NVIC, SCB, SYST, TPIU>,
        primitive: Option<
            Peripherals<CBP, CPUID, DCB, DWT, FPB, FPU, ITM, MPU, NVIC, SCB, SYST, TPIU>,
        >,
        held: Seq<Set<Peripheral>>,
    )
        requires
            Self::closed(before, after),
        ensures
            Self::owners(before, primitive, held).step(Event::Done) == Self::owners(
                after,
                primitive,
                held,
            ),
    {
    }

    /// Wraps every handle of a claim.
    pub fn from(p: Peripherals<CBP, CPUID, DCB, DWT, FPB, FPU, ITM, MPU, NVIC, SCB, SYST, TPIU>)
        -> (bundle: Self)
        ensures
            bundle == Self::all(p),
    {
        let Peripherals { CBP, CPUID, DCB, DWT, FPB, FPU, ITM, MPU, NVIC, SCB, SYST, TPIU } = p;
        InitArrayPeripherals {
            CBP: Some(CBP),
            CPUID: Some(CPUID),
            DCB: Some(DCB),
            DWT: Some(DWT),
            FPB: Some(FPB),
            FPU: Some(FPU),
            ITM: Some(ITM),
            MPU: Some(MPU),
            NVIC: Some(NVIC),
            SCB: Some(SCB),
            SYST: Some(SYST),
            TPIU: Some(TPIU),
        }
    }
}

/// Who holds which peripheral: the claim primitive until the first claim,
/// the hand-over slot, and the callers with the bundles they took.
pub struct Owners {
    /// Whether the peripherals were never claimed.
    pub unclaimed: bool,
    /// The peripherals of the bundle that waits in the slot.
    pub pending: Option<Set<Peripheral>>,
    /// Whether the slot is closed.
    pub done: bool,
    /// The peripherals that each caller holds.
    pub held: Seq<Set<Peripheral>>,
}

/// What a caller can do. Each event happens inside a critical section, so
/// a caller that preempts another does so between two events.
pub enum Event {
    /// The caller takes, and adds what it gets to what it holds.
    Take { caller: int },
    /// The caller gives those of `peripherals` that it holds, and keeps
    /// the rest.
    Give { caller: int, peripherals: Set<Peripheral> },
    /// The caller drops those of `peripherals` that it holds.
    Release { caller: int, peripherals: Set<Peripheral> },
    /// The entry point begins.
    Done,
}

impl Owners {
    /// Program start: nothing is claimed, the slot is empty and open, and
    /// none of the `callers` holds anything.
    pub open spec fn start(callers: nat) -> Owners {
        Owners {
            unclaimed: true,
            pending: None,
            done: false,
            held: Seq::new(callers, |i: int| Set::<Peripheral>::empty()),
        }
    }

    /// The owners after `event`. An event of a caller that does not exist
    /// changes nothing.
    pub open spec fn step(self, event: Event) -> Owners {
        match event {
            Event::Take { caller } => if !(0 <= caller < self.held.len()) {
                self
            } else {
                match self.pending {
                    Some(bundle) => Owners {
                        pending: None,
                        held: self.held.update(caller, self.held[caller].union(bundle)),
                        ..self
                    },
                    None => if self.unclaimed {
                        Owners {
                            unclaimed: false,
                            held: self.held.update(caller, Set::<Peripheral>::full()),
                            ..self
                        }
                    } else {
                        self
                    },
                }
            },
            Event::Give { caller, peripherals } => if !(0 <= caller < self.held.len()) {
                self
            } else {
                let kept = self.held[caller].difference(peripherals);
                let given = self.held[caller].intersect(peripherals);
                if self.done {
                    Owners { held: self.held.update(caller, kept), ..self }
                } else {
                    Owners { pending: Some(given), held: self.held.update(caller, kept), ..self }
                }
            },
            Event::Release { caller, peripherals } => if !(0 <= caller < self.held.len()) {
                self
            } else {
                Owners {
                    held: self.held.update(caller, self.held[caller].difference(peripherals)),
                    ..self
                }
            },
            Event::Done => Owners { done: true, ..self },
        }
    }

    /// The owners after all of `events`, in order.
    pub open spec fn run(self, events: Seq<Event>) -> Owners
        decreases events.len(),
    {
        if events.len() == 0 {
            self
        } else {
            self.run(events.drop_last()).step(events.last())
        }
    }

    /// Whether caller number `i` holds `p`.
    pub open spec fn holds(self, i: int, p: Peripheral) -> bool {
        0 <= i < self.held.len() && self.held[i].contains(p)
    }

    /// Whether `p` waits in the slot.
    pub open spec fn waits(self, p: Peripheral) -> bool {
        self.pending matches Some(bundle) && bundle.contains(p)
    }

    /// Whether no peripheral has two holders: no two callers hold the same
    /// one, none is both held and waiting in the slot, and while the
    /// peripherals are unclaimed nobody holds any.
    pub open spec fn exclusive(self) -> bool {
        &&& forall|i: int, j: int, p: Peripheral|
            #[trigger] self.holds(i, p) && #[trigger] self.holds(j, p) ==> i == j
        &&& forall|i: int, p: Peripheral| #[trigger] self.holds(i, p) ==> !self.waits(p)
        &&& forall|i: int, p: Peripheral| #[trigger] self.holds(i, p) ==> !self.unclaimed
        &&& forall|p: Peripheral| #[trigger] self.waits(p) ==> !self.unclaimed
    }
}

/// At program start no peripheral has a holder.
pub proof fn lemma_start_exclusive(callers: nat)
    ensures
        Owners::start(callers).exclusive(),
{
}

/// No event gives a peripheral a second holder, and no event opens a slot
/// that is closed.
pub proof fn lemma_step_exclusive(owners: Owners, event: Event)
    requires
        owners.exclusive(),
    ensures
        owners.step(event).exclusive(),
        owners.done ==> owners.step(event).done,
{
    let next = owners.step(event);
    assert forall|i: int, p: Peripheral| #[trigger] next.holds(i, p) implies owners.holds(i, p)
        || owners.waits(p) || (owners.unclaimed && !next.unclaimed) by {}
    assert forall|p: Peripheral| #[trigger] next.waits(p) implies owners.waits(p) || (exists|
        i: int,
    |
        owners.holds(i, p) && !next.holds(i, p)) by {
        if next.waits(p) && !owners.waits(p) {
            let caller = event->Give_caller;
            assert(owners.holds(caller, p) && !next.holds(caller, p));
        }
    }
    assert forall|i: int, j: int, p: Peripheral| #[trigger]
        next.holds(i, p) && #[trigger] next.holds(j, p) implies i == j by {
        if owners.holds(i, p) && owners.holds(j, p) {
        } else if owners.holds(i, p) {
            assert(!owners.waits(p) && !owners.unclaimed);
        } else if owners.holds(j, p) {
            assert(!owners.waits(p) && !owners.unclaimed);
        }
    }
    assert forall|i: int, p: Peripheral| #[trigger] next.holds(i, p) implies !next.unclaimed by {}
    assert forall|p: Peripheral| #[trigger] next.waits(p) implies !next.unclaimed by {
        if !owners.waits(p) {
            let k = choose|k: int| owners.holds(k, p) && !next.holds(k, p);
            assert(owners.holds(k, p));
        }
    }
    assert forall|i: int, p: Peripheral| #[trigger] next.holds(i, p) implies !next.waits(p) by {
        if next.waits(p) {
            if owners.waits(p) {
                assert(!owners.holds(i, p));
            } else {
                let k = choose|k: int| owners.holds(k, p) && !next.holds(k, p);
                if owners.holds(i, p) {
                    assert(i == k);
                }
            }
        }
    }
}

/// However `take`, `give`, `done` and the dropping of handles are
/// interleaved from program start on, no peripheral ever has two holders.
pub proof fn lemma_run_exclusive(callers: nat, events: Seq<Event>)
    ensures
        Owners::start(callers).run(events).exclusive(),
    decreases events.len(),
{
    if events.len() > 0 {
        lemma_run_exclusive(callers, events.drop_last());
        lemma_step_exclusive(Owners::start(callers).run(events.drop_last()), events.last());
    }
}

} // verus!
