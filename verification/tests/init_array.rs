use handler_rt::init_array::{HandoffState, InitArrayPeripherals, Peripherals};

type Claim = Peripherals<u8, u8, u8, u8, u8, u8, u8, u8, u8, u8, u8, u8>;
type Bundle = InitArrayPeripherals<u8, u8, u8, u8, u8, u8, u8, u8, u8, u8, u8, u8>;
type Slot = HandoffState<u8, u8, u8, u8, u8, u8, u8, u8, u8, u8, u8, u8>;

fn claim() -> Claim {
    Peripherals {
        CBP: 1,
        CPUID: 2,
        DCB: 3,
        DWT: 4,
        FPB: 5,
        FPU: 6,
        ITM: 7,
        MPU: 8,
        NVIC: 9,
        SCB: 10,
        SYST: 11,
        TPIU: 12,
    }
}

fn fields(b: &Bundle) -> [Option<u8>; 12] {
    [b.CBP, b.CPUID, b.DCB, b.DWT, b.FPB, b.FPU, b.ITM, b.MPU, b.NVIC, b.SCB, b.SYST, b.TPIU]
}

#[test]
fn from_wraps_every_handle() {
    let bundle = Bundle::from(claim());
    let expected: Vec<Option<u8>> = (1..=12).map(Some).collect();
    assert_eq!(fields(&bundle).to_vec(), expected);
}

#[test]
fn first_take_claims_all_and_second_take_yields_nothing() {
    let mut slot = Slot::new();
    let mut primitive = Some(claim());
    let first = Bundle::take(&mut slot, &mut primitive).unwrap();
    assert!(fields(&first).iter().all(|f| f.is_some()));
    assert!(primitive.is_none());
    assert!(Bundle::take(&mut slot, &mut primitive).is_none());
    assert!(Bundle::take(&mut slot, &mut primitive).is_none());
}

#[test]
fn take_returns_what_was_given() {
    let mut slot = Slot::new();
    let mut primitive = Some(claim());
    let mut bundle = Bundle::take(&mut slot, &mut primitive).unwrap();
    bundle.DWT = None;
    bundle.CPUID = Some(42);
    Bundle::give(&mut slot, bundle);
    let back = Bundle::take(&mut slot, &mut primitive).unwrap();
    assert!(back.DWT.is_none());
    assert_eq!(back.CPUID, Some(42));
    assert_eq!(back.SYST, Some(11));
    assert!(Bundle::take(&mut slot, &mut primitive).is_none());
}

#[test]
fn give_does_not_ask_the_primitive() {
    let mut slot = Slot::new();
    let mut primitive = Some(claim());
    let mut given = Bundle::from(claim());
    given.CBP = Some(77);
    Bundle::give(&mut slot, given);
    let back = Bundle::take(&mut slot, &mut primitive).unwrap();
    assert_eq!(back.CBP, Some(77));
    assert!(primitive.is_some());
    let claimed = Bundle::take(&mut slot, &mut primitive).unwrap();
    assert_eq!(claimed.CBP, Some(1));
    assert!(primitive.is_none());
}

#[test]
fn later_give_replaces_the_earlier() {
    let mut slot = Slot::new();
    let mut primitive: Option<Claim> = None;
    let mut first = Bundle::from(claim());
    first.CBP = Some(100);
    let mut second = Bundle::from(claim());
    second.CBP = Some(200);
    Bundle::give(&mut slot, first);
    Bundle::give(&mut slot, second);
    assert_eq!(Bundle::take(&mut slot, &mut primitive).unwrap().CBP, Some(200));
    assert!(Bundle::take(&mut slot, &mut primitive).is_none());
}

#[test]
fn give_after_done_is_ignored() {
    let mut slot = Slot::new();
    let mut primitive = Some(claim());
    let bundle = Bundle::take(&mut slot, &mut primitive).unwrap();
    Bundle::done(&mut slot);
    Bundle::give(&mut slot, bundle);
    assert!(Bundle::take(&mut slot, &mut primitive).is_none());
}

#[test]
fn done_keeps_what_waits() {
    let mut slot = Slot::new();
    let mut primitive = Some(claim());
    let mut bundle = Bundle::take(&mut slot, &mut primitive).unwrap();
    bundle.FPU = None;
    Bundle::give(&mut slot, bundle);
    Bundle::done(&mut slot);
    Bundle::done(&mut slot);
    let mut other = Bundle::from(claim());
    other.CBP = Some(99);
    Bundle::give(&mut slot, other);
    let back = Bundle::take(&mut slot, &mut primitive).unwrap();
    assert!(back.FPU.is_none());
    assert_eq!(back.CBP, Some(1));
    assert!(Bundle::take(&mut slot, &mut primitive).is_none());
}

#[test]
fn take_after_done_still_claims() {
    let mut slot = Slot::new();
    let mut primitive = Some(claim());
    Bundle::done(&mut slot);
    assert!(Bundle::take(&mut slot, &mut primitive).is_some());
    assert!(Bundle::take(&mut slot, &mut primitive).is_none());
}

#[test]
fn interleaved_callers_never_share_a_handle() {
    // Every order of six events of two callers, each event atomic: a caller
    // takes, gives what it holds, or the entry point begins.
    let events = 5u32;
    let length = 6u32;
    for code in 0..events.pow(length) {
        let mut slot = Slot::new();
        let mut primitive = Some(claim());
        let mut held: [Option<Bundle>; 2] = [None, None];
        let mut rest = code;
        for _ in 0..length {
            let event = rest % events;
            rest /= events;
            match event {
                0 | 1 => {
                    let caller = event as usize;
                    if held[caller].is_none() {
                        held[caller] = Bundle::take(&mut slot, &mut primitive);
                    }
                }
                2 | 3 => {
                    let caller = (event - 2) as usize;
                    if let Some(bundle) = held[caller].take() {
                        Bundle::give(&mut slot, bundle);
                    }
                }
                _ => Bundle::done(&mut slot),
            }
            let first = held[0].as_ref().map(fields);
            let second = held[1].as_ref().map(fields);
            if let (Some(a), Some(b)) = (first, second) {
                for i in 0..12 {
                    assert!(!(a[i].is_some() && b[i].is_some()), "code {}", code);
                }
            }
        }
    }
}
