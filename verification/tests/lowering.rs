use handler_rt::attributes::{entry, exception, interrupt, pre_init};
use handler_rt::codegen::{
    append_decimal, append_hexadecimal, declare_resources, interrupt_number, resource_arguments,
    resource_name, resources, Argument, EXCEPTION_VECTORS, STATUS_REGISTER, VECTOR_MASK,
};
use handler_rt::input::{HandlerParam, HandlerParamKind, ResourceParam};
use handler_rt::syntax::{
    Attribute, FnArg, HandlerFn, ParamType, PatType, ReturnType, Token,
};

fn attr(path: &str, tokens: &str) -> Attribute {
    Attribute {
        outer: true,
        path: path.to_string(),
        plain: true,
        tokens: tokens.to_string(),
        expression: None,
    }
}

fn init(expression: &str) -> Attribute {
    Attribute {
        outer: true,
        path: "init".to_string(),
        plain: true,
        tokens: format!("({})", expression),
        expression: Some(expression.to_string()),
    }
}

fn words(names: &[&str]) -> Vec<Token> {
    names.iter().map(|name| Token::Ident { name: name.to_string() }).collect()
}

fn path(segments: &[&str]) -> Vec<Token> {
    let mut tokens = Vec::new();
    for (i, segment) in segments.iter().enumerate() {
        if i > 0 {
            tokens.push(Token::Punct { mark: ':' });
            tokens.push(Token::Punct { mark: ':' });
        }
        tokens.push(Token::Ident { name: segment.to_string() });
    }
    tokens
}

fn mut_ref(elem: &str) -> ParamType {
    ParamType::Reference { lifetime: None, mutable: true, elem: elem.to_string() }
}

fn res(init: &str, ty: &str, cfgs: Vec<Attribute>) -> ResourceParam {
    ResourceParam { init: init.to_string(), ty: ty.to_string(), cfgs, is_static: false }
}

fn function(ident: &str, inputs: Vec<FnArg>, output: ReturnType) -> HandlerFn {
    HandlerFn {
        attrs: vec![],
        vis: String::new(),
        constness: false,
        asyncness: false,
        unsafety: false,
        abi: None,
        ident: ident.to_string(),
        generics: String::new(),
        where_clause: None,
        inputs,
        variadic: false,
        output,
        block: "{ loop {} }".to_string(),
    }
}

fn guarded_resource(pat: &str, guard: Option<&str>, expression: &str, elem: &str) -> FnArg {
    let mut attrs = Vec::new();
    if let Some(guard) = guard {
        attrs.push(attr("cfg", guard));
    }
    attrs.push(init(expression));
    FnArg::Typed(PatType { attrs, pat: pat.to_string(), ty: mut_ref(elem) })
}

#[test]
fn no_resources_no_slots() {
    let none: Vec<ResourceParam> = Vec::new();
    assert!(declare_resources(&none).is_empty());
    assert!(resource_arguments(&none).is_empty());
}

#[test]
fn one_slot_and_one_argument_for_each_resource() {
    let list = vec![
        res("0", "u32", vec![]),
        res("false", "bool", vec![attr("cfg", "(feature = \"x\")")]),
        res("[0; 4]", "[u8; 4]", vec![attr("cfg", "(a)"), attr("cfg", "(b)")]),
    ];
    let slots = declare_resources(&list);
    let arguments = resource_arguments(&list);
    assert_eq!(slots.len(), 3);
    assert_eq!(arguments.len(), 3);
    for i in 0..3 {
        assert_eq!(slots[i].name, format!("RESOURCE_{}", i));
        assert_eq!(slots[i].ty, list[i].ty);
        assert_eq!(slots[i].init, list[i].init);
        assert_eq!(slots[i].cfgs.len(), list[i].cfgs.len());
        match &arguments[i] {
            Argument::Resource { cfgs, slot } => {
                assert_eq!(slot, &slots[i].name);
                assert_eq!(cfgs.len(), list[i].cfgs.len());
                for j in 0..cfgs.len() {
                    assert_eq!(cfgs[j].path, "cfg");
                    assert_eq!(cfgs[j].tokens, list[i].cfgs[j].tokens);
                    assert_eq!(slots[i].cfgs[j].tokens, list[i].cfgs[j].tokens);
                }
            }
            _ => panic!("not a resource argument"),
        }
    }
}

#[test]
fn slot_names_count_in_decimal() {
    assert_eq!(resource_name(0), "RESOURCE_0");
    assert_eq!(resource_name(9), "RESOURCE_9");
    assert_eq!(resource_name(10), "RESOURCE_10");
    assert_eq!(resource_name(11), "RESOURCE_11");
    assert_eq!(resource_name(100), "RESOURCE_100");
    assert_eq!(resource_name(4096), "RESOURCE_4096");
    assert_eq!(resource_name(usize::MAX), format!("RESOURCE_{}", usize::MAX));
}

#[test]
fn twelve_resources_get_twelve_names() {
    let list: Vec<ResourceParam> = (0..12).map(|_| res("0", "u32", vec![])).collect();
    let slots = declare_resources(&list);
    let names: Vec<String> = slots.iter().map(|s| s.name.clone()).collect();
    for i in 0..12 {
        assert_eq!(names[i], format!("RESOURCE_{}", i));
        for j in 0..i {
            assert_ne!(names[i], names[j]);
        }
    }
}

#[test]
fn resources_among_the_parameters() {
    let params = vec![
        HandlerParam {
            attr: init("0"),
            kind: HandlerParamKind::Resource(res("0", "u32", vec![])),
            ty: mut_ref("u32"),
        },
        HandlerParam {
            attr: attr("irqn", ""),
            kind: HandlerParamKind::Irqn,
            ty: ParamType::Other { text: "i16".to_string() },
        },
        HandlerParam {
            attr: init("1"),
            kind: HandlerParamKind::Resource(res("1", "u8", vec![])),
            ty: mut_ref("u8"),
        },
    ];
    let list = resources(&params);
    assert_eq!(list.len(), 2);
    assert_eq!(list[0].init, "0");
    assert_eq!(list[1].init, "1");
    assert_eq!(list[1].ty, "u8");
}

#[test]
fn disabled_resource_leaves_neither_slot_nor_argument() {
    let inputs = vec![
        guarded_resource("count", Some("(never)"), "0", "u32"),
        guarded_resource("flag", None, "false", "bool"),
    ];
    let expansion = entry(&words(&[]), function("main", inputs, ReturnType::Never)).ok().unwrap();
    let slots = &expansion.trampoline.slots;
    let arguments = &expansion.trampoline.arguments;
    assert_eq!(slots.len(), 2);
    assert_eq!(arguments.len(), 2);

    let disabled = |cfgs: &Vec<Attribute>| cfgs.iter().any(|c| c.tokens == "(never)");
    let live_slots: Vec<&str> =
        slots.iter().filter(|s| !disabled(&s.cfgs)).map(|s| s.name.as_str()).collect();
    let live_arguments: Vec<&str> = arguments
        .iter()
        .filter_map(|a| match a {
            Argument::Resource { cfgs, slot } if !disabled(cfgs) => Some(slot.as_str()),
            _ => None,
        })
        .collect();
    assert_eq!(live_slots, vec!["RESOURCE_1"]);
    assert_eq!(live_arguments, vec!["RESOURCE_1"]);

    let live_parameters = expansion
        .handler
        .inputs
        .iter()
        .filter(|input| match input {
            FnArg::Typed(p) => !disabled(&p.attrs),
            FnArg::Receiver { .. } => true,
        })
        .count();
    assert_eq!(live_parameters, 1);
}

#[test]
fn interrupt_number_is_the_vector_less_sixteen() {
    assert_eq!(interrupt_number(0), -16);
    assert_eq!(interrupt_number(2), -14);
    assert_eq!(interrupt_number(3), -13);
    assert_eq!(interrupt_number(15), -1);
    assert_eq!(interrupt_number(16), 0);
    assert_eq!(interrupt_number(17), 1);
    assert_eq!(interrupt_number(0x1FF), 495);
    assert_eq!(interrupt_number(0x200), -16);
    assert_eq!(interrupt_number(0xFFFF_FE00), -16);
    assert_eq!(interrupt_number(0xFFFF_FFFF), 495);
    assert_eq!(interrupt_number(0x8000_0810), 0);
    for status in [0u32, 1, 16, 255, 256, 511, 512, 0xDEAD_BEEF, u32::MAX] {
        assert_eq!(interrupt_number(status) as i32, (status & 0x1FF) as i32 - 16);
    }
}

#[test]
fn rendered_entry_is_rust() {
    let inputs = vec![
        guarded_resource("count", Some("(never)"), "0", "u32"),
        guarded_resource("flag", None, "false", "bool"),
    ];
    let mut func = function("main", inputs, ReturnType::Never);
    func.attrs = vec![attr("doc", "= \"the entry point\"")];
    let text = entry(&words(&[]), func).ok().unwrap().render();
    let file = syn::parse_file(&text).expect("the expansion does not parse");
    assert_eq!(file.items.len(), 2);
    assert!(matches!(file.items[0], syn::Item::Const(_)));
    match &file.items[1] {
        syn::Item::Fn(f) => {
            assert_eq!(f.sig.ident.to_string(), "main");
            assert_eq!(f.sig.inputs.len(), 2);
            assert_eq!(f.attrs.len(), 1);
        }
        _ => panic!("the handler is missing"),
    }
    assert!(text.contains("#[export_name = \"main\"]"));
    assert!(text.contains("unsafe extern \"C\" fn cmrt_handler() -> !"));
    assert!(text.contains("static mut RESOURCE_0: u32 = 0;"));
    assert!(text.contains("static mut RESOURCE_1: bool = false;"));
    assert!(text.contains("#[cfg (never)] &mut RESOURCE_0, &mut RESOURCE_1, "));
    assert!(text.contains("#[cfg (never)] static mut RESOURCE_0"));
}

#[test]
fn rendered_entry_exactly() {
    let inputs = vec![guarded_resource("count", None, "0", "u32")];
    let text = entry(&words(&[]), function("main", inputs, ReturnType::Never)).ok().unwrap().render();
    assert_eq!(
        text,
        "const _: () = { #[export_name = \"main\"] unsafe extern \"C\" fn cmrt_handler() -> ! { \
         static mut RESOURCE_0: u32 = 0; main(&mut RESOURCE_0, ) } }; fn main(count: &mut u32, ) \
         -> ! { loop {} }"
    );
}

#[test]
fn rendered_default_handler_reads_the_status_register() {
    let inputs = vec![FnArg::Typed(PatType {
        attrs: vec![attr("irqn", "")],
        pat: "irqn".to_string(),
        ty: ParamType::Other { text: "i16".to_string() },
    })];
    let mut func = function("default_handler", inputs, ReturnType::Default);
    func.unsafety = true;
    let text = exception(&words(&["DefaultHandler", "unsafe"]), func).ok().unwrap().render();
    syn::parse_file(&text).expect("the expansion does not parse");
    assert!(text.contains("#[export_name = \"DefaultHandler\"]"));
    assert!(text.contains(
        "let irqn = unsafe { (::core::ptr::read_volatile(0xE000_ED04 as *const u32) & 0x1FF) as i16 - 16 };"
    ));
    assert!(text.contains("default_handler(irqn, )"));
    assert!(text.contains("unsafe fn default_handler(irqn: i16, )"));
}

#[test]
fn hexadecimal_is_written_in_groups_of_four() {
    let cases: [(u32, &str); 9] = [
        (0, "0"),
        (9, "9"),
        (0xA, "A"),
        (0x1FF, "1FF"),
        (0xFFFF, "FFFF"),
        (0x1_0000, "1_0000"),
        (0xE000_ED04, "E000_ED04"),
        (0x123_4567, "123_4567"),
        (u32::MAX, "FFFF_FFFF"),
    ];
    for (n, expected) in cases {
        let mut text = String::new();
        append_hexadecimal(&mut text, n, 0);
        assert_eq!(text, expected);
    }
    let mut text = String::from("x");
    append_decimal(&mut text, 16);
    assert_eq!(text, "x16");
}

#[test]
fn number_read_is_written_from_the_constants() {
    assert_eq!(STATUS_REGISTER, 0xE000_ED04);
    assert_eq!(VECTOR_MASK, 0x1FF);
    assert_eq!(EXCEPTION_VECTORS, 16);
    for status in [0u32, 16, 259, 0x1FF, 0xFFFF_FFFF] {
        assert_eq!(
            interrupt_number(status) as i64,
            (status & VECTOR_MASK) as i64 - EXCEPTION_VECTORS as i64
        );
    }
    assert_eq!(interrupt_number(259), 243);
}

#[test]
fn rendered_hard_fault_is_placed_in_its_section() {
    let inputs = vec![FnArg::Typed(PatType {
        attrs: vec![attr("exception_frame", "")],
        pat: "frame".to_string(),
        ty: ParamType::Reference {
            lifetime: None,
            mutable: false,
            elem: "ExceptionFrame".to_string(),
        },
    })];
    let func = function("fault", inputs, ReturnType::Never);
    let text = exception(&words(&["HardFault", "unsafe"]), func).ok().unwrap().render();
    syn::parse_file(&text).expect("the expansion does not parse");
    assert!(text.contains("#[export_name = \"HardFault\"]"));
    assert!(text
        .contains("#[cfg_attr(target_os = \"none\", link_section = \".HardFault.user\")]"));
    assert!(text.contains("fn cmrt_handler(frame: &::cortex_m_rt::ExceptionFrame) -> !"));
    assert!(text.contains("fault(frame, )"));
}

#[test]
fn rendered_exception_refers_to_its_name() {
    let func = function("tick", vec![], ReturnType::Default);
    let text = exception(&words(&["SysTick"]), func).ok().unwrap().render();
    syn::parse_file(&text).expect("the expansion does not parse");
    assert!(text.starts_with("const _: () = { let _ = ::cortex_m_rt::Exception::SysTick; }; "));
    assert!(text.contains("#[export_name = \"SysTick\"]"));
    assert!(text.contains("fn cmrt_handler() {"));
}

#[test]
fn rendered_interrupt_asserts_its_path() {
    let func = function("on_uart", vec![], ReturnType::Default);
    let text = interrupt(&path(&["pac", "Interrupt", "UART0"]), func).ok().unwrap().render();
    syn::parse_file(&text).expect("the expansion does not parse");
    assert!(text
        .starts_with("const _: () = { let _: pac::Interrupt = pac::Interrupt::UART0; }; "));
    assert!(text.contains("#[export_name = \"UART0\"]"));
}

#[test]
fn rendered_interrupt_keeps_the_leading_separator() {
    let mut tokens = vec![Token::Punct { mark: ':' }, Token::Punct { mark: ':' }];
    tokens.extend(path(&["pac", "UART0"]));
    let func = function("on_uart", vec![], ReturnType::Default);
    let text = interrupt(&tokens, func).ok().unwrap().render();
    syn::parse_file(&text).expect("the expansion does not parse");
    assert!(text.starts_with("const _: () = { let _: ::pac = ::pac::UART0; }; "));
}

#[test]
fn rendered_pre_init_exactly() {
    let mut func = function("before", vec![], ReturnType::Default);
    func.attrs = vec![attr("doc", "= \"early\"")];
    func.block = "{ }".to_string();
    let text = pre_init(&words(&["unsafe"]), func).ok().unwrap().render();
    assert_eq!(
        text,
        "#[export_name = \"__pre_init\"] #[doc = \"early\"] extern \"C\" fn before() { }"
    );
    syn::parse_file(&text).expect("the expansion does not parse");
}
