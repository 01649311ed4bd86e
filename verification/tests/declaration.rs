use handler_rt::attributes::{entry, exception, interrupt, pre_init};
use handler_rt::catalog::{HandlerKind, Injection};
use handler_rt::codegen::{Argument, Assertion};
use handler_rt::diagnostic::{Diagnostic, Site, Violation};
use handler_rt::arguments::{ExceptionArgs, InterruptArgs, PreInitArgs};
use handler_rt::input::{
    extract_cfgs, extract_handler_params, parse_handler_base, HandlerParamKind, ResourceParam,
};
use handler_rt::syntax::{
    Attribute, FnArg, HandlerFn, ParamType, PatType, ReturnType, Token,
};
use handler_rt::validate::{check_attr_whitelist, HandlerDeclaration, WhiteListCaller};

fn attr(path: &str, tokens: &str) -> Attribute {
    Attribute {
        outer: true,
        path: path.to_string(),
        plain: true,
        tokens: tokens.to_string(),
        expression: None,
    }
}

fn init(expression: &str) -> Attribute {
    Attribute {
        outer: true,
        path: "init".to_string(),
        plain: true,
        tokens: format!("({})", expression),
        expression: Some(expression.to_string()),
    }
}

fn mut_ref(elem: &str) -> ParamType {
    ParamType::Reference { lifetime: None, mutable: true, elem: elem.to_string() }
}

fn shared_ref(elem: &str) -> ParamType {
    ParamType::Reference { lifetime: None, mutable: false, elem: elem.to_string() }
}

fn plain_type(text: &str) -> ParamType {
    ParamType::Other { text: text.to_string() }
}

fn param(attrs: Vec<Attribute>, pat: &str, ty: ParamType) -> FnArg {
    FnArg::Typed(PatType { attrs, pat: pat.to_string(), ty })
}

fn resource(pat: &str, expression: &str, elem: &str) -> FnArg {
    param(vec![init(expression)], pat, mut_ref(elem))
}

fn function(ident: &str, inputs: Vec<FnArg>, output: ReturnType) -> HandlerFn {
    HandlerFn {
        attrs: vec![],
        vis: String::new(),
        constness: false,
        asyncness: false,
        unsafety: false,
        abi: None,
        ident: ident.to_string(),
        generics: String::new(),
        where_clause: None,
        inputs,
        variadic: false,
        output,
        block: "{ loop {} }".to_string(),
    }
}

fn words(names: &[&str]) -> Vec<Token> {
    names.iter().map(|name| Token::Ident { name: name.to_string() }).collect()
}

fn path(segments: &[&str]) -> Vec<Token> {
    let mut tokens = Vec::new();
    for (i, segment) in segments.iter().enumerate() {
        if i > 0 {
            tokens.push(Token::Punct { mark: ':' });
            tokens.push(Token::Punct { mark: ':' });
        }
        tokens.push(Token::Ident { name: segment.to_string() });
    }
    tokens
}

fn rejected<T>(result: Result<T, Diagnostic>) -> (Violation, Site) {
    match result {
        Ok(_) => panic!("the declaration was accepted"),
        Err(d) => (d.violation, d.site),
    }
}

#[test]
fn entry_without_resources_is_accepted() {
    let expansion = entry(&words(&[]), function("main", vec![], ReturnType::Never)).ok().unwrap();
    assert!(matches!(expansion.assertion, Assertion::Nothing));
    assert_eq!(expansion.trampoline.export_name, "main");
    assert!(expansion.trampoline.diverges);
    assert_eq!(expansion.trampoline.injection, Injection::Nothing);
    assert_eq!(expansion.trampoline.callee, "main");
    assert!(expansion.trampoline.slots.is_empty());
    assert!(expansion.trampoline.arguments.is_empty());
    assert!(expansion.trampoline.link_section.is_none());
    assert_eq!(expansion.handler.ident, "main");
}

#[test]
fn entry_with_arguments_is_rejected() {
    let result = entry(&words(&["foo"]), function("main", vec![], ReturnType::Never));
    assert_eq!(rejected(result), (Violation::UnexpectedArguments, Site::CallSite));
}

#[test]
fn entry_may_borrow_a_resource_for_static() {
    let inputs = vec![param(
        vec![init("0")],
        "count",
        ParamType::Reference {
            lifetime: Some("static".to_string()),
            mutable: true,
            elem: "u32".to_string(),
        },
    )];
    let expansion = entry(&words(&[]), function("main", inputs, ReturnType::Never)).ok().unwrap();
    assert_eq!(expansion.trampoline.slots.len(), 1);
    assert_eq!(expansion.trampoline.slots[0].name, "RESOURCE_0");
    assert_eq!(expansion.trampoline.slots[0].ty, "u32");
    assert_eq!(expansion.trampoline.slots[0].init, "0");
}

#[test]
fn entry_that_returns_a_value_is_rejected() {
    let func = function("main", vec![], ReturnType::Other { text: "u32".to_string() });
    assert_eq!(rejected(entry(&words(&[]), func)), (Violation::ReturnType, Site::Output));
}

#[test]
fn async_handler_is_rejected() {
    let mut func = function("main", vec![], ReturnType::Never);
    func.asyncness = true;
    assert_eq!(rejected(entry(&words(&[]), func)), (Violation::Async, Site::Asyncness));
}

#[test]
fn variadic_handler_is_rejected() {
    let mut func = function("main", vec![], ReturnType::Never);
    func.variadic = true;
    assert_eq!(rejected(entry(&words(&[]), func)), (Violation::Variadic, Site::Variadic));
}

#[test]
fn generic_handler_is_rejected() {
    let mut func = function("main", vec![], ReturnType::Never);
    func.generics = "T".to_string();
    assert_eq!(rejected(entry(&words(&[]), func)), (Violation::Generic, Site::Generics));
}

#[test]
fn handler_with_where_clause_is_rejected() {
    let mut func = function("main", vec![], ReturnType::Never);
    func.where_clause = Some("u8: Copy".to_string());
    assert_eq!(rejected(entry(&words(&[]), func)), (Violation::WhereClause, Site::WhereClause));
}

#[test]
fn base_checks_come_in_order() {
    let mut func = function("main", vec![], ReturnType::Never);
    func.asyncness = true;
    func.variadic = true;
    func.generics = "T".to_string();
    func.where_clause = Some(String::new());
    assert_eq!(rejected(parse_handler_base(&func)), (Violation::Async, Site::Asyncness));
    func.asyncness = false;
    assert_eq!(rejected(parse_handler_base(&func)), (Violation::Variadic, Site::Variadic));
    func.variadic = false;
    assert_eq!(rejected(parse_handler_base(&func)), (Violation::Generic, Site::Generics));
    func.generics = String::new();
    assert_eq!(rejected(parse_handler_base(&func)), (Violation::WhereClause, Site::WhereClause));
    func.where_clause = None;
    assert!(parse_handler_base(&func).is_ok());
}

#[test]
fn receiver_is_rejected() {
    let inputs = vec![FnArg::Receiver { text: "&self".to_string() }];
    let func = function("main", inputs, ReturnType::Never);
    assert_eq!(rejected(entry(&words(&[]), func)), (Violation::Receiver, Site::Parameter(0)));
}

#[test]
fn parameter_without_role_is_rejected() {
    let inputs = vec![resource("a", "0", "u32"), param(vec![], "b", mut_ref("u32"))];
    let func = function("main", inputs, ReturnType::Never);
    assert_eq!(rejected(entry(&words(&[]), func)), (Violation::MissingRole, Site::Parameter(1)));
}

#[test]
fn parameter_with_two_roles_is_rejected() {
    let inputs = vec![param(vec![init("0"), attr("irqn", "")], "a", mut_ref("u32"))];
    let func = function("main", inputs, ReturnType::Never);
    assert_eq!(rejected(entry(&words(&[]), func)), (Violation::MultipleRoles, Site::Parameter(0)));
}

#[test]
fn two_roles_are_reported_before_what_the_first_one_lacks() {
    let inputs = vec![param(vec![attr("irqn", "(1)"), init("0")], "a", mut_ref("u32"))];
    let func = function("main", inputs, ReturnType::Never);
    assert_eq!(rejected(entry(&words(&[]), func)), (Violation::MultipleRoles, Site::Parameter(0)));
}

#[test]
fn role_attribute_with_a_longer_path_denotes_no_role() {
    let mut init = init("0");
    init.plain = false;
    let inputs = vec![param(vec![init], "a", mut_ref("u32"))];
    let func = function("main", inputs, ReturnType::Never);
    assert_eq!(rejected(entry(&words(&[]), func)), (Violation::MissingRole, Site::Parameter(0)));
}

#[test]
fn resource_must_be_a_mutable_reference() {
    let inputs = vec![param(vec![init("0")], "a", shared_ref("u32"))];
    let func = function("main", inputs, ReturnType::Never);
    assert_eq!(rejected(entry(&words(&[]), func)), (Violation::ResourceType, Site::ParameterType(0)));

    let inputs = vec![param(vec![init("0")], "a", plain_type("u32"))];
    let func = function("main", inputs, ReturnType::Never);
    assert_eq!(rejected(entry(&words(&[]), func)), (Violation::ResourceType, Site::ParameterType(0)));
}

#[test]
fn resource_with_another_lifetime_is_rejected() {
    let ty = ParamType::Reference {
        lifetime: Some("a".to_string()),
        mutable: true,
        elem: "u32".to_string(),
    };
    let inputs = vec![param(vec![init("0")], "a", ty)];
    let func = function("main", inputs, ReturnType::Never);
    assert_eq!(
        rejected(entry(&words(&[]), func)),
        (Violation::ExplicitLifetime, Site::ParameterLifetime(0))
    );
}

#[test]
fn initializer_must_be_one_expression() {
    for tokens in ["", "()", "= 0", "(0) (1)", "(0, 1)"] {
        let inputs = vec![param(vec![attr("init", tokens)], "a", mut_ref("u32"))];
        let func = function("main", inputs, ReturnType::Never);
        assert_eq!(
            rejected(entry(&words(&[]), func)),
            (Violation::InvalidInitializer, Site::ParameterAttribute(0)),
            "tokens: {}",
            tokens
        );
    }
}

#[test]
fn initializer_is_the_expression_of_the_attribute() {
    let cfgs = vec![];
    let res = ResourceParam::parse(&init("1 + 2"), &cfgs, &mut_ref("u32"), 0).ok().unwrap();
    assert_eq!(res.init, "1 + 2");
    assert_eq!(res.ty, "u32");
    assert!(!res.is_static);
    assert!(res.cfgs.is_empty());

    let mut braces = init("Foo::new()");
    braces.tokens = "{Foo::new()}".to_string();
    let res = ResourceParam::parse(&braces, &cfgs, &mut_ref("Foo"), 3).ok().unwrap();
    assert_eq!(res.init, "Foo::new()");
    assert_eq!(res.ty, "Foo");
}

#[test]
fn initializer_error_comes_before_type_error() {
    let cfgs = vec![];
    let d = ResourceParam::parse(&attr("init", ""), &cfgs, &plain_type("u32"), 2).err().unwrap();
    assert_eq!((d.violation, d.site), (Violation::InvalidInitializer, Site::ParameterAttribute(2)));
}

#[test]
fn resource_keeps_the_guards_it_is_given() {
    let cfgs = vec![attr("cfg", "(never)")];
    let res = ResourceParam::parse(&init("0"), &cfgs, &mut_ref("u32"), 0).ok().unwrap();
    assert_eq!(res.init, "0");
    assert_eq!(res.ty, "u32");
    assert_eq!(res.cfgs.len(), 1);
    assert_eq!(res.cfgs[0].tokens, "(never)");
    assert!(!res.is_static);

    let d = ResourceParam::parse(&attr("init", "(0"), &cfgs, &mut_ref("u32"), 4).err().unwrap();
    assert_eq!((d.violation, d.site), (Violation::InvalidInitializer, Site::ParameterAttribute(4)));

    let d = ResourceParam::parse(&init("0"), &cfgs, &plain_type("u32"), 1).err().unwrap();
    assert_eq!((d.violation, d.site), (Violation::ResourceType, Site::ParameterType(1)));
}

#[test]
fn irqn_with_arguments_is_rejected() {
    let inputs = vec![param(vec![attr("irqn", "(1)")], "irqn", plain_type("i16"))];
    let func = function("DefaultHandler", inputs, ReturnType::Default);
    assert_eq!(
        rejected(exception(&words(&["DefaultHandler", "unsafe"]), func)),
        (Violation::IrqnArguments, Site::ParameterAttributeArguments(0))
    );
}

#[test]
fn exception_frame_with_arguments_is_rejected() {
    let inputs = vec![param(vec![attr("exception_frame", "(1)")], "ef", shared_ref("ExceptionFrame"))];
    let func = function("HardFault", inputs, ReturnType::Never);
    assert_eq!(
        rejected(exception(&words(&["HardFault", "unsafe"]), func)),
        (Violation::ExceptionFrameArguments, Site::ParameterAttributeArguments(0))
    );
}

#[test]
fn handler_param_kind_of_other_attribute_is_none() {
    let cfgs = vec![];
    assert!(HandlerParamKind::parse(&attr("cfg", "(never)"), &cfgs, &mut_ref("u32"), 0).is_none());
    assert!(matches!(
        HandlerParamKind::parse(&attr("irqn", ""), &cfgs, &plain_type("i16"), 0),
        Some(Ok(HandlerParamKind::Irqn))
    ));
    assert!(matches!(
        HandlerParamKind::parse(&attr("exception_frame", ""), &cfgs, &shared_ref("E"), 0),
        Some(Ok(HandlerParamKind::ExceptionFrame))
    ));
    assert!(matches!(
        HandlerParamKind::parse(&init("0"), &cfgs, &mut_ref("u32"), 0),
        Some(Ok(HandlerParamKind::Resource(_)))
    ));
}

#[test]
fn extract_cfgs_keeps_the_guards_in_order() {
    let attrs = vec![
        attr("cfg", "(a)"),
        init("0"),
        attr("doc", "= \"x\""),
        attr("cfg", "(b)"),
    ];
    let cfgs = extract_cfgs(&attrs);
    assert_eq!(cfgs.len(), 2);
    assert_eq!(cfgs[0].tokens, "(a)");
    assert_eq!(cfgs[1].tokens, "(b)");
}

#[test]
fn extracting_parameters_takes_the_role_attributes_off() {
    let inputs = vec![
        param(vec![attr("cfg", "(never)"), init("0")], "count", mut_ref("u32")),
        param(vec![init("false"), attr("allow", "(unused)")], "flag", mut_ref("bool")),
    ];
    let mut func = function("main", inputs, ReturnType::Never);
    let params = extract_handler_params(&mut func).ok().unwrap();
    assert_eq!(params.len(), 2);
    assert_eq!(params[0].attr.path, "init");
    assert_eq!(params[0].attr.tokens, "(0)");
    match &params[0].kind {
        HandlerParamKind::Resource(res) => {
            assert_eq!(res.init, "0");
            assert_eq!(res.ty, "u32");
            assert_eq!(res.cfgs.len(), 1);
            assert_eq!(res.cfgs[0].tokens, "(never)");
        }
        _ => panic!("not a resource"),
    }
    match &params[1].kind {
        HandlerParamKind::Resource(res) => {
            assert_eq!(res.init, "false");
            assert_eq!(res.ty, "bool");
            assert!(res.cfgs.is_empty());
        }
        _ => panic!("not a resource"),
    }
    assert_eq!(func.inputs.len(), 2);
    match &func.inputs[0] {
        FnArg::Typed(p) => {
            assert_eq!(p.attrs.len(), 1);
            assert_eq!(p.attrs[0].path, "cfg");
            assert_eq!(p.pat, "count");
        }
        _ => panic!("not a typed parameter"),
    }
    match &func.inputs[1] {
        FnArg::Typed(p) => {
            assert_eq!(p.attrs.len(), 1);
            assert_eq!(p.attrs[0].path, "allow");
            assert_eq!(p.pat, "flag");
        }
        _ => panic!("not a typed parameter"),
    }
}

#[test]
fn rejected_function_keeps_its_parameters() {
    let inputs = vec![resource("a", "0", "u32"), param(vec![], "b", mut_ref("u32"))];
    let mut func = function("main", inputs, ReturnType::Never);
    assert!(extract_handler_params(&mut func).is_err());
    match &func.inputs[0] {
        FnArg::Typed(p) => assert_eq!(p.attrs.len(), 1),
        _ => panic!("not a typed parameter"),
    }
}

#[test]
fn exception_args_name_the_target() {
    let args = ExceptionArgs::parse(&words(&["SysTick"])).ok().unwrap();
    assert_eq!(args.name, "SysTick");
    assert!(!args.unsafe_token);
    assert!(!args.exception.is_unsafe_to_define());

    let args = ExceptionArgs::parse(&words(&["HardFault", "unsafe"])).ok().unwrap();
    assert_eq!(args.name, "HardFault");
    assert!(args.unsafe_token);
}

#[test]
fn hazardous_exception_needs_the_marker() {
    for name in ["DefaultHandler", "HardFault", "NonMaskableInt"] {
        let d = ExceptionArgs::parse(&words(&[name])).err().unwrap();
        assert_eq!(d.violation, Violation::UnsafeToHandle);
        assert_eq!(d.site, Site::ArgumentToken(0));
        assert_eq!(d.message(), format!("it is unsafe to handle `{}`", name));
    }
}

#[test]
fn unknown_exception_is_rejected_before_the_function_is_read() {
    let mut func = function("f", vec![], ReturnType::Default);
    func.asyncness = true;
    let d = exception(&words(&["Reset", "unsafe"]), func).err().unwrap();
    assert_eq!(d.violation, Violation::InvalidExceptionName);
    assert_eq!(d.message(), "invalid exception name `Reset`");
}

#[test]
fn pre_init_args_need_the_marker() {
    assert!(PreInitArgs::parse(&words(&["unsafe"])).ok().unwrap().unsafe_token);
    let d = PreInitArgs::parse(&words(&[])).err().unwrap();
    assert_eq!((d.violation, d.site), (Violation::MissingSafetyMarker, Site::Arguments));
    assert_eq!(d.message(), "expected `unsafe`");
    let d = PreInitArgs::parse(&words(&["safe"])).err().unwrap();
    assert_eq!((d.violation, d.site), (Violation::MissingSafetyMarker, Site::Arguments));
    let d = PreInitArgs::parse(&words(&["unsafe", "unsafe"])).err().unwrap();
    assert_eq!((d.violation, d.site), (Violation::UnexpectedToken, Site::ArgumentToken(1)));
}

#[test]
fn exception_args_are_a_name_and_the_marker() {
    let d = ExceptionArgs::parse(&words(&[])).err().unwrap();
    assert_eq!((d.violation, d.site), (Violation::ExpectedIdentifier, Site::Arguments));

    let d = ExceptionArgs::parse(&vec![Token::Literal { text: "1".to_string() }]).err().unwrap();
    assert_eq!((d.violation, d.site), (Violation::ExpectedIdentifier, Site::ArgumentToken(0)));

    let d = ExceptionArgs::parse(&words(&["SysTick", "safe"])).err().unwrap();
    assert_eq!((d.violation, d.site), (Violation::UnexpectedToken, Site::ArgumentToken(1)));

    let d = ExceptionArgs::parse(&words(&["SysTick", "unsafe", "unsafe"])).err().unwrap();
    assert_eq!((d.violation, d.site), (Violation::UnexpectedToken, Site::ArgumentToken(2)));

    let d = ExceptionArgs::parse(&words(&["HardFault", "safe"])).err().unwrap();
    assert_eq!((d.violation, d.site), (Violation::UnsafeToHandle, Site::ArgumentToken(0)));

    let d = ExceptionArgs::parse(&words(&["Reset", "unsafe", "x"])).err().unwrap();
    assert_eq!((d.violation, d.site), (Violation::InvalidExceptionName, Site::ArgumentToken(0)));

    let args = ExceptionArgs::parse(&words(&["SysTick", "unsafe"])).ok().unwrap();
    assert!(args.unsafe_token);
    assert_eq!(args.name, "SysTick");
}

#[test]
fn interrupt_path_of_one_segment_is_rejected() {
    let d = InterruptArgs::parse(&path(&["UART0"])).err().unwrap();
    assert_eq!((d.violation, d.site), (Violation::PathTooShort, Site::Arguments));
    let d = InterruptArgs::parse(&vec![]).err().unwrap();
    assert_eq!((d.violation, d.site), (Violation::ExpectedIdentifier, Site::Arguments));
    let mut rooted = vec![Token::Punct { mark: ':' }, Token::Punct { mark: ':' }];
    rooted.extend(path(&["UART0"]));
    let d = InterruptArgs::parse(&rooted).err().unwrap();
    assert_eq!((d.violation, d.site), (Violation::PathTooShort, Site::Arguments));
}

#[test]
fn interrupt_path_keeps_its_segments() {
    let args = InterruptArgs::parse(&path(&["pac", "Interrupt", "UART0"])).ok().unwrap();
    assert!(!args.leading_colon);
    assert_eq!(args.segments, vec!["pac", "Interrupt", "UART0"]);

    let mut rooted = vec![Token::Punct { mark: ':' }, Token::Punct { mark: ':' }];
    rooted.extend(path(&["pac", "UART0"]));
    let args = InterruptArgs::parse(&rooted).ok().unwrap();
    assert!(args.leading_colon);
    assert_eq!(args.segments, vec!["pac", "UART0"]);
}

#[test]
fn interrupt_path_with_stray_tokens_is_rejected() {
    let mut tokens = path(&["Interrupt", "UART0"]);
    tokens.push(Token::Literal { text: "1".to_string() });
    let d = InterruptArgs::parse(&tokens).err().unwrap();
    assert_eq!((d.violation, d.site), (Violation::UnexpectedToken, Site::ArgumentToken(4)));

    let mut tokens = path(&["Interrupt", "UART0"]);
    tokens.push(Token::Punct { mark: ':' });
    tokens.push(Token::Punct { mark: ':' });
    let d = InterruptArgs::parse(&tokens).err().unwrap();
    assert_eq!((d.violation, d.site), (Violation::ExpectedIdentifier, Site::Arguments));

    let mut tokens = path(&["Interrupt", "UART0"]);
    tokens.push(Token::Punct { mark: ':' });
    tokens.push(Token::Ident { name: "X".to_string() });
    let d = InterruptArgs::parse(&tokens).err().unwrap();
    assert_eq!((d.violation, d.site), (Violation::UnexpectedToken, Site::ArgumentToken(4)));

    let tokens = vec![Token::Literal { text: "1".to_string() }];
    let d = InterruptArgs::parse(&tokens).err().unwrap();
    assert_eq!((d.violation, d.site), (Violation::ExpectedIdentifier, Site::ArgumentToken(0)));

    let mut tokens = path(&["Interrupt", "UART0"]);
    tokens[3] = Token::Punct { mark: '!' };
    let d = InterruptArgs::parse(&tokens).err().unwrap();
    assert_eq!((d.violation, d.site), (Violation::ExpectedIdentifier, Site::ArgumentToken(3)));
}

#[test]
fn interrupt_path_with_arguments_is_rejected() {
    // pac::Interrupt<T>::UART0
    let mut tokens = path(&["pac", "Interrupt"]);
    tokens.push(Token::Punct { mark: '<' });
    tokens.push(Token::Ident { name: "T".to_string() });
    tokens.push(Token::Punct { mark: '>' });
    tokens.push(Token::Punct { mark: ':' });
    tokens.push(Token::Punct { mark: ':' });
    tokens.push(Token::Ident { name: "UART0".to_string() });
    let d = InterruptArgs::parse(&tokens).err().unwrap();
    assert_eq!((d.violation, d.site), (Violation::PathArguments, Site::Arguments));
    assert_eq!(d.message(), "path must not contain type, lifetime, or const parameters");

    // pac::Interrupt::<'a>::UART0
    let mut tokens = path(&["pac", "Interrupt"]);
    tokens.push(Token::Punct { mark: ':' });
    tokens.push(Token::Punct { mark: ':' });
    tokens.push(Token::Punct { mark: '<' });
    tokens.push(Token::Punct { mark: '\'' });
    tokens.push(Token::Ident { name: "a".to_string() });
    tokens.push(Token::Punct { mark: '>' });
    let d = InterruptArgs::parse(&tokens).err().unwrap();
    assert_eq!((d.violation, d.site), (Violation::PathArguments, Site::Arguments));

    // Interrupt(u8)::UART0
    let mut tokens = path(&["Interrupt"]);
    tokens.push(Token::Group { text: "(u8)".to_string() });
    tokens.push(Token::Punct { mark: ':' });
    tokens.push(Token::Punct { mark: ':' });
    tokens.push(Token::Ident { name: "UART0".to_string() });
    let d = InterruptArgs::parse(&tokens).err().unwrap();
    assert_eq!((d.violation, d.site), (Violation::PathArguments, Site::Arguments));

    // Interrupt<'a>::USART1
    let mut tokens = path(&["Interrupt"]);
    tokens.push(Token::Punct { mark: '<' });
    tokens.push(Token::Punct { mark: '\'' });
    tokens.push(Token::Ident { name: "a".to_string() });
    tokens.push(Token::Punct { mark: '>' });
    tokens.push(Token::Punct { mark: ':' });
    tokens.push(Token::Punct { mark: ':' });
    tokens.push(Token::Ident { name: "USART1".to_string() });
    let d = InterruptArgs::parse(&tokens).err().unwrap();
    assert_eq!((d.violation, d.site), (Violation::PathArguments, Site::Arguments));

    // a::b<Vec<Vec<u8>>, fn() -> u8>::c
    let mut tokens = path(&["a", "b"]);
    for mark in ['<'] {
        tokens.push(Token::Punct { mark });
    }
    tokens.push(Token::Ident { name: "Vec".to_string() });
    tokens.push(Token::Punct { mark: '<' });
    tokens.push(Token::Ident { name: "Vec".to_string() });
    tokens.push(Token::Punct { mark: '<' });
    tokens.push(Token::Ident { name: "u8".to_string() });
    tokens.push(Token::Punct { mark: '>' });
    tokens.push(Token::Punct { mark: '>' });
    tokens.push(Token::Punct { mark: ',' });
    tokens.push(Token::Ident { name: "fn".to_string() });
    tokens.push(Token::Group { text: "()".to_string() });
    tokens.push(Token::Punct { mark: '-' });
    tokens.push(Token::Punct { mark: '>' });
    tokens.push(Token::Ident { name: "u8".to_string() });
    tokens.push(Token::Punct { mark: '>' });
    tokens.push(Token::Punct { mark: ':' });
    tokens.push(Token::Punct { mark: ':' });
    tokens.push(Token::Ident { name: "c".to_string() });
    let d = InterruptArgs::parse(&tokens).err().unwrap();
    assert_eq!((d.violation, d.site), (Violation::PathArguments, Site::Arguments));
    tokens.push(Token::Literal { text: "1".to_string() });
    let d = InterruptArgs::parse(&tokens).err().unwrap();
    assert_eq!((d.violation, d.site), (Violation::UnexpectedToken, Site::ArgumentToken(22)));
}

#[test]
fn segments_are_counted_before_arguments_are_objected_to() {
    // USART1<u8>
    let mut tokens = path(&["USART1"]);
    tokens.push(Token::Punct { mark: '<' });
    tokens.push(Token::Ident { name: "u8".to_string() });
    tokens.push(Token::Punct { mark: '>' });
    let d = InterruptArgs::parse(&tokens).err().unwrap();
    assert_eq!((d.violation, d.site), (Violation::PathTooShort, Site::Arguments));
    assert_eq!(
        d.message(),
        "path must be of the form `Enum::Variant` (just `Variant` is not allowed)"
    );

    // USART1(u8)
    let mut tokens = path(&["USART1"]);
    tokens.push(Token::Group { text: "(u8)".to_string() });
    let d = InterruptArgs::parse(&tokens).err().unwrap();
    assert_eq!((d.violation, d.site), (Violation::PathTooShort, Site::Arguments));

    // USART1::<u8
    let mut tokens = path(&["USART1"]);
    tokens.push(Token::Punct { mark: ':' });
    tokens.push(Token::Punct { mark: ':' });
    tokens.push(Token::Punct { mark: '<' });
    tokens.push(Token::Ident { name: "u8".to_string() });
    let d = InterruptArgs::parse(&tokens).err().unwrap();
    assert_eq!((d.violation, d.site), (Violation::PathTooShort, Site::Arguments));
}

#[test]
fn interrupt_path_is_checked_before_the_function() {
    let mut func = function("uart", vec![], ReturnType::Default);
    func.asyncness = true;
    assert_eq!(
        rejected(interrupt(&path(&["UART0"]), func)),
        (Violation::PathTooShort, Site::Arguments)
    );
    let mut func = function("uart", vec![], ReturnType::Default);
    func.asyncness = true;
    let mut tokens = path(&["pac", "Interrupt"]);
    tokens.push(Token::Punct { mark: '<' });
    assert_eq!(
        rejected(interrupt(&tokens, func)),
        (Violation::PathArguments, Site::Arguments)
    );
}

#[test]
fn interrupt_is_bound_to_the_variant() {
    let inputs = vec![resource("count", "0", "u32")];
    let func = function("on_uart", inputs, ReturnType::Default);
    let expansion = interrupt(&path(&["pac", "Interrupt", "UART0"]), func).ok().unwrap();
    assert_eq!(expansion.trampoline.export_name, "UART0");
    assert!(!expansion.trampoline.diverges);
    assert_eq!(expansion.trampoline.callee, "on_uart");
    match &expansion.assertion {
        Assertion::Interrupt { leading_colon, segments } => {
            assert!(!leading_colon);
            assert_eq!(segments, &vec!["pac", "Interrupt", "UART0"]);
        }
        _ => panic!("no assertion"),
    }
    assert_eq!(expansion.trampoline.slots.len(), 1);
    match &expansion.trampoline.arguments[0] {
        Argument::Resource { slot, cfgs } => {
            assert_eq!(slot, "RESOURCE_0");
            assert!(cfgs.is_empty());
        }
        _ => panic!("not a resource argument"),
    }
}

#[test]
fn interrupt_rejects_static_resources() {
    let ty = ParamType::Reference {
        lifetime: Some("static".to_string()),
        mutable: true,
        elem: "u32".to_string(),
    };
    let inputs = vec![resource("a", "0", "u32"), param(vec![init("0")], "b", ty)];
    let func = function("on_uart", inputs, ReturnType::Default);
    assert_eq!(
        rejected(interrupt(&path(&["Interrupt", "UART0"]), func)),
        (Violation::StaticResource, Site::ParameterReferent(1))
    );
}

#[test]
fn interrupt_rejects_injected_parameters() {
    let inputs = vec![param(vec![attr("irqn", "")], "n", plain_type("i16"))];
    let func = function("on_uart", inputs, ReturnType::Default);
    assert_eq!(
        rejected(interrupt(&path(&["Interrupt", "UART0"]), func)),
        (Violation::IrqnNotAllowed, Site::ParameterAttribute(0))
    );
    let inputs = vec![param(vec![attr("exception_frame", "")], "ef", shared_ref("ExceptionFrame"))];
    let func = function("on_uart", inputs, ReturnType::Default);
    assert_eq!(
        rejected(interrupt(&path(&["Interrupt", "UART0"]), func)),
        (Violation::ExceptionFrameNotAllowed, Site::ParameterAttribute(0))
    );
}

#[test]
fn default_handler_takes_the_interrupt_number() {
    let inputs = vec![param(vec![attr("irqn", "")], "irqn", plain_type("i16"))];
    let func = function("default", inputs, ReturnType::Default);
    let expansion = exception(&words(&["DefaultHandler", "unsafe"]), func).ok().unwrap();
    assert_eq!(expansion.trampoline.export_name, "DefaultHandler");
    assert_eq!(expansion.trampoline.injection, Injection::InterruptNumber);
    assert!(!expansion.trampoline.diverges);
    assert!(expansion.trampoline.slots.is_empty());
    assert_eq!(expansion.trampoline.arguments.len(), 1);
    assert!(matches!(expansion.trampoline.arguments[0], Argument::InterruptNumber));
    assert!(matches!(expansion.assertion, Assertion::Nothing));
    assert!(expansion.trampoline.link_section.is_none());
}

#[test]
fn default_handler_signature_violations() {
    let func = function("default", vec![], ReturnType::Default);
    assert_eq!(
        rejected(exception(&words(&["DefaultHandler", "unsafe"]), func)),
        (Violation::Arity, Site::Function)
    );

    let inputs = vec![
        param(vec![attr("irqn", "")], "irqn", plain_type("i16")),
        resource("a", "0", "u32"),
    ];
    let func = function("default", inputs, ReturnType::Default);
    assert_eq!(
        rejected(exception(&words(&["DefaultHandler", "unsafe"]), func)),
        (Violation::Arity, Site::Function)
    );

    let inputs = vec![param(vec![attr("irqn", "")], "irqn", plain_type("u16"))];
    let func = function("default", inputs, ReturnType::Default);
    assert_eq!(
        rejected(exception(&words(&["DefaultHandler", "unsafe"]), func)),
        (Violation::IrqnType, Site::ParameterType(0))
    );

    let inputs = vec![resource("a", "0", "u32")];
    let func = function("default", inputs, ReturnType::Default);
    assert_eq!(
        rejected(exception(&words(&["DefaultHandler", "unsafe"]), func)),
        (Violation::ResourceNotAllowed, Site::ParameterAttribute(0))
    );

    let inputs = vec![param(vec![attr("exception_frame", "")], "ef", shared_ref("ExceptionFrame"))];
    let func = function("default", inputs, ReturnType::Default);
    assert_eq!(
        rejected(exception(&words(&["DefaultHandler", "unsafe"]), func)),
        (Violation::ExceptionFrameNotAllowed, Site::ParameterAttribute(0))
    );

    let inputs = vec![param(vec![attr("irqn", "")], "irqn", plain_type("i16"))];
    let func = function("default", inputs, ReturnType::Default);
    let d = exception(&words(&["DefaultHandler"]), func).err().unwrap();
    assert_eq!((d.violation, d.site), (Violation::UnsafeToHandle, Site::ArgumentToken(0)));
    assert_eq!(d.subject, "DefaultHandler");
}

#[test]
fn hard_fault_with_plain_reference_and_never_is_accepted() {
    let inputs = vec![param(vec![attr("exception_frame", "")], "ef", shared_ref("ExceptionFrame"))];
    let func = function("fault", inputs, ReturnType::Never);
    let expansion = exception(&words(&["HardFault", "unsafe"]), func).ok().unwrap();
    assert_eq!(expansion.trampoline.export_name, "HardFault");
    assert_eq!(expansion.trampoline.injection, Injection::ExceptionFrame);
    assert!(expansion.trampoline.diverges);
    assert_eq!(expansion.trampoline.link_section.as_deref(), Some(".HardFault.user"));
    assert_eq!(expansion.trampoline.arguments.len(), 1);
    assert!(matches!(expansion.trampoline.arguments[0], Argument::ExceptionFrame));
    assert!(matches!(expansion.assertion, Assertion::Nothing));
}

#[test]
fn hard_fault_with_non_reference_parameter_is_rejected() {
    let inputs = vec![param(vec![attr("exception_frame", "")], "ef", plain_type("ExceptionFrame"))];
    let func = function("fault", inputs, ReturnType::Never);
    assert_eq!(
        rejected(exception(&words(&["HardFault", "unsafe"]), func)),
        (Violation::ExceptionFrameType, Site::ParameterType(0))
    );
}

#[test]
fn hard_fault_with_mutable_or_named_reference_is_rejected() {
    let inputs = vec![param(vec![attr("exception_frame", "")], "ef", mut_ref("ExceptionFrame"))];
    let func = function("fault", inputs, ReturnType::Never);
    assert_eq!(
        rejected(exception(&words(&["HardFault", "unsafe"]), func)),
        (Violation::ExceptionFrameType, Site::ParameterType(0))
    );
    let ty = ParamType::Reference {
        lifetime: Some("a".to_string()),
        mutable: false,
        elem: "ExceptionFrame".to_string(),
    };
    let inputs = vec![param(vec![attr("exception_frame", "")], "ef", ty)];
    let func = function("fault", inputs, ReturnType::Never);
    assert_eq!(
        rejected(exception(&words(&["HardFault", "unsafe"]), func)),
        (Violation::ExceptionFrameType, Site::ParameterType(0))
    );
}

#[test]
fn hard_fault_that_may_return_is_rejected() {
    for (output, violation) in [
        (ReturnType::Default, Violation::MustDiverge),
        (ReturnType::Unit, Violation::MustDiverge),
        (ReturnType::Other { text: "u32".to_string() }, Violation::ReturnType),
    ] {
        let inputs =
            vec![param(vec![attr("exception_frame", "")], "ef", shared_ref("ExceptionFrame"))];
        let func = function("fault", inputs, output);
        assert_eq!(
            rejected(exception(&words(&["HardFault", "unsafe"]), func)),
            (violation, Site::Output)
        );
    }
    assert_eq!(
        Diagnostic::new(Violation::MustDiverge, Site::Output).message(),
        "this handler must never return: its return type must be `!`"
    );
    assert_eq!(
        Diagnostic::new(Violation::ReturnType, Site::Output).message(),
        "this handler must not return a value"
    );
}

#[test]
fn hard_fault_without_parameter_is_rejected() {
    let func = function("fault", vec![], ReturnType::Never);
    assert_eq!(rejected(exception(&words(&["HardFault", "unsafe"]), func)), (Violation::Arity, Site::Function));
}

#[test]
fn non_maskable_interrupt_takes_resources_only() {
    let inputs = vec![resource("count", "0", "u32")];
    let func = function("nmi", inputs, ReturnType::Default);
    let expansion = exception(&words(&["NonMaskableInt", "unsafe"]), func).ok().unwrap();
    assert_eq!(expansion.trampoline.export_name, "NonMaskableInt");
    assert_eq!(expansion.trampoline.slots.len(), 1);
    assert!(matches!(expansion.assertion, Assertion::Nothing));

    let inputs = vec![param(vec![attr("irqn", "")], "n", plain_type("i16"))];
    let func = function("nmi", inputs, ReturnType::Default);
    assert_eq!(
        rejected(exception(&words(&["NonMaskableInt", "unsafe"]), func)),
        (Violation::IrqnNotAllowed, Site::ParameterAttribute(0))
    );
}

#[test]
fn other_exception_is_asserted_by_name() {
    let func = function("on_systick", vec![], ReturnType::Unit);
    let expansion = exception(&words(&["SysTick"]), func).ok().unwrap();
    assert_eq!(expansion.trampoline.export_name, "SysTick");
    assert!(!expansion.trampoline.diverges);
    match &expansion.assertion {
        Assertion::Exception { name } => assert_eq!(name, "SysTick"),
        _ => panic!("no assertion"),
    }
}

#[test]
fn exception_rejects_static_resources() {
    let ty = ParamType::Reference {
        lifetime: Some("static".to_string()),
        mutable: true,
        elem: "u32".to_string(),
    };
    let inputs = vec![param(vec![init("0")], "a", ty)];
    let func = function("on_systick", inputs, ReturnType::Default);
    assert_eq!(
        rejected(exception(&words(&["SysTick"]), func)),
        (Violation::StaticResource, Site::ParameterReferent(0))
    );
}

#[test]
fn attributes_outside_the_list_are_rejected() {
    let listed = ["doc", "link_section", "cfg", "allow", "warn", "deny", "forbid", "cold"];
    let attrs: Vec<Attribute> = listed.iter().map(|name| attr(name, "")).collect();
    for caller in [
        WhiteListCaller::Entry,
        WhiteListCaller::Exception,
        WhiteListCaller::Interrupt,
        WhiteListCaller::PreInit,
    ] {
        assert!(check_attr_whitelist(&attrs, caller).is_ok());
    }

    let attrs = vec![attr("doc", ""), attr("inline", ""), attr("no_mangle", "")];
    let cases = [
        (WhiteListCaller::Entry, Violation::EntryAttribute),
        (WhiteListCaller::Exception, Violation::ExceptionAttribute),
        (WhiteListCaller::Interrupt, Violation::InterruptAttribute),
        (WhiteListCaller::PreInit, Violation::PreInitAttribute),
    ];
    for (caller, violation) in cases {
        assert_eq!(
            rejected(check_attr_whitelist(&attrs, caller)),
            (violation, Site::FunctionAttribute(1))
        );
    }
}

#[test]
fn inner_attribute_is_rejected() {
    let mut doc = attr("doc", "= \"x\"");
    doc.outer = false;
    assert_eq!(
        rejected(check_attr_whitelist(&vec![doc], WhiteListCaller::Entry)),
        (Violation::EntryAttribute, Site::FunctionAttribute(0))
    );
}

#[test]
fn attribute_on_each_kind_of_handler() {
    let mut func = function("main", vec![], ReturnType::Never);
    func.attrs = vec![attr("inline", ""), attr("doc", "= \"x\""), attr("cfg", "(a)")];
    let expansion = entry(&words(&[]), func).ok().unwrap();
    assert_eq!(expansion.handler.attrs.len(), 3);
    assert_eq!(expansion.trampoline.attrs.len(), 2);
    assert_eq!(expansion.trampoline.attrs[0].path, "doc");
    assert_eq!(expansion.trampoline.attrs[1].path, "cfg");

    let mut func = function("f", vec![], ReturnType::Default);
    func.attrs = vec![attr("inline", "")];
    assert_eq!(
        rejected(exception(&words(&["SysTick"]), func)),
        (Violation::ExceptionAttribute, Site::FunctionAttribute(0))
    );

    let mut func = function("f", vec![], ReturnType::Default);
    func.attrs = vec![attr("inline", "")];
    let expansion = interrupt(&path(&["Interrupt", "UART0"]), func).ok().unwrap();
    assert_eq!(expansion.handler.attrs.len(), 1);
    assert!(expansion.trampoline.attrs.is_empty());

    let mut func = function("f", vec![], ReturnType::Default);
    func.attrs = vec![attr("doc", "= \"x\""), attr("allow", "(unused)")];
    let expansion = exception(&words(&["SysTick"]), func).ok().unwrap();
    assert_eq!(expansion.handler.attrs.len(), 2);
    assert_eq!(expansion.trampoline.attrs.len(), 2);
}

#[test]
fn declaration_keeps_kind_and_marker() {
    let func = function("f", vec![resource("a", "0", "u32")], ReturnType::Default);
    let decl = HandlerDeclaration::declare(HandlerKind::NonMaskableInt, true, func).ok().unwrap();
    assert_eq!(decl.kind, HandlerKind::NonMaskableInt);
    assert!(decl.marker);
    assert_eq!(decl.params.len(), 1);
    assert!(decl.validate().is_ok());
    assert!(decl.check_roles().is_ok());
    assert!(decl.reject_static_resources().is_ok());
    assert!(decl.check_return().is_ok());

    let func = function("f", vec![], ReturnType::Default);
    let d = HandlerDeclaration::declare(HandlerKind::NonMaskableInt, false, func).err().unwrap();
    assert_eq!((d.violation, d.site), (Violation::UnsafeToHandle, Site::Arguments));
    assert_eq!(d.message(), "it is unsafe to handle `NonMaskableInt`");
    assert_eq!(HandlerKind::EntryPoint.vector_name(), "");
    assert_eq!(HandlerKind::HardFault.vector_name(), "HardFault");
}

#[test]
fn parse_alone_does_not_hold_to_the_contract() {
    let inputs = vec![param(vec![attr("irqn", "")], "n", plain_type("i16"))];
    let func = function("f", inputs, ReturnType::Default);
    let decl = HandlerDeclaration::parse(HandlerKind::Interrupt, false, func).ok().unwrap();
    assert!(matches!(decl.params[0].kind, HandlerParamKind::Irqn));
    assert_eq!(
        rejected(decl.validate()),
        (Violation::IrqnNotAllowed, Site::ParameterAttribute(0))
    );
}

#[test]
fn pre_init_keeps_name_attributes_and_body() {
    let mut func = function("before", vec![], ReturnType::Default);
    func.attrs = vec![attr("doc", "= \"early\"")];
    func.block = "{ setup() }".to_string();
    let expansion = pre_init(&words(&["unsafe"]), func).ok().unwrap();
    assert_eq!(expansion.export_name, "__pre_init");
    assert_eq!(expansion.ident, "before");
    assert_eq!(expansion.block, "{ setup() }");
    assert_eq!(expansion.attrs.len(), 1);
    assert_eq!(expansion.attrs[0].path, "doc");
}

#[test]
fn pre_init_signature_violations() {
    let func = function("before", vec![], ReturnType::Default);
    assert_eq!(rejected(pre_init(&words(&[]), func)), (Violation::MissingSafetyMarker, Site::Arguments));

    let func = function("before", vec![], ReturnType::Unit);
    assert!(pre_init(&words(&["unsafe"]), func).is_ok());

    let func = function("before", vec![], ReturnType::Never);
    assert_eq!(rejected(pre_init(&words(&["unsafe"]), func)), (Violation::PreInitSignature, Site::Function));

    let mut func = function("before", vec![], ReturnType::Default);
    func.constness = true;
    assert_eq!(rejected(pre_init(&words(&["unsafe"]), func)), (Violation::PreInitSignature, Site::Function));

    let mut func = function("before", vec![], ReturnType::Default);
    func.vis = "pub".to_string();
    assert_eq!(rejected(pre_init(&words(&["unsafe"]), func)), (Violation::PreInitSignature, Site::Function));

    let mut func = function("before", vec![], ReturnType::Default);
    func.abi = Some("\"C\"".to_string());
    assert_eq!(rejected(pre_init(&words(&["unsafe"]), func)), (Violation::PreInitSignature, Site::Function));

    let func = function("before", vec![resource("a", "0", "u32")], ReturnType::Default);
    assert_eq!(rejected(pre_init(&words(&["unsafe"]), func)), (Violation::PreInitSignature, Site::Function));

    let mut func = function("before", vec![], ReturnType::Default);
    func.generics = "T".to_string();
    assert_eq!(rejected(pre_init(&words(&["unsafe"]), func)), (Violation::PreInitSignature, Site::Function));

    let mut func = function("before", vec![], ReturnType::Default);
    func.where_clause = Some("u8: Copy".to_string());
    assert_eq!(rejected(pre_init(&words(&["unsafe"]), func)), (Violation::PreInitSignature, Site::Function));

    let mut func = function("before", vec![], ReturnType::Default);
    func.variadic = true;
    assert_eq!(rejected(pre_init(&words(&["unsafe"]), func)), (Violation::PreInitSignature, Site::Function));

    let mut func = function("before", vec![], ReturnType::Default);
    func.attrs = vec![attr("inline", "")];
    assert_eq!(
        rejected(pre_init(&words(&["unsafe"]), func)),
        (Violation::PreInitAttribute, Site::FunctionAttribute(0))
    );
}

#[test]
fn every_violation_has_a_message() {
    let all = [
        Violation::UnexpectedArguments,
        Violation::ExpectedIdentifier,
        Violation::UnexpectedToken,
        Violation::InvalidExceptionName,
        Violation::UnsafeToHandle,
        Violation::MissingSafetyMarker,
        Violation::PathTooShort,
        Violation::PathArguments,
        Violation::Async,
        Violation::Variadic,
        Violation::Generic,
        Violation::WhereClause,
        Violation::Receiver,
        Violation::MissingRole,
        Violation::MultipleRoles,
        Violation::IrqnArguments,
        Violation::ExceptionFrameArguments,
        Violation::InvalidInitializer,
        Violation::ExplicitLifetime,
        Violation::ResourceType,
        Violation::StaticResource,
        Violation::IrqnNotAllowed,
        Violation::ExceptionFrameNotAllowed,
        Violation::ResourceNotAllowed,
        Violation::Arity,
        Violation::IrqnType,
        Violation::ExceptionFrameType,
        Violation::ReturnType,
        Violation::MustDiverge,
        Violation::PreInitSignature,
        Violation::EntryAttribute,
        Violation::ExceptionAttribute,
        Violation::InterruptAttribute,
        Violation::PreInitAttribute,
        Violation::DuplicateStatic,
    ];
    for violation in all {
        assert!(!violation.description().is_empty());
    }
    assert_eq!(
        Diagnostic::new(Violation::Async, Site::Asyncness).message(),
        "interrupt and exception handlers must not be `async`"
    );
    assert_eq!(
        Diagnostic::new(Violation::PathTooShort, Site::Arguments).message(),
        "path must be of the form `Enum::Variant` (just `Variant` is not allowed)"
    );
    assert_eq!(
        Diagnostic::naming(Violation::UnsafeToHandle, Site::Arguments, "HardFault").message(),
        "it is unsafe to handle `HardFault`"
    );
}
