use workex::code::Snippet;
use workex::collect::load_interfaces_from_inputs;
use workex::comment::{CommentBlock, CommentStyle};
use workex::decl::{InterfaceDecl, MemberDecl, MethodDecl, ModuleItem, ParamDecl, ParamPattern, ReturnTypeDecl, SourceFile};
use workex::emit::{
    bind_config_factory, decimal, emit, emit_code, emit_gitignore, emit_protocol, quoted, receiver_dispatcher, sender_class,
};
use workex::funcid::FunctionId;
use workex::function::{Arg, Function};
use workex::package::{CliOptions, Package};

fn function(name: &str, args: &[(&str, bool, &str)], result: &str) -> Function {
    Function {
        name: name.to_string(),
        comment: CommentBlock::empty(),
        args: args.iter().map(|(i, o, t)| Arg { ident: i.to_string(), optional: *o, typ: t.to_string() }).collect(),
        result_type: result.to_string(),
    }
}

fn start_of(s: &Snippet) -> &str {
    match s {
        Snippet::Block { start, .. } => start,
        _ => panic!("block expected"),
    }
}

fn body_of(s: &Snippet) -> &Vec<Snippet> {
    match s {
        Snippet::Block { body, .. } => body,
        _ => panic!("block expected"),
    }
}

fn send_call(s: &Snippet) -> String {
    match s {
        Snippet::Concat(parts) => start_of(&body_of(parts.last().unwrap())[0]).to_string(),
        _ => panic!("concat expected"),
    }
}

#[test]
fn void_and_value_results_use_different_calls() {
    let v = function("ping", &[], "void");
    let g = function("get", &[("k", false, "string")], "number");
    assert_eq!(v.send_call_start("16"), "return this.sender.sendVoid(16, [");
    assert_eq!(g.send_call_start("17"), "return this.sender.send<number>(17, [");
    assert_eq!(send_call(&v.to_send_function("16", "WxPromise")), "return this.sender.sendVoid(16, [");
    assert_eq!(send_call(&g.to_send_function("17", "WxPromise")), "return this.sender.send<number>(17, [");
}

#[test]
fn zero_argument_case_does_not_destructure() {
    let v = function("ping", &[], "void");
    let case = v.to_recv_switch_case("16");
    assert_eq!(start_of(&case), "case 16: {");
    let body = body_of(&case);
    assert_eq!(body.len(), 1);
    assert!(matches!(&body[0], Snippet::Line(l) if l == "return handler.ping();"));
    let rendered = case.render();
    assert!(!rendered.contains("const ["));
    let g = function("get", &[("k", false, "string"), ("d", true, "number")], "number");
    let case = g.to_recv_case("17", "delegate", "payload");
    let body = body_of(&case);
    assert_eq!(body.len(), 2);
    assert_eq!(start_of(&body[0]), "const [");
    assert_eq!(start_of(&body[1]), "return delegate.get(");
    let rendered = case.render();
    assert!(rendered.contains("a0"));
    assert!(rendered.contains("a1"));
    assert!(rendered.contains("= payload;"));
}

#[test]
fn arguments_render_as_parameters() {
    let a = Arg { ident: "x".to_string(), optional: true, typ: "number".to_string() };
    assert_eq!(a.to_code(), "x?: number");
    let b = Arg { ident: "y".to_string(), optional: false, typ: "string".to_string() };
    assert_eq!(b.to_arg(), "y: string");
}

#[test]
fn comments_are_reemitted_in_style() {
    let js = CommentBlock { style: CommentStyle::JsDoc, lines: vec!["Hello".to_string(), "* listed".to_string()] };
    let text = js.to_code().unwrap().render();
    assert_eq!(text, "/**\n * Hello\n * listed\n */");
    let ts = CommentBlock { style: CommentStyle::TripleSlash, lines: vec!["Hi".to_string()] };
    assert_eq!(ts.to_code().unwrap().render(), "/// Hi");
    assert!(CommentBlock::empty().to_code().is_none());
}

#[test]
fn literals_and_numbers() {
    assert_eq!(quoted("a\"b\\c"), "\"a\\\"b\\\\c\"");
    assert_eq!(quoted("plain"), "\"plain\"");
    assert_eq!(decimal(0), "0");
    assert_eq!(decimal(16), "16");
    assert_eq!(decimal(1234567), "1234567");
    assert_eq!(emit_gitignore(), "# workex output\n*\n");
}

#[test]
fn linked_factory_takes_partner_handler() {
    let f = bind_config_factory("proto", "Foo", Some("Bar"));
    let last = match &f {
        Snippet::Concat(parts) => parts.last().unwrap(),
        _ => panic!("concat expected"),
    };
    assert!(start_of(last).starts_with("export const protoFoo = (handler: Bar, resolve?: (_: Foo)"));
    let u = bind_config_factory("proto", "Foo", None);
    let text = u.render();
    assert!(text.contains("export function protoFoo(handler: Foo): WxProtocolBindConfig<Record<string, never>>;"));
    assert!(text.contains("\"_wxStub\""));
}

fn method(name: &str, params: Vec<ParamDecl>, ret: &str) -> MemberDecl {
    MemberDecl::Method(MethodDecl {
        optional: false,
        has_type_params: false,
        name: Some(name.to_string()),
        params,
        return_type: ReturnTypeDecl::Reference { name: Some("WxPromise".to_string()), args: Some(vec![ret.to_string()]) },
        comments: vec![],
    })
}

#[test]
fn package_emits_all_files() {
    let x = ParamDecl { pattern: ParamPattern::Ident, ident: "x".to_string(), optional: false, type_text: Some("Num".to_string()) };
    let items = vec![
        ModuleItem::Interface(InterfaceDecl { name: "Foo".to_string(), has_type_params: false, has_extends: false, members: vec![method("bar", vec![x], "Str")], comments: vec![] }),
        ModuleItem::Interface(InterfaceDecl { name: "Bar".to_string(), has_type_params: false, has_extends: false, members: vec![method("go", vec![], "void")], comments: vec![] }),
    ];
    let is = load_interfaces_from_inputs(&vec![SourceFile { filename: "api.ts".to_string(), items }]).unwrap();
    let cli = CliOptions {
        inputs: vec!["api.ts".to_string()],
        protocol: "proto".to_string(),
        prefix: None,
        no_gitignore: false,
        link: vec!["Foo,Bar".to_string()],
        dir: "interfaces".to_string(),
    };
    let pkg = Package::try_new(&cli, &vec!["/p".to_string()], is).unwrap();
    let files = emit(&pkg);
    let names: Vec<&str> = files.iter().map(|f| f.name.as_str()).collect();
    assert_eq!(names, vec!["Bar.ts", "Bar.bus.ts", "Foo.ts", "Foo.bus.ts", "protocol.ts", ".gitignore"]);
    let foo_bus = &files[3].content;
    assert!(foo_bus.contains("export const protoFoo = (handler: Bar,"));
    let bar_bus = &files[1].content;
    assert!(bar_bus.contains("export const protoBar = (handler: Foo,"));
    let protocol = &files[4].content;
    assert!(protocol.contains("\"Bar.go\": 16,"));
    assert!(protocol.contains("\"Foo.bar\": 17,"));
    assert!(protocol.contains("export const PROTOCOL = \"proto\" as const;"));
    let foo = &files[2].content;
    assert!(foo.contains("sendVoid") == false);
    assert!(foo.contains("this.sender.send<Str>(FuncId[\"Foo.bar\"], ["));
    assert!(files[0].content.contains("this.sender.sendVoid(FuncId[\"Bar.go\"], ["));
    assert!(foo.contains("UnknownFunction"));
}


#[test]
fn package_factories_follow_links() {
    let items = vec![
        ModuleItem::Interface(InterfaceDecl { name: "Foo".to_string(), has_type_params: false, has_extends: false, members: vec![method("a", vec![], "void")], comments: vec![] }),
        ModuleItem::Interface(InterfaceDecl { name: "Bar".to_string(), has_type_params: false, has_extends: false, members: vec![method("b", vec![], "void")], comments: vec![] }),
        ModuleItem::Interface(InterfaceDecl { name: "Solo".to_string(), has_type_params: false, has_extends: false, members: vec![method("c", vec![], "void")], comments: vec![] }),
    ];
    let is = load_interfaces_from_inputs(&vec![SourceFile { filename: "api.ts".to_string(), items }]).unwrap();
    let cli = CliOptions {
        inputs: vec!["api.ts".to_string()],
        protocol: "p".to_string(),
        prefix: Some("wx".to_string()),
        no_gitignore: true,
        link: vec!["Foo,Bar".to_string()],
        dir: "out".to_string(),
    };
    let pkg = Package::try_new(&cli, &vec!["/p".to_string()], is).unwrap();
    let modules = emit_code(&pkg);
    assert_eq!(modules.len(), 7);
    let factory = |k: usize| -> String {
        match &modules[k].code {
            Snippet::Concat(parts) => match parts.last().unwrap() {
                Snippet::Concat(f) => start_of(f.last().unwrap()).to_string(),
                _ => panic!("factory expected"),
            },
            _ => panic!("module expected"),
        }
    };
    assert!(factory(1).starts_with("export const wxBar = (handler: Foo,"));
    assert!(factory(3).starts_with("export const wxFoo = (handler: Bar,"));
    assert!(factory(5).starts_with("export function wxSolo(handlerOrResolve?: Solo"));
    assert_eq!(emit(&pkg).len(), 7);
}

#[test]
fn dispatcher_covers_exactly_the_interface() {
    let items = vec![ModuleItem::Interface(InterfaceDecl {
        name: "Foo".to_string(),
        has_type_params: false,
        has_extends: false,
        members: vec![method("b", vec![], "void"), method("a", vec![], "number")],
        comments: vec![],
    })];
    let is = load_interfaces_from_inputs(&vec![SourceFile { filename: "api.ts".to_string(), items }]).unwrap();
    let d = receiver_dispatcher(&is[0]);
    let switch = &body_of(&d)[0];
    let cases = match &body_of(switch)[0] {
        Snippet::Concat(c) => c,
        _ => panic!("cases expected"),
    };
    let starts: Vec<&str> = cases.iter().map(|c| start_of(c)).collect();
    assert_eq!(starts, vec!["case FuncId[\"Foo.a\"]: {", "case FuncId[\"Foo.b\"]: {"]);
    assert!(d.render().contains("UnknownFunction"));
    let c = sender_class(&is[0]);
    assert_eq!(start_of(&c), "export class _wxSenderImpl implements Foo {");
    assert_eq!(body_of(&c).len(), 5);
    assert_eq!(send_call(&body_of(&c)[3]), "return this.sender.send<number>(FuncId[\"Foo.a\"], [");
    assert_eq!(send_call(&body_of(&c)[4]), "return this.sender.sendVoid(FuncId[\"Foo.b\"], [");
}

#[test]
fn protocol_module_lists_the_table() {
    let table = vec![
        FunctionId { interface: "A".to_string(), function: "x".to_string(), id: 16 },
        FunctionId { interface: "B".to_string(), function: "y".to_string(), id: 17 },
    ];
    let code = emit_protocol("my \"p\"", &table);
    let text = code.render();
    assert!(text.contains("export const PROTOCOL = \"my \\\"p\\\"\" as const;"));
    assert!(text.contains("\"A.x\": 16,"));
    assert!(text.contains("\"B.y\": 17,"));
}

#[test]
fn line_terminators_are_escaped() {
    assert_eq!(quoted("a\nb\rc"), "\"a\\nb\\rc\"");
    assert_eq!(quoted("x\u{2028}y\u{2029}"), "\"x\\u2028y\\u2029\"");
}

#[test]
fn sender_method_declares_its_result() {
    let g = function("get", &[("k", false, "string"), ("o", true, "number")], "number");
    let text = g.to_send_function("7", "WxPromise").render();
    assert!(text.contains("public get( k: string, o?: number ): WxPromise<number> {"), "{text}");
    assert!(text.contains("return this.sender.send<number>(7, [ k, o ]);"), "{text}");
}
