use workex::collect::{load_interfaces_from_inputs, parse, Context, Error};
use workex::comment::{parse_comment, CommentStyle};
use workex::decl::{
    CommentKind, InterfaceDecl, MemberDecl, MethodDecl, ModuleItem, ParamDecl, ParamPattern,
    RawComment, ReturnTypeDecl, SourceFile,
};
use workex::funcid::make_func_id_map;
use workex::function::{build_function, ErrorKind, Problem};
use workex::import::{Import, ImportIdent};
use workex::interface::Interface;

fn param(name: &str, ty: &str) -> ParamDecl {
    ParamDecl {
        pattern: ParamPattern::Ident,
        ident: name.to_string(),
        optional: false,
        type_text: Some(ty.to_string()),
    }
}

fn promise_of(t: &str) -> ReturnTypeDecl {
    ReturnTypeDecl::Reference { name: Some("WxPromise".to_string()), args: Some(vec![t.to_string()]) }
}

fn method(name: &str, params: Vec<ParamDecl>, ret: &str) -> MemberDecl {
    MemberDecl::Method(MethodDecl {
        optional: false,
        has_type_params: false,
        name: Some(name.to_string()),
        params,
        return_type: promise_of(ret),
        comments: vec![],
    })
}

fn interface(name: &str, members: Vec<MemberDecl>) -> InterfaceDecl {
    InterfaceDecl { name: name.to_string(), has_type_params: false, has_extends: false, members, comments: vec![] }
}

fn file(name: &str, items: Vec<ModuleItem>) -> SourceFile {
    SourceFile { filename: name.to_string(), items }
}

fn runtime_import() -> ModuleItem {
    ModuleItem::Import(Import::Import {
        is_type: true,
        idents: vec![ImportIdent { is_type: false, ident: "WxPromise".to_string(), rename: None }],
        from: "@pistonite/workex".to_string(),
    })
}

fn names(v: &[Interface]) -> Vec<String> {
    v.iter().map(|i| i.name.clone()).collect()
}

#[test]
fn empty_interface_fails_the_build() {
    let foo = interface("Foo", vec![method("bar", vec![param("x", "Num")], "Str")]);
    let empty = interface("Empty", vec![]);
    let files = vec![file("api.ts", vec![runtime_import(), ModuleItem::Interface(foo), ModuleItem::Interface(empty)])];
    let r = load_interfaces_from_inputs(&files);
    let diags = r.expect_err("the build must fail");
    assert_eq!(diags.len(), 1);
    assert!(matches!(diags[0].problem, Problem::EmptyInterface));
    assert_eq!(diags[0].subject, "Empty");
    assert_eq!(diags[0].problem.kind(), ErrorKind::StructuralError);
    assert!(matches!(parse(&files), Err(Error::Parsing)));
}

#[test]
fn functions_are_numbered_by_name() {
    let foo = interface("Foo", vec![method("b", vec![], "void"), method("a", vec![], "void")]);
    let files = vec![file("api.ts", vec![runtime_import(), ModuleItem::Interface(foo)])];
    let is = load_interfaces_from_inputs(&files).unwrap();
    let table = make_func_id_map(&is);
    assert_eq!(table.len(), 2);
    assert_eq!((table[0].interface.as_str(), table[0].function.as_str(), table[0].id), ("Foo", "a", 16));
    assert_eq!((table[1].interface.as_str(), table[1].function.as_str(), table[1].id), ("Foo", "b", 17));
}

#[test]
fn destructured_parameter_drops_the_function() {
    let bad = ParamDecl { pattern: ParamPattern::Array, ident: String::new(), optional: false, type_text: Some("number[]".to_string()) };
    let foo = interface("Foo", vec![method("bar", vec![param("x", "Num"), bad], "Str"), method("baz", vec![], "void")]);
    let files = vec![file("api.ts", vec![runtime_import(), ModuleItem::Interface(foo)])];
    let mut ctx = Context::new();
    ctx.parse_file(&files[0]);
    assert_eq!(ctx.diagnostics.len(), 1);
    assert!(matches!(ctx.diagnostics[0].problem, Problem::ArrayDestructuring));
    assert_eq!(ctx.interfaces.len(), 1);
    let fs: Vec<&str> = ctx.interfaces[0].functions.iter().map(|f| f.name.as_str()).collect();
    assert_eq!(fs, vec!["baz"]);
    assert!(load_interfaces_from_inputs(&files).is_err());
}

#[test]
fn one_problem_per_bad_parameter() {
    let object = ParamDecl { pattern: ParamPattern::Object, ident: String::new(), optional: false, type_text: None };
    let rest = ParamDecl { pattern: ParamPattern::Rest, ident: String::new(), optional: false, type_text: None };
    let untyped = ParamDecl { pattern: ParamPattern::Ident, ident: "y".to_string(), optional: false, type_text: None };
    let m = method("bar", vec![object, param("x", "Num"), rest, untyped], "Str");
    let ps = build_function(&m, "WxPromise").err().unwrap();
    assert_eq!(ps.len(), 3);
    assert!(matches!(ps[0], Problem::ObjectDestructuring));
    assert!(matches!(ps[1], Problem::RestParameter));
    assert!(matches!(ps[2], Problem::MissingParamType));
}

#[test]
fn reserved_interface_name_is_rejected_before_members() {
    let members = vec![MemberDecl::Getter, MemberDecl::Index, method("terminate", vec![], "void")];
    let wx = interface("_wxFoo", members);
    let files = vec![file("api.ts", vec![runtime_import(), ModuleItem::Interface(wx)])];
    let diags = load_interfaces_from_inputs(&files).expect_err("reserved names fail");
    assert_eq!(diags.len(), 1);
    assert!(matches!(diags[0].problem, Problem::ReservedInterfaceName));
    assert_eq!(diags[0].problem.kind(), ErrorKind::NamingError);
}

#[test]
fn interface_level_rejections() {
    let mut generic = interface("G", vec![method("a", vec![], "void")]);
    generic.has_type_params = true;
    let mut derived = interface("D", vec![method("a", vec![], "void")]);
    derived.has_extends = true;
    let files = vec![file("api.ts", vec![runtime_import(), ModuleItem::Interface(generic), ModuleItem::Interface(derived)])];
    let diags = load_interfaces_from_inputs(&files).unwrap_err();
    assert_eq!(diags.len(), 2);
    assert!(matches!(diags[0].problem, Problem::InterfaceTypeParams));
    assert_eq!(diags[0].subject, "G");
    assert!(matches!(diags[1].problem, Problem::InterfaceExtends));
}

#[test]
fn member_shapes_each_have_their_problem() {
    let shapes = vec![
        (MemberDecl::CallSignature, "call"),
        (MemberDecl::ConstructSignature, "construct"),
        (MemberDecl::Getter, "getter"),
        (MemberDecl::Setter, "setter"),
        (MemberDecl::Index, "index"),
        (MemberDecl::Property, "property"),
    ];
    for (m, label) in shapes {
        let ps = build_function(&m, "WxPromise").err().unwrap();
        assert_eq!(ps.len(), 1, "{label}");
        let ok = match label {
            "call" => matches!(ps[0], Problem::CallSignature),
            "construct" => matches!(ps[0], Problem::ConstructSignature),
            "getter" => matches!(ps[0], Problem::GetterSignature),
            "setter" => matches!(ps[0], Problem::SetterSignature),
            "index" => matches!(ps[0], Problem::IndexSignature),
            _ => matches!(ps[0], Problem::PropertySignature),
        };
        assert!(ok, "{label}");
    }
}

#[test]
fn method_level_rejections() {
    let mut opt = MethodDecl { optional: true, has_type_params: false, name: Some("a".to_string()), params: vec![], return_type: promise_of("void"), comments: vec![] };
    assert!(matches!(build_function(&MemberDecl::Method(opt), "WxPromise").err().unwrap()[0], Problem::OptionalMethod));
    opt = MethodDecl { optional: false, has_type_params: true, name: Some("a".to_string()), params: vec![], return_type: promise_of("void"), comments: vec![] };
    assert!(matches!(build_function(&MemberDecl::Method(opt), "WxPromise").err().unwrap()[0], Problem::MethodTypeParams));
    opt = MethodDecl { optional: false, has_type_params: false, name: None, params: vec![], return_type: promise_of("void"), comments: vec![] };
    assert!(matches!(build_function(&MemberDecl::Method(opt), "WxPromise").err().unwrap()[0], Problem::NonIdentifierName));
    let r = build_function(&method("handshake", vec![], "void"), "WxPromise").err().unwrap();
    assert!(matches!(&r[0], Problem::ReservedMethodName(n) if n == "handshake"));
}

#[test]
fn return_type_must_be_the_wrapper() {
    let cases = vec![
        (ReturnTypeDecl::Missing, true),
        (ReturnTypeDecl::Other, false),
        (ReturnTypeDecl::Reference { name: Some("Promise".to_string()), args: Some(vec!["T".to_string()]) }, false),
        (ReturnTypeDecl::Reference { name: None, args: Some(vec!["T".to_string()]) }, false),
        (ReturnTypeDecl::Reference { name: Some("WxPromise".to_string()), args: None }, false),
        (ReturnTypeDecl::Reference { name: Some("WxPromise".to_string()), args: Some(vec!["A".to_string(), "B".to_string()]) }, false),
        (ReturnTypeDecl::Reference { name: Some("WxPromise".to_string()), args: Some(vec![String::new()]) }, false),
    ];
    for (rt, missing) in cases {
        let m = MemberDecl::Method(MethodDecl { optional: false, has_type_params: false, name: Some("f".to_string()), params: vec![], return_type: rt, comments: vec![] });
        let ps = build_function(&m, "WxPromise").err().unwrap();
        if missing {
            assert!(matches!(ps[0], Problem::MissingReturnType));
        } else {
            assert!(matches!(ps[0], Problem::InvalidReturnType));
        }
    }
}

#[test]
fn renamed_wrapper_is_accepted() {
    let imports = vec![ModuleItem::Import(Import::Import {
        is_type: true,
        idents: vec![ImportIdent { is_type: false, ident: "WxPromise".to_string(), rename: Some("P".to_string()) }],
        from: "@pistonite/workex".to_string(),
    })];
    let m = MemberDecl::Method(MethodDecl {
        optional: false,
        has_type_params: false,
        name: Some("f".to_string()),
        params: vec![ParamDecl { pattern: ParamPattern::Ident, ident: "x".to_string(), optional: true, type_text: Some("number".to_string()) }],
        return_type: ReturnTypeDecl::Reference { name: Some("P".to_string()), args: Some(vec!["string".to_string()]) },
        comments: vec![],
    });
    let mut items = imports;
    items.push(ModuleItem::Interface(interface("Foo", vec![m])));
    let is = load_interfaces_from_inputs(&vec![file("a.ts", items)]).unwrap();
    let f = &is[0].functions[0];
    assert_eq!(f.result_type, "string");
    assert_eq!(f.args[0].ident, "x");
    assert!(f.args[0].optional);
    assert_eq!(f.args[0].typ, "number");
    assert_eq!(is[0].imports.ident_wxpromise, "P");
}

#[test]
fn duplicate_names_keep_the_first() {
    let foo1 = interface("Foo", vec![method("a", vec![], "number"), method("a", vec![], "string")]);
    let foo2 = interface("Foo", vec![method("b", vec![], "void")]);
    let files = vec![
        file("one.ts", vec![runtime_import(), ModuleItem::Interface(foo1)]),
        file("two.ts", vec![runtime_import(), ModuleItem::Interface(foo2)]),
    ];
    let mut ctx = Context::new();
    ctx.parse_file(&files[0]);
    ctx.parse_file(&files[1]);
    assert_eq!(ctx.diagnostics.len(), 2);
    assert!(matches!(&ctx.diagnostics[0].problem, Problem::DuplicateFunction(n) if n == "a"));
    assert!(matches!(ctx.diagnostics[1].problem, Problem::DuplicateInterface));
    assert_eq!(ctx.interfaces.len(), 1);
    assert_eq!(ctx.interfaces[0].filename, "one.ts");
    assert_eq!(ctx.interfaces[0].functions[0].result_type, "number");
}

#[test]
fn import_after_interface_is_a_problem() {
    let foo = interface("Foo", vec![method("a", vec![], "void")]);
    let files = vec![file("api.ts", vec![runtime_import(), ModuleItem::Interface(foo), runtime_import()])];
    let diags = load_interfaces_from_inputs(&files).unwrap_err();
    assert_eq!(diags.len(), 1);
    assert!(matches!(diags[0].problem, Problem::ImportAfterInterface));
    assert_eq!(diags[0].subject, "api.ts");
}

#[test]
fn interfaces_come_out_sorted() {
    let files = vec![
        file("one.ts", vec![ModuleItem::Interface(interface("Zed", vec![method("z", vec![], "void")]))]),
        file("two.ts", vec![ModuleItem::Interface(interface("Alpha", vec![method("a", vec![], "void")])), ModuleItem::Interface(interface("Mid", vec![method("m", vec![], "void")]))]),
    ];
    let is = load_interfaces_from_inputs(&files).unwrap();
    assert_eq!(names(&is), vec!["Alpha", "Mid", "Zed"]);
}

#[test]
fn reserved_file_name_is_refused() {
    let files = vec![file("api.bus.ts", vec![])];
    assert!(matches!(parse(&files), Err(Error::Filename)));
    assert!(parse(&vec![file("api.ts", vec![])]).unwrap().is_empty());
}

#[test]
fn ids_do_not_depend_on_declaration_order() {
    let make = |order: &[(&str, &[&str])]| {
        let items: Vec<ModuleItem> = order
            .iter()
            .map(|(i, fs)| ModuleItem::Interface(interface(i, fs.iter().map(|f| method(f, vec![], "void")).collect())))
            .collect();
        let is = load_interfaces_from_inputs(&vec![file("a.ts", items)]).unwrap();
        make_func_id_map(&is).into_iter().map(|e| (e.interface, e.function, e.id)).collect::<Vec<_>>()
    };
    let a = make(&[("B", &["y", "x"]), ("A", &["q", "p", "r"])]);
    let b = make(&[("A", &["r", "p", "q"]), ("B", &["x", "y"])]);
    assert_eq!(a, b);
    let ids: Vec<u32> = a.iter().map(|e| e.2).collect();
    assert_eq!(ids, vec![16, 17, 18, 19, 20]);
    assert_eq!((a[0].0.as_str(), a[0].1.as_str()), ("A", "p"));
}

#[test]
fn ids_are_unique_and_above_reserved_range() {
    let items = vec![
        ModuleItem::Interface(interface("A_b", vec![method("c", vec![], "void")])),
        ModuleItem::Interface(interface("A", vec![method("b_c", vec![], "void")])),
    ];
    let is = load_interfaces_from_inputs(&vec![file("a.ts", items)]).unwrap();
    let table = make_func_id_map(&is);
    let mut ids: Vec<u32> = table.iter().map(|e| e.id).collect();
    assert!(ids.iter().all(|i| *i >= 16));
    ids.dedup();
    assert_eq!(ids.len(), 2);
}

#[test]
fn comments_are_extracted() {
    let cs = vec![
        RawComment { kind: CommentKind::Block, text: "*\n   * Does things.\n   *\n   * @workex:send main\n   ".to_string() },
    ];
    let block = parse_comment(&cs);
    assert_eq!(block.style, CommentStyle::JsDoc);
    assert_eq!(block.lines, vec!["Does things.", "", "@workex:send main"]);
    let lines = vec![
        RawComment { kind: CommentKind::Line, text: "/".to_string() },
        RawComment { kind: CommentKind::Line, text: "/ first".to_string() },
        RawComment { kind: CommentKind::Line, text: "/ second  ".to_string() },
        RawComment { kind: CommentKind::Line, text: "/".to_string() },
    ];
    let block = parse_comment(&lines);
    assert_eq!(block.style, CommentStyle::TripleSlash);
    assert_eq!(block.lines, vec!["first", "second"]);
    let empty = parse_comment(&vec![RawComment { kind: CommentKind::Line, text: "  ".to_string() }]);
    assert_eq!(empty.style, CommentStyle::JsDoc);
    assert!(empty.lines.is_empty());
}

#[test]
fn side_annotations_are_read() {
    let cs = vec![RawComment {
        kind: CommentKind::Block,
        text: "* @workex:send  app \n * @workex:recv worker\n * @workex:send \n * other".to_string(),
    }];
    let block = parse_comment(&cs);
    let (send, recv) = block.parse_side_annotations();
    assert_eq!(send, vec!["app"]);
    assert_eq!(recv, vec!["worker"]);
}
