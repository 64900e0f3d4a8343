use workex::collect::load_interfaces_from_inputs;
use workex::decl::{InterfaceDecl, MemberDecl, MethodDecl, ModuleItem, ParamDecl, ParamPattern, ReturnTypeDecl, SourceFile};
use workex::run::{generate, RunError};
use workex::interface::Interface;
use workex::package::{get_out_dir, parse_link, CliOptions, LinkError, Package, PackageError};

fn iface(name: &str) -> ModuleItem {
    ModuleItem::Interface(InterfaceDecl {
        name: name.to_string(),
        has_type_params: false,
        has_extends: false,
        members: vec![MemberDecl::Method(MethodDecl {
            optional: false,
            has_type_params: false,
            name: Some("f".to_string()),
            params: vec![],
            return_type: ReturnTypeDecl::Reference { name: Some("WxPromise".to_string()), args: Some(vec!["void".to_string()]) },
            comments: vec![],
        })],
        comments: vec![],
    })
}

fn interfaces(names: &[&str]) -> Vec<Interface> {
    let items = names.iter().map(|n| iface(n)).collect();
    load_interfaces_from_inputs(&vec![SourceFile { filename: "api.ts".to_string(), items }]).unwrap()
}

fn cli(links: &[&str]) -> CliOptions {
    CliOptions {
        inputs: vec!["src/api.ts".to_string()],
        protocol: "proto".to_string(),
        prefix: None,
        no_gitignore: false,
        link: links.iter().map(|l| l.to_string()).collect(),
        dir: "interfaces".to_string(),
    }
}

fn parents() -> Vec<String> {
    vec!["/home/u/src".to_string()]
}

#[test]
fn linked_pair_is_stored_both_ways() {
    let pkg = Package::try_new(&cli(&["Foo,Bar"]), &parents(), interfaces(&["Foo", "Bar"])).unwrap();
    assert_eq!(pkg.linked_name("Foo"), Some("Bar"));
    assert_eq!(pkg.linked_name("Bar"), Some("Foo"));
    assert_eq!(pkg.linkage.len(), 2);
    assert_eq!(pkg.prefix, "proto");
    assert_eq!(pkg.out_dir, "/home/u/src/interfaces");
}

#[test]
fn conflicting_link_cites_earlier_pairing() {
    let r = Package::try_new(&cli(&["Foo,Bar", " Baz , Foo "]), &parents(), interfaces(&["Foo", "Bar", "Baz"]));
    match r {
        Err(PackageError::Link(LinkError::AlreadyLinked { name, partner, previous })) => {
            assert_eq!((name.as_str(), partner.as_str(), previous.as_str()), ("Foo", "Baz", "Bar"));
        }
        other => panic!("unexpected: {other:?}"),
    }
    let r = Package::try_new(&cli(&["Foo,Foo"]), &parents(), interfaces(&["Foo"]));
    assert!(matches!(r, Err(PackageError::Link(LinkError::AlreadyLinked { .. }))));
    let r = Package::try_new(&cli(&["Foo,Nope"]), &parents(), interfaces(&["Foo"]));
    assert!(matches!(r, Err(PackageError::Link(LinkError::UnknownInterface(n))) if n == "Nope"));
}

#[test]
fn link_directive_format() {
    assert!(matches!(parse_link("Foo"), Err(LinkError::MissingSeparator)));
    assert!(matches!(parse_link("a,b,c"), Err(LinkError::TooManySeparators)));
    assert!(matches!(parse_link(" ,b"), Err(LinkError::FirstNameEmpty)));
    assert!(matches!(parse_link("a,  "), Err(LinkError::SecondNameEmpty)));
    let (a, b) = parse_link("  Foo , Bar ").unwrap();
    assert_eq!((a.as_str(), b.as_str()), ("Foo", "Bar"));
}

#[test]
fn config_errors() {
    let is = interfaces(&["Foo"]);
    let mut c = cli(&[]);
    c.protocol = String::new();
    assert!(matches!(Package::try_new(&c, &parents(), is), Err(PackageError::EmptyProtocol)));
    let mut c = cli(&[]);
    c.prefix = Some(String::new());
    assert!(matches!(Package::try_new(&c, &parents(), interfaces(&["Foo"])), Err(PackageError::EmptyPrefix)));
    let mut c = cli(&[]);
    c.prefix = Some("my".to_string());
    assert_eq!(Package::try_new(&c, &parents(), interfaces(&["Foo"])).unwrap().prefix, "my");
    assert!(matches!(get_out_dir(&vec![], "x"), Err(PackageError::NoInputs)));
    let mixed = vec!["/a".to_string(), "/a".to_string(), "/b".to_string()];
    assert!(matches!(get_out_dir(&mixed, "x"), Err(PackageError::MixedDirectories { other, .. }) if other == "/b"));
    assert!(matches!(get_out_dir(&parents(), ""), Err(PackageError::EmptyDir)));
    assert_eq!(get_out_dir(&vec!["/a/".to_string()], "out").unwrap(), "/a/out");
    assert_eq!(get_out_dir(&vec!["/a".to_string()], "/abs").unwrap(), "/abs");
}

#[test]
fn a_run_writes_nothing_unless_clean() {
    let good = vec![SourceFile { filename: "api.ts".to_string(), items: vec![iface("Foo")] }];
    let run = generate(&cli(&[]), &parents(), &good).unwrap();
    assert_eq!(run.out_dir, "/home/u/src/interfaces");
    let names: Vec<&str> = run.files.iter().map(|f| f.name.as_str()).collect();
    assert_eq!(names, vec!["Foo.ts", "Foo.bus.ts", "protocol.ts", ".gitignore"]);

    let empty = ModuleItem::Interface(InterfaceDecl { name: "Empty".to_string(), has_type_params: false, has_extends: false, members: vec![], comments: vec![] });
    let bad = vec![SourceFile { filename: "api.ts".to_string(), items: vec![iface("Foo"), empty] }];
    match generate(&cli(&[]), &parents(), &bad) {
        Err(RunError::Problems(ds)) => {
            assert_eq!(ds.len(), 1);
            assert_eq!(ds[0].subject, "Empty");
        }
        other => panic!("unexpected: {other:?}"),
    }

    let destructured = ModuleItem::Interface(InterfaceDecl {
        name: "Bar".to_string(),
        has_type_params: false,
        has_extends: false,
        members: vec![MemberDecl::Method(MethodDecl {
            optional: false,
            has_type_params: false,
            name: Some("f".to_string()),
            params: vec![ParamDecl { pattern: ParamPattern::Object, ident: String::new(), optional: false, type_text: Some("{a: number}".to_string()) }],
            return_type: ReturnTypeDecl::Reference { name: Some("WxPromise".to_string()), args: Some(vec!["void".to_string()]) },
            comments: vec![],
        })],
        comments: vec![],
    });
    let bad = vec![SourceFile { filename: "api.ts".to_string(), items: vec![destructured] }];
    assert!(matches!(generate(&cli(&[]), &parents(), &bad), Err(RunError::Problems(ds)) if ds.len() == 1));

    let reserved = vec![SourceFile { filename: "Foo.bus.ts".to_string(), items: vec![iface("Foo")] }];
    assert!(matches!(generate(&cli(&[]), &parents(), &reserved), Err(RunError::Input(_))));
    assert!(matches!(generate(&cli(&["Foo,Zed"]), &parents(), &good), Err(RunError::Package(_))));
}
