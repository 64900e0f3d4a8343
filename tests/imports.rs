use workex::import::{
    adjust_import_paths, reconcile, resolve_relative_import, ImplImports, Import, ImportIdent,
    Imports, PatchedImports, RequiredIdent,
};

fn ident(name: &str, is_type: bool, rename: Option<&str>) -> ImportIdent {
    ImportIdent { is_type, ident: name.to_string(), rename: rename.map(|r| r.to_string()) }
}

fn idents_of(i: &Import) -> Vec<(bool, String, Option<String>)> {
    match i {
        Import::Import { idents, .. } => idents.iter().map(|x| (x.is_type, x.ident.clone(), x.rename.clone())).collect(),
        Import::Opaque(_) => panic!("structured import expected"),
    }
}

fn is_type_of(i: &Import) -> bool {
    match i {
        Import::Import { is_type, .. } => *is_type,
        Import::Opaque(_) => panic!("structured import expected"),
    }
}

fn from_of(i: &Import) -> String {
    match i {
        Import::Import { from, .. } => from.clone(),
        Import::Opaque(t) => t.clone(),
    }
}

#[test]
fn missing_runtime_import_is_synthesized() {
    let imports = Imports::new(vec![Import::Opaque("import x = require(\"./x\");".to_string())]);
    assert_eq!(imports.ident_wxpromise, "WxPromise");
    assert!(!imports.was_wxpromise_imported);
    assert_eq!(imports.statements.len(), 2);
    assert!(is_type_of(&imports.statements[1]));
    assert_eq!(from_of(&imports.statements[1]), "@pistonite/workex");
    assert_eq!(idents_of(&imports.statements[1]), vec![(false, "WxPromise".to_string(), None)]);
}

#[test]
fn renamed_runtime_ident_is_reused() {
    let stmts = vec![Import::Import {
        is_type: true,
        idents: vec![ident("WxPromise", false, Some("P"))],
        from: "@pistonite/workex".to_string(),
    }];
    let mut imports = Imports::new(stmts);
    assert_eq!(imports.ident_wxpromise, "P");
    assert!(imports.was_wxpromise_imported);
    let (added, name) = imports.add_workex_type_import("WxPromise");
    assert!(!added);
    assert_eq!(name, "P");
    let (added, name) = imports.add_workex_type_import("WxBusRecvHandler");
    assert!(added);
    assert_eq!(name, "WxBusRecvHandler");
    assert_eq!(imports.statements.len(), 1);
    assert_eq!(idents_of(&imports.statements[0]).len(), 2);
}

#[test]
fn value_ident_demotes_type_only_statement() {
    let stmts = vec![Import::Import {
        is_type: true,
        idents: vec![ident("WorkexPromise", false, Some("WP")), ident("Other", false, None)],
        from: "@pistonite/workex".to_string(),
    }];
    let patched = PatchedImports::from_imports(stmts);
    let s = &patched.send;
    assert_eq!(s.workex_promise_ident, "WP");
    assert_eq!(s.workex_client_ident, "WorkexClient");
    assert_eq!(s.workex_client_options_ident, "WorkexClientOptions");
    assert!(!is_type_of(&s.imports[0]));
    assert_eq!(
        idents_of(&s.imports[0]),
        vec![
            (true, "WorkexPromise".to_string(), Some("WP".to_string())),
            (true, "Other".to_string(), None),
            (false, "WorkexClient".to_string(), None),
            (true, "WorkexClientOptions".to_string(), None),
        ]
    );
}

#[test]
fn client_view_synthesizes_one_statement() {
    let patched = PatchedImports::from_imports(vec![]);
    let s = &patched.send;
    assert_eq!(s.imports.len(), 1);
    assert!(!is_type_of(&s.imports[0]));
    assert_eq!(
        idents_of(&s.imports[0]),
        vec![
            (false, "WorkexClient".to_string(), None),
            (true, "WorkexClientOptions".to_string(), None),
            (true, "WorkexPromise".to_string(), None),
        ]
    );
    assert_eq!(ImportIdent::workex_client().ident, "WorkexClient");
    assert!(ImportIdent::workex_client_options().is_type);
    assert!(ImportIdent::workex_promise().is_type);
}

#[test]
fn reconciling_twice_changes_nothing() {
    let required = vec![
        RequiredIdent { name: "A".to_string(), value: false },
        RequiredIdent { name: "B".to_string(), value: true },
    ];
    let mut stmts = vec![Import::Import {
        is_type: true,
        idents: vec![ident("A", false, Some("AA"))],
        from: "@pistonite/workex".to_string(),
    }];
    let first = reconcile(&mut stmts, &required);
    assert_eq!(first, vec!["AA", "B"]);
    let after_first = idents_of(&stmts[0]);
    let second = reconcile(&mut stmts, &required);
    assert_eq!(second, first);
    assert_eq!(idents_of(&stmts[0]), after_first);
    assert_eq!(stmts.len(), 1);
}

#[test]
fn views_reconcile_independently() {
    let imports = Imports::new(vec![]);
    let impl_imports = ImplImports::new(imports.clone());
    assert_eq!(impl_imports.ident_wxhandler, "WxBusRecvHandler");
    assert_eq!(impl_imports.ident_wxsender, "WxProtocolBoundSender");
    assert_eq!(idents_of(&imports.statements[0]).len(), 1);
    assert_eq!(idents_of(&impl_imports.inner.statements[0]).len(), 3);
}

#[test]
fn relative_paths_move_one_level_up() {
    assert_eq!(resolve_relative_import("..", "./foo"), ".././foo");
    assert_eq!(resolve_relative_import("..", "../foo"), "../../foo");
    assert_eq!(resolve_relative_import("..", "foo"), "foo");
    let mut stmts = vec![
        Import::Import { is_type: false, idents: vec![], from: "./a.ts".to_string() },
        Import::Import { is_type: false, idents: vec![], from: "lib".to_string() },
        Import::Opaque("import x = require('./y');".to_string()),
        Import::Opaque("import * as z from \"zlib\";".to_string()),
    ];
    adjust_import_paths(&mut stmts);
    assert_eq!(from_of(&stmts[0]), ".././a.ts");
    assert_eq!(from_of(&stmts[1]), "lib");
    assert_eq!(from_of(&stmts[2]), "import x = require('.././y');");
    assert_eq!(from_of(&stmts[3]), "import * as z from \"zlib\";");
}

#[test]
fn ident_repr_spells_type_when_needed() {
    let x = ident("Foo", true, Some("Bar"));
    assert_eq!(x.to_repr(false), "type Foo as Bar");
    assert_eq!(x.to_repr(true), "Foo as Bar");
    assert_eq!(ident("Foo", false, None).to_repr(false), "Foo");
    assert_eq!(x.active_ident(), "Bar");
    assert!(Import::Import { is_type: false, idents: vec![], from: "@pistonite/workex".to_string() }.is_workex());
    assert!(!Import::Opaque("@pistonite/workex".to_string()).is_workex());
}

#[test]
fn found_ident_in_type_only_statement_is_reused_as_type() {
    let stmts = vec![Import::Import {
        is_type: true,
        idents: vec![ident("WorkexClient", false, None), ident("Other", false, None)],
        from: "@pistonite/workex".to_string(),
    }];
    let patched = PatchedImports::from_imports(stmts);
    let s = &patched.send;
    assert_eq!(s.workex_client_ident, "WorkexClient");
    assert!(!is_type_of(&s.imports[0]));
    assert_eq!(
        idents_of(&s.imports[0]),
        vec![
            (true, "WorkexClient".to_string(), None),
            (true, "Other".to_string(), None),
            (true, "WorkexClientOptions".to_string(), None),
            (true, "WorkexPromise".to_string(), None),
        ]
    );
    let mut again = s.imports.clone();
    let required = vec![
        RequiredIdent { name: "WorkexClient".to_string(), value: true },
        RequiredIdent { name: "WorkexClientOptions".to_string(), value: false },
    ];
    let b = reconcile(&mut again, &required);
    assert_eq!(b, vec!["WorkexClient", "WorkexClientOptions"]);
    assert_eq!(idents_of(&again[0]), idents_of(&s.imports[0]));
}

#[test]
fn found_ident_is_reused_unchanged() {
    let mut stmts = vec![Import::Import {
        is_type: false,
        idents: vec![ident("C", true, Some("Client"))],
        from: "@pistonite/workex".to_string(),
    }];
    let b = reconcile(&mut stmts, &vec![RequiredIdent { name: "C".to_string(), value: true }]);
    assert_eq!(b, vec!["Client"]);
    assert_eq!(idents_of(&stmts[0]), vec![(true, "C".to_string(), Some("Client".to_string()))]);
    assert!(!is_type_of(&stmts[0]));
    let mut imports = Imports::new(vec![]);
    let first = imports.add_workex_type_import("WxBusRecvHandler");
    let count = idents_of(&imports.statements[0]).len();
    let second = imports.add_workex_type_import("WxBusRecvHandler");
    assert_eq!(first, (true, "WxBusRecvHandler".to_string()));
    assert_eq!(second, (false, "WxBusRecvHandler".to_string()));
    assert_eq!(idents_of(&imports.statements[0]).len(), count);
}

#[test]
fn client_view_twice_changes_nothing() {
    let stmts = vec![
        Import::Import { is_type: true, idents: vec![ident("WorkexPromise", false, Some("WP"))], from: "@pistonite/workex".to_string() },
        Import::Import { is_type: false, idents: vec![ident("X", false, None)], from: "./x".to_string() },
    ];
    let r1 = PatchedImports::from_imports(stmts).send;
    let r2 = PatchedImports::from_imports(r1.imports.clone()).send;
    assert_eq!(r2.workex_client_ident, r1.workex_client_ident);
    assert_eq!(r2.workex_client_options_ident, r1.workex_client_options_ident);
    assert_eq!(r2.workex_promise_ident, "WP");
    assert_eq!(idents_of(&r2.imports[0]), idents_of(&r1.imports[0]));
}
