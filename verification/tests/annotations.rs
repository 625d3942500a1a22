use swc_core::common::{Globals, SyntaxContext, GLOBALS};
use swc_core::ecma::ast::{
    Callee, Expr, ImportPhase, ImportSpecifier, Lit, ModuleDecl, ModuleItem, ObjectLit, Program,
    Prop, PropName, PropOrSpread, Stmt,
};
use turbocharge::annotations::{with_chunking_type, with_clause, with_transition};
use turbocharge::server_to_client_proxy::{
    create_proxy_module, proxy_module_for, proxy_module_in_context,
};

/// The properties of an object, all of which have to be string literals.
fn entries(object: &ObjectLit) -> Vec<(String, String)> {
    object
        .props
        .iter()
        .map(|prop| {
            let PropOrSpread::Prop(prop) = prop else {
                panic!("a spread");
            };
            let Prop::KeyValue(pair) = &**prop else {
                panic!("not a key with a value");
            };
            let PropName::Str(key) = &pair.key else {
                panic!("not a string key");
            };
            let Expr::Lit(Lit::Str(value)) = &*pair.value else {
                panic!("not a string value");
            };
            assert!(key.raw.is_none());
            assert!(value.raw.is_none());
            (
                key.value.as_str().unwrap().to_string(),
                value.value.as_str().unwrap().to_string(),
            )
        })
        .collect()
}

fn pair(key: &str, value: &str) -> (String, String) {
    (key.to_string(), value.to_string())
}

#[test]
fn chunking_type_is_one_entry() {
    assert_eq!(
        entries(&with_chunking_type("parallel")),
        vec![pair("chunking-type", "parallel")]
    );
}

#[test]
fn transition_is_one_entry() {
    assert_eq!(
        entries(&with_transition("next-client")),
        vec![pair("transition", "next-client")]
    );
}

#[test]
fn clause_keeps_order_and_duplicates() {
    assert_eq!(entries(&with_clause(&[])), vec![]);
    assert_eq!(
        entries(&with_clause(&[("b", "1"), ("a", "2"), ("b", "\u{e9}\"\n")])),
        vec![pair("b", "1"), pair("a", "2"), pair("b", "\u{e9}\"\n")]
    );
}

/// Takes a proxy module apart: the name and context that it imports, the source,
/// the annotations, the function that it calls, and the name and context that it
/// calls it with.
fn take_apart(
    program: Program,
) -> (
    (String, SyntaxContext),
    String,
    Vec<(String, String)>,
    String,
    (String, SyntaxContext),
) {
    let Program::Module(module) = program else {
        panic!("not a module");
    };
    assert!(module.shebang.is_none());
    assert_eq!(module.body.len(), 2);
    let ModuleItem::ModuleDecl(ModuleDecl::Import(import)) = &module.body[0] else {
        panic!("not an import");
    };
    assert!(!import.type_only);
    assert_eq!(import.phase, ImportPhase::Evaluation);
    assert_eq!(import.specifiers.len(), 1);
    let ImportSpecifier::Default(specifier) = &import.specifiers[0] else {
        panic!("not a default import");
    };
    let ModuleItem::Stmt(Stmt::Expr(statement)) = &module.body[1] else {
        panic!("not an expression");
    };
    let Expr::Call(call) = &*statement.expr else {
        panic!("not a call");
    };
    let Callee::Expr(callee) = &call.callee else {
        panic!("not a function");
    };
    let Expr::Ident(callee) = &**callee else {
        panic!("not a name");
    };
    assert_eq!(callee.ctxt, SyntaxContext::empty());
    assert_eq!(call.args.len(), 1);
    assert!(call.args[0].spread.is_none());
    let Expr::Ident(argument) = &*call.args[0].expr else {
        panic!("not a name");
    };
    (
        (specifier.local.sym.to_string(), specifier.local.ctxt),
        import.src.value.as_str().unwrap().to_string(),
        entries(import.with.as_ref().unwrap()),
        callee.sym.to_string(),
        (argument.sym.to_string(), argument.ctxt),
    )
}

#[test]
fn proxy_module_imports_and_exports() {
    let program = proxy_module_in_context(7, "__helper__", "next-client", "./button.js");
    let (local, source, with, callee, argument) = take_apart(program);
    assert_eq!(local, ("proxy".to_string(), SyntaxContext::from_u32(7)));
    assert_eq!(source, "./button.js");
    assert_eq!(
        with,
        vec![pair("__helper__", "true"), pair("transition", "next-client")]
    );
    assert_eq!(callee, "__turbopack_export_namespace__");
    assert_eq!(argument, local);
}

#[test]
fn a_syntax_context_is_all_that_a_proxy_module_needs() {
    let program = proxy_module_for(Some(9), "h", "t", "a").unwrap();
    let (local, source, with, _, argument) = take_apart(program);
    assert_eq!(local, ("proxy".to_string(), SyntaxContext::from_u32(9)));
    assert_eq!(source, "a");
    assert_eq!(with, vec![pair("h", "true"), pair("transition", "t")]);
    assert_eq!(argument, local);
    assert!(proxy_module_for(None, "h", "t", "a").is_none());
}

#[test]
fn proxy_modules_have_identifiers_of_their_own() {
    GLOBALS.set(&Globals::new(), || {
        let first = create_proxy_module("h", "t", "a").unwrap();
        let second = create_proxy_module("h", "t", "a").unwrap();
        let (first, source, with, _, argument) = take_apart(first);
        let (second, _, _, _, _) = take_apart(second);
        assert_eq!(source, "a");
        assert_eq!(with, vec![pair("h", "true"), pair("transition", "t")]);
        assert_eq!(argument, first);
        assert_eq!(first.0, "proxy");
        assert_eq!(second.0, "proxy");
        assert_ne!(first.1, SyntaxContext::empty());
        assert_ne!(first.1, second.1);
    });
}

#[test]
fn no_proxy_module_without_a_table_of_contexts() {
    assert!(create_proxy_module("h", "t", "a").is_none());
}
