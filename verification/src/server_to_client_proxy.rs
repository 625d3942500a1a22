//! The module that stands in for a client module on the server.
use crate::annotations::with_clause;
use swc_core::common::{Mark, SyntaxContext, DUMMY_SP, GLOBALS};
use swc_core::ecma::ast::{
    Ident, ImportDecl, ImportDefaultSpecifier, ImportPhase, ImportSpecifier, Module, ModuleDecl,
    ModuleItem, ObjectLit, Program,
};
use swc_core::ecma::utils::ExprFactory;
use vstd::prelude::*;

verus! {

/// A module of a syntax tree.
#[verifier::external_type_specification]
#[verifier::external_body]
pub struct ExModule(swc_core::ecma::ast::Module);

/// A program of a syntax tree.
#[verifier::external_type_specification]
#[verifier::external_body]
pub struct ExProgram(swc_core::ecma::ast::Program);

/// An identifier: its name, and the number of its syntax context.
pub struct IdentView {
    pub name: Seq<char>,
    pub context: u32,
}

/// An item of a module.
#[verifier::ext_equal]
pub enum ItemView {
    /// An import of the default export of `source` as `local`, annotated. It is
    /// not of types only, and what is imported is evaluated.
    DefaultImport { local: IdentView, source: Seq<char>, with: Seq<(Seq<char>, Seq<char>)> },
    /// A call of a function with one argument. The function's name has no syntax
    /// context.
    Call { callee: Seq<char>, argument: IdentView },
    /// Something else.
    Other,
}

/// The items of a module, in their order.
pub uninterp spec fn module_items(module: Module) -> Seq<ItemView>;

/// The interpreter line of a module, if it has one.
pub uninterp spec fn module_shebang(module: Module) -> Option<Seq<char>>;

/// The module that a program is, unless it is a script.
pub uninterp spec fn program_module(program: Program) -> Option<Module>;

/// Makes a `Module` without items, and without an interpreter line.
#[verifier::external_body]
fn empty_module() -> (module: Module)
    ensures
        module_items(module) == Seq::<ItemView>::empty(),
        module_shebang(module) is None,
{
    Module { span: DUMMY_SP, body: Vec::new(), shebang: None }
}

/// Adds an `ImportDecl` to the body of a `Module`, after the other items. It has
/// one specifier, an `ImportDefaultSpecifier`. `Ident::new` keeps the name and the
/// context, and `From<&str>` keeps the text of the source. The rest of the module stays
/// as it is.
#[verifier::external_body]
fn push_import(module: &mut Module, local: &str, context: u32, source: &str, with: Box<ObjectLit>)
    ensures
        module_items(*final(module)) == module_items(*old(module)).push(
            ItemView::DefaultImport {
                local: IdentView { name: local@, context },
                source: source@,
                with: crate::annotations::object_entries(*with),
            },
        ),
        module_shebang(*final(module)) == module_shebang(*old(module)),
{
    let local = Ident::new(local.into(), DUMMY_SP, SyntaxContext::from_u32(context));
    let local = ImportDefaultSpecifier { local, span: DUMMY_SP };
    let import = ImportDecl {
        specifiers: vec![ImportSpecifier::Default(local)],
        src: Box::new(source.into()),
        type_only: false,
        with: Some(with),
        span: DUMMY_SP,
        phase: ImportPhase::Evaluation,
    };
    module.body.push(ModuleItem::ModuleDecl(ModuleDecl::Import(import)));
}

/// Adds a statement to the body of a `Module`, after the other items: the call
/// that `ExprFactory::as_call` makes from an identifier without context and one
/// argument. The rest of the module stays as it is.
#[verifier::external_body]
fn push_call(module: &mut Module, callee: &str, argument: &str, context: u32)
    ensures
        module_items(*final(module)) == module_items(*old(module)).push(
            ItemView::Call {
                callee: callee@,
                argument: IdentView { name: argument@, context },
            },
        ),
        module_shebang(*final(module)) == module_shebang(*old(module)),
{
    let argument = Ident::new(argument.into(), DUMMY_SP, SyntaxContext::from_u32(context));
    let callee = Ident::new_no_ctxt(callee.into(), DUMMY_SP);
    let call = callee.as_call(DUMMY_SP, vec![argument.as_arg()]);
    module.body.push(ModuleItem::Stmt(call.into_stmt()));
}

/// Makes a `Program::Module` of a module.
#[verifier::external_body]
fn into_program(module: Module) -> (program: Program)
    ensures
        program_module(program) == Some(module),
{
    Program::Module(module)
}

/// Calls `SyntaxContext::apply_mark` with the mark that `Mark::new` gives, which
/// enters a new syntax context in the table of this thread, if `GLOBALS.is_set` says
/// that there is one. The empty context, whose number is zero, is in every table from
/// the beginning, so that is never the number of the new one. Which number it is
/// depends on what was entered before: that it differs from those that were given
/// before holds within one table only, and is not stated.
#[verifier::external_body]
fn fresh_context() -> (context: Option<u32>)
    ensures
        context matches Some(number) ==> number != 0,
{
    if GLOBALS.is_set() {
        Some(SyntaxContext::empty().apply_mark(Mark::new()).as_u32())
    } else {
        None
    }
}

/// The items of the proxy module: the target is imported under the transition, as
/// an identifier of the given syntax context, and everything that it exports is
/// exported.
pub open spec fn proxy_items(
    context: u32,
    helper: Seq<char>,
    transition_name: Seq<char>,
    target_import: Seq<char>,
) -> Seq<ItemView> {
    let proxy = IdentView { name: "proxy"@, context };
    seq![
        ItemView::DefaultImport {
            local: proxy,
            source: target_import,
            with: seq![(helper, "true"@), ("transition"@, transition_name)],
        },
        ItemView::Call { callee: "__turbopack_export_namespace__"@, argument: proxy },
    ]
}

/// Whether a program is the proxy module with an identifier of the given syntax
/// context: it has those items, and no interpreter line.
pub open spec fn is_proxy_module(
    program: Program,
    context: u32,
    helper: Seq<char>,
    transition_name: Seq<char>,
    target_import: Seq<char>,
) -> bool {
    program_module(program) matches Some(module) && module_items(module) == proxy_items(
        context,
        helper,
        transition_name,
        target_import,
    ) && module_shebang(module) is None
}

/// The proxy module, with an identifier of the given syntax context.
pub fn proxy_module_in_context(
    context: u32,
    helper: &str,
    transition_name: &str,
    target_import: &str,
) -> (program: Program)
    ensures
        is_proxy_module(program, context, helper@, transition_name@, target_import@),
{
    let with = with_clause(&[(helper, "true"), ("transition", transition_name)]);
    assert(crate::annotations::object_entries(*with) =~= seq![
        (helper@, "true"@),
        ("transition"@, transition_name@),
    ]);
    let mut module = empty_module();
    push_import(&mut module, "proxy", context, target_import, with);
    push_call(&mut module, "__turbopack_export_namespace__", "proxy", context);
    assert(module_items(module) =~= proxy_items(
        context,
        helper@,
        transition_name@,
        target_import@,
    ));
    into_program(module)
}

/// The proxy module, if there is a syntax context for its identifier, and none
/// without one.
pub fn proxy_module_for(
    context: Option<u32>,
    helper: &str,
    transition_name: &str,
    target_import: &str,
) -> (program: Option<Program>)
    ensures
        match context {
            Some(context) => program matches Some(program) && is_proxy_module(
                program,
                context,
                helper@,
                transition_name@,
                target_import@,
            ),
            None => program is None,
        },
{
    match context {
        Some(context) => Some(
            proxy_module_in_context(context, helper, transition_name, target_import),
        ),
        None => None,
    }
}

/// The proxy module, with an identifier of a new syntax context, so that it is
/// mistaken for none that is written in a program. The key of the annotation that
/// marks what the bundler adds itself is `helper`. Whether this thread has a table of
/// syntax contexts, and which number the new one gets, is not known beforehand: what
/// is returned for either is what `proxy_module_for` says.
pub fn create_proxy_module(helper: &str, transition_name: &str, target_import: &str) -> (program:
    Option<Program>)
    ensures
        program matches Some(program) ==> exists|context: u32|
            context != 0 && #[trigger] is_proxy_module(
                program,
                context,
                helper@,
                transition_name@,
                target_import@,
            ),
{
    let context: Option<u32> = fresh_context();
    proxy_module_for(context, helper, transition_name, target_import)
}

/// What is exported is what is imported: the identifier of the call is the one
/// that the import brings in.
pub proof fn exports_what_it_imports(
    context: u32,
    helper: Seq<char>,
    transition_name: Seq<char>,
    target_import: Seq<char>,
)
    ensures
        ({
            let items = proxy_items(context, helper, transition_name, target_import);
            &&& items.len() == 2
            &&& items[0] is DefaultImport
            &&& items[0]->source == target_import
            &&& items[1] is Call
            &&& items[1]->argument == items[0]->local
        }),
{
}

/// A proxy module is made exactly if there is a syntax context. It imports the target,
/// marked as a helper and under the transition, as an identifier of that context, and
/// exports what that identifier stands for. It does nothing else.
pub proof fn a_proxy_module_stands_in_for_its_target(
    context: Option<u32>,
    helper: &str,
    transition_name: &str,
    target_import: &str,
    program: Option<Program>,
)
    requires
        call_ensures(proxy_module_for, (context, helper, transition_name, target_import), program),
    ensures
        context is Some <==> program is Some,
        context matches Some(number) ==> (program matches Some(program) && (program_module(
            program,
        ) matches Some(module) && {
            let items = module_items(module);
            &&& module_shebang(module) is None
            &&& items.len() == 2
            &&& items[0] matches ItemView::DefaultImport { local, source, with } && {
                &&& local.name == "proxy"@
                &&& local.context == number
                &&& source == target_import@
                &&& with.len() == 2
                &&& with[0] == (helper@, "true"@)
                &&& with[1] == ("transition"@, transition_name@)
                &&& items[1] matches ItemView::Call { callee, argument } && callee
                    == "__turbopack_export_namespace__"@ && argument.name == local.name
                    && argument.context == number
            }
        })),
{
}

/// A proxy module that is made with a new syntax context has an identifier of its own,
/// which none that has no context is mistaken for.
pub proof fn a_proxy_module_has_an_identifier_of_its_own(
    helper: &str,
    transition_name: &str,
    target_import: &str,
    program: Program,
)
    requires
        call_ensures(create_proxy_module, (helper, transition_name, target_import), Some(program)),
    ensures
        program_module(program) matches Some(module) && {
            let items = module_items(module);
            &&& module_shebang(module) is None
            &&& items.len() == 2
            &&& items[0] matches ItemView::DefaultImport { local, source, with } && {
                &&& local.name == "proxy"@
                &&& local.context != 0
                &&& source == target_import@
                &&& with.len() == 2
                &&& with[0] == (helper@, "true"@)
                &&& with[1] == ("transition"@, transition_name@)
                &&& items[1] matches ItemView::Call { callee, argument } && callee
                    == "__turbopack_export_namespace__"@ && argument.name == local.name
                    && argument.context == local.context
            }
        },
{
    let context = choose|context: u32|
        context != 0 && #[trigger] is_proxy_module(
            program,
            context,
            helper@,
            transition_name@,
            target_import@,
        );
    assert(is_proxy_module(program, context, helper@, transition_name@, target_import@));
}

} // verus!
