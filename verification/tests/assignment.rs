use weblab_macros::{
    process_programming_assignment, weblab, Attr, Attribute, Expansion, Item, ItemMod,
    ParseAttrStatus,
};

const MANIFEST: &str = "[dependencies]\nrand = \"0.8\"\n";

fn s(x: &str) -> String {
    x.to_string()
}

fn weblab_attr(attrs: Vec<Attr>) -> Attribute {
    Attribute { tokens: s("#[weblab(..)]"), status: Ok(ParseAttrStatus::Attr(attrs)) }
}

fn module(attrs: Vec<Attr>, name: &str, content: Vec<Item>) -> Item {
    Item::Mod(ItemMod { attrs: vec![weblab_attr(attrs)], head: format!("mod {}", name), ident: s(name), content: Some(content) })
}

fn assignment(attrs: Vec<Attribute>, content: Vec<Item>) -> ItemMod {
    ItemMod { attrs, head: s("mod assignment"), ident: s("assignment"), content: Some(content) }
}

fn complete() -> Vec<Item> {
    vec![module(vec![Attr::Solution], "solution", vec![]), module(vec![Attr::Test], "test", vec![])]
}

#[test]
fn module_name_is_default_title() {
    match process_programming_assignment(&[], Ok(assignment(vec![], complete())), MANIFEST.as_bytes()) {
        Expansion::Assignment(a) => {
            assert_eq!(a.title, "assignment");
            assert_eq!(a.assignment_text, "");
            assert!(a.library.is_none());
        }
        other => panic!("unexpected {:?}", other),
    }
}

#[test]
fn title_from_arguments() {
    let r = process_programming_assignment(&[Attr::Title(s("Sorting"))], Ok(assignment(vec![], complete())), MANIFEST.as_bytes());
    assert!(matches!(r, Expansion::Assignment(a) if a.title == "Sorting"));
}

#[test]
fn two_titles_are_refused() {
    let r = process_programming_assignment(
        &[Attr::Title(s("a"))],
        Ok(assignment(vec![weblab_attr(vec![Attr::Title(s("b"))])], complete())),
        MANIFEST.as_bytes(),
    );
    assert!(matches!(r, Expansion::CompileError(m) if m == "assignment has more than one title"));
}

#[test]
fn missing_spectest_is_refused() {
    let r = process_programming_assignment(&[], Ok(assignment(vec![], vec![module(vec![Attr::Solution], "s", vec![])])), MANIFEST.as_bytes());
    assert!(matches!(r, Expansion::CompileError(m) if m == "assignment has no spectest"));
}

#[test]
fn missing_solution_is_refused() {
    let r = process_programming_assignment(&[], Ok(assignment(vec![], vec![module(vec![Attr::Test], "t", vec![])])), MANIFEST.as_bytes());
    assert!(matches!(r, Expansion::CompileError(m) if m == "assignment has no reference solution"));
}

#[test]
fn title_checked_before_modules() {
    let r = process_programming_assignment(&[Attr::Title(s("a")), Attr::Title(s("b"))], Ok(assignment(vec![], vec![])), MANIFEST.as_bytes());
    assert!(matches!(r, Expansion::CompileError(m) if m == "assignment has more than one title"));
}

#[test]
fn unreadable_item_is_handed_on() {
    let r = process_programming_assignment(&[], Err(s("error tokens { \"expected `mod`\" }")), MANIFEST.as_bytes());
    assert!(matches!(r, Expansion::Tokens(t) if t == "error tokens { \"expected `mod`\" }"));
}

#[test]
fn malformed_module_attribute_is_handed_on() {
    let bad = Attribute { tokens: s("#[weblab(x)]"), status: Err(s("bad")) };
    let r = process_programming_assignment(&[], Ok(assignment(vec![bad], complete())), MANIFEST.as_bytes());
    assert!(matches!(r, Expansion::Tokens(t) if t == "bad"));
}

#[test]
fn doc_comments_are_trimmed_and_joined() {
    let doc = |t: &str| Attribute { tokens: s("#[doc]"), status: Ok(ParseAttrStatus::Doc(Attr::Doc(s(t)))) };
    let r = process_programming_assignment(
        &[Attr::Doc(s("  first  "))],
        Ok(assignment(vec![doc(" second"), doc("third ")], complete())),
        MANIFEST.as_bytes(),
    );
    assert!(matches!(r, Expansion::Assignment(a) if a.assignment_text == "first\nsecond\nthird"));
}

#[test]
fn template_modules_fill_template_fields() {
    let mut content = complete();
    content.push(module(vec![Attr::SolutionTemplate], "st", vec![module(vec![], "x", vec![])]));
    content.push(module(vec![Attr::TestTemplate], "tt", vec![]));
    content.push(module(vec![Attr::Library], "lib", vec![]));
    match process_programming_assignment(&[], Ok(assignment(vec![], content)), MANIFEST.as_bytes()) {
        Expansion::Assignment(a) => {
            assert_eq!(a.solution_template.map(|v| v.len()), Some(1));
            assert_eq!(a.test_template.map(|v| v.len()), Some(0));
            assert_eq!(a.library.map(|v| v.len()), Some(0));
            assert_eq!(a.module.content.unwrap().len(), 5);
        }
        other => panic!("unexpected {:?}", other),
    }
}

#[test]
fn weblab_needs_programming_assignment_first() {
    let expected = "#[weblab(programming_assignment)] always needs to be the first attribute on a module containing the solution, test and library. Other attributes, #[weblab(...)] attributes and doc comments need to be below it or inside the module that's annotated with #[weblab(programming_assignment)]";
    let r = weblab(Ok(vec![Attr::Solution, Attr::ProgrammingAssignment]), Ok(assignment(vec![], complete())), MANIFEST.as_bytes());
    assert!(matches!(r, Expansion::AttributeError(m) if m == expected));
    let r = weblab(Ok(vec![]), Ok(assignment(vec![], complete())), MANIFEST.as_bytes());
    assert!(matches!(r, Expansion::AttributeError(m) if m == expected));
}

#[test]
fn weblab_hands_on_malformed_arguments() {
    let r = weblab(Err(s("bad args")), Ok(assignment(vec![], complete())), MANIFEST.as_bytes());
    assert!(matches!(r, Expansion::Tokens(t) if t == "bad args"));
}

#[test]
fn weblab_passes_remaining_annotations() {
    let r = weblab(
        Ok(vec![Attr::ProgrammingAssignment, Attr::Title(s("T"))]),
        Ok(assignment(vec![], complete())),
        MANIFEST.as_bytes(),
    );
    assert!(matches!(r, Expansion::Assignment(a) if a.title == "T"));
}

#[test]
fn refused_import_in_reference_stays_as_error() {
    let bad_use = Item::Use(weblab_macros::ItemUse {
        attrs: vec![],
        body: s("use crate :: x ;"),
        tree: weblab_macros::UseTree::Path(s("crate"), Box::new(weblab_macros::UseTree::Name(s("x")))),
    });
    let content = vec![module(vec![Attr::Solution], "solution", vec![bad_use]), module(vec![Attr::Test], "test", vec![])];
    match process_programming_assignment(&[], Ok(assignment(vec![], content)), MANIFEST.as_bytes()) {
        Expansion::Assignment(a) => {
            assert!(matches!(&a.solution[0], Item::CompileError { statement: true, .. }));
        }
        other => panic!("unexpected {:?}", other),
    }
}
