use weblab_macros::{
    has_attr, Attr, Attribute, FindAnnotated, Item, ItemMacro, ItemMod, ItemOther, ItemUse,
    ParseAttrStatus, UseTree, NOT_IMPLEMENTED,
};

fn s(x: &str) -> String {
    x.to_string()
}

fn deps() -> Result<Vec<String>, String> {
    Ok(vec![s("rand")])
}

fn weblab_attr(attrs: Vec<Attr>) -> Attribute {
    Attribute { tokens: s("#[weblab(..)]"), status: Ok(ParseAttrStatus::Attr(attrs)) }
}

fn module(attrs: Vec<Attr>, name: &str, content: Vec<Item>) -> Item {
    Item::Mod(ItemMod {
        attrs: vec![weblab_attr(attrs)],
        head: format!("mod {}", name),
        ident: s(name),
        content: Some(content),
    })
}

fn function(text: &str) -> Item {
    Item::Other(ItemOther { attrs: vec![], text: vec![s(text)], nested: vec![] })
}

fn mac(name: &str, tokens: &str) -> Item {
    Item::Macro(ItemMacro {
        attrs: vec![],
        ident: Some(s(name)),
        tokens: s(tokens),
        body: format!("{} ! {{ {} }}", name, tokens),
    })
}

fn error_of(item: &Item) -> Option<(&str, bool)> {
    match item {
        Item::CompileError { message, statement } => Some((message.as_str(), *statement)),
        _ => None,
    }
}

#[test]
fn fresh_searches() {
    let r = FindAnnotated::reference();
    assert!(r.is_reference());
    assert!(!r.is_template());
    assert!(r.test().is_none());
    assert!(r.solution().is_none());
    assert!(r.library().is_none());
    let t = FindAnnotated::template();
    assert!(t.is_template());
    assert!(!t.is_reference());
    assert!(t.test().is_none());
    assert!(t.solution().is_none());
    assert!(t.library().is_none());
}

#[test]
fn reference_records_solution_and_test() {
    let mut r = FindAnnotated::reference();
    let out = r.fold_item(module(vec![Attr::Solution], "solution", vec![function("fn a () { }")]), &deps());
    assert!(matches!(&out, Item::Mod(m) if m.attrs.is_empty()));
    r.fold_item(module(vec![Attr::Test], "test", vec![]), &deps());
    assert_eq!(r.solution().map(|v| v.len()), Some(1));
    assert_eq!(r.test().map(|v| v.len()), Some(0));
    assert!(r.library().is_none());
}

#[test]
fn reference_refuses_second_solution() {
    let mut r = FindAnnotated::reference();
    r.fold_item(module(vec![Attr::Solution], "a", vec![function("fn a () { }")]), &deps());
    let out = r.fold_item(module(vec![Attr::Solution], "b", vec![]), &deps());
    assert_eq!(error_of(&out), Some(("multiple reference solution blocks defined", false)));
    // the first one stays
    assert_eq!(r.solution().map(|v| v.len()), Some(1));
}

#[test]
fn reference_refuses_second_test() {
    let mut r = FindAnnotated::reference();
    r.fold_item(module(vec![Attr::Test], "a", vec![]), &deps());
    let out = r.fold_item(module(vec![Attr::Test], "b", vec![]), &deps());
    assert_eq!(error_of(&out), Some(("multiple spec test blocks defined", false)));
}

#[test]
fn reference_ignores_templates_and_library() {
    let mut r = FindAnnotated::reference();
    let out = r.fold_item(module(vec![Attr::Library], "lib", vec![]), &deps());
    assert!(matches!(out, Item::Mod(_)));
    r.fold_item(module(vec![Attr::SolutionTemplate], "st", vec![]), &deps());
    assert!(r.solution().is_none());
    assert!(r.library().is_none());
}

#[test]
fn template_prefers_marked_template() {
    let mut t = FindAnnotated::template();
    t.fold_item(module(vec![Attr::Solution], "solution", vec![function("fn a () { }")]), &deps());
    assert_eq!(t.solution().map(|v| v.len()), Some(1));
    t.fold_item(module(vec![Attr::SolutionTemplate], "template", vec![]), &deps());
    assert_eq!(t.solution().map(|v| v.len()), Some(0));
}

#[test]
fn template_refuses_solution_after_template() {
    let mut t = FindAnnotated::template();
    t.fold_item(module(vec![Attr::SolutionTemplate], "template", vec![]), &deps());
    let out = t.fold_item(module(vec![Attr::Solution], "solution", vec![]), &deps());
    assert_eq!(error_of(&out), Some(("multiple solution template blocks defined", false)));
    let out = t.fold_item(module(vec![Attr::SolutionTemplate], "again", vec![]), &deps());
    assert_eq!(error_of(&out), Some(("multiple solution template blocks defined", false)));
}

#[test]
fn template_refuses_second_test() {
    let mut t = FindAnnotated::template();
    t.fold_item(module(vec![Attr::Test], "a", vec![]), &deps());
    let out = t.fold_item(module(vec![Attr::Test], "b", vec![]), &deps());
    assert_eq!(error_of(&out), Some(("multiple test template blocks defined", false)));
    t.fold_item(module(vec![Attr::TestTemplate], "c", vec![function("fn t () { }")]), &deps());
    assert_eq!(t.test().map(|v| v.len()), Some(1));
    let out = t.fold_item(module(vec![Attr::TestTemplate], "d", vec![]), &deps());
    assert_eq!(error_of(&out), Some(("multiple test template blocks defined", false)));
}

#[test]
fn template_refuses_second_library() {
    let mut t = FindAnnotated::template();
    t.fold_item(module(vec![Attr::Library], "a", vec![]), &deps());
    let out = t.fold_item(module(vec![Attr::Library], "b", vec![]), &deps());
    assert_eq!(error_of(&out), Some(("multiple library blocks defined", false)));
    assert_eq!(t.library().map(|v| v.len()), Some(0));
}

#[test]
fn first_matching_annotation_decides() {
    let mut t = FindAnnotated::template();
    t.fold_item(module(vec![Attr::Library, Attr::Test], "both", vec![]), &deps());
    assert!(t.test().is_some());
    assert!(t.library().is_none());
}

#[test]
fn template_only_and_solution_only() {
    let mut r = FindAnnotated::reference();
    assert!(matches!(r.fold_item(mac("template_only", "fn t () { }"), &deps()), Item::Verbatim(v) if v.is_empty()));
    assert!(matches!(r.fold_item(mac("solution_only", "fn s () { }"), &deps()), Item::Verbatim(v) if v == "fn s () { }"));
    let mut t = FindAnnotated::template();
    assert!(matches!(t.fold_item(mac("template_only", "fn t () { }"), &deps()), Item::Verbatim(v) if v == "fn t () { }"));
    assert!(matches!(t.fold_item(mac("solution_only", "fn s () { }"), &deps()), Item::Verbatim(v) if v.is_empty()));
    assert!(matches!(t.fold_item(mac("println", "\"x\""), &deps()), Item::Macro(_)));
}

#[test]
fn refused_import_becomes_error() {
    let mut r = FindAnnotated::reference();
    let u = Item::Use(ItemUse {
        attrs: vec![],
        body: s("use std :: fs ;"),
        tree: UseTree::Path(s("std"), Box::new(UseTree::Name(s("fs")))),
    });
    let out = r.fold_item(u, &deps());
    assert_eq!(
        error_of(&out),
        Some(("std cannot be imported in weblab and is therefore forbidden", true))
    );
}

#[test]
fn module_recorded_without_dropped_imports() {
    let mut r = FindAnnotated::reference();
    let w = Item::Use(ItemUse {
        attrs: vec![],
        body: s("use weblab :: * ;"),
        tree: UseTree::Path(s("weblab"), Box::new(UseTree::Glob)),
    });
    let out = r.fold_item(module(vec![Attr::Test], "test", vec![w]), &deps());
    // the expansion keeps the import, the recorded test drops it
    match &out {
        Item::Mod(m) => assert!(matches!(&m.content.as_ref().unwrap()[0], Item::Use(_))),
        other => panic!("unexpected {:?}", other),
    }
    let test = r.test().unwrap();
    assert!(matches!(&test[0], Item::Verbatim(v) if v.is_empty()));
}

#[test]
fn nested_modules_are_found() {
    let mut r = FindAnnotated::reference();
    let inner = module(vec![Attr::Solution], "inner", vec![]);
    let outer = Item::Mod(ItemMod { attrs: vec![], head: s("mod outer"), ident: s("outer"), content: Some(vec![inner]) });
    r.fold_item(outer, &deps());
    assert!(r.solution().is_some());
    // items nested in other items are searched too
    let mut r = FindAnnotated::reference();
    let f = Item::Other(ItemOther {
        attrs: vec![],
        text: vec![s("fn f () {"), s("}")],
        nested: vec![module(vec![Attr::Test], "t", vec![])],
    });
    r.fold_item(f, &deps());
    assert!(r.test().is_some());
}

#[test]
fn malformed_attribute_replaces_item() {
    let mut r = FindAnnotated::reference();
    let bad = Item::Other(ItemOther {
        attrs: vec![Attribute { tokens: s("#[weblab(oops)]"), status: Err(s("error tokens (\"bad\")")) }],
        text: vec![s("fn f () { }")],
        nested: vec![],
    });
    assert!(matches!(r.fold_item(bad, &deps()), Item::Verbatim(v) if v == "error tokens (\"bad\")"));
}

#[test]
fn unsupported_item_is_not_implemented() {
    let mut r = FindAnnotated::reference();
    let out = r.fold_item(Item::Unsupported(s("?")), &deps());
    assert!(matches!(out, Item::Verbatim(v) if v == NOT_IMPLEMENTED));
    assert_eq!(NOT_IMPLEMENTED.len(), 37);
}

#[test]
fn doc_comments_stay_plain_attributes_stay() {
    let mut r = FindAnnotated::reference();
    let f = Item::Other(ItemOther {
        attrs: vec![
            Attribute { tokens: s("#[doc = \" d\"]"), status: Ok(ParseAttrStatus::Doc(Attr::Doc(s(" d")))) },
            Attribute { tokens: s("#[weblab(test)]"), status: Ok(ParseAttrStatus::Attr(vec![Attr::Test])) },
            Attribute { tokens: s("#[inline]"), status: Ok(ParseAttrStatus::NotParsed) },
        ],
        text: vec![s("fn f () { }")],
        nested: vec![],
    });
    match r.fold_item(f, &deps()) {
        Item::Other(o) => {
            let kept: Vec<&str> = o.attrs.iter().map(|a| a.tokens.as_str()).collect();
            assert_eq!(kept, vec!["#[doc = \" d\"]", "#[inline]"]);
        }
        other => panic!("unexpected {:?}", other),
    }
}

#[test]
fn has_attr_finds_annotation() {
    let v = vec![Attr::Doc(s("x")), Attr::Test];
    assert!(has_attr(&v, &Attr::Test));
    assert!(!has_attr(&v, &Attr::Solution));
    assert!(has_attr(&v, &Attr::Doc(s("x"))));
}
