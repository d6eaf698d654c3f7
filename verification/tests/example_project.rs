use weblab_macros::{
    weblab, Attr, Attribute, Expansion, Item, ItemMod, ItemOther, ItemUse, ParseAttrStatus, UseTree,
};

const MANIFEST: &str = "[package]\nname = \"user_code\"\nversion = \"0.1.0\"\nedition = \"2021\"\n\n[dependencies]\nrand = \"0.8\"\n";

fn s(x: &str) -> String {
    x.to_string()
}

fn weblab_attr(tokens: &str, attrs: Vec<Attr>) -> Attribute {
    Attribute { tokens: s(tokens), status: Ok(ParseAttrStatus::Attr(attrs)) }
}

fn doc_attr(text: &str) -> Attribute {
    Attribute {
        tokens: format!("#[doc = {:?}]", text),
        status: Ok(ParseAttrStatus::Doc(Attr::Doc(s(text)))),
    }
}

fn plain_attr(tokens: &str) -> Attribute {
    Attribute { tokens: s(tokens), status: Ok(ParseAttrStatus::NotParsed) }
}

fn module(attrs: Vec<Attribute>, name: &str, content: Vec<Item>) -> ItemMod {
    ItemMod { attrs, head: format!("mod {}", name), ident: s(name), content: Some(content) }
}

fn function(attrs: Vec<Attribute>, text: &str) -> Item {
    Item::Other(ItemOther { attrs, text: vec![s(text)], nested: vec![] })
}

/// A small assignment: a solution whose `main` prints,
/// a test that calls it, and an empty library.
fn example_assignment() -> ItemMod {
    let solution = module(
        vec![weblab_attr("#[weblab(solution)]", vec![Attr::Solution])],
        "solution",
        vec![function(vec![], "pub fn main () { println ! (\"main!\") ; }")],
    );
    let test = module(
        vec![weblab_attr("#[weblab(test)]", vec![Attr::Test])],
        "test",
        vec![
            Item::Use(ItemUse {
                attrs: vec![],
                body: s("use super :: solution ;"),
                tree: UseTree::Path(s("super"), Box::new(UseTree::Name(s("solution")))),
            }),
            function(vec![plain_attr("#[test]")], "fn test () { solution :: main () ; }"),
        ],
    );
    let library = module(vec![weblab_attr("#[weblab(library)]", vec![Attr::Library])], "library", vec![]);
    ItemMod {
        attrs: vec![
            doc_attr(" This is an example assignment."),
            doc_attr(" # You can use markdown here. Most editors (like clion) even shows it."),
            doc_attr(" The markdown will also show on weblab-macros."),
            weblab_attr("#[weblab(title = \"test\")]", vec![Attr::Title(s("test"))]),
        ],
        head: s("mod assignment"),
        ident: s("assignment"),
        content: Some(vec![Item::Mod(solution), Item::Mod(test), Item::Mod(library)]),
    }
}

#[test]
fn test() {
    let r = weblab(Ok(vec![Attr::ProgrammingAssignment]), Ok(example_assignment()), MANIFEST.as_bytes());
    let a = match r {
        Expansion::Assignment(a) => a,
        other => panic!("expected an assignment, got {:?}", other),
    };
    assert_eq!(a.title, "test");
    assert_eq!(
        a.assignment_text,
        "This is an example assignment.\n# You can use markdown here. Most editors (like clion) even shows it.\nThe markdown will also show on weblab-macros."
    );
    // the spec test: the `use super::solution` stays, the test function keeps `#[test]`
    assert_eq!(a.test.len(), 2);
    assert!(matches!(&a.test[0], Item::Use(u) if u.body == "use super :: solution ;"));
    match &a.test[1] {
        Item::Other(o) => {
            assert_eq!(o.attrs.len(), 1);
            assert_eq!(o.attrs[0].tokens, "#[test]");
        }
        other => panic!("unexpected {:?}", other),
    }
    assert_eq!(a.solution.len(), 1);
    // the template falls back on the modules marked as solution and test
    assert_eq!(a.solution_template.as_ref().map(|v| v.len()), Some(1));
    assert_eq!(a.test_template.as_ref().map(|v| v.len()), Some(2));
    assert_eq!(a.library.as_ref().map(|v| v.len()), Some(0));
    // the module stays without its attributes, its modules without their annotations
    assert!(a.module.attrs.is_empty());
    assert_eq!(a.module.ident, "assignment");
    let content = a.module.content.as_ref().unwrap();
    assert_eq!(content.len(), 3);
    for item in content {
        match item {
            Item::Mod(m) => assert!(m.attrs.is_empty()),
            other => panic!("unexpected {:?}", other),
        }
    }
}
