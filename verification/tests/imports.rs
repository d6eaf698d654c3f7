use weblab_macros::{
    allowed_crates, drop_use, should_drop, should_drop_with, Item, ItemMod, ItemUse, UseTree,
};

const MANIFEST: &str = "[package]\nname = \"user_code\"\nversion = \"0.1.0\"\nedition = \"2021\"\n\n[dependencies]\nrand = \"0.8\"\nitertools = \"0.10\"\n";

fn s(x: &str) -> String {
    x.to_string()
}

fn name(x: &str) -> UseTree {
    UseTree::Name(s(x))
}

fn path(x: &str, rest: UseTree) -> UseTree {
    UseTree::Path(s(x), Box::new(rest))
}

fn deps() -> Result<Vec<String>, String> {
    Ok(vec![s("itertools"), s("rand")])
}

#[test]
fn manifest_dependencies_in_map_order() {
    assert_eq!(allowed_crates(MANIFEST.as_bytes()), Ok(vec![s("itertools"), s("rand")]));
}

#[test]
fn manifest_without_dependencies() {
    let m = "[package]\nname = \"x\"\nversion = \"0.1.0\"\n";
    assert_eq!(allowed_crates(m.as_bytes()), Ok(vec![]));
}

#[test]
fn manifest_not_utf8() {
    assert_eq!(allowed_crates(&[0xff, 0xfe, 0x00]), Err(s("utf8")));
}

#[test]
fn manifest_malformed() {
    assert!(allowed_crates(b"[dependencies").is_err());
}

#[test]
fn weblab_import_is_dropped() {
    assert_eq!(should_drop_with(&path("weblab", UseTree::Glob), &deps()), Ok(true));
    assert_eq!(should_drop_with(&name("weblab"), &Err(s("broken"))), Ok(true));
    assert_eq!(should_drop_with(&UseTree::Rename(s("weblab"), s("w")), &deps()), Ok(true));
}

#[test]
fn provided_crate_is_kept() {
    assert_eq!(should_drop_with(&path("rand", name("Rng")), &deps()), Ok(false));
}

#[test]
fn super_is_kept() {
    assert_eq!(should_drop_with(&path("super", name("solution")), &deps()), Ok(false));
}

#[test]
fn glob_is_kept() {
    assert_eq!(should_drop_with(&UseTree::Glob, &deps()), Ok(false));
}

#[test]
fn crate_import_is_refused() {
    assert_eq!(
        should_drop_with(&path("crate", name("x")), &deps()),
        Err(s("crate-relative imports break on weblab since weblab's generated project structure will be different to this one. Use relative imports (with super)"))
    );
}

#[test]
fn unknown_crate_is_refused() {
    assert_eq!(
        should_drop_with(&path("std", name("fs")), &deps()),
        Err(s("std cannot be imported in weblab and is therefore forbidden"))
    );
}

#[test]
fn manifest_error_is_reported() {
    assert_eq!(should_drop_with(&name("rand"), &Err(s("broken"))), Err(s("broken")));
}

#[test]
fn group_of_dropped_is_dropped() {
    let g = UseTree::Group(vec![path("weblab", UseTree::Glob), name("weblab")]);
    assert_eq!(should_drop_with(&g, &deps()), Ok(true));
}

#[test]
fn empty_group_is_dropped() {
    assert_eq!(should_drop_with(&UseTree::Group(vec![]), &deps()), Ok(true));
}

#[test]
fn group_of_kept_is_kept() {
    let g = UseTree::Group(vec![name("rand"), name("super")]);
    assert_eq!(should_drop_with(&g, &deps()), Ok(false));
}

#[test]
fn mixed_group_is_refused() {
    let g = UseTree::Group(vec![name("weblab"), name("rand")]);
    assert_eq!(
        should_drop_with(&g, &deps()),
        Err(s("parts of this use are allowed on weblab and others are not."))
    );
}

#[test]
fn first_refusal_in_group_wins() {
    let g = UseTree::Group(vec![name("rand"), name("std"), name("crate")]);
    assert_eq!(
        should_drop_with(&g, &deps()),
        Err(s("std cannot be imported in weblab and is therefore forbidden"))
    );
}

#[test]
fn should_drop_reads_the_manifest() {
    assert_eq!(should_drop(&name("itertools"), MANIFEST.as_bytes()), Ok(false));
    assert_eq!(
        should_drop(&name("serde"), MANIFEST.as_bytes()),
        Err(s("serde cannot be imported in weblab and is therefore forbidden"))
    );
    assert_eq!(should_drop(&name("weblab"), &[0xff]), Ok(true));
}

fn use_item(tree: UseTree, body: &str) -> Item {
    Item::Use(ItemUse { attrs: vec![], body: s(body), tree })
}

#[test]
fn drop_use_empties_dropped_imports_at_any_depth() {
    let inner = ItemMod {
        attrs: vec![],
        head: s("mod inner"),
        ident: s("inner"),
        content: Some(vec![use_item(path("weblab", UseTree::Glob), "use weblab :: * ;")]),
    };
    let outer = Item::Mod(ItemMod {
        attrs: vec![],
        head: s("mod outer"),
        ident: s("outer"),
        content: Some(vec![
            use_item(path("rand", name("Rng")), "use rand :: Rng ;"),
            Item::Mod(inner),
        ]),
    });
    let out = drop_use(&outer, &deps());
    let content = match &out {
        Item::Mod(m) => m.content.as_ref().unwrap(),
        other => panic!("unexpected {:?}", other),
    };
    assert!(matches!(&content[0], Item::Use(u) if u.body == "use rand :: Rng ;"));
    match &content[1] {
        Item::Mod(m) => {
            let c = m.content.as_ref().unwrap();
            assert!(matches!(&c[0], Item::Verbatim(t) if t.is_empty()));
        }
        other => panic!("unexpected {:?}", other),
    }
    // dropping again changes nothing
    let again = drop_use(&out, &deps());
    match &again {
        Item::Mod(m) => {
            let c = m.content.as_ref().unwrap();
            assert!(matches!(&c[0], Item::Use(_)));
            assert!(matches!(&c[1], Item::Mod(_)));
        }
        other => panic!("unexpected {:?}", other),
    }
}
