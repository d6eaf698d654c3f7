use vstd::prelude::*;

use crate::attrs::{attributes_view, Attr, Attribute, AttributeView, ParseAttrStatus, attrs_view};
use crate::text::strings_view;

verus! {

broadcast use {
    vstd::std_specs::vec::axiom_vec_decreases_to_view,
    vstd::std_specs::vec::axiom_vec_index_decreases,
};

/// The tree of a `use` item.
#[derive(Debug)]
pub enum UseTree {
    Path(String, Box<UseTree>),
    Name(String),
    Rename(String, String),
    Glob,
    Group(Vec<UseTree>),
}

/// The mathematical value of a [`UseTree`].
pub enum UseTreeView {
    Path(Seq<char>, Box<UseTreeView>),
    Name(Seq<char>),
    Rename(Seq<char>, Seq<char>),
    Glob,
    Group(Seq<UseTreeView>),
}

/// The value of a use tree.
pub open spec fn use_tree_view(t: UseTree) -> UseTreeView
    decreases t,
{
    match t {
        UseTree::Path(ident, rest) => UseTreeView::Path(ident@, Box::new(use_tree_view(*rest))),
        UseTree::Name(ident) => UseTreeView::Name(ident@),
        UseTree::Rename(ident, rename) => UseTreeView::Rename(ident@, rename@),
        UseTree::Glob => UseTreeView::Glob,
        UseTree::Group(items) => UseTreeView::Group(use_trees_view(items@)),
    }
}

/// The values of a sequence of use trees.
pub open spec fn use_trees_view(s: Seq<UseTree>) -> Seq<UseTreeView>
    decreases s,
{
    if s.len() == 0 {
        Seq::empty()
    } else {
        use_trees_view(s.drop_last()).push(use_tree_view(s.last()))
    }
}

impl View for UseTree {
    type V = UseTreeView;

    open spec fn view(&self) -> UseTreeView {
        use_tree_view(*self)
    }
}

/// `use_trees_view` maps each tree to its value.
pub broadcast proof fn lemma_use_trees_view(s: Seq<UseTree>)
    ensures
        #[trigger] use_trees_view(s).len() == s.len(),
        forall|k: int| 0 <= k < s.len() ==> use_trees_view(s)[k] == use_tree_view(#[trigger] s[k]),
    decreases s.len(),
{
    if s.len() > 0 {
        lemma_use_trees_view(s.drop_last());
        assert forall|k: int| 0 <= k < s.len() implies use_trees_view(s)[k] == use_tree_view(
            #[trigger] s[k],
        ) by {
            if k < s.len() - 1 {
                assert(s.drop_last()[k] == s[k]);
            }
        }
    }
}

/// An item of a module, as far as weblab reads it. `Mod`, `Use` and `Macro`
/// are the items weblab looks into; `Other` stands for every other kind of
/// item weblab handles (functions, structs, impls, ...), with the items nested
/// in it; `Verbatim` is raw tokens; `CompileError` is a `compile_error!`
/// invocation with its message; `Unsupported` is an item kind weblab does not
/// handle.
#[derive(Debug)]
pub enum Item {
    Mod(ItemMod),
    Use(ItemUse),
    Macro(ItemMacro),
    Other(ItemOther),
    Verbatim(String),
    CompileError { message: String, statement: bool },
    Unsupported(String),
}

/// A module: its attributes, the tokens before its content (visibility,
/// `mod` and name), its name, and its items when it has a body.
#[derive(Debug)]
pub struct ItemMod {
    pub attrs: Vec<Attribute>,
    pub head: String,
    pub ident: String,
    pub content: Option<Vec<Item>>,
}

/// A `use` item: its attributes, its tokens without them, and its tree.
#[derive(Debug)]
pub struct ItemUse {
    pub attrs: Vec<Attribute>,
    pub body: String,
    pub tree: UseTree,
}

/// A macro invocation in item position: its attributes, the macro's name
/// when its path is a single identifier, the tokens inside its delimiters,
/// and its tokens without the attributes.
#[derive(Debug)]
pub struct ItemMacro {
    pub attrs: Vec<Attribute>,
    pub ident: Option<String>,
    pub tokens: String,
    pub body: String,
}

/// Any other item: its attributes, and its tokens split around the items
/// nested in it (`text` has one piece more than `nested`).
#[derive(Debug)]
pub struct ItemOther {
    pub attrs: Vec<Attribute>,
    pub text: Vec<String>,
    pub nested: Vec<Item>,
}

/// The mathematical value of an [`Item`].
pub enum ItemView {
    Mod(ModView),
    Use(UseView),
    Macro(MacroView),
    Other(OtherView),
    Verbatim(Seq<char>),
    CompileError { message: Seq<char>, statement: bool },
    Unsupported(Seq<char>),
}

/// The mathematical value of an [`ItemMod`].
pub struct ModView {
    pub attrs: Seq<AttributeView>,
    pub head: Seq<char>,
    pub ident: Seq<char>,
    pub content: Option<Seq<ItemView>>,
}

/// The mathematical value of an [`ItemUse`].
pub struct UseView {
    pub attrs: Seq<AttributeView>,
    pub body: Seq<char>,
    pub tree: UseTreeView,
}

/// The mathematical value of an [`ItemMacro`].
pub struct MacroView {
    pub attrs: Seq<AttributeView>,
    pub ident: Option<Seq<char>>,
    pub tokens: Seq<char>,
    pub body: Seq<char>,
}

/// The mathematical value of an [`ItemOther`].
pub struct OtherView {
    pub attrs: Seq<AttributeView>,
    pub text: Seq<Seq<char>>,
    pub nested: Seq<ItemView>,
}

/// The value of an item.
pub open spec fn item_view(i: Item) -> ItemView
    decreases i,
{
    match i {
        Item::Mod(m) => ItemView::Mod(mod_view(m)),
        Item::Use(u) => ItemView::Use(
            UseView { attrs: attributes_view(u.attrs@), body: u.body@, tree: u.tree@ },
        ),
        Item::Macro(m) => ItemView::Macro(
            MacroView {
                attrs: attributes_view(m.attrs@),
                ident: match m.ident {
                    Some(s) => Some(s@),
                    None => None,
                },
                tokens: m.tokens@,
                body: m.body@,
            },
        ),
        Item::Other(o) => ItemView::Other(
            OtherView {
                attrs: attributes_view(o.attrs@),
                text: strings_view(o.text@),
                nested: items_view(o.nested@),
            },
        ),
        Item::Verbatim(s) => ItemView::Verbatim(s@),
        Item::CompileError { message, statement } => ItemView::CompileError {
            message: message@,
            statement,
        },
        Item::Unsupported(s) => ItemView::Unsupported(s@),
    }
}

/// The value of a module.
pub open spec fn mod_view(m: ItemMod) -> ModView
    decreases m,
{
    ModView {
        attrs: attributes_view(m.attrs@),
        head: m.head@,
        ident: m.ident@,
        content: match m.content {
            Some(v) => Some(items_view(v@)),
            None => None,
        },
    }
}

/// The values of a sequence of items.
pub open spec fn items_view(s: Seq<Item>) -> Seq<ItemView>
    decreases s,
{
    if s.len() == 0 {
        Seq::empty()
    } else {
        items_view(s.drop_last()).push(item_view(s.last()))
    }
}

impl View for Item {
    type V = ItemView;

    open spec fn view(&self) -> ItemView {
        item_view(*self)
    }
}

impl View for ItemMod {
    type V = ModView;

    open spec fn view(&self) -> ModView {
        mod_view(*self)
    }
}

/// `items_view` maps each item to its value.
pub broadcast proof fn lemma_items_view(s: Seq<Item>)
    ensures
        #[trigger] items_view(s).len() == s.len(),
        forall|k: int| 0 <= k < s.len() ==> items_view(s)[k] == item_view(#[trigger] s[k]),
    decreases s.len(),
{
    if s.len() > 0 {
        lemma_items_view(s.drop_last());
        assert forall|k: int| 0 <= k < s.len() implies items_view(s)[k] == item_view(
            #[trigger] s[k],
        ) by {
            if k < s.len() - 1 {
                assert(s.drop_last()[k] == s[k]);
            }
        }
    }
}

} // verus!

verus! {

impl Clone for ParseAttrStatus {
    fn clone(&self) -> (r: ParseAttrStatus)
        ensures
            r@ == self@,
    {
        match self {
            ParseAttrStatus::Attr(v) => {
                let mut out: Vec<Attr> = Vec::new();
                let mut k: usize = 0;
                while k < v.len()
                    invariant
                        k <= v.len(),
                        out@.len() == k,
                        attrs_view(out@) == attrs_view(v@.take(k as int)),
                    decreases v.len() - k,
                {
                    let ghost before = out@;
                    out.push(v[k].clone());
                    assert forall|j: int| 0 <= j < k + 1 implies attrs_view(out@)[j] == attrs_view(
                        v@.take(k + 1),
                    )[j] by {
                        if j < k {
                            assert(attrs_view(before)[j] == attrs_view(v@.take(k as int))[j]);
                        }
                    }
                    assert(attrs_view(out@) =~= attrs_view(v@.take(k + 1)));
                    k = k + 1;
                }
                assert(v@.take(v.len() as int) =~= v@);
                ParseAttrStatus::Attr(out)
            },
            ParseAttrStatus::Doc(a) => ParseAttrStatus::Doc(a.clone()),
            ParseAttrStatus::NotParsed => ParseAttrStatus::NotParsed,
        }
    }
}

impl Clone for Attribute {
    fn clone(&self) -> (r: Attribute)
        ensures
            r@ == self@,
    {
        let status = match &self.status {
            Ok(p) => Ok(p.clone()),
            Err(e) => Err(e.clone()),
        };
        Attribute { tokens: self.tokens.clone(), status }
    }
}

/// A copy of a list of attributes.
pub fn clone_attributes(v: &Vec<Attribute>) -> (r: Vec<Attribute>)
    ensures
        attributes_view(r@) == attributes_view(v@),
{
    let mut out: Vec<Attribute> = Vec::new();
    let mut k: usize = 0;
    while k < v.len()
        invariant
            k <= v.len(),
            out@.len() == k,
            attributes_view(out@) == attributes_view(v@.take(k as int)),
        decreases v.len() - k,
    {
        let ghost before = out@;
        out.push(v[k].clone());
        assert forall|j: int| 0 <= j < k + 1 implies attributes_view(out@)[j] == attributes_view(
            v@.take(k + 1),
        )[j] by {
            if j < k {
                assert(attributes_view(before)[j] == attributes_view(v@.take(k as int))[j]);
            }
        }
        assert(attributes_view(out@) =~= attributes_view(v@.take(k + 1)));
        k = k + 1;
    }
    assert(v@.take(v.len() as int) =~= v@);
    out
}

/// A copy of a list of strings.
pub fn clone_strings(v: &Vec<String>) -> (r: Vec<String>)
    ensures
        strings_view(r@) == strings_view(v@),
{
    let mut out: Vec<String> = Vec::new();
    let mut k: usize = 0;
    while k < v.len()
        invariant
            k <= v.len(),
            out@.len() == k,
            strings_view(out@) == strings_view(v@.take(k as int)),
        decreases v.len() - k,
    {
        let ghost before = out@;
        out.push(v[k].clone());
        assert forall|j: int| 0 <= j < k + 1 implies strings_view(out@)[j] == strings_view(
            v@.take(k + 1),
        )[j] by {
            if j < k {
                assert(strings_view(before)[j] == strings_view(v@.take(k as int))[j]);
            }
        }
        assert(strings_view(out@) =~= strings_view(v@.take(k + 1)));
        k = k + 1;
    }
    assert(v@.take(v.len() as int) =~= v@);
    out
}

/// A copy of a use tree.
pub fn clone_use_tree(t: &UseTree) -> (r: UseTree)
    ensures
        r@ == t@,
    decreases t,
{
    match t {
        UseTree::Path(ident, rest) => UseTree::Path(ident.clone(), Box::new(clone_use_tree(rest))),
        UseTree::Name(ident) => UseTree::Name(ident.clone()),
        UseTree::Rename(ident, rename) => UseTree::Rename(ident.clone(), rename.clone()),
        UseTree::Glob => UseTree::Glob,
        UseTree::Group(items) => {
            let mut out: Vec<UseTree> = Vec::new();
            let mut k: usize = 0;
            while k < items.len()
                invariant
                    k <= items.len(),
                    *t == UseTree::Group(*items),
                    use_trees_view(out@) == use_trees_view(items@.take(k as int)),
                decreases items.len() - k,
            {
                let ghost before = out@;
                proof {
                    assert(decreases_to!(*t => (*t)->Group_0));
                    vstd::std_specs::vec::axiom_vec_index_decreases(*items, k as int);
                    assert(decreases_to!(*items => items[k as int]));
                }
                out.push(clone_use_tree(&items[k]));
                assert(out@.drop_last() =~= before);
                assert(items@.take(k + 1).drop_last() =~= items@.take(k as int));
                k = k + 1;
            }
            assert(items@.take(items.len() as int) =~= items@);
            UseTree::Group(out)
        },
    }
}

/// A copy of an item.
pub fn clone_item(i: &Item) -> (r: Item)
    ensures
        r@ == i@,
    decreases i,
{
    match i {
        Item::Mod(m) => Item::Mod(clone_mod(m)),
        Item::Use(u) => Item::Use(
            ItemUse {
                attrs: clone_attributes(&u.attrs),
                body: u.body.clone(),
                tree: clone_use_tree(&u.tree),
            },
        ),
        Item::Macro(m) => {
            let ident = match &m.ident {
                Some(s) => Some(s.clone()),
                None => None,
            };
            Item::Macro(
                ItemMacro {
                    attrs: clone_attributes(&m.attrs),
                    ident,
                    tokens: m.tokens.clone(),
                    body: m.body.clone(),
                },
            )
        },
        Item::Other(o) => Item::Other(
            ItemOther {
                attrs: clone_attributes(&o.attrs),
                text: clone_strings(&o.text),
                nested: clone_items(&o.nested),
            },
        ),
        Item::Verbatim(s) => Item::Verbatim(s.clone()),
        Item::CompileError { message, statement } => Item::CompileError {
            message: message.clone(),
            statement: *statement,
        },
        Item::Unsupported(s) => Item::Unsupported(s.clone()),
    }
}

/// A copy of a module.
pub fn clone_mod(m: &ItemMod) -> (r: ItemMod)
    ensures
        r@ == m@,
    decreases m,
{
    let content = match &m.content {
        Some(v) => Some(clone_items(v)),
        None => None,
    };
    ItemMod { attrs: clone_attributes(&m.attrs), head: m.head.clone(), ident: m.ident.clone(), content }
}

/// A copy of a list of items.
pub fn clone_items(v: &Vec<Item>) -> (r: Vec<Item>)
    ensures
        items_view(r@) == items_view(v@),
    decreases v,
{
    let mut out: Vec<Item> = Vec::new();
    let mut k: usize = 0;
    while k < v.len()
        invariant
            k <= v.len(),
            items_view(out@) == items_view(v@.take(k as int)),
        decreases v.len() - k,
    {
        let ghost before = out@;
        out.push(clone_item(&v[k]));
        assert(out@.drop_last() =~= before);
        assert(v@.take(k + 1).drop_last() =~= v@.take(k as int));
        k = k + 1;
    }
    assert(v@.take(v.len() as int) =~= v@);
    out
}

} // verus!
