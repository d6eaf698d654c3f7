use vstd::prelude::*;

use crate::items::{
    clone_attributes, clone_item, clone_strings, item_view, items_view, lemma_items_view,
    lemma_use_trees_view, use_tree_view, use_trees_view, Item, ItemMod, ItemOther, ItemView,
    ModView, OtherView, UseTree, UseTreeView,
};
use crate::text::{equals_str, strings_view};

verus! {

broadcast use vstd::std_specs::vec::axiom_vec_index_decreases;

/// The value of the list of crates that weblab's build lets a submission
/// import, or of the error met in reading it.
pub open spec fn deps_view(d: Result<Vec<String>, String>) -> Result<Seq<Seq<char>>, Seq<char>> {
    match d {
        Ok(v) => Ok(strings_view(v@)),
        Err(e) => Err(e@),
    }
}

/// The value of a decision on a `use` item (`Ok(true)`: drop it).
pub open spec fn decision_view(d: Result<bool, String>) -> Result<bool, Seq<char>> {
    match d {
        Ok(b) => Ok(b),
        Err(e) => Err(e@),
    }
}

/// What `cargo_toml::Manifest::from_slice` makes of the bytes of a Cargo
/// manifest: the names of its `[dependencies]`, in the order of its
/// dependency map, or the text of the error it reports.
pub uninterp spec fn manifest_dependencies(content: Seq<u8>) -> Result<Seq<Seq<char>>, Seq<char>>;

/// Reads a Cargo manifest with `cargo_toml::Manifest::from_slice` and hands
/// back the keys of its `dependencies` map, or the error's `Display` text.
/// What the parse yields is not stated beyond its name,
/// [`manifest_dependencies`].
#[verifier::external_body]
fn dependency_names(content: &[u8]) -> (r: Result<Vec<String>, String>)
    ensures
        deps_view(r) == manifest_dependencies(content@),
{
    cargo_toml::Manifest::from_slice(content).map(|m| m.dependencies.into_keys().collect()).map_err(
        |e| e.to_string(),
    )
}

/// The crates that the manifest lets a submission import (see
/// [`manifest_dependencies`]).
pub fn allowed_crates(manifest: &[u8]) -> (r: Result<Vec<String>, String>)
    ensures
        deps_view(r) == manifest_dependencies(manifest@),
{
    dependency_names(manifest)
}

/// The message for an import that starts at `crate`.
pub open spec fn crate_import_message() -> Seq<char> {
    "crate-relative imports break on weblab since weblab's generated project structure will be different to this one. Use relative imports (with super)"@
}

/// The message for an import of a crate that weblab does not provide.
pub open spec fn forbidden_import_message(ident: Seq<char>) -> Seq<char> {
    ident + " cannot be imported in weblab and is therefore forbidden"@
}

/// The message for a group that mixes imports to drop and imports to keep.
pub open spec fn mixed_group_message() -> Seq<char> {
    "parts of this use are allowed on weblab and others are not."@
}

/// The decision on an import whose path starts at `ident`: imports of
/// `weblab` are dropped; imports of the crates weblab provides and of
/// `super` are kept; `crate` and every other crate are refused. The list of
/// crates is only read when `ident` is not `weblab`.
pub open spec fn ident_decision(ident: Seq<char>, deps: Result<Seq<Seq<char>>, Seq<char>>) -> Result<
    bool,
    Seq<char>,
> {
    if ident == "weblab"@ {
        Ok(true)
    } else {
        match deps {
            Err(e) => Err(e),
            Ok(names) => if names.contains(ident) {
                Ok(false)
            } else if ident == "crate"@ {
                Err(crate_import_message())
            } else if ident == "super"@ {
                Ok(false)
            } else {
                Err(forbidden_import_message(ident))
            },
        }
    }
}

/// The decision on a use tree: `Ok(true)` to drop the `use` item, `Ok(false)`
/// to keep it, `Err` with a message to refuse it. A group is dropped when
/// all its trees are, kept when none of them is, and refused when it mixes
/// them or when one of its trees is refused (the first such error wins).
pub open spec fn drop_decision(t: UseTreeView, deps: Result<Seq<Seq<char>>, Seq<char>>) -> Result<
    bool,
    Seq<char>,
>
    decreases t,
{
    match t {
        UseTreeView::Path(ident, _) => ident_decision(ident, deps),
        UseTreeView::Name(ident) => ident_decision(ident, deps),
        UseTreeView::Rename(ident, _) => ident_decision(ident, deps),
        UseTreeView::Glob => Ok(false),
        UseTreeView::Group(items) => match group_decisions(items, deps) {
            Err(e) => Err(e),
            Ok(bs) => if !bs.contains(false) {
                Ok(true)
            } else if !bs.contains(true) {
                Ok(false)
            } else {
                Err(mixed_group_message())
            },
        },
    }
}

/// The decisions on the trees of a group, in order, or the first refusal.
pub open spec fn group_decisions(
    items: Seq<UseTreeView>,
    deps: Result<Seq<Seq<char>>, Seq<char>>,
) -> Result<Seq<bool>, Seq<char>>
    decreases items,
{
    if items.len() == 0 {
        Ok(Seq::empty())
    } else {
        match group_decisions(items.drop_last(), deps) {
            Err(e) => Err(e),
            Ok(bs) => match drop_decision(items.last(), deps) {
                Err(e) => Err(e),
                Ok(b) => Ok(bs.push(b)),
            },
        }
    }
}

/// Once the trees of a prefix of a group yield a refusal, the whole group
/// yields it.
proof fn lemma_group_error_persists(
    items: Seq<UseTreeView>,
    deps: Result<Seq<Seq<char>>, Seq<char>>,
    i: int,
)
    requires
        0 <= i <= items.len(),
        group_decisions(items.take(i), deps) is Err,
    ensures
        group_decisions(items, deps) == group_decisions(items.take(i), deps),
    decreases items.len() - i,
{
    if i < items.len() {
        assert(items.take(i + 1).drop_last() =~= items.take(i));
        lemma_group_error_persists(items, deps, i + 1);
    } else {
        assert(items.take(i) =~= items);
    }
}

/// Whether `names` holds `ident`.
fn contains_name(names: &Vec<String>, ident: &String) -> (r: bool)
    ensures
        r == strings_view(names@).contains(ident@),
{
    let mut k: usize = 0;
    while k < names.len()
        invariant
            k <= names.len(),
            forall|j: int| 0 <= j < k ==> names@[j]@ != ident@,
        decreases names.len() - k,
    {
        if names[k] == *ident {
            assert(strings_view(names@)[k as int] == ident@);
            return true;
        }
        k = k + 1;
    }
    proof {
        if strings_view(names@).contains(ident@) {
            let j = choose|j: int| 0 <= j < names@.len() && strings_view(names@)[j] == ident@;
            assert(names@[j]@ == ident@);
        }
    }
    false
}

/// The decision on an import whose path starts at `ident` (see
/// [`ident_decision`]).
fn decide_ident(ident: &String, deps: &Result<Vec<String>, String>) -> (r: Result<bool, String>)
    ensures
        decision_view(r) == ident_decision(ident@, deps_view(*deps)),
{
    if equals_str(ident, "weblab") {
        return Ok(true);
    }
    match deps {
        Err(e) => Err(e.clone()),
        Ok(names) => {
            if contains_name(names, ident) {
                Ok(false)
            } else if equals_str(ident, "crate") {
                Err(
                    String::from_str(
                        "crate-relative imports break on weblab since weblab's generated project structure will be different to this one. Use relative imports (with super)",
                    ),
                )
            } else if equals_str(ident, "super") {
                Ok(false)
            } else {
                let mut message = ident.clone();
                message.append(" cannot be imported in weblab and is therefore forbidden");
                Err(message)
            }
        },
    }
}

/// Decides whether a `use` item with tree `t` is dropped from what weblab
/// receives (`Ok(true)`), kept (`Ok(false)`), or refused with a message,
/// given the crates weblab provides or the error met in reading them.
pub fn should_drop_with(t: &UseTree, deps: &Result<Vec<String>, String>) -> (r: Result<bool, String>)
    ensures
        decision_view(r) == drop_decision(t@, deps_view(*deps)),
    decreases t,
{
    match t {
        UseTree::Path(ident, _) => decide_ident(ident, deps),
        UseTree::Name(ident) => decide_ident(ident, deps),
        UseTree::Rename(ident, _) => decide_ident(ident, deps),
        UseTree::Glob => Ok(false),
        UseTree::Group(items) => {
            let ghost trees = use_trees_view(items@);
            proof {
                lemma_use_trees_view(items@);
            }
            let mut bs: Vec<bool> = Vec::new();
            let mut k: usize = 0;
            assert(trees.take(0) =~= Seq::<UseTreeView>::empty());
            assert(bs@ =~= Seq::<bool>::empty());
            while k < items.len()
                invariant
                    k <= items.len(),
                    *t == UseTree::Group(*items),
                    trees == use_trees_view(items@),
                    trees.len() == items@.len(),
                    forall|j: int| 0 <= j < items@.len() ==> trees[j] == use_tree_view(#[trigger] items@[j]),
                    group_decisions(trees.take(k as int), deps_view(*deps)) == Ok::<
                        Seq<bool>,
                        Seq<char>,
                    >(bs@),
                decreases items.len() - k,
            {
                proof {
                    assert(decreases_to!(*t => (*t)->Group_0));
                    vstd::std_specs::vec::axiom_vec_index_decreases(*items, k as int);
                }
                let d = should_drop_with(&items[k], deps);
                assert(trees.take(k + 1).drop_last() =~= trees.take(k as int));
                assert(trees.take(k + 1).last() == items@[k as int]@);
                match d {
                    Err(e) => {
                        proof {
                            lemma_group_error_persists(trees, deps_view(*deps), k + 1);
                        }
                        return Err(e);
                    },
                    Ok(b) => {
                        bs.push(b);
                    },
                }
                k = k + 1;
            }
            assert(trees.take(items.len() as int) =~= trees);
            let mut any_true = false;
            let mut any_false = false;
            let mut j: usize = 0;
            while j < bs.len()
                invariant
                    j <= bs.len(),
                    any_true == (exists|i: int| 0 <= i < j && bs@[i] == true),
                    any_false == (exists|i: int| 0 <= i < j && bs@[i] == false),
                decreases bs.len() - j,
            {
                if bs[j] {
                    any_true = true;
                } else {
                    any_false = true;
                }
                j = j + 1;
            }
            if !any_false {
                Ok(true)
            } else if !any_true {
                Ok(false)
            } else {
                Err(String::from_str("parts of this use are allowed on weblab and others are not."))
            }
        },
    }
}

/// Decides whether a `use` item with tree `t` is dropped, kept or refused
/// (see [`should_drop_with`]), with the crates weblab provides read from the
/// bytes of its Cargo manifest.
pub fn should_drop(t: &UseTree, manifest: &[u8]) -> (r: Result<bool, String>)
    ensures
        decision_view(r) == drop_decision(t@, manifest_dependencies(manifest@)),
{
    let deps = allowed_crates(manifest);
    should_drop_with(t, &deps)
}

/// An item with the `use` items that weblab drops (at any depth) replaced
/// by empty tokens, as weblab receives it.
pub open spec fn drop_use_spec(i: ItemView, deps: Result<Seq<Seq<char>>, Seq<char>>) -> ItemView
    decreases i,
{
    match i {
        ItemView::Use(u) => if drop_decision(u.tree, deps) == Ok::<bool, Seq<char>>(true) {
            ItemView::Verbatim(Seq::empty())
        } else {
            i
        },
        ItemView::Mod(m) => ItemView::Mod(
            ModView {
                content: match m.content {
                    Some(c) => Some(drop_uses_spec(c, deps)),
                    None => None,
                },
                ..m
            },
        ),
        ItemView::Other(o) => ItemView::Other(OtherView { nested: drop_uses_spec(o.nested, deps), ..o }),
        _ => i,
    }
}

/// [`drop_use_spec`] on each item of a sequence.
pub open spec fn drop_uses_spec(s: Seq<ItemView>, deps: Result<Seq<Seq<char>>, Seq<char>>) -> Seq<
    ItemView,
>
    decreases s,
{
    if s.len() == 0 {
        Seq::empty()
    } else {
        drop_uses_spec(s.drop_last(), deps).push(drop_use_spec(s.last(), deps))
    }
}

/// Whether every `use` item in `i` (at any depth) is dropped or kept, none
/// refused: what holds of an item once weblab has replaced refused imports
/// by compile errors.
pub open spec fn uses_valid(i: ItemView, deps: Result<Seq<Seq<char>>, Seq<char>>) -> bool
    decreases i,
{
    match i {
        ItemView::Use(u) => drop_decision(u.tree, deps) is Ok,
        ItemView::Mod(m) => match m.content {
            Some(c) => all_uses_valid(c, deps),
            None => true,
        },
        ItemView::Other(o) => all_uses_valid(o.nested, deps),
        _ => true,
    }
}

/// [`uses_valid`] of each item of a sequence.
pub open spec fn all_uses_valid(s: Seq<ItemView>, deps: Result<Seq<Seq<char>>, Seq<char>>) -> bool
    decreases s,
{
    if s.len() == 0 {
        true
    } else {
        all_uses_valid(s.drop_last(), deps) && uses_valid(s.last(), deps)
    }
}

/// `drop_uses_spec` maps each item.
pub proof fn lemma_drop_uses_spec(s: Seq<ItemView>, deps: Result<Seq<Seq<char>>, Seq<char>>)
    ensures
        drop_uses_spec(s, deps).len() == s.len(),
        forall|k: int|
            0 <= k < s.len() ==> drop_uses_spec(s, deps)[k] == drop_use_spec(#[trigger] s[k], deps),
    decreases s.len(),
{
    if s.len() > 0 {
        lemma_drop_uses_spec(s.drop_last(), deps);
        assert forall|k: int| 0 <= k < s.len() implies drop_uses_spec(s, deps)[k] == drop_use_spec(
            #[trigger] s[k],
            deps,
        ) by {
            if k < s.len() - 1 {
                assert(s.drop_last()[k] == s[k]);
            }
        }
    }
}

/// `all_uses_valid` holds exactly when each item is valid.
pub proof fn lemma_all_uses_valid(s: Seq<ItemView>, deps: Result<Seq<Seq<char>>, Seq<char>>)
    ensures
        all_uses_valid(s, deps) <==> forall|k: int| 0 <= k < s.len() ==> uses_valid(#[trigger] s[k], deps),
    decreases s.len(),
{
    if s.len() > 0 {
        lemma_all_uses_valid(s.drop_last(), deps);
        if forall|k: int| 0 <= k < s.len() ==> uses_valid(#[trigger] s[k], deps) {
            assert forall|k: int| 0 <= k < s.drop_last().len() implies uses_valid(
                #[trigger] s.drop_last()[k],
                deps,
            ) by {
                assert(s.drop_last()[k] == s[k]);
            }
        }
        if all_uses_valid(s, deps) {
            assert forall|k: int| 0 <= k < s.len() implies uses_valid(#[trigger] s[k], deps) by {
                if k < s.len() - 1 {
                    assert(s.drop_last()[k] == s[k]);
                }
            }
        }
    }
}

/// The item as weblab receives it: `use` items that are dropped become empty
/// tokens, at any depth (modules' content and items nested in other items).
pub fn drop_use(item: &Item, deps: &Result<Vec<String>, String>) -> (r: Item)
    requires
        uses_valid(item@, deps_view(*deps)),
    ensures
        r@ == drop_use_spec(item@, deps_view(*deps)),
    decreases item,
{
    match item {
        Item::Use(u) => {
            let d = should_drop_with(&u.tree, deps);
            match d {
                Ok(true) => Item::Verbatim(String::new()),
                _ => clone_item(item),
            }
        },
        Item::Mod(m) => Item::Mod(drop_use_mod(m, deps)),
        Item::Other(o) => Item::Other(
            ItemOther {
                attrs: clone_attributes(&o.attrs),
                text: clone_strings(&o.text),
                nested: drop_use_items(&o.nested, deps),
            },
        ),
        _ => clone_item(item),
    }
}

/// A module as weblab receives it (see [`drop_use`]).
pub fn drop_use_mod(m: &ItemMod, deps: &Result<Vec<String>, String>) -> (r: ItemMod)
    requires
        uses_valid(ItemView::Mod(m@), deps_view(*deps)),
    ensures
        ItemView::Mod(r@) == drop_use_spec(ItemView::Mod(m@), deps_view(*deps)),
    decreases m,
{
    let content = match &m.content {
        Some(v) => Some(drop_use_items(v, deps)),
        None => None,
    };
    ItemMod { attrs: clone_attributes(&m.attrs), head: m.head.clone(), ident: m.ident.clone(), content }
}

/// [`drop_use`] on each item of a list.
pub fn drop_use_items(v: &Vec<Item>, deps: &Result<Vec<String>, String>) -> (r: Vec<Item>)
    requires
        all_uses_valid(items_view(v@), deps_view(*deps)),
    ensures
        items_view(r@) == drop_uses_spec(items_view(v@), deps_view(*deps)),
    decreases v,
{
    let ghost src = items_view(v@);
    proof {
        lemma_items_view(v@);
        lemma_all_uses_valid(src, deps_view(*deps));
    }
    let mut out: Vec<Item> = Vec::new();
    let mut k: usize = 0;
    assert(src.take(0) =~= Seq::<ItemView>::empty());
    while k < v.len()
        invariant
            k <= v.len(),
            src == items_view(v@),
            src.len() == v@.len(),
            forall|j: int| 0 <= j < v@.len() ==> src[j] == item_view(#[trigger] v@[j]),
            forall|j: int| 0 <= j < src.len() ==> uses_valid(#[trigger] src[j], deps_view(*deps)),
            items_view(out@) == drop_uses_spec(src.take(k as int), deps_view(*deps)),
        decreases v.len() - k,
    {
        let ghost before = out@;
        assert(uses_valid(src[k as int], deps_view(*deps)));
        out.push(drop_use(&v[k], deps));
        assert(out@.drop_last() =~= before);
        assert(src.take(k + 1).drop_last() =~= src.take(k as int));
        k = k + 1;
    }
    assert(src.take(v.len() as int) =~= src);
    out
}

} // verus!
