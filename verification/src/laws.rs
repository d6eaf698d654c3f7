use vstd::prelude::*;

use crate::attrs::{parse_attributes, AttrView, AttributeView};
use crate::annotations::{
    fold_item_spec, fold_items_spec, fold_mod_spec, register_spec, FindAnnotatedView,
};
use crate::imports::{
    drop_decision, drop_use_spec, drop_uses_spec, group_decisions, lemma_drop_uses_spec,
};
use crate::items::{ItemView, ModView, OtherView, UseTreeView, UseView};

verus! {

/// Whether `b` holds everything `a` had recorded: the same kind of search;
/// a module recorded for the reference stays; for the template, a module
/// marked as a template stays, a module found for a slot keeps the slot
/// filled, and a recorded library stays.
pub open spec fn keeps_records(a: FindAnnotatedView, b: FindAnnotatedView) -> bool {
    match (a, b) {
        (
            FindAnnotatedView::Reference { solution: s1, test: t1 },
            FindAnnotatedView::Reference { solution: s2, test: t2 },
        ) => (s1 is Some ==> s2 == s1) && (t1 is Some ==> t2 == t1),
        (
            FindAnnotatedView::Template { solution: s1, test: t1, library: l1 },
            FindAnnotatedView::Template { solution: s2, test: t2, library: l2 },
        ) => {
            &&& (s1 is Certain ==> s2 == s1)
            &&& (s1 !is Unknown ==> s2 !is Unknown)
            &&& (t1 is Certain ==> t2 == t1)
            &&& (t1 !is Unknown ==> t2 !is Unknown)
            &&& (l1 is Some ==> l2 == l1)
        },
        _ => false,
    }
}

/// Recording a module keeps what was recorded before (a clash leaves the
/// search unchanged).
pub proof fn lemma_register_keeps_records(
    fa: FindAnnotatedView,
    parsed: Seq<crate::attrs::AttrView>,
    m: ModView,
)
    ensures
        match register_spec(fa, parsed, m) {
            Ok(f) => keeps_records(fa, f),
            Err(_) => true,
        },
{
}

/// `keeps_records` is transitive.
proof fn lemma_keeps_records_trans(a: FindAnnotatedView, b: FindAnnotatedView, c: FindAnnotatedView)
    requires
        keeps_records(a, b),
        keeps_records(b, c),
    ensures
        keeps_records(a, c),
{
}

/// `keeps_records` is reflexive.
proof fn lemma_keeps_records_refl(a: FindAnnotatedView)
    ensures
        keeps_records(a, a),
{
}

/// Folding an item never undoes a record: a module found for a slot stays
/// (a second one becomes a compile error instead), and a search for the
/// reference stays one for the reference, a search for the template one for
/// the template.
pub proof fn lemma_fold_keeps_records(
    fa: FindAnnotatedView,
    item: ItemView,
    deps: Result<Seq<Seq<char>>, Seq<char>>,
)
    ensures
        keeps_records(fa, fold_item_spec(fa, item, deps).0),
    decreases item,
{
    lemma_keeps_records_refl(fa);
    match item {
        ItemView::Mod(m) => match crate::attrs::parse_attributes(m.attrs) {
            Err(_) => {},
            Ok((parsed, kept)) => {
                let (fa1, content) = match m.content {
                    Some(c) => {
                        lemma_fold_items_keeps_records(fa, c, deps);
                        let (f, c2) = fold_items_spec(fa, c, deps);
                        (f, Some(c2))
                    },
                    None => (fa, None),
                };
                let folded = ModView { attrs: kept, content, ..m };
                let without = drop_use_spec(ItemView::Mod(folded), deps)->Mod_0;
                lemma_register_keeps_records(fa1, parsed, without);
                match register_spec(fa1, parsed, without) {
                    Ok(f) => lemma_keeps_records_trans(fa, fa1, f),
                    Err(_) => {},
                }
            },
        },
        ItemView::Other(o) => match crate::attrs::parse_attributes(o.attrs) {
            Err(_) => {},
            Ok(_) => lemma_fold_items_keeps_records(fa, o.nested, deps),
        },
        _ => {},
    }
}

/// Folding a sequence of items never undoes a record.
pub proof fn lemma_fold_items_keeps_records(
    fa: FindAnnotatedView,
    s: Seq<ItemView>,
    deps: Result<Seq<Seq<char>>, Seq<char>>,
)
    ensures
        keeps_records(fa, fold_items_spec(fa, s, deps).0),
    decreases s,
{
    if s.len() == 0 {
        lemma_keeps_records_refl(fa);
    } else {
        lemma_fold_items_keeps_records(fa, s.drop_last(), deps);
        let fa1 = fold_items_spec(fa, s.drop_last(), deps).0;
        lemma_fold_keeps_records(fa1, s.last(), deps);
        lemma_keeps_records_trans(fa, fa1, fold_item_spec(fa1, s.last(), deps).0);
    }
}

/// Folding a module's items never undoes a record.
pub proof fn lemma_fold_mod_keeps_records(
    fa: FindAnnotatedView,
    m: ModView,
    deps: Result<Seq<Seq<char>>, Seq<char>>,
)
    ensures
        keeps_records(fa, fold_mod_spec(fa, m, deps).0),
{
    match m.content {
        Some(c) => lemma_fold_items_keeps_records(fa, c, deps),
        None => lemma_keeps_records_refl(fa),
    }
}

/// Whether no `use` item that weblab drops is left in `i`, at any depth.
pub open spec fn no_dropped_uses(i: ItemView, deps: Result<Seq<Seq<char>>, Seq<char>>) -> bool
    decreases i,
{
    match i {
        ItemView::Use(u) => drop_decision(u.tree, deps) != Ok::<bool, Seq<char>>(true),
        ItemView::Mod(m) => match m.content {
            Some(c) => forall|k: int| 0 <= k < c.len() ==> no_dropped_uses(#[trigger] c[k], deps),
            None => true,
        },
        ItemView::Other(o) => forall|k: int|
            0 <= k < o.nested.len() ==> no_dropped_uses(#[trigger] o.nested[k], deps),
        _ => true,
    }
}

/// What weblab receives holds no import that it drops, and dropping again
/// changes nothing.
pub proof fn lemma_drop_use_complete(i: ItemView, deps: Result<Seq<Seq<char>>, Seq<char>>)
    ensures
        no_dropped_uses(drop_use_spec(i, deps), deps),
        drop_use_spec(drop_use_spec(i, deps), deps) == drop_use_spec(i, deps),
    decreases i,
{
    match i {
        ItemView::Mod(m) => match m.content {
            Some(c) => {
                lemma_drop_uses_complete(c, deps);
            },
            None => {},
        },
        ItemView::Other(o) => {
            lemma_drop_uses_complete(o.nested, deps);
        },
        _ => {},
    }
}

/// [`lemma_drop_use_complete`] for each item of a sequence.
pub proof fn lemma_drop_uses_complete(s: Seq<ItemView>, deps: Result<Seq<Seq<char>>, Seq<char>>)
    ensures
        drop_uses_spec(s, deps).len() == s.len(),
        forall|k: int|
            0 <= k < s.len() ==> no_dropped_uses(#[trigger] drop_uses_spec(s, deps)[k], deps),
        drop_uses_spec(drop_uses_spec(s, deps), deps) == drop_uses_spec(s, deps),
    decreases s,
{
    lemma_drop_uses_spec(s, deps);
    let d = drop_uses_spec(s, deps);
    lemma_drop_uses_spec(d, deps);
    assert forall|k: int| 0 <= k < s.len() implies no_dropped_uses(
        #[trigger] drop_uses_spec(s, deps)[k],
        deps,
    ) && drop_use_spec(d[k], deps) == d[k] by {
        lemma_drop_use_complete(s[k], deps);
    }
    assert(drop_uses_spec(d, deps) =~= d);
}

/// When no tree of a group is refused, the group's decisions are those of
/// its trees, in order.
pub proof fn lemma_group_decisions(items: Seq<UseTreeView>, deps: Result<Seq<Seq<char>>, Seq<char>>)
    requires
        forall|k: int| 0 <= k < items.len() ==> drop_decision(#[trigger] items[k], deps) is Ok,
    ensures
        group_decisions(items, deps) is Ok,
        group_decisions(items, deps)->Ok_0.len() == items.len(),
        forall|k: int|
            0 <= k < items.len() ==> group_decisions(items, deps)->Ok_0[k] == drop_decision(
                #[trigger] items[k],
                deps,
            )->Ok_0,
    decreases items.len(),
{
    if items.len() > 0 {
        let prefix = items.drop_last();
        assert forall|k: int| 0 <= k < prefix.len() implies drop_decision(#[trigger] prefix[k], deps) is Ok by {
            assert(prefix[k] == items[k]);
        }
        lemma_group_decisions(prefix, deps);
        assert(drop_decision(items[items.len() - 1], deps) is Ok);
        assert forall|k: int| 0 <= k < items.len() implies group_decisions(items, deps)->Ok_0[k]
            == drop_decision(#[trigger] items[k], deps)->Ok_0 by {
            if k < items.len() - 1 {
                assert(prefix[k] == items[k]);
            }
        }
    }
}

/// A group of imports is dropped when every import in it is dropped, and
/// kept when every import in it is kept (and it has one at least).
pub proof fn lemma_group_follows_members(items: Seq<UseTreeView>, deps: Result<Seq<Seq<char>>, Seq<char>>)
    ensures
        (forall|k: int| 0 <= k < items.len() ==> drop_decision(#[trigger] items[k], deps) == Ok::<bool, Seq<char>>(true))
            ==> drop_decision(UseTreeView::Group(items), deps) == Ok::<bool, Seq<char>>(true),
        (items.len() > 0 && forall|k: int| 0 <= k < items.len() ==> drop_decision(#[trigger] items[k], deps) == Ok::<bool, Seq<char>>(false))
            ==> drop_decision(UseTreeView::Group(items), deps) == Ok::<bool, Seq<char>>(false),
{
    if forall|k: int| 0 <= k < items.len() ==> drop_decision(#[trigger] items[k], deps) == Ok::<bool, Seq<char>>(true) {
        lemma_group_decisions(items, deps);
        let bs = group_decisions(items, deps)->Ok_0;
        assert(!bs.contains(false)) by {
            if bs.contains(false) {
                let j = choose|j: int| 0 <= j < bs.len() && bs[j] == false;
                assert(drop_decision(items[j], deps) == Ok::<bool, Seq<char>>(true));
            }
        }
    }
    if items.len() > 0 && forall|k: int| 0 <= k < items.len() ==> drop_decision(#[trigger] items[k], deps) == Ok::<bool, Seq<char>>(false) {
        lemma_group_decisions(items, deps);
        let bs = group_decisions(items, deps)->Ok_0;
        assert(drop_decision(items[0], deps) == Ok::<bool, Seq<char>>(false));
        assert(bs[0] == false);
        assert(bs.contains(false));
        assert(!bs.contains(true)) by {
            if bs.contains(true) {
                let j = choose|j: int| 0 <= j < bs.len() && bs[j] == true;
                assert(drop_decision(items[j], deps) == Ok::<bool, Seq<char>>(false));
            }
        }
    }
}

/// An import from `weblab` is always dropped, whatever the crates weblab
/// provides (and even when they cannot be read).
pub proof fn lemma_weblab_imports_dropped(t: UseTreeView, deps: Result<Seq<Seq<char>>, Seq<char>>)
    requires
        ({
            ||| (t matches UseTreeView::Path(ident, _) && ident == "weblab"@)
            ||| (t matches UseTreeView::Name(ident) && ident == "weblab"@)
            ||| (t matches UseTreeView::Rename(ident, _) && ident == "weblab"@)
        }),
    ensures
        drop_decision(t, deps) == Ok::<bool, Seq<char>>(true),
{
}

/// Folding replaces items one for one: the expansion has as many items, in
/// each list, as the annotated module had.
pub proof fn lemma_fold_items_length(
    fa: FindAnnotatedView,
    s: Seq<ItemView>,
    deps: Result<Seq<Seq<char>>, Seq<char>>,
)
    ensures
        fold_items_spec(fa, s, deps).1.len() == s.len(),
    decreases s.len(),
{
    if s.len() > 0 {
        lemma_fold_items_length(fa, s.drop_last(), deps);
    }
}

/// Whether no item of `s` holds an import that weblab drops.
pub open spec fn clean_items(s: Seq<ItemView>, deps: Result<Seq<Seq<char>>, Seq<char>>) -> bool {
    forall|k: int| 0 <= k < s.len() ==> no_dropped_uses(#[trigger] s[k], deps)
}

/// Whether the items of a module (when it has a body) hold no import that
/// weblab drops.
pub open spec fn clean_mod(m: ModView, deps: Result<Seq<Seq<char>>, Seq<char>>) -> bool {
    match m.content {
        Some(c) => clean_items(c, deps),
        None => true,
    }
}

/// Whether the module a status holds is clean.
pub open spec fn clean_status(s: crate::annotations::StatusView, deps: Result<Seq<Seq<char>>, Seq<char>>) -> bool {
    match s {
        crate::annotations::StatusView::Certain(m) => clean_mod(m, deps),
        crate::annotations::StatusView::Maybe(m) => clean_mod(m, deps),
        crate::annotations::StatusView::Unknown => true,
    }
}

/// Whether every module recorded in the search is clean.
pub open spec fn records_clean(fa: FindAnnotatedView, deps: Result<Seq<Seq<char>>, Seq<char>>) -> bool {
    match fa {
        FindAnnotatedView::Reference { solution, test } => {
            &&& (solution matches Some(m) ==> clean_mod(m, deps))
            &&& (test matches Some(m) ==> clean_mod(m, deps))
        },
        FindAnnotatedView::Template { solution, test, library } => {
            &&& clean_status(solution, deps)
            &&& clean_status(test, deps)
            &&& (library matches Some(m) ==> clean_mod(m, deps))
        },
    }
}

/// Folding an item records only clean modules.
pub proof fn lemma_fold_records_clean(
    fa: FindAnnotatedView,
    item: ItemView,
    deps: Result<Seq<Seq<char>>, Seq<char>>,
)
    requires
        records_clean(fa, deps),
    ensures
        records_clean(fold_item_spec(fa, item, deps).0, deps),
    decreases item,
{
    match item {
        ItemView::Mod(m) => match crate::attrs::parse_attributes(m.attrs) {
            Err(_) => {},
            Ok((parsed, kept)) => {
                let (fa1, content) = match m.content {
                    Some(c) => {
                        lemma_fold_items_records_clean(fa, c, deps);
                        let (f, c2) = fold_items_spec(fa, c, deps);
                        (f, Some(c2))
                    },
                    None => (fa, None),
                };
                let folded = ModView { attrs: kept, content, ..m };
                let without = drop_use_spec(ItemView::Mod(folded), deps)->Mod_0;
                lemma_drop_use_complete(ItemView::Mod(folded), deps);
                assert(clean_mod(without, deps));
            },
        },
        ItemView::Other(o) => match crate::attrs::parse_attributes(o.attrs) {
            Err(_) => {},
            Ok(_) => lemma_fold_items_records_clean(fa, o.nested, deps),
        },
        _ => {},
    }
}

/// Folding a sequence of items records only clean modules.
pub proof fn lemma_fold_items_records_clean(
    fa: FindAnnotatedView,
    s: Seq<ItemView>,
    deps: Result<Seq<Seq<char>>, Seq<char>>,
)
    requires
        records_clean(fa, deps),
    ensures
        records_clean(fold_items_spec(fa, s, deps).0, deps),
    decreases s,
{
    if s.len() > 0 {
        lemma_fold_items_records_clean(fa, s.drop_last(), deps);
        let fa1 = fold_items_spec(fa, s.drop_last(), deps).0;
        lemma_fold_records_clean(fa1, s.last(), deps);
    }
}

/// The code an assignment hands to weblab (the spec test, the reference
/// solution, the templates and the library) holds no import that weblab
/// drops, such as an import of `weblab` itself.
pub proof fn lemma_assignment_has_no_dropped_imports(
    attributes: Seq<crate::attrs::AttrView>,
    item: Result<ModView, Seq<char>>,
    deps: Result<Seq<Seq<char>>, Seq<char>>,
)
    ensures
        crate::assignment::process_spec(attributes, item, deps) matches crate::assignment::ExpansionView::Assignment(a)
            ==> {
            &&& clean_items(a.test, deps)
            &&& clean_items(a.solution, deps)
            &&& (a.test_template matches Some(t) ==> clean_items(t, deps))
            &&& (a.solution_template matches Some(t) ==> clean_items(t, deps))
            &&& (a.library matches Some(t) ==> clean_items(t, deps))
        },
{
    match item {
        Ok(module) => {
            let bare = ModView { attrs: Seq::empty(), ..module };
            let r0 = crate::assignment::reference_start();
            let t0 = crate::assignment::template_start();
            match bare.content {
                Some(c) => {
                    lemma_fold_items_records_clean(r0, c, deps);
                    lemma_fold_items_records_clean(t0, c, deps);
                },
                None => {},
            }
        },
        Err(_) => {},
    }
}

/// A group of imports that mixes imports to drop and imports to keep (and
/// refuses none) is refused, whatever the order of its members.
pub proof fn lemma_mixed_group_refused(
    items: Seq<UseTreeView>,
    deps: Result<Seq<Seq<char>>, Seq<char>>,
    i: int,
    j: int,
)
    requires
        forall|k: int| 0 <= k < items.len() ==> drop_decision(#[trigger] items[k], deps) is Ok,
        0 <= i < items.len(),
        0 <= j < items.len(),
        drop_decision(items[i], deps) == Ok::<bool, Seq<char>>(true),
        drop_decision(items[j], deps) == Ok::<bool, Seq<char>>(false),
    ensures
        drop_decision(UseTreeView::Group(items), deps) == Err::<bool, Seq<char>>(
            "parts of this use are allowed on weblab and others are not."@,
        ),
{
    lemma_group_decisions(items, deps);
    let bs = group_decisions(items, deps)->Ok_0;
    assert(bs[i] == true);
    assert(bs[j] == false);
    assert(bs.contains(true));
    assert(bs.contains(false));
}

/// The decisions on a group's trees stop at the first refusal, with its
/// message.
proof fn lemma_group_decisions_first_refusal(
    items: Seq<UseTreeView>,
    deps: Result<Seq<Seq<char>>, Seq<char>>,
    i: int,
)
    requires
        0 <= i < items.len(),
        forall|k: int| 0 <= k < i ==> drop_decision(#[trigger] items[k], deps) is Ok,
        drop_decision(items[i], deps) is Err,
    ensures
        group_decisions(items, deps) == Err::<Seq<bool>, Seq<char>>(
            drop_decision(items[i], deps)->Err_0,
        ),
    decreases items.len(),
{
    let prefix = items.drop_last();
    if i == items.len() - 1 {
        assert forall|k: int| 0 <= k < prefix.len() implies drop_decision(#[trigger] prefix[k], deps) is Ok by {
            assert(prefix[k] == items[k]);
        }
        lemma_group_decisions(prefix, deps);
    } else {
        assert(prefix[i] == items[i]);
        assert forall|k: int| 0 <= k < i implies drop_decision(#[trigger] prefix[k], deps) is Ok by {
            assert(prefix[k] == items[k]);
        }
        lemma_group_decisions_first_refusal(prefix, deps, i);
    }
}

/// A refused member refuses its group with its own message, when the members
/// before it are not refused.
pub proof fn lemma_group_first_refusal(
    items: Seq<UseTreeView>,
    deps: Result<Seq<Seq<char>>, Seq<char>>,
    i: int,
)
    requires
        0 <= i < items.len(),
        forall|k: int| 0 <= k < i ==> drop_decision(#[trigger] items[k], deps) is Ok,
        drop_decision(items[i], deps) is Err,
    ensures
        drop_decision(UseTreeView::Group(items), deps) == drop_decision(items[i], deps),
{
    lemma_group_decisions_first_refusal(items, deps, i);
}

/// Dropping imports changes nothing in an item that holds no import to drop:
/// imports that are kept stay as they are, at any depth.
pub proof fn lemma_drop_use_identity(i: ItemView, deps: Result<Seq<Seq<char>>, Seq<char>>)
    requires
        no_dropped_uses(i, deps),
    ensures
        drop_use_spec(i, deps) == i,
    decreases i,
{
    match i {
        ItemView::Mod(m) => match m.content {
            Some(c) => {
                lemma_drop_uses_spec(c, deps);
                assert forall|k: int| 0 <= k < c.len() implies drop_uses_spec(c, deps)[k] == c[k] by {
                    lemma_drop_use_identity(c[k], deps);
                }
                assert(drop_uses_spec(c, deps) =~= c);
                assert(ModView { content: Some(c), ..m } == m);
            },
            None => {},
        },
        ItemView::Other(o) => {
            lemma_drop_uses_spec(o.nested, deps);
            assert forall|k: int| 0 <= k < o.nested.len() implies drop_uses_spec(o.nested, deps)[k]
                == o.nested[k] by {
                lemma_drop_use_identity(o.nested[k], deps);
            }
            assert(drop_uses_spec(o.nested, deps) =~= o.nested);
            assert(OtherView { nested: o.nested, ..o } == o);
        },
        _ => {},
    }
}

/// A `use` item is replaced by empty tokens exactly when its import is
/// dropped; otherwise it stays as it is.
pub proof fn lemma_drop_use_of_import(u: UseView, deps: Result<Seq<Seq<char>>, Seq<char>>)
    ensures
        drop_decision(u.tree, deps) == Ok::<bool, Seq<char>>(true) ==> drop_use_spec(
            ItemView::Use(u),
            deps,
        ) == ItemView::Verbatim(Seq::empty()),
        drop_decision(u.tree, deps) != Ok::<bool, Seq<char>>(true) ==> drop_use_spec(
            ItemView::Use(u),
            deps,
        ) == ItemView::Use(u),
{
    if drop_decision(u.tree, deps) != Ok::<bool, Seq<char>>(true) {
        lemma_drop_use_identity(ItemView::Use(u), deps);
    }
}

/// Whether an attribute stays on its item: it reads without error and is not
/// a weblab annotation (doc comments and attributes weblab leaves alone).
pub open spec fn stays_on_item(a: AttributeView) -> bool {
    a.status matches Ok(p) && !(p is Attr)
}

/// Reading attributes that are all well formed succeeds, and keeps on the
/// item exactly those that are not weblab annotations, in order.
pub proof fn lemma_parse_attributes_keeps(attrs: Seq<AttributeView>)
    requires
        forall|k: int| 0 <= k < attrs.len() ==> (#[trigger] attrs[k]).status is Ok,
    ensures
        parse_attributes(attrs) is Ok,
        parse_attributes(attrs)->Ok_0.1 == attrs.filter(|a: AttributeView| stays_on_item(a)),
    decreases attrs.len(),
{
    reveal(Seq::filter);
    if attrs.len() > 0 {
        let prefix = attrs.drop_last();
        assert forall|k: int| 0 <= k < prefix.len() implies (#[trigger] prefix[k]).status is Ok by {
            assert(prefix[k] == attrs[k]);
        }
        lemma_parse_attributes_keeps(prefix);
        assert(attrs[attrs.len() - 1].status is Ok);
    }
}

/// Reading attributes fails with the error of the first malformed one.
pub proof fn lemma_parse_attributes_first_error(attrs: Seq<AttributeView>, i: int)
    requires
        0 <= i < attrs.len(),
        forall|k: int| 0 <= k < i ==> (#[trigger] attrs[k]).status is Ok,
        attrs[i].status is Err,
    ensures
        parse_attributes(attrs) == Err::<(Seq<AttrView>, Seq<AttributeView>), Seq<char>>(
            attrs[i].status->Err_0,
        ),
    decreases attrs.len(),
{
    let prefix = attrs.drop_last();
    if i == attrs.len() - 1 {
        assert forall|k: int| 0 <= k < prefix.len() implies (#[trigger] prefix[k]).status is Ok by {
            assert(prefix[k] == attrs[k]);
        }
        lemma_parse_attributes_keeps(prefix);
    } else {
        assert(prefix[i] == attrs[i]);
        assert forall|k: int| 0 <= k < i implies (#[trigger] prefix[k]).status is Ok by {
            assert(prefix[k] == attrs[k]);
        }
        lemma_parse_attributes_first_error(prefix, i);
    }
}

/// Whether all the attributes read without error.
pub open spec fn well_formed_attrs(attrs: Seq<AttributeView>) -> bool {
    forall|k: int| 0 <= k < attrs.len() ==> (#[trigger] attrs[k]).status is Ok
}

/// Folding an item takes only the weblab annotations out of it: a module,
/// `use` item, macro or other item that stays in the expansion keeps its
/// other attributes and its doc comments, in order. A module stays a module
/// or becomes a compile error; any other item keeps its kind.
pub proof fn lemma_fold_keeps_plain_attributes(
    fa: FindAnnotatedView,
    item: ItemView,
    deps: Result<Seq<Seq<char>>, Seq<char>>,
)
    ensures
        item is Mod && well_formed_attrs(item->Mod_0.attrs) ==> {
            let m = item->Mod_0;
            let r = fold_item_spec(fa, item, deps).1;
            &&& (r is Mod || r is CompileError)
            &&& (r is Mod ==> r->Mod_0.attrs == m.attrs.filter(|a: AttributeView| stays_on_item(a))
                && r->Mod_0.ident == m.ident && r->Mod_0.head == m.head)
        },
        item is Other && well_formed_attrs(item->Other_0.attrs) ==> {
            let o = item->Other_0;
            let r = fold_item_spec(fa, item, deps).1;
            &&& r is Other
            &&& r->Other_0.attrs == o.attrs.filter(|a: AttributeView| stays_on_item(a))
            &&& r->Other_0.text == o.text
        },
        item is Use && well_formed_attrs(item->Use_0.attrs) ==> {
            let u = item->Use_0;
            let r = fold_item_spec(fa, item, deps).1;
            &&& (r is Use || r is CompileError)
            &&& (r is Use ==> r->Use_0.attrs == u.attrs.filter(|a: AttributeView| stays_on_item(a))
                && r->Use_0.tree == u.tree && r->Use_0.body == u.body)
        },
        item is Macro && well_formed_attrs(item->Macro_0.attrs) ==> {
            let mc = item->Macro_0;
            let r = fold_item_spec(fa, item, deps).1;
            &&& (r is Macro || r is Verbatim)
            &&& (r is Macro ==> r->Macro_0.attrs == mc.attrs.filter(
                |a: AttributeView| stays_on_item(a),
            ) && r->Macro_0.body == mc.body)
        },
{
    match item {
        ItemView::Mod(m) => if well_formed_attrs(m.attrs) {
            lemma_parse_attributes_keeps(m.attrs);
        },
        ItemView::Other(o) => if well_formed_attrs(o.attrs) {
            lemma_parse_attributes_keeps(o.attrs);
        },
        ItemView::Use(u) => if well_formed_attrs(u.attrs) {
            lemma_parse_attributes_keeps(u.attrs);
        },
        ItemView::Macro(mc) => if well_formed_attrs(mc.attrs) {
            lemma_parse_attributes_keeps(mc.attrs);
        },
        _ => {},
    }
}

/// Folding a sequence gives, at each position, the fold of the item there
/// in the search as the items before it left it.
pub proof fn lemma_fold_items_index(
    fa: FindAnnotatedView,
    s: Seq<ItemView>,
    deps: Result<Seq<Seq<char>>, Seq<char>>,
    k: int,
)
    requires
        0 <= k < s.len(),
    ensures
        fold_items_spec(fa, s, deps).1.len() == s.len(),
        fold_items_spec(fa, s, deps).1[k] == fold_item_spec(
            fold_items_spec(fa, s.take(k), deps).0,
            s[k],
            deps,
        ).1,
    decreases s.len(),
{
    lemma_fold_items_length(fa, s, deps);
    lemma_fold_items_length(fa, s.drop_last(), deps);
    if k == s.len() - 1 {
        assert(s.take(k) =~= s.drop_last());
    } else {
        assert(s.drop_last().take(k) =~= s.take(k));
        assert(s.drop_last()[k] == s[k]);
        lemma_fold_items_index(fa, s.drop_last(), deps, k);
    }
}

/// The search for the reference before any item.
pub open spec fn empty_reference_search() -> FindAnnotatedView {
    FindAnnotatedView::Reference { solution: None, test: None }
}

/// In the reference, a `solution_only!` item gives its content and a
/// `template_only!` item gives nothing, wherever it stands among the items.
pub proof fn lemma_reference_fold_of_macros(
    s: Seq<ItemView>,
    deps: Result<Seq<Seq<char>>, Seq<char>>,
    k: int,
)
    requires
        0 <= k < s.len(),
        s[k] is Macro,
        well_formed_attrs(s[k]->Macro_0.attrs),
    ensures
        s[k]->Macro_0.ident == Some("solution_only"@) ==> fold_items_spec(
            empty_reference_search(),
            s,
            deps,
        ).1[k] == ItemView::Verbatim(s[k]->Macro_0.tokens),
        s[k]->Macro_0.ident == Some("template_only"@) ==> fold_items_spec(
            empty_reference_search(),
            s,
            deps,
        ).1[k] == ItemView::Verbatim(Seq::empty()),
{
    lemma_fold_items_index(empty_reference_search(), s, deps, k);
    lemma_fold_items_keeps_records(empty_reference_search(), s.take(k), deps);
    lemma_parse_attributes_keeps(s[k]->Macro_0.attrs);
    reveal_strlit("solution_only");
    reveal_strlit("template_only");
    let st = fold_items_spec(empty_reference_search(), s.take(k), deps).0;
    assert(st is Reference);
    assert("solution_only"@ != "template_only"@) by {
        assert("solution_only"@[0] != "template_only"@[0]);
    }
    assert(parse_attributes(s[k]->Macro_0.attrs) is Ok);
}

/// The doc comments among annotations, each trimmed: exactly one line for
/// each doc annotation, in order, empty ones included.
pub open spec fn doc_lines(attrs: Seq<AttrView>) -> Seq<Seq<char>> {
    attrs.filter(|a: AttrView| a is Doc).map_values(|a: AttrView| crate::text::trim_spec(a->Doc_0))
}

/// The doc texts of the assignment are the doc annotations, in order.
proof fn lemma_doc_texts_filter(attrs: Seq<AttrView>)
    ensures
        crate::assignment::doc_texts(attrs).map_values(|t: Seq<char>| crate::text::trim_spec(t))
            == doc_lines(attrs),
    decreases attrs.len(),
{
    reveal(Seq::filter);
    if attrs.len() > 0 {
        lemma_doc_texts_filter(attrs.drop_last());
        let f = attrs.drop_last().filter(|a: AttrView| a is Doc);
        if attrs.last() is Doc {
            assert(f.push(attrs.last()).map_values(|a: AttrView| crate::text::trim_spec(a->Doc_0))
                =~= f.map_values(|a: AttrView| crate::text::trim_spec(a->Doc_0)).push(
                crate::text::trim_spec(attrs.last()->Doc_0),
            ));
            assert(crate::assignment::doc_texts(attrs.drop_last()).push(attrs.last()->Doc_0).map_values(
                |t: Seq<char>| crate::text::trim_spec(t),
            ) =~= crate::assignment::doc_texts(attrs.drop_last()).map_values(
                |t: Seq<char>| crate::text::trim_spec(t),
            ).push(crate::text::trim_spec(attrs.last()->Doc_0)));
        }
    } else {
        assert(crate::assignment::doc_texts(attrs).map_values(|t: Seq<char>| crate::text::trim_spec(t))
            =~= doc_lines(attrs));
    }
}

/// The total length of `parts`, each followed by `sep`.
pub open spec fn parts_len(parts: Seq<Seq<char>>, sep: Seq<char>) -> int
    decreases parts.len(),
{
    if parts.len() == 0 {
        0
    } else {
        parts_len(parts.drop_last(), sep) + parts.last().len() + sep.len()
    }
}

/// Parts and separators have a length of zero or more.
proof fn lemma_parts_len_bounds(parts: Seq<Seq<char>>, sep: Seq<char>)
    ensures
        parts_len(parts, sep) >= 0,
        parts.len() > 0 ==> parts_len(parts, sep) >= sep.len(),
    decreases parts.len(),
{
    if parts.len() > 0 {
        lemma_parts_len_bounds(parts.drop_last(), sep);
    }
}

/// Joining places every part, in order, with `sep` between each two: part
/// `k` starts after the parts before it and their separators, is preceded
/// by `sep` when it is not the first, and nothing else is in the text.
pub proof fn lemma_join_layout(parts: Seq<Seq<char>>, sep: Seq<char>, k: int)
    requires
        0 <= k < parts.len(),
    ensures
        crate::text::join_spec(parts, sep).len() + sep.len() == parts_len(parts, sep),
        parts_len(parts.take(k), sep) + parts[k].len() <= crate::text::join_spec(parts, sep).len(),
        crate::text::join_spec(parts, sep).subrange(
            parts_len(parts.take(k), sep),
            parts_len(parts.take(k), sep) + parts[k].len(),
        ) == parts[k],
        k > 0 ==> crate::text::join_spec(parts, sep).subrange(
            parts_len(parts.take(k), sep) - sep.len(),
            parts_len(parts.take(k), sep),
        ) == sep,
    decreases parts.len(),
{
    let j = crate::text::join_spec(parts, sep);
    if parts.len() == 1 {
        assert(parts.take(0) =~= Seq::<Seq<char>>::empty());
        assert(parts.drop_last() =~= Seq::<Seq<char>>::empty());
        assert(j.subrange(0, parts[0].len() as int) =~= parts[0]);
    } else {
        let p = parts.drop_last();
        lemma_join_layout(p, sep, 0);
        let jp = crate::text::join_spec(p, sep);
        assert(j == jp + sep + parts.last());
        if k == parts.len() - 1 {
            assert(parts.take(k) =~= p);
            assert(j.subrange((jp.len() + sep.len()) as int, j.len() as int) =~= parts[k]);
            assert(j.subrange(jp.len() as int, (jp.len() + sep.len()) as int) =~= sep);
        } else {
            lemma_join_layout(p, sep, k);
            assert(p.take(k) =~= parts.take(k));
            assert(p[k] == parts[k]);
            let o = parts_len(parts.take(k), sep);
            lemma_parts_len_bounds(parts.take(k), sep);
            assert(j.subrange(o, o + parts[k].len()) =~= jp.subrange(o, o + parts[k].len()));
            if k > 0 {
                assert(j.subrange(o - sep.len(), o) =~= jp.subrange(o - sep.len(), o));
            }
        }
    }
}

/// What a programming assignment expands to: the module left in the
/// expansion is the module folded by the reference search, without its
/// attributes (so `solution_only!` content stays and `template_only!`
/// content goes, wherever it stands); the text is one line per doc
/// annotation, trimmed, in order, joined by newlines.
pub proof fn lemma_assignment_expansion(
    attributes: Seq<AttrView>,
    item: Result<ModView, Seq<char>>,
    deps: Result<Seq<Seq<char>>, Seq<char>>,
)
    ensures
        crate::assignment::process_spec(attributes, item, deps) is Assignment ==> {
            let module = item->Ok_0;
            let a = crate::assignment::process_spec(attributes, item, deps)->Assignment_0;
            let bare = ModView { attrs: Seq::empty(), ..module };
            let attrs = attributes + parse_attributes(module.attrs)->Ok_0.0;
            &&& item is Ok
            &&& a.module == fold_mod_spec(empty_reference_search(), bare, deps).1
            &&& a.module.attrs.len() == 0
            &&& a.module.ident == module.ident
            &&& a.module.head == module.head
            &&& (module.content is Some <==> a.module.content is Some)
            &&& (module.content is Some ==> {
                let c = module.content->Some_0;
                let r = a.module.content->Some_0;
                &&& r.len() == c.len()
                &&& forall|k: int|
                    0 <= k < c.len() && #[trigger] c[k] is Macro && well_formed_attrs(c[k]->Macro_0.attrs)
                        ==> {
                        &&& (c[k]->Macro_0.ident == Some("solution_only"@) ==> r[k]
                            == ItemView::Verbatim(c[k]->Macro_0.tokens))
                        &&& (c[k]->Macro_0.ident == Some("template_only"@) ==> r[k]
                            == ItemView::Verbatim(Seq::empty()))
                    }
            })
            &&& a.assignment_text == crate::text::join_spec(doc_lines(attrs), "\n"@)
        },
{
    if crate::assignment::process_spec(attributes, item, deps) is Assignment {
        let module = item->Ok_0;
        let bare = ModView { attrs: Seq::empty(), ..module };
        let attrs = attributes + parse_attributes(module.attrs)->Ok_0.0;
        lemma_doc_texts_filter(attrs);
        match module.content {
            Some(c) => {
                lemma_fold_items_length(empty_reference_search(), c, deps);
                assert forall|k: int|
                    0 <= k < c.len() && #[trigger] c[k] is Macro && well_formed_attrs(c[k]->Macro_0.attrs)
                    implies {
                    let r = fold_items_spec(empty_reference_search(), c, deps).1;
                    &&& (c[k]->Macro_0.ident == Some("solution_only"@) ==> r[k] == ItemView::Verbatim(
                        c[k]->Macro_0.tokens,
                    ))
                    &&& (c[k]->Macro_0.ident == Some("template_only"@) ==> r[k] == ItemView::Verbatim(
                        Seq::empty(),
                    ))
                } by {
                    lemma_reference_fold_of_macros(c, deps, k);
                }
            },
            None => {},
        }
    }
}

/// The title annotations among `attrs`, in order.
pub open spec fn title_annotations(attrs: Seq<AttrView>) -> Seq<AttrView> {
    attrs.filter(|a: AttrView| a is Title)
}

/// The titles of the assignment are the title annotations, in order.
proof fn lemma_titles_filter(attrs: Seq<AttrView>)
    ensures
        crate::assignment::titles(attrs) == title_annotations(attrs).map_values(
            |a: AttrView| a->Title_0,
        ),
    decreases attrs.len(),
{
    reveal(Seq::filter);
    if attrs.len() > 0 {
        lemma_titles_filter(attrs.drop_last());
        let f = attrs.drop_last().filter(|a: AttrView| a is Title);
        if attrs.last() is Title {
            assert(f.push(attrs.last()).map_values(|a: AttrView| a->Title_0) =~= f.map_values(
                |a: AttrView| a->Title_0,
            ).push(attrs.last()->Title_0));
        }
    } else {
        assert(crate::assignment::titles(attrs) =~= title_annotations(attrs).map_values(
            |a: AttrView| a->Title_0,
        ));
    }
}

/// An assignment has at most one title annotation, given after
/// `programming_assignment` or on the module: two or more are refused; with
/// one, it is the title; with none, the module's name is.
pub proof fn lemma_assignment_title(
    attributes: Seq<AttrView>,
    module: ModView,
    deps: Result<Seq<Seq<char>>, Seq<char>>,
)
    requires
        parse_attributes(module.attrs) is Ok,
    ensures
        ({
            let attrs = attributes + parse_attributes(module.attrs)->Ok_0.0;
            let r = crate::assignment::process_spec(attributes, Ok(module), deps);
            &&& title_annotations(attrs).len() > 1 ==> r == crate::assignment::ExpansionView::CompileError(
                "assignment has more than one title"@,
            )
            &&& r is Assignment && title_annotations(attrs).len() == 1 ==> r->Assignment_0.title
                == title_annotations(attrs)[0]->Title_0
            &&& r is Assignment && title_annotations(attrs).len() == 0 ==> r->Assignment_0.title
                == module.ident
        }),
{
    let attrs = attributes + parse_attributes(module.attrs)->Ok_0.0;
    lemma_titles_filter(attrs);
}

/// The decision on an import whose path starts at one name: `weblab` is
/// dropped; a crate weblab provides and `super` are kept; `crate` and any
/// other crate are refused with their messages; and when the provided
/// crates cannot be read, every import but `weblab`'s is refused with that
/// error.
pub proof fn lemma_import_of_name(ident: Seq<char>, deps: Result<Seq<Seq<char>>, Seq<char>>)
    ensures
        ident != "weblab"@ && deps is Err ==> drop_decision(UseTreeView::Name(ident), deps) == Err::<
            bool,
            Seq<char>,
        >(deps->Err_0),
        ident != "weblab"@ && deps is Ok && deps->Ok_0.contains(ident) ==> drop_decision(
            UseTreeView::Name(ident),
            deps,
        ) == Ok::<bool, Seq<char>>(false),
        ident == "super"@ && deps is Ok ==> drop_decision(UseTreeView::Name(ident), deps) == Ok::<
            bool,
            Seq<char>,
        >(false),
        ident == "crate"@ && deps is Ok && !deps->Ok_0.contains(ident) ==> drop_decision(
            UseTreeView::Name(ident),
            deps,
        ) == Err::<bool, Seq<char>>(
            "crate-relative imports break on weblab since weblab's generated project structure will be different to this one. Use relative imports (with super)"@,
        ),
        ident != "weblab"@ && ident != "crate"@ && ident != "super"@ && deps is Ok
            && !deps->Ok_0.contains(ident) ==> drop_decision(UseTreeView::Name(ident), deps) == Err::<
            bool,
            Seq<char>,
        >(ident + " cannot be imported in weblab and is therefore forbidden"@),
{
    reveal_strlit("weblab");
    reveal_strlit("super");
    reveal_strlit("crate");
    assert("super"@ != "weblab"@) by {
        assert("super"@[0] != "weblab"@[0]);
    }
    assert("crate"@ != "weblab"@) by {
        assert("crate"@[0] != "weblab"@[0]);
    }
    assert("crate"@ != "super"@) by {
        assert("crate"@[0] != "super"@[0]);
    }
}

/// A second module annotated as the reference solution or spec test, once
/// one is recorded, becomes a compile error and leaves the search as it was
/// after the module's own items.
pub proof fn lemma_second_reference_module_refused(
    fa: FindAnnotatedView,
    m: ModView,
    deps: Result<Seq<Seq<char>>, Seq<char>>,
)
    requires
        fa is Reference,
        well_formed_attrs(m.attrs),
    ensures
        fa->Reference_solution is Some && parse_attributes(m.attrs)->Ok_0.0.contains(AttrView::Solution)
            ==> fold_item_spec(fa, ItemView::Mod(m), deps).1 == (ItemView::CompileError {
            message: "multiple reference solution blocks defined"@,
            statement: false,
        }) && fold_item_spec(fa, ItemView::Mod(m), deps).0->Reference_solution == fa->Reference_solution,
        fa->Reference_test is Some && !parse_attributes(m.attrs)->Ok_0.0.contains(AttrView::Solution)
            && parse_attributes(m.attrs)->Ok_0.0.contains(AttrView::Test) ==> fold_item_spec(
            fa,
            ItemView::Mod(m),
            deps,
        ).1 == (ItemView::CompileError {
            message: "multiple spec test blocks defined"@,
            statement: false,
        }) && fold_item_spec(fa, ItemView::Mod(m), deps).0->Reference_test == fa->Reference_test,
{
    lemma_parse_attributes_keeps(m.attrs);
    match m.content {
        Some(c) => lemma_fold_items_keeps_records(fa, c, deps),
        None => {},
    }
}

} // verus!
