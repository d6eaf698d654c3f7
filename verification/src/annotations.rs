use vstd::prelude::*;

use crate::attrs::{attrs_view, parse_attributes, split_attributes, Attr, AttrView};
use crate::imports::{
    all_uses_valid, deps_view, drop_decision, drop_use_mod, drop_use_spec, should_drop_with,
    uses_valid,
};
use crate::items::{
    clone_attributes, clone_item, clone_items, clone_strings, clone_use_tree, item_view,
    items_view, lemma_items_view, Item, ItemMacro, ItemMod, ItemOther, ItemUse, ItemView,
    MacroView, ModView, OtherView, UseView,
};
use crate::text::equals_str;

verus! {

broadcast use vstd::std_specs::vec::axiom_vec_index_decreases;

/// How sure the search for a template is of the module it found: `Certain`
/// when it was marked as a template, `Maybe` when it was marked as the
/// reference (and stands in for a template until one is marked).
#[derive(Debug)]
pub enum Status {
    Certain(ItemMod),
    Maybe(ItemMod),
    Unknown,
}

/// The mathematical value of a [`Status`].
pub enum StatusView {
    Certain(ModView),
    Maybe(ModView),
    Unknown,
}

impl View for Status {
    type V = StatusView;

    open spec fn view(&self) -> StatusView {
        match self {
            Status::Certain(m) => StatusView::Certain(m@),
            Status::Maybe(m) => StatusView::Maybe(m@),
            Status::Unknown => StatusView::Unknown,
        }
    }
}

/// The search for the annotated modules of an assignment, done once for the
/// reference (the solution and the spec test) and once for the template
/// (the solution and test templates, and the library).
#[derive(Debug)]
#[allow(inconsistent_fields)]
pub enum FindAnnotated {
    Template { solution: Status, test: Status, library: Option<ItemMod> },
    Reference { solution: Option<ItemMod>, test: Option<ItemMod> },
}

/// The mathematical value of a [`FindAnnotated`].
#[allow(inconsistent_fields)]
pub enum FindAnnotatedView {
    Template { solution: StatusView, test: StatusView, library: Option<ModView> },
    Reference { solution: Option<ModView>, test: Option<ModView> },
}

/// The value of an optional module.
pub open spec fn opt_mod_view(m: Option<ItemMod>) -> Option<ModView> {
    match m {
        Some(m) => Some(m@),
        None => None,
    }
}

/// The value of an optional list of items.
pub open spec fn opt_items_view(v: Option<Vec<Item>>) -> Option<Seq<ItemView>> {
    match v {
        Some(v) => Some(items_view(v@)),
        None => None,
    }
}

impl View for FindAnnotated {
    type V = FindAnnotatedView;

    open spec fn view(&self) -> FindAnnotatedView {
        match self {
            FindAnnotated::Template { solution, test, library } => FindAnnotatedView::Template {
                solution: solution@,
                test: test@,
                library: opt_mod_view(*library),
            },
            FindAnnotated::Reference { solution, test } => FindAnnotatedView::Reference {
                solution: opt_mod_view(*solution),
                test: opt_mod_view(*test),
            },
        }
    }
}

/// The items of the module a status holds.
pub open spec fn status_items(s: StatusView) -> Option<Seq<ItemView>> {
    match s {
        StatusView::Certain(m) => m.content,
        StatusView::Maybe(m) => m.content,
        StatusView::Unknown => None,
    }
}

/// The items of an optional module.
pub open spec fn module_items(m: Option<ModView>) -> Option<Seq<ItemView>> {
    match m {
        Some(m) => m.content,
        None => None,
    }
}

/// The items of the test module found (spec test or test template).
pub open spec fn test_items(fa: FindAnnotatedView) -> Option<Seq<ItemView>> {
    match fa {
        FindAnnotatedView::Template { test, .. } => status_items(test),
        FindAnnotatedView::Reference { test, .. } => module_items(test),
    }
}

/// The items of the solution module found (reference or template).
pub open spec fn solution_items(fa: FindAnnotatedView) -> Option<Seq<ItemView>> {
    match fa {
        FindAnnotatedView::Template { solution, .. } => status_items(solution),
        FindAnnotatedView::Reference { solution, .. } => module_items(solution),
    }
}

/// The items of the library module found (only a template search has one).
pub open spec fn library_items(fa: FindAnnotatedView) -> Option<Seq<ItemView>> {
    match fa {
        FindAnnotatedView::Template { library, .. } => module_items(library),
        FindAnnotatedView::Reference { .. } => None,
    }
}

/// The message for a second solution (template) module in a template search.
pub open spec fn multiple_solution_templates_message() -> Seq<char> {
    "multiple solution template blocks defined"@
}

/// The message for a second test (template) module in a template search.
pub open spec fn multiple_test_templates_message() -> Seq<char> {
    "multiple test template blocks defined"@
}

/// The message for a second library module.
pub open spec fn multiple_libraries_message() -> Seq<char> {
    "multiple library blocks defined"@
}

/// The message for a second reference solution module.
pub open spec fn multiple_reference_solutions_message() -> Seq<char> {
    "multiple reference solution blocks defined"@
}

/// The message for a second spec test module.
pub open spec fn multiple_spec_tests_message() -> Seq<char> {
    "multiple spec test blocks defined"@
}

/// Records module `m`, whose annotations are `parsed`, in the search; `Err`
/// with a message when it clashes with a module already recorded. The first
/// of the annotations below that `parsed` holds decides: for a template
/// search `solution_template`, `solution`, `test_template`, `test`,
/// `library`; for a reference search `solution`, `test`.
pub open spec fn register_spec(fa: FindAnnotatedView, parsed: Seq<AttrView>, m: ModView) -> Result<
    FindAnnotatedView,
    Seq<char>,
> {
    match fa {
        FindAnnotatedView::Template { solution, test, library } => {
            if parsed.contains(AttrView::SolutionTemplate) {
                match solution {
                    StatusView::Certain(_) => Err(multiple_solution_templates_message()),
                    _ => Ok(
                        FindAnnotatedView::Template {
                            solution: StatusView::Certain(m),
                            test,
                            library,
                        },
                    ),
                }
            } else if parsed.contains(AttrView::Solution) {
                match solution {
                    StatusView::Unknown => Ok(
                        FindAnnotatedView::Template { solution: StatusView::Maybe(m), test, library },
                    ),
                    _ => Err(multiple_solution_templates_message()),
                }
            } else if parsed.contains(AttrView::TestTemplate) {
                match test {
                    StatusView::Certain(_) => Err(multiple_test_templates_message()),
                    _ => Ok(
                        FindAnnotatedView::Template { solution, test: StatusView::Certain(m), library },
                    ),
                }
            } else if parsed.contains(AttrView::Test) {
                match test {
                    StatusView::Unknown => Ok(
                        FindAnnotatedView::Template { solution, test: StatusView::Maybe(m), library },
                    ),
                    _ => Err(multiple_test_templates_message()),
                }
            } else if parsed.contains(AttrView::Library) {
                match library {
                    None => Ok(FindAnnotatedView::Template { solution, test, library: Some(m) }),
                    Some(_) => Err(multiple_libraries_message()),
                }
            } else {
                Ok(fa)
            }
        },
        FindAnnotatedView::Reference { solution, test } => {
            if parsed.contains(AttrView::Solution) {
                match solution {
                    None => Ok(FindAnnotatedView::Reference { solution: Some(m), test }),
                    Some(_) => Err(multiple_reference_solutions_message()),
                }
            } else if parsed.contains(AttrView::Test) {
                match test {
                    None => Ok(FindAnnotatedView::Reference { solution, test: Some(m) }),
                    Some(_) => Err(multiple_spec_tests_message()),
                }
            } else {
                Ok(fa)
            }
        },
    }
}

/// Whether `a` and `b` are the same annotation.
fn same_attr(a: &Attr, b: &Attr) -> (r: bool)
    ensures
        r == (a@ == b@),
{
    match (a, b) {
        (Attr::ProgrammingAssignment, Attr::ProgrammingAssignment) => true,
        (Attr::Solution, Attr::Solution) => true,
        (Attr::SolutionTemplate, Attr::SolutionTemplate) => true,
        (Attr::Test, Attr::Test) => true,
        (Attr::TestTemplate, Attr::TestTemplate) => true,
        (Attr::Library, Attr::Library) => true,
        (Attr::Title(x), Attr::Title(y)) => *x == *y,
        (Attr::Doc(x), Attr::Doc(y)) => *x == *y,
        _ => false,
    }
}

/// Whether `parsed` holds annotation `a`.
pub fn has_attr(parsed: &Vec<Attr>, a: &Attr) -> (r: bool)
    ensures
        r == attrs_view(parsed@).contains(a@),
{
    let mut k: usize = 0;
    while k < parsed.len()
        invariant
            k <= parsed.len(),
            forall|j: int| 0 <= j < k ==> parsed@[j]@ != a@,
        decreases parsed.len() - k,
    {
        if same_attr(&parsed[k], a) {
            assert(attrs_view(parsed@)[k as int] == a@);
            return true;
        }
        k = k + 1;
    }
    proof {
        if attrs_view(parsed@).contains(a@) {
            let j = choose|j: int| 0 <= j < parsed@.len() && attrs_view(parsed@)[j] == a@;
            assert(parsed@[j]@ == a@);
        }
    }
    false
}

/// The item that stands for an item of a kind weblab does not handle: the
/// tokens of one string literal, whose text is the invocation that would
/// report the item as not implemented.
pub open spec fn not_implemented_item() -> ItemView {
    ItemView::Verbatim(NOT_IMPLEMENTED@)
}

/// The tokens of the string literal that stands for an unhandled item.
pub const NOT_IMPLEMENTED: &'static str = "\"compile_error!(\\\"not implemented\\\")\"";

/// Folds `item` in the search `fa`: the weblab annotations of each item are
/// taken out of it (a malformed one replaces the item by its error); a
/// `template_only!` invocation is removed in the reference and replaced by
/// its content in the template, a `solution_only!` one the other way round;
/// a refused `use` item becomes a compile error; the items inside modules and
/// other items are folded first, in order; then an annotated module is
/// recorded in the search (as weblab receives it, with dropped imports
/// removed), or replaced by a compile error when it clashes with one already
/// recorded. Gives the search after the item, and the item as it stays in
/// the expansion.
pub open spec fn fold_item_spec(
    fa: FindAnnotatedView,
    item: ItemView,
    deps: Result<Seq<Seq<char>>, Seq<char>>,
) -> (FindAnnotatedView, ItemView)
    decreases item,
{
    match item {
        ItemView::Unsupported(_) => (fa, not_implemented_item()),
        ItemView::Verbatim(_) => (fa, item),
        ItemView::CompileError { .. } => (fa, item),
        ItemView::Mod(m) => match parse_attributes(m.attrs) {
            Err(e) => (fa, ItemView::Verbatim(e)),
            Ok((parsed, kept)) => {
                let (fa1, content) = match m.content {
                    Some(c) => {
                        let (f, c2) = fold_items_spec(fa, c, deps);
                        (f, Some(c2))
                    },
                    None => (fa, None),
                };
                let folded = ModView { attrs: kept, content, ..m };
                match register_spec(fa1, parsed, drop_use_spec(ItemView::Mod(folded), deps)->Mod_0) {
                    Err(message) => (fa1, ItemView::CompileError { message, statement: false }),
                    Ok(fa2) => (fa2, ItemView::Mod(folded)),
                }
            },
        },
        ItemView::Use(u) => match parse_attributes(u.attrs) {
            Err(e) => (fa, ItemView::Verbatim(e)),
            Ok((_, kept)) => match drop_decision(u.tree, deps) {
                Err(message) => (fa, ItemView::CompileError { message, statement: true }),
                Ok(_) => (fa, ItemView::Use(UseView { attrs: kept, ..u })),
            },
        },
        ItemView::Macro(mc) => match parse_attributes(mc.attrs) {
            Err(e) => (fa, ItemView::Verbatim(e)),
            Ok((_, kept)) => if mc.ident == Some("template_only"@) {
                if fa is Reference {
                    (fa, ItemView::Verbatim(Seq::empty()))
                } else {
                    (fa, ItemView::Verbatim(mc.tokens))
                }
            } else if mc.ident == Some("solution_only"@) {
                if fa is Template {
                    (fa, ItemView::Verbatim(Seq::empty()))
                } else {
                    (fa, ItemView::Verbatim(mc.tokens))
                }
            } else {
                (fa, ItemView::Macro(MacroView { attrs: kept, ..mc }))
            },
        },
        ItemView::Other(o) => match parse_attributes(o.attrs) {
            Err(e) => (fa, ItemView::Verbatim(e)),
            Ok((_, kept)) => {
                let (fa1, nested) = fold_items_spec(fa, o.nested, deps);
                (fa1, ItemView::Other(OtherView { attrs: kept, nested, ..o }))
            },
        },
    }
}

/// Folds a sequence of items in order, the search passing from each to the
/// next.
pub open spec fn fold_items_spec(
    fa: FindAnnotatedView,
    s: Seq<ItemView>,
    deps: Result<Seq<Seq<char>>, Seq<char>>,
) -> (FindAnnotatedView, Seq<ItemView>)
    decreases s,
{
    if s.len() == 0 {
        (fa, Seq::empty())
    } else {
        let (fa1, prefix) = fold_items_spec(fa, s.drop_last(), deps);
        let (fa2, last) = fold_item_spec(fa1, s.last(), deps);
        (fa2, prefix.push(last))
    }
}

/// Records `m` in `fa` (see [`register_spec`]); the message of the clash
/// when there is one, and then `fa` unchanged.
fn register_into(fa: FindAnnotated, parsed: &Vec<Attr>, m: ItemMod) -> (r: (FindAnnotated, Option<String>))
    ensures
        match register_spec(fa@, attrs_view(parsed@), m@) {
            Ok(f) => r.1 is None && r.0@ == f,
            Err(e) => r.1 is Some && r.1->Some_0@ == e && r.0@ == fa@,
        },
{
    match fa {
        FindAnnotated::Template { solution, test, library } => {
            if has_attr(parsed, &Attr::SolutionTemplate) {
                match solution {
                    Status::Certain(x) => (
                        FindAnnotated::Template { solution: Status::Certain(x), test, library },
                        Some(String::from_str("multiple solution template blocks defined")),
                    ),
                    _ => (FindAnnotated::Template { solution: Status::Certain(m), test, library }, None),
                }
            } else if has_attr(parsed, &Attr::Solution) {
                match solution {
                    Status::Unknown => (
                        FindAnnotated::Template { solution: Status::Maybe(m), test, library },
                        None,
                    ),
                    _ => (
                        FindAnnotated::Template { solution, test, library },
                        Some(String::from_str("multiple solution template blocks defined")),
                    ),
                }
            } else if has_attr(parsed, &Attr::TestTemplate) {
                match test {
                    Status::Certain(x) => (
                        FindAnnotated::Template { solution, test: Status::Certain(x), library },
                        Some(String::from_str("multiple test template blocks defined")),
                    ),
                    _ => (FindAnnotated::Template { solution, test: Status::Certain(m), library }, None),
                }
            } else if has_attr(parsed, &Attr::Test) {
                match test {
                    Status::Unknown => (
                        FindAnnotated::Template { solution, test: Status::Maybe(m), library },
                        None,
                    ),
                    _ => (
                        FindAnnotated::Template { solution, test, library },
                        Some(String::from_str("multiple test template blocks defined")),
                    ),
                }
            } else if has_attr(parsed, &Attr::Library) {
                match library {
                    None => (FindAnnotated::Template { solution, test, library: Some(m) }, None),
                    Some(x) => (
                        FindAnnotated::Template { solution, test, library: Some(x) },
                        Some(String::from_str("multiple library blocks defined")),
                    ),
                }
            } else {
                (FindAnnotated::Template { solution, test, library }, None)
            }
        },
        FindAnnotated::Reference { solution, test } => {
            if has_attr(parsed, &Attr::Solution) {
                match solution {
                    None => (FindAnnotated::Reference { solution: Some(m), test }, None),
                    Some(x) => (
                        FindAnnotated::Reference { solution: Some(x), test },
                        Some(String::from_str("multiple reference solution blocks defined")),
                    ),
                }
            } else if has_attr(parsed, &Attr::Test) {
                match test {
                    None => (FindAnnotated::Reference { solution, test: Some(m) }, None),
                    Some(x) => (
                        FindAnnotated::Reference { solution, test: Some(x) },
                        Some(String::from_str("multiple spec test blocks defined")),
                    ),
                }
            } else {
                (FindAnnotated::Reference { solution, test }, None)
            }
        },
    }
}

impl FindAnnotated {
    /// The items of the test module found: the spec test for a reference
    /// search, the test template (or else the test) for a template search.
    pub fn test(&self) -> (r: Option<Vec<Item>>)
        ensures
            opt_items_view(r) == test_items(self@),
    {
        match self {
            FindAnnotated::Template { test, .. } => match test {
                Status::Certain(i) => clone_content(i),
                Status::Maybe(i) => clone_content(i),
                Status::Unknown => None,
            },
            FindAnnotated::Reference { test, .. } => match test {
                Some(i) => clone_content(i),
                None => None,
            },
        }
    }

    /// The items of the solution module found: the reference solution for a
    /// reference search, the solution template (or else the solution) for a
    /// template search.
    pub fn solution(&self) -> (r: Option<Vec<Item>>)
        ensures
            opt_items_view(r) == solution_items(self@),
    {
        match self {
            FindAnnotated::Template { solution, .. } => match solution {
                Status::Certain(i) => clone_content(i),
                Status::Maybe(i) => clone_content(i),
                Status::Unknown => None,
            },
            FindAnnotated::Reference { solution, .. } => match solution {
                Some(i) => clone_content(i),
                None => None,
            },
        }
    }

    /// The items of the library module found; a reference search has none.
    pub fn library(&self) -> (r: Option<Vec<Item>>)
        ensures
            opt_items_view(r) == library_items(self@),
    {
        match self {
            FindAnnotated::Template { library, .. } => match library {
                Some(i) => clone_content(i),
                None => None,
            },
            FindAnnotated::Reference { .. } => None,
        }
    }

    /// A search for the reference, with nothing found yet.
    pub fn reference() -> (r: Self)
        ensures
            r@ == (FindAnnotatedView::Reference { solution: None, test: None }),
    {
        FindAnnotated::Reference { solution: None, test: None }
    }

    /// A search for the template, with nothing found yet.
    pub fn template() -> (r: Self)
        ensures
            r@ == (FindAnnotatedView::Template {
                solution: StatusView::Unknown,
                test: StatusView::Unknown,
                library: None,
            }),
    {
        FindAnnotated::Template { solution: Status::Unknown, test: Status::Unknown, library: None }
    }

    /// Whether this is a search for the reference.
    pub fn is_reference(&self) -> (r: bool)
        ensures
            r == (self@ is Reference),
    {
        match self {
            FindAnnotated::Template { .. } => false,
            FindAnnotated::Reference { .. } => true,
        }
    }

    /// Whether this is a search for the template.
    pub fn is_template(&self) -> (r: bool)
        ensures
            r == (self@ is Template),
    {
        !self.is_reference()
    }

    /// Records `m` (see [`register_spec`]); the message of the clash when
    /// there is one, and then the search is unchanged.
    fn register(&mut self, parsed: &Vec<Attr>, m: ItemMod) -> (r: Option<String>)
        ensures
            match register_spec(old(self)@, attrs_view(parsed@), m@) {
                Ok(f) => r is None && final(self)@ == f,
                Err(e) => r is Some && r->Some_0@ == e && final(self)@ == old(self)@,
            },
    {
        let mut cur = FindAnnotated::reference();
        std::mem::swap(self, &mut cur);
        let (next, clash) = register_into(cur, parsed, m);
        *self = next;
        clash
    }
}

/// A copy of the items of a module, when it has a body.
fn clone_content(m: &ItemMod) -> (r: Option<Vec<Item>>)
    ensures
        opt_items_view(r) == m@.content,
{
    match &m.content {
        Some(v) => Some(clone_items(v)),
        None => None,
    }
}

impl FindAnnotated {
    /// Folds `item` in this search (see [`fold_item_spec`]), given the crates
    /// weblab provides; the item as it stays in the expansion, in which no
    /// `use` item is refused any more.
    pub fn fold_item_ref(&mut self, item: &Item, deps: &Result<Vec<String>, String>) -> (r: Item)
        ensures
            (final(self)@, r@) == fold_item_spec(old(self)@, item@, deps_view(*deps)),
            uses_valid(r@, deps_view(*deps)),
        decreases item,
    {
        match item {
            Item::Unsupported(_) => Item::Verbatim(String::from_str(NOT_IMPLEMENTED)),
            Item::Verbatim(_) => clone_item(item),
            Item::CompileError { .. } => clone_item(item),
            Item::Mod(m) => match split_attributes(clone_attributes(&m.attrs)) {
                Err(e) => Item::Verbatim(e),
                Ok((parsed, kept)) => {
                    let content = match &m.content {
                        Some(v) => Some(self.fold_items(v, deps)),
                        None => None,
                    };
                    let folded = ItemMod {
                        attrs: kept,
                        head: m.head.clone(),
                        ident: m.ident.clone(),
                        content,
                    };
                    let without_use = drop_use_mod(&folded, deps);
                    match self.register(&parsed, without_use) {
                        Some(message) => Item::CompileError { message, statement: false },
                        None => Item::Mod(folded),
                    }
                },
            },
            Item::Use(u) => match split_attributes(clone_attributes(&u.attrs)) {
                Err(e) => Item::Verbatim(e),
                Ok((_, kept)) => match should_drop_with(&u.tree, deps) {
                    Err(message) => Item::CompileError { message, statement: true },
                    Ok(_) => Item::Use(
                        ItemUse { attrs: kept, body: u.body.clone(), tree: clone_use_tree(&u.tree) },
                    ),
                },
            },
            Item::Macro(mc) => match split_attributes(clone_attributes(&mc.attrs)) {
                Err(e) => Item::Verbatim(e),
                Ok((_, kept)) => {
                    let (template_only, solution_only) = match &mc.ident {
                        Some(id) => (equals_str(id, "template_only"), equals_str(id, "solution_only")),
                        None => (false, false),
                    };
                    if template_only {
                        if self.is_reference() {
                            Item::Verbatim(String::new())
                        } else {
                            Item::Verbatim(mc.tokens.clone())
                        }
                    } else if solution_only {
                        if self.is_template() {
                            Item::Verbatim(String::new())
                        } else {
                            Item::Verbatim(mc.tokens.clone())
                        }
                    } else {
                        let ident = match &mc.ident {
                            Some(s) => Some(s.clone()),
                            None => None,
                        };
                        Item::Macro(
                            ItemMacro {
                                attrs: kept,
                                ident,
                                tokens: mc.tokens.clone(),
                                body: mc.body.clone(),
                            },
                        )
                    }
                },
            },
            Item::Other(o) => match split_attributes(clone_attributes(&o.attrs)) {
                Err(e) => Item::Verbatim(e),
                Ok((_, kept)) => {
                    let nested = self.fold_items(&o.nested, deps);
                    Item::Other(ItemOther { attrs: kept, text: clone_strings(&o.text), nested })
                },
            },
        }
    }

    /// Folds the items of a list in order (see [`fold_items_spec`]).
    pub fn fold_items(&mut self, v: &Vec<Item>, deps: &Result<Vec<String>, String>) -> (r: Vec<Item>)
        ensures
            (final(self)@, items_view(r@)) == fold_items_spec(old(self)@, items_view(v@), deps_view(*deps)),
            all_uses_valid(items_view(r@), deps_view(*deps)),
        decreases v,
    {
        let ghost src = items_view(v@);
        let ghost start = self@;
        proof {
            lemma_items_view(v@);
        }
        let mut out: Vec<Item> = Vec::new();
        let mut k: usize = 0;
        assert(src.take(0) =~= Seq::<ItemView>::empty());
        while k < v.len()
            invariant
                k <= v.len(),
                src == items_view(v@),
                src.len() == v@.len(),
                forall|j: int| 0 <= j < v@.len() ==> src[j] == item_view(#[trigger] v@[j]),
                (self@, items_view(out@)) == fold_items_spec(start, src.take(k as int), deps_view(*deps)),
                all_uses_valid(items_view(out@), deps_view(*deps)),
            decreases v.len() - k,
        {
            let ghost before = out@;
            let x = self.fold_item_ref(&v[k], deps);
            out.push(x);
            assert(out@.drop_last() =~= before);
            assert(items_view(out@).drop_last() =~= items_view(before));
            assert(src.take(k + 1).drop_last() =~= src.take(k as int));
            k = k + 1;
        }
        assert(src.take(v.len() as int) =~= src);
        out
    }
}

/// Folds the items of module `m` in the search, leaving its own attributes
/// as they are.
pub open spec fn fold_mod_spec(
    fa: FindAnnotatedView,
    m: ModView,
    deps: Result<Seq<Seq<char>>, Seq<char>>,
) -> (FindAnnotatedView, ModView) {
    match m.content {
        Some(c) => {
            let (f, c2) = fold_items_spec(fa, c, deps);
            (f, ModView { content: Some(c2), ..m })
        },
        None => (fa, m),
    }
}

impl FindAnnotated {
    /// Folds `item` in this search (see [`fold_item_spec`]).
    pub fn fold_item(&mut self, item: Item, deps: &Result<Vec<String>, String>) -> (r: Item)
        ensures
            (final(self)@, r@) == fold_item_spec(old(self)@, item@, deps_view(*deps)),
            uses_valid(r@, deps_view(*deps)),
    {
        self.fold_item_ref(&item, deps)
    }

    /// Folds the items of module `m` in this search (see [`fold_mod_spec`]).
    pub fn fold_item_mod(&mut self, m: ItemMod, deps: &Result<Vec<String>, String>) -> (r: ItemMod)
        ensures
            (final(self)@, r@) == fold_mod_spec(old(self)@, m@, deps_view(*deps)),
    {
        let ItemMod { attrs, head, ident, content } = m;
        let content = match content {
            Some(v) => Some(self.fold_items(&v, deps)),
            None => None,
        };
        ItemMod { attrs, head, ident, content }
    }
}

} // verus!
