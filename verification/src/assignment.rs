use vstd::prelude::*;

use crate::annotations::{
    fold_mod_spec, library_items, opt_items_view, solution_items, test_items, FindAnnotated,
    FindAnnotatedView, StatusView,
};
use crate::attrs::{
    attributes_view, attrs_view, parse_attributes, split_attributes, Attr, AttrView, AttributeView,
};
use crate::imports::{allowed_crates, manifest_dependencies};
use crate::items::{clone_mod, items_view, Item, ItemMod, ItemView, ModView};
use crate::text::{join, join_spec, strings_view, trim_spec, trimmed};

verus! {

/// The metadata of a programming assignment, and the assignment module as
/// it stays in the expansion (the reference, without its annotations).
#[derive(Debug)]
pub struct Assignment {
    pub title: String,
    pub assignment_text: String,
    pub test: Vec<Item>,
    pub solution: Vec<Item>,
    pub library: Option<Vec<Item>>,
    pub test_template: Option<Vec<Item>>,
    pub solution_template: Option<Vec<Item>>,
    pub module: ItemMod,
}

/// The mathematical value of an [`Assignment`].
pub struct AssignmentView {
    pub title: Seq<char>,
    pub assignment_text: Seq<char>,
    pub test: Seq<ItemView>,
    pub solution: Seq<ItemView>,
    pub library: Option<Seq<ItemView>>,
    pub test_template: Option<Seq<ItemView>>,
    pub solution_template: Option<Seq<ItemView>>,
    pub module: ModView,
}

impl View for Assignment {
    type V = AssignmentView;

    open spec fn view(&self) -> AssignmentView {
        AssignmentView {
            title: self.title@,
            assignment_text: self.assignment_text@,
            test: items_view(self.test@),
            solution: items_view(self.solution@),
            library: opt_items_view(self.library),
            test_template: opt_items_view(self.test_template),
            solution_template: opt_items_view(self.solution_template),
            module: self.module@,
        }
    }
}

/// What the `weblab` attribute expands to: error tokens handed on as they
/// are (a malformed attribute, or an item that is not a module), a
/// `compile_error!` with a message, an error at the attribute itself, or an
/// assignment.
#[derive(Debug)]
pub enum Expansion {
    Tokens(String),
    CompileError(String),
    AttributeError(String),
    Assignment(Assignment),
}

/// The mathematical value of an [`Expansion`].
pub enum ExpansionView {
    Tokens(Seq<char>),
    CompileError(Seq<char>),
    AttributeError(Seq<char>),
    Assignment(AssignmentView),
}

impl View for Expansion {
    type V = ExpansionView;

    open spec fn view(&self) -> ExpansionView {
        match self {
            Expansion::Tokens(s) => ExpansionView::Tokens(s@),
            Expansion::CompileError(s) => ExpansionView::CompileError(s@),
            Expansion::AttributeError(s) => ExpansionView::AttributeError(s@),
            Expansion::Assignment(a) => ExpansionView::Assignment(a@),
        }
    }
}

/// The titles among `attrs`, in order.
pub open spec fn titles(attrs: Seq<AttrView>) -> Seq<Seq<char>>
    decreases attrs.len(),
{
    if attrs.len() == 0 {
        Seq::empty()
    } else {
        match attrs.last() {
            AttrView::Title(t) => titles(attrs.drop_last()).push(t),
            _ => titles(attrs.drop_last()),
        }
    }
}

/// The doc comments among `attrs`, in order.
pub open spec fn doc_texts(attrs: Seq<AttrView>) -> Seq<Seq<char>>
    decreases attrs.len(),
{
    if attrs.len() == 0 {
        Seq::empty()
    } else {
        match attrs.last() {
            AttrView::Doc(t) => doc_texts(attrs.drop_last()).push(t),
            _ => doc_texts(attrs.drop_last()),
        }
    }
}

/// The title of an assignment: its last title annotation, or else the name
/// of its module.
pub open spec fn title_spec(attrs: Seq<AttrView>, ident: Seq<char>) -> Seq<char> {
    if titles(attrs).len() > 0 {
        titles(attrs).last()
    } else {
        ident
    }
}

/// The text of an assignment: its doc comments, each trimmed, one per line.
pub open spec fn assignment_text_spec(attrs: Seq<AttrView>) -> Seq<char> {
    join_spec(doc_texts(attrs).map_values(|t: Seq<char>| trim_spec(t)), "\n"@)
}

/// The search for the reference before any item.
pub open spec fn reference_start() -> FindAnnotatedView {
    FindAnnotatedView::Reference { solution: None, test: None }
}

/// The search for the template before any item.
pub open spec fn template_start() -> FindAnnotatedView {
    FindAnnotatedView::Template { solution: StatusView::Unknown, test: StatusView::Unknown, library: None }
}

/// The message for an assignment with two titles or more.
pub open spec fn many_titles_message() -> Seq<char> {
    "assignment has more than one title"@
}

/// The message for an assignment without a spec test module.
pub open spec fn no_spectest_message() -> Seq<char> {
    "assignment has no spectest"@
}

/// The message for an assignment without a reference solution module.
pub open spec fn no_solution_message() -> Seq<char> {
    "assignment has no reference solution"@
}

/// Expands a programming assignment: `attributes` are the annotations given
/// after `programming_assignment`, `item` the module annotated (or the error
/// met in reading it), `deps` the crates weblab provides. The module's own
/// annotations are added to `attributes` (a malformed one is the
/// expansion); the module, stripped of its attributes, is folded for the
/// reference and for the template. Then, in this order: two titles or more,
/// a missing spec test and a missing reference solution are compile errors;
/// otherwise the assignment has the last title (or the module's name), the
/// trimmed doc comments one per line, the reference's test and solution, the
/// template's library and templates, and the module as folded for the
/// reference.
pub open spec fn process_spec(
    attributes: Seq<AttrView>,
    item: Result<ModView, Seq<char>>,
    deps: Result<Seq<Seq<char>>, Seq<char>>,
) -> ExpansionView {
    match item {
        Err(e) => ExpansionView::Tokens(e),
        Ok(module) => match parse_attributes(module.attrs) {
            Err(e) => ExpansionView::Tokens(e),
            Ok((parsed, _)) => {
                let attrs = attributes + parsed;
                let bare = ModView { attrs: Seq::empty(), ..module };
                let (reference, modified) = fold_mod_spec(reference_start(), bare, deps);
                let (template, _) = fold_mod_spec(template_start(), bare, deps);
                if titles(attrs).len() > 1 {
                    ExpansionView::CompileError(many_titles_message())
                } else {
                    match test_items(reference) {
                        None => ExpansionView::CompileError(no_spectest_message()),
                        Some(test) => match solution_items(reference) {
                            None => ExpansionView::CompileError(no_solution_message()),
                            Some(solution) => ExpansionView::Assignment(
                                AssignmentView {
                                    title: title_spec(attrs, module.ident),
                                    assignment_text: assignment_text_spec(attrs),
                                    test,
                                    solution,
                                    library: library_items(template),
                                    test_template: test_items(template),
                                    solution_template: solution_items(template),
                                    module: modified,
                                },
                            ),
                        },
                    }
                }
            },
        },
    }
}

/// The value of an item read as a module, or of the error met in reading it.
pub open spec fn read_mod_view(item: Result<ItemMod, String>) -> Result<ModView, Seq<char>> {
    match item {
        Ok(m) => Ok(m@),
        Err(e) => Err(e@),
    }
}

/// The titles among `attrs`, and the last one.
fn find_titles(attrs: &Vec<Attr>) -> (r: (usize, Option<String>))
    ensures
        r.0 == titles(attrs_view(attrs@)).len(),
        r.1 is Some <==> titles(attrs_view(attrs@)).len() > 0,
        r.1 is Some ==> r.1->Some_0@ == titles(attrs_view(attrs@)).last(),
{
    let ghost all = attrs_view(attrs@);
    let mut count: usize = 0;
    let mut last: Option<String> = None;
    let mut k: usize = 0;
    while k < attrs.len()
        invariant
            k <= attrs.len(),
            all == attrs_view(attrs@),
            count == titles(all.take(k as int)).len(),
            count <= k,
            last is Some <==> count > 0,
            last is Some ==> last->Some_0@ == titles(all.take(k as int)).last(),
        decreases attrs.len() - k,
    {
        assert(all.take(k + 1).drop_last() =~= all.take(k as int));
        assert(all.take(k + 1).last() == attrs@[k as int]@);
        match &attrs[k] {
            Attr::Title(t) => {
                count = count + 1;
                last = Some(t.clone());
            },
            _ => {},
        }
        k = k + 1;
    }
    assert(all.take(attrs.len() as int) =~= all);
    (count, last)
}

/// The doc comments among `attrs`, each trimmed.
fn trimmed_docs(attrs: &Vec<Attr>) -> (r: Vec<String>)
    ensures
        strings_view(r@) == doc_texts(attrs_view(attrs@)).map_values(|t: Seq<char>| trim_spec(t)),
{
    let ghost all = attrs_view(attrs@);
    let mut out: Vec<String> = Vec::new();
    let mut k: usize = 0;
    while k < attrs.len()
        invariant
            k <= attrs.len(),
            all == attrs_view(attrs@),
            strings_view(out@) == doc_texts(all.take(k as int)).map_values(
                |t: Seq<char>| trim_spec(t),
            ),
        decreases attrs.len() - k,
    {
        assert(all.take(k + 1).drop_last() =~= all.take(k as int));
        assert(all.take(k + 1).last() == attrs@[k as int]@);
        let ghost before = out@;
        match &attrs[k] {
            Attr::Doc(t) => {
                out.push(trimmed(t.as_str()));
                assert(strings_view(out@) =~= strings_view(before).push(trim_spec(t@)));
                assert(doc_texts(all.take(k + 1)) == doc_texts(all.take(k as int)).push(t@));
                assert(doc_texts(all.take(k + 1)).map_values(|t: Seq<char>| trim_spec(t))
                    =~= doc_texts(all.take(k as int)).map_values(|t: Seq<char>| trim_spec(t)).push(
                    trim_spec(t@),
                ));
            },
            _ => {},
        }
        k = k + 1;
    }
    assert(all.take(attrs.len() as int) =~= all);
    out
}

/// A copy of a list of annotations.
fn copy_attrs(attrs: &[Attr]) -> (r: Vec<Attr>)
    ensures
        attrs_view(r@) == attrs_view(attrs@),
{
    let mut out: Vec<Attr> = Vec::new();
    let mut k: usize = 0;
    while k < attrs.len()
        invariant
            k <= attrs.len(),
            out@.len() == k,
            attrs_view(out@) == attrs_view(attrs@.take(k as int)),
        decreases attrs.len() - k,
    {
        let ghost before = out@;
        out.push(attrs[k].clone());
        assert forall|j: int| 0 <= j < k + 1 implies attrs_view(out@)[j] == attrs_view(
            attrs@.take(k + 1),
        )[j] by {
            if j < k {
                assert(attrs_view(before)[j] == attrs_view(attrs@.take(k as int))[j]);
            }
        }
        assert(attrs_view(out@) =~= attrs_view(attrs@.take(k + 1)));
        k = k + 1;
    }
    assert(attrs@.take(attrs.len() as int) =~= attrs@);
    out
}

/// Expands a programming assignment (see [`process_spec`]), with the crates
/// weblab provides read from the bytes of its Cargo manifest.
pub fn process_programming_assignment(
    attributes: &[Attr],
    item: Result<ItemMod, String>,
    manifest: &[u8],
) -> (r: Expansion)
    ensures
        r@ == process_spec(
            attrs_view(attributes@),
            read_mod_view(item),
            manifest_dependencies(manifest@),
        ),
{
    let mut attrs = copy_attrs(attributes);
    let module = match item {
        Err(e) => {
            return Expansion::Tokens(e);
        },
        Ok(m) => m,
    };
    let ghost module_view = module@;
    let ItemMod { attrs: module_attrs, head, ident, content } = module;
    match split_attributes(module_attrs) {
        Err(e) => {
            return Expansion::Tokens(e);
        },
        Ok((parsed, _)) => {
            let mut parsed = parsed;
            let ghost before = attrs@;
            let ghost more = parsed@;
            attrs.append(&mut parsed);
            assert(attrs_view(attrs@) =~= attrs_view(before) + attrs_view(more));
        },
    }
    let bare = ItemMod { attrs: Vec::new(), head, ident, content };
    assert(attributes_view(bare.attrs@) =~= Seq::<AttributeView>::empty());
    assert(bare@ == (ModView { attrs: Seq::empty(), ..module_view }));
    let deps = allowed_crates(manifest);
    let mut reference = FindAnnotated::reference();
    let mut template = FindAnnotated::template();
    let reference_modified = reference.fold_item_mod(clone_mod(&bare), &deps);
    let title_default = bare.ident.clone();
    let _ = template.fold_item_mod(bare, &deps);
    let (title_count, last_title) = find_titles(&attrs);
    if title_count > 1 {
        return Expansion::CompileError(String::from_str("assignment has more than one title"));
    }
    let test = match reference.test() {
        Some(i) => i,
        None => {
            return Expansion::CompileError(String::from_str("assignment has no spectest"));
        },
    };
    let solution = match reference.solution() {
        Some(i) => i,
        None => {
            return Expansion::CompileError(String::from_str("assignment has no reference solution"));
        },
    };
    let title = match last_title {
        Some(t) => t,
        None => title_default,
    };
    let docs = trimmed_docs(&attrs);
    let assignment_text = join(&docs, "\n");
    Expansion::Assignment(
        Assignment {
            title,
            assignment_text,
            test,
            solution,
            library: template.library(),
            test_template: template.test(),
            solution_template: template.solution(),
            module: reference_modified,
        },
    )
}

/// The message for a `weblab` attribute that does not start with
/// `programming_assignment`.
pub open spec fn misplaced_attribute_message() -> Seq<char> {
    "#[weblab(programming_assignment)] always needs to be the first attribute on a module containing the solution, test and library. Other attributes, #[weblab(...)] attributes and doc comments need to be below it or inside the module that's annotated with #[weblab(programming_assignment)]"@
}

/// The value of the annotations read from the attribute's arguments, or of
/// the error met in reading them.
pub open spec fn read_attrs_view(attr: Result<Vec<Attr>, String>) -> Result<Seq<AttrView>, Seq<char>> {
    match attr {
        Ok(v) => Ok(attrs_view(v@)),
        Err(e) => Err(e@),
    }
}

/// What `#[weblab(..)]` on `item` expands to: a malformed argument list is
/// the expansion; an argument list that starts with
/// `programming_assignment` expands the module as a programming assignment
/// with the remaining annotations; any other is an error at the attribute.
pub open spec fn weblab_spec(
    attr: Result<Seq<AttrView>, Seq<char>>,
    item: Result<ModView, Seq<char>>,
    deps: Result<Seq<Seq<char>>, Seq<char>>,
) -> ExpansionView {
    match attr {
        Err(e) => ExpansionView::Tokens(e),
        Ok(a) => if a.len() > 0 && a[0] == AttrView::ProgrammingAssignment {
            process_spec(a.skip(1), item, deps)
        } else {
            ExpansionView::AttributeError(misplaced_attribute_message())
        },
    }
}

/// Expands `#[weblab(..)]` (see [`weblab_spec`]): `attr` is the attribute's
/// argument list as read, `item` the annotated item as read as a module,
/// `manifest` the bytes of the Cargo manifest of weblab's build.
pub fn weblab(attr: Result<Vec<Attr>, String>, item: Result<ItemMod, String>, manifest: &[u8]) -> (r:
    Expansion)
    ensures
        r@ == weblab_spec(read_attrs_view(attr), read_mod_view(item), manifest_dependencies(manifest@)),
{
    let attr = match attr {
        Ok(a) => a,
        Err(e) => {
            return Expansion::Tokens(e);
        },
    };
    if attr.len() > 0 {
        assert(attrs_view(attr@)[0] == attr@[0]@);
        if let Attr::ProgrammingAssignment = &attr[0] {
            let (_, rest) = attr.as_slice().split_at(1);
            assert(attrs_view(rest@) =~= attrs_view(attr@).skip(1));
            assert(attrs_view(attr@)[0] == AttrView::ProgrammingAssignment);
            return process_programming_assignment(rest, item, manifest);
        }
    }
    Expansion::AttributeError(
        String::from_str(
            "#[weblab(programming_assignment)] always needs to be the first attribute on a module containing the solution, test and library. Other attributes, #[weblab(...)] attributes and doc comments need to be below it or inside the module that's annotated with #[weblab(programming_assignment)]",
        ),
    )
}

} // verus!
