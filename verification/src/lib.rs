//! Expansion logic of the `#[weblab(programming_assignment)]` attribute:
//! reading the weblab annotations of an assignment module, deciding which
//! imports are kept, and assembling the assignment's metadata.
//!
//! - `attrs`: weblab annotations and how the attributes of an item read.
//! - `items`: the items of a module, as weblab reads them, and their values.
//! - `imports`: which `use` items are dropped, kept or refused.
//! - `annotations`: the search for the annotated modules of an assignment.
//! - `assignment`: the expansion of the attribute.
//! - `laws`: properties of the search and of import dropping.
//! - `text`: trimming and joining text.

mod annotations;
mod assignment;
mod attrs;
mod imports;
mod items;
mod laws;
mod text;

pub use annotations::{
    fold_item_spec, fold_items_spec, fold_mod_spec, has_attr, library_items, module_items,
    multiple_libraries_message, multiple_reference_solutions_message,
    multiple_solution_templates_message, multiple_spec_tests_message,
    multiple_test_templates_message, not_implemented_item, opt_items_view, opt_mod_view,
    register_spec, solution_items, status_items, test_items, FindAnnotated, FindAnnotatedView,
    Status, StatusView, NOT_IMPLEMENTED,
};
pub use assignment::{
    assignment_text_spec, doc_texts, many_titles_message, misplaced_attribute_message,
    no_solution_message, no_spectest_message, process_programming_assignment, process_spec,
    read_attrs_view, read_mod_view, reference_start, template_start, title_spec, titles, weblab,
    weblab_spec, Assignment, AssignmentView, Expansion, ExpansionView,
};
pub use attrs::{
    attributes_view, attrs_view, parse_attributes, split_attributes, Attr, AttrView, Attribute,
    AttributeView, ParseAttrStatus, ParseAttrStatusView,
};
pub use imports::{
    all_uses_valid, allowed_crates, crate_import_message, decision_view, deps_view, drop_decision,
    drop_use, drop_use_items, drop_use_mod, drop_use_spec, drop_uses_spec,
    forbidden_import_message, group_decisions, ident_decision, lemma_all_uses_valid,
    lemma_drop_uses_spec, manifest_dependencies, mixed_group_message, should_drop,
    should_drop_with, uses_valid,
};
pub use items::{
    item_view, items_view, lemma_items_view, lemma_use_trees_view, mod_view, use_tree_view,
    use_trees_view, Item, ItemMacro, ItemMod, ItemOther, ItemUse, ItemView, MacroView, ModView,
    OtherView, UseTree, UseTreeView, UseView,
};
pub use laws::{
    clean_items, clean_mod, clean_status, keeps_records, lemma_assignment_has_no_dropped_imports,
    lemma_drop_use_complete, lemma_drop_uses_complete,
    lemma_fold_items_keeps_records, lemma_fold_items_length, lemma_fold_items_records_clean,
    lemma_fold_keeps_records, lemma_fold_records_clean,
    lemma_fold_mod_keeps_records, lemma_group_decisions, lemma_group_follows_members,
    lemma_register_keeps_records, lemma_weblab_imports_dropped, lemma_mixed_group_refused,
    lemma_group_first_refusal, lemma_drop_use_identity, lemma_drop_use_of_import,
    lemma_fold_keeps_plain_attributes, lemma_parse_attributes_first_error,
    lemma_parse_attributes_keeps, stays_on_item, well_formed_attrs, doc_lines,
    empty_reference_search, lemma_assignment_expansion, lemma_fold_items_index, lemma_join_layout,
    lemma_reference_fold_of_macros, parts_len, lemma_assignment_title, title_annotations,
    lemma_import_of_name, lemma_second_reference_module_refused, no_dropped_uses, records_clean,
};
pub use text::{
    equals_str, join, join_spec, strings_view, trim_end_spec, trim_spec, trim_start_spec, trimmed,
    unicode_white_space,
};
