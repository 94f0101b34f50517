//! Semantic analysis: the passes in their fixed order; the first error wins.
use vstd::prelude::*;
use crate::ast::{BlockItem, Program};
use crate::checks::{duplicate_labels_resolution, check_lvalue, goto_resolution, gotos_defined, statement_after_labels_resolution,
    items_labels, items_labels_placed, items_lvalues_ok};
use crate::error::{Error, SemanticError};
use crate::loops::{items_labelled, lab_items, loop_label};
use crate::names::NameGen;
use crate::preserve::lemma_items_renamed;
use crate::resolve::{items_renamed, res_items, variable_resolution, EntryView};
use crate::tacky::program_lowerable;

verus! {

/// The first error of the checks that follow variable resolution, in their
/// order: lvalues, duplicate labels, undefined `goto` targets, labels
/// without a statement, then loop labelling from counter `n`.  Renaming
/// variables changes none of these, so they are stated on the source body.
pub open spec fn later_error(items: Seq<BlockItem>, f: Seq<char>, n: nat) -> Option<SemanticError> {
    if !items_lvalues_ok(items) {
        Some(SemanticError::InvalidLvalue)
    } else if !items_labels(items).no_duplicates() {
        Some(SemanticError::DuplicateLabel)
    } else if !gotos_defined(items) {
        Some(SemanticError::UndefinedLabel)
    } else if !items_labels_placed(items) {
        Some(SemanticError::LabelWithoutStatement)
    } else {
        lab_items(items, None, f, n).0
    }
}

/// The first semantic error of a function body, from counter `n`.
pub open spec fn semantic_error(items: Seq<BlockItem>, f: Seq<char>, n: nat) -> Option<SemanticError> {
    let (e, _, n1) = res_items(items, Seq::<EntryView>::empty(), n);
    if e is Some { e } else { later_error(items, f, n1) }
}

/// Validates a program and rewrites it: unique variable names; then the
/// lvalue, duplicate-label, `goto`-target and label-placement checks; then
/// loop labels.  Fails with the first error, and succeeds exactly when there
/// is none; the result is then ready for lowering.
pub fn semantic_analysis(p: Program, gen: &mut NameGen) -> (r: Result<Program, Error>)
    ensures
        ({
            let items = p.function.body.items@;
            let f = p.function.name@;
            let n0 = old(gen).next as nat;
            let n1 = res_items(items, Seq::<EntryView>::empty(), n0).2;
            &&& r is Ok <==> semantic_error(items, f, n0) is None
            &&& r matches Err(e) ==> e matches Error::Semantic(x) && semantic_error(items, f, n0) == Some(x)
            &&& r matches Ok(q) ==> {
                &&& program_lowerable(q)
                &&& q.function.name@ == f
                &&& final(gen).next == lab_items(items, None, f, n1).1
                &&& exists|mid: Seq<BlockItem>| #[trigger] items_renamed(items, Seq::<EntryView>::empty(), n0, mid)
                    && items_labelled(mid, None, f, n1, q.function.body.items@)
            }
        }),
{
    let ghost items = p.function.body.items@;
    let ghost f = p.function.name@;
    let ghost n0 = gen.next as nat;
    let resolved = match variable_resolution(p, gen) {
        Ok(x) => x,
        Err(e) => { return Err(Error::Semantic(e)); },
    };
    let ghost mid = resolved.function.body.items@;
    let ghost n1 = gen.next as nat;
    proof { lemma_items_renamed(items, Seq::<EntryView>::empty(), n0, mid); }
    if !check_lvalue(&resolved.function.body.items) {
        return Err(Error::Semantic(SemanticError::InvalidLvalue));
    }
    match duplicate_labels_resolution(&resolved.function.body.items) {
        Ok(()) => {},
        Err(e) => { return Err(Error::Semantic(e)); },
    }
    match goto_resolution(&resolved.function.body.items) {
        Ok(()) => {},
        Err(e) => { return Err(Error::Semantic(e)); },
    }
    match statement_after_labels_resolution(&resolved.function.body.items) {
        Ok(()) => {},
        Err(e) => { return Err(Error::Semantic(e)); },
    }
    assert(lab_items(mid, None, f, n1) == lab_items(items, None, f, n1));
    let q = match loop_label(resolved, gen) {
        Ok(x) => x,
        Err(e) => { return Err(Error::Semantic(e)); },
    };
    Ok(q)
}

} // verus!
