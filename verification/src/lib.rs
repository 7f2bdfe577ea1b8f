//! Read-only inspection of the physical structure of a GiST index: decoding
//! of its pages, a walk over its tree, and the text of the two reports.

use vstd::prelude::*;

pub mod gist;
pub mod laws;
pub mod layout;
pub mod page;
pub mod stats;
pub mod text;
pub mod tree;

use crate::gist::{bytes_of, stats_report, tree_dump, IndexInspector, InspectError};

verus! {

/// The dump of the whole tree of the index with the blocks `blocks`, block
/// `i` being page number `i`.
pub fn gist_tree(blocks: Vec<Vec<u8>>) -> (r: Result<String, InspectError>)
    ensures
        match tree_dump(bytes_of(blocks@), None) {
            Ok(text) => r is Ok && r->Ok_0@ == text,
            Err(e) => r is Err && r->Err_0 == e,
        },
{
    let index = IndexInspector::open(blocks);
    match index.get_tree(None) {
        Ok(tree) => Ok(tree.to_string()),
        Err(e) => Err(e),
    }
}

/// The report on the totals of the index with the blocks `blocks`, from the
/// root page down to depth `max_level`, or over all of it where no bound is
/// given.
pub fn gist_stat(blocks: Vec<Vec<u8>>, max_level: Option<usize>) -> (r: Result<
    String,
    InspectError,
>)
    ensures
        match stats_report(bytes_of(blocks@), max_level) {
            Ok(text) => r is Ok && r->Ok_0@ == text,
            Err(e) => r is Err && r->Err_0 == e,
        },
{
    let index = IndexInspector::open(blocks);
    match index.stats(max_level) {
        Ok(stats) => Ok(stats.to_string()),
        Err(e) => Err(e),
    }
}

} // verus!
