//! Rendering of a table as text, which the `tabled` crate performs.
use vstd::prelude::*;

use crate::text::views_of;

verus! {

/// The text that `tabled` renders, in its rounded style, for a table with
/// these column titles and these records.
pub uninterp spec fn tabled_rounded(columns: Seq<Seq<char>>, records: Seq<Seq<Seq<char>>>) -> Seq<char>;

/// The views of the cells of each record.
pub open spec fn record_views(records: Seq<Vec<String>>) -> Seq<Seq<Seq<char>>> {
    records.map_values(|row: Vec<String>| views_of(row@))
}

/// Renders a table with `tabled`: a `Builder` holding `records` and the
/// column titles `columns`, built and drawn in `Style::rounded()`. The
/// contract claims only that the text depends on the titles and records
/// alone; the drawing itself (borders, padding, widths) is left unstated.
#[verifier::external_body]
pub(crate) fn render_rounded_table(columns: &Vec<String>, records: &Vec<Vec<String>>) -> (r: String)
    ensures
        r@ == tabled_rounded(views_of(columns@), record_views(records@)),
{
    let mut builder = tabled::builder::Builder::from(records.clone());
    builder.set_columns(columns.clone());
    builder.build().with(tabled::Style::rounded()).to_string()
}

} // verus!
