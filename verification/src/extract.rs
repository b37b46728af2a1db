//! Table extraction from raw HTML, and the two other text operations that an
//! outside HTML library performs for the mapper and the renderer.
//!
//! The grid that the first table of a page holds, the plain text behind a
//! marked-up cell, and the first whitespace-delimited token of a field are
//! each a pure function of their input; the names below stand for those
//! functions, and the callers' contracts speak of the names.

use vstd::prelude::*;

verus! {

/// The first table of an HTML fragment, as the trimmed inner HTML of the
/// header cells of its first row and of the data cells of every later row;
/// `None` when the fragment holds no table or the table holds no row.
pub uninterp spec fn first_table(html: Seq<char>) -> Option<(Seq<Seq<char>>, Seq<Seq<Seq<char>>>)>;

/// Relies on scraper's `Html::parse_fragment` and selectors: the first
/// `<table>` in document order, its first `<tr>`'s `<th>` cells as headers,
/// each later `<tr>`'s `<td>` cells as one row, every cell as its inner HTML
/// with surrounding whitespace trimmed.  Malformed input never fails: a
/// fragment without a table (or whose table has no row) yields `None`.
#[verifier::external_body]
pub(crate) fn find_table(http_data: &str) -> (r: Option<(Vec<String>, Vec<Vec<String>>)>)
    ensures
        match r {
            Some(t) => first_table(http_data@) matches Some(ht)
                && t.0.deep_view() == ht.0
                && t.1.deep_view() == ht.1,
            None => first_table(http_data@) is None,
        },
{
    let css = |s| scraper::Selector::parse(s).unwrap();
    let cells = |row: scraper::ElementRef<'_>, sel: &scraper::Selector| {
        row.select(sel).map(|c| c.inner_html().trim().to_string()).collect()
    };
    let html = scraper::Html::parse_fragment(http_data);
    let table = html.select(&css("table")).next()?;
    let tr = css("tr");
    let mut trs = table.select(&tr);
    let headers = cells(trs.next()?, &css("th"));
    let td = css("td");
    let rows = trs.map(|tr| cells(tr, &td)).collect();
    Some((headers, rows))
}

/// The plain text behind a fragment of HTML: its text nodes, in document
/// order, concatenated.
pub uninterp spec fn inner_text(html: Seq<char>) -> Seq<char>;

/// Relies on soup's `Soup::new` and `Soup::text`: parses the cell content as
/// HTML and concatenates the text of every node, which strips any embedded
/// markup and depends on the input characters alone.
#[verifier::external_body]
pub(crate) fn strip_markup(cell: &str) -> (r: String)
    ensures
        r@ == inner_text(cell@),
{
    soup::Soup::new(cell).text()
}

/// The first whitespace-delimited token of a string, or the empty string
/// when the string holds no token.
pub uninterp spec fn first_token_of(s: Seq<char>) -> Seq<char>;

/// Relies on `str::split_whitespace` of std: its first item is the first
/// maximal run of non-whitespace characters, and there is none exactly when
/// the string is empty or all whitespace.
#[verifier::external_body]
pub(crate) fn first_token(s: &str) -> (r: String)
    ensures
        r@ == first_token_of(s@),
{
    s.split_whitespace().next().unwrap_or_default().to_string()
}

} // verus!
