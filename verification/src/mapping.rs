//! The field mapper: resolving columns of an extracted grid by exact header
//! text and turning each row into one clock record, tolerant of reordered,
//! missing and short columns.

use vstd::prelude::*;
use vstd::string::StringExecFns;

use crate::extract::{find_table, first_table, inner_text, strip_markup};
use crate::records::{AllStoredClocks, Clocks, ClocksView};

verus! {

/// The exact header text of each expected column, as the source table
/// renders it.
pub open spec fn server_col() -> Seq<char> {
    "Server"@
}

pub open spec fn time_since_heartbeat_col() -> Seq<char> {
    "Time since <br>heartbeat"@
}

pub open spec fn status_uptime_col() -> Seq<char> {
    "Status &amp; Uptime"@
}

pub open spec fn physical_time_utc_col() -> Seq<char> {
    "Physical Time (UTC)"@
}

pub open spec fn hybrid_time_utc_col() -> Seq<char> {
    "Hybrid Time (UTC)"@
}

pub open spec fn heartbeat_rtt_col() -> Seq<char> {
    "Heartbeat RTT"@
}

pub open spec fn cloud_col() -> Seq<char> {
    "Cloud"@
}

pub open spec fn region_col() -> Seq<char> {
    "Region"@
}

pub open spec fn zone_col() -> Seq<char> {
    "Zone"@
}

/// The sentinel that stands for a field whose column (or cell) the source
/// table lacks.
pub open spec fn missing_value() -> Seq<char> {
    "<Missing>"@
}

/// The position of the first header equal to `name`, or `None` when no
/// header matches.
pub open spec fn spec_find_header(headers: Seq<Seq<char>>, name: Seq<char>) -> Option<int>
    decreases headers.len(),
{
    if headers.len() == 0 {
        None
    } else if headers[0] == name {
        Some(0int)
    } else {
        match spec_find_header(headers.drop_first(), name) {
            Some(i) => Some(i + 1),
            None => None,
        }
    }
}

/// A prefix free of matches pins the resolution down: past the whole header
/// list it is `None`, and at the first matching header it is that position.
proof fn lemma_find_header_prefix(headers: Seq<Seq<char>>, name: Seq<char>, i: int)
    requires
        0 <= i <= headers.len(),
        forall|k: int| 0 <= k < i ==> headers[k] != name,
    ensures
        i == headers.len() ==> spec_find_header(headers, name) is None,
        i < headers.len() && headers[i] == name ==> spec_find_header(headers, name) == Some(i),
    decreases headers.len(),
{
    if headers.len() > 0 && i > 0 {
        assert(headers[0] != name);
        lemma_find_header_prefix(headers.drop_first(), name, i - 1);
    }
}

/// A header name that no header equals resolves to no position.
pub proof fn lemma_absent_header(headers: Seq<Seq<char>>, name: Seq<char>)
    requires
        forall|k: int| 0 <= k < headers.len() ==> headers[k] != name,
    ensures
        spec_find_header(headers, name) is None,
{
    lemma_find_header_prefix(headers, name, headers.len() as int);
}

/// An `Option<usize>` position as its mathematical counterpart.
pub open spec fn opt_pos(pos: Option<usize>) -> Option<int> {
    match pos {
        Some(p) => Some(p as int),
        None => None,
    }
}

/// Resolve a column by exact header text.
pub fn find_header(headers: &Vec<String>, name: &str) -> (r: Option<usize>)
    ensures
        opt_pos(r) == spec_find_header(headers.deep_view(), name@),
{
    let name_string = String::from_str(name);
    let ghost hv = headers.deep_view();
    let mut i: usize = 0;
    while i < headers.len()
        invariant
            0 <= i <= headers.len(),
            hv == headers.deep_view(),
            name_string@ == name@,
            forall|k: int| 0 <= k < i ==> hv[k] != name@,
        decreases headers.len() - i,
    {
        if headers[i] == name_string {
            proof {
                lemma_find_header_prefix(hv, name@, i as int);
            }
            return Some(i);
        }
        i = i + 1;
    }
    proof {
        lemma_find_header_prefix(hv, name@, hv.len() as int);
    }
    None
}

/// The cell of `row` at `pos`, or the sentinel when the column was not
/// resolved or the row is too short for it.
pub open spec fn spec_cell(row: Seq<Seq<char>>, pos: Option<int>) -> Seq<char> {
    match pos {
        Some(p) => if 0 <= p < row.len() {
            row[p]
        } else {
            missing_value()
        },
        None => missing_value(),
    }
}

/// Take the cell of `row` at `pos` verbatim, or the sentinel.
pub fn cell_or_missing(row: &Vec<String>, pos: Option<usize>) -> (r: String)
    ensures
        r@ == spec_cell(row.deep_view(), opt_pos(pos)),
{
    match pos {
        Some(p) => {
            if p < row.len() {
                row[p].clone()
            } else {
                String::from_str("<Missing>")
            }
        },
        None => String::from_str("<Missing>"),
    }
}

/// The server field of a row: the plain text behind the resolved cell (that
/// column embeds markup around the server identity), or the sentinel when
/// the column or the cell is absent.
pub open spec fn server_field(headers: Seq<Seq<char>>, row: Seq<Seq<char>>) -> Seq<char> {
    match spec_find_header(headers, server_col()) {
        Some(p) => if 0 <= p < row.len() {
            inner_text(row[p])
        } else {
            missing_value()
        },
        None => missing_value(),
    }
}

/// Any other field of a row: the resolved cell verbatim, or the sentinel.
pub open spec fn verbatim_field(headers: Seq<Seq<char>>, row: Seq<Seq<char>>, name: Seq<char>) -> Seq<char> {
    spec_cell(row, spec_find_header(headers, name))
}

/// The clock record that one row of a grid maps to.
pub open spec fn clocks_of_row(headers: Seq<Seq<char>>, row: Seq<Seq<char>>) -> ClocksView {
    ClocksView {
        server: server_field(headers, row),
        time_since_heartbeat: verbatim_field(headers, row, time_since_heartbeat_col()),
        status_uptime: verbatim_field(headers, row, status_uptime_col()),
        physical_time_utc: verbatim_field(headers, row, physical_time_utc_col()),
        hybrid_time_utc: verbatim_field(headers, row, hybrid_time_utc_col()),
        heartbeat_rtt: verbatim_field(headers, row, heartbeat_rtt_col()),
        cloud: verbatim_field(headers, row, cloud_col()),
        region: verbatim_field(headers, row, region_col()),
        zone: verbatim_field(headers, row, zone_col()),
    }
}

/// The views of a sequence of clock records.
pub open spec fn clock_views(s: Seq<Clocks>) -> Seq<ClocksView> {
    s.map_values(|c: Clocks| c@)
}

/// The records that a whole grid maps to: one per row.
pub open spec fn mapped_table(headers: Seq<Seq<char>>, rows: Seq<Seq<Seq<char>>>) -> Seq<ClocksView> {
    rows.map_values(|row: Seq<Seq<char>>| clocks_of_row(headers, row))
}

/// The records behind a raw diagnostics page: those of its first table, or
/// none when the page holds no table.
pub open spec fn parsed_clocks(html: Seq<char>) -> Seq<ClocksView> {
    match first_table(html) {
        Some(t) => mapped_table(t.0, t.1),
        None => Seq::empty(),
    }
}

/// Law: a header name absent from the source table resolves every row's
/// corresponding field to the literal sentinel, for each expected column.
pub proof fn lemma_missing_column_yields_sentinel(headers: Seq<Seq<char>>, row: Seq<Seq<char>>)
    ensures
        (forall|k: int| 0 <= k < headers.len() ==> headers[k] != server_col())
            ==> clocks_of_row(headers, row).server == missing_value(),
        (forall|k: int| 0 <= k < headers.len() ==> headers[k] != time_since_heartbeat_col())
            ==> clocks_of_row(headers, row).time_since_heartbeat == missing_value(),
        (forall|k: int| 0 <= k < headers.len() ==> headers[k] != status_uptime_col())
            ==> clocks_of_row(headers, row).status_uptime == missing_value(),
        (forall|k: int| 0 <= k < headers.len() ==> headers[k] != physical_time_utc_col())
            ==> clocks_of_row(headers, row).physical_time_utc == missing_value(),
        (forall|k: int| 0 <= k < headers.len() ==> headers[k] != hybrid_time_utc_col())
            ==> clocks_of_row(headers, row).hybrid_time_utc == missing_value(),
        (forall|k: int| 0 <= k < headers.len() ==> headers[k] != heartbeat_rtt_col())
            ==> clocks_of_row(headers, row).heartbeat_rtt == missing_value(),
        (forall|k: int| 0 <= k < headers.len() ==> headers[k] != cloud_col())
            ==> clocks_of_row(headers, row).cloud == missing_value(),
        (forall|k: int| 0 <= k < headers.len() ==> headers[k] != region_col())
            ==> clocks_of_row(headers, row).region == missing_value(),
        (forall|k: int| 0 <= k < headers.len() ==> headers[k] != zone_col())
            ==> clocks_of_row(headers, row).zone == missing_value(),
{
    if forall|k: int| 0 <= k < headers.len() ==> headers[k] != server_col() {
        lemma_absent_header(headers, server_col());
    }
    if forall|k: int| 0 <= k < headers.len() ==> headers[k] != time_since_heartbeat_col() {
        lemma_absent_header(headers, time_since_heartbeat_col());
    }
    if forall|k: int| 0 <= k < headers.len() ==> headers[k] != status_uptime_col() {
        lemma_absent_header(headers, status_uptime_col());
    }
    if forall|k: int| 0 <= k < headers.len() ==> headers[k] != physical_time_utc_col() {
        lemma_absent_header(headers, physical_time_utc_col());
    }
    if forall|k: int| 0 <= k < headers.len() ==> headers[k] != hybrid_time_utc_col() {
        lemma_absent_header(headers, hybrid_time_utc_col());
    }
    if forall|k: int| 0 <= k < headers.len() ==> headers[k] != heartbeat_rtt_col() {
        lemma_absent_header(headers, heartbeat_rtt_col());
    }
    if forall|k: int| 0 <= k < headers.len() ==> headers[k] != cloud_col() {
        lemma_absent_header(headers, cloud_col());
    }
    if forall|k: int| 0 <= k < headers.len() ==> headers[k] != region_col() {
        lemma_absent_header(headers, region_col());
    }
    if forall|k: int| 0 <= k < headers.len() ==> headers[k] != zone_col() {
        lemma_absent_header(headers, zone_col());
    }
}

/// The resolved position of every expected column in one grid, computed once
/// and reused for every row.
struct ColumnPositions {
    server: Option<usize>,
    time_since_heartbeat: Option<usize>,
    status_uptime: Option<usize>,
    physical_time_utc: Option<usize>,
    hybrid_time_utc: Option<usize>,
    heartbeat_rtt: Option<usize>,
    cloud: Option<usize>,
    region: Option<usize>,
    zone: Option<usize>,
}

/// The positions agree with header-name resolution against `headers`.
spec fn column_positions_ok(p: ColumnPositions, headers: Seq<Seq<char>>) -> bool {
    &&& opt_pos(p.server) == spec_find_header(headers, server_col())
    &&& opt_pos(p.time_since_heartbeat) == spec_find_header(headers, time_since_heartbeat_col())
    &&& opt_pos(p.status_uptime) == spec_find_header(headers, status_uptime_col())
    &&& opt_pos(p.physical_time_utc) == spec_find_header(headers, physical_time_utc_col())
    &&& opt_pos(p.hybrid_time_utc) == spec_find_header(headers, hybrid_time_utc_col())
    &&& opt_pos(p.heartbeat_rtt) == spec_find_header(headers, heartbeat_rtt_col())
    &&& opt_pos(p.cloud) == spec_find_header(headers, cloud_col())
    &&& opt_pos(p.region) == spec_find_header(headers, region_col())
    &&& opt_pos(p.zone) == spec_find_header(headers, zone_col())
}

fn resolve_columns(headers: &Vec<String>) -> (p: ColumnPositions)
    ensures
        column_positions_ok(p, headers.deep_view()),
{
    ColumnPositions {
        server: find_header(headers, "Server"),
        time_since_heartbeat: find_header(headers, "Time since <br>heartbeat"),
        status_uptime: find_header(headers, "Status &amp; Uptime"),
        physical_time_utc: find_header(headers, "Physical Time (UTC)"),
        hybrid_time_utc: find_header(headers, "Hybrid Time (UTC)"),
        heartbeat_rtt: find_header(headers, "Heartbeat RTT"),
        cloud: find_header(headers, "Cloud"),
        region: find_header(headers, "Region"),
        zone: find_header(headers, "Zone"),
    }
}

/// Map one row, with columns already resolved against `hv`.
fn map_row(row: &Vec<String>, p: &ColumnPositions, Ghost(hv): Ghost<Seq<Seq<char>>>) -> (c: Clocks)
    requires
        column_positions_ok(*p, hv),
    ensures
        c@ == clocks_of_row(hv, row.deep_view()),
{
    let server: String = match p.server {
        Some(pos) => {
            if pos < row.len() {
                strip_markup(row[pos].as_str())
            } else {
                String::from_str("<Missing>")
            }
        },
        None => String::from_str("<Missing>"),
    };
    let c = Clocks {
        server,
        time_since_heartbeat: cell_or_missing(row, p.time_since_heartbeat),
        status_uptime: cell_or_missing(row, p.status_uptime),
        physical_time_utc: cell_or_missing(row, p.physical_time_utc),
        hybrid_time_utc: cell_or_missing(row, p.hybrid_time_utc),
        heartbeat_rtt: cell_or_missing(row, p.heartbeat_rtt),
        cloud: cell_or_missing(row, p.cloud),
        region: cell_or_missing(row, p.region),
        zone: cell_or_missing(row, p.zone),
    };
    proof {
        assert(c@.server == server_field(hv, row.deep_view()));
    }
    c
}

/// Map a whole extracted grid onto clock records: one record per row, each
/// field resolved by header name, independent of column order.
pub fn map_table(headers: &Vec<String>, rows: &Vec<Vec<String>>) -> (r: Vec<Clocks>)
    ensures
        clock_views(r@) == mapped_table(headers.deep_view(), rows.deep_view()),
        r@.len() == rows@.len(),
{
    let positions = resolve_columns(headers);
    let ghost hv = headers.deep_view();
    let ghost rv = rows.deep_view();
    let mut out: Vec<Clocks> = Vec::new();
    let mut i: usize = 0;
    while i < rows.len()
        invariant
            0 <= i <= rows.len(),
            hv == headers.deep_view(),
            rv == rows.deep_view(),
            column_positions_ok(positions, hv),
            out@.len() == i,
            clock_views(out@) =~= mapped_table(hv, rv.take(i as int)),
        decreases rows.len() - i,
    {
        let ghost prev = out@;
        let c = map_row(&rows[i], &positions, Ghost(hv));
        out.push(c);
        i = i + 1;
        proof {
            assert(out@ == prev.push(c));
            assert forall|k: int| 0 <= k < i implies clock_views(out@)[k] == mapped_table(
                hv,
                rv.take(i as int),
            )[k] by {
                assert(rv.take(i as int)[k] == rv[k]);
                if k < i - 1 {
                    assert(out@[k] == prev[k]);
                    assert(clock_views(prev)[k] == mapped_table(hv, rv.take(i as int - 1))[k]);
                    assert(rv.take(i as int - 1)[k] == rv[k]);
                } else {
                    assert(out@[k] == c);
                }
            }
            assert(clock_views(out@) =~= mapped_table(hv, rv.take(i as int)));
        }
    }
    proof {
        assert(rv.take(rows@.len() as int) =~= rv);
    }
    out
}

impl AllStoredClocks {
    /// Parse one raw diagnostics page into clock records: the rows of its
    /// first table, mapped by header name; no table (or a malformed page)
    /// yields no records and no error.
    pub fn parse_clocks(http_data: String) -> (r: Vec<Clocks>)
        ensures
            clock_views(r@) == parsed_clocks(http_data@),
            first_table(http_data@) is None ==> r@.len() == 0,
            first_table(http_data@) matches Some(t) ==> r@.len() == t.1.len(),
    {
        match find_table(http_data.as_str()) {
            Some(t) => map_table(&t.0, &t.1),
            None => {
                let r: Vec<Clocks> = Vec::new();
                proof {
                    assert(clock_views(r@) =~= Seq::<ClocksView>::empty());
                }
                r
            },
        }
    }
}

} // verus!

