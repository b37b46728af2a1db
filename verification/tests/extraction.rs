//! Table extraction and field mapping on concrete pages.

use clock_collector::records::AllStoredClocks;

/// A fixture table whose nine expected columns come in a scrambled order and
/// whose server cells embed markup.
fn fixture_table() -> String {
    let mut html = String::new();
    html.push_str("<html><body><h2>Tablet server clocks</h2><table>");
    html.push_str("<tr><th>Zone</th><th>Server</th><th>Cloud</th>");
    html.push_str("<th>Time since <br>heartbeat</th><th>Region</th>");
    html.push_str("<th>Status &amp; Uptime</th><th>Physical Time (UTC)</th>");
    html.push_str("<th>Heartbeat RTT</th><th>Hybrid Time (UTC)</th></tr>");
    html.push_str("<tr><td>z1</td><td><a href=\"http://h1:9000\">yb-1.local:9000</a></td>");
    html.push_str("<td>aws</td><td>0.5s</td><td>eu-west-1</td><td>ALIVE: 3:10:11</td>");
    html.push_str("<td>2022-03-16 12:33:37</td><td>0.41ms</td><td>6798497184328982528</td></tr>");
    html.push_str("<tr><td>z2</td><td><span class=\"lbl\">yb-2.local:9000</span></td>");
    html.push_str("<td>gcp</td><td>1.2s</td><td>us-east1</td><td>ALIVE: 0:59:00</td>");
    html.push_str("<td>2022-03-16 12:33:38</td><td>1.25ms</td><td>6798497184328982529</td></tr>");
    html.push_str("</table></body></html>");
    html
}

#[test]
fn no_table_yields_no_records() {
    let records = AllStoredClocks::parse_clocks(String::from(
        "<html><body><h2>No data here</h2><p>just text</p></body></html>",
    ));
    assert_eq!(records.len(), 0);
}

#[test]
fn empty_input_yields_no_records() {
    let records = AllStoredClocks::parse_clocks(String::new());
    assert_eq!(records.len(), 0);
}

#[test]
fn malformed_input_yields_no_records() {
    let records = AllStoredClocks::parse_clocks(String::from("<<<table oops"));
    assert_eq!(records.len(), 0);
}

#[test]
fn header_only_table_yields_no_records() {
    let records = AllStoredClocks::parse_clocks(String::from(
        "<table><tr><th>Server</th><th>Zone</th></tr></table>",
    ));
    assert_eq!(records.len(), 0);
}

#[test]
fn scrambled_columns_map_by_header_name() {
    let records = AllStoredClocks::parse_clocks(fixture_table());
    assert_eq!(records.len(), 2);

    assert_eq!(records[0].server, "yb-1.local:9000");
    assert_eq!(records[0].time_since_heartbeat, "0.5s");
    assert_eq!(records[0].status_uptime, "ALIVE: 3:10:11");
    assert_eq!(records[0].physical_time_utc, "2022-03-16 12:33:37");
    assert_eq!(records[0].hybrid_time_utc, "6798497184328982528");
    assert_eq!(records[0].heartbeat_rtt, "0.41ms");
    assert_eq!(records[0].cloud, "aws");
    assert_eq!(records[0].region, "eu-west-1");
    assert_eq!(records[0].zone, "z1");

    assert_eq!(records[1].server, "yb-2.local:9000");
    assert_eq!(records[1].time_since_heartbeat, "1.2s");
    assert_eq!(records[1].status_uptime, "ALIVE: 0:59:00");
    assert_eq!(records[1].physical_time_utc, "2022-03-16 12:33:38");
    assert_eq!(records[1].hybrid_time_utc, "6798497184328982529");
    assert_eq!(records[1].heartbeat_rtt, "1.25ms");
    assert_eq!(records[1].cloud, "gcp");
    assert_eq!(records[1].region, "us-east1");
    assert_eq!(records[1].zone, "z2");
}

#[test]
fn only_first_table_is_considered() {
    let html = String::from(
        "<table><tr><th>Server</th></tr><tr><td>first</td></tr></table>\
         <table><tr><th>Server</th></tr><tr><td>second</td></tr><tr><td>third</td></tr></table>",
    );
    let records = AllStoredClocks::parse_clocks(html);
    assert_eq!(records.len(), 1);
    assert_eq!(records[0].server, "first");
}

#[test]
fn absent_column_yields_sentinel() {
    // The fixture with its Zone column removed.
    let html = String::from(
        "<table><tr><th>Server</th><th>Time since <br>heartbeat</th>\
         <th>Status &amp; Uptime</th><th>Physical Time (UTC)</th><th>Hybrid Time (UTC)</th>\
         <th>Heartbeat RTT</th><th>Cloud</th><th>Region</th></tr>\
         <tr><td>yb-1</td><td>0.5s</td><td>ALIVE</td><td>t1</td><td>t2</td>\
         <td>1ms</td><td>aws</td><td>eu</td></tr>\
         <tr><td>yb-2</td><td>0.6s</td><td>ALIVE</td><td>t3</td><td>t4</td>\
         <td>2ms</td><td>gcp</td><td>us</td></tr></table>",
    );
    let records = AllStoredClocks::parse_clocks(html);
    assert_eq!(records.len(), 2);
    assert_eq!(records[0].zone, "<Missing>");
    assert_eq!(records[1].zone, "<Missing>");
    assert_eq!(records[0].server, "yb-1");
    assert_eq!(records[0].region, "eu");
}

#[test]
fn absent_server_column_yields_sentinel() {
    let html = String::from(
        "<table><tr><th>Zone</th><th>Region</th></tr>\
         <tr><td>z1</td><td>eu</td></tr></table>",
    );
    let records = AllStoredClocks::parse_clocks(html);
    assert_eq!(records.len(), 1);
    assert_eq!(records[0].server, "<Missing>");
    assert_eq!(records[0].zone, "z1");
    assert_eq!(records[0].region, "eu");
    assert_eq!(records[0].cloud, "<Missing>");
    assert_eq!(records[0].heartbeat_rtt, "<Missing>");
}

#[test]
fn short_row_yields_sentinel_for_trailing_cells() {
    let html = String::from(
        "<table><tr><th>Server</th><th>Zone</th></tr>\
         <tr><td>yb-1</td></tr></table>",
    );
    let records = AllStoredClocks::parse_clocks(html);
    assert_eq!(records.len(), 1);
    assert_eq!(records[0].server, "yb-1");
    assert_eq!(records[0].zone, "<Missing>");
}

#[test]
fn cell_whitespace_is_trimmed() {
    let html = String::from(
        "<table><tr><th> Server </th><th> Zone </th></tr>\
         <tr><td>  yb-1  </td><td>\n z9 \n</td></tr></table>",
    );
    let records = AllStoredClocks::parse_clocks(html);
    assert_eq!(records.len(), 1);
    assert_eq!(records[0].server, "yb-1");
    assert_eq!(records[0].zone, "z9");
}
