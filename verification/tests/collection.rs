//! Aggregation across an address space: task count, record count, and
//! arrival-order irrelevance.

use clock_collector::collect::{address_space, NodeClocks};
use clock_collector::records::{Address, AllStoredClocks};

fn two_row_page() -> String {
    String::from(
        "<table><tr><th>Server</th><th>Zone</th></tr>\
         <tr><td>yb-1</td><td>z1</td></tr>\
         <tr><td>yb-2</td><td>z2</td></tr></table>",
    )
}

fn delivery(host: &str, port: &str, timestamp: i64, page: String) -> NodeClocks {
    let address = Address { host: String::from(host), port: String::from(port) };
    NodeClocks {
        hostname_port: address.label(),
        timestamp,
        clocks: AllStoredClocks::parse_clocks(page),
    }
}

/// The records of a collection as an order-insensitive fingerprint.
fn as_sorted_set(all: &AllStoredClocks) -> Vec<String> {
    let mut keys: Vec<String> = all
        .stored_clocks
        .iter()
        .map(|r| format!("{}|{}|{}|{}", r.hostname_port, r.timestamp, r.server, r.zone))
        .collect();
    keys.sort();
    keys
}

#[test]
fn address_space_is_full_cross_product() {
    let hosts = vec![String::from("h1"), String::from("h2"), String::from("h3")];
    let ports = vec![String::from("9000"), String::from("7000")];
    let addresses = address_space(&hosts, &ports);
    assert_eq!(addresses.len(), 6);
    let labels: Vec<String> = addresses.iter().map(|a| a.label()).collect();
    assert!(labels.contains(&String::from("h1:9000")));
    assert!(labels.contains(&String::from("h1:7000")));
    assert!(labels.contains(&String::from("h2:9000")));
    assert!(labels.contains(&String::from("h2:7000")));
    assert!(labels.contains(&String::from("h3:9000")));
    assert!(labels.contains(&String::from("h3:7000")));
}

#[test]
fn address_space_of_no_hosts_is_empty() {
    let hosts: Vec<String> = Vec::new();
    let ports = vec![String::from("9000")];
    assert_eq!(address_space(&hosts, &ports).len(), 0);
}

#[test]
fn record_count_is_sum_of_row_counts() {
    // Four tasks: two nodes answer with two rows each, two are unreachable
    // (their fetch degrades to empty text, so zero records — no error).
    let responses = vec![
        delivery("h1", "9000", 1, two_row_page()),
        delivery("h1", "7000", 2, String::new()),
        delivery("h2", "9000", 3, two_row_page()),
        delivery("h2", "7000", 4, String::new()),
    ];
    let all = AllStoredClocks::read_clocks(responses);
    assert_eq!(all.stored_clocks.len(), 4);
}

#[test]
fn unreachable_host_contributes_nothing() {
    // Two hosts on one port: host A answers a two-row table, host B is
    // unreachable.  The collection holds exactly the two records of A.
    let responses = vec![
        delivery("A", "9000", 10, two_row_page()),
        delivery("B", "9000", 11, String::new()),
    ];
    let all = AllStoredClocks::read_clocks(responses);
    assert_eq!(all.stored_clocks.len(), 2);
    for record in &all.stored_clocks {
        assert_eq!(record.hostname_port, "A:9000");
        assert_eq!(record.timestamp, 10);
    }
    assert_eq!(all.stored_clocks[0].server, "yb-1");
    assert_eq!(all.stored_clocks[1].server, "yb-2");
}

#[test]
fn arrival_order_is_irrelevant_as_a_set() {
    // The fan-in delivers in whatever order workers finish: the collection
    // must be compared as a set of records, never as a sequence.
    let forward = vec![
        delivery("h1", "9000", 1, two_row_page()),
        delivery("h2", "9000", 2, two_row_page()),
        delivery("h3", "9000", 3, String::new()),
    ];
    let backward = vec![
        delivery("h3", "9000", 3, String::new()),
        delivery("h2", "9000", 2, two_row_page()),
        delivery("h1", "9000", 1, two_row_page()),
    ];
    let a = AllStoredClocks::read_clocks(forward);
    let b = AllStoredClocks::read_clocks(backward);
    assert_eq!(as_sorted_set(&a), as_sorted_set(&b));
}

#[test]
fn aggregation_keeps_labels_and_timestamps() {
    let page = String::from(
        "<table><tr><th>Server</th></tr><tr><td>only</td></tr></table>",
    );
    let responses = vec![delivery("node-7", "7000", 1647434017, page)];
    let all = AllStoredClocks::read_clocks(responses);
    assert_eq!(all.stored_clocks.len(), 1);
    assert_eq!(all.stored_clocks[0].hostname_port, "node-7:7000");
    assert_eq!(all.stored_clocks[0].timestamp, 1647434017);
    assert_eq!(all.stored_clocks[0].server, "only");
    assert_eq!(all.stored_clocks[0].zone, "<Missing>");
}

#[test]
fn new_collection_is_empty() {
    assert_eq!(AllStoredClocks::new().stored_clocks.len(), 0);
}
