use shlog::devices::device_nodes;
use shlog::display::setup::CARD_PREFIX;
use shlog::keyboard::EVENT_PREFIX;

fn nodes(names: &[&str], prefix: &str) -> Vec<String> {
    let names: Vec<String> = names.iter().map(|name| name.to_string()).collect();
    device_nodes(&names, prefix)
}

#[test]
fn nodes_are_filtered_and_sorted() {
    assert_eq!(
        nodes(&["renderD128", "card1", "by-path", "card0", "controlD64"], CARD_PREFIX),
        ["card0", "card1"]
    );
}

#[test]
fn nodes_are_sorted_by_bytes() {
    assert_eq!(
        nodes(&["event2", "mice", "event10", "event1", "event"], EVENT_PREFIX),
        ["event", "event1", "event10", "event2"]
    );
}

#[test]
fn an_order_is_the_one_of_the_standard_library() {
    let names = ["card\u{e9}", "cardz", "card", "card\u{10000}", "card\u{ffff}", "cardZ", "card"];
    let mut expected: Vec<String> = names.iter().map(|name| name.to_string()).collect();
    expected.sort();
    assert_eq!(nodes(&names, "card"), expected);
}

#[test]
fn no_names_give_no_nodes() {
    assert!(nodes(&[], "event").is_empty());
    assert!(nodes(&["even", "xevent0"], "event").is_empty());
}
