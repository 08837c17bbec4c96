use tellbot::tells::{StoreError, Tells};

fn pair(from: &str, content: &str) -> (String, String) {
    (from.to_string(), content.to_string())
}

fn queue(tells: &mut Tells, to: &str, from: &str, content: &str) {
    tells.enqueue(to.to_string(), from.to_string(), content.to_string());
}

fn sorted_recipients(tells: &Tells) -> Vec<String> {
    let mut names = tells.recipients();
    names.sort();
    names
}

#[test]
fn tell_round_trip() {
    let mut tells = Tells::new();
    queue(&mut tells, "bob", "alice", "hi");
    assert_eq!(tells.drain("bob"), vec![pair("alice", "hi")]);
    assert_eq!(tells.drain("bob"), Vec::new());
    assert!(!tells.has_pending("bob"));
    assert!(tells.recipients().is_empty());
    assert!(tells.is_empty());
}

#[test]
fn new_store_is_empty() {
    let tells = Tells::new();
    assert!(tells.is_empty());
    assert_eq!(tells.len(), 0);
    assert!(!tells.has_pending("bob"));
    assert_eq!(tells.pending_for("bob"), Vec::new());
}

#[test]
fn messages_wait_in_the_order_they_came() {
    let mut tells = Tells::new();
    queue(&mut tells, "bob", "alice", "one");
    queue(&mut tells, "carol", "alice", "other");
    queue(&mut tells, "bob", "dave", "two");
    queue(&mut tells, "bob", "alice", "three");
    assert_eq!(tells.len(), 2);
    assert_eq!(
        tells.pending_for("bob"),
        vec![pair("alice", "one"), pair("dave", "two"), pair("alice", "three")]
    );
    assert_eq!(
        tells.drain("bob"),
        vec![pair("alice", "one"), pair("dave", "two"), pair("alice", "three")]
    );
    assert_eq!(tells.len(), 1);
    assert_eq!(tells.pending_for("carol"), vec![pair("alice", "other")]);
}

#[test]
fn draining_leaves_others_alone() {
    let mut tells = Tells::new();
    queue(&mut tells, "bob", "alice", "hi");
    queue(&mut tells, "carol", "alice", "ho");
    assert_eq!(tells.drain("dave"), Vec::new());
    assert_eq!(tells.len(), 2);
    assert_eq!(tells.drain("carol"), vec![pair("alice", "ho")]);
    assert_eq!(sorted_recipients(&tells), vec!["bob".to_string()]);
    assert!(tells.has_pending("bob"));
    assert!(!tells.has_pending("carol"));
}

#[test]
fn recipients_are_told_apart_exactly() {
    let mut tells = Tells::new();
    queue(&mut tells, "bob", "alice", "hi");
    assert!(!tells.has_pending("Bob"));
    assert!(!tells.has_pending("bo"));
    assert!(!tells.has_pending(""));
    assert_eq!(tells.drain("bobby"), Vec::new());
    assert!(tells.has_pending("bob"));
}

#[test]
fn set_replaces_a_queue() {
    let mut tells = Tells::new();
    queue(&mut tells, "bob", "alice", "old");
    tells.set("bob".to_string(), vec![pair("carol", "new"), pair("dave", "newer")]);
    assert_eq!(tells.pending_for("bob"), vec![pair("carol", "new"), pair("dave", "newer")]);
    assert_eq!(tells.len(), 1);
}

#[test]
fn set_with_nothing_drops_the_recipient() {
    let mut tells = Tells::new();
    queue(&mut tells, "bob", "alice", "old");
    tells.set("bob".to_string(), Vec::new());
    assert!(tells.is_empty());
    tells.set("carol".to_string(), Vec::new());
    assert!(tells.is_empty());
}

#[test]
fn entries_build_a_store() {
    let tells = Tells::from_entries(vec![
        ("bob".to_string(), vec![pair("alice", "hi")]),
        ("carol".to_string(), Vec::new()),
        ("bob".to_string(), vec![pair("dave", "later")]),
        ("erin".to_string(), vec![pair("alice", "a"), pair("alice", "b")]),
    ]);
    assert_eq!(sorted_recipients(&tells), vec!["bob".to_string(), "erin".to_string()]);
    assert_eq!(tells.pending_for("bob"), vec![pair("dave", "later")]);
    assert_eq!(tells.pending_for("erin"), vec![pair("alice", "a"), pair("alice", "b")]);
}

#[test]
fn later_empty_entry_drops_the_recipient() {
    let tells = Tells::from_entries(vec![
        ("bob".to_string(), vec![pair("alice", "hi")]),
        ("bob".to_string(), Vec::new()),
    ]);
    assert!(tells.is_empty());
}

#[test]
fn store_is_written_as_a_json_map() {
    let mut tells = Tells::new();
    assert_eq!(tells.to_json(), Ok("{}".to_string()));
    queue(&mut tells, "bob", "alice", "hi");
    assert_eq!(tells.to_json(), Ok("{\"bob\":[[\"alice\",\"hi\"]]}".to_string()));
}

#[test]
fn json_lists_recipients_in_order() {
    let mut tells = Tells::new();
    queue(&mut tells, "zed", "alice", "last");
    queue(&mut tells, "bob", "alice", "say \"hi\"");
    queue(&mut tells, "zed", "bob", "more");
    assert_eq!(
        tells.to_json(),
        Ok("{\"bob\":[[\"alice\",\"say \\\"hi\\\"\"]],\"zed\":[[\"alice\",\"last\"],[\"bob\",\"more\"]]}"
            .to_string())
    );
}

#[test]
fn store_is_read_from_json() {
    let tells = Tells::from_json(" { \"bob\" : [ [\"alice\", \"hi\"], [\"carol\", \"ho\"] ] } ")
        .expect("well-formed");
    assert_eq!(tells.len(), 1);
    assert_eq!(tells.pending_for("bob"), vec![pair("alice", "hi"), pair("carol", "ho")]);
}

#[test]
fn malformed_json_is_refused() {
    assert_eq!(Tells::from_json("").err(), Some(StoreError::Malformed));
    assert_eq!(Tells::from_json("{").err(), Some(StoreError::Malformed));
    assert_eq!(Tells::from_json("[]").err(), Some(StoreError::Malformed));
    assert_eq!(Tells::from_json("{\"bob\": 1}").err(), Some(StoreError::Malformed));
    assert_eq!(Tells::from_json("{\"bob\": [[\"alice\"]]}").err(), Some(StoreError::Malformed));
    assert_eq!(
        Tells::from_json("{\"bob\": [[\"alice\", \"hi\"]]} x").err(),
        Some(StoreError::Malformed)
    );
}

#[test]
fn recipients_without_messages_are_not_read() {
    let tells = Tells::from_json("{\"bob\": [], \"carol\": [[\"alice\", \"hi\"]]}")
        .expect("well-formed");
    assert_eq!(tells.recipients(), vec!["carol".to_string()]);
}

#[test]
fn repeated_recipient_in_json_keeps_the_later_queue() {
    let tells = Tells::from_json("{\"bob\": [[\"alice\", \"1\"]], \"bob\": [[\"carol\", \"2\"]]}")
        .expect("well-formed");
    assert_eq!(tells.pending_for("bob"), vec![pair("carol", "2")]);
}

#[test]
fn load_starts_empty_without_a_readable_file() {
    assert!(Tells::load(None).0.is_empty());
    assert!(Tells::load(Some("not json")).0.is_empty());
    assert!(Tells::load(Some("")).0.is_empty());
}

#[test]
fn load_tells_what_went_wrong_with_the_text() {
    assert_eq!(Tells::load(None).1, None);
    assert_eq!(Tells::load(Some("not json")).1, Some(StoreError::Malformed));
    assert_eq!(Tells::load(Some("[]")).1, Some(StoreError::Malformed));
    assert_eq!(Tells::load(Some("{}")).1, None);
    let (tells, failure) = Tells::load(Some("{\"bob\":[[\"alice\",\"hi\"]]}"));
    assert_eq!(failure, None);
    assert_eq!(tells.pending_for("bob"), vec![pair("alice", "hi")]);
}

#[test]
fn store_is_always_written() {
    let mut tells = Tells::new();
    assert!(tells.to_json().is_ok());
    queue(&mut tells, "", "", "");
    assert_eq!(tells.to_json(), Ok("{\"\":[[\"\",\"\"]]}".to_string()));
    queue(&mut tells, "caf\u{e9}", "\u{0}", "\u{1f600}\t\\");
    assert!(tells.to_json().is_ok());
    tells.drain("");
    assert_eq!(
        tells.to_json(),
        Ok("{\"caf\u{e9}\":[[\"\\u0000\",\"\u{1f600}\\t\\\\\"]]}".to_string())
    );
}

#[test]
fn load_reads_what_was_saved() {
    let mut tells = Tells::new();
    queue(&mut tells, "bob", "alice", "hi there");
    queue(&mut tells, "bob", "carol", "caf\u{e9} \"quoted\" \\ \n");
    queue(&mut tells, "zo\u{e9}", "bob", "x");
    let text = tells.to_json().expect("writable");
    let again = Tells::load(Some(&text)).0;
    assert_eq!(sorted_recipients(&again), sorted_recipients(&tells));
    assert_eq!(again.pending_for("bob"), tells.pending_for("bob"));
    assert_eq!(again.pending_for("zo\u{e9}"), tells.pending_for("zo\u{e9}"));
    assert_eq!(again.to_json(), Ok(text));
}

#[test]
fn reloading_an_untouched_file_gives_the_same_store() {
    let text = "{\"carol\":[[\"a\",\"b\"]],\"bob\":[[\"alice\",\"hi\"],[\"dave\",\"yo\"]]}";
    let first = Tells::load(Some(text)).0;
    let second = Tells::load(Some(text)).0;
    assert_eq!(sorted_recipients(&first), sorted_recipients(&second));
    assert_eq!(first.pending_for("bob"), second.pending_for("bob"));
    assert_eq!(first.pending_for("carol"), second.pending_for("carol"));
    assert_eq!(first.to_json(), second.to_json());
}
