use resp2chat::debug_ui::{DebugFeed, FeedAction, FeedEvent};

fn payloads(texts: &[&str]) -> Vec<Option<String>> {
    texts
        .iter()
        .map(|text| if text.is_empty() { None } else { Some(text.to_string()) })
        .collect()
}

fn update(sequence: u64, texts: &[&str]) -> FeedEvent {
    FeedEvent::Update { sequence, payloads: payloads(texts) }
}

fn drain(feed: &mut DebugFeed) -> Vec<String> {
    let mut sent = Vec::new();
    while let FeedAction::Send { payload } = feed.action() {
        sent.push(payload);
        feed.handle(FeedEvent::Sent);
    }
    sent
}

#[test]
fn the_snapshot_comes_first_and_newer_updates_follow() {
    let mut feed = DebugFeed::start(4, payloads(&["a", "", "b"]));
    assert_eq!(drain(&mut feed), vec!["a", "b"]);
    assert_eq!(feed.action(), FeedAction::Receive);
    feed.handle(update(3, &["old"]));
    feed.handle(update(4, &["covered"]));
    assert_eq!(feed.action(), FeedAction::Receive);
    feed.handle(update(5, &["c", "", "d"]));
    feed.handle(update(6, &["e"]));
    assert_eq!(drain(&mut feed), vec!["c", "d", "e"]);
    assert_eq!(feed.action(), FeedAction::Receive);
}

#[test]
fn a_failed_send_leaves_the_socket() {
    let mut feed = DebugFeed::start(0, payloads(&["a", "b"]));
    feed.handle(FeedEvent::Sent);
    feed.handle(FeedEvent::SendFailed);
    assert_eq!(feed.action(), FeedAction::Stop);
    feed.handle(FeedEvent::Sent);
    feed.handle(update(9, &["c"]));
    assert_eq!(feed.action(), FeedAction::Stop);
}

#[test]
fn a_lagging_or_closed_monitor_leaves_the_socket() {
    let mut lagging = DebugFeed::start(0, vec![]);
    assert_eq!(lagging.action(), FeedAction::Receive);
    lagging.handle(FeedEvent::Lagged);
    assert_eq!(lagging.action(), FeedAction::Stop);
    let mut closed = DebugFeed::start(0, vec![]);
    closed.handle(FeedEvent::Closed);
    assert_eq!(closed.action(), FeedAction::Stop);
}

#[test]
fn nothing_is_sent_without_a_payload() {
    let mut feed = DebugFeed::start(0, payloads(&["", ""]));
    assert_eq!(feed.action(), FeedAction::Receive);
    feed.handle(FeedEvent::Sent);
    assert_eq!(feed.action(), FeedAction::Receive);
    feed.handle(update(1, &["a"]));
    assert_eq!(feed.action(), FeedAction::Send { payload: "a".to_string() });
}
