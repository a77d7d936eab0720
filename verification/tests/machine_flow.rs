use ops_seller::lookup::find_first;
use ops_seller::machine::{
    bytes_eq, classify, Command, Disposition, Event, Exhaustion, FatalError, ItemFlow, Markers,
    Outcome, RetryPolicy, Target, WindowChoice,
};

fn policy(max_attempts: u64, on_exhaustion: Exhaustion) -> RetryPolicy {
    RetryPolicy { max_attempts, poll_interval_secs: 1, on_exhaustion }
}

fn markers() -> Markers {
    Markers {
        already_listed: b"sc-29427738-0 sc-788bb508-0 brbNiF bBXuZv".to_vec(),
        list_action: b"sc-1f719d57-0 fKAlPV sc-29427738-0 sc-788bb508-0 brbNiF bBXuZv".to_vec(),
    }
}

#[test]
fn full_listing_flow() {
    let mut flow = ItemFlow::new(policy(3, Exhaustion::Fail));
    assert_eq!(flow.step(Event::Start), Command::Navigate);
    assert_eq!(flow.step(Event::NavigateOk), Command::Query(Target::SellIndicator));
    // one miss, then the indicator is found
    assert_eq!(flow.step(Event::QueryMiss), Command::Query(Target::SellIndicator));
    assert_eq!(flow.step(Event::QueryHit(7)), Command::ReadClass(7));
    assert_eq!(
        flow.step(Event::Classified(Disposition::NeedsListing)),
        Command::Click(7)
    );
    assert_eq!(flow.step(Event::ClickOk), Command::Query(Target::PriceInput));
    assert_eq!(flow.step(Event::QueryHit(8)), Command::TypePrice(8));
    assert_eq!(flow.step(Event::TypeOk), Command::Query(Target::SubmitButton));
    assert_eq!(flow.step(Event::QueryHit(9)), Command::CountWindows);
    // baseline of one window, then submit
    assert_eq!(flow.step(Event::WindowCount(1)), Command::Click(9));
    assert_eq!(flow.step(Event::ClickOk), Command::CountWindows);
    // the popup has not opened yet; poll again, then it opens
    assert_eq!(flow.step(Event::WindowCount(1)), Command::CountWindows);
    assert_eq!(
        flow.step(Event::WindowCount(2)),
        Command::SwitchWindow(WindowChoice::Newest)
    );
    assert_eq!(flow.step(Event::SwitchOk), Command::Query(Target::ScrollControl));
    assert_eq!(flow.step(Event::QueryHit(10)), Command::Click(10));
    assert_eq!(flow.step(Event::ClickOk), Command::Query(Target::SignButton));
    assert_eq!(flow.step(Event::QueryHit(11)), Command::Click(11));
    assert_eq!(flow.step(Event::ClickOk), Command::CountWindows);
    // the popup is still open; poll again, then it closes
    assert_eq!(flow.step(Event::WindowCount(2)), Command::CountWindows);
    assert_eq!(
        flow.step(Event::WindowCount(1)),
        Command::SwitchWindow(WindowChoice::Original)
    );
    assert_eq!(flow.step(Event::SwitchOk), Command::Finish(Outcome::Listed));
    assert_eq!(flow.outcome(), Some(Outcome::Listed));
}

#[test]
fn window_delta_sequence_detects_popup_and_close() {
    // the simulated window counts [1, 1, 2, 2, 1], one per poll tick: the
    // baseline is 1; the popup is detected exactly when the count first
    // becomes 2, and the close exactly when it returns to 1
    let mut flow = ItemFlow::new(policy(2, Exhaustion::Fail));
    flow.step(Event::Start);
    flow.step(Event::NavigateOk);
    flow.step(Event::QueryHit(1));
    flow.step(Event::Classified(Disposition::NeedsListing));
    flow.step(Event::ClickOk);
    flow.step(Event::QueryHit(2));
    flow.step(Event::TypeOk);
    flow.step(Event::QueryHit(3));
    // tick 1: count 1 becomes the baseline
    assert_eq!(flow.step(Event::WindowCount(1)), Command::Click(3));
    assert_eq!(flow.step(Event::ClickOk), Command::CountWindows);
    // tick 2: count 1 == baseline: keep waiting
    assert_eq!(flow.step(Event::WindowCount(1)), Command::CountWindows);
    // tick 3: count 2 != baseline: switch to the newest window now
    assert_eq!(
        flow.step(Event::WindowCount(2)),
        Command::SwitchWindow(WindowChoice::Newest)
    );
    flow.step(Event::SwitchOk);
    flow.step(Event::QueryHit(4));
    flow.step(Event::ClickOk);
    flow.step(Event::QueryHit(5));
    assert_eq!(flow.step(Event::ClickOk), Command::CountWindows);
    // tick 4: count 2 != baseline: the popup is still open
    assert_eq!(flow.step(Event::WindowCount(2)), Command::CountWindows);
    // tick 5: count 1 == baseline: switch back to the original window now
    assert_eq!(
        flow.step(Event::WindowCount(1)),
        Command::SwitchWindow(WindowChoice::Original)
    );
}

#[test]
fn already_listed_is_terminal_without_interaction() {
    let mut flow = ItemFlow::new(policy(2, Exhaustion::Fail));
    flow.step(Event::Start);
    flow.step(Event::NavigateOk);
    flow.step(Event::QueryHit(7));
    assert_eq!(
        flow.step(Event::Classified(Disposition::AlreadyListed)),
        Command::Finish(Outcome::AlreadyListed)
    );
    assert_eq!(flow.outcome(), Some(Outcome::AlreadyListed));
}

#[test]
fn unrecognized_class_is_terminal_and_unrecorded() {
    let mut flow = ItemFlow::new(policy(2, Exhaustion::Fail));
    flow.step(Event::Start);
    flow.step(Event::NavigateOk);
    flow.step(Event::QueryHit(7));
    assert_eq!(
        flow.step(Event::Classified(Disposition::Unrecognized)),
        Command::Finish(Outcome::Unrecognized)
    );
}

#[test]
fn interaction_failures_are_fatal() {
    let mut flow = ItemFlow::new(policy(2, Exhaustion::Fail));
    flow.step(Event::Start);
    flow.step(Event::NavigateOk);
    flow.step(Event::QueryHit(7));
    flow.step(Event::Classified(Disposition::NeedsListing));
    assert_eq!(
        flow.step(Event::ClickFailed),
        Command::Finish(Outcome::Aborted(FatalError::InteractionFailed))
    );
    assert_eq!(flow.outcome(), Some(Outcome::Aborted(FatalError::InteractionFailed)));
}

#[test]
fn navigation_failure_is_fatal() {
    let mut flow = ItemFlow::new(policy(2, Exhaustion::Fail));
    flow.step(Event::Start);
    assert_eq!(
        flow.step(Event::NavigateFailed),
        Command::Finish(Outcome::Aborted(FatalError::NavigationFailed))
    );
}

#[test]
fn lookup_exhaustion_fails_the_run_under_fail_policy() {
    let mut flow = ItemFlow::new(policy(2, Exhaustion::Fail));
    flow.step(Event::Start);
    flow.step(Event::NavigateOk);
    assert_eq!(flow.step(Event::QueryMiss), Command::Query(Target::SellIndicator));
    assert_eq!(
        flow.step(Event::QueryMiss),
        Command::Finish(Outcome::Aborted(FatalError::LookupExhausted))
    );
}

#[test]
fn lookup_exhaustion_gives_the_item_up_under_escalate_policy() {
    let mut flow = ItemFlow::new(policy(2, Exhaustion::Escalate));
    flow.step(Event::Start);
    flow.step(Event::NavigateOk);
    assert_eq!(flow.step(Event::QueryMiss), Command::Query(Target::SellIndicator));
    assert_eq!(flow.step(Event::QueryMiss), Command::Finish(Outcome::GaveUp));
    assert_eq!(flow.outcome(), Some(Outcome::GaveUp));
}

#[test]
fn window_count_failures_are_retried() {
    let mut flow = ItemFlow::new(policy(2, Exhaustion::Fail));
    flow.step(Event::Start);
    flow.step(Event::NavigateOk);
    flow.step(Event::QueryHit(1));
    flow.step(Event::Classified(Disposition::NeedsListing));
    flow.step(Event::ClickOk);
    flow.step(Event::QueryHit(2));
    flow.step(Event::TypeOk);
    flow.step(Event::QueryHit(3));
    assert_eq!(flow.step(Event::WindowCountFailed), Command::CountWindows);
    assert_eq!(flow.step(Event::WindowCount(1)), Command::Click(3));
}

#[test]
fn finished_machine_stays_finished() {
    let mut flow = ItemFlow::new(policy(2, Exhaustion::Fail));
    flow.step(Event::Start);
    flow.step(Event::NavigateFailed);
    let c = flow.step(Event::ClickOk);
    assert_eq!(c, Command::Finish(Outcome::Aborted(FatalError::NavigationFailed)));
}

#[test]
fn unexpected_event_is_a_protocol_violation() {
    let mut flow = ItemFlow::new(policy(2, Exhaustion::Fail));
    flow.step(Event::Start);
    assert_eq!(
        flow.step(Event::ClickOk),
        Command::Finish(Outcome::Aborted(FatalError::ProtocolViolation))
    );
}

#[test]
fn fallback_hit_is_taken_without_retrying_the_primary() {
    // primary selector missed, fallback hit: find_first returns the fallback
    // match from the same single poll
    let outcomes: Vec<Option<u64>> = vec![None, Some(5)];
    assert_eq!(find_first(&outcomes), Some((1, 5)));
}

#[test]
fn primary_hit_wins_over_fallback() {
    let outcomes: Vec<Option<u64>> = vec![Some(3), Some(5)];
    assert_eq!(find_first(&outcomes), Some((0, 3)));
}

#[test]
fn no_hit_when_every_selector_misses() {
    let outcomes: Vec<Option<u64>> = vec![None, None];
    assert_eq!(find_first(&outcomes), None);
    let empty: Vec<Option<u64>> = vec![];
    assert_eq!(find_first(&empty), None);
}

#[test]
fn classify_matches_the_exact_markers() {
    let m = markers();
    assert_eq!(
        classify(Some(&m.already_listed.clone()), &m),
        Disposition::AlreadyListed
    );
    assert_eq!(
        classify(Some(&m.list_action.clone()), &m),
        Disposition::NeedsListing
    );
    assert_eq!(classify(Some(&b"something else".to_vec()), &m), Disposition::Unrecognized);
    assert_eq!(classify(None, &m), Disposition::Unrecognized);
}

#[test]
fn bytes_eq_compares_exactly() {
    assert!(bytes_eq(&b"abc".to_vec(), &b"abc".to_vec()));
    assert!(!bytes_eq(&b"abc".to_vec(), &b"abd".to_vec()));
    assert!(!bytes_eq(&b"abc".to_vec(), &b"ab".to_vec()));
    assert!(bytes_eq(&b"".to_vec(), &b"".to_vec()));
}
