use ops_seller::machine::{
    Command, Disposition, Event, Exhaustion, FatalError, ItemFlow, Outcome, RetryPolicy, Target,
    WindowChoice,
};
use ops_seller::progress::ProgressRecord;
use ops_seller::run::{
    load_progress, AfterItem, ConfigError, ItemPlan, ItemResult, PriceValue, RunStatus,
    SellConfig, SellRun,
};

fn policy() -> RetryPolicy {
    RetryPolicy { max_attempts: 3, poll_interval_secs: 1, on_exhaustion: Exhaustion::Fail }
}

fn config(start: u64, end: u64, price: &str) -> SellConfig {
    SellConfig {
        address: b"https://market.example/assets/0xabc/".to_vec(),
        start,
        end,
        price: PriceValue::new(price.as_bytes().to_vec()).expect("price must be valid"),
        policy: policy(),
    }
}

/// Drives one item's state machine through the full happy listing flow, the
/// way the browser driver would, and returns its outcome.
fn drive_full_flow(run: &SellRun) -> Outcome {
    let mut flow = ItemFlow::new(run.policy());
    assert_eq!(flow.step(Event::Start), Command::Navigate);
    assert_eq!(flow.step(Event::NavigateOk), Command::Query(Target::SellIndicator));
    assert_eq!(flow.step(Event::QueryHit(1)), Command::ReadClass(1));
    assert_eq!(flow.step(Event::Classified(Disposition::NeedsListing)), Command::Click(1));
    assert_eq!(flow.step(Event::ClickOk), Command::Query(Target::PriceInput));
    assert_eq!(flow.step(Event::QueryHit(2)), Command::TypePrice(2));
    assert_eq!(flow.step(Event::TypeOk), Command::Query(Target::SubmitButton));
    assert_eq!(flow.step(Event::QueryHit(3)), Command::CountWindows);
    // window counts: baseline 1, popup opens (2), popup closes (1)
    assert_eq!(flow.step(Event::WindowCount(1)), Command::Click(3));
    assert_eq!(flow.step(Event::ClickOk), Command::CountWindows);
    assert_eq!(flow.step(Event::WindowCount(2)), Command::SwitchWindow(WindowChoice::Newest));
    assert_eq!(flow.step(Event::SwitchOk), Command::Query(Target::ScrollControl));
    assert_eq!(flow.step(Event::QueryHit(4)), Command::Click(4));
    assert_eq!(flow.step(Event::ClickOk), Command::Query(Target::SignButton));
    assert_eq!(flow.step(Event::QueryHit(5)), Command::Click(5));
    assert_eq!(flow.step(Event::ClickOk), Command::CountWindows);
    assert_eq!(flow.step(Event::WindowCount(1)), Command::SwitchWindow(WindowChoice::Original));
    match flow.step(Event::SwitchOk) {
        Command::Finish(outcome) => outcome,
        other => panic!("expected the flow to finish, got {:?}", other),
    }
}

#[test]
fn end_to_end_scenario() {
    // range [100, 102], price 0.5, progress initially {101}: 100 is processed
    // in full, 101 is skipped without any browser interaction, 102 is
    // processed in full; the snapshot is written exactly twice
    let mut initial = ProgressRecord::new();
    initial.record(101);
    let mut run = SellRun::new(config(100, 102, "0.5"), initial);
    let mut persists: Vec<Vec<u8>> = Vec::new();
    let mut processed: Vec<u64> = Vec::new();
    while let Some(id) = run.current() {
        let after = match run.begin_item() {
            ItemPlan::Skip => run.finish_item(ItemResult::Skipped),
            ItemPlan::Process => {
                processed.push(id);
                let outcome = drive_full_flow(&run);
                run.finish_item(ItemResult::Done(outcome))
            },
        };
        match after {
            AfterItem::Continue => {},
            AfterItem::PersistNeeded => {
                persists.push(run.snapshot_bytes());
                run.persist_result(true);
            },
            AfterItem::RunAborted => break,
        }
    }
    assert_eq!(run.status(), RunStatus::Finished);
    assert_eq!(processed, vec![100, 102]);
    assert_eq!(persists.len(), 2, "the snapshot is written exactly twice");
    // final record holds exactly {101, 100, 102}
    assert!(run.recorded(100));
    assert!(run.recorded(101));
    assert!(run.recorded(102));
    assert!(!run.recorded(103));
    assert_eq!(run.snapshot_bytes(), b"{\"items\":[101,100,102]}".to_vec());
}

#[test]
fn skipped_item_has_no_interaction_and_no_write() {
    let mut initial = ProgressRecord::new();
    initial.record(100);
    let mut run = SellRun::new(config(100, 100, "0.5"), initial);
    let before = run.snapshot_bytes();
    assert_eq!(run.current(), Some(100));
    // the id is already recorded: the plan is to skip, the state machine is
    // never constructed, and no persist is owed
    assert_eq!(run.begin_item(), ItemPlan::Skip);
    assert_eq!(run.finish_item(ItemResult::Skipped), AfterItem::Continue);
    assert_eq!(run.snapshot_bytes(), before);
    assert_eq!(run.status(), RunStatus::Finished);
}

#[test]
fn fatal_persistence_failure_stops_the_run_with_memory_intact() {
    // simulated write failure after processing id 100: the run terminates
    // without processing 101 or 102, but the in-memory record holds 100
    let mut run = SellRun::new(config(100, 102, "0.5"), ProgressRecord::new());
    assert_eq!(run.current(), Some(100));
    assert_eq!(run.begin_item(), ItemPlan::Process);
    let after = run.finish_item(ItemResult::Done(Outcome::Listed));
    assert_eq!(after, AfterItem::PersistNeeded);
    let _unwritten = run.snapshot_bytes();
    run.persist_result(false);
    assert_eq!(run.status(), RunStatus::Aborted(FatalError::PersistenceFailed));
    assert_eq!(run.current(), None, "no further item is processed");
    assert!(run.recorded(100), "the unsaved item is still correct in memory");
    assert!(!run.recorded(101));
    assert!(!run.recorded(102));
}

#[test]
fn aborted_outcome_stops_the_run() {
    let mut run = SellRun::new(config(1, 5, "2"), ProgressRecord::new());
    assert_eq!(run.begin_item(), ItemPlan::Process);
    let after = run.finish_item(ItemResult::Done(Outcome::Aborted(FatalError::LookupExhausted)));
    assert_eq!(after, AfterItem::RunAborted);
    assert_eq!(run.status(), RunStatus::Aborted(FatalError::LookupExhausted));
    assert_eq!(run.current(), None);
    assert!(!run.recorded(1));
}

#[test]
fn unrecognized_item_is_persisted_but_not_recorded() {
    let mut run = SellRun::new(config(7, 8, "1"), ProgressRecord::new());
    let after = run.finish_item(ItemResult::Done(Outcome::Unrecognized));
    assert_eq!(after, AfterItem::PersistNeeded);
    assert!(!run.recorded(7));
    assert_eq!(run.current(), Some(8));
}

#[test]
fn record_only_grows_across_a_run() {
    let mut run = SellRun::new(config(1, 3, "1"), ProgressRecord::new());
    run.finish_item(ItemResult::Done(Outcome::Listed));
    assert!(run.recorded(1));
    run.finish_item(ItemResult::Done(Outcome::GaveUp));
    assert!(run.recorded(1));
    assert!(!run.recorded(2));
    run.finish_item(ItemResult::Done(Outcome::AlreadyListed));
    assert!(run.recorded(1), "an id, once recorded, stays recorded");
    assert!(run.recorded(3));
    assert_eq!(run.status(), RunStatus::Finished);
}

#[test]
fn empty_range_finishes_before_it_starts() {
    let run = SellRun::new(config(10, 9, "1"), ProgressRecord::new());
    assert_eq!(run.status(), RunStatus::Finished);
    assert_eq!(run.current(), None);
}

#[test]
fn listing_target_appends_the_id_digits() {
    let run = SellRun::new(config(105, 200, "1"), ProgressRecord::new());
    assert_eq!(
        run.current_target(),
        b"https://market.example/assets/0xabc/105".to_vec()
    );
}

#[test]
fn price_text_grammar() {
    for good in ["0.5", "1", "12", "0.50", "10.25", "007.250"] {
        assert!(
            PriceValue::new(good.as_bytes().to_vec()).is_ok(),
            "{} should be a valid price",
            good
        );
    }
    for bad in ["", "0", "00.00", ".5", "5.", "1.2.3", "abc", "-1", "1e3", " 1"] {
        assert!(
            matches!(
                PriceValue::new(bad.as_bytes().to_vec()),
                Err(ConfigError::InvalidPrice)
            ),
            "{} should be rejected",
            bad
        );
    }
}

#[test]
fn price_keeps_its_text() {
    let p = PriceValue::new(b"0.5".to_vec()).expect("valid");
    assert_eq!(p.text().clone(), b"0.5".to_vec());
}

#[test]
fn load_progress_fresh_when_no_snapshot_or_declined() {
    let rec = load_progress(None, true).expect("fresh start");
    assert_eq!(rec.len(), 0);
    let prior = b"{\"items\":[4]}".to_vec();
    let rec = load_progress(Some(&prior), false).expect("declined reuse starts fresh");
    assert_eq!(rec.len(), 0);
}

#[test]
fn load_progress_reuses_a_valid_snapshot() {
    let prior = b"{\"items\":[4,9]}".to_vec();
    let rec = load_progress(Some(&prior), true).expect("valid snapshot");
    assert!(rec.contains(4));
    assert!(rec.contains(9));
    assert!(!rec.contains(5));
}

#[test]
fn load_progress_corrupt_snapshot_is_fatal() {
    let prior = b"{\"items\":[4,9}".to_vec();
    let r = load_progress(Some(&prior), true);
    assert!(matches!(r, Err(FatalError::CorruptSnapshot)));
}
