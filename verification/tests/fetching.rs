use lcsc_scrape::fetch::{fetch_step, FetchAction, FetchEvent, FetchOptions, PartStage, Tally};

fn options(jlc_data: bool, cache_only: bool) -> FetchOptions {
    FetchOptions {
        jlc_data,
        refresh_cache_jlc: false,
        refresh_cache_lcsc: false,
        download_to_cache_only: cache_only,
    }
}

/// Runs the steps of one part with the given answers, returning the actions
/// and what was counted.
fn run(o: FetchOptions, answers: &[FetchEvent]) -> (Vec<FetchAction>, Vec<Tally>) {
    let mut stage = PartStage::Start;
    let mut event = FetchEvent::Begin;
    let mut actions = Vec::new();
    let mut tallies = Vec::new();
    let mut next_answer = answers.iter();
    loop {
        let (s, a, t) = fetch_step(o, stage, event);
        actions.push(a);
        tallies.push(t);
        stage = s;
        if a == FetchAction::NextPart {
            return (actions, tallies);
        }
        event = *next_answer.next().expect("an answer for every action");
    }
}

#[test]
fn jlc_then_page_are_read_and_stored() {
    let (actions, tallies) = run(
        options(true, false),
        &[
            FetchEvent::Cache { present: false, len: 0 },
            FetchEvent::Downloaded { ok: true, present: true },
            FetchEvent::Read,
            FetchEvent::Cache { present: true, len: 10 },
            FetchEvent::Read,
        ],
    );
    assert_eq!(
        actions,
        vec![
            FetchAction::InspectJlcCache,
            FetchAction::DownloadJlc,
            FetchAction::ReadJlc,
            FetchAction::InspectLcscCache,
            FetchAction::StorePart,
            FetchAction::NextPart,
        ]
    );
    assert_eq!(
        tallies,
        vec![
            Tally::Nothing,
            Tally::Nothing,
            Tally::Downloaded,
            Tally::Nothing,
            Tally::Cached,
            Tally::Nothing,
        ]
    );
}

#[test]
fn failed_page_download_skips_the_part() {
    let (actions, _) = run(
        options(false, false),
        &[FetchEvent::Cache { present: true, len: 0 }, FetchEvent::Downloaded { ok: false, present: true }],
    );
    assert_eq!(
        actions,
        vec![FetchAction::InspectLcscCache, FetchAction::DownloadLcsc, FetchAction::NextPart]
    );
}

#[test]
fn cache_only_reads_nothing() {
    let (actions, tallies) = run(
        options(true, true),
        &[FetchEvent::Cache { present: true, len: 5 }, FetchEvent::Cache { present: true, len: 5 }],
    );
    assert_eq!(
        actions,
        vec![FetchAction::InspectJlcCache, FetchAction::InspectLcscCache, FetchAction::NextPart]
    );
    assert_eq!(tallies, vec![Tally::Nothing, Tally::Cached, Tally::Cached]);
}

#[test]
fn failed_jlc_download_reads_an_old_copy() {
    let mut o = options(true, false);
    o.refresh_cache_jlc = true;
    let (actions, _) = run(
        o,
        &[
            FetchEvent::Cache { present: true, len: 5 },
            FetchEvent::Downloaded { ok: false, present: true },
            FetchEvent::Read,
            FetchEvent::Cache { present: false, len: 0 },
            FetchEvent::Downloaded { ok: true, present: true },
            FetchEvent::Read,
        ],
    );
    assert_eq!(
        actions,
        vec![
            FetchAction::InspectJlcCache,
            FetchAction::DownloadJlc,
            FetchAction::ReadJlc,
            FetchAction::InspectLcscCache,
            FetchAction::DownloadLcsc,
            FetchAction::StorePart,
            FetchAction::NextPart,
        ]
    );
}

#[test]
fn event_out_of_place_ends_the_part() {
    let (s, a, t) = fetch_step(options(true, false), PartStage::JlcCache, FetchEvent::Read);
    assert_eq!((s, a, t), (PartStage::Done, FetchAction::NextPart, Tally::Nothing));
}
