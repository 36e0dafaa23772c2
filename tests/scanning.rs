use topic_scanner::addresses::{Address, DiscoveredAddresses};
use topic_scanner::batches::BlockBatch;
use topic_scanner::scanner::{ChainError, ScanAction, ScanError, ScanPhase, Scanner};

fn addr(n: u32) -> Address {
    Address::new(0x1111, 0x2222, n)
}

/// Answers each requested window with the next entry of `responses`, and the
/// head query with `head`; returns the windows requested and the final action.
fn drive(
    scanner: &mut Scanner,
    head: Result<u64, ChainError>,
    responses: &[Result<Vec<Address>, ChainError>],
) -> (Vec<BlockBatch>, ScanAction) {
    let mut asked = vec![];
    let mut action = scanner.begin();
    loop {
        action = match action {
            ScanAction::ResolveHead => scanner.on_head(head),
            ScanAction::QueryLogs(w) => {
                let k = asked.len();
                asked.push(w);
                scanner.on_logs(responses[k].clone())
            }
            done => return (asked, done),
        }
    }
}

#[test]
fn inserting_twice_changes_nothing() {
    let mut d = DiscoveredAddresses::new();
    assert!(d.insert(addr(1)));
    let once = d.to_vec();
    assert!(!d.insert(addr(1)));
    assert_eq!(d.to_vec(), once);
    assert_eq!(d.len(), 1);
    assert!(d.contains(addr(1)));
    assert!(!d.contains(addr(2)));
}

#[test]
fn duplicates_within_a_window_are_held_once() {
    let (a, b) = (addr(0xa), addr(0xb));
    let mut s = Scanner::new(1, 100, Some(100), 10000);
    let (asked, done) = drive(&mut s, Err(ChainError::HeadUnavailable), &[Ok(vec![a, b, a])]);
    assert_eq!(asked, vec![BlockBatch { from: 100, to: 100 }]);
    match done {
        ScanAction::Finished(r) => {
            assert_eq!(r.addresses.to_vec(), vec![a, b]);
            assert_eq!(r.last_scanned_block, 100);
        }
        _ => panic!("scan did not finish"),
    }
    assert_eq!(s.phase(), ScanPhase::Completed);
}

#[test]
fn duplicates_across_windows_are_held_once() {
    let a = addr(0xa);
    let mut s = Scanner::new(1, 0, Some(15), 10);
    let (asked, done) = drive(&mut s, Ok(0), &[Ok(vec![a]), Ok(vec![a])]);
    assert_eq!(asked.len(), 2);
    match done {
        ScanAction::Finished(r) => {
            assert_eq!(r.addresses.len(), 1);
            assert_eq!(r.addresses.get(0), a);
            assert_eq!(r.last_scanned_block, 15);
        }
        _ => panic!("scan did not finish"),
    }
}

#[test]
fn same_responses_give_same_result() {
    let responses = vec![Ok(vec![addr(3), addr(1)]), Ok(vec![]), Ok(vec![addr(1), addr(2), addr(3)])];
    let mut first = Scanner::new(5, 0, Some(25), 10);
    let mut second = Scanner::new(5, 0, Some(25), 10);
    let (_, x) = drive(&mut first, Ok(0), &responses);
    let (_, y) = drive(&mut second, Ok(0), &responses);
    match (x, y) {
        (ScanAction::Finished(x), ScanAction::Finished(y)) => {
            assert_eq!(x.addresses.to_vec(), y.addresses.to_vec());
            assert_eq!(x.addresses.to_vec(), vec![addr(3), addr(1), addr(2)]);
            assert_eq!(x.last_scanned_block, y.last_scanned_block);
            assert_eq!(x.last_scanned_block, 25);
        }
        _ => panic!("scans did not finish"),
    }
}

#[test]
fn head_resolved_once_bounds_every_window() {
    let mut s = Scanner::new(1, 0, None, 10000);
    assert!(matches!(s.begin(), ScanAction::ResolveHead));
    assert_eq!(s.phase(), ScanPhase::AwaitingHead);
    let mut asked = vec![];
    let mut action = s.on_head(Ok(25000));
    while let ScanAction::QueryLogs(w) = action {
        asked.push(w);
        action = s.on_logs(Ok(vec![]));
    }
    assert_eq!(
        asked,
        vec![
            BlockBatch { from: 0, to: 9999 },
            BlockBatch { from: 10000, to: 19999 },
            BlockBatch { from: 20000, to: 25000 },
        ]
    );
    match action {
        ScanAction::Finished(r) => {
            assert_eq!(r.last_scanned_block, 25000);
            assert_eq!(r.addresses.len(), 0);
        }
        _ => panic!("scan did not finish"),
    }
}

#[test]
fn failed_query_stops_the_scan() {
    let mut s = Scanner::new(1, 0, Some(29), 10);
    let responses = vec![Ok(vec![addr(1)]), Err(ChainError::RequestFailed), Ok(vec![addr(2)])];
    let (asked, done) = drive(&mut s, Ok(0), &responses);
    assert_eq!(asked.len(), 2);
    match done {
        ScanAction::Failed(e) => assert_eq!(
            e,
            ScanError::QueryFailed {
                window: BlockBatch { from: 10, to: 19 },
                cause: ChainError::RequestFailed,
            }
        ),
        _ => panic!("scan did not fail"),
    }
    assert_eq!(s.phase(), ScanPhase::Failed);
}

#[test]
fn failed_head_query_stops_the_scan() {
    let mut s = Scanner::new(1, 0, None, 10);
    let (asked, done) = drive(&mut s, Err(ChainError::ConnectionFailed), &[]);
    assert!(asked.is_empty());
    match done {
        ScanAction::Failed(e) => {
            assert_eq!(e, ScanError::HeadUnavailable { cause: ChainError::ConnectionFailed })
        }
        _ => panic!("scan did not fail"),
    }
}

#[test]
fn empty_range_finishes_at_once() {
    let mut s = Scanner::new(9, 50, Some(10), 10);
    assert_eq!(s.chain_id(), 9);
    match s.begin() {
        ScanAction::Finished(r) => {
            assert_eq!(r.last_scanned_block, 50);
            assert_eq!(r.addresses.len(), 0);
        }
        _ => panic!("scan did not finish"),
    }
}
