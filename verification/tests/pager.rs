use observatory::ident::ChainId;
use observatory::pager::{PagerRequest, PagerResponse, PagerService};

fn cid(s: &str) -> ChainId {
    ChainId::new(s.as_bytes().to_vec())
}

fn event(chain: &str, missed: usize, recent: usize) -> PagerRequest {
    PagerRequest::Event {
        chain_id: cid(chain),
        missed_blocks: missed,
        recent_blocks: recent,
    }
}

fn drain(service: &mut PagerService) -> Vec<observatory::pager::PagerAlarm> {
    match service.call(PagerRequest::GetAlarms) {
        PagerResponse::GetAlarms(alarms) => alarms,
        PagerResponse::Event => panic!("unexpected pager response"),
    }
}

#[test]
fn hysteresis_arms_then_recovery_clears() {
    let mut service = PagerService::new(50, 5);
    match service.call(event("X", 60, 0)) {
        PagerResponse::Event => {},
        PagerResponse::GetAlarms(_) => panic!("unexpected pager response"),
    }
    let alarms = drain(&mut service);
    assert_eq!(alarms.len(), 1);
    assert!(alarms[0].chain_id == cid("X"));
    assert_eq!(alarms[0].missed_blocks, 60);

    // Recovery wins and is evaluated first, even with the missed count
    // still above the threshold.
    service.call(event("X", 60, 5));
    let alarms = drain(&mut service);
    assert!(alarms.is_empty());
}

#[test]
fn below_threshold_does_not_arm() {
    let mut service = PagerService::new(50, 5);
    service.call(event("X", 49, 0));
    assert!(drain(&mut service).is_empty());
}

#[test]
fn rearming_updates_the_missed_count() {
    let mut service = PagerService::new(50, 5);
    service.call(event("X", 60, 0));
    service.call(event("X", 70, 0));
    let alarms = drain(&mut service);
    assert_eq!(alarms.len(), 1);
    assert_eq!(alarms[0].missed_blocks, 70);
}

#[test]
fn drain_clears_the_armed_set() {
    let mut service = PagerService::new(50, 5);
    service.call(event("X", 60, 0));
    assert_eq!(drain(&mut service).len(), 1);
    // An armed chain not re-reported before the next drain does not reappear.
    assert!(drain(&mut service).is_empty());
}

#[test]
fn recovery_needs_enough_recent_blocks() {
    let mut service = PagerService::new(50, 5);
    service.call(event("X", 60, 4));
    let alarms = drain(&mut service);
    assert_eq!(alarms.len(), 1);
    assert_eq!(alarms[0].missed_blocks, 60);
}

#[test]
fn chains_are_tracked_independently() {
    let mut service = PagerService::new(50, 5);
    service.call(event("X", 60, 0));
    service.call(event("Y", 80, 0));
    service.call(event("X", 0, 5));
    let alarms = drain(&mut service);
    assert_eq!(alarms.len(), 1);
    assert!(alarms[0].chain_id == cid("Y"));
    assert_eq!(alarms[0].missed_blocks, 80);
}
