use kanari::notify::{GasUpgradeEvent, ServiceStatus, ServiceStatusEvent};
use kanari::proposer::initial_last_proposed;

#[test]
fn initial_last_proposed_cases() {
    assert_eq!(initial_last_proposed(None, Some(5)), None);
    assert_eq!(initial_last_proposed(None, None), None);
    assert_eq!(initial_last_proposed(Some(10), None), Some(9));
    assert_eq!(initial_last_proposed(Some(10), Some(5)), Some(9));
    assert_eq!(initial_last_proposed(Some(10), Some(9)), None);
    assert_eq!(initial_last_proposed(Some(10), Some(20)), None);
    assert_eq!(initial_last_proposed(Some(1), None), Some(0));
}

#[test]
fn default_status_is_active() {
    assert_eq!(ServiceStatus::default(), ServiceStatus::Active);
    assert_eq!(ServiceStatusEvent::default().status, ServiceStatus::Active);
    let _ = GasUpgradeEvent::default();
}
