use metaverse_pallets::emergency::{EmergencyStoppedFilter, Error, Event, Pallet};

fn pallet() -> Pallet {
    Pallet::new(b"EmergencyManagement".to_vec())
}

#[test]
fn stop_records_the_call_and_emits_an_event() {
    let mut p = pallet();
    let r = p.emergency_stop(true, b"Balances".to_vec(), b"transfer".to_vec());
    assert_eq!(
        r,
        Ok(Some(Event::EmergencyStopped {
            pallet_name_bytes: b"Balances".to_vec(),
            function_name_bytes: b"transfer".to_vec(),
        }))
    );
    assert!(EmergencyStoppedFilter::contains(&p, "Balances", "transfer"));
    assert!(!EmergencyStoppedFilter::contains(&p, "Balances", "transfer_all"));
    assert!(!EmergencyStoppedFilter::contains(&p, "Nft", "transfer"));
    assert_eq!(p.emergency_stopped_pallets(b"Balances", b"transfer"), Some(()));
}

#[test]
fn stopping_twice_emits_one_event() {
    let mut p = pallet();
    assert!(p.emergency_stop(true, b"Nft".to_vec(), b"mint".to_vec()).unwrap().is_some());
    assert_eq!(p.emergency_stop(true, b"Nft".to_vec(), b"mint".to_vec()), Ok(None));
    assert!(EmergencyStoppedFilter::contains(&p, "Nft", "mint"));
}

#[test]
fn own_calls_cannot_be_stopped() {
    let mut p = pallet();
    assert_eq!(
        p.emergency_stop(true, b"EmergencyManagement".to_vec(), b"emergency_unstop".to_vec()),
        Err(Error::CannotStopEmergencyCall)
    );
    assert!(!EmergencyStoppedFilter::contains(&p, "EmergencyManagement", "emergency_unstop"));
}

#[test]
fn pallet_name_must_be_utf8() {
    let mut p = pallet();
    assert_eq!(
        p.emergency_stop(true, vec![0xff, 0xfe], b"f".to_vec()),
        Err(Error::InvalidPalletAndFunction)
    );
    // A non-UTF-8 function name is accepted: only the pallet name is decoded.
    assert!(p.emergency_stop(true, b"Nft".to_vec(), vec![0xff]).is_ok());
    assert_eq!(p.emergency_stopped_pallets(b"Nft", &[0xff]), Some(()));
}

#[test]
fn bad_origin_is_refused_everywhere() {
    let mut p = pallet();
    assert_eq!(p.emergency_stop(false, b"Nft".to_vec(), b"mint".to_vec()), Err(Error::BadOrigin));
    assert_eq!(p.emergency_unstop(false, b"Nft".to_vec(), b"mint".to_vec()), Err(Error::BadOrigin));
    assert_eq!(p.start_maintenance_mode(false), Err(Error::BadOrigin));
    assert_eq!(p.exit_maintenance_mode(false), Err(Error::BadOrigin));
    assert!(!EmergencyStoppedFilter::contains(&p, "Nft", "mint"));
    assert!(!p.maintenance_mode());
}

#[test]
fn unstop_resumes_a_stopped_call() {
    let mut p = pallet();
    p.emergency_stop(true, b"Auction".to_vec(), b"bid".to_vec()).unwrap();
    assert_eq!(
        p.emergency_unstop(true, b"Auction".to_vec(), b"bid".to_vec()),
        Ok(Some(Event::EmergencyUnStopped {
            pallet_name_bytes: b"Auction".to_vec(),
            function_name_bytes: b"bid".to_vec(),
        }))
    );
    assert!(!EmergencyStoppedFilter::contains(&p, "Auction", "bid"));
    assert_eq!(p.emergency_unstop(true, b"Auction".to_vec(), b"bid".to_vec()), Ok(None));
}

#[test]
fn unstop_leaves_other_calls_stopped() {
    let mut p = pallet();
    p.emergency_stop(true, b"Auction".to_vec(), b"bid".to_vec()).unwrap();
    p.emergency_stop(true, b"Auction".to_vec(), b"buy_now".to_vec()).unwrap();
    p.emergency_unstop(true, b"Auction".to_vec(), b"bid".to_vec()).unwrap();
    assert!(!EmergencyStoppedFilter::contains(&p, "Auction", "bid"));
    assert!(EmergencyStoppedFilter::contains(&p, "Auction", "buy_now"));
}

#[test]
fn maintenance_mode_round_trip() {
    let mut p = pallet();
    assert_eq!(p.exit_maintenance_mode(true), Err(Error::NotInMaintenanceMode));
    assert_eq!(p.start_maintenance_mode(true), Ok(Event::MaintenanceModeStarted));
    assert!(p.maintenance_mode());
    assert_eq!(p.start_maintenance_mode(true), Err(Error::AlreadyInMaintenanceMode));
    assert_eq!(p.exit_maintenance_mode(true), Ok(Event::MaintenanceModeEnded));
    assert!(!p.maintenance_mode());
}

#[test]
fn base_filter_follows_the_mode() {
    let mut p = pallet();
    assert!(p.contains(true, false));
    assert!(!p.contains(false, true));
    p.start_maintenance_mode(true).unwrap();
    assert!(!p.contains(true, false));
    assert!(p.contains(false, true));
}

#[test]
fn new_pallet_is_empty() {
    let p = pallet();
    assert_eq!(p.name(), &b"EmergencyManagement".to_vec());
    assert!(!p.maintenance_mode());
    assert_eq!(p.emergency_stopped_pallets(b"Balances", b"transfer"), None);
}

#[test]
fn a_stopped_call_stays_stopped_until_resumed() {
    let mut p = pallet();
    p.emergency_stop(true, b"Nft".to_vec(), b"mint".to_vec()).unwrap();
    // Other calls, refused resumes and maintenance changes leave it stopped.
    p.emergency_stop(true, b"Nft".to_vec(), b"burn".to_vec()).unwrap();
    p.emergency_unstop(true, b"Nft".to_vec(), b"burn".to_vec()).unwrap();
    assert!(p.emergency_unstop(false, b"Nft".to_vec(), b"mint".to_vec()).is_err());
    p.start_maintenance_mode(true).unwrap();
    assert!(EmergencyStoppedFilter::contains(&p, "Nft", "mint"));
    p.emergency_unstop(true, b"Nft".to_vec(), b"mint".to_vec()).unwrap();
    // A refused stop leaves it running.
    assert!(p.emergency_stop(false, b"Nft".to_vec(), b"mint".to_vec()).is_err());
    assert!(!EmergencyStoppedFilter::contains(&p, "Nft", "mint"));
}

#[test]
fn base_filter_follows_the_last_accepted_mode_change() {
    let mut p = pallet();
    p.start_maintenance_mode(true).unwrap();
    assert!(p.exit_maintenance_mode(false).is_err());
    assert!(p.start_maintenance_mode(true).is_err());
    assert!(p.contains(false, true));
    p.exit_maintenance_mode(true).unwrap();
    assert!(p.start_maintenance_mode(false).is_err());
    assert!(p.contains(true, false));
}
