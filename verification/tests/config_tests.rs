use shutterd::config::ShutterConfig;
use shutterd::config::build_bank;

#[test]
fn build_bank_assigns_indices_in_order() {
    let cfgs = vec![
        ShutterConfig { pin_open: 1, pin_close: 2 },
        ShutterConfig { pin_open: 3, pin_close: 4 },
    ];
    let bank = build_bank(&cfgs).unwrap();
    assert_eq!(bank.len(), 2);
    assert_eq!(bank[0].pin_open.id, 1);
    assert_eq!(bank[0].pin_close.id, 2);
    assert_eq!(bank[1].pin_open.id, 3);
    assert_eq!(bank[1].pin_close.id, 4);
}

#[test]
fn build_bank_starts_all_lines_released() {
    let cfgs = vec![
        ShutterConfig { pin_open: 7, pin_close: 9 },
        ShutterConfig { pin_open: 11, pin_close: 13 },
    ];
    let bank = build_bank(&cfgs).unwrap();
    for shutter in &bank {
        assert!(!shutter.pin_open.active);
        assert!(!shutter.pin_close.active);
    }
}

#[test]
fn build_bank_accepts_empty_configuration() {
    let cfgs: Vec<ShutterConfig> = vec![];
    let bank = build_bank(&cfgs).unwrap();
    assert!(bank.is_empty());
}

#[test]
fn build_bank_rejects_duplicate_across_shutters() {
    let cfgs = vec![
        ShutterConfig { pin_open: 1, pin_close: 2 },
        ShutterConfig { pin_open: 3, pin_close: 1 },
    ];
    assert_eq!(build_bank(&cfgs), Err(1));
}

#[test]
fn build_bank_rejects_duplicate_within_one_shutter() {
    let cfgs = vec![ShutterConfig { pin_open: 5, pin_close: 5 }];
    assert_eq!(build_bank(&cfgs), Err(5));
}

#[test]
fn build_bank_reports_first_duplicate_in_order() {
    // Pins appear in the order 1, 2, 2, 1: position two (the second 2) is the
    // first to repeat an earlier identifier.
    let cfgs = vec![
        ShutterConfig { pin_open: 1, pin_close: 2 },
        ShutterConfig { pin_open: 2, pin_close: 1 },
    ];
    assert_eq!(build_bank(&cfgs), Err(2));
}
