use shutterd::actuator::Action;
use shutterd::actuator::OutputLine;
use shutterd::actuator::Shutter;
use shutterd::actuator::actuate;
use shutterd::command::OpenClose;

fn test_shutter() -> Shutter {
    Shutter {
        pin_open: OutputLine { id: 1, active: false },
        pin_close: OutputLine { id: 2, active: false },
    }
}

#[test]
fn actuate_open_plans_full_pulse() {
    let mut shutter = test_shutter();
    let acts = actuate(&mut shutter, OpenClose::Open);
    assert_eq!(
        acts,
        vec![
            Action::SetHigh(1),
            Action::SleepMs(100),
            Action::SetLow(1),
            Action::SetLow(2),
            Action::SleepMs(100),
        ]
    );
}

#[test]
fn actuate_close_drives_close_line() {
    let mut shutter = test_shutter();
    let acts = actuate(&mut shutter, OpenClose::Close);
    assert_eq!(
        acts,
        vec![
            Action::SetHigh(2),
            Action::SleepMs(100),
            Action::SetLow(1),
            Action::SetLow(2),
            Action::SleepMs(100),
        ]
    );
}

#[test]
fn actuate_leaves_both_lines_released() {
    let mut shutter = test_shutter();
    let _ = actuate(&mut shutter, OpenClose::Open);
    assert!(!shutter.pin_open.active);
    assert!(!shutter.pin_close.active);
    let _ = actuate(&mut shutter, OpenClose::Close);
    assert!(!shutter.pin_open.active);
    assert!(!shutter.pin_close.active);
}

#[test]
fn actuate_keeps_line_identifiers() {
    let mut shutter = test_shutter();
    let _ = actuate(&mut shutter, OpenClose::Close);
    assert_eq!(shutter.pin_open.id, 1);
    assert_eq!(shutter.pin_close.id, 2);
}

#[test]
fn pulse_never_drives_both_lines_at_once() {
    // Replay the planned actions over a level map and sample after each one.
    let mut shutter = test_shutter();
    for dir in [OpenClose::Open, OpenClose::Close] {
        let acts = actuate(&mut shutter, dir);
        let mut open_level = false;
        let mut close_level = false;
        for act in &acts {
            match act {
                Action::SetHigh(id) => {
                    if *id == 1 {
                        open_level = true;
                    }
                    if *id == 2 {
                        close_level = true;
                    }
                }
                Action::SetLow(id) => {
                    if *id == 1 {
                        open_level = false;
                    }
                    if *id == 2 {
                        close_level = false;
                    }
                }
                Action::SleepMs(_) => {}
            }
            assert!(!(open_level && close_level));
        }
        assert!(!open_level);
        assert!(!close_level);
    }
}

#[test]
fn pulse_holds_and_settles_at_least_100ms() {
    let mut shutter = test_shutter();
    let acts = actuate(&mut shutter, OpenClose::Open);
    // The hold after driving high, and the settle after releasing both.
    assert!(matches!(acts[1], Action::SleepMs(ms) if ms >= 100));
    assert!(matches!(acts[4], Action::SleepMs(ms) if ms >= 100));
}
