use shutterd::actuator::Action;
use shutterd::config::ShutterConfig;
use shutterd::config::build_bank;
use shutterd::decode::DecodeError;
use shutterd::handler::CmdError;
use shutterd::handler::error_reply;
use shutterd::handler::handle_command;
use shutterd::handler::handle_line;
use shutterd::handler::handle_lines;

fn example_bank() -> Vec<shutterd::actuator::Shutter> {
    // The example configuration: two shutters on lines {1,2} and {3,4}.
    let cfgs = vec![
        ShutterConfig { pin_open: 1, pin_close: 2 },
        ShutterConfig { pin_open: 3, pin_close: 4 },
    ];
    build_bank(&cfgs).unwrap()
}

#[test]
fn valid_command_pulses_silently() {
    let mut bank = example_bank();
    let step = handle_line(&mut bank, b"{\"Shutter\":[0,\"Open\"]}\n");
    assert!(step.reply.is_none());
    assert_eq!(
        step.actions,
        vec![
            Action::SetHigh(1),
            Action::SleepMs(100),
            Action::SetLow(1),
            Action::SetLow(2),
            Action::SleepMs(100),
        ]
    );
}

#[test]
fn second_shutter_uses_its_own_lines() {
    let mut bank = example_bank();
    let step = handle_line(&mut bank, b"{\"Shutter\":[1,\"Close\"]}");
    assert!(step.reply.is_none());
    assert_eq!(
        step.actions,
        vec![
            Action::SetHigh(4),
            Action::SleepMs(100),
            Action::SetLow(3),
            Action::SetLow(4),
            Action::SleepMs(100),
        ]
    );
}

#[test]
fn unknown_shutter_draws_one_error_and_no_action() {
    let mut bank = example_bank();
    let step = handle_line(&mut bank, b"{\"Shutter\":[5,\"Open\"]}\n");
    assert_eq!(step.reply.as_deref(), Some(&b"Error: Invalid shutter ID: 5"[..]));
    assert!(step.actions.is_empty());
}

#[test]
fn malformed_line_draws_error_and_connection_goes_on() {
    let mut bank = example_bank();
    let step = handle_line(&mut bank, b"not a command\n");
    assert_eq!(step.reply.as_deref(), Some(&b"Error: invalid command"[..]));
    assert!(step.actions.is_empty());
    // The next, well-formed line still actuates silently.
    let step = handle_line(&mut bank, b"{\"Shutter\":[0,\"Open\"]}\n");
    assert!(step.reply.is_none());
    assert_eq!(step.actions.len(), 5);
}

#[test]
fn handle_command_reports_decode_failure() {
    let mut bank = example_bank();
    let r = handle_command(&mut bank, b"{}");
    assert_eq!(r, Err(CmdError::Decode(DecodeError)));
}

#[test]
fn handle_command_reports_unknown_shutter() {
    let mut bank = example_bank();
    let r = handle_command(&mut bank, b"{\"Shutter\":[2,\"Close\"]}");
    assert_eq!(r, Err(CmdError::InvalidShutter(2)));
}

#[test]
fn handle_command_plans_pulse_on_success() {
    let mut bank = example_bank();
    let r = handle_command(&mut bank, b"{\"Shutter\":[1,\"Open\"]}").unwrap();
    assert_eq!(r[0], Action::SetHigh(3));
    assert_eq!(r.len(), 5);
}

#[test]
fn error_reply_formats_multi_digit_index() {
    let reply = error_reply(&CmdError::InvalidShutter(120));
    assert_eq!(reply, b"Error: Invalid shutter ID: 120".to_vec());
}

#[test]
fn message_formats_each_error() {
    assert_eq!(
        CmdError::InvalidShutter(5).message(),
        b"Invalid shutter ID: 5".to_vec()
    );
    assert_eq!(
        CmdError::Decode(DecodeError).message(),
        b"invalid command".to_vec()
    );
}

#[test]
fn connection_batch_mixes_errors_and_successes() {
    let mut bank = example_bank();
    let lines: Vec<Vec<u8>> = vec![
        b"garbage\n".to_vec(),
        b"{\"Shutter\":[0,\"Open\"]}\n".to_vec(),
        b"{\"Shutter\":[9,\"Close\"]}\n".to_vec(),
    ];
    let replies = handle_lines(&mut bank, &lines);
    assert_eq!(replies.len(), 3);
    assert_eq!(replies[0].as_deref(), Some(&b"Error: invalid command"[..]));
    assert!(replies[1].is_none());
    assert_eq!(replies[2].as_deref(), Some(&b"Error: Invalid shutter ID: 9"[..]));
}

#[test]
fn sequential_connections_see_the_same_bank() {
    // A first connection full of errors and commands leaves the bank as
    // configured; a second connection then behaves identically to a fresh one.
    let mut bank = example_bank();
    let first: Vec<Vec<u8>> = vec![
        b"nonsense\n".to_vec(),
        b"{\"Shutter\":[7,\"Open\"]}\n".to_vec(),
        b"{\"Shutter\":[1,\"Close\"]}\n".to_vec(),
    ];
    let _ = handle_lines(&mut bank, &first);
    assert_eq!(bank, example_bank());
    let second: Vec<Vec<u8>> = vec![b"{\"Shutter\":[0,\"Close\"]}\n".to_vec()];
    let replies = handle_lines(&mut bank, &second);
    assert_eq!(replies, vec![None]);
}

#[test]
fn directions_select_the_matching_line() {
    let mut bank = example_bank();
    let open = handle_line(&mut bank, b"{\"Shutter\":[0,\"Open\"]}");
    let close = handle_line(&mut bank, b"{\"Shutter\":[0,\"Close\"]}");
    assert_eq!(open.actions[0], Action::SetHigh(1));
    assert_eq!(close.actions[0], Action::SetHigh(2));
}
