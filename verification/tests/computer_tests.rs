use mission_core::command::CountdownCommand;
use mission_core::computer::CountdownState;
use mission_core::computer::FiringDirective;
use mission_core::computer::MissionComputer;

#[test]
fn test_handle_command_start_creates_task() {
    let mut computer = MissionComputer::new();
    let directive = computer.handle_command(CountdownCommand::Start(1));
    assert_eq!(directive, FiringDirective::SpawnTimer { seconds: 1 });
    assert_eq!(computer.state(), CountdownState::Armed { seconds: 1 });
}

#[test]
fn start_while_idle_arms_with_requested_delay() {
    let mut computer = MissionComputer::new();
    let directive = computer.handle_command(CountdownCommand::Start(5));
    assert_eq!(directive, FiringDirective::SpawnTimer { seconds: 5 });
    assert_eq!(computer.state(), CountdownState::Armed { seconds: 5 });
}

#[test]
fn cancel_while_armed_aborts_and_goes_idle() {
    let mut computer = MissionComputer::new();
    computer.handle_command(CountdownCommand::Start(5));
    let directive = computer.handle_command(CountdownCommand::Cancel);
    assert_eq!(directive, FiringDirective::AbortTimer);
    assert_eq!(computer.state(), CountdownState::Idle);
}

#[test]
fn cancel_while_idle_is_a_noop() {
    let mut computer = MissionComputer::new();
    let directive = computer.handle_command(CountdownCommand::Cancel);
    assert_eq!(directive, FiringDirective::NoEffect);
    assert_eq!(computer.state(), CountdownState::Idle);
}

#[test]
fn second_start_while_armed_is_ignored() {
    let mut computer = MissionComputer::new();
    computer.handle_command(CountdownCommand::Start(10));
    let directive = computer.handle_command(CountdownCommand::Start(3));
    assert_eq!(directive, FiringDirective::NoEffect);
    assert_eq!(computer.state(), CountdownState::Armed { seconds: 10 });
}

#[test]
fn elapsed_action_moves_to_fired() {
    let mut computer = MissionComputer::new();
    computer.handle_command(CountdownCommand::Start(1));
    computer.note_elapsed();
    assert_eq!(computer.state(), CountdownState::Fired);
}

#[test]
fn fired_accepts_a_new_start() {
    let mut computer = MissionComputer::new();
    computer.handle_command(CountdownCommand::Start(1));
    computer.note_elapsed();
    let directive = computer.handle_command(CountdownCommand::Start(9));
    assert_eq!(directive, FiringDirective::SpawnTimer { seconds: 9 });
    assert_eq!(computer.state(), CountdownState::Armed { seconds: 9 });
}

#[test]
fn reset_clears_a_fired_countdown() {
    let mut computer = MissionComputer::new();
    computer.handle_command(CountdownCommand::Start(1));
    computer.note_elapsed();
    let directive = computer.handle_command(CountdownCommand::Reset);
    assert_eq!(directive, FiringDirective::NoEffect);
    assert_eq!(computer.state(), CountdownState::Idle);
}

#[test]
fn reset_while_armed_aborts_the_countdown() {
    let mut computer = MissionComputer::new();
    computer.handle_command(CountdownCommand::Start(4));
    let directive = computer.handle_command(CountdownCommand::Reset);
    assert_eq!(directive, FiringDirective::AbortTimer);
    assert_eq!(computer.state(), CountdownState::Idle);
}

#[test]
fn reset_while_idle_is_a_noop() {
    let mut computer = MissionComputer::new();
    let directive = computer.handle_command(CountdownCommand::Reset);
    assert_eq!(directive, FiringDirective::NoEffect);
    assert_eq!(computer.state(), CountdownState::Idle);
}

#[test]
fn invalid_command_changes_nothing() {
    let mut computer = MissionComputer::new();
    computer.handle_command(CountdownCommand::Start(2));
    let directive = computer.handle_command(CountdownCommand::Invalid);
    assert_eq!(directive, FiringDirective::NoEffect);
    assert_eq!(computer.state(), CountdownState::Armed { seconds: 2 });
}

#[test]
fn note_elapsed_while_idle_is_a_noop() {
    let mut computer = MissionComputer::new();
    computer.note_elapsed();
    assert_eq!(computer.state(), CountdownState::Idle);
}
