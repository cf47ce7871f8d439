use mission_core::command::CountdownCommand;
use mission_core::computer::CountdownState;
use mission_core::computer::FiringDirective;
use mission_core::computer::MissionComputer;
use mission_core::computer::RunStep;
use mission_core::conduit::Conduit;
use mission_core::conduit::ConduitPoll;

#[test]
fn fresh_conduit_is_pending() {
    let mut conduit = Conduit::new(CountdownCommand::Cancel);
    assert_eq!(conduit.next_change(), ConduitPoll::Pending);
}

#[test]
fn burst_coalesces_to_latest_value() {
    let mut conduit = Conduit::new(CountdownCommand::Cancel);
    conduit.publish(CountdownCommand::Start(10));
    conduit.publish(CountdownCommand::Start(3));
    assert_eq!(
        conduit.next_change(),
        ConduitPoll::Changed(CountdownCommand::Start(3))
    );
    assert_eq!(conduit.next_change(), ConduitPoll::Pending);
}

#[test]
fn already_observed_value_never_retriggers() {
    let mut conduit = Conduit::new(CountdownCommand::Cancel);
    conduit.publish(CountdownCommand::Start(10));
    conduit.publish(CountdownCommand::Cancel);
    assert_eq!(conduit.next_change(), ConduitPoll::Pending);
}

#[test]
fn closure_reported_after_draining() {
    let mut conduit = Conduit::new(CountdownCommand::Cancel);
    conduit.publish(CountdownCommand::Start(1));
    conduit.close();
    assert_eq!(
        conduit.next_change(),
        ConduitPoll::Changed(CountdownCommand::Start(1))
    );
    assert_eq!(conduit.next_change(), ConduitPoll::Closed);
    assert_eq!(conduit.next_change(), ConduitPoll::Closed);
}

#[test]
fn overtaken_start_is_never_acted_on() {
    let mut conduit = Conduit::new(CountdownCommand::Cancel);
    let mut computer = MissionComputer::new();
    conduit.publish(CountdownCommand::Start(10));
    conduit.publish(CountdownCommand::Cancel);
    let step = computer.run_step(&mut conduit);
    assert_eq!(step, RunStep::Suspend);
    assert_eq!(computer.state(), CountdownState::Idle);
}

#[test]
fn run_step_acts_on_latest_command() {
    let mut conduit = Conduit::new(CountdownCommand::Cancel);
    let mut computer = MissionComputer::new();
    conduit.publish(CountdownCommand::Start(4));
    let step = computer.run_step(&mut conduit);
    assert_eq!(
        step,
        RunStep::Acted(FiringDirective::SpawnTimer { seconds: 4 })
    );
    assert_eq!(computer.state(), CountdownState::Armed { seconds: 4 });
    assert_eq!(computer.run_step(&mut conduit), RunStep::Suspend);
}

#[test]
fn run_step_terminates_on_closure() {
    let mut conduit = Conduit::new(CountdownCommand::Cancel);
    let mut computer = MissionComputer::new();
    conduit.close();
    assert_eq!(computer.run_step(&mut conduit), RunStep::Terminate);
    assert_eq!(computer.state(), CountdownState::Idle);
}
