use heimdall::client::{send_update, UpdateJob, UpdateOutcome, UpdateStep, DELAY_MS};
use heimdall::stream::{StreamAction, StreamState};
use heimdall::{ConnectionType, Device, DeviceStatus, DeviceUpdateMessage, HeimdallServer};

fn report(cpu: f32, mem: f32) -> DeviceUpdateMessage {
    DeviceUpdateMessage::CpuMem {
        name: String::from("Pi"),
        cpu: cpu.to_bits(),
        mem: mem.to_bits(),
    }
}

fn greeting() -> DeviceUpdateMessage {
    DeviceUpdateMessage::Create {
        name: String::from("Pi"),
        connection: ConnectionType::Wireless,
    }
}

fn frame(message: DeviceUpdateMessage) -> Vec<u8> {
    message.into()
}

/// What is written, and how it ends, where things are done or fail as `replies` says.
fn run(connected: bool, message: DeviceUpdateMessage, replies: &[bool]) -> (Vec<u8>, UpdateOutcome) {
    run_cut(connected, message, replies, 0)
}

/// As `run`, where a write that fails gets `cut` bytes through.
fn run_cut(
    connected: bool,
    message: DeviceUpdateMessage,
    replies: &[bool],
    cut: usize,
) -> (Vec<u8>, UpdateOutcome) {
    let mut step = send_update(connected, &String::from("Pi"), message);
    let mut written = Vec::new();
    let mut replies = replies.iter();
    loop {
        match step {
            UpdateStep::Connect(job) => step = job.advance(*replies.next().unwrap()),
            UpdateStep::Write(job, bytes) => {
                let done = *replies.next().unwrap();
                if done {
                    written.extend(bytes);
                } else {
                    written.extend_from_slice(&bytes[..cut]);
                }
                step = job.advance(done);
            }
            UpdateStep::Finished(outcome) => return (written, outcome),
        }
    }
}

#[test]
fn delay_is_fixed() {
    assert_eq!(DELAY_MS, 1500);
}

#[test]
fn new_connection_is_greeted() {
    let step = send_update(false, &String::from("Pi"), report(1.0, 2.0));
    assert_eq!(
        step,
        UpdateStep::Connect(UpdateJob::Connecting {
            device_name: String::from("Pi"),
            message: report(1.0, 2.0),
        })
    );
    let mut expected = frame(greeting());
    expected.extend(frame(report(1.0, 2.0)));
    assert_eq!(
        run(false, report(1.0, 2.0), &[true, true, true]),
        (expected, UpdateOutcome::Sent)
    );
}

#[test]
fn connection_is_used_again() {
    assert_eq!(
        send_update(true, &String::from("Pi"), report(1.0, 2.0)),
        UpdateStep::Write(UpdateJob::Reporting, frame(report(1.0, 2.0)))
    );
    assert_eq!(
        run(true, report(1.0, 2.0), &[true]),
        (frame(report(1.0, 2.0)), UpdateOutcome::Sent)
    );
}

#[test]
fn failures_give_up_the_connection() {
    assert_eq!(
        run(false, report(1.0, 2.0), &[false]),
        (Vec::new(), UpdateOutcome::ConnectFailed)
    );
    assert_eq!(
        run(false, report(1.0, 2.0), &[true, false]),
        (Vec::new(), UpdateOutcome::CreateFailed)
    );
    assert_eq!(
        run(false, report(1.0, 2.0), &[true, true, false]),
        (frame(greeting()), UpdateOutcome::UpdateFailed)
    );
    assert_eq!(
        run(true, report(1.0, 2.0), &[false]),
        (Vec::new(), UpdateOutcome::UpdateFailed)
    );
    assert!(UpdateOutcome::Sent.connected());
    assert!(!UpdateOutcome::ConnectFailed.connected());
    assert!(!UpdateOutcome::CreateFailed.connected());
    assert!(!UpdateOutcome::UpdateFailed.connected());
}

/// The messages that are read from a connection over which `carried` comes.
fn handed_over(mut carried: Vec<u8>) -> Vec<DeviceUpdateMessage> {
    let mut messages = Vec::new();
    let mut state = StreamState::Size;
    while carried.len() >= state.wanted() {
        let rest = carried.split_off(state.wanted());
        let (next, action) = state.advance(Some(carried));
        carried = rest;
        if let StreamAction::Deliver(message) = action {
            messages.push(message);
        }
        state = next.unwrap();
    }
    messages
}

/// What each connection carries that a device opens which makes these calls.
fn connections(calls: Vec<(DeviceUpdateMessage, Vec<bool>, usize)>) -> Vec<Vec<u8>> {
    let mut carried: Vec<Vec<u8>> = Vec::new();
    let mut connected = false;
    for (message, replies, cut) in calls {
        let (written, outcome) = run_cut(connected, message, &replies, cut);
        if !connected && outcome != UpdateOutcome::ConnectFailed {
            carried.push(Vec::new());
        }
        if let Some(connection) = carried.last_mut() {
            connection.extend(written);
        }
        connected = outcome.connected();
    }
    carried
}

#[test]
fn connections_carry_what_is_sent_whatever_fails() {
    let carried = connections(vec![
        (report(1.0, 1.0), vec![false], 0),
        (report(2.0, 2.0), vec![true, true, true], 0),
        (report(3.0, 3.0), vec![true], 0),
        (report(4.0, 4.0), vec![false], 5),
        (report(5.0, 5.0), vec![true, false], 11),
        (report(6.0, 6.0), vec![true, true, false], 3),
        (report(7.0, 7.0), vec![false], 0),
        (report(8.0, 8.0), vec![true, true, true], 0),
    ]);
    let mut first = frame(greeting());
    first.extend(frame(report(2.0, 2.0)));
    first.extend(frame(report(3.0, 3.0)));
    first.extend_from_slice(&frame(report(4.0, 4.0))[..5]);
    assert_eq!(carried[0], first);
    assert_eq!(carried[1], frame(greeting())[..11]);
    assert_eq!(
        carried.into_iter().map(handed_over).collect::<Vec<_>>(),
        vec![
            vec![greeting(), report(2.0, 2.0), report(3.0, 3.0)],
            vec![],
            vec![greeting()],
            vec![greeting(), report(8.0, 8.0)],
        ]
    );
}

#[test]
fn server_learns_of_the_device() {
    let (mut carried, _) = run(false, report(1.0, 2.0), &[true, true, true]);
    carried.extend(run(true, report(3.0, 4.0), &[true]).0);

    let mut server = HeimdallServer::new();
    for message in handed_over(carried) {
        server.apply(message);
    }
    assert_eq!(
        server.snapshot(),
        vec![Device {
            name: String::from("Pi"),
            connection: ConnectionType::Wireless,
            capabilities: Vec::new(),
            status: DeviceStatus::Enabled,
            cpu_usage: 3.0f32.to_bits(),
            mem_usage: 4.0f32.to_bits(),
        }]
    );
}
