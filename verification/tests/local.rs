use crossbeam_channel::unbounded;
use heimdall::local::{laptop_update, Device, DeviceUpdateMessage, HeimdallServer};

fn report(name: &str, cpu: f32, mem: f32) -> DeviceUpdateMessage {
    DeviceUpdateMessage::CpuMem {
        name: String::from(name),
        cpu: cpu.to_bits(),
        mem: mem.to_bits(),
    }
}

fn device(name: &str, cpu: f32, mem: f32) -> Device {
    Device {
        name: String::from(name),
        cpu_usage: cpu.to_bits(),
        mem_usage: mem.to_bits(),
    }
}

#[test]
fn local_server_begins_empty() {
    assert!(HeimdallServer::new().snapshot().is_empty());
    assert!(HeimdallServer::default().snapshot().is_empty());
}

#[test]
fn laptop_reports_under_its_name() {
    assert_eq!(
        laptop_update(1.5f32.to_bits(), 2.5f32.to_bits()),
        report("Laptop", 1.5, 2.5)
    );
}

#[test]
fn first_report_makes_a_device_known() {
    let mut server = HeimdallServer::new();
    server.apply(report("a", 1.0, 2.0));
    assert_eq!(server.snapshot(), vec![device("a", 1.0, 2.0)]);
    server.apply(report("b", 3.0, 4.0));
    server.apply(report("a", 5.0, 6.0));
    let mut state = server.snapshot();
    state.sort_by(|a, b| a.name.cmp(&b.name));
    assert_eq!(state, vec![device("a", 5.0, 6.0), device("b", 3.0, 4.0)]);
}

#[test]
fn local_listener_is_told_of_each_change_only() {
    let mut server = HeimdallServer::new();
    server.apply(report("a", 1.0, 2.0));
    let listener = server.add_listener();
    assert!(listener.is_empty());
    assert_eq!(server.publish(vec![report("a", 3.0, 4.0)]), 0);
    assert_eq!(
        listener.try_iter().collect::<Vec<_>>(),
        vec![vec![device("a", 3.0, 4.0)]]
    );
    drop(listener);
    assert_eq!(server.publish(Vec::new()), 1);
}

#[test]
fn local_batches_join() {
    let mut one = HeimdallServer::new();
    one.publish(vec![report("a", 1.0, 2.0), report("a", 3.0, 4.0)]);
    let mut two = HeimdallServer::new();
    two.publish(vec![report("a", 1.0, 2.0)]);
    two.publish(vec![report("a", 3.0, 4.0)]);
    assert_eq!(one.snapshot(), two.snapshot());
}

#[test]
fn local_own_order_of_each_device_decides() {
    let mut one = HeimdallServer::new();
    one.publish(vec![
        report("a", 1.0, 2.0),
        report("b", 3.0, 4.0),
        report("a", 5.0, 6.0),
    ]);
    let mut two = HeimdallServer::new();
    two.publish(vec![
        report("b", 3.0, 4.0),
        report("a", 1.0, 2.0),
        report("a", 5.0, 6.0),
    ]);
    let mut state = one.snapshot();
    state.sort_by(|a, b| a.name.cmp(&b.name));
    assert_eq!(state, vec![device("a", 5.0, 6.0), device("b", 3.0, 4.0)]);
    let mut state = two.snapshot();
    state.sort_by(|a, b| a.name.cmp(&b.name));
    assert_eq!(state, vec![device("a", 5.0, 6.0), device("b", 3.0, 4.0)]);
}

#[test]
fn local_listeners_have_channels_of_their_own() {
    let mut server = HeimdallServer::new();
    let one = server.add_listener();
    let two = server.add_listener();
    assert!(!one.same_channel(&two));
    server.publish(vec![report("a", 1.0, 2.0)]);
    assert_eq!(one.try_iter().count(), 1);
    assert_eq!(two.try_iter().count(), 1);
}

#[test]
fn local_waiting_messages_are_taken_in() {
    let mut server = HeimdallServer::new();
    let listener = server.add_listener();
    let (sender, mut receiver) = unbounded();
    assert_eq!(server.receive(&mut receiver), None);
    assert!(listener.is_empty());
    sender.send(report("a", 1.0, 2.0)).unwrap();
    assert_eq!(server.receive(&mut receiver), Some(0));
    assert!(receiver.is_empty());
    assert_eq!(listener.try_recv(), Ok(vec![device("a", 1.0, 2.0)]));
}
