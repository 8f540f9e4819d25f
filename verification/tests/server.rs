use crossbeam_channel::unbounded;
use heimdall::registry::Registry;
use heimdall::{
    ConnectionType, Device, DeviceStatus, DeviceUpdateMessage, HeimdallServer, HeimdallState,
    HEIMDALL_PORT,
};

fn create(name: &str, connection: ConnectionType) -> DeviceUpdateMessage {
    DeviceUpdateMessage::Create {
        name: String::from(name),
        connection,
    }
}

fn cpu_mem(name: &str, cpu: f32, mem: f32) -> DeviceUpdateMessage {
    DeviceUpdateMessage::CpuMem {
        name: String::from(name),
        cpu: cpu.to_bits(),
        mem: mem.to_bits(),
    }
}

fn device(name: &str, connection: ConnectionType, cpu: f32, mem: f32) -> Device {
    Device {
        name: String::from(name),
        connection,
        capabilities: Vec::new(),
        status: DeviceStatus::Enabled,
        cpu_usage: cpu.to_bits(),
        mem_usage: mem.to_bits(),
    }
}

fn sorted(mut state: HeimdallState) -> HeimdallState {
    state.sort_by(|a, b| a.name.cmp(&b.name));
    state
}

#[test]
fn port_is_fixed() {
    assert_eq!(HEIMDALL_PORT, 4064);
}

#[test]
fn new_device_has_no_usage() {
    let device = Device::new(String::from("Pi"), ConnectionType::Wired);
    assert_eq!(device.name, "Pi");
    assert_eq!(device.connection, ConnectionType::Wired);
    assert!(device.capabilities.is_empty());
    assert_eq!(device.status, DeviceStatus::Enabled);
    assert_eq!(f32::from_bits(device.cpu_usage), 0.0);
    assert_eq!(device.cpu_usage, 0.0f32.to_bits());
    assert_eq!(device.mem_usage, 0.0f32.to_bits());
}

#[test]
fn clone_keeps_everything() {
    let mut original = device("Pi", ConnectionType::Wired, 1.0, 2.0);
    original.capabilities.push((String::from("lamp"), true));
    original.capabilities.push((String::from("fan"), false));
    original.status = DeviceStatus::Disabled;
    assert_eq!(original.clone(), original);
}

#[test]
fn new_server_knows_nothing() {
    assert!(HeimdallServer::new().snapshot().is_empty());
    assert!(HeimdallServer::default().snapshot().is_empty());
}

#[test]
fn start_leaves_the_router() {
    let mut server = HeimdallServer::new();
    server.apply(create("Pi", ConnectionType::Wired));
    server.start();
    assert_eq!(
        server.snapshot(),
        vec![device("Router", ConnectionType::Origin, 0.0, 0.0)]
    );
}

#[test]
fn figures_of_unknown_devices_are_ignored() {
    let mut server = HeimdallServer::new();
    server.start();
    server.apply(cpu_mem("Pi", 5.0, 6.0));
    assert_eq!(
        server.snapshot(),
        vec![device("Router", ConnectionType::Origin, 0.0, 0.0)]
    );
}

#[test]
fn last_report_stands_until_the_device_comes_up_again() {
    let mut server = HeimdallServer::new();
    server.apply(create("Pi", ConnectionType::Wireless));
    server.apply(cpu_mem("Pi", 5.0, 6.0));
    server.apply(cpu_mem("Pi", 7.5, 8.5));
    assert_eq!(
        server.snapshot(),
        vec![device("Pi", ConnectionType::Wireless, 7.5, 8.5)]
    );
    server.apply(create("Pi", ConnectionType::Wired));
    assert_eq!(
        server.snapshot(),
        vec![device("Pi", ConnectionType::Wired, 0.0, 0.0)]
    );
}

#[test]
fn messages_about_different_devices_commute() {
    let mut one = HeimdallServer::new();
    one.apply(create("a", ConnectionType::Wired));
    one.apply(create("b", ConnectionType::Wireless));
    let mut two = HeimdallServer::new();
    two.apply(create("b", ConnectionType::Wireless));
    two.apply(create("a", ConnectionType::Wired));
    assert_eq!(sorted(one.snapshot()), sorted(two.snapshot()));
}

#[test]
fn own_order_of_each_device_decides() {
    let mut one = HeimdallServer::new();
    one.publish(vec![
        cpu_mem("b", 9.0, 9.0),
        create("a", ConnectionType::Wired),
        cpu_mem("a", 1.0, 2.0),
        create("b", ConnectionType::Wireless),
        cpu_mem("b", 3.0, 4.0),
    ]);
    let mut two = HeimdallServer::new();
    two.publish(vec![
        create("a", ConnectionType::Wired),
        cpu_mem("b", 9.0, 9.0),
        create("b", ConnectionType::Wireless),
        cpu_mem("b", 3.0, 4.0),
        cpu_mem("a", 1.0, 2.0),
    ]);
    assert_eq!(sorted(one.snapshot()), sorted(two.snapshot()));
    assert_eq!(one.snapshot().len(), 2);
}

#[test]
fn listeners_have_channels_of_their_own() {
    let mut server = HeimdallServer::new();
    let one = server.add_listener();
    let two = server.add_listener();
    assert_eq!(one.len(), 1);
    assert!(!one.same_channel(&two));
    server.publish(vec![create("a", ConnectionType::Wired)]);
    assert_eq!(one.try_iter().count(), 2);
    assert_eq!(two.try_iter().count(), 2);
}

#[test]
fn repeated_message_changes_nothing_more() {
    let mut server = HeimdallServer::new();
    server.apply(create("a", ConnectionType::Wired));
    server.apply(cpu_mem("a", 1.0, 2.0));
    let once = server.snapshot();
    server.apply(cpu_mem("a", 1.0, 2.0));
    assert_eq!(server.snapshot(), once);
}

#[test]
fn batches_join() {
    let mut one = HeimdallServer::new();
    one.publish(vec![
        create("a", ConnectionType::Wired),
        cpu_mem("a", 1.0, 2.0),
    ]);
    let mut two = HeimdallServer::new();
    two.publish(vec![create("a", ConnectionType::Wired)]);
    two.publish(vec![cpu_mem("a", 1.0, 2.0)]);
    assert_eq!(one.snapshot(), two.snapshot());
}

#[test]
fn devices_stay_and_others_are_kept() {
    let mut server = HeimdallServer::new();
    server.start();
    server.publish(vec![
        create("a", ConnectionType::Wired),
        cpu_mem("a", 1.0, 2.0),
        create("b", ConnectionType::Wireless),
        cpu_mem("b", 3.0, 4.0),
        cpu_mem("c", 5.0, 6.0),
        create("b", ConnectionType::Wired),
    ]);
    assert_eq!(
        sorted(server.snapshot()),
        vec![
            device("Router", ConnectionType::Origin, 0.0, 0.0),
            device("a", ConnectionType::Wired, 1.0, 2.0),
            device("b", ConnectionType::Wired, 0.0, 0.0),
        ]
    );
}

#[test]
fn listener_is_told_of_the_present_and_of_each_change() {
    let mut server = HeimdallServer::new();
    server.start();
    let listener = server.add_listener();
    let router = device("Router", ConnectionType::Origin, 0.0, 0.0);
    assert_eq!(listener.try_recv(), Ok(vec![router.clone()]));
    assert!(listener.is_empty());

    assert_eq!(
        server.publish(vec![
            create("Pi", ConnectionType::Wireless),
            cpu_mem("Pi", 5.0, 6.0),
        ]),
        0
    );
    assert_eq!(
        sorted(listener.try_recv().unwrap()),
        vec![
            device("Pi", ConnectionType::Wireless, 5.0, 6.0),
            router.clone()
        ]
    );
    assert!(listener.is_empty());

    server.publish(vec![cpu_mem("nobody", 1.0, 1.0)]);
    assert_eq!(listener.try_recv().unwrap().len(), 2);
}

#[test]
fn listeners_that_are_gone_are_counted_and_kept() {
    let mut server = HeimdallServer::new();
    let gone = server.add_listener();
    let there = server.add_listener();
    drop(gone);
    assert_eq!(server.publish(vec![create("a", ConnectionType::Wired)]), 1);
    assert_eq!(server.publish(Vec::new()), 1);
    assert_eq!(there.try_iter().count(), 3);
    drop(there);
    assert_eq!(server.publish(Vec::new()), 2);
}

#[test]
fn waiting_messages_are_taken_in() {
    let mut server = HeimdallServer::new();
    let listener = server.add_listener();
    let (sender, mut receiver) = unbounded();
    assert_eq!(server.receive(&mut receiver), None);
    assert_eq!(listener.try_iter().count(), 1);

    sender.send(create("a", ConnectionType::Wired)).unwrap();
    sender.send(cpu_mem("a", 1.0, 2.0)).unwrap();
    assert_eq!(server.receive(&mut receiver), Some(0));
    assert!(receiver.is_empty());
    assert_eq!(
        listener.try_iter().collect::<Vec<_>>(),
        vec![vec![device("a", ConnectionType::Wired, 1.0, 2.0)]]
    );
    assert_eq!(server.receive(&mut receiver), None);
    assert!(listener.is_empty());
}

#[test]
fn registry_keeps_one_entry_of_each_name() {
    let mut registry: Registry<u32> = Registry::new();
    assert_eq!(registry.len(), 0);
    registry.insert(String::from("a"), 1);
    registry.insert(String::from("b"), 2);
    registry.insert(String::from("a"), 3);
    assert_eq!(registry.len(), 2);
    assert_eq!(registry.get_mut(&String::from("a")), Some(&mut 3));
    *registry.get_mut(&String::from("b")).unwrap() = 5;
    assert_eq!(registry.get_mut(&String::from("b")), Some(&mut 5));
    assert_eq!(registry.get_mut(&String::from("c")), None);
    assert_eq!(*registry.value(0) + *registry.value(1), 8);
    registry.clear();
    assert_eq!(registry.len(), 0);
}
