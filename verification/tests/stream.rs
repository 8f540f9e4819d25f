use heimdall::bytes::usize_from_le_bytes;
use heimdall::stream::{stream_thread_name, StreamAction, StreamState};
use heimdall::{ConnectionType, DeserializationError, DeviceUpdateMessage};

const WORD: usize = std::mem::size_of::<usize>();

fn create(name: &str) -> DeviceUpdateMessage {
    DeviceUpdateMessage::Create {
        name: String::from(name),
        connection: ConnectionType::Wired,
    }
}

fn cpu_mem(name: &str, cpu: f32, mem: f32) -> DeviceUpdateMessage {
    DeviceUpdateMessage::CpuMem {
        name: String::from(name),
        cpu: cpu.to_bits(),
        mem: mem.to_bits(),
    }
}

/// What becomes of a connection over which `input` comes and then nothing more.
fn actions(mut input: Vec<u8>) -> Vec<StreamAction> {
    let mut state = StreamState::Size;
    let mut actions = Vec::new();
    loop {
        let n = state.wanted();
        let read = if n <= input.len() {
            let rest = input.split_off(n);
            let bytes = input;
            input = rest;
            Some(bytes)
        } else {
            None
        };
        let (next, action) = state.advance(read);
        actions.push(action);
        match next {
            Some(next) => state = next,
            None => return actions,
        }
    }
}

fn frame(message: DeviceUpdateMessage) -> Vec<u8> {
    message.into()
}

#[test]
fn size_comes_first() {
    assert_eq!(StreamState::Size.wanted(), WORD);
    assert_eq!(StreamState::Body { size: 31 }.wanted(), 31);
    assert_eq!(
        StreamState::Size.advance(Some(300usize.to_le_bytes().to_vec())),
        (
            Some(StreamState::Body { size: 300 }),
            StreamAction::AwaitBody
        )
    );
    assert_eq!(
        StreamState::Size.advance(Some(vec![255; WORD])),
        (
            Some(StreamState::Body { size: usize::MAX }),
            StreamAction::AwaitBody
        )
    );
}

#[test]
fn sizes_are_little_endian() {
    for n in [0usize, 1, 255, 256, 65_537, 0x0102_0304, usize::MAX] {
        assert_eq!(usize_from_le_bytes(&n.to_le_bytes().to_vec()), n);
    }
}

#[test]
fn messages_are_delivered_in_order() {
    let mut input = frame(create("a"));
    input.extend(frame(cpu_mem("a", 1.0, 2.0)));
    input.extend(frame(create("b")));
    assert_eq!(
        actions(input),
        vec![
            StreamAction::AwaitBody,
            StreamAction::Deliver(create("a")),
            StreamAction::AwaitBody,
            StreamAction::Deliver(cpu_mem("a", 1.0, 2.0)),
            StreamAction::AwaitBody,
            StreamAction::Deliver(create("b")),
            StreamAction::SizeUnreadable,
        ]
    );
}

#[test]
fn empty_message_is_passed_over() {
    let mut input = vec![0; WORD];
    input.extend(frame(create("a")));
    assert_eq!(
        actions(input),
        vec![
            StreamAction::EmptyMessage,
            StreamAction::AwaitBody,
            StreamAction::Deliver(create("a")),
            StreamAction::SizeUnreadable,
        ]
    );
}

#[test]
fn garbage_is_passed_over() {
    let mut input = 3usize.to_le_bytes().to_vec();
    input.extend_from_slice(&[1, 2, 3]);
    input.extend(frame(create("a")));
    assert_eq!(
        actions(input),
        vec![
            StreamAction::AwaitBody,
            StreamAction::Reject(DeserializationError::UnexpectedByteCount(8, 3)),
            StreamAction::AwaitBody,
            StreamAction::Deliver(create("a")),
            StreamAction::SizeUnreadable,
        ]
    );
}

#[test]
fn cut_off_message_is_not_delivered() {
    let mut input = frame(create("a"));
    input.pop();
    assert_eq!(
        actions(input),
        vec![StreamAction::AwaitBody, StreamAction::BodyUnreadable]
    );
    let mut input = frame(create("a"));
    input.truncate(WORD - 1);
    assert_eq!(actions(input), vec![StreamAction::SizeUnreadable]);
}

#[test]
fn later_bytes_retract_nothing() {
    let mut input = frame(create("a"));
    input.extend_from_slice(&3usize.to_le_bytes());
    input.extend_from_slice(&[1, 2, 3]);
    input.extend(frame(cpu_mem("a", 1.0, 2.0)));
    input.extend(vec![0; WORD]);
    input.extend(frame(create("b")));
    let delivered = |bytes: &[u8]| -> Vec<StreamAction> {
        actions(bytes.to_vec())
            .into_iter()
            .filter(|action| matches!(action, StreamAction::Deliver(_)))
            .collect()
    };
    let all = delivered(&input);
    assert_eq!(all.len(), 3);
    for n in 0..input.len() {
        assert!(all.starts_with(&delivered(&input[..n])));
    }
}

#[test]
fn threads_are_named_after_the_peer() {
    assert_eq!(
        stream_thread_name("10.0.0.7:4064"),
        "HeimdallStreamThread-10.0.0.7:4064"
    );
}
