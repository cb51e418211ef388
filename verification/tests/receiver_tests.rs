use netlab::config::{ConfigBuilder, Protocol};
use netlab::packet::{NetworkSerialize, Packet, PacketType, FLAG_SIZE};
use netlab::payload::Payload;
use netlab::receiver::{receive_plan, ReceivePlan, Receiver};
use netlab::size::Size;

#[test]
fn plans() {
    assert_eq!(receive_plan(10, 4), ReceivePlan { chunks_to_read: 3, last_block_size: 2 });
    assert_eq!(receive_plan(12, 4), ReceivePlan { chunks_to_read: 3, last_block_size: 4 });
    assert_eq!(receive_plan(3, 4), ReceivePlan { chunks_to_read: 1, last_block_size: 3 });
    assert_eq!(receive_plan(0, 4), ReceivePlan { chunks_to_read: 0, last_block_size: 4 });
    assert_eq!(receive_plan(0, 0), ReceivePlan { chunks_to_read: 0, last_block_size: 0 });
    assert_eq!(
        receive_plan(500 * 1024 * 1024, 60 * 1024),
        ReceivePlan { chunks_to_read: 8534, last_block_size: 20480 }
    );
    assert_eq!(
        receive_plan(usize::MAX, 2),
        ReceivePlan { chunks_to_read: usize::MAX / 2 + 1, last_block_size: 1 }
    );
}

fn run_transfer(protocol: Protocol, payload: Size, block: Size, seed: u64) {
    let config = ConfigBuilder::new()
        .protocol(protocol)
        .payload_size(payload)
        .block_size(block)
        .seed(seed)
        .build();
    let sent = Payload::new(config.payload_size(), config.seed());
    let mut packets: Vec<Vec<u8>> = sent
        .chunks(config.block_size().to_bytes())
        .into_iter()
        .map(|c| Packet::new(PacketType::Payload, c).to_bytes())
        .collect();
    packets.push(Packet::new(PacketType::EndPayload, vec![1u8; 1]).to_bytes());

    let mut receiver = Receiver::new(&config);
    let mut buffer = receiver.initial_buffer();
    assert_eq!(buffer.len(), FLAG_SIZE + block.to_bytes());
    let mut finished = false;
    for packet in &packets {
        receiver.prepare_buffer(&mut buffer);
        assert_eq!(buffer.len(), packet.len());
        buffer.copy_from_slice(packet);
        if receiver.accept(&buffer).unwrap() {
            finished = true;
            break;
        }
    }
    assert!(finished);
    assert_eq!(receiver.counter(), packets.len() - 1);
    assert_eq!(receiver.payload().payload, sent.payload);
    assert_eq!(receiver.payload().hash(), sent.hash());
}

#[test]
fn transfer_rebuilds_the_payload() {
    run_transfer(Protocol::Tcp, Size::Byte(10), Size::Byte(4), 1);
    run_transfer(Protocol::Tcp, Size::Byte(12), Size::Byte(4), 2);
    run_transfer(Protocol::Quic, Size::KB(100), Size::KB(60), 3);
    run_transfer(Protocol::Tcp, Size::KB(64), Size::KB(64), 4);
    run_transfer(Protocol::Quic, Size::Byte(1), Size::KB(1), 5);
}

#[test]
fn udp_keeps_the_full_buffer() {
    let config = ConfigBuilder::new()
        .protocol(Protocol::Udp)
        .payload_size(Size::Byte(10))
        .block_size(Size::Byte(4))
        .build();
    let receiver = Receiver::new(&config);
    let mut buffer = receiver.initial_buffer();
    receiver.prepare_buffer(&mut buffer);
    assert_eq!(buffer.len(), 5);
}

#[test]
fn buffer_sizes_for_the_last_block_and_the_end() {
    let config = ConfigBuilder::new()
        .payload_size(Size::Byte(10))
        .block_size(Size::Byte(4))
        .build();
    let mut receiver = Receiver::new(&config);
    let mut buffer = receiver.initial_buffer();
    let mut sizes = Vec::new();
    for _ in 0..3 {
        receiver.prepare_buffer(&mut buffer);
        sizes.push(buffer.len());
        buffer[0] = 0;
        assert_eq!(receiver.accept(&buffer), Ok(false));
    }
    receiver.prepare_buffer(&mut buffer);
    sizes.push(buffer.len());
    assert_eq!(sizes, vec![5, 5, 3, 2]);
    buffer[0] = 1;
    assert_eq!(receiver.accept(&buffer), Ok(true));
}

#[test]
fn refused_buffers_change_nothing() {
    let config = ConfigBuilder::new().payload_size(Size::Byte(4)).block_size(Size::Byte(4)).build();
    let mut receiver = Receiver::new(&config);
    assert_eq!(receiver.accept(&[]), Err("Packet too short"));
    assert_eq!(receiver.accept(&[7, 1, 2]), Err("Invalid PacketType byte"));
    assert_eq!(receiver.counter(), 0);
    assert!(receiver.payload().payload.is_empty());
    assert_eq!(receiver.accept(&[0, 1, 2]), Ok(false));
    assert_eq!(receiver.payload().payload, vec![1u8, 2]);
}

#[test]
fn sender_packets_are_blocks_then_the_end() {
    let mut p = Payload::empty(Size::Byte(10));
    p.extend_from_bytes(&[0, 1, 2, 3, 4, 5, 6, 7, 8, 9]);
    let packets = netlab::receiver::sender_packets(&p, 4);
    assert_eq!(
        packets,
        vec![
            vec![0u8, 0, 1, 2, 3],
            vec![0u8, 4, 5, 6, 7],
            vec![0u8, 8, 9],
            vec![1u8, 1],
        ]
    );
    let empty = Payload::empty(Size::Byte(0));
    assert_eq!(netlab::receiver::sender_packets(&empty, 4), vec![vec![1u8, 1]]);
}

#[test]
fn initial_buffer_is_zeroed() {
    let config = ConfigBuilder::new().payload_size(Size::Byte(10)).block_size(Size::Byte(4)).build();
    let receiver = Receiver::new(&config);
    assert_eq!(receiver.initial_buffer(), vec![0u8; 5]);
}
