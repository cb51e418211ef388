use netlab::packet::{NetworkSerialize, Packet, PacketType, FLAG_SIZE};

#[test]
fn packet_type_bytes() {
    assert_eq!(PacketType::Payload.to_u8(), 0);
    assert_eq!(PacketType::EndPayload.to_u8(), 1);
    assert_eq!(PacketType::from_u8(0), Ok(PacketType::Payload));
    assert_eq!(PacketType::from_u8(1), Ok(PacketType::EndPayload));
    assert_eq!(PacketType::from_u8(2), Err("Invalid PacketType byte"));
    assert_eq!(PacketType::from_u8(255), Err("Invalid PacketType byte"));
    assert_eq!(FLAG_SIZE, 1);
}

#[test]
fn payload_packet_bytes() {
    let p = Packet::new(PacketType::Payload, vec![7u8, 8, 9]);
    assert_eq!(p.to_bytes(), vec![0u8, 7, 8, 9]);
    let end = Packet::new(PacketType::EndPayload, vec![1u8; 1]);
    assert_eq!(end.to_bytes(), vec![1u8, 1]);
}

#[test]
fn slice_packet_bytes() {
    let data = [5u8, 6];
    let p = Packet::new(PacketType::Payload, &data[..]);
    assert_eq!(p.to_bytes(), vec![0u8, 5, 6]);
}

#[test]
fn read_back_what_was_written() {
    let p = Packet::new(PacketType::Payload, vec![1u8, 2, 3, 4]);
    let bytes = p.to_bytes();
    let q = Packet::<Vec<u8>>::from_bytes(&bytes).unwrap();
    assert_eq!(q.packet_type, PacketType::Payload);
    assert_eq!(q.data, vec![1u8, 2, 3, 4]);
    assert_eq!(q.to_bytes(), bytes);

    let end = Packet::new(PacketType::EndPayload, Vec::<u8>::new()).to_bytes();
    let e = Packet::<Vec<u8>>::from_bytes(&end).unwrap();
    assert_eq!(e.packet_type, PacketType::EndPayload);
    assert!(e.data.is_empty());
}

#[test]
fn read_into_a_borrowed_slice() {
    let bytes = [1u8, 9, 9];
    let p = Packet::<&[u8]>::from_bytes(&bytes).unwrap();
    assert_eq!(p.packet_type, PacketType::EndPayload);
    assert_eq!(p.data, &[9u8, 9][..]);
}

#[test]
fn refused_packets() {
    let empty: [u8; 0] = [];
    assert_eq!(
        Packet::<Vec<u8>>::from_bytes(&empty).err(),
        Some("Packet too short")
    );
    assert_eq!(
        Packet::<Vec<u8>>::from_bytes(&[2u8, 0]).err(),
        Some("Invalid PacketType byte")
    );
}

#[test]
fn nested_packets() {
    let inner = Packet::new(PacketType::EndPayload, vec![4u8]);
    let outer = Packet::new(PacketType::Payload, inner);
    let bytes = outer.to_bytes();
    assert_eq!(bytes, vec![0u8, 1, 4]);
    let back = Packet::<Packet<Vec<u8>>>::from_bytes(&bytes).unwrap();
    assert_eq!(back.packet_type, PacketType::Payload);
    assert_eq!(back.data.packet_type, PacketType::EndPayload);
    assert_eq!(back.data.data, vec![4u8]);
    assert_eq!(
        Packet::<Packet<Vec<u8>>>::from_bytes(&[0u8]).err(),
        Some("Packet too short")
    );
}
