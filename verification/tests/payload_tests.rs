use netlab::payload::{hash_confirmation, Payload};
use netlab::size::Size;

#[test]
fn generated_payload_has_the_requested_size() {
    let p = Payload::new(&Size::KB(3), &42);
    assert_eq!(p.payload.len(), 3072);
    let q = Payload::new(&Size::Byte(0), &42);
    assert!(q.payload.is_empty());
}

#[test]
fn generated_payload_is_filled_from_the_seed() {
    let a = Payload::new(&Size::KB(1), &314159);
    let b = Payload::new(&Size::KB(1), &314159);
    let c = Payload::new(&Size::KB(1), &271828);
    assert_eq!(a.payload, b.payload);
    assert_ne!(a.payload, c.payload);
    assert!(a.payload.iter().any(|&x| x != 0));
}

#[test]
fn empty_then_extend() {
    let mut p = Payload::empty(Size::KB(1));
    assert!(p.payload.is_empty());
    p.extend_from_bytes(&[1, 2, 3]);
    p.extend_from_bytes(&[]);
    p.extend_from_bytes(&[4]);
    assert_eq!(p.payload, vec![1u8, 2, 3, 4]);
}

#[test]
fn hash_of_known_inputs() {
    let empty = Payload::empty(Size::Byte(0));
    assert_eq!(
        empty.hash(),
        "e3b0c44298fc1c149afbf4c8996fb92427ae41e4649b934ca495991b7852b855"
    );
    let mut abc = Payload::empty(Size::Byte(3));
    abc.extend_from_bytes(b"abc");
    assert_eq!(
        abc.hash(),
        "ba7816bf8f01cfea414140de5dae2223b00361a396177a9cb410ff61f20015ad"
    );
}

#[test]
fn hash_is_the_same_however_the_payload_was_built() {
    let sent = Payload::new(&Size::KB(5), &7);
    let mut received = Payload::empty(Size::KB(5));
    for chunk in sent.chunks(1000) {
        received.extend_from_bytes(chunk);
    }
    assert_eq!(received.payload, sent.payload);
    assert_eq!(received.hash(), sent.hash());
    assert_eq!(sent.hash().len(), 64);
}

#[test]
fn chunks_cover_the_payload() {
    let mut p = Payload::empty(Size::Byte(10));
    p.extend_from_bytes(&[0, 1, 2, 3, 4, 5, 6, 7, 8, 9]);
    let cs = p.chunks(4);
    assert_eq!(cs, vec![&[0u8, 1, 2, 3][..], &[4, 5, 6, 7][..], &[8, 9][..]]);
    let cs = p.chunks(5);
    assert_eq!(cs, vec![&[0u8, 1, 2, 3, 4][..], &[5, 6, 7, 8, 9][..]]);
    let cs = p.chunks(100);
    assert_eq!(cs, vec![&[0u8, 1, 2, 3, 4, 5, 6, 7, 8, 9][..]]);
    let empty = Payload::empty(Size::Byte(0));
    assert!(empty.chunks(3).is_empty());
}

#[test]
fn chunks_match_the_std_chunks() {
    let p = Payload::new(&Size::KB(10), &1);
    for size in [1usize, 7, 500, 1024, 4096, 10240, 60000] {
        let ours = p.chunks(size);
        let std: Vec<&[u8]> = p.payload.chunks(size).collect();
        assert_eq!(ours, std);
    }
}

#[test]
fn confirmation_of_the_hash() {
    let mut p = Payload::empty(Size::Byte(3));
    p.extend_from_bytes(b"abc");
    let h = p.hash();
    assert_eq!(hash_confirmation(h.as_bytes(), &h), 1);
    let mut wrong = h.as_bytes().to_vec();
    wrong[10] = b'x';
    assert_eq!(hash_confirmation(&wrong, &h), 0);
    assert_eq!(hash_confirmation(&[0u8; 64], &h), 0);
    assert_eq!(hash_confirmation(&h.as_bytes()[..63], &h), 0);
}

#[test]
fn hash_is_lower_case_hex_and_stable() {
    let p = Payload::new(&Size::KB(2), &9);
    let h = p.hash();
    assert_eq!(h.len(), 64);
    assert!(h.chars().all(|c| c.is_ascii_digit() || ('a'..='f').contains(&c)));
    assert_eq!(p.hash(), h);
}
