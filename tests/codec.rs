use todo_sync::datagram::{
    decode_header, encode_packet, fragment, McastSender, PacketHeader, McastReceiver, SitePartials, BODY_MAX,
    HEADER_LEN,
};
use todo_sync::protocol::{frame_length, frame_message, FrameError, MAX_FRAME_LEN};

fn message(len: usize) -> Vec<u8> {
    (0..len).map(|i| (i % 251) as u8).collect()
}

#[test]
fn header_is_big_endian() {
    let h = PacketHeader { site_id: 0x01020304, seq: 5, num: 2, idx: 1 };
    let p = encode_packet(&h, &[9, 8]);
    assert_eq!(p, vec![1, 2, 3, 4, 0, 0, 0, 5, 0, 0, 0, 2, 0, 0, 0, 1, 9, 8]);
    assert_eq!(decode_header(&p), Some(h));
    assert_eq!(decode_header(&p[..HEADER_LEN - 1]), None);
}

#[test]
fn fragments_carry_pieces_of_at_most_the_body_size() {
    let msg = message(3000);
    let frags = fragment(7, 1, &msg);
    assert_eq!(frags.len(), 3);
    for (i, f) in frags.iter().enumerate() {
        let h = decode_header(f).unwrap();
        assert_eq!(h, PacketHeader { site_id: 7, seq: 1, num: 3, idx: i as u32 });
    }
    assert_eq!(frags[0].len(), HEADER_LEN + BODY_MAX);
    assert_eq!(frags[2].len(), HEADER_LEN + 200);
    assert_eq!(fragment(7, 1, &message(BODY_MAX)).len(), 1);
    assert_eq!(fragment(7, 1, &message(BODY_MAX + 1)).len(), 2);
    assert_eq!(fragment(7, 1, &[]).len(), 1);
}

#[test]
fn out_of_order_fragments_reassemble() {
    let msg = message(4000);
    let frags = fragment(11, 4, &msg);
    let mut r = McastReceiver::new();
    assert_eq!(r.receive(&frags[2]), None);
    assert_eq!(r.receive(&frags[0]), None);
    assert_eq!(r.receive(&frags[1]), Some((11, msg)));
}

#[test]
fn a_missing_fragment_yields_nothing() {
    let msg = message(3000);
    let frags = fragment(11, 4, &msg);
    let mut p = SitePartials::new();
    p.fill_from_buffer(&frags[0]);
    assert_eq!(p.get_buffer(), None);
    p.fill_from_buffer(&frags[1]);
    assert_eq!(p.get_buffer(), None);
    // a duplicate in place of the last fragment
    p.fill_from_buffer(&frags[1]);
    assert_eq!(p.get_buffer(), None);
    assert!(p.partials.is_empty());
}

#[test]
fn a_new_sequence_number_resets_the_buffer() {
    let old = fragment(3, 1, &message(3000));
    let new_msg = message(1500);
    let new = fragment(3, 2, &new_msg);
    let mut r = McastReceiver::new();
    assert_eq!(r.receive(&old[0]), None);
    assert_eq!(r.receive(&old[1]), None);
    assert_eq!(r.receive(&new[1]), None);
    assert_eq!(r.receive(&new[0]), Some((3, new_msg)));
}

#[test]
fn sites_are_reassembled_apart() {
    let a = message(2000);
    let b: Vec<u8> = message(2000).into_iter().rev().collect();
    let fa = fragment(1, 1, &a);
    let fb = fragment(2, 1, &b);
    let mut r = McastReceiver::new();
    assert_eq!(r.receive(&fa[0]), None);
    assert_eq!(r.receive(&fb[0]), None);
    assert_eq!(r.receive(&fb[1]), Some((2, b)));
    assert_eq!(r.receive(&fa[1]), Some((1, a)));
}

#[test]
fn short_datagrams_are_ignored() {
    let mut r = McastReceiver::new();
    assert_eq!(r.receive(&[1, 2, 3]), None);
    assert!(r.sites.is_empty());
}

#[test]
fn single_fragment_message() {
    let msg = vec![42u8; 10];
    let frags = fragment(5, 9, &msg);
    let mut r = McastReceiver::new();
    assert_eq!(r.receive(&frags[0]), Some((5, msg)));
}

#[test]
fn frames_are_length_prefixed() {
    let f = frame_message(&[7, 8, 9]).unwrap();
    assert_eq!(f, vec![0, 0, 0, 3, 7, 8, 9]);
    assert_eq!(frame_length([0, 0, 0, 3]), Ok(3));
    assert_eq!(frame_length([0, 0, 1, 0]), Ok(256));
    assert_eq!(frame_length([4, 0, 0, 0]), Ok(MAX_FRAME_LEN));
    assert_eq!(frame_length([4, 0, 0, 1]), Err(FrameError::TooLarge));
    let big = vec![0u8; MAX_FRAME_LEN + 1];
    assert_eq!(frame_message(&big), Err(FrameError::TooLarge));
}

#[test]
fn sender_numbers_its_messages() {
    let mut s = McastSender::new(9);
    let first = s.packets(&[1, 2, 3]);
    let second = s.packets(&[4]);
    assert_eq!(decode_header(&first[0]).unwrap().seq, 1);
    assert_eq!(decode_header(&second[0]).unwrap().seq, 2);
    assert_eq!(s.seq, 3);
    let mut wrap = McastSender { site_id: 1, seq: u32::MAX };
    wrap.packets(&[]);
    assert_eq!(wrap.seq, 0);
}
