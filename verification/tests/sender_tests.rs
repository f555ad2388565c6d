use aurora_lights_proxy::packet::ARTNET_HEADER_LEN;
use aurora_lights_proxy::sender::ArtNetSender;

fn fresh_sender(packet_size: u16) -> ArtNetSender {
    ArtNetSender::new(0, packet_size, 200)
}

#[test]
fn set_truncates_oversized_payload() {
    let mut sender = fresh_sender(8);
    sender.set(&[1, 2, 3, 4, 5, 6, 7, 8, 9, 10]);
    assert_eq!(sender.levels_slice(), &[1, 2, 3, 4, 5, 6, 7, 8]);
}

#[test]
fn set_zero_pads_short_payload() {
    let mut sender = fresh_sender(8);
    sender.set(&[9, 9, 9]);
    assert_eq!(sender.levels_slice(), &[9, 9, 9, 0, 0, 0, 0, 0]);
}

#[test]
fn start_sends_frames_over_udp() {
    let mut sender = fresh_sender(4);
    sender.set(&[1, 2, 3, 4]);
    assert!(sender.start());

    let buf = sender.next_frame().expect("no Art-Net frame received");
    assert!(sender.stop());

    assert_eq!(buf.len(), 18 + 4);
    assert_eq!(&buf[0..8], b"Art-Net\0");
    assert_eq!(&buf[18..22], &[1, 2, 3, 4]);
}

#[test]
fn blackout_zeroes_and_sends_immediate_frame() {
    let mut sender = fresh_sender(4);
    sender.set(&[1, 2, 3, 4]);
    let rxbuf = sender.blackout();

    assert!(sender.levels_slice().iter().all(|&b| b == 0));
    let n = rxbuf.len();
    assert_eq!(&rxbuf[18..n], &[0, 0, 0, 0]);
}

#[test]
fn new_sender_is_dark_and_stopped() {
    let sender = ArtNetSender::new(7, 6, 40);
    assert_eq!(sender.levels_slice(), &[0, 0, 0, 0, 0, 0]);
    assert!(!sender.running());
    assert_eq!(sender.universe(), 7);
    assert_eq!(sender.fps(), 40);
    assert!(sender.next_frame().is_none());
}

#[test]
fn start_while_running_is_a_no_op() {
    let mut sender = fresh_sender(4);
    assert!(sender.start());
    assert!(!sender.start());
    assert!(sender.running());
    assert!(sender.stop());
    assert!(!sender.stop());
    assert!(!sender.running());
}

#[test]
fn blackout_keeps_run_state() {
    let mut sender = fresh_sender(2);
    sender.set(&[200, 100]);
    sender.start();
    let frame = sender.blackout();
    assert!(sender.running());
    assert_eq!(frame.len(), ARTNET_HEADER_LEN + 2);
    assert_eq!(sender.next_frame().unwrap(), frame);
}

#[test]
fn send_interval_follows_fps() {
    assert_eq!(ArtNetSender::new(0, 2, 40).send_interval_micros(), 25_000);
    assert_eq!(ArtNetSender::new(0, 2, 200).send_interval_micros(), 5_000);
    assert_eq!(ArtNetSender::new(0, 2, 0).send_interval_micros(), 1_000_000);
    assert_eq!(ArtNetSender::new(0, 2, 3).send_interval_micros(), 333_333);
}

#[test]
fn odd_buffer_frame_is_padded() {
    let mut sender = fresh_sender(3);
    sender.set(&[1, 2, 3]);
    let frame = sender.frame();
    assert_eq!(&frame[16..18], &[0, 4]);
    assert_eq!(&frame[ARTNET_HEADER_LEN..], &[1, 2, 3, 0]);
}
