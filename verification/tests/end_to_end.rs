use aurora_lights_proxy::packet::{build_artnet_frame, parse_array, ARTNET_HEADER_LEN};
use aurora_lights_proxy::sender::ArtNetSender;

/// End-to-end: feed raw Aurora-shaped DMX data through `parse_array`, then
/// wrap it in an Art-Net frame and check the on-wire bytes.
#[test]
fn parse_then_build_produces_valid_artnet_frame() {
    let raw = vec![-1i32, 0, 128, 255, 300];
    let dmx = parse_array(&raw, 512);
    assert_eq!(dmx.len(), 512);
    assert_eq!(&dmx[..5], &[0, 0, 128, 255, 255]);

    let frame = build_artnet_frame(0, 0, &dmx);
    assert_eq!(frame.len(), ARTNET_HEADER_LEN + 512);
    assert_eq!(&frame[..8], b"Art-Net\0");
    // Length field encodes 512
    assert_eq!(&frame[16..18], &[0x02, 0x00]);
    assert_eq!(
        &frame[ARTNET_HEADER_LEN..ARTNET_HEADER_LEN + 5],
        &[0, 0, 128, 255, 255]
    );
}

/// Smoke test: building a sender should not panic and `packet_size` should
/// reflect what was configured.
#[test]
fn sender_construction_smoke() {
    let mut sender = ArtNetSender::new(0, 256, 40);
    assert_eq!(sender.packet_size(), 256);
    sender.set(&[42, 42]);
    let frame = sender.blackout();
    assert_eq!(frame.len(), ARTNET_HEADER_LEN + 256);
}

#[test]
fn parsed_levels_go_into_sender_unchanged() {
    let dmx = parse_array(&[5, -9, 260, 77], 16);
    let mut sender = ArtNetSender::new(2, 16, 40);
    sender.set(&dmx);
    assert_eq!(sender.levels_slice(), &dmx[..]);
    let frame = sender.frame();
    assert_eq!(&frame[ARTNET_HEADER_LEN..], &dmx[..]);
    assert_eq!(frame[14], 2);
}

