use aurora_lights_proxy::payload::{dmx_update, DmxPayload, DmxUpdate};

fn levels(update: DmxUpdate) -> Vec<u8> {
    match update {
        DmxUpdate::Levels(v) => v,
        DmxUpdate::NoArray => panic!("no array"),
        DmxUpdate::Undecodable(e) => panic!("undecodable: {e}"),
    }
}

#[test]
fn binary_payload_is_cut_to_packet_size() {
    let out = levels(dmx_update(&DmxPayload::Binary(vec![1, 2, 3, 4, 5]), 3));
    assert_eq!(out, vec![1, 2, 3]);
    let out = levels(dmx_update(&DmxPayload::Binary(vec![1, 2]), 4));
    assert_eq!(out, vec![1, 2]);
}

#[test]
fn text_payload_uses_first_array() {
    let values = vec![
        None,
        Some(vec![Some(10), Some(-3), Some(4000), None, Some(2_147_483_648)]),
        Some(vec![Some(99)]),
    ];
    let out = levels(dmx_update(&DmxPayload::Text(values), 6));
    assert_eq!(out, vec![10, 0, 255, 0, 255, 0]);
}

#[test]
fn text_payload_without_array_is_ignored() {
    let update = dmx_update(&DmxPayload::Text(vec![None, None]), 4);
    assert!(matches!(update, DmxUpdate::NoArray));
    let update = dmx_update(&DmxPayload::Text(vec![]), 4);
    assert!(matches!(update, DmxUpdate::NoArray));
}

#[test]
fn string_payload_is_decoded_as_json_array() {
    let out = levels(dmx_update(&DmxPayload::Str("[1, 300, -4]".to_string()), 5));
    assert_eq!(out, vec![1, 255, 0, 0, 0]);
}

#[test]
fn string_payload_that_is_no_array_is_undecodable() {
    let update = dmx_update(&DmxPayload::Str("[1, 2".to_string()), 5);
    assert!(matches!(update, DmxUpdate::Undecodable(_)));
    let update = dmx_update(&DmxPayload::Str("nope".to_string()), 5);
    assert!(matches!(update, DmxUpdate::Undecodable(_)));
}

#[test]
fn string_payload_values_beyond_i32_are_clamped() {
    let out = levels(dmx_update(&DmxPayload::Str("[2147483648]".to_string()), 4));
    assert_eq!(out, vec![255, 0, 0, 0]);
    let out = levels(dmx_update(&DmxPayload::Str("[-3, 300, 5]".to_string()), 4));
    assert_eq!(out, vec![0, 255, 5, 0]);
    let out = levels(dmx_update(&DmxPayload::Str("[-9223372036854775808]".to_string()), 2));
    assert_eq!(out, vec![0, 0]);
}
