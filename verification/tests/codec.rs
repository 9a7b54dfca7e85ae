use zeevonk::data::{Color, Data, ProtocolError};

#[test]
fn parsing_led_bytes() {
    let bytes = vec![72, 39, 100, 95, 26, 200, 122, 102, 120];
    let parsed_colors = Data::from_bytes_vec(bytes).unwrap();

    assert_eq!(
        parsed_colors,
        Data {
            leds: vec![
                Color {
                    red: 72,
                    green: 39,
                    blue: 100
                },
                Color {
                    red: 95,
                    green: 26,
                    blue: 200
                },
                Color {
                    red: 122,
                    green: 102,
                    blue: 120
                },
            ]
        }
    )
}

#[test]
fn decode_of_two_bytes_fails() {
    let r = Data::from_bytes_vec(vec![1, 2]);
    assert_eq!(r, Err(ProtocolError::InvalidFrameLength));
}

#[test]
fn decode_of_any_remainder_fails_without_partial_frame() {
    assert_eq!(
        Data::from_bytes_vec(vec![10]),
        Err(ProtocolError::InvalidFrameLength)
    );
    assert_eq!(
        Data::from_bytes_vec(vec![10, 20, 30, 40]),
        Err(ProtocolError::InvalidFrameLength)
    );
}

#[test]
fn decode_of_empty_payload_is_an_empty_frame() {
    let frame = Data::from_bytes_vec(Vec::new()).unwrap();
    assert_eq!(frame.num_leds(), 0);
    assert_eq!(frame.encode(), Vec::<u8>::new());
}

#[test]
fn decode_yields_one_color_per_triplet_in_order() {
    let frame = Data::from_bytes_vec(vec![1, 2, 3, 4, 5, 6]).unwrap();
    assert_eq!(frame.num_leds(), 2);
    assert_eq!(frame.led(0), (1, 2, 3));
    assert_eq!(frame.led(1), (4, 5, 6));
}

#[test]
fn encode_after_decode_gives_the_payload_back() {
    let bytes = vec![72, 39, 100, 95, 26, 200, 122, 102, 120];
    let frame = Data::from_bytes_vec(bytes.clone()).unwrap();
    assert_eq!(frame.encode(), bytes);
}

#[test]
fn decode_after_encode_gives_the_frame_back() {
    let frame = Data {
        leds: vec![
            Color {
                red: 0,
                green: 128,
                blue: 255,
            },
            Color {
                red: 7,
                green: 8,
                blue: 9,
            },
        ],
    };
    let decoded = Data::from_bytes_vec(frame.encode()).unwrap();
    assert_eq!(decoded, frame);
}
