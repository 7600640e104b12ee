use nduseropt::{
    AddressFamily, CodecError, Nla, NeighbourDiscoveryIcmpType,
    NeighbourDiscoveryUserOptionHeader, NeighbourDiscoveryUserOptionMessage,
    NeighbourDiscoveryUserOptionMessageBuffer, NEIGHBOUR_DISCOVERY_USER_OPTION_HEADER_LEN,
};

/// The captured RouterAdvertisement notification: a netlink envelope of 16
/// bytes followed by the 0x5c-byte neighbour discovery user option message
/// that this codec handles.
fn captured_notification() -> Vec<u8> {
    vec![
        // netlink message length + padding
        0x6c, 0x00, 0x00, 0x00, //
        // netlink message type (new neighbour discovery user option)
        0x44, 0x00, //
        // flags
        0x00, 0x00, //
        // seq number
        0x00, 0x00, //
        // port number
        0x00, 0x00, //
        // family
        0x00, 0x00, 0x00, 0x00, //
        // address family (AF_INET6)
        0x0a, //
        0x00, 0x38, 0x00, 0x02, 0x00, 0x00, 0x00, //
        0x86, 0x00, 0x00, 0x00, 0x00, 0x00, 0x00, 0x00, //
        // === RDNSS option begins here ===
        // RDNSS option type
        0x19, //
        // Length of option (in units of 8 octets, including type and length)
        0x07, //
        // Padding
        0x00, 0x00, //
        // Lifetime for RDNSS addresses
        0x00, 0x12, 0x75, 0x00, //
        // First RDNSS address
        0x20, 0x01, 0x0d, 0xb8, 0x00, 0x00, 0x00, 0x00, 0x00, 0x00, 0x00, 0x00, 0x00, 0x00,
        0x00, 0x01, //
        // Second RDNSS address
        0x20, 0x01, 0x0d, 0xb8, 0x00, 0x00, 0x00, 0x00, 0x00, 0x00, 0x00, 0x00, 0x00, 0x00,
        0x01, 0x53, //
        // Third RDNSS address
        0x20, 0x01, 0x0d, 0xb8, 0x00, 0x00, 0x00, 0x00, 0x00, 0x00, 0x00, 0x00, 0x00, 0x00,
        0x00, 0x53, //
        // === RDNSS option ends here ===
        // NLA header
        0x14, 0x00, 0x01, 0x00, //
        // NLA (source link local address)
        0xfe, 0x80, 0x00, 0x00, 0x00, 0x00, 0x00, 0x00, 0x00, 0x00, 0x00, 0x00, 0x00, 0x00,
        0x00, 0x01,
    ]
}

fn captured_message() -> NeighbourDiscoveryUserOptionMessage {
    NeighbourDiscoveryUserOptionMessage::new(
        NeighbourDiscoveryUserOptionHeader::new(
            AddressFamily::Inet6,
            2,
            NeighbourDiscoveryIcmpType::RouterAdvertisement,
        ),
        vec![
            0x19, 0x7, 0x0, 0x0, 0x0, 0x12, 0x75, 0x0, 0x20, 0x1, 0xd, 0xb8, 0x0, 0x0, 0x0,
            0x0, 0x0, 0x0, 0x0, 0x0, 0x0, 0x0, 0x0, 0x1, 0x20, 0x1, 0xd, 0xb8, 0x0, 0x0, 0x0,
            0x0, 0x0, 0x0, 0x0, 0x0, 0x0, 0x0, 0x1, 0x53, 0x20, 0x1, 0xd, 0xb8, 0x0, 0x0, 0x0,
            0x0, 0x0, 0x0, 0x0, 0x0, 0x0, 0x0, 0x0, 0x53,
        ],
        vec![Nla::SourceLinkLocalAddress(vec![
            0xfe, 0x80, 0x0, 0x0, 0x0, 0x0, 0x0, 0x0, 0x0, 0x0, 0x0, 0x0, 0x0, 0x0, 0x0, 0x1,
        ])],
    )
}

#[test]
fn nduseropt() {
    let data = captured_notification();
    // The 16-byte netlink envelope belongs to the outer transport; the
    // neighbour discovery user option message starts after it.
    let payload = &data[16..];

    let actual = NeighbourDiscoveryUserOptionMessage::decode(payload)
        .expect("deserialize netlink message");
    let want = captured_message();
    assert_eq!(actual, want);

    let actual_buf = actual.encode().expect("encode decoded message");
    let want_buf = want.encode().expect("encode expected message");
    assert_eq!(actual_buf, want_buf);
    assert_eq!(actual_buf, payload);
}

#[test]
fn icmp_type_mapping_is_lossless_for_every_byte() {
    for v in 0..=255u8 {
        let mapped = NeighbourDiscoveryIcmpType::from(v);
        assert_eq!(u8::from(mapped), v);
    }
    assert_eq!(
        NeighbourDiscoveryIcmpType::from(133),
        NeighbourDiscoveryIcmpType::RouterSolicitation
    );
    assert_eq!(
        NeighbourDiscoveryIcmpType::from(134),
        NeighbourDiscoveryIcmpType::RouterAdvertisement
    );
    assert_eq!(
        NeighbourDiscoveryIcmpType::from(135),
        NeighbourDiscoveryIcmpType::NeighbourSolicitation
    );
    assert_eq!(
        NeighbourDiscoveryIcmpType::from(136),
        NeighbourDiscoveryIcmpType::NeighbourAdvertisement
    );
    assert_eq!(
        NeighbourDiscoveryIcmpType::from(137),
        NeighbourDiscoveryIcmpType::Redirect
    );
    assert_eq!(
        NeighbourDiscoveryIcmpType::from(42),
        NeighbourDiscoveryIcmpType::Other(42)
    );
}

#[test]
fn address_family_mapping_is_lossless_for_every_byte() {
    for v in 0..=255u8 {
        let mapped = AddressFamily::from(v);
        assert_eq!(u8::from(mapped), v);
    }
    assert_eq!(AddressFamily::from(2), AddressFamily::Inet);
    assert_eq!(AddressFamily::from(10), AddressFamily::Inet6);
    assert_eq!(AddressFamily::from(7), AddressFamily::Other(7));
}

#[test]
fn icmp_code_is_zero_in_every_encoded_output() {
    // A buffer whose ICMP code byte (offset 9) is not zero still decodes,
    // but encoding always normalizes the code to zero.
    let mut raw = vec![0u8; 16];
    raw[0] = 10;
    raw[8] = 134;
    raw[9] = 0x55;
    let message = NeighbourDiscoveryUserOptionMessage::decode(&raw).expect("decode");
    let encoded = message.encode().expect("encode");
    assert_eq!(encoded[9], 0);

    let encoded_captured = captured_message().encode().expect("encode");
    assert_eq!(encoded_captured[9], 0);
}

#[test]
fn short_buffer_is_reported_truncated() {
    for n in 0..16usize {
        let raw = vec![0u8; n];
        assert_eq!(
            NeighbourDiscoveryUserOptionMessage::decode(&raw),
            Err(CodecError::TruncatedBuffer)
        );
    }
}

#[test]
fn overlong_option_length_is_reported_truncated() {
    // Sixteen header bytes and four trailing bytes, but the header claims
    // an eight-byte option body.
    let mut raw = vec![0u8; 20];
    raw[2] = 8;
    assert_eq!(
        NeighbourDiscoveryUserOptionMessage::decode(&raw),
        Err(CodecError::TruncatedBuffer)
    );
}

#[test]
fn option_body_of_65535_bytes_encodes() {
    let message = NeighbourDiscoveryUserOptionMessage::new(
        NeighbourDiscoveryUserOptionHeader::new(
            AddressFamily::Inet6,
            1,
            NeighbourDiscoveryIcmpType::RouterAdvertisement,
        ),
        vec![0xab; 65535],
        vec![],
    );
    let encoded = message.encode().expect("a 65535-byte body must encode");
    assert_eq!(encoded.len(), 16 + 65535);
    assert_eq!(encoded[2], 0xff);
    assert_eq!(encoded[3], 0xff);
    let decoded = NeighbourDiscoveryUserOptionMessage::decode(&encoded).expect("decode");
    assert_eq!(decoded, message);
}

#[test]
fn option_body_of_65536_bytes_is_too_large() {
    let message = NeighbourDiscoveryUserOptionMessage::new(
        NeighbourDiscoveryUserOptionHeader::new(
            AddressFamily::Inet6,
            1,
            NeighbourDiscoveryIcmpType::RouterAdvertisement,
        ),
        vec![0xab; 65536],
        vec![],
    );
    assert_eq!(message.encode(), Err(CodecError::OptionBodyTooLarge));
}

#[test]
fn attribute_record_shorter_than_its_header_is_malformed() {
    // Empty option body; the attribute run declares a record of length 3.
    let mut raw = vec![0u8; 20];
    raw[16] = 3;
    assert_eq!(
        NeighbourDiscoveryUserOptionMessage::decode(&raw),
        Err(CodecError::MalformedAttribute)
    );
}

#[test]
fn attribute_record_overrunning_the_buffer_is_malformed() {
    // The record claims eight bytes but only four are present.
    let mut raw = vec![0u8; 20];
    raw[16] = 8;
    raw[18] = 1;
    assert_eq!(
        NeighbourDiscoveryUserOptionMessage::decode(&raw),
        Err(CodecError::MalformedAttribute)
    );
}

#[test]
fn attribute_value_larger_than_its_length_field_is_malformed() {
    let message = NeighbourDiscoveryUserOptionMessage::new(
        NeighbourDiscoveryUserOptionHeader::new(
            AddressFamily::Inet,
            1,
            NeighbourDiscoveryIcmpType::Redirect,
        ),
        vec![],
        vec![Nla::Other { kind: 2, value: vec![0; 65532] }],
    );
    assert_eq!(message.encode(), Err(CodecError::MalformedAttribute));
}

#[test]
fn unknown_attribute_kinds_are_kept_opaque() {
    // One unknown attribute (kind 0x99) with a three-byte value, padded by
    // one zero byte on the wire.
    let raw: Vec<u8> = vec![
        2, 0, 0, 0, 9, 0, 0, 0, 137, 0, 0, 0, 0, 0, 0, 0, // header
        0x07, 0x00, 0x99, 0x00, 0xaa, 0xbb, 0xcc, 0x00, // attribute run
    ];
    let message = NeighbourDiscoveryUserOptionMessage::decode(&raw).expect("decode");
    assert_eq!(message.header.family, AddressFamily::Inet);
    assert_eq!(message.header.interface_index, 9);
    assert_eq!(message.header.icmp_type, NeighbourDiscoveryIcmpType::Redirect);
    assert_eq!(message.option_body, Vec::<u8>::new());
    assert_eq!(
        message.attributes,
        vec![Nla::Other { kind: 0x99, value: vec![0xaa, 0xbb, 0xcc] }]
    );
    assert_eq!(message.encode().expect("encode"), raw);
}

#[test]
fn attribute_padding_is_recomputed_as_zero() {
    // Nonzero padding after the attribute value decodes, but the padding
    // byte is normalized to zero on encode.
    let mut raw: Vec<u8> = vec![
        2, 0, 0, 0, 9, 0, 0, 0, 137, 0, 0, 0, 0, 0, 0, 0, //
        0x07, 0x00, 0x01, 0x00, 0xaa, 0xbb, 0xcc, 0xff,
    ];
    let message = NeighbourDiscoveryUserOptionMessage::decode(&raw).expect("decode");
    assert_eq!(
        message.attributes,
        vec![Nla::SourceLinkLocalAddress(vec![0xaa, 0xbb, 0xcc])]
    );
    let encoded = message.encode().expect("encode");
    raw[23] = 0;
    assert_eq!(encoded, raw);
}

#[test]
fn buffer_view_splits_body_and_attribute_run() {
    let data = captured_notification();
    let payload = &data[16..];
    let buf = NeighbourDiscoveryUserOptionMessageBuffer::new(payload).expect("valid buffer");
    assert_eq!(buf.address_family(), 10);
    assert_eq!(buf.options_length(), 0x38);
    assert_eq!(buf.interface_index(), 2);
    assert_eq!(buf.icmp_type(), 0x86);
    assert_eq!(buf.icmp_code(), 0);
    assert_eq!(buf.option_body(), &payload[16..16 + 0x38]);
    assert_eq!(buf.attribute_run(), &payload[16 + 0x38..]);
    assert_eq!(NEIGHBOUR_DISCOVERY_USER_OPTION_HEADER_LEN, 16);
}

#[test]
fn buffer_len_matches_encoded_length() {
    let message = captured_message();
    let encoded = message.encode().expect("encode");
    assert_eq!(message.buffer_len(), encoded.len());
    assert_eq!(message.buffer_len(), 0x6c - 16);
}

#[test]
fn nla_accessors_report_kind_and_value() {
    let source = Nla::SourceLinkLocalAddress(vec![1, 2, 3]);
    assert_eq!(source.kind(), 1);
    assert_eq!(source.value(), &vec![1, 2, 3]);
    let other = Nla::Other { kind: 0x20, value: vec![9] };
    assert_eq!(other.kind(), 0x20);
    assert_eq!(other.value(), &vec![9]);
}
