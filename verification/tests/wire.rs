use infinirust::net::{
    ClientPackagePlayerPosition, PackageBlockUpdate, ServerPackageLogout,
    ServerPackagePlayerPosition, ServerPlayerLogin,
};
use infinirust::net::messages::{
    login_failed_package, login_package, login_success_package, read_chunk_data, read_login,
    read_login_failed, read_login_success, read_request_chunk, request_chunk_package,
};
use infinirust::net::wire::{
    bits_to_i32, get_i32, get_u16, get_u32, get_u64, i32_to_bits, put_i32, put_pos, put_u16,
    put_u32, put_u64,
};

#[test]
fn integers_are_written_least_significant_byte_first() {
    let mut out = Vec::new();
    put_u16(&mut out, 0x1234);
    put_u32(&mut out, 0x89ABCDEF);
    put_u64(&mut out, 0x0102030405060708);
    assert_eq!(
        out,
        vec![0x34, 0x12, 0xEF, 0xCD, 0xAB, 0x89, 0x08, 0x07, 0x06, 0x05, 0x04, 0x03, 0x02, 0x01]
    );
}

#[test]
fn integers_are_read_least_significant_byte_first() {
    let bytes =
        [0xAA, 0x34, 0x12, 0xEF, 0xCD, 0xAB, 0x89, 0x08, 0x07, 0x06, 0x05, 0x04, 0x03, 0x02, 0x01];
    assert_eq!(get_u16(&bytes, 1), 0x1234);
    assert_eq!(get_u32(&bytes, 3), 0x89ABCDEF);
    assert_eq!(get_u64(&bytes, 7), 0x0102030405060708);
}

#[test]
fn signed_integers_use_twos_complement() {
    let mut out = Vec::new();
    put_i32(&mut out, -1);
    put_i32(&mut out, i32::MIN);
    put_i32(&mut out, i32::MAX);
    put_i32(&mut out, -2);
    assert_eq!(
        out,
        vec![0xFF, 0xFF, 0xFF, 0xFF, 0, 0, 0, 0x80, 0xFF, 0xFF, 0xFF, 0x7F, 0xFE, 0xFF, 0xFF, 0xFF]
    );
    assert_eq!(get_i32(&out, 0), -1);
    assert_eq!(get_i32(&out, 4), i32::MIN);
    assert_eq!(get_i32(&out, 8), i32::MAX);
    assert_eq!(get_i32(&out, 12), -2);
}

#[test]
fn bit_patterns_agree_with_the_machine() {
    for x in [0i32, 1, -1, 17, -17, i32::MIN, i32::MAX, i32::MIN + 1] {
        assert_eq!(i32_to_bits(x), x as u32);
        assert_eq!(bits_to_i32(x as u32), x);
        assert_eq!(x.to_le_bytes().to_vec(), {
            let mut out = Vec::new();
            put_i32(&mut out, x);
            out
        });
    }
    for x in [0u64, 1, u64::MAX, 1 << 32, (1 << 32) - 1, 0xDEADBEEF12345678] {
        let mut out = Vec::new();
        put_u64(&mut out, x);
        assert_eq!(out, x.to_le_bytes().to_vec());
        assert_eq!(get_u64(&out, 0), x);
    }
}

#[test]
fn positions_are_written_x_then_y_then_z() {
    let mut out = vec![9u8];
    put_pos(&mut out, &[1, -1, 256]);
    assert_eq!(out, vec![9, 1, 0, 0, 0, 0xFF, 0xFF, 0xFF, 0xFF, 0, 1, 0, 0]);
}

#[test]
fn block_update_frame_layout() {
    let package = PackageBlockUpdate { pos: [1, 1, 1], block: 0, reserved: [0; 3] };
    assert_eq!(PackageBlockUpdate::id(), 0x000B);
    assert_eq!(
        &*package.to_arc(),
        &[0x0B, 0, 1, 0, 0, 0, 1, 0, 0, 0, 1, 0, 0, 0, 0, 0, 0, 0][..]
    );
    assert_eq!(&*package.to_box(), &*package.to_arc());
}

#[test]
fn block_update_round_trip() {
    for package in [
        PackageBlockUpdate { pos: [0, 0, 0], block: 0, reserved: [0; 3] },
        PackageBlockUpdate { pos: [-1, i32::MIN, i32::MAX], block: 255, reserved: [1, 2, 3] },
        PackageBlockUpdate { pos: [2, 2, 2], block: 3, reserved: [0; 3] },
    ] {
        let frame = package.to_arc();
        assert_eq!(frame.len(), 2 + PackageBlockUpdate::SIZE);
        assert_eq!(PackageBlockUpdate::new(&frame[2..]), Some(package));
    }
}

#[test]
fn block_update_of_wrong_length_is_not_read() {
    assert_eq!(PackageBlockUpdate::new(&[0u8; 15]), None);
    assert_eq!(PackageBlockUpdate::new(&[0u8; 17]), None);
    assert_eq!(PackageBlockUpdate::new(&[]), None);
}

#[test]
fn client_position_round_trip() {
    let package = ClientPackagePlayerPosition {
        pos: [10.0f64.to_bits(), 64.0f64.to_bits(), (-3.0f64).to_bits()],
        pitch: 0.5f32.to_bits(),
        yaw: 1.0f32.to_bits(),
    };
    assert_eq!(ClientPackagePlayerPosition::id(), 0x000C);
    let frame = package.to_box();
    assert_eq!(frame.len(), 34);
    assert_eq!(&frame[..2], &[0x0C, 0]);
    assert_eq!(&frame[2..10], &10.0f64.to_le_bytes());
    assert_eq!(&frame[10..18], &64.0f64.to_le_bytes());
    assert_eq!(&frame[18..26], &(-3.0f64).to_le_bytes());
    assert_eq!(&frame[26..30], &0.5f32.to_le_bytes());
    assert_eq!(&frame[30..34], &1.0f32.to_le_bytes());
    assert_eq!(ClientPackagePlayerPosition::new(&frame[2..]), Some(package));
    assert_eq!(ClientPackagePlayerPosition::new(&frame[3..]), None);
    assert_eq!(&*package.to_arc(), &*frame);
}

#[test]
fn server_position_round_trip() {
    let package = ServerPackagePlayerPosition {
        uid: 0x0102030405060708,
        pos: [f64::NAN.to_bits(), f64::INFINITY.to_bits(), (-0.0f64).to_bits()],
        pitch: u32::MAX,
        yaw: 0,
    };
    assert_eq!(ServerPackagePlayerPosition::id(), 0x000C);
    let frame = package.to_arc();
    assert_eq!(frame.len(), 42);
    assert_eq!(&frame[..10], &[0x0C, 0, 8, 7, 6, 5, 4, 3, 2, 1]);
    assert_eq!(ServerPackagePlayerPosition::new(&frame[2..]), Some(package));
    assert_eq!(ServerPackagePlayerPosition::new(&frame[..41]), None);
    assert_eq!(&*package.to_box(), &*frame);
}

#[test]
fn logout_round_trip() {
    let package = ServerPackageLogout { uid: 1 };
    assert_eq!(ServerPackageLogout::id(), 0x0004);
    let frame = package.to_arc();
    assert_eq!(&*frame, &[4, 0, 1, 0, 0, 0, 0, 0, 0, 0][..]);
    assert_eq!(ServerPackageLogout::new(&frame[2..]), Some(package));
    assert_eq!(ServerPackageLogout::new(&frame[1..]), None);
    assert_eq!(&*package.to_box(), &*frame);
}

#[test]
fn player_login_frame_layout() {
    let package = ServerPlayerLogin { uid: 0, name: "alice".to_string() };
    assert_eq!(ServerPlayerLogin::id(), 0x0003);
    assert_eq!(
        &*package.to_arc(),
        &[3, 0, 5, 0, b'a', b'l', b'i', b'c', b'e', 0, 0, 0, 0, 0, 0, 0, 0][..]
    );
}

#[test]
fn player_login_round_trip() {
    for (uid, name) in [(0u64, ""), (1, "bob"), (u64::MAX, "Zo\u{e9}42"), (7, "\u{4e16}\u{754c}")] {
        let package = ServerPlayerLogin { uid, name: name.to_string() };
        let frame = package.to_arc();
        assert_eq!(frame.len(), 2 + 2 + name.len() + 8);
        assert_eq!(ServerPlayerLogin::new(&frame[2..]), Some(package));
    }
}

#[test]
fn player_login_with_wrong_lengths_or_text_is_not_read() {
    let frame = ServerPlayerLogin { uid: 9, name: "bob".to_string() }.to_arc();
    assert_eq!(ServerPlayerLogin::new(&frame[2..frame.len() - 1]), None);
    assert_eq!(ServerPlayerLogin::new(&[]), None);
    assert_eq!(ServerPlayerLogin::new(&[1]), None);
    let mut longer = frame[2..].to_vec();
    longer.push(0);
    assert_eq!(ServerPlayerLogin::new(&longer), None);
    let mut broken = frame[2..].to_vec();
    broken[2] = 0xFF;
    assert_eq!(ServerPlayerLogin::new(&broken), None);
}

#[test]
fn login_request_round_trip() {
    let frame = login_package("alice");
    assert_eq!(&*frame, &[1, 0, 5, 0, b'a', b'l', b'i', b'c', b'e'][..]);
    assert_eq!(read_login(&frame[2..]), Some("alice".to_string()));
    let frame = login_package("");
    assert_eq!(&*frame, &[1, 0, 0, 0][..]);
    assert_eq!(read_login(&frame[2..]), Some(String::new()));
    let frame = login_package("\u{e9}");
    assert_eq!(&*frame, &[1, 0, 2, 0, 0xC3, 0xA9][..]);
    assert_eq!(read_login(&frame[2..]), Some("\u{e9}".to_string()));
}

#[test]
fn login_request_with_wrong_length_or_text_is_not_read() {
    assert_eq!(read_login(&[]), None);
    assert_eq!(read_login(&[0]), None);
    assert_eq!(read_login(&[2, 0, b'a']), None);
    assert_eq!(read_login(&[1, 0, b'a', b'b']), None);
    assert_eq!(read_login(&[1, 0, 0xFF]), None);
    assert_eq!(read_login(&[2, 0, 0xC3, 0x28]), None);
}

#[test]
fn login_failed_round_trip() {
    assert_eq!(&*login_failed_package(&[]), &[1, 0, 0, 0][..]);
    let frame = login_failed_package(b"full");
    assert_eq!(&*frame, &[1, 0, 4, 0, b'f', b'u', b'l', b'l'][..]);
    assert_eq!(read_login_failed(&frame[2..]), Some(b"full".to_vec()));
    assert_eq!(read_login_failed(&[0, 0]), Some(Vec::new()));
    assert_eq!(read_login_failed(&[1, 0]), None);
    assert_eq!(read_login_failed(&[0]), None);
}

#[test]
fn login_failed_leaves_out_a_reason_that_does_not_fit() {
    let reason = vec![b'x'; 65536];
    assert_eq!(&*login_failed_package(&reason), &[1, 0, 0, 0][..]);
    let reason = vec![b'x'; 65535];
    let frame = login_failed_package(&reason);
    assert_eq!(frame.len(), 4 + 65535);
    assert_eq!(&frame[..4], &[1, 0, 0xFF, 0xFF]);
    assert_eq!(read_login_failed(&frame[2..]), Some(reason));
}

#[test]
fn login_success_round_trip() {
    let frame = login_success_package(0x0102030405060708);
    assert_eq!(&*frame, &[2, 0, 8, 7, 6, 5, 4, 3, 2, 1][..]);
    assert_eq!(read_login_success(&frame[2..]), Some(0x0102030405060708));
    assert_eq!(read_login_success(&frame[1..]), None);
    assert_eq!(read_login_success(&frame[3..]), None);
}

#[test]
fn chunk_request_round_trip() {
    let frame = request_chunk_package([0, 0, 0]);
    assert_eq!(&*frame, &[0x0A, 0, 0, 0, 0, 0, 0, 0, 0, 0, 0, 0, 0, 0][..]);
    let frame = request_chunk_package([-8, 3, 100000]);
    assert_eq!(read_request_chunk(&frame[2..]), Some([-8, 3, 100000]));
    assert_eq!(read_request_chunk(&frame[1..]), None);
    assert_eq!(read_request_chunk(&frame[3..]), None);
}

#[test]
fn chunk_data_payload_is_read() {
    let mut payload = Vec::new();
    put_pos(&mut payload, &[1, -2, 3]);
    for i in 0..4096usize {
        payload.push((i % 251) as u8);
    }
    let (pos, cells) = read_chunk_data(&payload).unwrap();
    assert_eq!(pos, [1, -2, 3]);
    assert_eq!(cells.len(), 4096);
    assert_eq!(&cells[..], &payload[12..]);
    assert_eq!(read_chunk_data(&payload[1..]), None);
    payload.push(0);
    assert_eq!(read_chunk_data(&payload), None);
}
