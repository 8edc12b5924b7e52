use infinirust::game::background::{
    chunks_to_request, chunks_to_unload, expect_package, is_too_far, read_packages,
    Package, Update, WorldManager, VIEW_DISTANCE,
};
use infinirust::game::player::{Player, Players};
use infinirust::game::world::World;
use infinirust::misc::{first_none, login, login_answer_shape, LoginAnswer};
use infinirust::net::{
    FrameShape, PackageBlockUpdate, ServerPackageLogout, ServerPackagePlayerPosition,
    ServerPlayerLogin,
};

#[test]
fn first_none_finds_the_first_free_place() {
    assert_eq!(first_none::<u8>(&[]), None);
    assert_eq!(first_none(&[Some(1), Some(2)]), None);
    assert_eq!(first_none(&[None, Some(2)]), Some(0));
    assert_eq!(first_none(&[Some(1), None, Some(3), None]), Some(1));
    assert_eq!(first_none(&[Some("a"), Some("b"), None]), Some(2));
}

#[test]
fn the_answer_to_a_login_is_read() {
    assert_eq!(login_answer_shape(1), FrameShape::Prefixed(0));
    assert_eq!(login_answer_shape(2), FrameShape::Fixed(8));
    assert_eq!(login_answer_shape(3), FrameShape::Unknown);
    assert_eq!(login(2, &[7, 0, 0, 0, 0, 0, 0, 0]), Some(LoginAnswer::Success(7)));
    assert_eq!(login(1, &[0, 0]), Some(LoginAnswer::Failed(Vec::new())));
    assert_eq!(login(1, &[2, 0, b'n', b'o']), Some(LoginAnswer::Failed(b"no".to_vec())));
    assert_eq!(login(2, &[7, 0, 0, 0, 0, 0, 0]), None);
    assert_eq!(login(1, &[2, 0, b'n']), None);
    assert_eq!(login(3, &[0, 0]), None);
    assert_eq!(login(0x0A, &[0; 8]), None);
}

#[test]
fn a_reader_is_told_how_much_is_still_to_come() {
    assert_eq!(FrameShape::Fixed(12).remaining(&[]), 12);
    assert_eq!(FrameShape::Fixed(12).remaining(&[0; 5]), 7);
    assert_eq!(FrameShape::Fixed(12).remaining(&[0; 12]), 0);
    assert_eq!(FrameShape::Fixed(12).remaining(&[0; 13]), 0);
    assert_eq!(FrameShape::Fixed(0).remaining(&[]), 0);
    assert_eq!(FrameShape::Unknown.remaining(&[]), 0);
    assert_eq!(FrameShape::Unknown.remaining(&[1, 2, 3]), 0);
    assert_eq!(FrameShape::Prefixed(8).remaining(&[]), 2);
    assert_eq!(FrameShape::Prefixed(8).remaining(&[3]), 1);
    assert_eq!(FrameShape::Prefixed(8).remaining(&[3, 0]), 11);
    assert_eq!(FrameShape::Prefixed(8).remaining(&[3, 1]), 259 + 8);
    assert_eq!(FrameShape::Prefixed(8).remaining(&[3, 0, b'b', b'o', b'b']), 8);
    assert_eq!(FrameShape::Prefixed(8).remaining(&[3, 0, 1, 2, 3, 4, 5, 6, 7, 8, 9, 10, 11]), 0);
    assert_eq!(FrameShape::Prefixed(0).remaining(&[0, 0]), 0);
    assert_eq!(FrameShape::Prefixed(0).remaining(&[0xFF, 0xFF]), 65535);
    assert_eq!(FrameShape::Prefixed(usize::MAX).remaining(&[1, 0]), usize::MAX);
    assert_eq!(FrameShape::Fixed(usize::MAX).remaining(&[0]), usize::MAX - 1);
}

#[test]
fn the_client_knows_what_follows_each_id() {
    assert_eq!(expect_package(0x0A), FrameShape::Fixed(4108));
    assert_eq!(expect_package(0x0B), FrameShape::Fixed(16));
    assert_eq!(expect_package(0x0C), FrameShape::Fixed(40));
    assert_eq!(expect_package(0x04), FrameShape::Fixed(8));
    assert_eq!(expect_package(0x03), FrameShape::Prefixed(8));
    for id in [0u16, 1, 2, 5, 0x0D, 0x0300] {
        assert_eq!(expect_package(id), FrameShape::Unknown);
    }
}

#[test]
fn frames_from_the_server_are_read() {
    let update = PackageBlockUpdate { pos: [1, 2, 3], block: 4, reserved: [0; 3] };
    assert_eq!(read_packages(0x0B, &update.to_arc()[2..]), Some(Package::BlockUpdate(update)));
    let position = ServerPackagePlayerPosition { uid: 3, pos: [1, 2, 3], pitch: 4, yaw: 5 };
    assert_eq!(
        read_packages(0x0C, &position.to_arc()[2..]),
        Some(Package::PlayerPositionUpdate(position))
    );
    let logout = ServerPackageLogout { uid: 9 };
    assert_eq!(read_packages(0x04, &logout.to_arc()[2..]), Some(Package::PlayerLogout(logout)));
    let announce = ServerPlayerLogin { uid: 1, name: "bob".to_string() };
    assert_eq!(
        read_packages(0x03, &announce.to_arc()[2..]),
        Some(Package::PlayerLogin(ServerPlayerLogin { uid: 1, name: "bob".to_string() }))
    );
    let mut chunk = vec![0u8; 4108];
    chunk[0] = 5;
    chunk[12] = 1;
    chunk[4107] = 2;
    let mut cells = vec![0u8; 4096];
    cells[0] = 1;
    cells[4095] = 2;
    assert_eq!(read_packages(0x0A, &chunk), Some(Package::Chunk([5, 0, 0], cells)));
}

#[test]
fn frames_that_the_server_never_sends_are_not_read() {
    assert_eq!(read_packages(0x0B, &[0; 15]), None);
    assert_eq!(read_packages(0x0C, &[0; 32]), None);
    assert_eq!(read_packages(0x04, &[0; 9]), None);
    assert_eq!(read_packages(0x03, &[1, 0, 0xFF, 0, 0, 0, 0, 0, 0, 0, 0]), None);
    assert_eq!(read_packages(0x0A, &[0; 4107]), None);
    assert_eq!(read_packages(0x01, &[0, 0]), None);
    assert_eq!(read_packages(0x02, &[0; 8]), None);
    assert_eq!(read_packages(0xFFFF, &[]), None);
}

#[test]
fn chunks_beyond_the_view_distance_are_too_far() {
    assert_eq!(VIEW_DISTANCE, 8);
    assert!(!is_too_far(&[0, 0, 0], &[0, 0]));
    assert!(!is_too_far(&[8, 100, -8], &[0, 0]));
    assert!(is_too_far(&[9, 0, 0], &[0, 0]));
    assert!(is_too_far(&[0, 0, -9], &[0, 0]));
    assert!(!is_too_far(&[-3, -4, 11], &[5, 3]));
    assert!(is_too_far(&[-4, -4, 11], &[5, 3]));
    assert!(is_too_far(&[i32::MAX, 0, 0], &[i32::MIN, 0]));
    assert!(is_too_far(&[0, 0, i32::MIN], &[0, i32::MAX]));
}

#[test]
fn chunks_that_are_too_far_are_unloaded_in_order() {
    let loaded = [[0, 0, 0], [9, 0, 0], [8, 1, 8], [0, 3, -9], [20, 0, 20], [-8, -4, -8]];
    assert_eq!(chunks_to_unload(&loaded, &[0, 0]), vec![[9, 0, 0], [0, 3, -9], [20, 0, 20]]);
    assert_eq!(
        chunks_to_unload(&loaded, &[12, 12]),
        vec![[0, 0, 0], [9, 0, 0], [0, 3, -9], [-8, -4, -8]]
    );
    assert_eq!(chunks_to_unload(&[], &[0, 0]), Vec::<[i32; 3]>::new());
}

#[test]
fn every_chunk_in_view_is_requested_where_nothing_is_loaded() {
    let requested = chunks_to_request(&world(), &[3, -2]);
    assert_eq!(requested.len(), 17 * 17 * 8);
    assert_eq!(requested[0], [-5, -4, -10]);
    assert_eq!(requested[1], [-5, -3, -10]);
    assert_eq!(requested[7], [-5, 3, -10]);
    assert_eq!(requested[8], [-5, -4, -9]);
    assert_eq!(requested[17 * 8], [-4, -4, -10]);
    assert_eq!(requested[17 * 17 * 8 - 1], [11, 3, 6]);
    let mut expected = Vec::new();
    for x in -8..=8 {
        for z in -8..=8 {
            for y in -4..4 {
                expected.push([3 + x, y, -2 + z]);
            }
        }
    }
    assert_eq!(requested, expected);
}

#[test]
fn columns_whose_chunk_at_height_zero_is_loaded_are_not_requested() {
    let mut world = world();
    for pos in [[0, 0, 0], [1, 1, 1], [8, 0, -8], [9, 0, 0]] {
        world.load(pos, vec![0; 4096]);
    }
    assert!(world.is_loaded(&[1, 1, 1]));
    assert!(!world.is_loaded(&[1, 0, 1]));
    let requested = chunks_to_request(&world, &[0, 0]);
    assert_eq!(requested.len(), (17 * 17 - 2) * 8);
    assert!(requested.iter().all(|p| !(p[0] == 0 && p[2] == 0)));
    assert!(requested.iter().all(|p| !(p[0] == 8 && p[2] == -8)));
    assert_eq!(requested.iter().filter(|p| p[0] == 1 && p[2] == 1).count(), 8);
    assert!(requested.iter().all(|p| p[0].abs() <= 8 && p[2].abs() <= 8));
    assert!(requested.iter().all(|p| (-4..4).contains(&p[1])));
}

#[test]
fn the_network_half_asks_for_chunks_when_the_camera_changes_column() {
    let mut world = world();
    let mut manager = WorldManager::new(5);
    assert_eq!(manager.current_world_center, [i32::MIN, i32::MIN]);
    let change = manager.camera_moved(&mut world, [0, -1]).unwrap();
    assert_eq!(change.center, [0, -1]);
    assert_eq!(manager.current_world_center, [0, -1]);
    assert!(change.unload.is_empty());
    assert_eq!(change.requested.len(), 2312);
    assert_eq!(change.requests.len(), 2312);
    assert_eq!(change.requested[0], [-8, -4, -9]);
    assert_eq!(
        &*change.requests[0],
        &[0x0A, 0, 0xF8, 0xFF, 0xFF, 0xFF, 0xFC, 0xFF, 0xFF, 0xFF, 0xF7, 0xFF, 0xFF, 0xFF][..]
    );
    for (frame, pos) in change.requests.iter().zip(change.requested.iter()) {
        assert_eq!(&frame[..2], &[0x0A, 0]);
        assert_eq!(&frame[2..6], &pos[0].to_le_bytes());
        assert_eq!(&frame[6..10], &pos[1].to_le_bytes());
        assert_eq!(&frame[10..14], &pos[2].to_le_bytes());
    }

    assert!(manager.camera_moved(&mut world, [15, -16]).is_none());
    assert!(manager.camera_moved(&mut world, [0, -1]).is_none());
    assert_eq!(manager.current_world_center, [0, -1]);

    for pos in &change.requested {
        world.load(*pos, vec![0; 4096]);
    }
    let change = manager.camera_moved(&mut world, [16, -1]).unwrap();
    assert_eq!(change.center, [1, -1]);
    let mut unloaded = change.unload.clone();
    unloaded.sort();
    unloaded.dedup();
    assert_eq!(unloaded.len(), 17 * 8);
    assert_eq!(change.unload.len(), 17 * 8);
    assert!(change.unload.iter().all(|p| p[0] == -8));
    assert_eq!(change.requested.len(), 17 * 8);
    assert!(change.requested.iter().all(|p| p[0] == 9));
    assert_eq!(world.loaded().len(), 16 * 17 * 8);
    assert!(world.loaded().iter().all(|p| p[0] != -8));
}

fn world() -> World {
    World::new(Player::new("me".to_string(), 5))
}

fn chunk_frame(pos: [i32; 3], fill: u8) -> Package {
    Package::Chunk(pos, vec![fill; 4096])
}

#[test]
fn the_own_position_from_the_server_forces_a_new_round_of_requests() {
    let mut world = world();
    let mut manager = WorldManager::new(5);
    manager.camera_moved(&mut world, [100, 100]);
    assert_eq!(manager.current_world_center, [6, 6]);
    let other = ServerPackagePlayerPosition { uid: 4, pos: [0; 3], pitch: 0, yaw: 0 };
    manager.package_received(&mut world, Package::PlayerPositionUpdate(other));
    assert_eq!(manager.current_world_center, [6, 6]);
    manager.package_received(&mut world, Package::PlayerLogout(ServerPackageLogout { uid: 5 }));
    assert_eq!(manager.current_world_center, [6, 6]);
    let own = ServerPackagePlayerPosition { uid: 5, pos: [1, 2, 3], pitch: 4, yaw: 5 };
    manager.package_received(&mut world, Package::PlayerPositionUpdate(own));
    assert_eq!(manager.current_world_center, [i32::MIN, i32::MIN]);
    assert!(manager.camera_moved(&mut world, [100, 100]).is_some());
    assert_eq!(manager.uid, 5);
    assert_eq!(world.players().local_player().position, [1, 2, 3]);
    assert_eq!(world.players().local_player().pitch, 4);
    assert_eq!(world.players().local_player().yaw, 5);
}

#[test]
fn a_client_keeps_track_of_the_other_players() {
    let mut players = Players::new(Player::new("me".to_string(), 0));
    assert_eq!(players.local_player().name, "me");
    assert!(players.players().is_empty());
    players.add_player("bob".to_string(), 1);
    players.add_player("carol".to_string(), 2);
    players.add_player("dave".to_string(), 3);
    assert_eq!(players.players().len(), 3);
    assert_eq!(players.players()[1], Player::new("carol".to_string(), 2));
    assert_eq!(players.players()[1].position, [0, 0, 0]);
    players.update(&ServerPackagePlayerPosition { uid: 2, pos: [7, 8, 9], pitch: 1, yaw: 2 });
    assert_eq!(players.players()[1].position, [7, 8, 9]);
    assert_eq!((players.players()[1].pitch, players.players()[1].yaw), (1, 2));
    assert_eq!(players.players()[0], Player::new("bob".to_string(), 1));
    assert_eq!(players.players()[2], Player::new("dave".to_string(), 3));
    assert_eq!(players.local_player().position, [0, 0, 0]);
    players.update(&ServerPackagePlayerPosition { uid: 9, pos: [1, 1, 1], pitch: 1, yaw: 1 });
    assert_eq!(players.players()[0].position, [0, 0, 0]);
    players.remove_player(1);
    assert_eq!(players.players().len(), 2);
    assert_eq!(players.players()[0].name, "carol");
    assert_eq!(players.players()[1].name, "dave");
    players.remove_player(1);
    players.remove_player(0);
    assert_eq!(players.players().len(), 2);
    players.add_player("twin".to_string(), 3);
    players.remove_player(3);
    assert_eq!(players.players().len(), 1);
    assert_eq!(players.players()[0].name, "carol");
    assert_eq!(players.local_player().uid, 0);
}

#[test]
fn a_client_keeps_the_chunks_it_is_sent() {
    let mut world = world();
    assert!(world.loaded().is_empty());
    assert!(!world.is_block([0, 0, 0]));
    world.load([0, 0, 0], vec![1; 4096]);
    world.load([-1, 0, 0], vec![0; 4096]);
    world.load([5, 5, 5], vec![1; 4095]);
    world.load([6, 6, 6], vec![1; 4097]);
    let mut loaded = world.loaded();
    loaded.sort();
    assert_eq!(loaded, vec![[-1, 0, 0], [0, 0, 0]]);
    assert!(world.is_block([0, 0, 0]));
    assert!(world.is_block([15, 15, 15]));
    assert!(!world.is_block([16, 0, 0]));
    assert!(!world.is_block([-1, 0, 0]));
    world.update_block([-1, 2, 3], 9);
    assert!(world.is_block([-1, 2, 3]));
    assert!(!world.is_block([-2, 2, 3]));
    world.update_block([3, 3, 3], 0);
    assert!(!world.is_block([3, 3, 3]));
    assert!(world.is_block([3, 3, 4]));
    world.update_block([3, 3, 3], 7);
    assert!(world.is_block([3, 3, 3]));
    world.update_block([100, 100, 100], 7);
    assert!(!world.is_block([100, 100, 100]));
    world.load([0, 0, 0], vec![0; 4096]);
    assert!(!world.is_block([3, 3, 3]));
    world.unload(&[0, 0, 0]);
    world.unload(&[9, 9, 9]);
    assert_eq!(world.loaded(), vec![[-1, 0, 0]]);
    assert!(world.is_block([-1, 2, 3]));
}

#[test]
fn frames_from_the_server_go_into_the_world() {
    let mut world = world();
    let mut manager = WorldManager::new(5);
    manager.package_received(&mut world, chunk_frame([0, 0, 0], 0));
    manager.package_received(&mut world, chunk_frame([1, 0, 0], 2));
    manager.package_received(&mut world, Package::Chunk([2, 0, 0], vec![1; 10]));
    assert_eq!(world.loaded().len(), 2);
    assert!(!world.is_block([1, 2, 3]));
    let update = PackageBlockUpdate { pos: [1, 2, 3], block: 4, reserved: [0; 3] };
    manager.package_received(&mut world, Package::BlockUpdate(update));
    assert!(world.is_block([1, 2, 3]));
    let update = PackageBlockUpdate { pos: [16, 0, 0], block: 0, reserved: [0; 3] };
    manager.package_received(&mut world, Package::BlockUpdate(update));
    assert!(!world.is_block([16, 0, 0]));
    assert!(world.is_block([17, 0, 0]));
    let update = PackageBlockUpdate { pos: [32, 0, 0], block: 1, reserved: [0; 3] };
    manager.package_received(&mut world, Package::BlockUpdate(update));
    assert!(!world.is_block([32, 0, 0]));

    let announce = ServerPlayerLogin { uid: 1, name: "bob".to_string() };
    manager.package_received(&mut world, Package::PlayerLogin(announce));
    let announce = ServerPlayerLogin { uid: 2, name: "carol".to_string() };
    manager.package_received(&mut world, Package::PlayerLogin(announce));
    let position = ServerPackagePlayerPosition { uid: 2, pos: [1, 2, 3], pitch: 4, yaw: 5 };
    manager.package_received(&mut world, Package::PlayerPositionUpdate(position));
    assert_eq!(world.players().players().len(), 2);
    assert_eq!(world.players().players()[0], Player::new("bob".to_string(), 1));
    assert_eq!(world.players().players()[1].position, [1, 2, 3]);
    manager.package_received(&mut world, Package::PlayerLogout(ServerPackageLogout { uid: 1 }));
    assert_eq!(world.players().players().len(), 1);
    assert_eq!(world.players().players()[0].name, "carol");
    assert_eq!(manager.current_world_center, [i32::MIN, i32::MIN]);
    assert_eq!(world.loaded().len(), 2);
}

#[test]
fn a_move_of_the_camera_is_passed_on_and_the_chunks_follow() {
    let mut world = world();
    let mut manager = WorldManager::new(5);
    let pos = [10.0f64.to_bits(), 64.0f64.to_bits(), (-3.0f64).to_bits()];
    let frames = manager.update_received(&mut world, Update::Pos(pos, 1, 2, [10, -3]));
    assert_eq!(frames.len(), 1 + 2312);
    assert_eq!(&*frames[0], &*WorldManager::position_package(pos, 1, 2));
    assert_eq!(
        &*frames[1],
        &[0x0A, 0, 0xF8, 0xFF, 0xFF, 0xFF, 0xFC, 0xFF, 0xFF, 0xFF, 0xF7, 0xFF, 0xFF, 0xFF][..]
    );
    assert_eq!(manager.current_world_center, [0, -1]);

    let frames = manager.update_received(&mut world, Update::Pos(pos, 3, 4, [15, -16]));
    assert_eq!(frames.len(), 1);
    assert_eq!(&*frames[0], &*WorldManager::position_package(pos, 3, 4));

    for x in -8..=8 {
        for y in -4..4 {
            manager.package_received(&mut world, chunk_frame([x, y, -1], 1));
        }
    }
    manager.package_received(&mut world, chunk_frame([0, 0, 50], 1));
    assert_eq!(world.loaded().len(), 17 * 8 + 1);
    let frames = manager.update_received(&mut world, Update::Pos(pos, 0, 0, [16, -1]));
    assert_eq!(manager.current_world_center, [1, -1]);
    let mut loaded = world.loaded();
    loaded.sort();
    assert_eq!(loaded.len(), 16 * 8);
    assert!(loaded.iter().all(|p| (-7..=8).contains(&p[0]) && p[2] == -1));
    assert_eq!(frames.len(), 1 + (17 * 17 - 16) * 8);
    assert_eq!(&frames[1][2..6], &(-7i32).to_le_bytes());
    assert_eq!(&frames[1][10..14], &(-9i32).to_le_bytes());
}

#[test]
fn a_block_of_the_player_goes_into_the_world_and_to_the_server() {
    let mut world = world();
    let mut manager = WorldManager::new(5);
    manager.package_received(&mut world, chunk_frame([0, 0, 0], 0));
    let frames = manager.update_received(&mut world, Update::Block([1, 1, 1], 6));
    assert_eq!(frames.len(), 1);
    assert_eq!(&*frames[0], &[0x0B, 0, 1, 0, 0, 0, 1, 0, 0, 0, 1, 0, 0, 0, 6, 0, 0, 0][..]);
    assert!(world.is_block([1, 1, 1]));
    let frames = manager.update_received(&mut world, Update::Block([1, 1, 1], 0));
    assert_eq!(&*frames[0], &[0x0B, 0, 1, 0, 0, 0, 1, 0, 0, 0, 1, 0, 0, 0, 0, 0, 0, 0][..]);
    assert!(!world.is_block([1, 1, 1]));
    let frames = manager.update_received(&mut world, Update::Block([99, 1, 1], 6));
    assert_eq!(frames.len(), 1);
    assert!(!world.is_block([99, 1, 1]));
    assert!(manager.update_received(&mut world, Update::Exit).is_empty());
    assert_eq!(manager.current_world_center, [i32::MIN, i32::MIN]);
    assert_eq!(world.loaded(), vec![[0, 0, 0]]);
}

#[test]
fn the_camera_may_be_anywhere() {
    let mut manager = WorldManager::new(0);
    let change = manager.camera_moved(&mut world(), [i32::MAX, i32::MIN]).unwrap();
    assert_eq!(change.center, [134217727, -134217728]);
    assert_eq!(change.requested.len(), 2312);
    assert_eq!(change.requested[0], [134217727 - 8, -4, -134217728 - 8]);
}

#[test]
fn the_client_tells_the_server_of_moves_and_blocks() {
    let position = WorldManager::position_package(
        [10.0f64.to_bits(), 64.0f64.to_bits(), (-3.0f64).to_bits()],
        0.5f32.to_bits(),
        1.0f32.to_bits(),
    );
    assert_eq!(position.len(), 34);
    assert_eq!(&position[..2], &[0x0C, 0]);
    assert_eq!(&position[2..10], &10.0f64.to_le_bytes());
    assert_eq!(&position[26..30], &0.5f32.to_le_bytes());
    let block = WorldManager::block_package([1, 1, 1], 0);
    assert_eq!(&*block, &[0x0B, 0, 1, 0, 0, 0, 1, 0, 0, 0, 1, 0, 0, 0, 0, 0, 0, 0][..]);
    let block = WorldManager::block_package([-1, 0, 256], 7);
    assert_eq!(&*block, &[0x0B, 0, 0xFF, 0xFF, 0xFF, 0xFF, 0, 0, 0, 0, 0, 1, 0, 0, 7, 0, 0, 0][..]);
    assert_eq!(Update::Block([1, 2, 3], 4), Update::Block([1, 2, 3], 4));
    assert_ne!(Update::Exit, Update::Pos([0; 3], 0, 0, [0, 0]));
}
