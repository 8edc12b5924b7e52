use infinirust::server::{DeliveryClass, NOUSER};
use infinirust::server::player::{Player, Players};
use std::sync::Arc;

fn named(name: &str) -> Player {
    Player::new(name.to_string())
}

fn empty() -> Players {
    Players::new(Vec::new()).unwrap()
}

#[test]
fn a_new_player_stands_at_the_origin() {
    let player = named("alice");
    assert_eq!(player.name, "alice");
    assert_eq!(player.pos, [0.0f64.to_bits(); 3]);
    assert_eq!(player.pitch, 0.0f32.to_bits());
    assert_eq!(player.yaw, 0.0f32.to_bits());
    assert_eq!(player.clone(), player);
}

#[test]
fn uids_are_given_in_order_of_first_login() {
    let mut players = empty();
    assert_eq!(players.login("alice".to_string()), Some(0));
    assert_eq!(players.login("bob".to_string()), Some(1));
    assert_eq!(players.login("carol".to_string()), Some(2));
    assert_eq!(players.registered().len(), 3);
    assert_eq!(players.registered()[1].name, "bob");
    assert!(players.is_online(0) && players.is_online(1) && players.is_online(2));
    assert!(!players.is_online(3));
    assert!(!players.is_online(NOUSER));
}

#[test]
fn the_uid_of_a_name_is_stable() {
    let mut players = empty();
    players.login("first".to_string());
    let uid = players.login("x".to_string());
    assert_eq!(uid, Some(1));
    players.logout(1);
    assert!(!players.is_online(1));
    assert_eq!(players.login("other".to_string()), Some(2));
    assert_eq!(players.login("x".to_string()), uid);
    assert_eq!(players.registered().len(), 3);
}

#[test]
fn a_name_is_online_at_most_once() {
    let mut players = empty();
    assert_eq!(players.login("x".to_string()), Some(0));
    players.set_pose(0, [1, 2, 3], 4, 5);
    assert_eq!(players.login("x".to_string()), None);
    assert_eq!(players.registered().len(), 1);
    assert!(players.is_online(0));
    assert_eq!(players.player(0).unwrap().pos, [1, 2, 3]);
    assert_eq!(players.audience(NOUSER), vec![0]);
}

#[test]
fn registered_players_keep_their_uid_and_record() {
    let mut bob = named("bob");
    bob.pos = [7.0f64.to_bits(), 8.0f64.to_bits(), 9.0f64.to_bits()];
    bob.pitch = 0.25f32.to_bits();
    let mut players = Players::new(vec![named("alice"), bob.clone()]).unwrap();
    assert!(!players.is_online(0));
    assert!(!players.is_online(1));
    assert!(players.player(1).is_none());
    assert_eq!(players.login("bob".to_string()), Some(1));
    assert_eq!(players.player(1), Some(&bob));
    assert!(!players.is_online(0));
    assert_eq!(players.login("zed".to_string()), Some(2));
    assert_eq!(players.login("alice".to_string()), Some(0));
}

#[test]
fn no_two_records_bear_the_same_name() {
    let mut second = named("twin");
    second.pitch = 9;
    assert!(Players::new(vec![named("twin"), second]).is_none());
    assert!(Players::new(vec![named("a"), named("b"), named("c"), named("a")]).is_none());
    assert!(Players::new(vec![named("a"), named("b"), named("b")]).is_none());
    assert!(Players::new(vec![named("a"), named("A"), named("b")]).is_some());
    assert!(Players::from_checked(vec![named("a"), named("a")], true).is_none());
}

#[test]
fn every_record_bears_an_alphanumeric_name() {
    assert!(Players::new(vec![named("alice"), named("bad name")]).is_none());
    assert!(Players::new(vec![named("semi;colon")]).is_none());
    assert!(Players::new(vec![named("Zo\u{e9}"), named("\u{4e16}\u{754c}"), named("")]).is_some());
    assert!(Players::from_checked(vec![named("alice")], false).is_none());
    assert!(Players::from_checked(Vec::new(), false).is_none());
    let players = Players::from_checked(vec![named("alice"), named("bob")], true).unwrap();
    assert_eq!(players.registered().len(), 2);
    assert!(!players.is_online(0) && !players.is_online(1));
}

#[test]
fn a_name_that_is_not_alphanumeric_cannot_log_in() {
    let mut players = empty();
    for name in ["bad name", "a-b", "tab\t", "dot.", " ", "\u{1F600}"] {
        assert_eq!(players.login(name.to_string()), None, "{name:?}");
    }
    assert!(players.registered().is_empty());
    assert_eq!(players.audience(NOUSER), Vec::<usize>::new());
    assert_eq!(players.login("Bob42".to_string()), Some(0));
    assert_eq!(players.login("bob 42".to_string()), None);
    assert_eq!(players.registered().len(), 1);
    assert_eq!(players.login("\u{4e16}\u{754c}".to_string()), Some(1));
}

#[test]
fn a_login_is_decided_by_what_is_said_of_the_name() {
    let mut players = empty();
    assert_eq!(players.decide_login("alice".to_string(), false), None);
    assert!(players.registered().is_empty());
    assert_eq!(players.decide_login("alice".to_string(), true), Some(0));
    assert_eq!(players.decide_login("alice".to_string(), true), None);
    assert_eq!(players.decide_login("bob".to_string(), true), Some(1));
    players.logout(0);
    assert_eq!(players.decide_login("alice".to_string(), false), None);
    assert!(!players.is_online(0));
    assert_eq!(players.decide_login("alice".to_string(), true), Some(0));
    assert_eq!(players.registered().len(), 2);
}

#[test]
fn a_name_that_does_not_fit_a_frame_is_refused() {
    let mut players = empty();
    assert_eq!(players.login("a".repeat(65536)), None);
    assert_eq!(players.registered().len(), 0);
    assert_eq!(players.login("a".repeat(65535)), Some(0));
    assert_eq!(players.login("\u{e9}".repeat(32768)), None);
    assert_eq!(players.login("\u{e9}".repeat(32767)), Some(1));
    assert!(Players::new(vec![named("ok"), named(&"b".repeat(65536))]).is_none());
    assert!(Players::new(vec![named(&"b".repeat(65535))]).is_some());
}

#[test]
fn logout_keeps_the_live_record() {
    let mut players = empty();
    players.login("alice".to_string());
    let pos = [17.0f64.to_bits(), 8.0f64.to_bits(), 19.0f64.to_bits()];
    players.set_pose(0, pos, 0.5f32.to_bits(), 1.5f32.to_bits());
    assert_eq!(players.registered()[0].pos, [0, 0, 0]);
    players.logout(0);
    assert_eq!(players.registered()[0].pos, pos);
    assert_eq!(players.registered()[0].pitch, 0.5f32.to_bits());
    assert_eq!(players.registered()[0].yaw, 1.5f32.to_bits());
    assert_eq!(players.registered()[0].name, "alice");
    assert_eq!(players.login("alice".to_string()), Some(0));
    assert_eq!(players.player(0).unwrap().pos, pos);
}

#[test]
fn logout_and_moves_of_somebody_who_is_not_online_do_nothing() {
    let mut players = Players::new(vec![named("alice")]).unwrap();
    players.logout(0);
    players.logout(5);
    players.logout(NOUSER);
    players.set_pose(0, [1, 1, 1], 1, 1);
    players.set_pose(9, [1, 1, 1], 1, 1);
    assert_eq!(players.registered(), &vec![named("alice")]);
    assert!(!players.is_online(0));
    assert_eq!(players.login("alice".to_string()), Some(0));
    assert_eq!(players.player(0), Some(&named("alice")));
}

#[test]
fn sync_copies_live_records_and_leaves_everybody_online() {
    let mut players = Players::new(vec![named("a"), named("b"), named("c")]).unwrap();
    players.login("a".to_string());
    players.login("c".to_string());
    players.set_pose(0, [1, 2, 3], 4, 5);
    players.set_pose(2, [6, 7, 8], 9, 10);
    players.sync_to_disk();
    assert_eq!(players.registered()[0].pos, [1, 2, 3]);
    assert_eq!(players.registered()[0].yaw, 5);
    assert_eq!(players.registered()[1], named("b"));
    assert_eq!(players.registered()[2].pos, [6, 7, 8]);
    assert_eq!(players.registered()[2].pitch, 9);
    assert!(players.is_online(0) && !players.is_online(1) && players.is_online(2));
}

#[test]
fn the_audience_is_everybody_online_but_one() {
    let mut players = empty();
    for name in ["a", "b", "c", "d", "e"] {
        players.login(name.to_string());
    }
    players.logout(1);
    assert_eq!(players.audience(NOUSER), vec![0, 2, 3, 4]);
    assert_eq!(players.audience(0), vec![2, 3, 4]);
    assert_eq!(players.audience(3), vec![0, 2, 4]);
    assert_eq!(players.audience(1), vec![0, 2, 3, 4]);
    assert_eq!(players.audience(77), vec![0, 2, 3, 4]);
    assert_eq!(empty().audience(NOUSER), Vec::<usize>::new());
}

#[test]
fn broadcasts_carry_the_package_to_the_audience() {
    let mut players = empty();
    for name in ["a", "b", "c"] {
        players.login(name.to_string());
    }
    let package: Arc<[u8]> = Arc::from(vec![1u8, 2, 3]);
    let all = players.broadcast(package.clone(), DeliveryClass::Reliable);
    assert_eq!(&*all.package, &[1, 2, 3][..]);
    assert_eq!(all.recipients, vec![0, 1, 2]);
    assert_eq!(all.class, DeliveryClass::Reliable);
    let others = players.broadcast_filtered(package, DeliveryClass::Lossy, 1);
    assert_eq!(&*others.package, &[1, 2, 3][..]);
    assert_eq!(others.recipients, vec![0, 2]);
    assert_eq!(others.class, DeliveryClass::Lossy);
}
