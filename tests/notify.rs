use bevy_notify::dispatch::{resolve, Notice, Subscriber};
use bevy_notify::hub::Hub;
use bevy_notify::registry::{LifecycleError, Registry, Step};
use bevy_notify::relation::{RelationError, Relations};
use bevy_notify::window::{resolve_batch, ChangeSet};

const PURSE_REMOVED: u64 = 40;
const HEALTH_ADDED: u64 = 10;
const HEALTH_CHANGED: u64 = 11;
const HEALTH_REMOVED: u64 = 12;

fn notice(observer: u64, subject: u64) -> Notice {
    Notice { observer, subject }
}

fn count(notices: &[Notice], n: Notice) -> usize {
    notices.iter().filter(|x| **x == n).count()
}

#[test]
fn check_for_removal() {
    let player: u64 = 1;
    let mut hub = Hub::new();
    hub.set_watching_self(player, true);
    assert_eq!(hub.subscribe(PURSE_REMOVED, player), Step::Install);
    assert_eq!(hub.bind(PURSE_REMOVED, 900), Ok(()));

    // Nothing was removed yet.
    let mut has_purse = true;
    assert!(has_purse);

    for n in hub.on_removed(PURSE_REMOVED, player) {
        if n.observer == player {
            has_purse = false;
        }
    }
    assert!(!has_purse);

    // Remove the reactivity, then the purse.
    has_purse = true;
    assert_eq!(hub.unsubscribe(PURSE_REMOVED, player), Step::Teardown(Some(900)));
    for n in hub.on_removed(PURSE_REMOVED, player) {
        if n.observer == player {
            has_purse = false;
        }
    }
    assert!(has_purse);
}

#[test]
fn doctor_and_player_both_told_of_one_mutation() {
    let p: u64 = 1;
    let d: u64 = 2;
    let mut hub = Hub::new();
    hub.set_watching_self(p, true);
    assert_eq!(hub.subscribe(HEALTH_CHANGED, p), Step::Install);
    assert_eq!(hub.set_target(d, p), Ok(()));
    assert_eq!(hub.subscribe(HEALTH_CHANGED, d), Step::Keep);

    let mut window = ChangeSet::new();
    window.record(p);
    let out = hub.on_mutated(HEALTH_CHANGED, &window);
    assert_eq!(out, vec![notice(p, p), notice(d, p)]);
}

#[test]
fn doctor_unsubscribed_hears_nothing() {
    let p: u64 = 1;
    let d: u64 = 2;
    let mut hub = Hub::new();
    hub.set_watching_self(p, true);
    hub.subscribe(HEALTH_CHANGED, p);
    hub.set_target(d, p).unwrap();
    hub.subscribe(HEALTH_CHANGED, d);

    assert_eq!(hub.unsubscribe(HEALTH_CHANGED, d), Step::Keep);
    let mut window = ChangeSet::new();
    window.record(p);
    let out = hub.on_mutated(HEALTH_CHANGED, &window);
    assert_eq!(out, vec![notice(p, p)]);
    assert_eq!(count(&out, notice(d, p)), 0);
}

#[test]
fn repeated_writes_in_one_tick_notify_once() {
    let m: u64 = 5;
    let mut hub = Hub::new();
    hub.set_watching_self(m, true);
    hub.subscribe(HEALTH_CHANGED, m);
    let window = ChangeSet::from_writes(&vec![m, m, m, m]);
    assert_eq!(window.len(), 1);
    let out = hub.on_mutated(HEALTH_CHANGED, &window);
    assert_eq!(out, vec![notice(m, m)]);

    // The next tick starts empty.
    let mut window = window;
    window.clear();
    assert!(hub.on_mutated(HEALTH_CHANGED, &window).is_empty());
}

#[test]
fn window_keeps_first_writes_in_order() {
    let window = ChangeSet::from_writes(&vec![3, 1, 3, 2, 1]);
    assert_eq!(window.subjects(), vec![3, 1, 2]);
    assert!(window.contains(2));
    assert!(!window.contains(4));
}

#[test]
fn related_subscriber_told_only_of_its_target() {
    let m: u64 = 7;
    let t: u64 = 8;
    let other: u64 = 9;
    let mut hub = Hub::new();
    hub.set_target(m, t).unwrap();
    hub.subscribe(HEALTH_ADDED, m);
    assert_eq!(hub.on_added(HEALTH_ADDED, t), vec![notice(m, t)]);
    assert!(hub.on_added(HEALTH_ADDED, other).is_empty());
    assert!(hub.on_added(HEALTH_ADDED, m).is_empty());
}

#[test]
fn global_subscriber_told_of_every_channel() {
    let g: u64 = 20;
    let mut hub = Hub::new();
    hub.subscribe(HEALTH_ADDED, g);
    hub.subscribe(HEALTH_CHANGED, g);
    hub.subscribe(HEALTH_REMOVED, g);
    for e in [1u64, 2, 20, 300] {
        assert_eq!(hub.on_added(HEALTH_ADDED, e), vec![notice(g, e)]);
        assert_eq!(hub.on_removed(HEALTH_REMOVED, e), vec![notice(g, e)]);
    }
    let window = ChangeSet::from_writes(&vec![4, 6, 4]);
    assert_eq!(hub.on_mutated(HEALTH_CHANGED, &window), vec![notice(g, 4), notice(g, 6)]);
}

#[test]
fn last_unsubscribe_tears_down_and_silences() {
    let a: u64 = 1;
    let b: u64 = 2;
    let mut hub = Hub::new();
    assert_eq!(hub.subscribe(HEALTH_REMOVED, a), Step::Install);
    assert_eq!(hub.bind(HEALTH_REMOVED, 77), Ok(()));
    assert_eq!(hub.subscribe(HEALTH_REMOVED, b), Step::Keep);
    assert_eq!(hub.unsubscribe(HEALTH_REMOVED, a), Step::Keep);
    assert!(hub.is_installed(HEALTH_REMOVED));
    assert_eq!(hub.unsubscribe(HEALTH_REMOVED, b), Step::Teardown(Some(77)));
    assert!(!hub.is_installed(HEALTH_REMOVED));
    assert!(hub.on_removed(HEALTH_REMOVED, a).is_empty());
    assert!(hub.on_removed(HEALTH_REMOVED, b).is_empty());
    let window = ChangeSet::from_writes(&vec![a, b]);
    assert!(hub.on_mutated(HEALTH_REMOVED, &window).is_empty());

    // A new subscriber installs a fresh detector.
    assert_eq!(hub.subscribe(HEALTH_REMOVED, b), Step::Install);
    assert_eq!(hub.on_removed(HEALTH_REMOVED, a), vec![notice(b, a)]);
}

#[test]
fn second_subscriber_keeps_single_detector() {
    let mut reg = Registry::new();
    assert_eq!(reg.subscribe(HEALTH_ADDED, 1), Step::Install);
    assert_eq!(reg.bind(HEALTH_ADDED, 500), Ok(()));
    assert_eq!(reg.subscribe(HEALTH_ADDED, 2), Step::Keep);
    assert_eq!(reg.subscribe(HEALTH_ADDED, 2), Step::Keep);
    assert_eq!(reg.carriers(HEALTH_ADDED), vec![1, 2]);
    assert_eq!(reg.bind(HEALTH_ADDED, 501), Err(LifecycleError::AlreadyBound));
    // Markers of other types have their own records.
    assert_eq!(reg.subscribe(HEALTH_REMOVED, 1), Step::Install);
}

#[test]
fn unsubscribing_a_non_carrier_changes_nothing() {
    let mut reg = Registry::new();
    reg.subscribe(HEALTH_ADDED, 1);
    assert_eq!(reg.unsubscribe(HEALTH_ADDED, 3), Step::Keep);
    assert_eq!(reg.carriers(HEALTH_ADDED), vec![1]);
    assert_eq!(reg.unsubscribe(HEALTH_CHANGED, 1), Step::Keep);
    assert!(reg.is_installed(HEALTH_ADDED));
}

#[test]
fn bind_without_record_fails() {
    let mut reg = Registry::new();
    assert_eq!(reg.bind(HEALTH_ADDED, 1), Err(LifecycleError::NotInstalled));
    reg.subscribe(HEALTH_ADDED, 4);
    assert_eq!(reg.unsubscribe(HEALTH_ADDED, 4), Step::Teardown(None));
    assert_eq!(reg.bind(HEALTH_ADDED, 1), Err(LifecycleError::NotInstalled));
}

#[test]
fn edge_to_self_is_refused() {
    let mut rel = Relations::new();
    assert_eq!(rel.set_target(3, 3), Err(RelationError::SelfTarget));
    assert_eq!(rel.target_of(3), None);
}

#[test]
fn replacing_an_edge_moves_the_back_index() {
    let mut rel = Relations::new();
    rel.set_target(1, 10).unwrap();
    rel.set_target(2, 10).unwrap();
    let mut of_ten = rel.monitors_of(10);
    of_ten.sort();
    assert_eq!(of_ten, vec![1, 2]);

    rel.set_target(1, 11).unwrap();
    assert_eq!(rel.target_of(1), Some(11));
    assert_eq!(rel.monitors_of(10), vec![2]);
    assert_eq!(rel.monitors_of(11), vec![1]);

    rel.clear_target(2);
    assert_eq!(rel.target_of(2), None);
    assert!(rel.monitors_of(10).is_empty());
}

#[test]
fn self_watch_flag_is_orthogonal_to_edge() {
    let m: u64 = 1;
    let t: u64 = 2;
    let mut hub = Hub::new();
    hub.set_watching_self(m, true);
    hub.set_target(m, t).unwrap();
    hub.subscribe(HEALTH_CHANGED, m);
    assert!(hub.watches_self(m));
    assert_eq!(hub.target_of(m), Some(t));
    let window = ChangeSet::from_writes(&vec![t, m, 3]);
    assert_eq!(hub.on_mutated(HEALTH_CHANGED, &window), vec![notice(m, t), notice(m, m)]);

    hub.set_watching_self(m, false);
    assert!(!hub.watches_self(m));
    assert_eq!(hub.on_mutated(HEALTH_CHANGED, &window), vec![notice(m, t)]);
}

#[test]
fn tiers_are_additive() {
    // A subscriber given a self-watch flag and an edge to itself gets both
    // the self-tier and the related-tier notice.
    let subs = vec![Subscriber { entity: 5, watches_self: true, target: Some(5) }];
    assert_eq!(resolve(5, &subs), vec![notice(5, 5), notice(5, 5)]);
}

#[test]
fn resolve_orders_by_subscriber() {
    let subs = vec![
        Subscriber { entity: 1, watches_self: false, target: None },
        Subscriber { entity: 2, watches_self: true, target: None },
        Subscriber { entity: 3, watches_self: false, target: Some(2) },
        Subscriber { entity: 4, watches_self: false, target: Some(9) },
    ];
    assert_eq!(resolve(2, &subs), vec![notice(1, 2), notice(2, 2), notice(3, 2)]);
    assert_eq!(resolve(9, &subs), vec![notice(1, 9), notice(4, 9)]);
    let window = ChangeSet::from_writes(&vec![9, 2]);
    assert_eq!(
        resolve_batch(&window, &subs),
        vec![notice(1, 9), notice(4, 9), notice(1, 2), notice(2, 2), notice(3, 2)]
    );
    assert!(resolve(2, &vec![]).is_empty());
}

#[test]
fn subscribers_snapshot_reflects_relations() {
    let mut hub = Hub::new();
    hub.set_watching_self(1, true);
    hub.set_target(2, 1).unwrap();
    hub.subscribe(HEALTH_ADDED, 1);
    hub.subscribe(HEALTH_ADDED, 2);
    hub.subscribe(HEALTH_ADDED, 3);
    assert_eq!(hub.carriers(HEALTH_ADDED), vec![1, 2, 3]);
    assert_eq!(
        hub.subscribers(HEALTH_ADDED),
        vec![
            Subscriber { entity: 1, watches_self: true, target: None },
            Subscriber { entity: 2, watches_self: false, target: Some(1) },
            Subscriber { entity: 3, watches_self: false, target: None },
        ]
    );
    assert_eq!(hub.monitors_of(1), vec![2]);
    hub.clear_target(2);
    assert!(hub.monitors_of(1).is_empty());
    assert_eq!(hub.on_added(HEALTH_ADDED, 1), vec![notice(1, 1), notice(2, 1), notice(3, 1)]);
}
