use bun_core::gravity::{gravity_control, gravity_scale, AIRBORNE_GRAVITY_SCALE};
use bun_core::grounding::{
    check_collided_grounds, is_ground, ray_hit_grounds, CollidedGrounds, CollisionEvent,
    GroundedBody,
};

#[test]
fn start_then_stop_with_ground() {
    let grounds = vec![100u64];
    let mut c = CollidedGrounds::new();
    assert!(!c.is_grounded());
    c.apply_event(1, &grounds, CollisionEvent::Started(1, 100));
    assert_eq!(c.to_vec(), vec![100]);
    assert!(c.is_grounded());
    c.apply_event(1, &grounds, CollisionEvent::Stopped(1, 100));
    assert_eq!(c.to_vec(), Vec::<u64>::new());
    assert!(!c.is_grounded());
}

#[test]
fn stop_without_start_is_noop() {
    let grounds = vec![100u64, 200];
    let mut c = CollidedGrounds::new();
    c.apply_event(1, &grounds, CollisionEvent::Started(1, 100));
    c.apply_event(1, &grounds, CollisionEvent::Stopped(1, 200));
    assert_eq!(c.to_vec(), vec![100]);
    c.remove(7);
    assert_eq!(c.to_vec(), vec![100]);
}

#[test]
fn repeated_start_is_recorded_once() {
    let mut c = CollidedGrounds::new();
    c.insert(5);
    c.insert(5);
    assert_eq!(c.len(), 1);
    assert!(c.contains(5));
}

#[test]
fn start_in_either_order_counts() {
    let grounds = vec![100u64];
    let mut c = CollidedGrounds::new();
    c.apply_event(1, &grounds, CollisionEvent::Started(100, 1));
    assert_eq!(c.to_vec(), vec![100]);
    c.apply_event(1, &grounds, CollisionEvent::Stopped(100, 1));
    assert!(!c.is_grounded());
}

#[test]
fn non_ground_and_other_bodies_are_ignored() {
    let grounds = vec![100u64];
    let mut c = CollidedGrounds::new();
    c.apply_event(1, &grounds, CollisionEvent::Started(1, 55));
    c.apply_event(1, &grounds, CollisionEvent::Started(2, 100));
    assert!(!c.is_grounded());
}

#[test]
fn two_grounds_keep_body_grounded_until_both_stop() {
    let grounds = vec![100u64, 200];
    let mut bodies = vec![
        GroundedBody { entity: 1, contacts: CollidedGrounds::new() },
        GroundedBody { entity: 2, contacts: CollidedGrounds::new() },
    ];
    let events = vec![
        CollisionEvent::Started(1, 100),
        CollisionEvent::Started(1, 200),
        CollisionEvent::Started(2, 200),
        CollisionEvent::Stopped(1, 100),
    ];
    check_collided_grounds(&grounds, &mut bodies, &events);
    assert_eq!(bodies[0].entity, 1);
    assert_eq!(bodies[0].contacts.to_vec(), vec![200]);
    assert_eq!(bodies[1].contacts.to_vec(), vec![200]);
    let scales = gravity_control(&bodies);
    assert_eq!(scales, vec![0, 0]);

    check_collided_grounds(&grounds, &mut bodies, &vec![CollisionEvent::Stopped(1, 200)]);
    assert!(!bodies[0].contacts.is_grounded());
    assert_eq!(gravity_control(&bodies), vec![30, 0]);
}

#[test]
fn gravity_scale_follows_grounding() {
    let mut c = CollidedGrounds::new();
    assert_eq!(gravity_scale(&c), 30);
    assert_eq!(AIRBORNE_GRAVITY_SCALE, 30);
    c.insert(3);
    assert_eq!(gravity_scale(&c), 0);
    c.remove(3);
    assert_eq!(gravity_scale(&c), 30);
}

#[test]
fn ray_hit_grounding() {
    let grounds = vec![100u64, 200];
    assert!(ray_hit_grounds(Some(200), &grounds));
    assert!(!ray_hit_grounds(Some(3), &grounds));
    assert!(!ray_hit_grounds(None, &grounds));
    assert!(is_ground(&grounds, 100));
    assert!(!is_ground(&grounds, 101));
}

#[test]
fn stop_moves_last_contact_into_the_gap() {
    let grounds = vec![100u64, 200, 300];
    let mut c = CollidedGrounds::new();
    for g in [100u64, 200, 300] {
        c.apply_event(1, &grounds, CollisionEvent::Started(1, g));
    }
    assert_eq!(c.to_vec(), vec![100, 200, 300]);
    c.apply_event(1, &grounds, CollisionEvent::Stopped(1, 100));
    assert_eq!(c.to_vec(), vec![300, 200]);
}

#[test]
fn repeated_start_keeps_order() {
    let grounds = vec![100u64, 200];
    let mut c = CollidedGrounds::new();
    c.apply_event(1, &grounds, CollisionEvent::Started(1, 100));
    c.apply_event(1, &grounds, CollisionEvent::Started(1, 200));
    c.apply_event(1, &grounds, CollisionEvent::Started(1, 100));
    assert_eq!(c.to_vec(), vec![100, 200]);
}

#[test]
fn untouched_body_keeps_contacts() {
    let grounds = vec![100u64, 200];
    let mut bodies = vec![
        GroundedBody { entity: 1, contacts: CollidedGrounds::new() },
        GroundedBody { entity: 2, contacts: CollidedGrounds::new() },
    ];
    check_collided_grounds(
        &grounds,
        &mut bodies,
        &vec![CollisionEvent::Started(2, 200), CollisionEvent::Started(2, 100)],
    );
    check_collided_grounds(
        &grounds,
        &mut bodies,
        &vec![CollisionEvent::Started(1, 100), CollisionEvent::Stopped(2, 7)],
    );
    assert_eq!(bodies[0].contacts.to_vec(), vec![100]);
    assert_eq!(bodies[1].contacts.to_vec(), vec![200, 100]);
}
