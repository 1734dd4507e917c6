use pathtracer::scene::distance_key;
use pathtracer::scene::nearest;

fn key(t: f32) -> u32 {
    distance_key(t.to_bits())
}

#[test]
fn nothing_is_hit_in_an_empty_scene() {
    assert_eq!(nearest(&vec![]), None);
}

#[test]
fn nothing_is_hit_when_every_surface_is_missed() {
    assert_eq!(nearest(&vec![None, None, None]), None);
}

#[test]
fn the_only_hit_wins() {
    assert_eq!(nearest(&vec![None, Some(key(4.0)), None]), Some(1));
}

#[test]
fn the_nearer_of_two_wins_in_either_order() {
    let near = Some(key(2.5));
    let far = Some(key(7.0));
    let one = vec![near, far];
    let other = vec![far, near];
    assert_eq!(nearest(&one), Some(0));
    assert_eq!(nearest(&other), Some(1));
    assert_eq!(one[nearest(&one).unwrap()], other[nearest(&other).unwrap()]);
    assert_eq!(one[nearest(&one).unwrap()], near);
}

#[test]
fn the_first_of_equally_near_hits_wins() {
    let keys = vec![Some(key(9.0)), Some(key(3.0)), None, Some(key(3.0)), Some(key(5.0))];
    assert_eq!(nearest(&keys), Some(1));
}

#[test]
fn the_nearest_of_many_wins() {
    let keys = vec![Some(30), None, Some(20), Some(10), Some(40), Some(10)];
    assert_eq!(nearest(&keys), Some(3));
    let keys = vec![Some(0), Some(u32::MAX)];
    assert_eq!(nearest(&keys), Some(0));
    let keys = vec![Some(u32::MAX), Some(0)];
    assert_eq!(nearest(&keys), Some(1));
}

#[test]
fn distance_key_by_the_bits() {
    assert_eq!(distance_key(0), 0x8000_0000);
    assert_eq!(distance_key(0x3f80_0000), 0xbf80_0000);
    assert_eq!(distance_key(0x7fff_ffff), 0xffff_ffff);
    assert_eq!(distance_key(0x8000_0000), 0x7fff_ffff);
    assert_eq!(distance_key(0xbf80_0000), 0x407f_ffff);
    assert_eq!(distance_key(0xffff_ffff), 0);
}

#[test]
fn distance_key_orders_as_the_numbers_do() {
    let values: [f32; 13] = [
        f32::NEG_INFINITY,
        -1.0e30,
        -2.0,
        -1.0,
        -1.0e-30,
        0.0,
        1.0e-40,
        1.0e-30,
        0.001,
        1.0,
        1.5,
        500.0,
        f32::INFINITY,
    ];
    for i in 0..values.len() {
        for j in 0..values.len() {
            assert_eq!(key(values[i]) < key(values[j]), values[i] < values[j]);
            assert_eq!(key(values[i]) == key(values[j]), i == j);
        }
    }
}
