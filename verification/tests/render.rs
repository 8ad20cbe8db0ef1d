use raytracer::render::closest_hit;

#[test]
fn the_nearest_hit_wins_whatever_the_order() {
    assert_eq!(closest_hit(&[Some(3), Some(5)]), Some(0));
    assert_eq!(closest_hit(&[Some(5), Some(3)]), Some(1));
}

#[test]
fn of_three_the_middle_one_wins_when_it_is_nearest() {
    assert_eq!(closest_hit(&[Some(6), Some(2), Some(4)]), Some(1));
}

#[test]
fn objects_that_are_missed_are_ignored() {
    assert_eq!(closest_hit(&[None, Some(5)]), Some(1));
    assert_eq!(closest_hit(&[Some(9), None, Some(7), None]), Some(2));
}

#[test]
fn nothing_hit_gives_no_nearest() {
    assert_eq!(closest_hit(&[]), None);
    assert_eq!(closest_hit(&[None, None]), None);
}

#[test]
fn on_a_tie_the_first_object_wins() {
    assert_eq!(closest_hit(&[Some(4), Some(2), Some(2)]), Some(1));
}

#[test]
fn float_distances_order_as_their_bits() {
    let near = 2.5f32.to_bits();
    let far = 4.0f32.to_bits();
    assert_eq!(closest_hit(&[Some(far), Some(near)]), Some(1));
}
