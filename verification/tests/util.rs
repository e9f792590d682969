use pathtracer::math::{random_float, random_in_unit_disk, random_unit_vector, sort_by_indices,
    SCALE};
use pathtracer::utility::{get_readable_duration, u64_to_string};
use pathtracer::vec::{near_zero, Vec3};

#[test]
fn sort_vec_by_indices() {
    let indices = vec![0, 4, 2, 1, 3];
    let mut values = vec!["a", "b", "c", "d", "e"];

    sort_by_indices(&mut values, indices);

    assert_eq!(values, vec!["a", "e", "c", "b", "d"]);
}

#[test]
fn sort_by_indices_identity_and_reverse() {
    let mut values = vec![10, 20, 30];
    sort_by_indices(&mut values, vec![0, 1, 2]);
    assert_eq!(values, vec![10, 20, 30]);
    let mut values = vec![10, 20, 30, 40];
    sort_by_indices(&mut values, vec![3, 2, 1, 0]);
    assert_eq!(values, vec![40, 30, 20, 10]);
}

#[test]
fn duration_formatting() {
    assert_eq!(get_readable_duration(0), "~0 seconds");
    assert_eq!(get_readable_duration(1), "1 second");
    assert_eq!(get_readable_duration(2), "2 seconds");
    assert_eq!(get_readable_duration(60), "1 minute, ~0 seconds");
    assert_eq!(get_readable_duration(61), "1 minute, 1 second");
    assert_eq!(get_readable_duration(3600), "1 hour, ~0 seconds");
    assert_eq!(
        get_readable_duration(90061),
        "1 day, 1 hour, 1 minute, 1 second"
    );
    assert_eq!(
        get_readable_duration(172925),
        "2 days, 2 minutes, 5 seconds"
    );
}

#[test]
fn decimal_rendering() {
    assert_eq!(u64_to_string(0), "0");
    assert_eq!(u64_to_string(7), "7");
    assert_eq!(u64_to_string(42), "42");
    assert_eq!(u64_to_string(1048576), "1048576");
}

#[test]
fn near_zero_threshold() {
    assert!(near_zero(Vec3 { x: 0, y: 0, z: 0 }));
    assert!(near_zero(Vec3 { x: 64, y: -64, z: 64 }));
    assert!(!near_zero(Vec3 { x: 65, y: 0, z: 0 }));
    assert!(!near_zero(Vec3 { x: 0, y: 0, z: SCALE }));
}

#[test]
fn random_samples_stay_in_range() {
    for _ in 0..100 {
        let f = random_float();
        assert!(0 <= f && f < SCALE);
        let u = random_unit_vector();
        assert!(u.x.abs() <= SCALE && u.y.abs() <= SCALE && u.z.abs() <= SCALE);
        let d = random_in_unit_disk();
        assert!(d.x.abs() <= SCALE && d.y.abs() <= SCALE);
        assert_eq!(d.z, 0);
    }
}
