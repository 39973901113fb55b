// The real readings' signed hinge angles, in degrees: Laptop ones form a
// range that every Tablet one lies outside of.
#[test]
fn laptop_and_tablet_readings_separate_cleanly() {
    let laptop_angles = [
        37.9394, 91.6352, 65.2539, 30.8190, 45.7979, 25.3021, 26.1337, 32.4389, 47.5534,
        49.4841, 35.8747, 29.4976, 24.8350, 32.1177,
    ];
    let tablet_angles = [-87.3549, 130.5630, -142.4170, -162.9189];

    let laptop_min = laptop_angles.iter().cloned().fold(f64::INFINITY, f64::min);
    let laptop_max = laptop_angles
        .iter()
        .cloned()
        .fold(f64::NEG_INFINITY, f64::max);

    for &a in &tablet_angles {
        assert!(
            a < laptop_min || a > laptop_max,
            "tablet angle {a} should fall outside the laptop range [{laptop_min}, {laptop_max}]"
        );
    }
}
