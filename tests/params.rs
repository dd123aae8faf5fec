use synthy::params::{Parameters, PAN_INDEX};

#[test]
fn new_store_is_dirty_with_zero_pan() {
    let p = Parameters::new();
    assert_eq!(f32::from_bits(p.get_pan()), 0.0);
    assert!(p.take_dirty());
}

#[test]
fn take_dirty_twice_yields_true_then_false() {
    let p = Parameters::new();
    p.set_pan(0.25f32.to_bits());
    assert!(p.take_dirty());
    assert!(!p.take_dirty());
}

#[test]
fn last_write_wins() {
    let p = Parameters::new();
    let _ = p.take_dirty();
    p.set_pan(0.2f32.to_bits());
    p.set_pan(0.7f32.to_bits());
    assert!(p.take_dirty());
    assert_eq!(f32::from_bits(p.get_pan()), 0.7);
}

#[test]
fn out_of_range_pan_passes_through() {
    let p = Parameters::new();
    p.set_pan(3.5f32.to_bits());
    assert_eq!(f32::from_bits(p.get_pan()), 3.5);
}

#[test]
fn parameter_index_dispatch() {
    let p = Parameters::new();
    let _ = p.take_dirty();
    p.set_parameter(PAN_INDEX, 0.75f32.to_bits());
    assert!(p.take_dirty());
    assert_eq!(f32::from_bits(p.get_parameter(PAN_INDEX)), 0.75);
    assert_eq!(f32::from_bits(p.get_parameter(1)), 0.0);
    p.set_parameter(1, 0.1f32.to_bits());
    assert!(p.take_dirty());
    assert_eq!(f32::from_bits(p.get_pan()), 0.75);
}

#[test]
fn parameter_names() {
    let p = Parameters::new();
    assert_eq!(p.get_parameter_name(PAN_INDEX), "Amplitude");
    assert_eq!(p.get_parameter_name(3), "");
}
