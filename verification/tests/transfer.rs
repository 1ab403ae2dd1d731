use hayro::transfer::TransferFunction;

fn inverting() -> TransferFunction {
    let mut samples = [0u8; 256];
    for (i, s) in samples.iter_mut().enumerate() {
        *s = 255 - i as u8;
    }
    TransferFunction::new(samples)
}

#[test]
fn transfer_function_maps_every_value() {
    let mut values = [0u8, 1, 200, 255];
    inverting().apply_to(&mut values);
    assert_eq!(values, [255, 254, 55, 0]);
}

#[test]
fn transfer_function_with_stride() {
    let mut values = [0u8, 1, 2, 3, 4, 5, 6];
    inverting().apply_to_stride(&mut values, 3);
    assert_eq!(values, [255, 1, 2, 252, 4, 5, 249]);
}

#[test]
fn clone_of_transfer_function_maps_alike() {
    let tf = inverting();
    #[allow(clippy::clone_on_copy)]
    let copy = tf.clone();
    let mut a = [3u8, 77, 128, 3];
    let mut b = a;
    tf.apply_to(&mut a);
    copy.apply_to(&mut b);
    assert_eq!(a, b);
    assert_eq!(a, [252, 178, 127, 252]);
}
