use arm_core::curve::generator_coords;
use arm_core::voting::decoder_pk;
use arm_core::vm_commit::f_slice_to_bytes;

#[test]
fn field_elements_to_little_endian_bytes() {
    assert_eq!(f_slice_to_bytes(&[1, 0x0102_0304]), vec![1, 0, 0, 0, 4, 3, 2, 1]);
    assert!(f_slice_to_bytes(&[]).is_empty());
    let digest = [7u32; 8];
    let bytes = f_slice_to_bytes(&digest);
    assert_eq!(bytes.len(), 32);
    let commit: [u8; 32] = bytes.try_into().unwrap();
    assert_eq!(&commit[..4], &[7, 0, 0, 0]);
}

#[test]
fn generator_affine_coordinates() {
    let (x, y) = generator_coords();
    assert_eq!(x[0], 0x79);
    assert_eq!(x[31], 0x98);
    assert_eq!(y[0], 0x48);
    assert_eq!(y[31], 0xb8);
    let sec1 = decoder_pk().to_sec1();
    assert_eq!(&sec1[1..33], &x[..]);
    assert_eq!(&sec1[33..65], &y[..]);
}
