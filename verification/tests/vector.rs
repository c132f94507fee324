use bronotdsaurs::vector::{f16_to_f32_bits, VectorSpan, FULL_PRECISION_FLOAT};
use bronotdsaurs::error::DecodeError;

/// Renders a vector as its elements in brackets, the way its display does.
fn render(v: &VectorSpan) -> String {
    let mut out = String::from("[");
    for i in 0..v.count() as usize {
        if i != 0 {
            out.push_str(", ");
        }
        let x = f32::from_bits(v.element_bits(i));
        out.push_str(&format!("{x}"));
    }
    out.push(']');
    out
}

#[test]
fn f16() {
    assert_eq!(f32::from_bits(f16_to_f32_bits(0x3c00)), 1.0);
    assert_eq!(f32::from_bits(f16_to_f32_bits(0xc000)), -2.0);
    assert_eq!(f32::from_bits(f16_to_f32_bits(0x0000)), 0.0);
}

#[test]
fn display_full_precision() {
    let mut bytes = vec![0xa9, 0x01, 0x02, 0x00, 0x01, 0x00, 0x00, 0x00];
    bytes.extend_from_slice(&1.5f32.to_le_bytes());
    bytes.extend_from_slice(&(-2.0f32).to_le_bytes());
    let v = VectorSpan::new(&bytes).unwrap();
    assert_eq!(render(&v), "[1.5, -2]");
}

#[test]
fn half_precision_vector_widens_each_element() {
    let bytes = vec![0xa9, 0x01, 0x03, 0x00, 0x00, 0x00, 0x00, 0x00, 0x00, 0x3c, 0x00, 0xc0, 0x00, 0x35];
    let v = VectorSpan::new(&bytes).unwrap();
    assert_eq!(v.count(), 3);
    assert_eq!(v.ty(), 0);
    assert_eq!(v.payload(), &bytes[8..14]);
    assert_eq!(render(&v), "[1, -2, 0.3125]");
}

#[test]
fn f16_special_values() {
    // smallest subnormal: 2^-24
    assert_eq!(f32::from_bits(f16_to_f32_bits(0x0001)), 2f32.powi(-24));
    // largest subnormal
    assert_eq!(f32::from_bits(f16_to_f32_bits(0x03ff)), 1023.0 * 2f32.powi(-24));
    assert_eq!(f16_to_f32_bits(0x7c00), 0x7f80_0000);
    assert_eq!(f16_to_f32_bits(0xfc00), 0xff80_0000);
    assert!(f32::from_bits(f16_to_f32_bits(0x7e00)).is_nan());
    assert_eq!(f16_to_f32_bits(0x8000), 0x8000_0000);
    assert_eq!(f32::from_bits(f16_to_f32_bits(0x7bff)), 65504.0);
}

#[test]
fn vector_payload_has_count_times_element_size() {
    let mut bytes = vec![0xa9, 0x01, 0x02, 0x00, FULL_PRECISION_FLOAT, 0, 0, 0];
    bytes.extend_from_slice(&[0u8; 8]);
    bytes.extend_from_slice(&[9, 9, 9]);
    let v = VectorSpan::new(&bytes).unwrap();
    assert_eq!(v.payload().len(), 8);
}

#[test]
fn vector_errors() {
    assert!(matches!(VectorSpan::new(&[0xa9, 0x01, 0, 0]), Err(DecodeError::InvalidLength(_))));
    assert!(matches!(
        VectorSpan::new(&[0xa8, 0x01, 0, 0, 0, 0, 0, 0]),
        Err(DecodeError::InvalidData(_))
    ));
    assert!(matches!(
        VectorSpan::new(&[0xa9, 0x02, 0, 0, 0, 0, 0, 0]),
        Err(DecodeError::InvalidData(_))
    ));
    assert!(matches!(
        VectorSpan::new(&[0xa9, 0x01, 0, 0, 2, 0, 0, 0]),
        Err(DecodeError::InvalidField(_))
    ));
    // 2000 single-precision elements need 8008 bytes in all: over the limit
    let mut big = vec![0xa9, 0x01, 0xd0, 0x07, 0x01, 0, 0, 0];
    big.extend_from_slice(&vec![0u8; 8000]);
    assert!(matches!(VectorSpan::new(&big), Err(DecodeError::InvalidLength(_))));
    // 1998 elements fit exactly
    let mut fits = vec![0xa9, 0x01, 0xce, 0x07, 0x01, 0, 0, 0];
    fits.extend_from_slice(&vec![0u8; 7992]);
    assert_eq!(VectorSpan::new(&fits).unwrap().payload().len(), 7992);
    // payload shorter than announced
    assert!(matches!(
        VectorSpan::new(&[0xa9, 0x01, 1, 0, 1, 0, 0, 0, 1, 2, 3]),
        Err(DecodeError::InvalidLength(_))
    ));
    // zero elements
    let empty = VectorSpan::new(&[0xa9, 0x01, 0, 0, 0, 0, 0, 0]).unwrap();
    assert_eq!(empty.count(), 0);
    assert_eq!(render(&empty), "[]");
}
