use radiors::codec::centered_component;
use radiors::codec::complex_from_rtlsdr;
use radiors::codec::component_byte;
use radiors::codec::convert_to_complex;
use radiors::codec::convert_to_components;
use radiors::codec::rtlsdr_from_complex;
use radiors::codec::IqSample;
use radiors::codec::SCALE;

#[test]
fn components_of_bytes() {
    assert_eq!(SCALE, 255);
    assert_eq!(centered_component(0), -255);
    assert_eq!(centered_component(255), 255);
    assert_eq!(centered_component(127), -1);
    assert_eq!(centered_component(128), 1);
    assert_eq!(centered_component(1), -253);
}

#[test]
fn component_matches_the_real_formula() {
    for b in 0..=255u8 {
        let exact = f64::from(b) / 127.5 - 1.0;
        let ours = f64::from(centered_component(b)) / f64::from(SCALE);
        assert!((exact - ours).abs() < 1e-12);
        assert!(ours >= -1.0 && ours <= 1.0);
    }
}

#[test]
fn bytes_of_components() {
    for b in 0..=255u8 {
        assert_eq!(component_byte(centered_component(b)), Some(b));
    }
    assert_eq!(component_byte(0), None);
    assert_eq!(component_byte(2), None);
    assert_eq!(component_byte(-254), None);
    assert_eq!(component_byte(257), None);
    assert_eq!(component_byte(-257), None);
    assert_eq!(component_byte(i16::MIN), None);
    assert_eq!(component_byte(i16::MAX), None);
}

#[test]
fn decode_pairs_bytes() {
    let iq = complex_from_rtlsdr(&[0, 255, 127, 128]);
    assert_eq!(iq, vec![IqSample { re: -255, im: 255 }, IqSample { re: -1, im: 1 }]);
}

#[test]
fn decode_halves_the_length() {
    assert_eq!(complex_from_rtlsdr(&[]).len(), 0);
    assert_eq!(complex_from_rtlsdr(&[9, 9]).len(), 1);
    assert_eq!(complex_from_rtlsdr(&[1, 2, 3]).len(), 1);
    assert_eq!(complex_from_rtlsdr(&[7]).len(), 0);
    let window = vec![128u8; 32768];
    assert_eq!(complex_from_rtlsdr(&window).len(), 16384);
}

#[test]
fn decode_then_encode_gives_the_bytes() {
    let mut bytes: Vec<u8> = Vec::new();
    for b in 0..=255u8 {
        bytes.push(b);
        bytes.push(255 - b);
    }
    let iq = complex_from_rtlsdr(&bytes);
    assert_eq!(rtlsdr_from_complex(&iq), Some(bytes));
    assert_eq!(rtlsdr_from_complex(&[]), Some(vec![]));
}

#[test]
fn encode_then_decode_gives_the_samples() {
    let samples = vec![
        IqSample { re: -255, im: 255 },
        IqSample { re: 1, im: -1 },
        IqSample { re: 13, im: -77 },
    ];
    let bytes = rtlsdr_from_complex(&samples).unwrap();
    assert_eq!(bytes, vec![0, 255, 128, 127, 134, 89]);
    assert_eq!(complex_from_rtlsdr(&bytes), samples);
}

#[test]
fn encode_refuses_what_no_byte_stands_for() {
    assert_eq!(rtlsdr_from_complex(&[IqSample { re: 0, im: 1 }]), None);
    assert_eq!(rtlsdr_from_complex(&[IqSample { re: 1, im: 1 }, IqSample { re: 1, im: 257 }]), None);
}

#[test]
fn bias_bytes_are_nearest_to_zero() {
    let iq = complex_from_rtlsdr(&[127, 128, 128, 127]);
    assert_eq!(iq, vec![IqSample { re: -1, im: 1 }, IqSample { re: 1, im: -1 }]);
}

#[test]
fn components_and_pairs() {
    assert_eq!(convert_to_components(&[0, 128, 255]), vec![-255, 1, 255]);
    assert_eq!(
        convert_to_complex(&[1, 2, 3, 4, 5]),
        vec![IqSample { re: 1, im: 2 }, IqSample { re: 3, im: 4 }]
    );
    assert_eq!(convert_to_complex(&[]), vec![]);
}
