use string_ops::dispatch::ExecutionPath;
use string_ops::scan::{scan_scalar, scan_vector, scan_with, ScanOutcome};
use string_ops::utf8::{classify, step, ByteClass, ScanState};
use string_ops::{utf8_char_count, utf8_validate, StringOpsError};

const INVALID: Result<(), StringOpsError> = Err(StringOpsError::InvalidUtf8);

#[test]
fn validate_accepts_every_single_ascii_byte() {
    for b in 0..=0x7fu8 {
        assert_eq!(utf8_validate(&[b]), Ok(()));
        assert_eq!(utf8_char_count(&[b]), 1);
    }
}

#[test]
fn validate_accepts_multi_byte_text() {
    assert_eq!(utf8_validate("café".as_bytes()), Ok(()));
    assert_eq!(utf8_validate("Hello 世界".as_bytes()), Ok(()));
    assert_eq!(utf8_validate(&[0x63, 0x61, 0x66, 0xc3, 0xa9]), Ok(()));
    assert_eq!(utf8_validate("\u{80}\u{7ff}\u{800}\u{ffff}".as_bytes()), Ok(()));
    assert_eq!(utf8_validate("\u{d7ff}\u{e000}".as_bytes()), Ok(()));
    assert_eq!(utf8_validate("\u{10000}\u{10ffff}".as_bytes()), Ok(()));
}

#[test]
fn validate_rejects_truncated_sequences() {
    assert_eq!(utf8_validate(&[0xc3]), INVALID);
    assert_eq!(utf8_validate(&[0x41, 0xc3]), INVALID);
    assert_eq!(utf8_validate(&[0xe4, 0xb8]), INVALID);
    assert_eq!(utf8_validate(&[0xf0, 0x9f, 0x98]), INVALID);
    assert_eq!(utf8_validate(&[0xc3, 0x41]), INVALID);
    assert_eq!(utf8_validate(&[0xe4, 0xb8, 0x41]), INVALID);
}

#[test]
fn validate_rejects_lone_continuation_bytes() {
    assert_eq!(utf8_validate(&[0x80]), INVALID);
    assert_eq!(utf8_validate(&[0xbf]), INVALID);
    assert_eq!(utf8_validate(&[0x41, 0x80, 0x42]), INVALID);
    assert_eq!(utf8_validate(&[0xc3, 0xa9, 0xa9]), INVALID);
}

#[test]
fn validate_rejects_overlong_encodings() {
    assert_eq!(utf8_validate(&[0xc0, 0x80]), INVALID);
    assert_eq!(utf8_validate(&[0xc1, 0xbf]), INVALID);
    assert_eq!(utf8_validate(&[0xe0, 0x80, 0x80]), INVALID);
    assert_eq!(utf8_validate(&[0xe0, 0x9f, 0xbf]), INVALID);
    assert_eq!(utf8_validate(&[0xf0, 0x80, 0x80, 0x80]), INVALID);
    assert_eq!(utf8_validate(&[0xf0, 0x8f, 0xbf, 0xbf]), INVALID);
    assert_eq!(utf8_validate(&[0xc2, 0x80]), Ok(()));
    assert_eq!(utf8_validate(&[0xe0, 0xa0, 0x80]), Ok(()));
    assert_eq!(utf8_validate(&[0xf0, 0x90, 0x80, 0x80]), Ok(()));
}

#[test]
fn validate_rejects_surrogates_and_code_points_beyond_the_last() {
    assert_eq!(utf8_validate(&[0xed, 0xa0, 0x80]), INVALID);
    assert_eq!(utf8_validate(&[0xed, 0xbf, 0xbf]), INVALID);
    assert_eq!(utf8_validate(&[0xed, 0x9f, 0xbf]), Ok(()));
    assert_eq!(utf8_validate(&[0xee, 0x80, 0x80]), Ok(()));
    assert_eq!(utf8_validate(&[0xf4, 0x90, 0x80, 0x80]), INVALID);
    assert_eq!(utf8_validate(&[0xf4, 0x8f, 0xbf, 0xbf]), Ok(()));
    assert_eq!(utf8_validate(&[0xf5, 0x80, 0x80, 0x80]), INVALID);
    assert_eq!(utf8_validate(&[0xf8, 0x88, 0x80, 0x80, 0x80]), INVALID);
    assert_eq!(utf8_validate(&[0xfe]), INVALID);
    assert_eq!(utf8_validate(&[0xff]), INVALID);
}

#[test]
fn char_count_counts_sequences_not_bytes() {
    assert_eq!(utf8_char_count("Hello".as_bytes()), 5);
    assert_eq!(utf8_char_count("café".as_bytes()), 4);
    assert_eq!(utf8_char_count("世界".as_bytes()), 2);
    assert_eq!(utf8_char_count("".as_bytes()), 0);
    assert_eq!(utf8_char_count(&[0xe4, 0xb8, 0x96, 0xe7, 0x95, 0x8c]), 2);
    assert_eq!(utf8_char_count("a\u{e9}\u{4e16}\u{1f600}".as_bytes()), 4);
}

#[test]
fn char_count_stops_before_the_first_malformed_sequence() {
    assert_eq!(utf8_char_count(&[0x41, 0x42, 0xc3]), 2);
    assert_eq!(utf8_char_count(&[0x41, 0xff, 0x42, 0x43]), 1);
    assert_eq!(utf8_char_count(&[0x80, 0x41]), 0);
    assert_eq!(utf8_char_count(&[0xc3, 0xa9, 0xe4, 0xb8, 0x41, 0x42]), 1);
    assert_eq!(utf8_char_count(&[0xed, 0xa0, 0x80, 0x41]), 0);
    let mut long = vec![b'x'; 40];
    long[35] = 0xc0;
    assert_eq!(utf8_char_count(&long), 35);
    assert_eq!(utf8_validate(&long), INVALID);
}

#[test]
fn classify_reads_the_high_bits() {
    assert_eq!(classify(0x00), ByteClass::Ascii);
    assert_eq!(classify(0x7f), ByteClass::Ascii);
    assert_eq!(classify(0x80), ByteClass::Continuation);
    assert_eq!(classify(0xbf), ByteClass::Continuation);
    assert_eq!(classify(0xc0), ByteClass::Lead2);
    assert_eq!(classify(0xdf), ByteClass::Lead2);
    assert_eq!(classify(0xe0), ByteClass::Lead3);
    assert_eq!(classify(0xef), ByteClass::Lead3);
    assert_eq!(classify(0xf0), ByteClass::Lead4);
    assert_eq!(classify(0xf7), ByteClass::Lead4);
    assert_eq!(classify(0xf8), ByteClass::Illegal);
    assert_eq!(classify(0xff), ByteClass::Illegal);
}

#[test]
fn step_from_a_boundary_follows_the_lead_byte() {
    let lead = ScanState::ExpectLead;
    assert_eq!(step(lead, 0x41), ScanState::ExpectLead);
    assert_eq!(step(lead, 0x80), ScanState::Invalid);
    assert_eq!(step(lead, 0xc0), ScanState::Invalid);
    assert_eq!(step(lead, 0xc1), ScanState::Invalid);
    assert_eq!(
        step(lead, 0xc2),
        ScanState::ExpectCont { remaining: 1, low: 0x80, high: 0xbf }
    );
    assert_eq!(
        step(lead, 0xe0),
        ScanState::ExpectCont { remaining: 2, low: 0xa0, high: 0xbf }
    );
    assert_eq!(
        step(lead, 0xe1),
        ScanState::ExpectCont { remaining: 2, low: 0x80, high: 0xbf }
    );
    assert_eq!(
        step(lead, 0xed),
        ScanState::ExpectCont { remaining: 2, low: 0x80, high: 0x9f }
    );
    assert_eq!(
        step(lead, 0xf0),
        ScanState::ExpectCont { remaining: 3, low: 0x90, high: 0xbf }
    );
    assert_eq!(
        step(lead, 0xf4),
        ScanState::ExpectCont { remaining: 3, low: 0x80, high: 0x8f }
    );
    assert_eq!(step(lead, 0xf5), ScanState::Invalid);
    assert_eq!(step(lead, 0xff), ScanState::Invalid);
}

#[test]
fn step_inside_a_sequence_checks_the_range() {
    let first_of_three = ScanState::ExpectCont { remaining: 2, low: 0xa0, high: 0xbf };
    assert_eq!(step(first_of_three, 0x9f), ScanState::Invalid);
    assert_eq!(
        step(first_of_three, 0xa0),
        ScanState::ExpectCont { remaining: 1, low: 0x80, high: 0xbf }
    );
    let last = ScanState::ExpectCont { remaining: 1, low: 0x80, high: 0xbf };
    assert_eq!(step(last, 0x80), ScanState::ExpectLead);
    assert_eq!(step(last, 0xbf), ScanState::ExpectLead);
    assert_eq!(step(last, 0x7f), ScanState::Invalid);
    assert_eq!(step(last, 0xc0), ScanState::Invalid);
    assert_eq!(step(ScanState::Invalid, 0x41), ScanState::Invalid);
}

#[test]
fn scan_reports_the_final_state_and_the_count() {
    assert_eq!(
        scan_scalar(b"abc"),
        ScanOutcome { state: ScanState::ExpectLead, count: 3 }
    );
    assert_eq!(
        scan_scalar(&[0x61, 0xe4, 0xb8]),
        ScanOutcome {
            state: ScanState::ExpectCont { remaining: 1, low: 0x80, high: 0xbf },
            count: 1
        }
    );
    assert_eq!(
        scan_scalar(&[0x61, 0x62, 0x80, 0x63]),
        ScanOutcome { state: ScanState::Invalid, count: 2 }
    );
    assert_eq!(
        scan_vector(&[]),
        ScanOutcome { state: ScanState::ExpectLead, count: 0 }
    );
}

fn mixed_text(len: usize, seed: usize) -> Vec<u8> {
    let pieces: [&[u8]; 8] = [
        b"plain ascii text, sixteen+ bytes",
        "caf\u{e9}".as_bytes(),
        "\u{4e16}\u{754c}".as_bytes(),
        "\u{1f600}".as_bytes(),
        b"x",
        &[0xc3],
        &[0x80],
        &[0xed, 0xa0, 0x80],
    ];
    let mut out = Vec::new();
    let mut state = seed.wrapping_mul(2654435761).wrapping_add(12345);
    while out.len() < len {
        state = state.wrapping_mul(6364136223846793005).wrapping_add(1442695040888963407);
        let pick = (state >> 33) % if seed % 2 == 0 { 5 } else { 8 };
        out.extend_from_slice(pieces[pick]);
    }
    out.truncate(len);
    out
}

#[test]
fn vector_scan_equals_scalar_scan() {
    for len in 0..=70usize {
        for seed in 0..40usize {
            let bytes = mixed_text(len, seed);
            let scalar = scan_with(&bytes, ExecutionPath::Scalar);
            let vector = scan_with(&bytes, ExecutionPath::Vector);
            assert_eq!(vector, scalar, "{bytes:?}");
        }
    }
}

#[test]
fn vector_scan_passes_over_ascii_lanes_and_resumes() {
    let mut bytes = vec![b'a'; 64];
    assert_eq!(
        scan_vector(&bytes),
        ScanOutcome { state: ScanState::ExpectLead, count: 64 }
    );
    bytes[15] = 0xc3;
    bytes[16] = 0xa9;
    assert_eq!(
        scan_vector(&bytes),
        ScanOutcome { state: ScanState::ExpectLead, count: 63 }
    );
    bytes[63] = 0xc3;
    assert_eq!(
        scan_vector(&bytes),
        ScanOutcome {
            state: ScanState::ExpectCont { remaining: 1, low: 0x80, high: 0xbf },
            count: 62
        }
    );
    bytes[40] = 0xff;
    assert_eq!(
        scan_vector(&bytes),
        ScanOutcome { state: ScanState::Invalid, count: 39 }
    );
}

#[test]
fn validate_agrees_with_std_on_every_pair_of_bytes() {
    for a in 0..=255u8 {
        for b in 0..=255u8 {
            let bytes = [a, b];
            assert_eq!(
                utf8_validate(&bytes).is_ok(),
                std::str::from_utf8(&bytes).is_ok(),
                "{bytes:x?}"
            );
        }
    }
}

#[test]
fn validate_and_count_agree_with_std_on_longer_sequences() {
    let edges = [0x00u8, 0x7f, 0x80, 0x8f, 0x90, 0x9f, 0xa0, 0xbf, 0xc0];
    for a in 0xc0..=255u8 {
        for b in edges {
            for c in edges {
                for d in edges {
                    let bytes = [a, b, c, d];
                    let std_view = std::str::from_utf8(&bytes);
                    assert_eq!(utf8_validate(&bytes).is_ok(), std_view.is_ok(), "{bytes:x?}");
                    match std_view {
                        Ok(text) => assert_eq!(utf8_char_count(&bytes), text.chars().count()),
                        Err(error) => {
                            let front = std::str::from_utf8(&bytes[..error.valid_up_to()]);
                            assert_eq!(
                                utf8_char_count(&bytes),
                                front.map(|text| text.chars().count()).unwrap_or(0),
                                "{bytes:x?}"
                            );
                        }
                    }
                }
            }
        }
    }
}

#[test]
fn case_conversion_keeps_validity_and_count() {
    for seed in 0..40usize {
        let mut bytes = mixed_text(50, seed);
        let valid = utf8_validate(&bytes);
        let count = utf8_char_count(&bytes);
        string_ops::to_upper_inplace(&mut bytes);
        assert_eq!(utf8_validate(&bytes), valid);
        assert_eq!(utf8_char_count(&bytes), count);
        string_ops::to_lower_inplace(&mut bytes);
        assert_eq!(utf8_validate(&bytes), valid);
        assert_eq!(utf8_char_count(&bytes), count);
    }
}
