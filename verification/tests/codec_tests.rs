use latest_round::report::Report;
use latest_round::report::StoreError;

fn sample_report() -> Report {
    let mut observers = [0u8; 19];
    let mut i = 0usize;
    while i < 19 {
        observers[i] = (i as u8) + 10;
        i += 1;
    }
    Report {
        median: -1234567890123456789012345678i128,
        observer_count: 19,
        observers,
        observations_timestamp: 0xDEAD_BEEF,
        juels_per_lamport: 0x0102_0304_0506_0708,
    }
}

fn assert_reports_equal(a: &Report, b: &Report) {
    assert_eq!(a.median, b.median);
    assert_eq!(a.observer_count, b.observer_count);
    assert_eq!(a.observers, b.observers);
    assert_eq!(a.observations_timestamp, b.observations_timestamp);
    assert_eq!(a.juels_per_lamport, b.juels_per_lamport);
}

#[test]
fn round_trip_typical_report() {
    let r = sample_report();
    let packed = r.pack();
    assert_eq!(packed.len(), 61);
    let decoded = Report::unpack(&packed).unwrap();
    assert_reports_equal(&r, &decoded);
}

#[test]
fn round_trip_zero_report() {
    let r = Report {
        median: 0,
        observer_count: 0,
        observers: [0u8; 19],
        observations_timestamp: 0,
        juels_per_lamport: 0,
    };
    let packed = r.pack();
    assert_eq!(packed, vec![0u8; 61]);
    let decoded = Report::unpack(&packed).unwrap();
    assert_reports_equal(&r, &decoded);
}

#[test]
fn round_trip_extreme_values() {
    let r = Report {
        median: i128::MIN,
        observer_count: u8::MAX,
        observers: [u8::MAX; 19],
        observations_timestamp: u32::MAX,
        juels_per_lamport: u64::MAX,
    };
    let decoded = Report::unpack(&r.pack()).unwrap();
    assert_reports_equal(&r, &decoded);

    let r2 = Report { median: i128::MAX, ..r };
    let decoded2 = Report::unpack(&r2.pack()).unwrap();
    assert_reports_equal(&r2, &decoded2);
}

#[test]
fn pack_exact_layout() {
    let mut observers = [0u8; 19];
    let mut i = 0usize;
    while i < 19 {
        observers[i] = (i as u8) + 1;
        i += 1;
    }
    let r = Report {
        median: 1,
        observer_count: 5,
        observers,
        observations_timestamp: 0x0102_0304,
        juels_per_lamport: 0x1112_1314_1516_1718,
    };
    let packed = r.pack();
    let mut expected: Vec<u8> = Vec::new();
    expected.extend_from_slice(&[0x01, 0x02, 0x03, 0x04]);
    expected.push(5);
    expected.extend_from_slice(&observers);
    expected.extend_from_slice(&[0u8; 13]);
    let mut median_bytes = [0u8; 16];
    median_bytes[15] = 1;
    expected.extend_from_slice(&median_bytes);
    expected.extend_from_slice(&[0x11, 0x12, 0x13, 0x14, 0x15, 0x16, 0x17, 0x18]);
    assert_eq!(packed, expected);
}

#[test]
fn pack_negative_median_two_complement() {
    let r = Report {
        median: -1,
        observer_count: 0,
        observers: [0u8; 19],
        observations_timestamp: 0,
        juels_per_lamport: 0,
    };
    let packed = r.pack();
    for i in 37..53 {
        assert_eq!(packed[i], 0xFF);
    }
}

#[test]
fn unpack_rejects_short_buffers() {
    assert_eq!(Report::unpack(&[]), Err(StoreError::MalformedInput));
    assert_eq!(Report::unpack(&[0u8; 1]), Err(StoreError::MalformedInput));
    assert_eq!(Report::unpack(&[0u8; 60]), Err(StoreError::MalformedInput));
}

#[test]
fn unpack_accepts_longer_buffers() {
    let mut buf = sample_report().pack();
    buf.extend_from_slice(&[0xAB; 40]);
    let decoded = Report::unpack(&buf).unwrap();
    assert_reports_equal(&sample_report(), &decoded);
}

#[test]
fn unpack_ignores_padding_bytes() {
    let mut buf = sample_report().pack();
    for i in 24..37 {
        buf[i] = 0xCC;
    }
    let decoded = Report::unpack(&buf).unwrap();
    assert_reports_equal(&sample_report(), &decoded);
}

#[test]
fn unpack_accepts_observer_count_over_19() {
    let mut buf = vec![0u8; 61];
    buf[4] = 200;
    let decoded = Report::unpack(&buf).unwrap();
    assert_eq!(decoded.observer_count, 200);
}

#[test]
fn unpack_median_sign_boundaries() {
    let mut buf = vec![0u8; 61];
    buf[37] = 0x80;
    let decoded = Report::unpack(&buf).unwrap();
    assert_eq!(decoded.median, i128::MIN);

    let mut buf2 = vec![0u8; 61];
    buf2[37] = 0x7F;
    for i in 38..53 {
        buf2[i] = 0xFF;
    }
    let decoded2 = Report::unpack(&buf2).unwrap();
    assert_eq!(decoded2.median, i128::MAX);
}

#[test]
fn unpack_field_offsets() {
    let mut buf = vec![0u8; 61];
    buf[3] = 7;
    buf[4] = 2;
    buf[5] = 9;
    buf[23] = 4;
    buf[52] = 11;
    buf[60] = 13;
    let decoded = Report::unpack(&buf).unwrap();
    assert_eq!(decoded.observations_timestamp, 7);
    assert_eq!(decoded.observer_count, 2);
    assert_eq!(decoded.observers[0], 9);
    assert_eq!(decoded.observers[18], 4);
    assert_eq!(decoded.median, 11);
    assert_eq!(decoded.juels_per_lamport, 13);
}
