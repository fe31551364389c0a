use k4bank::bank::{parse_bank, Bank, BankError, BANK_DATA_SIZE};
use k4bank::sysex::{DecodeError, Section, SystemExclusiveData};
use syxpack::SystemExclusiveData as KsynthSysEx;

/// The record sizes of one bank dump, in physical order.
fn record_sizes() -> Vec<usize> {
    let mut sizes = Vec::new();
    for _ in 0..64 {
        sizes.push(131);
    }
    for _ in 0..64 {
        sizes.push(77);
    }
    sizes.push(11);
    for _ in 0..61 {
        sizes.push(11);
    }
    for _ in 0..32 {
        sizes.push(35);
    }
    sizes
}

/// The K4 record checksum over the given data bytes.
fn checksum(data: &[u8]) -> u8 {
    let sum: u32 = data.iter().map(|b| *b as u32).sum();
    ((sum + 0xA5) % 0x80) as u8
}

/// A conforming bank dump whose data bytes follow the given pattern.
fn bank_with_pattern(pattern: impl Fn(usize) -> u8) -> Vec<u8> {
    let mut buf = Vec::new();
    for size in record_sizes() {
        let start = buf.len();
        for _ in 0..size - 1 {
            let j = buf.len();
            buf.push(pattern(j));
        }
        let cs = checksum(&buf[start..]);
        buf.push(cs);
    }
    buf
}

#[test]
fn test_data_size_is_fixed_constant() {
    let size = Bank::data_size();
    assert!(size > 0);
    assert_eq!(size, 15114);
    assert_eq!(size, BANK_DATA_SIZE);
    assert_eq!(size, Bank::data_size());
}

#[test]
fn test_data_size_matches_record_layout() {
    let total: usize = record_sizes().iter().sum();
    assert_eq!(total, Bank::data_size());
}

#[test]
fn test_data_size_matches_ksynth_patch_layout() {
    let total = <ksynth::k4::single::SinglePatch as KsynthSysEx>::data_size() * 64
        + <ksynth::k4::multi::MultiPatch as KsynthSysEx>::data_size() * 64
        + <ksynth::k4::drum::DrumPatch as KsynthSysEx>::data_size()
        + <ksynth::k4::effect::EffectPatch as KsynthSysEx>::data_size() * 32;
    assert_eq!(total, Bank::data_size());
}

#[test]
fn test_round_trip_zero_data() {
    let buf = bank_with_pattern(|_| 0);
    assert_eq!(buf.len(), Bank::data_size());
    let bank = Bank::from_bytes(&buf).unwrap();
    assert_eq!(bank.to_bytes(), buf);
}

#[test]
fn test_round_trip_varied_data() {
    let buf = bank_with_pattern(|j| ((j * 7 + 13) % 100) as u8);
    let bank = Bank::from_bytes(&buf).unwrap();
    assert_eq!(bank.to_bytes(), buf);
}

#[test]
fn test_all_zero_buffer_reports_first_checksum() {
    // With every byte zero the stored checksum byte 0 cannot match the
    // computed checksum 0xA5 & 0x7F == 0x25, so the decode fails on the very
    // first record.
    let buf = vec![0u8; Bank::data_size()];
    let err = Bank::from_bytes(&buf).unwrap_err();
    assert_eq!(
        err,
        DecodeError::Checksum { section: Section::Single, index: 0, expected: 0x25, found: 0 }
    );
}

#[test]
fn test_short_buffer_is_not_a_bank_file() {
    let buf = vec![0u8; Bank::data_size() - 1];
    let err = parse_bank(&buf).unwrap_err();
    assert_eq!(err, BankError::SizeMismatch { expected: 15114, found: 15113 });
}

#[test]
fn test_empty_and_long_buffers_are_not_bank_files() {
    let err = parse_bank(&Vec::new()).unwrap_err();
    assert_eq!(err, BankError::SizeMismatch { expected: 15114, found: 0 });
    let buf = vec![0u8; Bank::data_size() + 1];
    let err = parse_bank(&buf).unwrap_err();
    assert_eq!(err, BankError::SizeMismatch { expected: 15114, found: 15115 });
}

#[test]
fn test_corrupted_header_byte_fails_decode() {
    let mut buf = bank_with_pattern(|_| 0);
    buf[0] = buf[0].wrapping_add(1);
    let err = Bank::from_bytes(&buf).unwrap_err();
    assert_eq!(
        err,
        DecodeError::Checksum { section: Section::Single, index: 0, expected: 0x26, found: 0x25 }
    );
}

#[test]
fn test_corruption_reports_first_bad_record() {
    // Corrupt one data byte inside multi patch 2: every single patch is still
    // valid, so the fault names the multi section with the right index.
    let mut buf = bank_with_pattern(|_| 0);
    let offset = 64 * 131 + 2 * 77 + 5;
    buf[offset] = 9;
    let err = Bank::from_bytes(&buf).unwrap_err();
    match err {
        DecodeError::Checksum { section, index, expected, found } => {
            assert_eq!(section, Section::Multi);
            assert_eq!(index, 2);
            assert_eq!(expected, ((9 + 0xA5) % 0x80) as u8);
            assert_eq!(found, 0x25);
        }
    }
}

#[test]
fn test_corrupt_drum_and_effect_sections() {
    let mut buf = bank_with_pattern(|_| 0);
    // Corrupt the drum common block's checksum byte itself.
    let drum_common_checksum = 64 * 131 + 64 * 77 + 10;
    buf[drum_common_checksum] = 0x11;
    let err = Bank::from_bytes(&buf).unwrap_err();
    assert_eq!(
        err,
        DecodeError::Checksum {
            section: Section::DrumCommon,
            index: 0,
            expected: 0x25,
            found: 0x11
        }
    );

    let mut buf = bank_with_pattern(|_| 0);
    // Corrupt a data byte of the last effect patch.
    let last_effect = 64 * 131 + 64 * 77 + 11 + 61 * 11 + 31 * 35;
    buf[last_effect] = 1;
    let err = Bank::from_bytes(&buf).unwrap_err();
    assert_eq!(
        err,
        DecodeError::Checksum { section: Section::Effect, index: 31, expected: 0x26, found: 0x25 }
    );
}

#[test]
fn test_decode_error_messages() {
    let e = DecodeError::Checksum { section: Section::Single, index: 0, expected: 0x25, found: 0 };
    assert_eq!(e.message(), "checksum mismatch in single patch 0: expected 37, found 0");
    let e = DecodeError::Checksum {
        section: Section::DrumCommon,
        index: 0,
        expected: 0x25,
        found: 0x11,
    };
    assert_eq!(e.message(), "checksum mismatch in drum common: expected 37, found 17");
    let e = DecodeError::Checksum { section: Section::DrumNote, index: 60, expected: 1, found: 2 };
    assert_eq!(e.message(), "checksum mismatch in drum note 60: expected 1, found 2");
}

#[test]
fn test_record_accessors_expose_physical_order() {
    let buf = bank_with_pattern(|j| (j % 128) as u8);
    let bank = Bank::from_bytes(&buf).unwrap();
    assert_eq!(bank.single(0).bytes().as_slice(), &buf[0..131]);
    assert_eq!(bank.single(63).bytes().as_slice(), &buf[63 * 131..64 * 131]);
    let multis = 64 * 131;
    assert_eq!(bank.multi(0).bytes().as_slice(), &buf[multis..multis + 77]);
    let drum_common = multis + 64 * 77;
    assert_eq!(
        bank.drum_common().bytes().as_slice(),
        &buf[drum_common..drum_common + 11]
    );
    let notes = drum_common + 11;
    assert_eq!(
        bank.drum_note(60).bytes().as_slice(),
        &buf[notes + 60 * 11..notes + 61 * 11]
    );
    let effects = notes + 61 * 11;
    assert_eq!(
        bank.effect(31).bytes().as_slice(),
        &buf[effects + 31 * 35..effects + 32 * 35]
    );
}

#[test]
fn test_parse_bank_accepts_valid_dump() {
    let buf = bank_with_pattern(|j| ((j * 3) % 90) as u8);
    let bank = parse_bank(&buf).unwrap();
    assert_eq!(bank.to_bytes(), buf);
}
