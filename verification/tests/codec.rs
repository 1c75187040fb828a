use helloworld::{GreetingAccount, ProgramError};

fn encoded(counter: u32) -> Vec<u8> {
    let mut writer = Vec::new();
    GreetingAccount { counter }.serialize(&mut writer).unwrap();
    writer
}

#[test]
fn serialize_is_little_endian() {
    assert_eq!(encoded(0), vec![0, 0, 0, 0]);
    assert_eq!(encoded(1), vec![1, 0, 0, 0]);
    assert_eq!(encoded(258), vec![2, 1, 0, 0]);
    assert_eq!(encoded(0x0102_0304), vec![4, 3, 2, 1]);
    assert_eq!(encoded(u32::MAX), vec![255, 255, 255, 255]);
}

#[test]
fn serialize_appends_four_bytes() {
    let mut writer = vec![9, 8, 7];
    assert_eq!(GreetingAccount { counter: 65536 }.serialize(&mut writer), Ok(()));
    assert_eq!(writer, vec![9, 8, 7, 0, 0, 1, 0]);
}

#[test]
fn try_from_slice_reads_little_endian() {
    assert_eq!(
        GreetingAccount::try_from_slice(&[4, 3, 2, 1]),
        Ok(GreetingAccount { counter: 0x0102_0304 })
    );
    assert_eq!(
        GreetingAccount::try_from_slice(&[0, 0, 0, 128]),
        Ok(GreetingAccount { counter: 1 << 31 })
    );
    assert_eq!(
        GreetingAccount::try_from_slice(&[255, 255, 255, 255]),
        Ok(GreetingAccount { counter: u32::MAX })
    );
}

#[test]
fn try_from_slice_refuses_other_lengths() {
    assert_eq!(
        GreetingAccount::try_from_slice(&[]),
        Err(ProgramError::MalformedAccountData)
    );
    assert_eq!(
        GreetingAccount::try_from_slice(&[1, 0, 0]),
        Err(ProgramError::MalformedAccountData)
    );
    assert_eq!(
        GreetingAccount::try_from_slice(&[1, 0, 0, 0, 0]),
        Err(ProgramError::MalformedAccountData)
    );
    assert_eq!(
        GreetingAccount::try_from_slice(&[0; 8]),
        Err(ProgramError::MalformedAccountData)
    );
}

#[test]
fn decoding_undoes_encoding() {
    let samples = [
        0u32,
        1,
        255,
        256,
        65535,
        65536,
        16777215,
        16777216,
        0x0102_0304,
        0xdead_beef,
        u32::MAX - 1,
        u32::MAX,
    ];
    for counter in samples {
        let bytes = encoded(counter);
        assert_eq!(bytes.len(), 4);
        assert_eq!(
            GreetingAccount::try_from_slice(&bytes),
            Ok(GreetingAccount { counter })
        );
    }
}

#[test]
fn encoding_undoes_decoding() {
    let buffers: [[u8; 4]; 4] = [[0, 0, 0, 0], [7, 0, 9, 0], [0, 255, 0, 255], [1, 2, 3, 4]];
    for buffer in buffers {
        let record = GreetingAccount::try_from_slice(&buffer).unwrap();
        assert_eq!(encoded(record.counter), buffer.to_vec());
    }
}
