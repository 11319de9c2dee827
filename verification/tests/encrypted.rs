use bromine::encrypted::{
    EncryptedPackage, EncryptedReadStream, EncryptedWriteStream, ReadAction, WriteAction,
    WritePhase, WRITE_BUF_SIZE,
};
use bromine::error::Error;

fn pattern(n: usize) -> Vec<u8> {
    (0..n).map(|i| (i % 251) as u8).collect()
}

/// Sends what the action asks for until the operation ends, and returns the
/// packages in the order in which they left, with the action that ended it.
fn drive(writer: &mut EncryptedWriteStream, first: WriteAction) -> (Vec<Vec<u8>>, WriteAction) {
    let mut packages = Vec::new();
    let mut action = first;
    loop {
        match action {
            WriteAction::Send(package) => {
                packages.push(package);
                action = writer.package_sent();
            }
            other => return (packages, other),
        }
    }
}

#[test]
fn package_on_the_wire() {
    let wire = EncryptedPackage::new(vec![1, 2, 3]).into_bytes().unwrap();
    assert_eq!(wire, vec![0, 0, 0, 3, 1, 2, 3]);
    let empty = EncryptedPackage::new(vec![]).into_bytes().unwrap();
    assert_eq!(empty, vec![0, 0, 0, 0]);
    let long = EncryptedPackage::new(vec![9; 1040]).into_bytes().unwrap();
    assert_eq!(&long[..4], &[0, 0, 4, 16]);
    assert_eq!(long.len(), 1044);
}

#[test]
fn package_read_from_the_wire() {
    let mut wire = EncryptedPackage::new(vec![1, 2, 3]).into_bytes().unwrap();
    wire.extend_from_slice(&[0, 0, 0, 1, 9]);
    let (first, used) = EncryptedPackage::from_bytes(&wire).unwrap();
    assert_eq!(used, 7);
    assert_eq!(first.into_inner(), vec![1, 2, 3]);
    let (second, used) = EncryptedPackage::from_bytes(&wire[7..]).unwrap();
    assert_eq!(used, 5);
    assert_eq!(second.into_inner(), vec![9]);
    assert_eq!(EncryptedPackage::announced_len(&wire), Some(3));
    assert_eq!(EncryptedPackage::announced_len(&wire[..3]), None);
}

#[test]
fn package_that_is_not_all_there() {
    let wire = EncryptedPackage::new(vec![1, 2, 3]).into_bytes().unwrap();
    for cut in 0..wire.len() {
        assert_eq!(EncryptedPackage::from_bytes(&wire[..cut]), None);
    }
    assert_eq!(EncryptedPackage::from_bytes(&[0xff, 0xff, 0xff, 0xff, 1]), None);
}

#[test]
fn read_asks_for_a_package_when_it_holds_nothing() {
    let mut reader = EncryptedReadStream::new();
    assert_eq!(reader.poll_read(0), ReadAction::Deliver(vec![]));
    assert_eq!(reader.poll_read(10), ReadAction::Fetch);
    assert!(reader.is_fetching());
    assert_eq!(reader.poll_read(10), ReadAction::Wait);
    assert_eq!(reader.package_arrived(&[1, 2, 3]), Ok(()));
    assert!(!reader.is_fetching());
    assert_eq!(reader.buffered_len(), 3);
}

#[test]
fn read_delivers_in_order_and_keeps_the_rest() {
    let mut reader = EncryptedReadStream::new();
    assert_eq!(reader.poll_read(2), ReadAction::Fetch);
    reader.package_arrived(&[1, 2, 3, 4, 5]).unwrap();
    assert_eq!(reader.poll_read(2), ReadAction::Deliver(vec![1, 2]));
    assert_eq!(reader.buffered_len(), 3);
    assert_eq!(reader.poll_read(2), ReadAction::Deliver(vec![3, 4]));
    assert_eq!(reader.poll_read(2), ReadAction::Deliver(vec![5]));
    assert_eq!(reader.poll_read(2), ReadAction::Fetch);
    reader.package_arrived(&[6]).unwrap();
    reader.package_arrived(&[7, 8]).unwrap();
    assert_eq!(reader.poll_read(100), ReadAction::Deliver(vec![6, 7, 8]));
    assert_eq!(reader.buffered_len(), 0);
}

#[test]
fn read_after_a_failed_fetch() {
    let mut reader = EncryptedReadStream::new();
    assert_eq!(reader.poll_read(1), ReadAction::Fetch);
    reader.fetch_failed();
    assert!(!reader.is_fetching());
    assert_eq!(reader.buffered_len(), 0);
    assert_eq!(reader.poll_read(1), ReadAction::Fetch);
}

#[test]
fn short_write_is_held_back() {
    let mut writer = EncryptedWriteStream::new();
    assert_eq!(writer.poll_write(&[1, 2, 3]), Ok((3, WriteAction::Done)));
    assert_eq!(writer.buffered_len(), 3);
    assert_eq!(writer.current_phase(), WritePhase::Idle);
    assert_eq!(writer.poll_write(&[]), Ok((0, WriteAction::Done)));
}

#[test]
fn write_that_fills_a_package_sends_it() {
    let mut writer = EncryptedWriteStream::new();
    let data = pattern(WRITE_BUF_SIZE - 1);
    assert_eq!(writer.poll_write(&data), Ok((WRITE_BUF_SIZE - 1, WriteAction::Done)));
    let (taken, action) = writer.poll_write(&[77, 78]).unwrap();
    assert_eq!(taken, 2);
    let mut expected = data.clone();
    expected.push(77);
    assert_eq!(action, WriteAction::Send(expected));
    assert_eq!(writer.current_phase(), WritePhase::Writing);
    assert_eq!(writer.buffered_len(), 1);
    assert_eq!(writer.poll_write(&[1]), Ok((0, WriteAction::Wait)));
    assert_eq!(writer.poll_flush(), Ok(WriteAction::Wait));
    assert_eq!(writer.poll_shutdown(), WriteAction::Wait);
    assert_eq!(writer.buffered_len(), 1);
    assert_eq!(writer.package_sent(), WriteAction::Done);
    assert_eq!(writer.current_phase(), WritePhase::Idle);
    assert_eq!(writer.package_sent(), WriteAction::Done);
}

#[test]
fn long_write_leaves_in_full_packages() {
    let mut writer = EncryptedWriteStream::new();
    let data = pattern(2500);
    let (taken, action) = writer.poll_write(&data).unwrap();
    assert_eq!(taken, 2500);
    let (packages, end) = drive(&mut writer, action);
    assert_eq!(end, WriteAction::Done);
    assert_eq!(packages.len(), 2);
    assert_eq!(packages[0], data[..1024].to_vec());
    assert_eq!(packages[1], data[1024..2048].to_vec());
    assert_eq!(writer.buffered_len(), 452);
}

#[test]
fn flush_sends_the_rest_as_a_short_package() {
    let mut writer = EncryptedWriteStream::new();
    assert_eq!(writer.poll_flush(), Ok(WriteAction::FlushInner));
    writer.poll_write(&[1, 2, 3]).unwrap();
    let action = writer.poll_flush().unwrap();
    assert_eq!(action, WriteAction::Send(vec![1, 2, 3]));
    assert_eq!(writer.current_phase(), WritePhase::Flushing);
    assert_eq!(writer.package_sent(), WriteAction::FlushInner);
    assert_eq!(writer.current_phase(), WritePhase::Idle);
    assert_eq!(writer.buffered_len(), 0);
}

#[test]
fn written_bytes_are_read_back_once_flushed() {
    let mut writer = EncryptedWriteStream::new();
    let mut reader = EncryptedReadStream::new();
    let data = pattern(5000);
    let mut packages = Vec::new();
    for chunk in data.chunks(700) {
        let (taken, action) = writer.poll_write(chunk).unwrap();
        assert_eq!(taken, chunk.len());
        let (sent, end) = drive(&mut writer, action);
        assert_eq!(end, WriteAction::Done);
        packages.extend(sent);
    }
    let flush = writer.poll_flush().unwrap();
    let (sent, end) = drive(&mut writer, flush);
    assert_eq!(end, WriteAction::FlushInner);
    packages.extend(sent);
    assert_eq!(writer.buffered_len(), 0);
    assert!(packages.iter().all(|p| !p.is_empty() && p.len() <= WRITE_BUF_SIZE));
    assert_eq!(packages.len(), 5);

    let mut read = Vec::new();
    let mut next = packages.into_iter();
    loop {
        match reader.poll_read(333) {
            ReadAction::Deliver(bytes) => read.extend(bytes),
            ReadAction::Fetch => match next.next() {
                Some(package) => {
                    let wire = EncryptedPackage::new(package).into_bytes().unwrap();
                    let (arrived, _) = EncryptedPackage::from_bytes(&wire).unwrap();
                    reader.package_arrived(&arrived.into_inner()).unwrap();
                }
                None => break,
            },
            ReadAction::Wait => unreachable!(),
        }
    }
    assert_eq!(read, data);
}

#[test]
fn shutdown_flushes_and_then_shuts() {
    let mut writer = EncryptedWriteStream::new();
    let (_, action) = writer.poll_write(&pattern(1500)).unwrap();
    drive(&mut writer, action);
    assert_eq!(writer.buffered_len(), 476);
    let action = writer.poll_shutdown();
    assert_eq!(writer.current_phase(), WritePhase::ShuttingDown);
    let (packages, end) = drive(&mut writer, action);
    assert_eq!(packages, vec![pattern(1500)[1024..].to_vec()]);
    assert_eq!(end, WriteAction::ShutdownInner);
    assert!(writer.is_shut());
    assert_eq!(writer.poll_shutdown(), WriteAction::Done);
    assert_eq!(writer.poll_write(&[1]), Err(Error::Closed));
    assert_eq!(writer.poll_flush(), Err(Error::Closed));
}

#[test]
fn shutdown_of_an_empty_stream() {
    let mut writer = EncryptedWriteStream::new();
    assert_eq!(writer.poll_shutdown(), WriteAction::ShutdownInner);
    assert!(writer.is_shut());
}

#[test]
fn failed_send_shuts_the_write_half() {
    let mut writer = EncryptedWriteStream::new();
    let (_, action) = writer.poll_write(&pattern(1024)).unwrap();
    assert!(matches!(action, WriteAction::Send(_)));
    writer.send_failed();
    assert!(writer.is_shut());
    assert_eq!(writer.current_phase(), WritePhase::Idle);
    assert_eq!(writer.poll_write(&[1]), Err(Error::Closed));
}
