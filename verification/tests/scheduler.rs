use core::time::Duration;

use arbitrary_int::{traits::Integer, u11, u14};
use satrs::ccsds::scheduler::{
    CcsdsPacketFields, CcsdsPacketIdAndPsc, CcsdsSchedulePacketId, CcsdsScheduler, Limits, ScheduleError, UnixTime,
};
use spacepackets::{CcsdsPacket, CcsdsPacketCreatorOwned, CcsdsPacketReader, ChecksumType, SpacePacketHeader};

fn test_tc(app_data: &[u8], seq_count: u14) -> CcsdsPacketCreatorOwned {
    CcsdsPacketCreatorOwned::new(
        SpacePacketHeader::new_for_tc(
            u11::new(0x1),
            spacepackets::SequenceFlags::Unsegmented,
            seq_count,
            0,
        ),
        spacepackets::PacketType::Tc,
        app_data,
        Some(ChecksumType::WithCrc16),
    )
    .unwrap()
}

fn id_of<P: CcsdsPacket>(packet: &P) -> CcsdsPacketIdAndPsc {
    let id = spacepackets::CcsdsPacketIdAndPsc::new_from_ccsds_packet(packet);
    CcsdsPacketIdAndPsc::new(id.packet_id.raw(), id.psc.raw())
}

#[test]
fn scheduler_test_basic() {
    let unix_time = UnixTime::new(0, 0);
    let mut scheduler = CcsdsScheduler::new(
        unix_time,
        Limits::new(Some(100), Some(1024)),
        Duration::from_millis(5000),
    );
    assert_eq!(scheduler.current_fill_count().packets, 0);
    assert_eq!(scheduler.current_fill_count().bytes, 0);
    assert_eq!(scheduler.num_of_entries(), 0);
    assert_eq!(scheduler.telecommands_to_release().len(), 0);
    assert_eq!(scheduler.current_time(), &unix_time);
    scheduler.release_telecommands(|_, _| {
        panic!("should not be called");
    });
}

#[test]
fn test_mutable_closure() {
    let unix_time = UnixTime::new(0, 0);
    let mut scheduler = CcsdsScheduler::new(
        unix_time,
        Limits::new(Some(100), Some(1024)),
        Duration::from_millis(5000),
    );
    let mut some_flag = false;
    // We should be able to manipulate the boolean inside the closure.
    scheduler.release_telecommands(|_, _| {
        some_flag = true;
    });
    assert!(!some_flag);
}

#[test]
fn test_clear() {
    let unix_time = UnixTime::new(0, 0);
    let mut scheduler = CcsdsScheduler::new(
        unix_time,
        Limits::new(Some(100), Some(1024)),
        Duration::from_millis(1000),
    );
    let test_tc = test_tc(&[1, 2, 3], u14::ZERO);
    let test_tc_raw = test_tc.to_vec();
    let reader = CcsdsPacketReader::new(&test_tc_raw, Some(ChecksumType::WithCrc16)).unwrap();
    scheduler
        .insert_telecommand_with_reader(&CcsdsPacketFields::from_reader(&reader), UnixTime::new(2, 0))
        .unwrap();
    assert_eq!(scheduler.current_fill_count().packets, 1);
    assert_eq!(scheduler.current_fill_count().bytes, test_tc_raw.len());
    assert_eq!(scheduler.num_of_entries(), 1);
    assert_eq!(scheduler.telecommands_to_release().len(), 0);
    scheduler.clear();
    assert_eq!(scheduler.current_fill_count().packets, 0);
    assert_eq!(scheduler.current_fill_count().bytes, 0);
    assert_eq!(scheduler.num_of_entries(), 0);
    assert_eq!(scheduler.telecommands_to_release().len(), 0);
}

#[test]
fn insert_and_release_one() {
    let unix_time = UnixTime::new(0, 0);
    let mut scheduler = CcsdsScheduler::new(
        unix_time,
        Limits::new(Some(100), Some(1024)),
        Duration::from_millis(1000),
    );
    let test_tc_0 = test_tc(&[1, 2, 3], u14::ZERO);
    let tc_id = id_of(&test_tc_0);
    let test_tc_raw = test_tc_0.to_vec();
    let reader = CcsdsPacketReader::new(&test_tc_raw, Some(ChecksumType::WithCrc16)).unwrap();
    let checksum = reader.checksum();
    scheduler
        .insert_telecommand_with_reader(&CcsdsPacketFields::from_reader(&reader), UnixTime::new(2, 0))
        .unwrap();
    assert_eq!(scheduler.current_fill_count().packets, 1);
    assert_eq!(scheduler.current_fill_count().bytes, test_tc_raw.len());
    assert_eq!(scheduler.num_of_entries(), 1);
    assert_eq!(scheduler.telecommands_to_release().len(), 0);
    scheduler.release_telecommands(|_, _| {
        panic!("should not be called");
    });
    scheduler.update_time(UnixTime::new(3, 0));
    assert_eq!(scheduler.telecommands_to_release().len(), 1);
    scheduler.release_telecommands(|tc_id_scheduled, tc_raw| {
        assert_eq!(tc_id, tc_id_scheduled.base);
        assert_eq!(checksum, tc_id_scheduled.crc16);
        assert_eq!(tc_raw, test_tc_raw);
    });
    assert_eq!(scheduler.telecommands_to_release().len(), 0);
}

#[test]
fn insert_and_release_multi_0() {
    let unix_time = UnixTime::new(0, 0);
    let mut scheduler = CcsdsScheduler::new(
        unix_time,
        Limits::new(Some(100), Some(1024)),
        Duration::from_millis(1000),
    );
    let test_tc_0 = test_tc(&[42], u14::ZERO);
    let test_tc_1 = test_tc(&[1, 2, 3], u14::new(1));
    let tc_id_0 = id_of(&test_tc_0);
    let tc_id_1 = id_of(&test_tc_1);
    let test_tc_0_raw = test_tc_0.to_vec();
    let test_tc_1_raw = test_tc_1.to_vec();
    let reader_0 = CcsdsPacketReader::new(&test_tc_0_raw, Some(ChecksumType::WithCrc16)).unwrap();
    let reader_1 = CcsdsPacketReader::new(&test_tc_1_raw, Some(ChecksumType::WithCrc16)).unwrap();
    scheduler
        .insert_telecommand_with_reader(&CcsdsPacketFields::from_reader(&reader_0), UnixTime::new(2, 0))
        .unwrap();
    scheduler
        .insert_telecommand(
            CcsdsSchedulePacketId::new(tc_id_1, reader_1.checksum()),
            &test_tc_1_raw,
            UnixTime::new(5, 0),
        )
        .unwrap();
    assert_eq!(scheduler.current_fill_count().packets, 2);
    assert_eq!(
        scheduler.current_fill_count().bytes,
        test_tc_0_raw.len() + test_tc_1_raw.len()
    );
    assert_eq!(scheduler.num_of_entries(), 2);
    assert_eq!(scheduler.telecommands_to_release().len(), 0);
    scheduler.release_telecommands(|_, _| {
        panic!("should not be called");
    });

    // Release first TC.
    scheduler.update_time(UnixTime::new(3, 0));
    assert_eq!(scheduler.telecommands_to_release().len(), 1);
    scheduler.release_telecommands(|tc_id_scheduled, tc_raw| {
        assert_eq!(tc_id_0, tc_id_scheduled.base);
        assert_eq!(reader_0.checksum(), tc_id_scheduled.crc16);
        assert_eq!(tc_raw, test_tc_0_raw);
    });
    assert_eq!(scheduler.telecommands_to_release().len(), 0);
    assert_eq!(scheduler.current_fill_count().packets, 1);
    assert_eq!(scheduler.current_fill_count().bytes, test_tc_1_raw.len());
    assert_eq!(scheduler.num_of_entries(), 1);

    // Release second TC.
    scheduler.update_time(UnixTime::new(6, 0));
    assert_eq!(scheduler.telecommands_to_release().len(), 1);
    scheduler.release_telecommands(|tc_id_scheduled, tc_raw| {
        assert_eq!(tc_id_1, tc_id_scheduled.base);
        assert_eq!(reader_1.checksum(), tc_id_scheduled.crc16);
        assert_eq!(tc_raw, test_tc_1_raw);
    });
    assert_eq!(scheduler.telecommands_to_release().len(), 0);
    assert_eq!(scheduler.current_fill_count().packets, 0);
    assert_eq!(scheduler.current_fill_count().bytes, 0);
    assert_eq!(scheduler.num_of_entries(), 0);
}

#[test]
fn insert_and_release_multi_1() {
    let unix_time = UnixTime::new(0, 0);
    let mut scheduler = CcsdsScheduler::new(
        unix_time,
        Limits::new(Some(100), Some(1024)),
        Duration::from_millis(1000),
    );
    let test_tc_0 = test_tc(&[42], u14::ZERO);
    let test_tc_1 = test_tc(&[1, 2, 3], u14::new(1));
    let tc_id_0 = id_of(&test_tc_0);
    let tc_id_1 = id_of(&test_tc_1);
    let test_tc_0_raw = test_tc_0.to_vec();
    let test_tc_1_raw = test_tc_1.to_vec();
    let reader_0 = CcsdsPacketReader::new(&test_tc_0_raw, Some(ChecksumType::WithCrc16)).unwrap();
    let reader_1 = CcsdsPacketReader::new(&test_tc_1_raw, Some(ChecksumType::WithCrc16)).unwrap();
    scheduler
        .insert_telecommand_with_reader(&CcsdsPacketFields::from_reader(&reader_0), UnixTime::new(2, 0))
        .unwrap();
    scheduler
        .insert_telecommand(
            CcsdsSchedulePacketId::new(tc_id_1, reader_1.checksum()),
            &test_tc_1_raw,
            UnixTime::new(5, 0),
        )
        .unwrap();
    assert_eq!(scheduler.current_fill_count().packets, 2);
    assert_eq!(
        scheduler.current_fill_count().bytes,
        test_tc_0_raw.len() + test_tc_1_raw.len()
    );
    assert_eq!(scheduler.num_of_entries(), 2);
    assert_eq!(scheduler.telecommands_to_release().len(), 0);
    scheduler.release_telecommands(|_, _| {
        panic!("should not be called");
    });

    // Release first TC.
    scheduler.update_time(UnixTime::new(6, 0));
    assert_eq!(scheduler.telecommands_to_release().len(), 2);
    let mut index = 0;
    scheduler.release_telecommands(|tc_id_scheduled, tc_raw| {
        if index == 0 {
            assert_eq!(tc_id_0, tc_id_scheduled.base);
            assert_eq!(reader_0.checksum(), tc_id_scheduled.crc16);
            assert_eq!(tc_raw, test_tc_0_raw);
        } else {
            assert_eq!(tc_id_1, tc_id_scheduled.base);
            assert_eq!(reader_1.checksum(), tc_id_scheduled.crc16);
            assert_eq!(tc_raw, test_tc_1_raw);
        }
        index += 1;
    });
    assert_eq!(scheduler.telecommands_to_release().len(), 0);
    assert_eq!(scheduler.current_fill_count().packets, 0);
    assert_eq!(scheduler.current_fill_count().bytes, 0);
    assert_eq!(scheduler.num_of_entries(), 0);
}

#[test]
fn test_packet_limit_reached() {
    let unix_time = UnixTime::new(0, 0);
    let mut scheduler = CcsdsScheduler::new(
        unix_time,
        Limits::new(Some(3), None),
        Duration::from_millis(1000),
    );
    let test_tc_0 = test_tc(&[42], u14::ZERO);
    let test_tc_0_raw = test_tc_0.to_vec();
    let reader = CcsdsPacketReader::new(&test_tc_0_raw, Some(ChecksumType::WithCrc16)).unwrap();
    let tc_id = id_of(&test_tc_0);
    scheduler
        .insert_telecommand_with_reader(&CcsdsPacketFields::from_reader(&reader), UnixTime::new(2, 0))
        .unwrap();
    scheduler
        .insert_telecommand_with_reader(&CcsdsPacketFields::from_reader(&reader), UnixTime::new(2, 0))
        .unwrap();
    scheduler
        .insert_telecommand_with_reader(&CcsdsPacketFields::from_reader(&reader), UnixTime::new(2, 0))
        .unwrap();
    assert_eq!(scheduler.current_fill_count().packets, 3);
    assert_eq!(
        scheduler.insert_telecommand_with_reader(&CcsdsPacketFields::from_reader(&reader), UnixTime::new(2, 0)),
        Err(ScheduleError::PacketLimitReached)
    );
    assert_eq!(
        scheduler.insert_telecommand(
            CcsdsSchedulePacketId::new(tc_id, reader.checksum()),
            &test_tc_0_raw,
            UnixTime::new(2, 0)
        ),
        Err(ScheduleError::PacketLimitReached)
    );
}

#[test]
fn test_byte_limit_reached() {
    let unix_time = UnixTime::new(0, 0);
    let test_tc_0 = test_tc(&[42], u14::ZERO);
    let mut scheduler = CcsdsScheduler::new(
        unix_time,
        Limits::new(None, Some(test_tc_0.len_written() * 3)),
        Duration::from_millis(1000),
    );
    let test_tc_0_raw = test_tc_0.to_vec();
    let reader = CcsdsPacketReader::new(&test_tc_0_raw, Some(ChecksumType::WithCrc16)).unwrap();
    let tc_id = id_of(&test_tc_0);
    scheduler
        .insert_telecommand_with_reader(&CcsdsPacketFields::from_reader(&reader), UnixTime::new(2, 0))
        .unwrap();
    scheduler
        .insert_telecommand_with_reader(&CcsdsPacketFields::from_reader(&reader), UnixTime::new(2, 0))
        .unwrap();
    scheduler
        .insert_telecommand_with_reader(&CcsdsPacketFields::from_reader(&reader), UnixTime::new(2, 0))
        .unwrap();
    assert_eq!(scheduler.current_fill_count().packets, 3);
    assert_eq!(
        scheduler.insert_telecommand_with_reader(&CcsdsPacketFields::from_reader(&reader), UnixTime::new(2, 0)),
        Err(ScheduleError::ByteLimitReached)
    );
    assert_eq!(
        scheduler.insert_telecommand(
            CcsdsSchedulePacketId::new(tc_id, reader.checksum()),
            &test_tc_0_raw,
            UnixTime::new(2, 0)
        ),
        Err(ScheduleError::ByteLimitReached)
    );
}

#[test]
fn test_deletion_by_id() {
    let unix_time = UnixTime::new(0, 0);
    let mut scheduler = CcsdsScheduler::new(
        unix_time,
        Limits::new(Some(100), Some(1024)),
        Duration::from_millis(1000),
    );
    let test_tc = test_tc(&[1, 2, 3], u14::ZERO);
    let tc_id = id_of(&test_tc);
    let test_tc_raw = test_tc.to_vec();
    let reader = CcsdsPacketReader::new(&test_tc_raw, Some(ChecksumType::WithCrc16)).unwrap();
    let checksum = reader.checksum();
    let id = CcsdsSchedulePacketId::new(tc_id, checksum);
    scheduler
        .insert_telecommand_with_reader(&CcsdsPacketFields::from_reader(&reader), UnixTime::new(2, 0))
        .unwrap();
    scheduler.delete_by_id(&id);
    assert_eq!(scheduler.current_fill_count().packets, 0);
    assert_eq!(scheduler.current_fill_count().bytes, 0);
}

fn scheduler_with_three_tcs() -> (CcsdsScheduler, Vec<u8>, Vec<u8>, Vec<u8>) {
    let unix_time = UnixTime::new(0, 0);
    let mut scheduler = CcsdsScheduler::new(
        unix_time,
        Limits::new(Some(100), Some(1024)),
        Duration::from_millis(1000),
    );
    let test_tc_0 = test_tc(&[42], u14::ZERO);
    let test_tc_1 = test_tc(&[1, 2, 3], u14::new(1));
    let test_tc_2 = test_tc(&[1, 2, 3], u14::new(2));
    let test_tc_0_raw = test_tc_0.to_vec();
    let test_tc_1_raw = test_tc_1.to_vec();
    let test_tc_2_raw = test_tc_2.to_vec();
    let reader_0 = CcsdsPacketReader::new(&test_tc_0_raw, Some(ChecksumType::WithCrc16)).unwrap();
    let reader_1 = CcsdsPacketReader::new(&test_tc_1_raw, Some(ChecksumType::WithCrc16)).unwrap();
    let reader_2 = CcsdsPacketReader::new(&test_tc_2_raw, Some(ChecksumType::WithCrc16)).unwrap();
    scheduler
        .insert_telecommand_with_reader(&CcsdsPacketFields::from_reader(&reader_0), UnixTime::new(2, 0))
        .unwrap();
    scheduler
        .insert_telecommand_with_reader(&CcsdsPacketFields::from_reader(&reader_1), UnixTime::new(5, 0))
        .unwrap();
    scheduler
        .insert_telecommand_with_reader(&CcsdsPacketFields::from_reader(&reader_2), UnixTime::new(7, 0))
        .unwrap();
    (scheduler, test_tc_0_raw, test_tc_1_raw, test_tc_2_raw)
}

#[test]
fn test_deletion_by_window_0() {
    let (mut scheduler, test_tc_0_raw, _test_tc_1_raw, test_tc_2_raw) = scheduler_with_three_tcs();
    let deleted = scheduler.delete_time_window(UnixTime::new(3, 0), UnixTime::new(6, 0));
    assert!(deleted);
    assert_eq!(scheduler.current_fill_count().packets, 2);
    assert_eq!(
        scheduler.current_fill_count().bytes,
        test_tc_0_raw.len() + test_tc_2_raw.len()
    );
    scheduler.update_time(UnixTime::new(10, 0));
    let mut index = 0;
    scheduler.release_telecommands(|_id, packet| {
        if index == 0 {
            assert_eq!(packet, test_tc_0_raw);
        } else {
            assert_eq!(packet, test_tc_2_raw);
        }
        index += 1;
    });
    assert_eq!(scheduler.current_fill_count().packets, 0);
    assert_eq!(scheduler.current_fill_count().bytes, 0);
}

#[test]
fn test_deletion_by_window_1() {
    let (mut scheduler, _test_tc_0_raw, _test_tc_1_raw, test_tc_2_raw) = scheduler_with_three_tcs();
    // This only deletes the first 2 TCs.
    let deleted = scheduler.delete_time_window(UnixTime::new(2, 0), UnixTime::new(7, 0));
    assert!(deleted);
    assert_eq!(scheduler.current_fill_count().packets, 1);
    assert_eq!(scheduler.current_fill_count().bytes, test_tc_2_raw.len());
    scheduler.update_time(UnixTime::new(10, 0));
    scheduler.release_telecommands(|_id, packet| {
        assert_eq!(packet, test_tc_2_raw);
    });
}

#[test]
fn test_deletion_from_start() {
    let (mut scheduler, test_tc_0_raw, _test_tc_1_raw, _test_tc_2_raw) = scheduler_with_three_tcs();
    // This only deletes the first 2 TCs.
    let deleted = scheduler.delete_starting_at(UnixTime::new(5, 0));
    assert!(deleted);
    assert_eq!(scheduler.current_fill_count().packets, 1);
    assert_eq!(scheduler.current_fill_count().bytes, test_tc_0_raw.len());
    scheduler.update_time(UnixTime::new(10, 0));
    scheduler.release_telecommands(|_id, packet| {
        assert_eq!(packet, test_tc_0_raw);
    });
}

#[test]
fn test_deletion_until_end() {
    let (mut scheduler, _test_tc_0_raw, _test_tc_1_raw, test_tc_2_raw) = scheduler_with_three_tcs();
    // This only deletes the first 2 TCs.
    let deleted = scheduler.delete_before(UnixTime::new(7, 0));
    assert!(deleted);
    assert_eq!(scheduler.current_fill_count().packets, 1);
    assert_eq!(scheduler.current_fill_count().bytes, test_tc_2_raw.len());
    scheduler.update_time(UnixTime::new(10, 0));
    scheduler.release_telecommands(|_id, packet| {
        assert_eq!(packet, test_tc_2_raw);
    });
}

// Release time within the margin: the current time plus the margin lies after it.
#[test]
fn release_time_in_margin_is_refused() {
    let mut scheduler = CcsdsScheduler::new(
        UnixTime::new(10, 0),
        Limits::new(None, None),
        Duration::from_millis(1500),
    );
    let tc = test_tc(&[1], u14::ZERO);
    let raw = tc.to_vec();
    let id = CcsdsSchedulePacketId::new(id_of(&tc), None);
    assert_eq!(
        scheduler.insert_telecommand(id, &raw, UnixTime::new(11, 499_000_000)),
        Err(ScheduleError::ReleaseTimeInTimeMargin {
            current_time: UnixTime::new(10, 0),
            time_margin: Duration::from_millis(1500),
            release_time: UnixTime::new(11, 499_000_000),
        })
    );
    // Exactly at the end of the margin is accepted.
    assert!(scheduler
        .insert_telecommand(id, &raw, UnixTime::new(11, 500_000_000))
        .is_ok());
    assert_eq!(scheduler.num_of_entries(), 1);
}

// Stamps that differ only below a millisecond share one group, in insertion order.
#[test]
fn stamps_within_one_millisecond_share_a_group() {
    let mut scheduler = CcsdsScheduler::new(
        UnixTime::new(0, 0),
        Limits::new(None, None),
        Duration::from_millis(0),
    );
    let tc_0 = test_tc(&[1], u14::ZERO);
    let tc_1 = test_tc(&[2], u14::new(1));
    let raw_0 = tc_0.to_vec();
    let raw_1 = tc_1.to_vec();
    scheduler
        .insert_telecommand(CcsdsSchedulePacketId::new(id_of(&tc_0), None), &raw_0, UnixTime::new(4, 1_000_100))
        .unwrap();
    scheduler
        .insert_telecommand(CcsdsSchedulePacketId::new(id_of(&tc_1), None), &raw_1, UnixTime::new(4, 1_000_900))
        .unwrap();
    scheduler.update_time(UnixTime::new(4, 1_000_000));
    let due = scheduler.telecommands_to_release();
    assert_eq!(due.len(), 1);
    assert_eq!(due[0].0, UnixTime::new(4, 1_000_100));
    assert_eq!(due[0].1.len(), 2);
    assert_eq!(due[0].1[0].1, raw_0);
    assert_eq!(due[0].1[1].1, raw_1);
}

// Before the epoch the milliseconds count backwards.
#[test]
fn stamps_before_epoch_order_millis_backwards() {
    let mut scheduler = CcsdsScheduler::new(
        UnixTime::new(-5, 0),
        Limits::new(None, None),
        Duration::from_millis(0),
    );
    let tc = test_tc(&[1], u14::ZERO);
    let raw = tc.to_vec();
    let id = CcsdsSchedulePacketId::new(id_of(&tc), None);
    scheduler.insert_telecommand(id, &raw, UnixTime::new(-3, 100_000_000)).unwrap();
    scheduler.update_time(UnixTime::new(-3, 200_000_000));
    // -3 s and 200 ms comes before -3 s and 100 ms.
    assert_eq!(scheduler.telecommands_to_release().len(), 0);
    scheduler.update_time(UnixTime::new(-3, 50_000_000));
    assert_eq!(scheduler.telecommands_to_release().len(), 1);
}

// Deleting by ID removes every telecommand with that ID and keeps the others.
#[test]
fn delete_by_id_removes_all_copies() {
    let mut scheduler = CcsdsScheduler::new(
        UnixTime::new(0, 0),
        Limits::new(None, None),
        Duration::from_millis(0),
    );
    let tc_0 = test_tc(&[1], u14::ZERO);
    let tc_1 = test_tc(&[2], u14::new(1));
    let raw_0 = tc_0.to_vec();
    let raw_1 = tc_1.to_vec();
    let id_0 = CcsdsSchedulePacketId::new(id_of(&tc_0), Some(1));
    let id_1 = CcsdsSchedulePacketId::new(id_of(&tc_1), Some(2));
    scheduler.insert_telecommand(id_0, &raw_0, UnixTime::new(3, 0)).unwrap();
    scheduler.insert_telecommand(id_1, &raw_1, UnixTime::new(3, 0)).unwrap();
    scheduler.insert_telecommand(id_0, &raw_0, UnixTime::new(4, 0)).unwrap();
    assert!(scheduler.delete_by_id(&id_0));
    assert_eq!(scheduler.num_of_entries(), 1);
    assert!(!scheduler.delete_by_id(&id_0));
    scheduler.update_time(UnixTime::new(9, 0));
    let due = scheduler.telecommands_to_release();
    assert_eq!(due.len(), 1);
    assert_eq!(due[0].1[0].0, id_1);
}

#[test]
fn unix_time_constructors() {
    assert!(UnixTime::new_checked(1, 1_000_000_000).is_none());
    let t = UnixTime::new_checked(-2, 999_999_999).unwrap();
    assert_eq!(t.as_secs(), -2);
    assert_eq!(t.subsec_nanos(), 999_999_999);
    assert_eq!(UnixTime::new_only_secs(7), UnixTime::new(7, 0));
}

#[test]
fn insert_packet_fields_keeps_id_checksum_and_bytes() {
    let mut scheduler = CcsdsScheduler::new(
        UnixTime::new(0, 0),
        Limits::new(Some(10), Some(1024)),
        Duration::from_millis(1000),
    );
    let id = CcsdsPacketIdAndPsc { packet_id: 0x1801, psc: 0xc005 };
    let packet = CcsdsPacketFields { raw: vec![1, 2, 3, 4, 5, 6, 7, 8], id_and_psc: id, checksum: Some(0xabcd) };
    scheduler.insert_telecommand_with_reader(&packet, UnixTime::new(2, 0)).unwrap();
    scheduler.update_time(UnixTime::new(3, 0));
    let mut released = Vec::new();
    scheduler.release_telecommands(|tc_id, raw| {
        released.push((*tc_id, raw.to_vec()));
    });
    assert_eq!(
        released,
        vec![(CcsdsSchedulePacketId { base: id, crc16: Some(0xabcd) }, vec![1, 2, 3, 4, 5, 6, 7, 8])]
    );
}

#[test]
fn packet_fields_follow_the_header_bytes() {
    let tc = test_tc(&[9, 8], u14::new(5));
    let raw = tc.to_vec();
    let reader = CcsdsPacketReader::new(&raw, Some(ChecksumType::WithCrc16)).unwrap();
    let fields = CcsdsPacketFields::from_reader(&reader);
    assert_eq!(fields.raw, raw);
    assert_eq!(fields.id_and_psc.packet_id, (((raw[0] & 0x1f) as u16) << 8) | raw[1] as u16);
    assert_eq!(fields.id_and_psc.psc, ((raw[2] as u16) << 8) | raw[3] as u16);
    assert_eq!(fields.id_and_psc.psc, 0xC005);
    let n = raw.len();
    assert_eq!(fields.checksum, Some(((raw[n - 2] as u16) << 8) | raw[n - 1] as u16));
    let plain = CcsdsPacketReader::new(&raw, None).unwrap();
    assert_eq!(CcsdsPacketFields::from_reader(&plain).checksum, None);
}
