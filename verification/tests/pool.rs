use satrs::pool::{
    PoolError, StaticMemoryPool, StaticPoolAddr, StaticPoolConfig, StoreIdError, SubpoolConfig,
    MAX_BLOCK_SIZE,
};

fn basic_small_pool() -> StaticMemoryPool {
    // 4 buckets of 4 bytes, 2 of 8 bytes and 1 of 16 bytes
    let pool_cfg =
        StaticPoolConfig::new_from_subpool_cfg_tuples(vec![(4, 4), (2, 8), (1, 16)], false);
    StaticMemoryPool::new(pool_cfg)
}

#[test]
fn test_cfg() {
    // Values where number of buckets is 0 or size is too large should be removed
    let mut pool_cfg = StaticPoolConfig::new_from_subpool_cfg_tuples(
        vec![(0, 0), (1, 0), (2, MAX_BLOCK_SIZE)],
        false,
    );
    pool_cfg.sanitize();
    assert_eq!(*pool_cfg.subpool_cfg(), vec![SubpoolConfig::new(1, 0)]);

    // Entries should be ordered according to bucket size
    pool_cfg =
        StaticPoolConfig::new_from_subpool_cfg_tuples(vec![(16, 6), (32, 3), (8, 12)], false);
    pool_cfg.sanitize();
    assert_eq!(
        *pool_cfg.subpool_cfg(),
        vec![
            SubpoolConfig::new(32, 3),
            SubpoolConfig::new(16, 6),
            SubpoolConfig::new(8, 12)
        ]
    );

    // Unstable sort is used, so order of entries with same block length should not matter
    pool_cfg = StaticPoolConfig::new_from_subpool_cfg_tuples(
        vec![(12, 12), (14, 16), (10, 12)],
        false,
    );
    pool_cfg.sanitize();
    assert!(
        *pool_cfg.subpool_cfg()
            == vec![
                SubpoolConfig::new(12, 12),
                SubpoolConfig::new(10, 12),
                SubpoolConfig::new(14, 16)
            ]
            || *pool_cfg.subpool_cfg()
                == vec![
                    SubpoolConfig::new(10, 12),
                    SubpoolConfig::new(12, 12),
                    SubpoolConfig::new(14, 16)
                ]
    );
}

fn generic_test_add_and_read<const BUF_SIZE: usize>(pool_provider: &mut StaticMemoryPool) {
    let mut test_buf: [u8; BUF_SIZE] = [0; BUF_SIZE];
    for (i, val) in test_buf.iter_mut().enumerate() {
        *val = i as u8;
    }
    let mut other_buf: [u8; BUF_SIZE] = [0; BUF_SIZE];
    let addr = pool_provider.add(&test_buf).expect("adding data failed");
    // Read back data and verify correctness
    let res = pool_provider.read(&addr, &mut other_buf);
    assert!(res.is_ok());
    let read_len = res.unwrap();
    assert_eq!(read_len, BUF_SIZE);
    for (i, &val) in other_buf.iter().enumerate() {
        assert_eq!(val, i as u8);
    }
}

fn generic_test_add_smaller_than_full_slot(pool_provider: &mut StaticMemoryPool) {
    let test_buf: [u8; 12] = [0; 12];
    let addr = pool_provider.add(&test_buf).expect("adding data failed");
    let res = pool_provider
        .read(&addr, &mut [0; 12])
        .expect("Read back failed");
    assert_eq!(res, 12);
}

fn generic_test_delete(pool_provider: &mut StaticMemoryPool) {
    let test_buf: [u8; 16] = [0; 16];
    let addr = pool_provider.add(&test_buf).expect("Adding data failed");
    // Delete the data
    let res = pool_provider.delete(addr);
    assert!(res.is_ok());
    let mut writer = |buf: &mut [u8]| {
        assert_eq!(buf.len(), 12);
    };
    // Verify that the slot is free by trying to get a reference to it
    let res = pool_provider.free_element(12, &mut writer);
    assert!(res.is_ok());
    let addr = res.unwrap();
    assert_eq!(
        addr,
        u64::from(StaticPoolAddr {
            pool_idx: 2,
            packet_idx: 0
        })
    );
}

fn generic_test_modify(pool_provider: &mut StaticMemoryPool) {
    let mut test_buf: [u8; 16] = [0; 16];
    for (i, val) in test_buf.iter_mut().enumerate() {
        *val = i as u8;
    }
    let addr = pool_provider.add(&test_buf).expect("Adding data failed");

    {
        // Verify that the slot is free by trying to get a reference to it
        pool_provider
            .modify(&addr, &mut |buf: &mut [u8]| {
                buf[0] = 0;
                buf[1] = 0x42;
            })
            .expect("Modifying data failed");
    }

    pool_provider
        .read(&addr, &mut test_buf)
        .expect("Reading back data failed");
    assert_eq!(test_buf[0], 0);
    assert_eq!(test_buf[1], 0x42);
    assert_eq!(test_buf[2], 2);
    assert_eq!(test_buf[3], 3);
}

fn generic_test_consecutive_reservation(pool_provider: &mut StaticMemoryPool) {
    // Reserve two smaller blocks consecutively and verify that the third reservation fails
    let res = pool_provider.free_element(8, |_| {});
    assert!(res.is_ok());
    let addr0 = res.unwrap();
    let res = pool_provider.free_element(8, |_| {});
    assert!(res.is_ok());
    let addr1 = res.unwrap();
    let res = pool_provider.free_element(8, |_| {});
    assert!(res.is_err());
    let err = res.unwrap_err();
    assert_eq!(err, PoolError::StoreFull(1));

    // Verify that the two deletions are successful
    assert!(pool_provider.delete(addr0).is_ok());
    assert!(pool_provider.delete(addr1).is_ok());
}

fn generic_test_read_does_not_exist(pool_provider: &mut StaticMemoryPool) {
    // Try to access data which does not exist
    let res = pool_provider.read(
        &StaticPoolAddr {
            packet_idx: 0,
            pool_idx: 0,
        }
        .into(),
        &mut [],
    );
    assert!(res.is_err());
    assert!(matches!(
        res.unwrap_err(),
        PoolError::DataDoesNotExist { .. }
    ));
}

fn generic_test_store_full(pool_provider: &mut StaticMemoryPool) {
    let test_buf: [u8; 16] = [0; 16];
    assert!(pool_provider.add(&test_buf).is_ok());
    // The subpool is now full and the call should fail accordingly
    let res = pool_provider.add(&test_buf);
    assert!(res.is_err());
    let err = res.unwrap_err();
    assert!(matches!(err, PoolError::StoreFull { .. }));
    if let PoolError::StoreFull(subpool) = err {
        assert_eq!(subpool, 2);
    }
}

fn generic_test_invalid_pool_idx(pool_provider: &mut StaticMemoryPool) {
    let addr = StaticPoolAddr {
        pool_idx: 3,
        packet_idx: 0,
    }
    .into();
    let res = pool_provider.read(&addr, &mut []);
    assert!(res.is_err());
    let err = res.unwrap_err();
    assert!(matches!(
        err,
        PoolError::InvalidStoreId(StoreIdError::InvalidSubpool(3), Some(_))
    ));
}

fn generic_test_invalid_packet_idx(pool_provider: &mut StaticMemoryPool) {
    let addr = StaticPoolAddr {
        pool_idx: 2,
        packet_idx: 1,
    };
    assert_eq!(addr.raw(), 0x00020001);
    let res = pool_provider.read(&addr.into(), &mut []);
    assert!(res.is_err());
    let err = res.unwrap_err();
    assert!(matches!(
        err,
        PoolError::InvalidStoreId(StoreIdError::InvalidPacketIdx(1), Some(_))
    ));
}

fn generic_test_add_too_large(pool_provider: &mut StaticMemoryPool) {
    let data_too_large = [0; 20];
    let res = pool_provider.add(&data_too_large);
    assert!(res.is_err());
    let err = res.unwrap_err();
    assert_eq!(err, PoolError::DataTooLarge(20));
}

fn generic_test_data_too_large_1(pool_provider: &mut StaticMemoryPool) {
    let res = pool_provider.free_element(MAX_BLOCK_SIZE + 1, |_| {});
    assert!(res.is_err());
    assert_eq!(
        res.unwrap_err(),
        PoolError::DataTooLarge(MAX_BLOCK_SIZE + 1)
    );
}

fn generic_test_free_element_too_large(pool_provider: &mut StaticMemoryPool) {
    // Try to request a slot which is too large
    let res = pool_provider.free_element(20, |_| {});
    assert!(res.is_err());
    assert_eq!(res.unwrap_err(), PoolError::DataTooLarge(20));
}

fn generic_modify_pool_index_above_0(pool_provider: &mut StaticMemoryPool) {
    let test_buf_0: [u8; 4] = [1; 4];
    let test_buf_1: [u8; 4] = [2; 4];
    let test_buf_2: [u8; 4] = [3; 4];
    let test_buf_3: [u8; 4] = [4; 4];
    let addr0 = pool_provider.add(&test_buf_0).expect("Adding data failed");
    let addr1 = pool_provider.add(&test_buf_1).expect("Adding data failed");
    let addr2 = pool_provider.add(&test_buf_2).expect("Adding data failed");
    let addr3 = pool_provider.add(&test_buf_3).expect("Adding data failed");
    pool_provider
        .modify(&addr0, |buf| {
            assert_eq!(buf, test_buf_0);
        })
        .expect("Modifying data failed");
    pool_provider
        .modify(&addr1, |buf| {
            assert_eq!(buf, test_buf_1);
        })
        .expect("Modifying data failed");
    pool_provider
        .modify(&addr2, |buf| {
            assert_eq!(buf, test_buf_2);
        })
        .expect("Modifying data failed");
    pool_provider
        .modify(&addr3, |buf| {
            assert_eq!(buf, test_buf_3);
        })
        .expect("Modifying data failed");
}

fn generic_test_spills_to_higher_subpools(pool_provider: &mut StaticMemoryPool) {
    pool_provider.free_element(8, |_| {}).unwrap();
    pool_provider.free_element(8, |_| {}).unwrap();
    let mut in_larger_subpool_now = pool_provider.free_element(8, |_| {});
    assert!(in_larger_subpool_now.is_ok());
    let generic_addr = in_larger_subpool_now.unwrap();
    let pool_addr = StaticPoolAddr::from(generic_addr);
    assert_eq!(pool_addr.pool_idx, 1);
    assert_eq!(pool_addr.packet_idx, 0);
    assert!(pool_provider.has_element_at(&generic_addr).unwrap());
    in_larger_subpool_now = pool_provider.free_element(8, |_| {});
    assert!(in_larger_subpool_now.is_ok());
    let generic_addr = in_larger_subpool_now.unwrap();
    let pool_addr = StaticPoolAddr::from(generic_addr);
    assert_eq!(pool_addr.pool_idx, 1);
    assert_eq!(pool_addr.packet_idx, 1);
    assert!(pool_provider.has_element_at(&generic_addr).unwrap());
}

fn generic_test_spillage_fails_as_well(pool_provider: &mut StaticMemoryPool) {
    pool_provider.free_element(8, |_| {}).unwrap();
    pool_provider.free_element(8, |_| {}).unwrap();
    let should_fail = pool_provider.free_element(8, |_| {});
    assert!(should_fail.is_err());
    if let Err(err) = should_fail {
        assert_eq!(err, PoolError::StoreFull(1));
    } else {
        panic!("unexpected store address");
    }
}

fn generic_test_spillage_works_across_multiple_subpools(pool_provider: &mut StaticMemoryPool) {
    pool_provider.free_element(8, |_| {}).unwrap();
    pool_provider.free_element(12, |_| {}).unwrap();
    let in_larger_subpool_now = pool_provider.free_element(8, |_| {});
    assert!(in_larger_subpool_now.is_ok());
    let generic_addr = in_larger_subpool_now.unwrap();
    let pool_addr = StaticPoolAddr::from(generic_addr);
    assert_eq!(pool_addr.pool_idx, 2);
    assert_eq!(pool_addr.packet_idx, 0);
    assert!(pool_provider.has_element_at(&generic_addr).unwrap());
}

fn generic_test_spillage_fails_across_multiple_subpools(pool_provider: &mut StaticMemoryPool) {
    pool_provider.free_element(8, |_| {}).unwrap();
    pool_provider.free_element(12, |_| {}).unwrap();
    pool_provider.free_element(16, |_| {}).unwrap();
    let should_fail = pool_provider.free_element(8, |_| {});
    assert!(should_fail.is_err());
    if let Err(err) = should_fail {
        assert_eq!(err, PoolError::StoreFull(2));
    } else {
        panic!("unexpected store address");
    }
}

#[test]
fn test_add_and_read() {
    let mut local_pool = basic_small_pool();
    generic_test_add_and_read::<16>(&mut local_pool);
}

#[test]
fn pool_test_add_smaller_than_full_slot() {
    let mut local_pool = basic_small_pool();
    generic_test_add_smaller_than_full_slot(&mut local_pool);
}

#[test]
fn pool_test_delete() {
    let mut local_pool = basic_small_pool();
    generic_test_delete(&mut local_pool);
}

#[test]
fn pool_test_modify() {
    let mut local_pool = basic_small_pool();
    generic_test_modify(&mut local_pool);
}

#[test]
fn pool_test_consecutive_reservation() {
    let mut local_pool = basic_small_pool();
    generic_test_consecutive_reservation(&mut local_pool);
}

#[test]
fn pool_test_read_does_not_exist() {
    let mut local_pool = basic_small_pool();
    generic_test_read_does_not_exist(&mut local_pool);
}

#[test]
fn pool_test_store_full() {
    let mut local_pool = basic_small_pool();
    generic_test_store_full(&mut local_pool);
}

#[test]
fn pool_test_invalid_pool_idx() {
    let mut local_pool = basic_small_pool();
    generic_test_invalid_pool_idx(&mut local_pool);
}

#[test]
fn pool_test_invalid_packet_idx() {
    let mut local_pool = basic_small_pool();
    generic_test_invalid_packet_idx(&mut local_pool);
}

#[test]
fn pool_test_add_too_large() {
    let mut local_pool = basic_small_pool();
    generic_test_add_too_large(&mut local_pool);
}

#[test]
fn pool_test_data_too_large_1() {
    let mut local_pool = basic_small_pool();
    generic_test_data_too_large_1(&mut local_pool);
}

#[test]
fn pool_test_free_element_too_large() {
    let mut local_pool = basic_small_pool();
    generic_test_free_element_too_large(&mut local_pool);
}

#[test]
fn pool_modify_pool_index_above_0() {
    let mut local_pool = basic_small_pool();
    generic_modify_pool_index_above_0(&mut local_pool);
}

#[test]
fn pool_test_spills_to_higher_subpools() {
    let subpool_config_vec = vec![SubpoolConfig::new(2, 8), SubpoolConfig::new(2, 16)];
    let pool_cfg = StaticPoolConfig::new(subpool_config_vec, true);
    let mut local_pool = StaticMemoryPool::new(pool_cfg);
    generic_test_spills_to_higher_subpools(&mut local_pool);
}

#[test]
fn pool_test_spillage_fails_as_well() {
    let pool_cfg = StaticPoolConfig::new_from_subpool_cfg_tuples(vec![(1, 8), (1, 16)], true);
    let mut local_pool = StaticMemoryPool::new(pool_cfg);
    generic_test_spillage_fails_as_well(&mut local_pool);
}

#[test]
fn pool_test_spillage_works_across_multiple_subpools() {
    let pool_cfg =
        StaticPoolConfig::new_from_subpool_cfg_tuples(vec![(1, 8), (1, 12), (1, 16)], true);
    let mut local_pool = StaticMemoryPool::new(pool_cfg);
    generic_test_spillage_works_across_multiple_subpools(&mut local_pool);
}

#[test]
fn pool_test_spillage_fails_across_multiple_subpools() {
    let pool_cfg =
        StaticPoolConfig::new_from_subpool_cfg_tuples(vec![(1, 8), (1, 12), (1, 16)], true);
    let mut local_pool = StaticMemoryPool::new(pool_cfg);
    generic_test_spillage_fails_across_multiple_subpools(&mut local_pool);
}

// Additional checks of the library's laws on concrete values.

#[test]
fn pool_delete_after_add_frees_the_slot() {
    let mut pool = basic_small_pool();
    let addr = pool.add(&[1, 2, 3]).unwrap();
    assert_eq!(pool.len_of_data(&addr), Ok(3));
    pool.delete(addr).unwrap();
    assert_eq!(pool.has_element_at(&addr), Ok(false));
    assert_eq!(pool.len_of_data(&addr), Ok(0));
    assert_eq!(pool.delete(addr), Err(PoolError::DataDoesNotExist(addr)));
}

#[test]
fn pool_read_as_vec_gives_back_added_data() {
    let mut pool = basic_small_pool();
    let addr = pool.add(&[9, 8, 7, 6, 5]).unwrap();
    assert_eq!(StaticPoolAddr::from(addr), StaticPoolAddr { pool_idx: 1, packet_idx: 0 });
    assert_eq!(pool.read_as_vec(&addr).unwrap(), vec![9, 8, 7, 6, 5]);
}

#[test]
fn pool_read_into_small_buffer_fails() {
    let mut pool = basic_small_pool();
    let addr = pool.add(&[1, 2, 3, 4]).unwrap();
    let mut buf = [0u8; 2];
    assert_eq!(
        pool.read(&addr, &mut buf),
        Err(PoolError::ByteConversionError(
            satrs::bytes::ByteConversionError::ToSliceTooSmall { found: 2, expected: 4 }
        ))
    );
}

#[test]
fn pool_addr_decoding_keeps_low_bytes() {
    let addr = StaticPoolAddr { pool_idx: 0x0102, packet_idx: 0x0304 };
    assert_eq!(u64::from(addr), 0x0102_0304);
    assert_eq!(StaticPoolAddr::from(0x0102_0304u64), StaticPoolAddr { pool_idx: 0x02, packet_idx: 0x04 });
}
