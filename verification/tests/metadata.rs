use stateless_validation::bandwidth_request::{
    BandwidthRequest, BandwidthRequestBitmap, BandwidthRequests, BandwidthRequestsV1,
};
use stateless_validation::bandwidth_scheduler;
use stateless_validation::chunk_apply_stats::ReceiptsStats;
use stateless_validation::outgoing_metadata::{
    OutgoingBufferMetadata, OutgoingBufferMetadataV0, OutgoingMetadatas, OutgoingReceiptGroup,
};
use stateless_validation::receipt_groups;
use stateless_validation::receipt_groups::{
    BufferedReceiptGroup, BufferedReceiptGroups, OutgoingBufferMetadataV1, MIN_GROUP_SIZE,
};

#[test]
fn receipts_join_the_last_group_until_it_reaches_the_threshold() {
    let mut metadata = OutgoingBufferMetadataV0::new(100);
    assert!(metadata.receipt_group_sizes().is_empty());
    metadata.on_receipt_pushed(40);
    assert_eq!(metadata.receipt_group_sizes(), vec![40]);
    metadata.on_receipt_pushed(59);
    assert_eq!(metadata.receipt_group_sizes(), vec![99]);
    metadata.on_receipt_pushed(500);
    assert_eq!(metadata.receipt_group_sizes(), vec![599]);
    metadata.on_receipt_pushed(1);
    assert_eq!(metadata.receipt_group_sizes(), vec![599, 1]);
    metadata.on_receipt_pushed(99);
    assert_eq!(metadata.receipt_group_sizes(), vec![599, 100]);
    metadata.on_receipt_pushed(0);
    assert_eq!(metadata.receipt_group_sizes(), vec![599, 100, 0]);
    assert_eq!(metadata.group_size_threshold, 100);
    assert_eq!(metadata.groups[1], OutgoingReceiptGroup { group_size: 100 });
}

#[test]
fn removed_receipts_leave_the_first_group() {
    let mut metadata = OutgoingBufferMetadata::new(10);
    for size in [4u64, 6, 3, 8] {
        metadata.on_receipt_buffered(size);
    }
    assert_eq!(metadata.receipt_group_sizes(), vec![10, 11]);
    metadata.on_receipt_removed(4);
    assert_eq!(metadata.receipt_group_sizes(), vec![6, 11]);
    metadata.on_receipt_removed(6);
    assert_eq!(metadata.receipt_group_sizes(), vec![11]);
    metadata.on_receipt_removed(3);
    metadata.on_receipt_removed(8);
    assert!(metadata.receipt_group_sizes().is_empty());
    metadata.on_receipt_buffered(1);
    assert_eq!(metadata.receipt_group_sizes(), vec![1]);
    assert_eq!(metadata, {
        let mut other = OutgoingBufferMetadata::new(10);
        other.on_receipt_buffered(1);
        other
    });
}

#[test]
fn a_threshold_of_zero_puts_every_receipt_in_its_own_group() {
    let mut metadata = OutgoingBufferMetadataV0::new(0);
    metadata.on_receipt_pushed(5);
    metadata.on_receipt_pushed(6);
    assert_eq!(metadata.receipt_group_sizes(), vec![5, 6]);
}

#[test]
fn buffered_receipts_are_grouped_by_the_minimum_group_size() {
    let mut groups = BufferedReceiptGroups::new(100);
    assert!(groups.group_sizes_iter().is_empty());
    groups.on_receipt_pushed(60);
    groups.on_receipt_pushed(60);
    groups.on_receipt_pushed(10);
    assert_eq!(groups.group_sizes_iter(), vec![120, 10]);
    groups.on_receipt_popped(60);
    assert_eq!(groups.group_sizes_iter(), vec![60, 10]);
    groups.on_receipt_popped(60);
    assert_eq!(groups.group_sizes_iter(), vec![10]);
    groups.on_receipt_popped(10);
    assert!(groups.group_sizes_iter().is_empty());
    groups.on_receipt_popped(10);
    assert!(groups.group_sizes_iter().is_empty());
    assert_eq!(groups.min_group_size, 100);
}

#[test]
fn a_minimum_size_of_zero_leaves_an_empty_group_in_front() {
    let mut groups = BufferedReceiptGroups::new(0);
    groups.on_receipt_pushed(5);
    assert_eq!(groups.group_sizes_iter(), vec![0, 5]);
    groups.on_receipt_pushed(6);
    assert_eq!(groups.group_sizes_iter(), vec![0, 5, 6]);
}

#[test]
fn the_group_sizes_add_up_to_what_is_buffered() {
    let mut metadata = receipt_groups::OutgoingBufferMetadata::new();
    let sizes = [10_000u64, 25_000, 1, 29_999, 30_000, 7, 0, 100_000];
    let mut total = 0;
    for size in sizes {
        metadata.update_on_receipt_pushed(size);
        total += size;
        assert_eq!(metadata.grouped_receipts_sizes().iter().sum::<u64>(), total);
    }
    assert_eq!(metadata.grouped_receipts_sizes(), vec![35_000, 30_000, 30_000, 100_007]);
    for size in sizes {
        metadata.update_on_receipt_popped(size);
        total -= size;
        assert_eq!(metadata.grouped_receipts_sizes().iter().sum::<u64>(), total);
    }
    assert!(metadata.grouped_receipts_sizes().is_empty());
}

#[test]
fn through_a_run_of_pushes_and_pops_the_groups_follow_the_buffer() {
    let mut first_layout = OutgoingBufferMetadataV0::new(10);
    let mut second_layout = BufferedReceiptGroups::new(10);
    let mut buffer: std::collections::VecDeque<u64> = std::collections::VecDeque::new();
    for (step, size) in [4u64, 7, 12, 1, 1, 9, 3, 30, 2].into_iter().enumerate() {
        first_layout.on_receipt_pushed(size);
        second_layout.on_receipt_pushed(size);
        buffer.push_back(size);
        if step % 3 == 2 {
            let oldest = buffer.pop_front().unwrap();
            first_layout.on_receipt_popped(oldest);
            second_layout.on_receipt_popped(oldest);
        }
        for sizes in [first_layout.receipt_group_sizes(), second_layout.group_sizes_iter()] {
            assert_eq!(sizes.iter().sum::<u64>(), buffer.iter().sum::<u64>());
            assert!(sizes.iter().all(|size| *size > 0));
            if sizes.len() > 2 {
                assert!(sizes[1..sizes.len() - 1].iter().all(|size| *size >= 10));
            }
        }
    }
    assert_eq!(buffer, vec![1, 1, 9, 3, 30, 2]);
    assert_eq!(first_layout.receipt_group_sizes(), vec![11, 33, 2]);
    assert_eq!(second_layout.group_sizes_iter(), vec![11, 33, 2]);
}

#[test]
fn new_metadata_has_no_groups() {
    assert_eq!(MIN_GROUP_SIZE, 30_000);
    assert_eq!(BufferedReceiptGroup::new().total_size, 0);
    let v1 = OutgoingBufferMetadataV1::new();
    assert_eq!(v1.groups.min_group_size, 30_000);
    assert!(v1.groups.group_sizes_iter().is_empty());
    assert!(receipt_groups::OutgoingBufferMetadata::new().grouped_receipts_sizes().is_empty());
}

#[test]
fn receipt_statistics_count_and_add_up() {
    let mut stats = ReceiptsStats::default();
    assert_eq!(stats, ReceiptsStats { num: 0, total_size: 0, total_gas: 0 });
    stats.add_receipt(100, 7);
    stats.add_receipt(u64::MAX - 100, u64::MAX);
    assert_eq!(
        stats,
        ReceiptsStats { num: 2, total_size: u64::MAX, total_gas: u64::MAX as u128 + 7 }
    );
}

#[test]
fn by_default_nothing_is_requested() {
    assert_eq!(
        BandwidthRequests::default(),
        BandwidthRequests::V1(BandwidthRequestsV1 { requests: vec![] })
    );
    assert_eq!(BandwidthRequestsV1::default().requests, vec![]);
    let request = BandwidthRequest {
        to_shard: 3,
        requested_values_bitmap: BandwidthRequestBitmap { data: [1, 0, 0, 0, 128] },
    };
    assert_eq!(request.requested_values_bitmap.data[4], 128);
    assert_eq!(
        bandwidth_scheduler::BandwidthRequestsV1::default().requests,
        Vec::<bandwidth_scheduler::BandwidthRequest>::new()
    );
    assert_eq!(
        bandwidth_scheduler::BandwidthRequests::V1(bandwidth_scheduler::BandwidthRequestsV1 {
            requests: vec![bandwidth_scheduler::BandwidthRequest { to_shard: 1 }],
        }),
        bandwidth_scheduler::BandwidthRequests::V1(bandwidth_scheduler::BandwidthRequestsV1 {
            requests: vec![bandwidth_scheduler::BandwidthRequest { to_shard: 1 }],
        })
    );
}

#[test]
fn each_receiving_shard_has_its_own_groups() {
    let mut metadatas = OutgoingMetadatas::new(10);
    assert!(metadatas.metadatas.is_empty());
    metadatas.on_receipt_buffered(3, 4);
    metadatas.on_receipt_buffered(1, 20);
    metadatas.on_receipt_buffered(3, 7);
    metadatas.on_receipt_buffered(3, 1);
    metadatas.on_receipt_buffered(1, 5);
    assert_eq!(metadatas.metadatas.keys().copied().collect::<Vec<u64>>(), vec![1, 3]);
    assert_eq!(metadatas.metadatas[&3].receipt_group_sizes(), vec![11, 1]);
    assert_eq!(metadatas.metadatas[&1].receipt_group_sizes(), vec![20, 5]);
    metadatas.on_receipt_removed(3, 4);
    metadatas.on_receipt_removed(1, 20);
    assert_eq!(metadatas.metadatas.len(), 2);
    assert_eq!(metadatas.metadatas[&3].receipt_group_sizes(), vec![7, 1]);
    assert_eq!(metadatas.metadatas[&1].receipt_group_sizes(), vec![5]);
    assert!(!metadatas.metadatas.contains_key(&2));
    assert_eq!(metadatas.group_size_threshold, 10);
}
