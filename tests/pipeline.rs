use packet_recorder::capture_file::CaptureFile;
use packet_recorder::flusher::{capture_should_stop, stats_line_due, Flusher};
use packet_recorder::queue::{queue_capacity, CaptureQueues};
use packet_recorder::record::PacketRecord;
use pcap_file::pcap::PcapReader;

const MAX_PACKET: u32 = 65535;

fn record(ts_sec: u32, ts_nsec: u32, fill: u8, len: usize) -> PacketRecord {
    PacketRecord::from_delivery(ts_sec, ts_nsec, vec![fill; len], MAX_PACKET).unwrap()
}

/// Parses a whole capture file with pcap-file's own reader.
fn read_back(bytes: &[u8]) -> Vec<(u32, u32, u32, u32, Vec<u8>)> {
    let reader = PcapReader::new(bytes).unwrap();
    assert_eq!(reader.header.magic_number, 0xa1b23c4d);
    assert_eq!(reader.header.snaplen, MAX_PACKET);
    reader
        .map(|p| {
            let p = p.unwrap();
            (
                p.header.ts_sec,
                p.header.ts_nsec,
                p.header.incl_len,
                p.header.orig_len,
                p.data.into_owned(),
            )
        })
        .collect()
}

#[test]
fn queue_capacity_divides_memory_by_packet_size() {
    assert_eq!(queue_capacity(1000, 100), Some(10));
    assert_eq!(queue_capacity(1099, 100), Some(10));
    assert_eq!(queue_capacity(99, 100), None);
    assert_eq!(queue_capacity(1000, 0), None);
    assert_eq!(queue_capacity(u64::MAX, 1), None);
    assert_eq!(queue_capacity(1 << 40, 1), Some(1 << 40));
}

#[test]
fn queue_refuses_push_when_full_and_pops_oldest_first() {
    let mut q = CaptureQueues::new(2);
    assert!(q.push_packet(record(1, 0, 1, 10)));
    assert!(q.push_packet(record(2, 0, 2, 10)));
    assert!(!q.push_packet(record(3, 0, 3, 10)));
    assert_eq!(q.pop_packet().unwrap().ts_sec(), 1);
    assert_eq!(q.pop_packet().unwrap().ts_sec(), 2);
    assert!(q.pop_packet().is_none());
    assert!(q.push_missed(4));
    assert!(q.push_missed(5));
    assert!(!q.push_missed(6));
    assert_eq!(q.pop_missed(), Some(4));
    assert_eq!(q.pop_missed(), Some(5));
    assert_eq!(q.pop_missed(), None);
}

#[test]
fn record_construction_refuses_bad_lengths() {
    assert!(PacketRecord::new(0, 0, vec![0; 10], 9, 100).is_none());
    assert!(PacketRecord::new(0, 0, vec![0; 10], 101, 100).is_none());
    let r = PacketRecord::new(7, 8, vec![1; 10], 20, 100).unwrap();
    assert_eq!((r.ts_sec(), r.ts_nsec(), r.orig_len(), r.captured_len()), (7, 8, 20, 10));
    assert!(PacketRecord::from_delivery(0, 0, vec![0; 101], 100).is_none());
    let d = PacketRecord::from_delivery(1, 2, vec![3; 100], 100).unwrap();
    assert_eq!((d.orig_len(), d.captured_len()), (100, 100));
    assert_eq!(d.data(), &vec![3u8; 100]);
}

#[test]
fn capture_file_header_bytes_are_exact() {
    let mut f = CaptureFile::open(MAX_PACKET);
    let header = f.take_bytes();
    assert_eq!(
        header,
        vec![
            0xa1, 0xb2, 0x3c, 0x4d, 0, 2, 0, 4, 0, 0, 0, 0, 0, 0, 0, 0, 0, 0, 0xff, 0xff, 0, 0, 0,
            1
        ]
    );
    assert!(f.take_bytes().is_empty());
}

#[test]
fn capture_file_record_bytes_are_exact() {
    let mut f = CaptureFile::open(MAX_PACKET);
    let _ = f.take_bytes();
    let r = PacketRecord::new(0x01020304, 1500, vec![9, 8, 7], 5, MAX_PACKET).unwrap();
    f.write(&r);
    assert_eq!(
        f.take_bytes(),
        vec![1, 2, 3, 4, 0, 0, 0x05, 0xdc, 0, 0, 0, 3, 0, 0, 0, 5, 9, 8, 7]
    );
}

#[test]
fn records_read_back_byte_for_byte() {
    let mut flusher = Flusher::new(1 << 30, MAX_PACKET);
    let mut file = flusher.take_output();
    let mut sent = Vec::new();
    for i in 0..20u32 {
        let data: Vec<u8> = (0..(i * 7 + 1)).map(|b| (b * 31 + i) as u8).collect();
        let orig = data.len() as u32 + i;
        let r = PacketRecord::new(1_600_000_000 + i, i * 1_000_123, data.clone(), orig, MAX_PACKET)
            .unwrap();
        sent.push((1_600_000_000 + i, i * 1_000_123, data.len() as u32, orig, data));
        assert!(flusher.on_packet(r).is_none());
        file.extend(flusher.take_output());
    }
    assert_eq!(read_back(&file), sent);
}

#[test]
fn exact_threshold_rotates_once_and_new_window_is_empty() {
    let mut flusher = Flusher::new(300, MAX_PACKET);
    assert!(flusher.on_packet(record(1, 0, 1, 100)).is_none());
    assert!(flusher.on_packet(record(2, 0, 2, 150)).is_none());
    let rot = flusher.on_packet(record(3, 0, 3, 50)).expect("rotation at the threshold");
    assert_eq!(rot.report.window_captured, 3);
    assert_eq!(flusher.stats().current_capture_count_bytes, 0);
    assert_eq!(flusher.stats().current_capture_count, 0);
    assert_eq!(flusher.stats().total_captured_counter, 3);
    assert!(flusher.take_output().len() == 24);
    assert!(flusher.on_packet(record(4, 0, 4, 10)).is_none());
}

#[test]
fn below_threshold_never_rotates() {
    let mut flusher = Flusher::new(1000, MAX_PACKET);
    for i in 0..9 {
        assert!(flusher.on_packet(record(i, 0, 0, 111)).is_none());
    }
    assert_eq!(flusher.stats().current_capture_count_bytes, 999);
}

#[test]
fn drop_reports_add_up_in_window_and_total() {
    let mut flusher = Flusher::new(500, MAX_PACKET);
    flusher.on_missed(3);
    flusher.on_missed(7);
    let s = flusher.stats();
    assert_eq!(s.total_missed_counter, 10);
    assert_eq!(s.current_missed_count, 10);
    assert!(flusher.on_packet(record(1, 0, 0, 100)).is_none());
    assert_eq!(flusher.stats().current_missed_count, 10);
    let rot = flusher.on_packet(record(2, 0, 0, 400)).unwrap();
    assert_eq!(rot.report.window_missed, 10);
    assert_eq!(flusher.stats().current_missed_count, 0);
    assert_eq!(flusher.stats().total_missed_counter, 10);
}

#[test]
fn drop_reports_queued_before_drain_add_up() {
    let mut q = CaptureQueues::new(4);
    assert!(q.push_missed(3));
    assert!(q.push_missed(7));
    let mut flusher = Flusher::new(500, MAX_PACKET);
    let files = flusher.drain(&mut q);
    assert!(files.is_empty());
    assert_eq!(flusher.stats().total_missed_counter, 10);
    assert_eq!(flusher.stats().current_missed_count, 10);
    assert_eq!(flusher.report().window_missed, 10);
}

#[test]
fn queue_of_ten_with_fifteen_records_rotates_after_fifth() {
    let mut q = CaptureQueues::new(10);
    let mut flusher = Flusher::new(500, MAX_PACKET);
    let mut first_file = flusher.take_output();
    for i in 0..5u32 {
        assert!(q.push_packet(record(i, 0, i as u8, 100)));
    }
    let mut rotations = 0;
    for i in 0..5u32 {
        let r = q.pop_packet().unwrap();
        match flusher.on_packet(r) {
            None => {
                assert!(i < 4);
                first_file.extend(flusher.take_output());
            }
            Some(rot) => {
                assert_eq!(i, 4);
                rotations += 1;
                first_file.extend(rot.closing_bytes);
            }
        }
    }
    assert_eq!(rotations, 1);
    assert_eq!(read_back(&first_file).len(), 5);
    for i in 5..15u32 {
        assert!(q.push_packet(record(i, 0, i as u8, 100)));
    }
    assert!(!q.push_packet(record(99, 0, 0, 100)));
    let mut second_file = flusher.take_output();
    let files = flusher.drain(&mut q);
    assert!(q.pop_packet().is_none());
    assert_eq!(flusher.stats().total_captured_counter, 15);
    assert_eq!(flusher.stats().total_captured_counter_bytes, 1500);
    assert_eq!(files.len(), 2);
    let mut drained_records = 0;
    for (i, f) in files.into_iter().enumerate() {
        let file = if i == 0 {
            second_file.extend(f.closing_bytes);
            second_file.clone()
        } else {
            f.closing_bytes
        };
        drained_records += read_back(&file).len();
    }
    drained_records += read_back(&flusher.take_output()).len();
    assert_eq!(drained_records, 10);
}

#[test]
fn drain_writes_every_queued_record_and_empties_queues() {
    let n = 37u32;
    let mut q = CaptureQueues::new(64);
    for i in 0..n {
        assert!(q.push_packet(record(i, i, i as u8, 40)));
    }
    assert!(q.push_missed(2));
    let mut flusher = Flusher::new(300, MAX_PACKET);
    let before = flusher.stats();
    let mut first = flusher.take_output();
    let mut all = Vec::new();
    for (i, f) in flusher.drain(&mut q).into_iter().enumerate() {
        if i == 0 {
            first.extend(f.closing_bytes);
            all.extend(read_back(&first));
        } else {
            all.extend(read_back(&f.closing_bytes));
        }
    }
    all.extend(read_back(&flusher.take_output()));
    assert_eq!(all.len(), n as usize);
    for (i, rec) in all.iter().enumerate() {
        assert_eq!(rec.0, i as u32);
        assert_eq!(rec.4, vec![i as u8; 40]);
    }
    assert!(q.pop_packet().is_none());
    assert!(q.pop_missed().is_none());
    let after = flusher.stats();
    assert!(after.total_captured_counter >= before.total_captured_counter);
    assert_eq!(after.total_captured_counter, n as u64);
    assert_eq!(after.total_missed_counter, 2);
}

#[test]
fn only_successful_pushes_are_captured() {
    let mut q = CaptureQueues::new(5);
    let mut accepted = 0u64;
    for i in 0..9u32 {
        if q.push_packet(record(i, 0, 0, 10)) {
            accepted += 1;
        }
    }
    assert_eq!(accepted, 5);
    let mut flusher = Flusher::new(1 << 20, MAX_PACKET);
    let _ = flusher.drain(&mut q);
    assert_eq!(flusher.stats().total_captured_counter, accepted);
    assert_eq!(flusher.stats().total_captured_counter_bytes, 50);
}

#[test]
fn drain_on_empty_queues_changes_nothing() {
    let mut q = CaptureQueues::new(3);
    let mut flusher = Flusher::new(10, MAX_PACKET);
    assert!(flusher.drain(&mut q).is_empty());
    assert_eq!(flusher.stats().total_captured_counter, 0);
    assert_eq!(flusher.take_output().len(), 24);
}

#[test]
fn loop_decisions() {
    assert!(capture_should_stop(true, 0, 100));
    assert!(capture_should_stop(false, 100, 100));
    assert!(!capture_should_stop(false, 99, 100));
    assert!(stats_line_due(1000));
    assert!(!stats_line_due(999));
}

#[test]
fn write_all_appends_records_in_order() {
    let mut f = CaptureFile::open(MAX_PACKET);
    let records = vec![record(1, 2001, 5, 3), record(2, 4000, 6, 1)];
    f.write_all(&records);
    let bytes = f.take_bytes();
    assert_eq!(
        read_back(&bytes),
        vec![(1, 2001, 3, 3, vec![5, 5, 5]), (2, 4000, 1, 1, vec![6])]
    );
}

#[test]
fn drain_closes_files_by_the_threshold_and_reports_each() {
    let mut q = CaptureQueues::new(16);
    for (i, len) in [100usize, 200, 300, 50, 450, 10].iter().enumerate() {
        assert!(q.push_packet(record(i as u32, 0, i as u8, *len)));
    }
    assert!(q.push_missed(4));
    let mut flusher = Flusher::new(600, MAX_PACKET);
    let files = flusher.drain(&mut q);
    // 100+200+300 reaches 600; 50+450 = 500 stays below until 10 more.
    assert_eq!(files.len(), 1);
    assert_eq!(files[0].report.window_captured, 3);
    assert_eq!(files[0].report.window_missed, 4);
    assert_eq!(files[0].report.total_captured, 3);
    assert_eq!(read_back(&files[0].closing_bytes).len(), 3);
    let s = flusher.stats();
    assert_eq!(s.current_capture_count, 3);
    assert_eq!(s.current_capture_count_bytes, 510);
    assert_eq!(s.current_missed_count, 0);
    assert_eq!(s.total_captured_counter_bytes, 1110);
    assert_eq!(read_back(&flusher.take_output()).len(), 3);
}
