use netcap::clock::Timestamp;
use netcap::database::{
    capture_row, capture_row_named, capture_rows, database_listing, has_sqlite_extension,
    is_database_entry, is_sqlite_magic, table_definitions, CaptureBuffer, DatabaseInfoError,
    WriterAction, WriterEvent, FLUSH_THRESHOLD,
};
use netcap::network::{IpAddress, IpCapture};

fn capture(protocol: u8, n: u8) -> IpCapture {
    IpCapture {
        timestamp: Timestamp { secs: 2, nanos: 5 },
        source: IpAddress::V4([10, 0, 0, n]),
        dest: IpAddress::V6([0xfe, 0x80, 0, 0, 0, 0, 0, 0, 0, 0, 0, 0, 0, 0, 0, n]),
        ethernet_frame_type: 0x0800,
        transport_protocol: protocol,
        length: 40,
        payload: vec![n],
    }
}

const MAGIC: [u8; 16] = *b"SQLite format 3\0";

#[test]
fn sqlite_extensions() {
    assert!(has_sqlite_extension("main.db"));
    assert!(has_sqlite_extension("capture.sqlite"));
    assert!(has_sqlite_extension("capture.sqlite3"));
    assert!(has_sqlite_extension("a.b.db"));
    assert!(has_sqlite_extension("..db"));
    assert!(!has_sqlite_extension(".db"));
    assert!(!has_sqlite_extension("db"));
    assert!(!has_sqlite_extension("main.DB"));
    assert!(!has_sqlite_extension("main.db.bak"));
    assert!(!has_sqlite_extension("main."));
    assert!(!has_sqlite_extension(""));
}

#[test]
fn sqlite_extensions_of_paths() {
    assert!(has_sqlite_extension("./data/main.db"));
    assert!(has_sqlite_extension("/var/lib/x.sqlite3"));
    assert!(has_sqlite_extension("data//main.db//"));
    assert!(has_sqlite_extension("data/main.db/."));
    assert!(!has_sqlite_extension("data.db/notes"));
    assert!(!has_sqlite_extension("data/.db"));
    assert!(!has_sqlite_extension("x.db/.."));
    assert!(!has_sqlite_extension("/"));
    assert!(!has_sqlite_extension("."));
    assert!(!has_sqlite_extension(".."));
    // the directory never changes the answer
    for dir in ["", "/", "a", "a/", "./b.db", "x.sqlite/"] {
        for name in ["m.db", "m.txt", ".db", "m.sqlite3"] {
            let joined = std::path::Path::new(dir).join(name);
            assert_eq!(
                has_sqlite_extension(joined.to_str().unwrap()),
                has_sqlite_extension(name)
            );
        }
    }
}

#[test]
fn sqlite_magic() {
    assert!(is_sqlite_magic(Some(MAGIC)));
    let mut other = MAGIC;
    other[15] = b'!';
    assert!(!is_sqlite_magic(Some(other)));
    assert!(!is_sqlite_magic(None));
}

#[test]
fn database_entries() {
    assert!(is_database_entry(true, "./dir/x.db", None));
    assert!(is_database_entry(true, "./dir/notes.txt", Some(MAGIC)));
    assert!(!is_database_entry(true, "./dir/notes.txt", None));
    assert!(!is_database_entry(false, "./dir/x.db", Some(MAGIC)));
}

#[test]
fn listing_numbers_from_one() {
    let paths = vec![Some("./a.db".to_string()), None, Some("./b.sqlite".to_string())];
    let listed = database_listing(&paths, "?");
    assert_eq!(listed.len(), 3);
    assert_eq!(listed[0].number, 1);
    assert_eq!(listed[0].path, "./a.db");
    assert_eq!(listed[1].number, 2);
    assert_eq!(listed[1].path, "?");
    assert_eq!(listed[2].number, 3);
    assert_eq!(listed[2].path, "./b.sqlite");
    assert!(database_listing(&Vec::new(), "?").is_empty());
}

#[test]
fn schema_text_of_first_table() {
    assert_eq!(table_definitions(&Vec::new()).err(), Some(DatabaseInfoError::NothingInDatabase));
    let rows = vec![vec!["packet_capture".to_string(), "CREATE TABLE packet_capture (x)".to_string()]];
    assert_eq!(table_definitions(&rows).unwrap(), vec!["CREATE TABLE packet_capture (x)".to_string()]);
}

#[test]
fn rows_carry_protocol_names() {
    let row = capture_row(&capture(6, 1));
    assert_eq!(row.protocol, "Tcp");
    assert_eq!(capture_row(&capture(17, 1)).protocol, "Udp");
    assert_eq!(capture_row(&capture(1, 1)).protocol, "Icmp");
    assert_eq!(row.timestamp, 2_000_000_005);
    assert_eq!(row.src_ip, vec![0, 0, 0, 0, 0, 0, 0, 0, 0, 0, 0xff, 0xff, 10, 0, 0, 1]);
    assert_eq!(row.dst_ip, vec![0xfe, 0x80, 0, 0, 0, 0, 0, 0, 0, 0, 0, 0, 0, 0, 0, 1]);
    assert_eq!(row.length, 40);
    let named = capture_row_named(&capture(6, 1), "custom".to_string());
    assert_eq!(named.protocol, "custom");
}

#[test]
fn rows_follow_buffer_order() {
    let rows = capture_rows(&vec![capture(6, 1), capture(17, 2)]);
    assert_eq!(rows.len(), 2);
    assert_eq!(rows[0].src_ip[15], 1);
    assert_eq!(rows[1].src_ip[15], 2);
    assert_eq!(rows[1].protocol, "Udp");
}

#[test]
fn timestamp_nanos() {
    assert_eq!(Timestamp { secs: 1, nanos: 5 }.nanos_since_epoch(), Some(1_000_000_005));
    assert_eq!(Timestamp { secs: -1, nanos: 999_999_999 }.nanos_since_epoch(), Some(-1));
    assert_eq!(
        Timestamp { secs: 9_223_372_036, nanos: 854_775_807 }.nanos_since_epoch(),
        Some(i64::MAX)
    );
    assert_eq!(Timestamp { secs: 9_223_372_036, nanos: 854_775_808 }.nanos_since_epoch(), None);
    assert_eq!(
        Timestamp { secs: -9_223_372_037, nanos: 145_224_192 }.nanos_since_epoch(),
        Some(i64::MIN)
    );
    assert_eq!(Timestamp { secs: -9_223_372_037, nanos: 145_224_191 }.nanos_since_epoch(), None);
    let row = capture_row(&IpCapture { timestamp: Timestamp { secs: i64::MAX, nanos: 0 }, ..capture(6, 1) });
    assert_eq!(row.timestamp, 0);
}

#[test]
fn writer_flushes_at_threshold_and_on_tick() {
    let mut buffer = CaptureBuffer::new();
    for i in 0..(FLUSH_THRESHOLD - 1) {
        assert_eq!(buffer.step(WriterEvent::Packet(capture(6, i as u8))), WriterAction::Wait);
    }
    assert_eq!(buffer.step(WriterEvent::Packet(capture(6, 0))), WriterAction::Flush);
    assert_eq!(buffer.step(WriterEvent::Packet(capture(6, 1))), WriterAction::Flush);
    assert_eq!(buffer.captures().len(), FLUSH_THRESHOLD + 1);
    assert_eq!(buffer.step(WriterEvent::ChannelClosed), WriterAction::Wait);
    assert_eq!(buffer.step(WriterEvent::Tick), WriterAction::Flush);
    assert_eq!(buffer.captures().len(), FLUSH_THRESHOLD + 1);
}

#[test]
fn writer_keeps_captures_in_order() {
    let mut buffer = CaptureBuffer::new();
    assert_eq!(buffer.step(WriterEvent::Tick), WriterAction::Flush);
    assert_eq!(buffer.step(WriterEvent::Packet(capture(6, 7))), WriterAction::Wait);
    // the next tick flushes a buffer that holds the capture
    assert_eq!(buffer.step(WriterEvent::Tick), WriterAction::Flush);
    assert_eq!(buffer.captures()[0].payload, vec![7]);
    buffer.step(WriterEvent::Packet(capture(6, 8)));
    let kept: Vec<u8> = buffer.captures().iter().map(|c| c.payload[0]).collect();
    assert_eq!(kept, vec![7, 8]);
}
