use kvs::{load, Command, CommandPos, Index, KvStore, KvsError, RecordLog, Recovery, Scanned, Tail};

#[test]
fn command_pos_from_range() {
    assert_eq!(CommandPos::from(3..10), CommandPos { pos: 3, len: 7 });
    assert_eq!(CommandPos::from(5..5), CommandPos { pos: 5, len: 0 });
    assert_eq!(CommandPos::from(0..u64::MAX), CommandPos { pos: 0, len: u64::MAX });
    let inverted = std::ops::Range { start: 9u64, end: 4u64 };
    assert_eq!(CommandPos::from(inverted), CommandPos { pos: 9, len: 0 });
}

#[test]
fn index_insert_get_remove() {
    let mut index = Index::new();
    assert_eq!(index.len(), 0);
    assert_eq!(index.get("a"), None);
    index.insert("a".to_string(), CommandPos { pos: 0, len: 4 });
    index.insert("b".to_string(), CommandPos { pos: 4, len: 6 });
    index.insert("a".to_string(), CommandPos { pos: 10, len: 2 });
    assert_eq!(index.len(), 2);
    assert_eq!(index.get("a"), Some(CommandPos { pos: 10, len: 2 }));
    assert_eq!(index.remove("a"), Some(CommandPos { pos: 10, len: 2 }));
    assert_eq!(index.remove("a"), None);
    assert_eq!(index.get("a"), None);
    assert_eq!(index.get("b"), Some(CommandPos { pos: 4, len: 6 }));
    assert_eq!(index.len(), 1);
}

#[test]
fn record_log_append_returns_start_and_advances() {
    let mut log = RecordLog::new();
    assert_eq!(log.end(), 0);
    let put = Command::Put { key: "k".to_string(), value: "v".to_string() };
    assert_eq!(log.append(&put, 31), CommandPos { pos: 0, len: 31 });
    assert_eq!(log.end(), 31);
    let removal = Command::Remove { key: "k".to_string() };
    assert_eq!(log.append(&removal, 22), CommandPos { pos: 31, len: 22 });
    assert_eq!(log.end(), 53);
    assert_eq!(log.append(&removal, u64::MAX - 53), CommandPos { pos: 53, len: u64::MAX - 53 });
    assert_eq!(log.end(), u64::MAX);
}

#[test]
fn scan_reports_each_kind() {
    let log = br#"{"Set":{"key":"k","value":"v"}} {"Remove":{"key":"k"}}  [7] {"Set":{"ke"#;
    match kvs::log::scan(log, 0) {
        Scanned::Complete { command: Command::Put { key, value }, end } => {
            assert_eq!((key.as_str(), value.as_str(), end), ("k", "v", 31));
        }
        other => panic!("{:?}", other),
    }
    match kvs::log::scan(log, 31) {
        Scanned::Complete { command: Command::Remove { key }, end } => {
            assert_eq!((key.as_str(), end), ("k", 54));
        }
        other => panic!("{:?}", other),
    }
    assert!(matches!(kvs::log::scan(log, 54), Scanned::Corrupt));
    assert!(matches!(kvs::log::scan(log, 59), Scanned::Truncated));
    assert!(matches!(kvs::log::scan(log, log.len()), Scanned::End));
    assert!(matches!(kvs::log::scan(b" \n\t ", 0), Scanned::End));
    assert!(matches!(kvs::log::scan(log, 1), Scanned::Corrupt));
}

#[test]
fn record_log_pad_moves_only_the_end() {
    let mut log = RecordLog::new();
    let put = Command::Put { key: "k".to_string(), value: "v".to_string() };
    assert_eq!(log.append(&put, 31), CommandPos { pos: 0, len: 31 });
    log.pad(3);
    assert_eq!(log.end(), 34);
    let removal = Command::Remove { key: "k".to_string() };
    assert_eq!(log.append(&removal, 22), CommandPos { pos: 31, len: 25 });
    assert_eq!(log.end(), 56);
}

#[test]
fn load_rebuilds_index_and_end() {
    let log = [
        r#"{"Set":{"key":"a","value":"1"}}"#,
        r#"{"Set":{"key":"b","value":"2"}}"#,
        r#"{"Remove":{"key":"a"}}"#,
    ]
    .concat();
    let mut index = Index::new();
    let mut writer = RecordLog::new();
    assert_eq!(load(log.as_bytes(), &mut index, &mut writer).unwrap(), (84, Tail::Blank));
    assert_eq!(index.len(), 1);
    assert_eq!(index.get("a"), None);
    assert_eq!(index.get("b"), Some(CommandPos { pos: 31, len: 31 }));
    assert_eq!(writer.end(), 84);

    let more = br#" {"Set":{"key":"a","value":"3"}}{"Rem"#;
    assert_eq!(load(more, &mut index, &mut writer).unwrap(), (32, Tail::Cut));
    assert_eq!(index.get("a"), Some(CommandPos { pos: 84, len: 32 }));
    assert_eq!(index.len(), 2);
    assert_eq!(writer.end(), 116);

    assert!(matches!(load(b"{\"Set\":7}", &mut index, &mut writer), Err(KvsError::Serde)));
    assert_eq!(writer.end(), 116);
    let bad_after_good = br#"{"Remove":{"key":"b"}}?"#;
    assert!(matches!(load(bad_after_good, &mut index, &mut writer), Err(KvsError::Serde)));
    assert_eq!(writer.end(), 138);
    assert_eq!(index.get("b"), None);
}

#[test]
fn recovery_by_pieces_equals_open() {
    let log = [
        r#"{"Set":{"key":"a","value":"1"}}"#,
        "\n",
        r#"{"Set":{"key":"b","value":"2"}}"#,
        r#"{"Remove":{"key":"a"}}"#,
        r#"{"Set":{"key":"c","value":"a longer value"}}"#,
        "  ",
    ]
    .concat();
    let log = log.as_bytes();
    let whole = KvStore::open(log).unwrap();
    assert_eq!(whole.end(), log.len() as u64);
    for piece in 1..20 {
        let mut recovery = Recovery::new();
        let mut window = Vec::new();
        for chunk in log.chunks(piece) {
            window.extend_from_slice(chunk);
            let used = recovery.feed(&window).unwrap();
            window.drain(..used);
        }
        let store = recovery.finish(&window).unwrap();
        assert_eq!(store.end(), whole.end());
        assert_eq!(store.len(), whole.len());
        for key in ["a", "b", "c", "d"] {
            assert_eq!(store.get(key.to_string()), whole.get(key.to_string()));
        }
    }
}

#[test]
fn recovery_reports_corruption_in_any_piece() {
    let mut recovery = Recovery::new();
    assert_eq!(recovery.feed(br#"{"Set":{"key":"a","value":"1"}}{"Se"#).unwrap(), 31);
    assert!(matches!(recovery.feed(br#"{"Set":[]}"#), Err(KvsError::Serde)));
    let recovery = Recovery::new();
    assert!(matches!(recovery.finish(b"null"), Err(KvsError::Serde)));
}

#[test]
fn from_members_reads_exactly_the_two_commands() {
    let s = |t: &str| t.to_string();
    let put = vec![(s("Set"), vec![(s("key"), s("k")), (s("value"), s("v"))])];
    assert!(matches!(
        Command::from_members(&put),
        Some(Command::Put { key, value }) if key == "k" && value == "v"
    ));
    let removal = vec![(s("Remove"), vec![(s("key"), s("k"))])];
    assert!(matches!(Command::from_members(&removal), Some(Command::Remove { key }) if key == "k"));

    let swapped = vec![(s("Set"), vec![(s("value"), s("v")), (s("key"), s("k"))])];
    assert!(Command::from_members(&swapped).is_none());
    let wrong_tag = vec![(s("set"), vec![(s("key"), s("k")), (s("value"), s("v"))])];
    assert!(Command::from_members(&wrong_tag).is_none());
    let put_as_removal = vec![(s("Remove"), vec![(s("key"), s("k")), (s("value"), s("v"))])];
    assert!(Command::from_members(&put_as_removal).is_none());
    let two = vec![removal[0].clone(), removal[0].clone()];
    assert!(Command::from_members(&two).is_none());
    assert!(Command::from_members(&Vec::new()).is_none());
}

#[test]
fn serialized_maps_failure_to_serde() {
    assert_eq!(Command::serialized(Ok(vec![1, 2, 3])).unwrap(), vec![1, 2, 3]);
    let failure = serde_json::from_str::<u8>("x").unwrap_err();
    assert!(matches!(Command::serialized(Err(failure)), Err(KvsError::Serde)));
}

#[test]
fn error_messages() {
    assert_eq!(KvsError::KeyNotFound.message(), "Key not found");
    assert_eq!(KvsError::UnexpectedCommandType.message(), "Unexpected command type");
    assert_eq!(KvsError::Io.message(), "I/O error");
    assert_eq!(KvsError::Serde.message(), "serialization error");
}
