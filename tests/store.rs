use kvs::command::{decode_at, encode, value_of_record, Command};
use kvs::error::KvsError;
use kvs::filename::log_path;
use kvs::store::{next_generation, sorted_gen_list, CommandPos, KvStore};
use std::collections::BTreeMap;

/// Segment files kept in memory, by generation.
struct Dir {
    segments: BTreeMap<u64, Vec<u8>>,
}

fn open(dir: &mut Dir) -> Result<KvStore, KvsError> {
    let names: Vec<String> = dir.segments.keys().map(|g| log_path(*g)).collect();
    let gens = sorted_gen_list(&names);
    let mut store = KvStore::new();
    for g in &gens {
        store.load(*g, &dir.segments[g])?;
    }
    let next = next_generation(&gens).unwrap();
    dir.segments.insert(next, Vec::new());
    store.activate(next, 0);
    Ok(store)
}

fn active(dir: &mut Dir) -> &mut Vec<u8> {
    dir.segments.values_mut().last().unwrap()
}

fn set(store: &mut KvStore, dir: &mut Dir, key: &str, value: &str) {
    let cmd = Command::set(key.to_string(), value.to_string());
    let rec = encode(&cmd);
    active(dir).extend_from_slice(rec.as_bytes());
    store.apply(cmd, rec.len() as u64);
}

fn remove(store: &mut KvStore, dir: &mut Dir, key: &str) -> Result<(), KvsError> {
    store.check_remove(key)?;
    let cmd = Command::remove(key.to_string());
    let rec = encode(&cmd);
    active(dir).extend_from_slice(rec.as_bytes());
    store.apply(cmd, rec.len() as u64);
    Ok(())
}

fn get(store: &KvStore, dir: &Dir, key: &str) -> Result<Option<String>, KvsError> {
    match store.lookup(key) {
        None => Ok(None),
        Some(p) => {
            let seg = &dir.segments[&p.gen];
            let bytes = &seg[p.pos as usize..(p.pos + p.len) as usize];
            value_of_record(bytes).map(Some)
        }
    }
}

fn empty_dir() -> Dir {
    Dir { segments: BTreeMap::new() }
}

#[test]
fn concrete_scenario_survives_reopen() {
    let mut dir = empty_dir();
    let mut store = open(&mut dir).unwrap();
    assert_eq!(dir.segments.keys().copied().collect::<Vec<u64>>(), vec![1]);
    set(&mut store, &mut dir, "a", "1");
    set(&mut store, &mut dir, "b", "2");
    remove(&mut store, &mut dir, "a").unwrap();
    assert_eq!(get(&store, &dir, "a"), Ok(None));
    assert_eq!(get(&store, &dir, "b"), Ok(Some("2".to_string())));

    let store = open(&mut dir).unwrap();
    assert_eq!(get(&store, &dir, "b"), Ok(Some("2".to_string())));
    assert_eq!(get(&store, &dir, "a"), Ok(None));

    let seg = dir.segments[&1].clone();
    let mut pos: usize = 0;
    let mut cmds: Vec<String> = Vec::new();
    while let Some((cmd, end)) = decode_at(&seg, pos) {
        match cmd.unwrap() {
            Command::SetValue { key, value } => cmds.push(format!("set {} {}", key, value)),
            Command::Remove { key } => cmds.push(format!("rm {}", key)),
        }
        pos = end;
    }
    assert_eq!(cmds, vec!["set a 1", "set b 2", "rm a"]);
}

#[test]
fn set_then_get_round_trips() {
    let mut dir = empty_dir();
    let mut store = open(&mut dir).unwrap();
    let values = ["plain", "", "with \"quotes\" and \\ slash", "line\nbreak\ttab", "ünïcødé ☃"];
    for (i, v) in values.iter().enumerate() {
        let k = format!("key{}", i);
        set(&mut store, &mut dir, &k, v);
        assert_eq!(get(&store, &dir, &k), Ok(Some(v.to_string())));
    }
    set(&mut store, &mut dir, "ключ \"q\"", "v");
    assert_eq!(get(&store, &dir, "ключ \"q\""), Ok(Some("v".to_string())));
}

#[test]
fn overwrite_points_at_second_record() {
    let mut dir = empty_dir();
    let mut store = open(&mut dir).unwrap();
    set(&mut store, &mut dir, "k", "v1");
    let first = store.lookup("k").unwrap();
    set(&mut store, &mut dir, "k", "v2");
    let second = store.lookup("k").unwrap();
    assert_eq!(get(&store, &dir, "k"), Ok(Some("v2".to_string())));
    assert_eq!(first, CommandPos { gen: 1, pos: 0, len: first.len });
    assert_eq!(second.pos, first.len);
    assert_ne!(first, second);
    assert_eq!(dir.segments[&1].len() as u64, first.len + second.len);
}

#[test]
fn deletion_then_second_remove_fails() {
    let mut dir = empty_dir();
    let mut store = open(&mut dir).unwrap();
    set(&mut store, &mut dir, "k", "v");
    assert_eq!(remove(&mut store, &mut dir, "k"), Ok(()));
    assert_eq!(get(&store, &dir, "k"), Ok(None));
    assert_eq!(remove(&mut store, &mut dir, "k"), Err(KvsError::KeyNotFound));
}

#[test]
fn missing_key_is_absent_not_error() {
    let mut dir = empty_dir();
    let mut store = open(&mut dir).unwrap();
    assert_eq!(get(&store, &dir, "never"), Ok(None));
    set(&mut store, &mut dir, "other", "x");
    assert_eq!(get(&store, &dir, "never"), Ok(None));
    assert_eq!(store.lookup("never"), None);
}

#[test]
fn replay_reproduces_every_get() {
    let mut dir = empty_dir();
    let mut store = open(&mut dir).unwrap();
    for i in 0..30 {
        set(&mut store, &mut dir, &format!("k{}", i % 7), &format!("v{}", i));
        if i % 4 == 3 {
            let _ = remove(&mut store, &mut dir, &format!("k{}", (i + 1) % 7));
        }
    }
    let before: Vec<_> = (0..8).map(|i| get(&store, &dir, &format!("k{}", i))).collect();
    let mut store = open(&mut dir).unwrap();
    let after: Vec<_> = (0..8).map(|i| get(&store, &dir, &format!("k{}", i))).collect();
    assert_eq!(before, after);
    set(&mut store, &mut dir, "k0", "new");
    let store = open(&mut dir).unwrap();
    assert_eq!(get(&store, &dir, "k0"), Ok(Some("new".to_string())));
    assert_eq!(dir.segments.keys().copied().collect::<Vec<u64>>(), vec![1, 2, 3]);
}

#[test]
fn encode_writes_tagged_records() {
    assert_eq!(
        encode(&Command::set("a".to_string(), "1".to_string())),
        "{\"Set\":{\"key\":\"a\",\"value\":\"1\"}}"
    );
    assert_eq!(
        encode(&Command::remove("a\"b".to_string())),
        "{\"Remove\":{\"key\":\"a\\\"b\"}}"
    );
}

#[test]
fn corrupt_bytes_are_corrupt_log() {
    assert_eq!(value_of_record(b"not json"), Err(KvsError::CorruptLog));
    assert_eq!(value_of_record(b"{\"Put\":{\"key\":\"a\"}}"), Err(KvsError::CorruptLog));
    assert_eq!(value_of_record(b"{\"Set\":{\"key\":\"a\"}}"), Err(KvsError::CorruptLog));
    let mut store = KvStore::new();
    assert_eq!(store.load(1, b"{\"Set\":{\"key\":\"a\",\"value\":\"1\"}}{oops"), Err(KvsError::CorruptLog));
}

#[test]
fn located_remove_is_unexpected_command_type() {
    assert_eq!(
        value_of_record(b"{\"Remove\":{\"key\":\"a\"}}"),
        Err(KvsError::UnexpectedCommandType)
    );
    assert_eq!(
        value_of_record(b" {\"Set\":{\"value\":\"1\",\"key\":\"a\"}}"),
        Ok("1".to_string())
    );
}

#[test]
fn remove_without_set_is_replay_inconsistency() {
    let mut store = KvStore::new();
    assert_eq!(
        store.load(1, b"{\"Remove\":{\"key\":\"a\"}}"),
        Err(KvsError::ReplayInconsistency)
    );
}

#[test]
fn load_records_positions_of_sets() {
    let mut store = KvStore::new();
    let seg = b"{\"Set\":{\"key\":\"a\",\"value\":\"1\"}}\n{\"Set\":{\"key\":\"b\",\"value\":\"22\"}}";
    assert_eq!(store.load(4, seg), Ok(()));
    assert_eq!(store.lookup("a"), Some(CommandPos { gen: 4, pos: 0, len: 31 }));
    assert_eq!(store.lookup("b"), Some(CommandPos { gen: 4, pos: 31, len: 33 }));
    assert_eq!(CommandPos::from_range(4, 31, 64), CommandPos { gen: 4, pos: 31, len: 33 });
}
