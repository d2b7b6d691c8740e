use hoya::db::db::{clone_values, DBTypes, Database};
use hoya::db::order::{compare_keys, KeyOrder};
use hoya::decimal::Decimal;

fn number(n: isize) -> DBTypes {
    DBTypes::Number(n)
}

fn text(s: &str) -> DBTypes {
    DBTypes::Text(s.to_string())
}

fn every_kind() -> Vec<DBTypes> {
    vec![
        number(-7),
        DBTypes::Float(Decimal {
            negative: true,
            whole: "3".to_string(),
            fraction: "140".to_string(),
        }),
        DBTypes::Boolean(true),
        text("hello"),
        DBTypes::List(vec![number(1), text("x"), DBTypes::List(vec![DBTypes::Unit(())])]),
        DBTypes::Unit(()),
    ]
}

fn keys(db: &Database) -> Vec<String> {
    db.store("s").records.into_iter().map(|(k, _)| k).collect()
}

#[test]
fn a_value_that_is_put_is_the_value_that_get_gives() {
    for (i, value) in every_kind().into_iter().enumerate() {
        let mut db = Database::new();
        let key = format!("k{}", i);
        assert_eq!(db.put(key.clone(), value.clone()), None);
        assert_eq!(db.get(&key), Some(value));
    }
}

#[test]
fn existence_follows_put_and_remove() {
    let mut db = Database::new();
    assert!(!db.key_exists("k"));
    db.put("other".to_string(), number(0));
    assert!(!db.key_exists("k"));
    db.put("k".to_string(), number(1));
    assert!(db.key_exists("k"));
    assert_eq!(db.remove("k"), Some(number(1)));
    assert!(!db.key_exists("k"));
    assert!(db.key_exists("other"));
}

#[test]
fn the_last_write_wins_and_gives_the_value_before_it() {
    let mut db = Database::default();
    assert_eq!(db.put("a".to_string(), number(1)), None);
    assert_eq!(db.put("a".to_string(), text("two")), Some(number(1)));
    assert_eq!(db.put("a".to_string(), number(3)), Some(text("two")));
    assert_eq!(db.get("a"), Some(number(3)));
    assert_eq!(keys(&db), vec!["a"]);
}

#[test]
fn what_is_absent_is_neither_read_nor_removed() {
    let mut db = Database::new();
    assert_eq!(db.get("a"), None);
    assert_eq!(db.remove("a"), None);
    db.put("b".to_string(), number(1));
    assert_eq!(db.get("a"), None);
    assert_eq!(db.get("c"), None);
    assert_eq!(db.get(""), None);
    assert_eq!(db.remove("a"), None);
    assert_eq!(db.get("b"), Some(number(1)));
}

#[test]
fn keys_are_kept_in_the_order_of_their_bytes() {
    let mut db = Database::new();
    for key in ["b", "a", "ab", "", "B", "é", "z", "10", "9", "aa"] {
        db.put(key.to_string(), text(key));
    }
    let mut sorted: Vec<String> =
        ["b", "a", "ab", "", "B", "é", "z", "10", "9", "aa"].iter().map(|k| k.to_string()).collect();
    sorted.sort();
    assert_eq!(keys(&db), sorted);
    assert_eq!(keys(&db), vec!["", "10", "9", "B", "a", "aa", "ab", "b", "z", "é"]);
    for key in &sorted {
        assert_eq!(db.get(key), Some(text(key)));
    }
    db.remove("ab");
    db.remove("");
    assert_eq!(keys(&db), vec!["10", "9", "B", "a", "aa", "b", "z", "é"]);
}

#[test]
fn keys_compare_as_their_bytes_do() {
    let samples = ["", "a", "A", "ab", "b", "é", "e", "z", "越", "10", "9"];
    for a in samples {
        for b in samples {
            let expected = match a.as_bytes().cmp(b.as_bytes()) {
                std::cmp::Ordering::Less => KeyOrder::Before,
                std::cmp::Ordering::Equal => KeyOrder::Same,
                std::cmp::Ordering::Greater => KeyOrder::After,
            };
            assert_eq!(compare_keys(a, b), expected);
        }
    }
}

#[test]
fn a_snapshot_names_its_file_and_holds_every_entry() {
    let mut db = Database::new();
    db.put("b".to_string(), number(2));
    db.put("a".to_string(), text("one"));
    let snapshot = db.store("backup");
    assert_eq!(snapshot.file, "backup.hoya");
    assert_eq!(
        snapshot.records,
        vec![("a".to_string(), text("one")), ("b".to_string(), number(2))]
    );
    assert_eq!(Database::new().store("").file, ".hoya");
    assert!(Database::new().store("x").records.is_empty());
}

#[test]
fn loading_replaces_what_the_store_holds() {
    let mut db = Database::new();
    db.put("old".to_string(), number(1));
    db.load(&vec![
        ("b".to_string(), number(2)),
        ("a".to_string(), number(1)),
        ("b".to_string(), number(3)),
    ]);
    assert_eq!(db.get("old"), None);
    assert_eq!(db.get("a"), Some(number(1)));
    assert_eq!(db.get("b"), Some(number(3)));
    assert_eq!(keys(&db), vec!["a", "b"]);
    db.load(&vec![]);
    assert!(keys(&db).is_empty());
}

#[test]
fn a_snapshot_that_is_loaded_gives_the_same_store() {
    let mut db = Database::new();
    for (i, value) in every_kind().into_iter().enumerate() {
        db.put(format!("key{}", i), value);
    }
    let snapshot = db.store("s");
    let mut other = Database::new();
    other.put("gone".to_string(), number(0));
    other.load(&snapshot.records);
    assert_eq!(other.store("s").records, snapshot.records);
}

#[test]
fn a_copy_of_a_value_is_the_same_value() {
    let all = every_kind();
    assert_eq!(clone_values(&all), all);
    for value in &all {
        assert_eq!(value.clone(), *value);
    }
}

#[test]
fn writes_to_different_keys_in_any_order_leave_the_same_store() {
    let n: usize = 24;
    let mut forward = Database::new();
    let mut backward = Database::new();
    let mut shuffled = Database::new();
    for i in 0..n {
        forward.put(format!("key{}", i), number(i as isize));
        let j = n - 1 - i;
        backward.put(format!("key{}", j), number(j as isize));
        let k = (i * 7 + 3) % n;
        shuffled.put(format!("key{}", k), number(k as isize));
    }
    let expected = forward.store("s").records;
    assert_eq!(expected.len(), n);
    assert_eq!(backward.store("s").records, expected);
    assert_eq!(shuffled.store("s").records, expected);
    for i in 0..n {
        assert_eq!(forward.get(&format!("key{}", i)), Some(number(i as isize)));
    }
}
