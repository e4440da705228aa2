use mailsync::id_mapper::{IdMapper, IdMapperError};

#[test]
fn round_trip_through_both_lookups() {
    let mut mapper = IdMapper::new();
    let id = mapper.insert(&String::from("maildir:1632340435.123")).unwrap();
    let internal = mapper.get_internal_id(&id).unwrap();
    assert_eq!(internal, "maildir:1632340435.123");
    assert_eq!(mapper.get_id(&internal).unwrap(), id);
}

#[test]
fn reinserting_returns_the_same_id() {
    let mut mapper = IdMapper::new();
    let first = mapper.insert(&String::from("m1")).unwrap();
    let again = mapper.insert(&String::from("m1")).unwrap();
    assert_eq!(first, again);
    assert_eq!(mapper.count(), 1);
}

#[test]
fn colliding_prefixes_grow_the_alias_length() {
    let mut mapper = IdMapper::new();
    // Hashes sharing a three-character prefix: one character cannot
    // tell them apart, four can.
    let a = mapper
        .insert_with_hash(&String::from("x"), &String::from("abc1f00"))
        .unwrap();
    assert_eq!(a, "a");
    assert_eq!(mapper.alias_length(), 1);
    let b = mapper
        .insert_with_hash(&String::from("y"), &String::from("abc2f00"))
        .unwrap();
    assert_eq!(mapper.alias_length(), 4);
    assert_eq!(b, "abc2");
    // Every entry reads back under the grown length, and all external
    // identifiers stay distinct.
    let a_now = mapper.get_id(&String::from("x")).unwrap();
    assert_eq!(a_now, "abc1");
    assert_ne!(a_now, b);
    assert_eq!(mapper.get_internal_id(&a_now).unwrap(), "x");
    assert_eq!(mapper.get_internal_id(&b).unwrap(), "y");
}

#[test]
fn many_colliding_prefixes_stay_unambiguous() {
    let mut mapper = IdMapper::new();
    let hashes = ["aa1", "aa2", "aa3", "aa4", "aa5"];
    let mut ids = Vec::new();
    for (k, h) in hashes.iter().enumerate() {
        let internal = format!("m{}", k);
        ids.push(mapper.insert_with_hash(&internal, &h.to_string()).unwrap());
    }
    for i in 0..ids.len() {
        for j in 0..ids.len() {
            if i != j {
                assert_ne!(ids[i], ids[j]);
            }
        }
    }
    assert_eq!(mapper.alias_length(), 3);
    for (k, _) in hashes.iter().enumerate() {
        let internal = format!("m{}", k);
        let id = mapper.get_id(&internal).unwrap();
        assert_eq!(mapper.get_internal_id(&id).unwrap(), internal);
    }
}

#[test]
fn identical_hashes_are_refused() {
    let mut mapper = IdMapper::new();
    mapper
        .insert_with_hash(&String::from("x"), &String::from("deadbeef"))
        .unwrap();
    let err = mapper
        .insert_with_hash(&String::from("y"), &String::from("deadbeef"))
        .unwrap_err();
    assert!(matches!(err, IdMapperError::HashCollision(_)));
    assert_eq!(mapper.count(), 1);
}

#[test]
fn missing_entries_are_not_found() {
    let mapper = IdMapper::new();
    assert!(matches!(
        mapper.get_id(&String::from("nope")),
        Err(IdMapperError::NotFound(_))
    ));
    assert!(matches!(
        mapper.get_internal_id(&String::from("nope")),
        Err(IdMapperError::NotFound(_))
    ));
}

#[test]
fn entries_persist_and_rebuild_the_mapper() {
    let mut mapper = IdMapper::new();
    mapper.insert(&String::from("m1")).unwrap();
    mapper.insert(&String::from("m2")).unwrap();
    let stored = mapper.entries();
    assert_eq!(stored.len(), 2);
    assert_eq!(stored[0].0, "m1");

    let rebuilt = IdMapper::from_entries(&stored).unwrap();
    assert_eq!(rebuilt.count(), 2);
    assert_eq!(rebuilt.alias_length(), mapper.alias_length());
    let id = mapper.get_id(&String::from("m2")).unwrap();
    assert_eq!(rebuilt.get_id(&String::from("m2")).unwrap(), id);
    assert_eq!(rebuilt.get_internal_id(&id).unwrap(), "m2");
}

#[test]
fn broken_persisted_entries_are_refused() {
    let repeated = vec![
        (String::from("m1"), String::from("aa")),
        (String::from("m1"), String::from("bb")),
    ];
    assert!(matches!(
        IdMapper::from_entries(&repeated),
        Err(IdMapperError::InvalidEntry(_))
    ));
    let empty_hash = vec![(String::from("m1"), String::new())];
    assert!(matches!(
        IdMapper::from_entries(&empty_hash),
        Err(IdMapperError::InvalidEntry(_))
    ));
}
