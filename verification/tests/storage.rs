use bincode::config::{BigEndian, Configuration, Fixint};

use flame::error::FlameError;
use flame::storage::data::{DataStorage, Index};
use flame::storage::object::{Filter, Object, ObjectStorage};
use flame::storage::owners::{format_owners, owners_text_well_formed, parse_owners};

#[test]
fn test_one_data() {
    let mut data_storage = DataStorage::new("/tmp/flame-test", "test_1").unwrap();
    let index = data_storage.save(b"hello, world").unwrap();
    assert_eq!(index.start, 0);
    assert_eq!(index.end, 12);
    let data = data_storage.load(&index).unwrap();
    assert_eq!(data, b"hello, world");
}

#[test]
fn test_two_data() {
    let mut data_storage = DataStorage::new("/tmp/flame-test", "test_2").unwrap();
    let index = data_storage.save(b"hello, world").unwrap();
    assert_eq!(index.start, 0);
    assert_eq!(index.end, 12);
    let data = data_storage.load(&index).unwrap();
    assert_eq!(data, b"hello, world");

    let index2 = data_storage.save(b"Good morning, Klaus").unwrap();
    assert_eq!(index2.start, 12);
    assert_eq!(index2.end, 31);
    let data = data_storage.load(&index2).unwrap();
    assert_eq!(data, b"Good morning, Klaus");

    let data = data_storage.load(&index).unwrap();
    assert_eq!(data, b"hello, world");
}

#[test]
fn data_file_path_and_short_reads() {
    let data_storage = DataStorage::with_contents("/var/lib/flame", "blobs", b"abc".to_vec()).unwrap();
    assert_eq!(data_storage.path(), "/var/lib/flame/blobs.dat");
    assert_eq!(data_storage.load(&Index { start: 1, end: 3 }).unwrap(), b"bc");
    assert!(matches!(
        data_storage.load(&Index { start: 1, end: 4 }),
        Err(FlameError::Internal(_))
    ));
}

#[derive(Debug, Clone)]
struct TestObject {
    id: Option<u64>,
    state: u64,
    created_at: u64,
    updated_at: u64,
    owner: u64,
}

impl Object for TestObject {
    fn id(&self) -> u64 {
        self.id.unwrap_or(0)
    }

    fn set_id(&mut self, id: u64) {
        self.id = Some(id);
    }

    fn owner(&self) -> u64 {
        self.owner
    }
}

fn data_config() -> Configuration<BigEndian, Fixint> {
    bincode::config::standard()
        .with_no_limit()
        .with_big_endian()
        .with_fixed_int_encoding()
}

fn encode(obj: &TestObject) -> Vec<u8> {
    let fields = (obj.id, obj.state, obj.created_at, obj.updated_at, obj.owner);
    bincode::encode_to_vec(fields, data_config()).unwrap()
}

fn decode(bytes: &[u8]) -> TestObject {
    let ((id, state, created_at, updated_at, owner), _): ((Option<u64>, u64, u64, u64, u64), usize) =
        bincode::decode_from_slice(bytes, data_config()).unwrap();
    TestObject {
        id,
        state,
        created_at,
        updated_at,
        owner,
    }
}

fn new_storage() -> ObjectStorage {
    ObjectStorage::new(0, Vec::new(), &Vec::new()).unwrap()
}

fn save(storage: &mut ObjectStorage, object: &TestObject) -> TestObject {
    let mut obj = object.clone();
    obj.set_id(storage.next_id());
    let record = encode(&obj);
    storage.save(obj.id(), &record, obj.owner()).unwrap();
    obj
}

fn update(storage: &mut ObjectStorage, object: &TestObject) -> TestObject {
    storage.update(object.id(), &encode(object)).unwrap();
    object.clone()
}

fn load(storage: &ObjectStorage, id: u64) -> TestObject {
    decode(&storage.load(id).unwrap())
}

fn now() -> u64 {
    chrono::Utc::now().timestamp() as u64
}

#[test]
fn test_save_object() {
    let mut storage = new_storage();

    let now = now();

    let object = TestObject {
        id: None,
        state: 0,
        created_at: now,
        updated_at: 0,
        owner: 1,
    };
    let obj = save(&mut storage, &object);

    assert_eq!(obj.id(), 1);
    assert_eq!(obj.state, 0);
    assert_eq!(obj.created_at, now);
    assert_eq!(obj.owner, 1);

    let obj = load(&storage, 1);
    assert_eq!(obj.id(), 1);
    assert_eq!(obj.state, 0);
    assert_eq!(obj.created_at, now);
    assert_eq!(obj.owner, 1);

    let obj = save(&mut storage, &object);

    assert_eq!(obj.id(), 2);
    assert_eq!(obj.state, 0);
    assert_eq!(obj.created_at, now);
    assert_eq!(obj.owner, 1);
}

#[test]
fn test_update_object() {
    let mut storage = new_storage();

    let now = now();
    let updated_at = now + 1;
    let object = TestObject {
        id: None,
        state: 0,
        created_at: now,
        updated_at: 0,
        owner: 1,
    };
    let obj = save(&mut storage, &object);

    assert_eq!(obj.id(), 1);
    assert_eq!(obj.state, 0);
    assert_eq!(obj.created_at, now);
    assert_eq!(obj.owner, 1);

    let mut obj = load(&storage, 1);
    assert_eq!(obj.id(), 1);
    assert_eq!(obj.state, 0);
    assert_eq!(obj.created_at, now);
    assert_eq!(obj.owner, 1);

    obj.state = 2;
    obj.updated_at = updated_at;
    let obj = update(&mut storage, &obj);
    assert_eq!(obj.id(), 1);
    assert_eq!(obj.state, 2);
    assert_eq!(obj.created_at, now);
    assert_eq!(obj.updated_at, updated_at);
    assert_eq!(obj.owner, 1);

    let obj = load(&storage, 1);
    assert_eq!(obj.id(), 1);
    assert_eq!(obj.state, 2);
    assert_eq!(obj.created_at, now);
    assert_eq!(obj.updated_at, updated_at);
    assert_eq!(obj.owner, 1);
}

#[test]
fn test_list_object() {
    let mut storage = new_storage();

    let now = now();
    let updated_at = now + 1;

    let object1 = TestObject {
        id: None,
        state: 0,
        created_at: now,
        updated_at: 0,
        owner: 1,
    };
    let obj1 = save(&mut storage, &object1);

    assert_eq!(obj1.id(), 1);
    assert_eq!(obj1.state, 0);
    assert_eq!(obj1.created_at, now);
    assert_eq!(obj1.owner, 1);

    let object2 = TestObject {
        id: None,
        state: 1,
        created_at: now + 1,
        updated_at: 0,
        owner: 1,
    };
    let mut obj2 = save(&mut storage, &object2);

    assert_eq!(obj2.id(), 2);
    assert_eq!(obj2.state, 1);
    assert_eq!(obj2.created_at, now + 1);
    assert_eq!(obj2.owner, 1);

    let object3 = TestObject {
        id: None,
        state: 2,
        created_at: now + 2,
        updated_at: 0,
        owner: 1,
    };
    let obj3 = save(&mut storage, &object3);

    assert_eq!(obj3.id(), 3);
    assert_eq!(obj3.state, 2);
    assert_eq!(obj3.created_at, now + 2);
    assert_eq!(obj3.owner, 1);

    obj2.state = 4;
    obj2.updated_at = updated_at + 1;
    let obj2 = update(&mut storage, &obj2);
    assert_eq!(obj2.id(), 2);
    assert_eq!(obj2.state, 4);
    assert_eq!(obj2.created_at, now + 1);
    assert_eq!(obj2.updated_at, updated_at + 1);
    assert_eq!(obj2.owner, 1);

    let objects: Vec<TestObject> = storage
        .list(&Filter { owner: 1 })
        .unwrap()
        .iter()
        .map(|r| decode(r))
        .collect();
    assert_eq!(objects.len(), 3);
    assert_eq!(objects[0].id(), 1);
    assert_eq!(objects[0].state, 0);
    assert_eq!(objects[0].created_at, now);
    assert_eq!(objects[0].owner, 1);
    assert_eq!(objects[1].id(), 2);
    assert_eq!(objects[1].state, 4);
    assert_eq!(objects[1].created_at, now + 1);
    assert_eq!(objects[1].updated_at, updated_at + 1);
    assert_eq!(objects[1].owner, 1);
    assert_eq!(objects[2].id(), 3);
    assert_eq!(objects[2].state, 2);
    assert_eq!(objects[2].created_at, now + 2);
    assert_eq!(objects[2].updated_at, 0);
    assert_eq!(objects[2].owner, 1);
}

#[test]
fn records_of_another_size_are_refused() {
    let mut storage = new_storage();
    storage.save(1, &vec![1, 2, 3, 4], 7).unwrap();
    let w = storage.save(2, &vec![5, 6, 7, 8], 8).unwrap();
    assert_eq!(w.offset, 4);
    assert_eq!(w.metadata_size, None);
    assert_eq!(w.owner_line, b"2,8\n".to_vec());
    assert!(matches!(storage.save(3, &vec![1, 2], 7), Err(FlameError::InvalidState(_))));
    assert!(matches!(storage.update(1, &vec![1, 2]), Err(FlameError::InvalidState(_))));
    assert_eq!(storage.next_id(), 3);
    assert!(matches!(storage.load(3), Err(FlameError::Internal(_))));
    assert_eq!(storage.list(&Filter { owner: 8 }).unwrap(), vec![vec![5, 6, 7, 8]]);
}

#[test]
fn storage_reopens_from_its_files() {
    let mut storage = new_storage();
    let first = storage.save(1, &vec![9, 9], 3).unwrap();
    assert_eq!(first.metadata_size, Some(2));
    let mut owners = first.owner_line.clone();
    owners.extend(storage.save(2, &vec![8, 8], 4).unwrap().owner_line);
    let data = vec![9, 9, 8, 8];
    let reopened = ObjectStorage::new(2, data, &owners).unwrap();
    assert_eq!(reopened.next_id(), 3);
    assert_eq!(reopened.list(&Filter { owner: 4 }).unwrap(), vec![vec![8, 8]]);
}

#[test]
fn owner_index_round_trip() {
    let entries = vec![(1u64, 10u64), (2, 10), (3, 11)];
    let text = format_owners(&entries);
    assert_eq!(text, b"1,10\n2,10\n3,11\n".to_vec());
    assert!(owners_text_well_formed(&text));
    assert_eq!(parse_owners(&text), Some(entries));
    assert_eq!(parse_owners(&b"1,x\n".to_vec()), None);
}

#[test]
fn store_reports_its_layout() {
    let mut storage = new_storage();
    assert_eq!(storage.record_size(), 0);
    storage.save(1, &vec![1, 2, 3], 5).unwrap();
    storage.save(2, &vec![4, 5, 6], 6).unwrap();
    storage.save(3, &vec![7, 8, 9], 5).unwrap();
    assert_eq!(storage.record_size(), 3);
    assert_eq!(storage.data_len(), 9);
    assert_eq!(storage.ids_of_owner(5), vec![1, 3]);
    match storage.save(4, &vec![1], 5) {
        Err(FlameError::InvalidState(m)) => assert_eq!(m, "data size mismatch: 1 != 3"),
        _ => panic!("expected an invalid state"),
    }
    let d = DataStorage::new("/tmp", "x").unwrap();
    assert_eq!(d.len(), 0);
}

#[test]
fn first_index_survives_many_saves() {
    let mut data_storage = DataStorage::new("/tmp/flame-test", "many").unwrap();
    let first = data_storage.save(b"first").unwrap();
    for i in 0..10u8 {
        data_storage.save(&[i; 7]).unwrap();
    }
    assert_eq!(data_storage.load(&first).unwrap(), b"first");
}

fn open_error(owners: &[u8]) -> String {
    match ObjectStorage::new(0, Vec::new(), &owners.to_vec()) {
        Err(FlameError::Internal(m)) => m,
        _ => panic!("expected an internal error"),
    }
}

#[test]
fn unreadable_owner_index_reports_the_parse_error() {
    assert_eq!(open_error(b"1,2\nx,2\n"), "x".parse::<u64>().unwrap_err().to_string());
    assert_eq!(open_error(b"1,2\nx,2\n"), "invalid digit found in string");
    assert_eq!(open_error(b",2\n"), "".parse::<u64>().unwrap_err().to_string());
    assert_eq!(open_error(b"1,+\n"), "+".parse::<u64>().unwrap_err().to_string());
    assert_eq!(
        open_error(b"99999999999999999999x,1\n"),
        "99999999999999999999x".parse::<u64>().unwrap_err().to_string()
    );
    assert_eq!(open_error(b"3,1\r\n4,-1\n"), "-1".parse::<u64>().unwrap_err().to_string());
}
