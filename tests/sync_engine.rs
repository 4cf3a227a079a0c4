use std::collections::{BTreeMap, BTreeSet};

use pincode_serviceability::codec::decode;
use pincode_serviceability::engine::{
    add_merchant, add_pincodes, delete_merchant, delete_merchant_serviceability_for_pincode,
    generate_merchant_id, update_merchant_info, AddPhase, Command, CreatePhase, DeletePhase, Event,
    Flow, RemovePhase, Reply, SyncError, UpdatePhase,
};
use pincode_serviceability::types::{
    ContactInformation, Merchant, MerchantData, UpdateMerchantData,
};

/// An in-memory pair of stores that runs the engine's commands.
#[derive(Default)]
struct Stores {
    records: BTreeMap<i32, Merchant>,
    index: BTreeMap<String, BTreeSet<i32>>,
    snapshots: Vec<i32>,
    fail_index: bool,
    fail_insert: bool,
    writes: usize,
}

impl Stores {
    fn run(&mut self, c: Command) -> Event {
        match c {
            Command::ReadMaxId => Event::MaxId(self.records.keys().next_back().copied()),
            Command::Insert(m) => {
                if self.fail_insert || self.records.contains_key(&m.id) {
                    return Event::Stored(Err("duplicate key".to_string()));
                }
                self.writes += 1;
                self.records.insert(m.id, m);
                Event::Stored(Ok(()))
            }
            Command::IndexMerchant(d) => {
                if self.fail_index {
                    return Event::Indexed(Err("index down".to_string()));
                }
                for p in d.pincodes_serviced {
                    self.index.entry(p).or_default().insert(d.id);
                }
                self.snapshots.push(d.id);
                Event::Indexed(Ok(()))
            }
            Command::ReadPincodes(id) => {
                Event::Pincodes(Ok(self.records.get(&id).map(|m| m.pincodes_serviced.clone())))
            }
            Command::WritePincodes(id, t) => {
                self.writes += 1;
                if let Some(m) = self.records.get_mut(&id) {
                    m.pincodes_serviced = t;
                }
                Event::Stored(Ok(()))
            }
            Command::Retract(id, ps) => {
                if self.fail_index {
                    return Event::Indexed(Err("index down".to_string()));
                }
                for p in ps {
                    if let Some(set) = self.index.get_mut(&p) {
                        set.remove(&id);
                    }
                }
                Event::Indexed(Ok(()))
            }
            Command::UpdateFields(id, u) => match self.records.get_mut(&id) {
                Some(m) => {
                    m.name = u.name;
                    m.business_category = u.business_category;
                    m.phone_number = u.phone_number;
                    m.email = u.email;
                    Event::Rows(Ok(1))
                }
                None => Event::Rows(Ok(0)),
            },
            Command::DeleteRecord(id) => {
                Event::Rows(Ok(if self.records.remove(&id).is_some() { 1 } else { 0 }))
            }
        }
    }

    fn lookup(&self, p: &str) -> BTreeSet<i32> {
        self.index.get(p).cloned().unwrap_or_default()
    }

    fn create(&mut self, d: MerchantData) -> Result<Reply, SyncError> {
        let mut phase = CreatePhase::AwaitMaxId(d);
        loop {
            let ev = self.run(phase.command());
            match add_merchant(phase, ev) {
                Flow::Next(p) => phase = p,
                Flow::Done(r) => return r,
            }
        }
    }

    fn add(&mut self, id: i32, ps: Vec<String>) -> Result<Reply, SyncError> {
        let mut phase = AddPhase::AwaitRead(id, ps);
        loop {
            let ev = self.run(phase.command());
            match add_pincodes(phase, ev) {
                Flow::Next(p) => phase = p,
                Flow::Done(r) => return r,
            }
        }
    }

    fn remove(&mut self, id: i32, ps: Vec<String>) -> Result<Reply, SyncError> {
        let mut phase = RemovePhase::AwaitRead(id, ps);
        loop {
            let ev = self.run(phase.command());
            match delete_merchant_serviceability_for_pincode(phase, ev) {
                Flow::Next(p) => phase = p,
                Flow::Done(r) => return r,
            }
        }
    }

    fn delete(&mut self, id: i32) -> Result<Reply, SyncError> {
        let mut phase = DeletePhase::AwaitRead(id);
        loop {
            let ev = self.run(phase.command());
            match delete_merchant(phase, ev) {
                Flow::Next(p) => phase = p,
                Flow::Done(r) => return r,
            }
        }
    }

    fn update(&mut self, id: i32, u: UpdateMerchantData) -> Result<Reply, SyncError> {
        let phase = UpdatePhase { merchant_id: id, update_data: u };
        let ev = self.run(phase.command());
        update_merchant_info(phase, ev)
    }

    fn text(&self, id: i32) -> String {
        self.records[&id].pincodes_serviced.clone()
    }
}

fn strings(v: &[&str]) -> Vec<String> {
    v.iter().map(|s| s.to_string()).collect()
}

fn merchant(name: &str, pincodes: &[&str]) -> MerchantData {
    MerchantData {
        name: name.to_string(),
        id: 0,
        business_category: "Grocery".to_string(),
        contact: ContactInformation {
            phone_number: "9876543210".to_string(),
            email: "shop@example.com".to_string(),
        },
        pincodes_serviced: strings(pincodes),
    }
}

/// A store whose largest id is 5.
fn store_with_max_five() -> Stores {
    let mut st = Stores::default();
    for i in 0..5 {
        let r = st.create(merchant(&format!("m{}", i), &["110001"]));
        assert!(matches!(r, Ok(Reply::Created(_))));
    }
    st
}

/// A store holding merchant 6, Acme, servicing 560001 and 560002.
fn store_with_acme() -> Stores {
    let mut st = store_with_max_five();
    let r = st.create(merchant("Acme", &["560001", "560002"]));
    assert!(matches!(r, Ok(Reply::Created(6))));
    st
}

fn set(ids: &[i32]) -> BTreeSet<i32> {
    ids.iter().copied().collect()
}

#[test]
fn next_id_follows_max() {
    assert_eq!(generate_merchant_id(None), Some(1));
    assert_eq!(generate_merchant_id(Some(5)), Some(6));
    assert_eq!(generate_merchant_id(Some(i32::MAX)), None);
}

#[test]
fn create_assigns_next_id_and_indexes() {
    let st = store_with_acme();
    assert_eq!(st.lookup("560001"), set(&[6]));
    assert_eq!(st.lookup("560002"), set(&[6]));
    assert_eq!(st.text(6), "560001, 560002");
    assert_eq!(st.records[&6].name, "Acme");
    assert_eq!(st.snapshots.last(), Some(&6));
}

#[test]
fn concurrent_creates_collide_on_id_and_store_rejects_second() {
    let mut st = store_with_max_five();
    let mut a = CreatePhase::AwaitMaxId(merchant("A", &["1"]));
    let mut b = CreatePhase::AwaitMaxId(merchant("B", &["2"]));
    let ev_a = st.run(a.command());
    let ev_b = st.run(b.command());
    a = match add_merchant(a, ev_a) { Flow::Next(p) => p, _ => panic!("expected a phase") };
    b = match add_merchant(b, ev_b) { Flow::Next(p) => p, _ => panic!("expected a phase") };
    let ev_a = st.run(a.command());
    assert!(matches!(add_merchant(a, ev_a), Flow::Next(CreatePhase::AwaitIndex(ref d)) if d.id == 6));
    let ev_b = st.run(b.command());
    assert!(matches!(add_merchant(b, ev_b), Flow::Done(Err(SyncError::StorageWriteFailed(_)))));
    assert_eq!(st.records[&6].name, "A");
}

#[test]
fn create_in_empty_store_gets_id_one() {
    let mut st = Stores::default();
    assert!(matches!(st.create(merchant("First", &["1"])), Ok(Reply::Created(1))));
}

#[test]
fn create_with_refused_insert_writes_nothing() {
    let mut st = Stores::default();
    st.fail_insert = true;
    let r = st.create(merchant("Acme", &["560001"]));
    assert!(matches!(r, Err(SyncError::StorageWriteFailed(ref m)) if m == "duplicate key"));
    assert!(st.records.is_empty());
    assert!(st.lookup("560001").is_empty());
}

#[test]
fn create_with_refused_index_keeps_record() {
    let mut st = Stores::default();
    st.fail_index = true;
    let r = st.create(merchant("Acme", &["560001"]));
    assert!(matches!(r, Err(SyncError::IndexWriteFailed(ref m)) if m == "index down"));
    assert!(st.records.contains_key(&1));
    assert!(st.lookup("560001").is_empty());
}

#[test]
fn add_pincodes_merges_without_duplicates() {
    let mut st = store_with_acme();
    let r = st.add(6, strings(&["560002", "560003"]));
    assert!(matches!(r, Ok(Reply::PincodesAdded(6))));
    assert_eq!(decode(&st.text(6)), strings(&["560001", "560002", "560003"]));
    assert_eq!(st.lookup("560003"), set(&[6]));
}

#[test]
fn add_pincodes_already_serviced_is_no_op() {
    let mut st = store_with_acme();
    let writes = st.writes;
    let r = st.add(6, strings(&["560001"]));
    assert!(matches!(r, Err(SyncError::NoOpChange)));
    assert_eq!(st.writes, writes);
    assert_eq!(st.text(6), "560001, 560002");
}

#[test]
fn add_pincodes_unknown_merchant_is_not_found() {
    let mut st = store_with_acme();
    assert!(matches!(st.add(42, strings(&["1"])), Err(SyncError::NotFound)));
}

#[test]
fn remove_unserviced_pincode_is_no_op() {
    let mut st = store_with_acme();
    st.add(6, strings(&["560002", "560003"])).unwrap();
    let before = st.text(6);
    let writes = st.writes;
    let r = st.remove(6, strings(&["999999"]));
    assert!(matches!(r, Err(SyncError::NoOpChange)));
    assert_eq!(st.text(6), before);
    assert_eq!(st.writes, writes);
}

#[test]
fn add_pincodes_adds_repeated_pincode_once() {
    let mut st = store_with_acme();
    st.add(6, strings(&["560009", "560002", "560009"])).unwrap();
    assert_eq!(st.text(6), "560001, 560002, 560009");
    assert_eq!(st.lookup("560009"), set(&[6]));
}

#[test]
fn add_malformed_pincode_is_refused_without_write() {
    let mut st = store_with_acme();
    let writes = st.writes;
    assert!(matches!(st.add(6, strings(&[" 560003"])), Err(SyncError::InvalidPincode)));
    assert!(matches!(st.add(6, strings(&[""])), Err(SyncError::InvalidPincode)));
    assert!(matches!(st.add(6, strings(&["560003, 560004"])), Err(SyncError::InvalidPincode)));
    assert_eq!(st.writes, writes);
    assert!(st.lookup(" 560003").is_empty());
}

#[test]
fn create_malformed_pincode_is_refused() {
    let mut st = Stores::default();
    assert!(matches!(st.create(merchant("Acme", &["560001", "560002 "])), Err(SyncError::InvalidPincode)));
    assert!(st.records.is_empty());
}

#[test]
fn create_keeps_each_pincode_once() {
    let mut st = Stores::default();
    assert!(matches!(st.create(merchant("Acme", &["560001", "560002", "560001"])), Ok(Reply::Created(1))));
    assert_eq!(st.text(1), "560001, 560002");
}

#[test]
fn index_writes_are_idempotent() {
    let mut st = store_with_acme();
    let d = MerchantData::create_merchant_data(6, strings(&["560001"]));
    assert!(matches!(st.run(Command::IndexMerchant(d)), Event::Indexed(Ok(()))));
    assert_eq!(st.lookup("560001"), set(&[6]));
    assert!(matches!(st.run(Command::Retract(6, strings(&["560001"]))), Event::Indexed(Ok(()))));
    assert!(matches!(st.run(Command::Retract(6, strings(&["560001"]))), Event::Indexed(Ok(()))));
    assert!(st.lookup("560001").is_empty());
}

#[test]
fn remove_pincodes_updates_text_and_index() {
    let mut st = store_with_acme();
    st.add(6, strings(&["560003"])).unwrap();
    let r = st.remove(6, strings(&["560002", "999999"]));
    assert!(matches!(r, Ok(Reply::PincodesRemoved(6))));
    assert_eq!(decode(&st.text(6)), strings(&["560001", "560003"]));
    assert!(st.lookup("560002").is_empty());
    assert_eq!(st.lookup("560001"), set(&[6]));
}

#[test]
fn delete_merchant_retracts_index_and_record() {
    let mut st = store_with_acme();
    st.add(6, strings(&["560002", "560003"])).unwrap();
    let r = st.delete(6);
    assert!(matches!(r, Ok(Reply::Deleted(6))));
    assert!(!st.lookup("560001").contains(&6));
    assert!(!st.lookup("560002").contains(&6));
    assert!(!st.lookup("560003").contains(&6));
    assert!(!st.records.contains_key(&6));
    assert!(matches!(st.run(Command::ReadPincodes(6)), Event::Pincodes(Ok(None))));
    assert!(matches!(st.add(6, strings(&["1"])), Err(SyncError::NotFound)));
    assert!(matches!(st.delete(6), Err(SyncError::NotFound)));
}

#[test]
fn delete_with_refused_index_keeps_record() {
    let mut st = store_with_acme();
    st.fail_index = true;
    assert!(matches!(st.delete(6), Err(SyncError::IndexWriteFailed(_))));
    assert!(st.records.contains_key(&6));
}

#[test]
fn delete_unknown_merchant_is_not_found() {
    let mut st = Stores::default();
    assert!(matches!(st.delete(6), Err(SyncError::NotFound)));
}

#[test]
fn update_fields_needs_exactly_one_row() {
    let mut st = store_with_acme();
    let u = UpdateMerchantData {
        name: "Acme Two".to_string(),
        business_category: "Hardware".to_string(),
        phone_number: "1".to_string(),
        email: "x@y.z".to_string(),
    };
    assert!(matches!(st.update(6, u), Ok(Reply::FieldsUpdated(6))));
    assert_eq!(st.records[&6].name, "Acme Two");
    assert_eq!(st.text(6), "560001, 560002");
    let u = UpdateMerchantData {
        name: "n".to_string(),
        business_category: "c".to_string(),
        phone_number: "p".to_string(),
        email: "e".to_string(),
    };
    assert!(matches!(st.update(99, u), Err(SyncError::NotFound)));
}

#[test]
fn update_with_many_rows_is_an_error() {
    let u = UpdateMerchantData {
        name: "n".to_string(),
        business_category: "c".to_string(),
        phone_number: "p".to_string(),
        email: "e".to_string(),
    };
    let phase = UpdatePhase { merchant_id: 3, update_data: u };
    assert!(matches!(update_merchant_info(phase, Event::Rows(Ok(2))), Err(SyncError::RowsAffected(2))));
}

#[test]
fn unexpected_event_ends_operation() {
    let phase = CreatePhase::AwaitMaxId(merchant("Acme", &["1"]));
    assert!(matches!(
        add_merchant(phase, Event::Rows(Ok(1))),
        Flow::Done(Err(SyncError::UnexpectedEvent))
    ));
}

#[test]
fn exhausted_ids_refuse_create() {
    let phase = CreatePhase::AwaitMaxId(merchant("Acme", &["1"]));
    assert!(matches!(
        add_merchant(phase, Event::MaxId(Some(i32::MAX))),
        Flow::Done(Err(SyncError::IdsExhausted))
    ));
}

#[test]
fn read_failure_is_reported() {
    let phase = DeletePhase::AwaitRead(6);
    match delete_merchant(phase, Event::Pincodes(Err("conn reset".to_string()))) {
        Flow::Done(Err(SyncError::StorageReadFailed(m))) => assert_eq!(m, "conn reset"),
        _ => panic!("expected a read failure"),
    }
}

#[test]
fn merchant_record_encodes_pincodes() {
    let m = Merchant::from_data(merchant("Acme", &["560001", "560002"]));
    assert_eq!(m.pincodes_serviced, "560001, 560002");
    assert_eq!(m.phone_number, "9876543210");
    assert_eq!(m.email, "shop@example.com");
}
