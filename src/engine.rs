//! The sync engine: each operation is a small state machine. A phase names
//! the store command to run next; the caller runs it and hands back what the
//! store answered, and the engine decides the next phase or the outcome.
//! Records are written before the index (create, add, remove); the index is
//! retracted before the record is deleted (delete).
use vstd::prelude::*;
use crate::codec::{
    all_valid_pincodes, decode, decode_spec, encode, encode_spec, fresh, is_pincode, minus,
    new_pincodes, with_added, without,
};
use crate::text::views;
use crate::types::{
    is_record_of, same_merchant, Merchant, MerchantData, UpdateMerchantData, copy_strings,
};

verus! {

/// A command for one of the two stores.
#[derive(Debug)]
pub enum Command {
    /// Read the largest merchant id in the record store.
    ReadMaxId,
    /// Insert a merchant record; the store rejects a duplicate id.
    Insert(Merchant),
    /// Add the merchant's id under each of its pincodes and keep a snapshot.
    IndexMerchant(MerchantData),
    /// Read a merchant's pincode text.
    ReadPincodes(i32),
    /// Replace a merchant's pincode text.
    WritePincodes(i32, String),
    /// Remove the id from the entry of each given pincode.
    Retract(i32, Vec<String>),
    /// Replace a merchant's name, category, phone and email.
    UpdateFields(i32, UpdateMerchantData),
    /// Delete a merchant record.
    DeleteRecord(i32),
}

/// What a store answered to a command.
#[derive(Debug)]
pub enum Event {
    /// The largest id, or none for an empty store.
    MaxId(Option<i32>),
    /// A merchant's pincode text; `Ok(None)` when no merchant has that id.
    Pincodes(Result<Option<String>, String>),
    /// The outcome of a record write.
    Stored(Result<(), String>),
    /// The number of records that an update or delete touched.
    Rows(Result<u64, String>),
    /// The outcome of an index write.
    Indexed(Result<(), String>),
}

/// What a finished operation did.
#[derive(Debug, Clone, Copy, PartialEq, Eq, Structural)]
pub enum Reply {
    Created(i32),
    FieldsUpdated(i32),
    PincodesAdded(i32),
    PincodesRemoved(i32),
    Deleted(i32),
}

/// Why an operation did not finish as asked.
#[derive(Debug)]
pub enum SyncError {
    /// No merchant has the id.
    NotFound,
    /// Reading the record store failed.
    StorageReadFailed(String),
    /// The record store refused a write, a duplicate id included.
    StorageWriteFailed(String),
    /// The index refused a write; record writes already made stay.
    IndexWriteFailed(String),
    /// The request would change nothing; nothing was written.
    NoOpChange,
    /// An update touched a number of records other than one.
    RowsAffected(u64),
    /// The largest id is the largest `i32`: no next id exists.
    IdsExhausted,
    /// A requested pincode is empty, has whitespace at an end, or holds the
    /// separator.
    InvalidPincode,
    /// The store answered with an event that the phase does not await.
    UnexpectedEvent,
}

/// The result of a step: the next phase, or the outcome.
pub enum Flow<P> {
    Next(P),
    Done(Result<Reply, SyncError>),
}

/// The id after the largest one in the record store: 1 for an empty store,
/// none when the largest is the largest `i32`.
pub fn generate_merchant_id(max_id: Option<i32>) -> (r: Option<i32>)
    ensures
        r == generate_merchant_id_spec(max_id),
{
    match max_id {
        None => Some(1),
        Some(m) => if m < i32::MAX {
            Some(m + 1)
        } else {
            None
        },
    }
}

// ---- create -------------------------------------------------------------
/// The phases of creating a merchant.
pub enum CreatePhase {
    /// The id is not assigned yet.
    AwaitMaxId(MerchantData),
    /// The record with its assigned id is being inserted.
    AwaitInsert(MerchantData),
    /// The record is stored; the index is being written.
    AwaitIndex(MerchantData),
}

impl CreatePhase {
    pub fn command(&self) -> (r: Command)
        ensures
            self matches CreatePhase::AwaitMaxId(_) ==> r is ReadMaxId,
            self matches CreatePhase::AwaitInsert(d) ==> (r matches Command::Insert(m)
                && is_record_of(m, *d)),
            self matches CreatePhase::AwaitIndex(d) ==> (r matches Command::IndexMerchant(e)
                && same_merchant(e, *d)),
    {
        match self {
            CreatePhase::AwaitMaxId(_) => Command::ReadMaxId,
            CreatePhase::AwaitInsert(d) => Command::Insert(Merchant::from_data(d.duplicate())),
            CreatePhase::AwaitIndex(d) => Command::IndexMerchant(d.duplicate()),
        }
    }
}

/// One step of creating a merchant. Malformed pincodes are refused before any
/// write, and each pincode is kept once. The id is the largest stored id plus one;
/// the record is inserted with it, then the index learns of it. A refused
/// insert ends the operation with nothing written; a refused index write ends
/// it with the record kept.
pub fn add_merchant(phase: CreatePhase, event: Event) -> (r: Flow<CreatePhase>)
    ensures
        match (phase, event) {
            (CreatePhase::AwaitMaxId(d), Event::MaxId(m)) => if !all_pincodes(d.pincodes_serviced@) {
                r matches Flow::Done(Err(SyncError::InvalidPincode))
            } else {
                match generate_merchant_id_spec(m) {
                    Some(id) => r matches Flow::Next(CreatePhase::AwaitInsert(e)) && e.id == id
                        && e.name == d.name && e.business_category == d.business_category
                        && e.contact == d.contact && views(e.pincodes_serviced@) == fresh(
                        views(d.pincodes_serviced@),
                        Seq::empty(),
                    ),
                    None => r matches Flow::Done(Err(SyncError::IdsExhausted)),
                }
            },
            (CreatePhase::AwaitInsert(d), Event::Stored(Ok(()))) => r matches Flow::Next(
                CreatePhase::AwaitIndex(e),
            ) && same_merchant(e, d),
            (CreatePhase::AwaitInsert(_), Event::Stored(Err(msg))) => r matches Flow::Done(
                Err(SyncError::StorageWriteFailed(x)),
            ) && x == msg,
            (CreatePhase::AwaitIndex(d), Event::Indexed(Ok(()))) => r matches Flow::Done(Ok(x))
                && x == Reply::Created(d.id),
            (CreatePhase::AwaitIndex(_), Event::Indexed(Err(msg))) => r matches Flow::Done(
                Err(SyncError::IndexWriteFailed(x)),
            ) && x == msg,
            _ => r matches Flow::Done(Err(SyncError::UnexpectedEvent)),
        },
{
    match (phase, event) {
        (CreatePhase::AwaitMaxId(d), Event::MaxId(m)) => {
            if !all_valid_pincodes(&d.pincodes_serviced) {
                return Flow::Done(Err(SyncError::InvalidPincode));
            }
            match generate_merchant_id(m) {
                Some(id) => {
                    let none: Vec<String> = Vec::new();
                    assert(views(none@) =~= Seq::<Seq<char>>::empty());
                    let once = new_pincodes(&d.pincodes_serviced, &none);
                    let mut e = d;
                    e.id = id;
                    e.pincodes_serviced = once;
                    Flow::Next(CreatePhase::AwaitInsert(e))
                },
                None => Flow::Done(Err(SyncError::IdsExhausted)),
            }
        },
        (CreatePhase::AwaitInsert(d), Event::Stored(Ok(()))) => Flow::Next(
            CreatePhase::AwaitIndex(d),
        ),
        (CreatePhase::AwaitInsert(_), Event::Stored(Err(msg))) => Flow::Done(
            Err(SyncError::StorageWriteFailed(msg)),
        ),
        (CreatePhase::AwaitIndex(d), Event::Indexed(Ok(()))) => Flow::Done(
            Ok(Reply::Created(d.id)),
        ),
        (CreatePhase::AwaitIndex(_), Event::Indexed(Err(msg))) => Flow::Done(
            Err(SyncError::IndexWriteFailed(msg)),
        ),
        _ => Flow::Done(Err(SyncError::UnexpectedEvent)),
    }
}

/// Every string of `v` is a well-formed pincode.
pub open spec fn all_pincodes(v: Seq<String>) -> bool {
    forall|i: int| 0 <= i < v.len() ==> is_pincode(#[trigger] v[i]@)
}

/// The id after `max_id`: 1 when there is none, none when it is the largest
/// `i32`.
pub open spec fn generate_merchant_id_spec(max_id: Option<i32>) -> Option<i32> {
    match max_id {
        None => Some(1i32),
        Some(m) => if m < i32::MAX {
            Some((m + 1) as i32)
        } else {
            None
        },
    }
}


// ---- update fields ------------------------------------------------------
/// Replacing a merchant's name, category, phone and email; the index is not
/// touched.
pub struct UpdatePhase {
    pub merchant_id: i32,
    pub update_data: UpdateMerchantData,
}

impl UpdatePhase {
    pub fn command(&self) -> (r: Command)
        ensures
            r matches Command::UpdateFields(id, u) && id == self.merchant_id && u
                == self.update_data,
    {
        Command::UpdateFields(self.merchant_id, self.update_data.duplicate())
    }
}

/// The outcome of a full-field update: success exactly when one record was
/// touched, `NotFound` when none was.
pub fn update_merchant_info(phase: UpdatePhase, event: Event) -> (r: Result<Reply, SyncError>)
    ensures
        match event {
            Event::Rows(Ok(n)) => if n == 1 {
                r == Ok::<Reply, SyncError>(Reply::FieldsUpdated(phase.merchant_id))
            } else if n == 0 {
                r matches Err(SyncError::NotFound)
            } else {
                r matches Err(SyncError::RowsAffected(k)) && k == n
            },
            Event::Rows(Err(msg)) => r matches Err(SyncError::StorageWriteFailed(x)) && x == msg,
            _ => r matches Err(SyncError::UnexpectedEvent),
        },
{
    match event {
        Event::Rows(Ok(n)) => if n == 1 {
            Ok(Reply::FieldsUpdated(phase.merchant_id))
        } else if n == 0 {
            Err(SyncError::NotFound)
        } else {
            Err(SyncError::RowsAffected(n))
        },
        Event::Rows(Err(msg)) => Err(SyncError::StorageWriteFailed(msg)),
        _ => Err(SyncError::UnexpectedEvent),
    }
}

/// The error for a failed read of a merchant's pincode text.
fn read_failure(answer: Result<Option<String>, String>) -> (r: SyncError)
    requires
        !(answer matches Ok(Some(_))),
    ensures
        answer matches Ok(None) ==> r matches SyncError::NotFound,
        answer matches Err(msg) ==> r matches SyncError::StorageReadFailed(x) && x == msg,
{
    match answer {
        Err(msg) => SyncError::StorageReadFailed(msg),
        _ => SyncError::NotFound,
    }
}

// ---- add pincodes -------------------------------------------------------
/// The phases of adding pincodes to a merchant.
pub enum AddPhase {
    /// The merchant's pincode text is being read; the pincodes to add.
    AwaitRead(i32, Vec<String>),
    /// The new text is being written; the pincodes that are new.
    AwaitWrite(i32, String, Vec<String>),
    /// The text is stored; the index is learning of the new pincodes.
    AwaitIndex(i32, Vec<String>),
}

impl AddPhase {
    pub fn command(&self) -> (r: Command)
        ensures
            self matches AddPhase::AwaitRead(id, _) ==> r matches Command::ReadPincodes(x) && x
                == id,
            self matches AddPhase::AwaitWrite(id, text, _) ==> r matches Command::WritePincodes(
                x,
                t,
            ) && x == id && t == text,
            self matches AddPhase::AwaitIndex(id, fresh) ==> r matches Command::IndexMerchant(d)
                && d.id == id && d.pincodes_serviced@ == fresh@,
    {
        match self {
            AddPhase::AwaitRead(id, _) => Command::ReadPincodes(*id),
            AddPhase::AwaitWrite(id, text, _) => Command::WritePincodes(*id, text.clone()),
            AddPhase::AwaitIndex(id, fresh) => Command::IndexMerchant(
                MerchantData::create_merchant_data(*id, copy_strings(fresh)),
            ),
        }
    }
}

/// One step of adding pincodes. Malformed requested pincodes are refused
/// before any write. The stored pincodes `S` are read and decoded;
/// the new ones `U` are those asked for that `S` lacks, each once. With none, the
/// operation ends in `NoOpChange` before any write; else `S` then `U` is
/// stored, and then the index learns of `U`.
pub fn add_pincodes(phase: AddPhase, event: Event) -> (r: Flow<AddPhase>)
    ensures
        match (phase, event) {
            (AddPhase::AwaitRead(id, n), Event::Pincodes(Ok(Some(text)))) => {
                let s = decode_spec(text@);
                let u = fresh(views(n@), s);
                if !all_pincodes(n@) {
                    r matches Flow::Done(Err(SyncError::InvalidPincode))
                } else if u.len() == 0 {
                    r matches Flow::Done(Err(SyncError::NoOpChange))
                } else {
                    r matches Flow::Next(AddPhase::AwaitWrite(x, t, fresh)) && x == id && t@
                        == encode_spec(with_added(s, views(n@))) && views(fresh@) == u
                }
            },
            (AddPhase::AwaitRead(_, _), Event::Pincodes(Ok(None))) => r matches Flow::Done(
                Err(SyncError::NotFound),
            ),
            (AddPhase::AwaitRead(_, _), Event::Pincodes(Err(msg))) => r matches Flow::Done(
                Err(SyncError::StorageReadFailed(x)),
            ) && x == msg,
            (AddPhase::AwaitWrite(id, _, fresh), Event::Stored(Ok(()))) => r matches Flow::Next(
                AddPhase::AwaitIndex(x, f),
            ) && x == id && f == fresh,
            (AddPhase::AwaitWrite(_, _, _), Event::Stored(Err(msg))) => r matches Flow::Done(
                Err(SyncError::StorageWriteFailed(x)),
            ) && x == msg,
            (AddPhase::AwaitIndex(id, _), Event::Indexed(Ok(()))) => r matches Flow::Done(Ok(x))
                && x == Reply::PincodesAdded(id),
            (AddPhase::AwaitIndex(_, _), Event::Indexed(Err(msg))) => r matches Flow::Done(
                Err(SyncError::IndexWriteFailed(x)),
            ) && x == msg,
            _ => r matches Flow::Done(Err(SyncError::UnexpectedEvent)),
        },
{
    match (phase, event) {
        (AddPhase::AwaitRead(id, n), Event::Pincodes(Ok(Some(text)))) => {
            if !all_valid_pincodes(&n) {
                return Flow::Done(Err(SyncError::InvalidPincode));
            }
            let s = decode(text.as_str());
            let u = new_pincodes(&n, &s);
            if u.len() == 0 {
                Flow::Done(Err(SyncError::NoOpChange))
            } else {
                let mut all = copy_strings(&s);
                let mut i: usize = 0;
                while i < u.len()
                    invariant
                        i <= u@.len(),
                        all@ == s@ + u@.take(i as int),
                    decreases u@.len() - i,
                {
                    all.push(u[i].clone());
                    i = i + 1;
                    assert(all@ =~= s@ + u@.take(i as int));
                }
                assert(u@.take(u@.len() as int) =~= u@);
                assert(views(all@) =~= views(s@) + views(u@));
                let t = encode(&all);
                Flow::Next(AddPhase::AwaitWrite(id, t, u))
            }
        },
        (AddPhase::AwaitRead(_, _), Event::Pincodes(answer)) => Flow::Done(
            Err(read_failure(answer)),
        ),
        (AddPhase::AwaitWrite(id, _, fresh), Event::Stored(Ok(()))) => Flow::Next(
            AddPhase::AwaitIndex(id, fresh),
        ),
        (AddPhase::AwaitWrite(_, _, _), Event::Stored(Err(msg))) => Flow::Done(
            Err(SyncError::StorageWriteFailed(msg)),
        ),
        (AddPhase::AwaitIndex(id, _), Event::Indexed(Ok(()))) => Flow::Done(
            Ok(Reply::PincodesAdded(id)),
        ),
        (AddPhase::AwaitIndex(_, _), Event::Indexed(Err(msg))) => Flow::Done(
            Err(SyncError::IndexWriteFailed(msg)),
        ),
        _ => Flow::Done(Err(SyncError::UnexpectedEvent)),
    }
}

// ---- remove pincodes ----------------------------------------------------
/// The phases of removing pincodes from a merchant.
pub enum RemovePhase {
    /// The merchant's pincode text is being read; the pincodes to remove.
    AwaitRead(i32, Vec<String>),
    /// The reduced text is being written; the pincodes to retract.
    AwaitWrite(i32, String, Vec<String>),
    /// The text is stored; the index is being retracted.
    AwaitRetract(i32, Vec<String>),
}

impl RemovePhase {
    pub fn command(&self) -> (r: Command)
        ensures
            self matches RemovePhase::AwaitRead(id, _) ==> r matches Command::ReadPincodes(x)
                && x == id,
            self matches RemovePhase::AwaitWrite(id, text, _) ==> r matches Command::WritePincodes(
                x,
                t,
            ) && x == id && t == text,
            self matches RemovePhase::AwaitRetract(id, gone) ==> r matches Command::Retract(x, g)
                && x == id && g@ == gone@,
    {
        match self {
            RemovePhase::AwaitRead(id, _) => Command::ReadPincodes(*id),
            RemovePhase::AwaitWrite(id, text, _) => Command::WritePincodes(*id, text.clone()),
            RemovePhase::AwaitRetract(id, gone) => Command::Retract(*id, copy_strings(gone)),
        }
    }
}

/// One step of removing pincodes. The stored pincodes `S` are read and
/// decoded and `S \ D` computed. When that is all of `S` the operation ends in
/// `NoOpChange` before any write; else `S \ D` is stored, and then the id is
/// retracted from the index under each pincode of `S` that `D` names.
pub fn delete_merchant_serviceability_for_pincode(phase: RemovePhase, event: Event) -> (r: Flow<
    RemovePhase,
>)
    ensures
        match (phase, event) {
            (RemovePhase::AwaitRead(id, d), Event::Pincodes(Ok(Some(text)))) => {
                let s = decode_spec(text@);
                let kept = minus(s, views(d@));
                if kept == s {
                    r matches Flow::Done(Err(SyncError::NoOpChange))
                } else {
                    r matches Flow::Next(RemovePhase::AwaitWrite(x, t, gone)) && x == id && t@
                        == encode_spec(kept) && views(gone@) == minus(s, kept)
                }
            },
            (RemovePhase::AwaitRead(_, _), Event::Pincodes(Ok(None))) => r matches Flow::Done(
                Err(SyncError::NotFound),
            ),
            (RemovePhase::AwaitRead(_, _), Event::Pincodes(Err(msg))) => r matches Flow::Done(
                Err(SyncError::StorageReadFailed(x)),
            ) && x == msg,
            (RemovePhase::AwaitWrite(id, _, gone), Event::Stored(Ok(()))) => r matches Flow::Next(
                RemovePhase::AwaitRetract(x, g),
            ) && x == id && g == gone,
            (RemovePhase::AwaitWrite(_, _, _), Event::Stored(Err(msg))) => r matches Flow::Done(
                Err(SyncError::StorageWriteFailed(x)),
            ) && x == msg,
            (RemovePhase::AwaitRetract(id, _), Event::Indexed(Ok(()))) => r matches Flow::Done(
                Ok(x),
            ) && x == Reply::PincodesRemoved(id),
            (RemovePhase::AwaitRetract(_, _), Event::Indexed(Err(msg))) => r matches Flow::Done(
                Err(SyncError::IndexWriteFailed(x)),
            ) && x == msg,
            _ => r matches Flow::Done(Err(SyncError::UnexpectedEvent)),
        },
{
    match (phase, event) {
        (RemovePhase::AwaitRead(id, d), Event::Pincodes(Ok(Some(text)))) => {
            let s = decode(text.as_str());
            let kept = without(&s, &d);
            proof {
                crate::codec::lemma_minus(views(s@), views(d@));
            }
            if kept.len() == s.len() {
                Flow::Done(Err(SyncError::NoOpChange))
            } else {
                let gone = without(&s, &kept);
                let t = encode(&kept);
                Flow::Next(RemovePhase::AwaitWrite(id, t, gone))
            }
        },
        (RemovePhase::AwaitRead(_, _), Event::Pincodes(answer)) => Flow::Done(
            Err(read_failure(answer)),
        ),
        (RemovePhase::AwaitWrite(id, _, gone), Event::Stored(Ok(()))) => Flow::Next(
            RemovePhase::AwaitRetract(id, gone),
        ),
        (RemovePhase::AwaitWrite(_, _, _), Event::Stored(Err(msg))) => Flow::Done(
            Err(SyncError::StorageWriteFailed(msg)),
        ),
        (RemovePhase::AwaitRetract(id, _), Event::Indexed(Ok(()))) => Flow::Done(
            Ok(Reply::PincodesRemoved(id)),
        ),
        (RemovePhase::AwaitRetract(_, _), Event::Indexed(Err(msg))) => Flow::Done(
            Err(SyncError::IndexWriteFailed(msg)),
        ),
        _ => Flow::Done(Err(SyncError::UnexpectedEvent)),
    }
}

// ---- delete -------------------------------------------------------------
/// The phases of deleting a merchant.
pub enum DeletePhase {
    /// The merchant's pincode text is being read.
    AwaitRead(i32),
    /// The id is being retracted from the index under these pincodes.
    AwaitRetract(i32, Vec<String>),
    /// The record is being deleted.
    AwaitDelete(i32),
}

impl DeletePhase {
    pub fn command(&self) -> (r: Command)
        ensures
            self matches DeletePhase::AwaitRead(id) ==> r matches Command::ReadPincodes(x) && x
                == id,
            self matches DeletePhase::AwaitRetract(id, ps) ==> r matches Command::Retract(x, g)
                && x == id && g@ == ps@,
            self matches DeletePhase::AwaitDelete(id) ==> r matches Command::DeleteRecord(x) && x
                == id,
    {
        match self {
            DeletePhase::AwaitRead(id) => Command::ReadPincodes(*id),
            DeletePhase::AwaitRetract(id, ps) => Command::Retract(*id, copy_strings(ps)),
            DeletePhase::AwaitDelete(id) => Command::DeleteRecord(*id),
        }
    }
}

/// One step of deleting a merchant: its stored pincodes are read and decoded,
/// the id is retracted from the index under each, and only then is the record
/// deleted. Success needs at least one deleted record; none gives `NotFound`.
pub fn delete_merchant(phase: DeletePhase, event: Event) -> (r: Flow<DeletePhase>)
    ensures
        match (phase, event) {
            (DeletePhase::AwaitRead(id), Event::Pincodes(Ok(Some(text)))) => r matches Flow::Next(
                DeletePhase::AwaitRetract(x, ps),
            ) && x == id && views(ps@) == decode_spec(text@),
            (DeletePhase::AwaitRead(_), Event::Pincodes(Ok(None))) => r matches Flow::Done(
                Err(SyncError::NotFound),
            ),
            (DeletePhase::AwaitRead(_), Event::Pincodes(Err(msg))) => r matches Flow::Done(
                Err(SyncError::StorageReadFailed(x)),
            ) && x == msg,
            (DeletePhase::AwaitRetract(id, _), Event::Indexed(Ok(()))) => r matches Flow::Next(
                DeletePhase::AwaitDelete(x),
            ) && x == id,
            (DeletePhase::AwaitRetract(_, _), Event::Indexed(Err(msg))) => r matches Flow::Done(
                Err(SyncError::IndexWriteFailed(x)),
            ) && x == msg,
            (DeletePhase::AwaitDelete(id), Event::Rows(Ok(n))) => if n > 0 {
                r matches Flow::Done(Ok(x)) && x == Reply::Deleted(id)
            } else {
                r matches Flow::Done(Err(SyncError::NotFound))
            },
            (DeletePhase::AwaitDelete(_), Event::Rows(Err(msg))) => r matches Flow::Done(
                Err(SyncError::StorageWriteFailed(x)),
            ) && x == msg,
            _ => r matches Flow::Done(Err(SyncError::UnexpectedEvent)),
        },
{
    match (phase, event) {
        (DeletePhase::AwaitRead(id), Event::Pincodes(Ok(Some(text)))) => Flow::Next(
            DeletePhase::AwaitRetract(id, decode(text.as_str())),
        ),
        (DeletePhase::AwaitRead(_), Event::Pincodes(answer)) => Flow::Done(
            Err(read_failure(answer)),
        ),
        (DeletePhase::AwaitRetract(id, _), Event::Indexed(Ok(()))) => Flow::Next(
            DeletePhase::AwaitDelete(id),
        ),
        (DeletePhase::AwaitRetract(_, _), Event::Indexed(Err(msg))) => Flow::Done(
            Err(SyncError::IndexWriteFailed(msg)),
        ),
        (DeletePhase::AwaitDelete(id), Event::Rows(Ok(n))) => if n > 0 {
            Flow::Done(Ok(Reply::Deleted(id)))
        } else {
            Flow::Done(Err(SyncError::NotFound))
        },
        (DeletePhase::AwaitDelete(_), Event::Rows(Err(msg))) => Flow::Done(
            Err(SyncError::StorageWriteFailed(msg)),
        ),
        _ => Flow::Done(Err(SyncError::UnexpectedEvent)),
    }
}

} // verus!
