//! A mathematical model of the two stores, and what the engine's commands do
//! to it once a store reports them done.
use vstd::prelude::*;
use crate::codec::encode_spec;
use crate::engine::Command;
use crate::text::views;
use crate::types::{is_record_of, Merchant, MerchantData};

verus! {

/// The record store as a map from merchant id to pincode text, and the index
/// as the set of (pincode, merchant id) pairs that it holds.
pub struct Stores {
    pub records: Map<int, Seq<char>>,
    pub index: Set<(Seq<char>, int)>,
}

/// The ids that the index lists under a pincode; empty for an unknown one.
pub open spec fn lookup(st: Stores, p: Seq<char>) -> Set<int> {
    Set::new(|id: int| st.index.contains((p, id)))
}

/// The index pairs of an id under each of some pincodes.
pub open spec fn pairs_of(id: int, ps: Seq<Seq<char>>) -> Set<(Seq<char>, int)> {
    Set::new(|e: (Seq<char>, int)| ps.contains(e.0) && e.1 == id)
}

/// The stores after a command that they report done. Reads change nothing; an
/// update of the pincode text touches an existing record only.
pub open spec fn apply(st: Stores, c: Command) -> Stores {
    match c {
        Command::Insert(m) => Stores {
            records: st.records.insert(m.id as int, m.pincodes_serviced@),
            index: st.index,
        },
        Command::IndexMerchant(d) => Stores {
            records: st.records,
            index: st.index.union(pairs_of(d.id as int, views(d.pincodes_serviced@))),
        },
        Command::WritePincodes(id, t) => if st.records.contains_key(id as int) {
            Stores { records: st.records.insert(id as int, t@), index: st.index }
        } else {
            st
        },
        Command::Retract(id, ps) => Stores {
            records: st.records,
            index: st.index.difference(pairs_of(id as int, views(ps@))),
        },
        Command::DeleteRecord(id) => Stores { records: st.records.remove(id as int), index: st.index },
        _ => st,
    }
}

/// After the insert and the index write of a create, the record holds the
/// encoded pincodes and every pincode of the merchant looks up to its id.
pub proof fn lemma_create_then_lookup(st: Stores, m: Merchant, d: MerchantData)
    requires
        is_record_of(m, d),
    ensures
        ({
            let after = apply(apply(st, Command::Insert(m)), Command::IndexMerchant(d));
            &&& after.records[d.id as int] == encode_spec(views(d.pincodes_serviced@))
            &&& forall|p: Seq<char>| #[trigger]
                views(d.pincodes_serviced@).contains(p) ==> lookup(after, p).contains(d.id as int)
        }),
{
    let after = apply(apply(st, Command::Insert(m)), Command::IndexMerchant(d));
    assert forall|p: Seq<char>| #[trigger]
        views(d.pincodes_serviced@).contains(p) implies lookup(after, p).contains(d.id as int) by {
        assert(pairs_of(d.id as int, views(d.pincodes_serviced@)).contains((p, d.id as int)));
    }
}

/// After the retraction and the record delete of a delete, the record is gone
/// and none of the pincodes it serviced looks up to its id.
pub proof fn lemma_delete_then_lookup(st: Stores, id: i32, ps: Vec<String>)
    ensures
        ({
            let after = apply(apply(st, Command::Retract(id, ps)), Command::DeleteRecord(id));
            &&& !after.records.contains_key(id as int)
            &&& forall|p: Seq<char>| #[trigger]
                views(ps@).contains(p) ==> !lookup(after, p).contains(id as int)
        }),
{
    let after = apply(apply(st, Command::Retract(id, ps)), Command::DeleteRecord(id));
    assert forall|p: Seq<char>| #[trigger] views(ps@).contains(p) implies !lookup(
        after,
        p,
    ).contains(id as int) by {
        assert(pairs_of(id as int, views(ps@)).contains((p, id as int)));
    }
}

/// Index writes are idempotent: adding a merchant twice, or retracting it
/// twice, leaves the index as once does.
pub proof fn lemma_index_idempotent(st: Stores, d: MerchantData, id: i32, ps: Vec<String>)
    ensures
        apply(apply(st, Command::IndexMerchant(d)), Command::IndexMerchant(d)) == apply(
            st,
            Command::IndexMerchant(d),
        ),
        apply(apply(st, Command::Retract(id, ps)), Command::Retract(id, ps)) == apply(
            st,
            Command::Retract(id, ps),
        ),
{
    let p1 = pairs_of(d.id as int, views(d.pincodes_serviced@));
    assert(st.index.union(p1).union(p1) =~= st.index.union(p1));
    let p2 = pairs_of(id as int, views(ps@));
    assert(st.index.difference(p2).difference(p2) =~= st.index.difference(p2));
}

/// Removing pincodes from a merchant: once the reduced text is stored and the
/// removed pincodes retracted, the record holds the reduced text and none of
/// the removed pincodes looks up to the id.
pub proof fn lemma_remove_then_lookup(st: Stores, id: i32, t: String, gone: Vec<String>)
    requires
        st.records.contains_key(id as int),
    ensures
        ({
            let after = apply(apply(st, Command::WritePincodes(id, t)), Command::Retract(id, gone));
            &&& after.records[id as int] == t@
            &&& forall|p: Seq<char>| #[trigger]
                views(gone@).contains(p) ==> !lookup(after, p).contains(id as int)
        }),
{
    let after = apply(apply(st, Command::WritePincodes(id, t)), Command::Retract(id, gone));
    assert forall|p: Seq<char>| #[trigger] views(gone@).contains(p) implies !lookup(
        after,
        p,
    ).contains(id as int) by {
        assert(pairs_of(id as int, views(gone@)).contains((p, id as int)));
    }
}

} // verus!
