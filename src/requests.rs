//! Reading requests: the pincodes of a lookup query, and a merchant from one
//! row of a bulk import.
use vstd::prelude::*;
use crate::codec::{decode, decode_spec};
use crate::text::{split, split_on, trim, trim_each, views};
use crate::types::{ContactInformation, MerchantData};

verus! {

/// The pincodes of a lookup query: the pieces between commas, each trimmed.
pub open spec fn query_pincodes(query: Seq<char>) -> Seq<Seq<char>> {
    split(query, seq![',']).map_values(|p: Seq<char>| trim(p))
}

/// The pincodes that a lookup query names, in order.
pub fn parse_pincode_query(query: &str) -> (r: Vec<String>)
    ensures
        views(r@) == query_pincodes(query@),
{
    proof {
        reveal_strlit(",");
    }
    assert(","@ =~= seq![',']);
    let pieces = split_on(query, ",");
    trim_each(&pieces)
}

/// A merchant from one import row: name, business category, phone, email and
/// pincode text, in that order. Its id is 0 until a create assigns one. Rows
/// with fewer than five fields give none.
pub fn merchant_from_record(fields: &Vec<String>) -> (r: Option<MerchantData>)
    ensures
        fields@.len() < 5 ==> r is None,
        fields@.len() >= 5 ==> (r matches Some(m) && m.id == 0 && m.name == fields@[0]
            && m.business_category == fields@[1] && m.contact.phone_number == fields@[2]
            && m.contact.email == fields@[3] && views(m.pincodes_serviced@) == decode_spec(
            fields@[4]@,
        )),
{
    if fields.len() < 5 {
        return None;
    }
    Some(
        MerchantData {
            name: fields[0].clone(),
            id: 0,
            business_category: fields[1].clone(),
            contact: ContactInformation {
                phone_number: fields[2].clone(),
                email: fields[3].clone(),
            },
            pincodes_serviced: decode(fields[4].as_str()),
        },
    )
}

} // verus!
