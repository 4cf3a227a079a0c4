//! The records the library works on.
use vstd::prelude::*;
use crate::codec::{encode, encode_spec};
use crate::text::views;

verus! {

/// How to reach a merchant.
#[derive(Debug)]
pub struct ContactInformation {
    pub phone_number: String,
    pub email: String,
}

/// A merchant as callers hand it in and as the index keeps it: the pincodes
/// it services are a list.
#[derive(Debug)]
pub struct MerchantData {
    pub name: String,
    pub id: i32,
    pub business_category: String,
    pub contact: ContactInformation,
    pub pincodes_serviced: Vec<String>,
}

/// A merchant as the record store keeps it: the pincodes it services are one
/// text field.
#[derive(Debug)]
pub struct Merchant {
    pub id: i32,
    pub name: String,
    pub business_category: String,
    pub phone_number: String,
    pub email: String,
    pub pincodes_serviced: String,
}

/// The fields of a merchant that a full-field update replaces.
#[derive(Debug)]
pub struct UpdateMerchantData {
    pub name: String,
    pub business_category: String,
    pub phone_number: String,
    pub email: String,
}

/// The merchants that service one pincode.
#[derive(Debug)]
pub struct MerchantServiceability {
    pub merchant_ids: Vec<u32>,
}

/// A list of pincodes, as a request carries it.
#[derive(Debug)]
pub struct Pincodes {
    pub pincodes: Vec<String>,
}

/// Whether a request succeeded.
#[derive(Debug, Clone, Copy, PartialEq, Eq, Structural)]
pub enum ApiResponseStatus {
    Success,
    Error,
}

/// `m` is the stored form of `d`: the same fields, the pincodes encoded.
pub open spec fn is_record_of(m: Merchant, d: MerchantData) -> bool {
    &&& m.id == d.id
    &&& m.name == d.name
    &&& m.business_category == d.business_category
    &&& m.phone_number == d.contact.phone_number
    &&& m.email == d.contact.email
    &&& m.pincodes_serviced@ == encode_spec(views(d.pincodes_serviced@))
}

/// A copy of a list of strings.
pub fn copy_strings(v: &Vec<String>) -> (r: Vec<String>)
    ensures
        r@ == v@,
{
    let mut r: Vec<String> = Vec::new();
    let mut i: usize = 0;
    while i < v.len()
        invariant
            i <= v@.len(),
            r@ == v@.take(i as int),
        decreases v@.len() - i,
    {
        r.push(v[i].clone());
        i = i + 1;
        assert(r@ =~= v@.take(i as int));
    }
    assert(v@.take(v@.len() as int) =~= v@);
    r
}

impl ContactInformation {
    pub fn duplicate(&self) -> (r: Self)
        ensures
            r == *self,
    {
        ContactInformation { phone_number: self.phone_number.clone(), email: self.email.clone() }
    }
}

/// `a` and `b` hold the same merchant.
pub open spec fn same_merchant(a: MerchantData, b: MerchantData) -> bool {
    &&& a.id == b.id
    &&& a.name == b.name
    &&& a.business_category == b.business_category
    &&& a.contact == b.contact
    &&& a.pincodes_serviced@ == b.pincodes_serviced@
}

impl MerchantData {
    pub fn duplicate(&self) -> (r: Self)
        ensures
            same_merchant(r, *self),
    {
        let pincodes_serviced = copy_strings(&self.pincodes_serviced);
        MerchantData {
            name: self.name.clone(),
            id: self.id,
            business_category: self.business_category.clone(),
            contact: self.contact.duplicate(),
            pincodes_serviced,
        }
    }

    /// A merchant record that carries only an id and pincodes, the other
    /// fields empty: what the index needs to learn of new pincodes.
    pub fn create_merchant_data(merchant_id: i32, pincodes: Vec<String>) -> (r: Self)
        ensures
            r.id == merchant_id,
            r.pincodes_serviced == pincodes,
            r.name@.len() == 0,
            r.business_category@.len() == 0,
            r.contact.phone_number@.len() == 0,
            r.contact.email@.len() == 0,
    {
        MerchantData {
            id: merchant_id,
            name: String::new(),
            business_category: String::new(),
            contact: ContactInformation { phone_number: String::new(), email: String::new() },
            pincodes_serviced: pincodes,
        }
    }
}

impl UpdateMerchantData {
    pub fn duplicate(&self) -> (r: Self)
        ensures
            r == *self,
    {
        UpdateMerchantData {
            name: self.name.clone(),
            business_category: self.business_category.clone(),
            phone_number: self.phone_number.clone(),
            email: self.email.clone(),
        }
    }
}

impl Merchant {
    /// The stored form of a merchant: its fields, with the pincodes joined
    /// into one text.
    pub fn from_data(merchant_data: MerchantData) -> (r: Merchant)
        ensures
            is_record_of(r, merchant_data),
    {
        let text = encode(&merchant_data.pincodes_serviced);
        Merchant {
            id: merchant_data.id,
            name: merchant_data.name,
            business_category: merchant_data.business_category,
            phone_number: merchant_data.contact.phone_number,
            email: merchant_data.contact.email,
            pincodes_serviced: text,
        }
    }
}

} // verus!
