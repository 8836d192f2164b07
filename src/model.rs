//! The records that the marketplace stores, and its errors.
use vstd::prelude::*;
use crate::table::Record;

verus! {

/// What a user may do in the marketplace.
#[derive(Clone, Copy, Debug, PartialEq, Eq, Structural)]
pub enum Role {
    Seller,
    Specialist,
    Buyer,
}

#[derive(Debug)]
pub struct User {
    pub id: u64,
    pub name: String,
    pub email: String,
    pub role: Role,
}

#[derive(Debug)]
pub struct Device {
    pub id: u64,
    /// The seller who listed the device.
    pub user_id: u64,
    pub name: String,
    pub specs: String,
    pub price: u32,
}

#[derive(Debug)]
pub struct WarrantyContract {
    pub id: u64,
    pub seller_id: u64,
    pub buyer_id: u64,
    pub device_id: u64,
    pub warranty_months: u32,
    pub expiry_date: u64,
}

#[derive(Debug)]
pub struct Report {
    pub id: u64,
    pub device_id: u64,
    pub specialist_name: String,
    pub notes: String,
    pub timestamp: u64,
}

/// The devices that a buyer intends to purchase, each listed once.
#[derive(Debug)]
pub struct Cart {
    pub user_id: u64,
    pub device_ids: Vec<u64>,
}

#[derive(Clone, Copy, Debug, PartialEq, Eq, Structural)]
pub struct Order {
    pub id: u64,
    pub buyer_id: u64,
    pub seller_id: u64,
    pub device_id: u64,
    pub timestamp: u64,
}

/// The kind of record that a lookup did not find.
#[derive(Clone, Copy, Debug, PartialEq, Eq, Structural)]
pub enum Entity {
    User,
    Device,
    Contract,
    Report,
    Cart,
}

/// The authorization rule that refused an operation.
#[derive(Clone, Copy, Debug, PartialEq, Eq, Structural)]
pub enum Gate {
    /// Only the user itself may act on its profile.
    SelfOnly,
    /// The acting user lacks the role that the operation needs.
    Role,
    /// The acting user does not own the record.
    Ownership,
    /// Neither a specialist nor the owner of the device.
    Disjunctive,
}

#[derive(Clone, Copy, Debug, PartialEq, Eq, Structural)]
pub enum MarketError {
    NotFound(Entity),
    Forbidden(Gate),
    /// An input whose result does not fit the record (an expiry past the
    /// largest timestamp).
    Validation,
    /// The identifier counter of a record kind has no fresh value left.
    Exhausted,
}

impl Device {
    pub fn price_usd(&self) -> (r: u32)
        ensures
            r == self.price,
    {
        self.price
    }
}

impl Record for User {
    open spec fn key(&self) -> u64 {
        self.id
    }

    fn id(&self) -> (r: u64) {
        self.id
    }

    fn duplicate(&self) -> (r: Self) {
        User { id: self.id, name: self.name.clone(), email: self.email.clone(), role: self.role }
    }
}

impl Record for Device {
    open spec fn key(&self) -> u64 {
        self.id
    }

    fn id(&self) -> (r: u64) {
        self.id
    }

    fn duplicate(&self) -> (r: Self) {
        Device {
            id: self.id,
            user_id: self.user_id,
            name: self.name.clone(),
            specs: self.specs.clone(),
            price: self.price,
        }
    }
}

impl Record for WarrantyContract {
    open spec fn key(&self) -> u64 {
        self.id
    }

    fn id(&self) -> (r: u64) {
        self.id
    }

    fn duplicate(&self) -> (r: Self) {
        WarrantyContract {
            id: self.id,
            seller_id: self.seller_id,
            buyer_id: self.buyer_id,
            device_id: self.device_id,
            warranty_months: self.warranty_months,
            expiry_date: self.expiry_date,
        }
    }
}

impl Record for Report {
    open spec fn key(&self) -> u64 {
        self.id
    }

    fn id(&self) -> (r: u64) {
        self.id
    }

    fn duplicate(&self) -> (r: Self) {
        Report {
            id: self.id,
            device_id: self.device_id,
            specialist_name: self.specialist_name.clone(),
            notes: self.notes.clone(),
            timestamp: self.timestamp,
        }
    }
}

impl Record for Order {
    open spec fn key(&self) -> u64 {
        self.id
    }

    fn id(&self) -> (r: u64) {
        self.id
    }

    fn duplicate(&self) -> (r: Self) {
        *self
    }
}

} // verus!
