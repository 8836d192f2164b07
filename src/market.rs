//! The marketplace ledger: one table per kind of record, and the operations
//! that change them under the authorization rules.
use vstd::prelude::*;
use crate::cart::CartBook;
use crate::model::{
    Cart, Device, Entity, Gate, MarketError, Order, Report, Role, User, WarrantyContract,
};
use crate::matching::{device_qualifies, qualifies, DeviceSpec};
use crate::table::{Record, Table};

verus! {

/// A warranty month is thirty days, in seconds.
pub const SECONDS_PER_MONTH: u64 = 2_592_000;

/// The expiry of a warranty of `months` that starts at `now`.
pub open spec fn expiry_of(now: u64, months: u32) -> int {
    now + months * SECONDS_PER_MONTH
}

/// What `add_user` does: a fresh id is handed out and the record stored under it,
/// unless the user ids are used up.
pub open spec fn user_added(
    before: Marketplace,
    after: Marketplace,
    name: String,
    email: String,
    role: Role,
    r: Result<u64, MarketError>,
) -> bool {
    &&& r == if before.user_table().last_id() == u64::MAX {
        Err(MarketError::Exhausted)
    } else {
        Ok::<u64, MarketError>((before.user_table().last_id() + 1) as u64)
    }
    &&& r is Err ==> after == before
    &&& r is Ok ==> {
        &&& after.user_table().entries() == before.user_table().entries().push(
            (User { id: r->Ok_0, name, email, role }),
        )
        &&& after.user_table().last_id() == r->Ok_0
        &&& forall|j: u64| #[trigger]
            after.user(j) == if j == r->Ok_0 {
                Some((User { id: r->Ok_0, name, email, role }))
            } else {
                before.user(j)
            }
        &&& after.keeps_all_but_users(&before)
    }
}

pub struct Marketplace {
    users: Table<User>,
    devices: Table<Device>,
    contracts: Table<WarrantyContract>,
    reports: Table<Report>,
    carts: CartBook,
    orders: Table<Order>,
}

impl Marketplace {
    pub closed spec fn user_table(&self) -> Table<User> {
        self.users
    }

    pub closed spec fn device_table(&self) -> Table<Device> {
        self.devices
    }

    pub closed spec fn contract_table(&self) -> Table<WarrantyContract> {
        self.contracts
    }

    pub closed spec fn report_table(&self) -> Table<Report> {
        self.reports
    }

    pub closed spec fn cart_book(&self) -> CartBook {
        self.carts
    }

    pub closed spec fn order_table(&self) -> Table<Order> {
        self.orders
    }

    pub open spec fn wf(&self) -> bool {
        &&& self.user_table().wf() && self.user_table().issued()
        &&& self.device_table().wf() && self.device_table().issued()
        &&& self.contract_table().wf() && self.contract_table().issued()
        &&& self.report_table().wf() && self.report_table().issued()
        &&& self.order_table().wf() && self.order_table().issued()
        &&& self.cart_book().wf()
    }

    pub open spec fn user(&self, id: u64) -> Option<User> {
        self.user_table().get_spec(id)
    }

    pub open spec fn device(&self, id: u64) -> Option<Device> {
        self.device_table().get_spec(id)
    }

    pub open spec fn contract(&self, id: u64) -> Option<WarrantyContract> {
        self.contract_table().get_spec(id)
    }

    pub open spec fn report(&self, id: u64) -> Option<Report> {
        self.report_table().get_spec(id)
    }

    pub open spec fn cart(&self, user_id: u64) -> Option<Seq<u64>> {
        self.cart_book().cart_of(user_id)
    }

    /// `id` names a user with role `role`.
    pub open spec fn has_role(&self, id: u64, role: Role) -> bool {
        self.user(id) is Some && self.user(id)->0.role == role
    }

    pub open spec fn keeps_all_but_users(&self, o: &Self) -> bool {
        &&& self.device_table() == o.device_table()
        &&& self.contract_table() == o.contract_table()
        &&& self.report_table() == o.report_table()
        &&& self.cart_book() == o.cart_book()
        &&& self.order_table() == o.order_table()
    }

    pub open spec fn keeps_all_but_devices(&self, o: &Self) -> bool {
        &&& self.user_table() == o.user_table()
        &&& self.contract_table() == o.contract_table()
        &&& self.report_table() == o.report_table()
        &&& self.cart_book() == o.cart_book()
        &&& self.order_table() == o.order_table()
    }

    pub open spec fn keeps_all_but_contracts(&self, o: &Self) -> bool {
        &&& self.user_table() == o.user_table()
        &&& self.device_table() == o.device_table()
        &&& self.report_table() == o.report_table()
        &&& self.cart_book() == o.cart_book()
        &&& self.order_table() == o.order_table()
    }

    pub open spec fn keeps_all_but_reports(&self, o: &Self) -> bool {
        &&& self.user_table() == o.user_table()
        &&& self.device_table() == o.device_table()
        &&& self.contract_table() == o.contract_table()
        &&& self.cart_book() == o.cart_book()
        &&& self.order_table() == o.order_table()
    }

    pub open spec fn keeps_all_but_carts(&self, o: &Self) -> bool {
        &&& self.user_table() == o.user_table()
        &&& self.device_table() == o.device_table()
        &&& self.contract_table() == o.contract_table()
        &&& self.report_table() == o.report_table()
        &&& self.order_table() == o.order_table()
    }

    /// An empty marketplace; every counter starts at zero.
    pub fn new() -> (m: Self)
        ensures
            m.wf(),
            m.user_table().entries().len() == 0 && m.user_table().last_id() == 0,
            m.device_table().entries().len() == 0 && m.device_table().last_id() == 0,
            m.contract_table().entries().len() == 0 && m.contract_table().last_id() == 0,
            m.report_table().entries().len() == 0 && m.report_table().last_id() == 0,
            m.order_table().entries().len() == 0 && m.order_table().last_id() == 0,
            forall|u: u64| #[trigger] m.cart(u) is None,
    {
        Marketplace {
            users: Table::new(),
            devices: Table::new(),
            contracts: Table::new(),
            reports: Table::new(),
            carts: CartBook::new(),
            orders: Table::new(),
        }
    }

    /// Registers a user and returns its fresh id.
    pub fn add_user(&mut self, name: String, email: String, role: Role) -> (r: Result<
        u64,
        MarketError,
    >)
        requires
            old(self).wf(),
        ensures
            final(self).wf(),
            user_added(*old(self), *final(self), name, email, role, r),
    {
        if self.users.exhausted() {
            return Err(MarketError::Exhausted);
        }
        let id = match self.users.next_id() {
            Some(id) => id,
            None => {
                return Err(MarketError::Exhausted);
            },
        };
        self.users.append(User { id, name, email, role });
        Ok(id)
    }

    pub fn get_user(&self, id: u64) -> (r: Option<User>)
        requires
            self.wf(),
        ensures
            r == self.user(id),
    {
        self.users.get(id)
    }

    /// Replaces the profile of the requester; only a user itself may do so.
    pub fn update_user(&mut self, requester_id: u64, name: String, email: String, role: Role) -> (r:
        Result<(), MarketError>)
        requires
            old(self).wf(),
        ensures
            final(self).wf(),
            r == if old(self).user(requester_id) is None {
                Err(MarketError::Forbidden(Gate::SelfOnly))
            } else {
                Ok::<(), MarketError>(())
            },
            r is Err ==> *final(self) == *old(self),
            r is Ok ==> {
                &&& forall|j: u64| #[trigger]
                    final(self).user(j) == if j == requester_id {
                        Some((User { id: requester_id, name, email, role }))
                    } else {
                        old(self).user(j)
                    }
                &&& final(self).user_table().last_id() == old(self).user_table().last_id()
                &&& final(self).keeps_all_but_users(old(self))
            },
    {
        match self.users.get(requester_id) {
            Some(r) => {
                self.users.replace(User { id: r.id, name, email, role });
                Ok(())
            },
            None => Err(MarketError::Forbidden(Gate::SelfOnly)),
        }
    }

    /// Removes the requester's own profile.
    pub fn delete_user(&mut self, requester_id: u64) -> (r: Result<(), MarketError>)
        requires
            old(self).wf(),
        ensures
            final(self).wf(),
            r == if old(self).user(requester_id) is None {
                Err(MarketError::Forbidden(Gate::SelfOnly))
            } else {
                Ok::<(), MarketError>(())
            },
            r is Err ==> *final(self) == *old(self),
            r is Ok ==> {
                &&& forall|j: u64| #[trigger]
                    final(self).user(j) == if j == requester_id {
                        None
                    } else {
                        old(self).user(j)
                    }
                &&& final(self).user_table().last_id() == old(self).user_table().last_id()
                &&& final(self).keeps_all_but_users(old(self))
            },
    {
        match self.users.get(requester_id) {
            Some(r) => {
                let _ = self.users.remove(r.id);
                Ok(())
            },
            None => Err(MarketError::Forbidden(Gate::SelfOnly)),
        }
    }
}

impl Marketplace {
    /// Lists a device for sale; only a seller may do so.
    pub fn add_device(&mut self, user_id: u64, name: String, specs: String, price: u32) -> (r:
        Result<u64, MarketError>)
        requires
            old(self).wf(),
        ensures
            final(self).wf(),
            r == if old(self).user(user_id) is None {
                Err(MarketError::NotFound(Entity::User))
            } else if !old(self).has_role(user_id, Role::Seller) {
                Err(MarketError::Forbidden(Gate::Role))
            } else if old(self).device_table().last_id() == u64::MAX {
                Err(MarketError::Exhausted)
            } else {
                Ok::<u64, MarketError>((old(self).device_table().last_id() + 1) as u64)
            },
            r is Err ==> *final(self) == *old(self),
            r is Ok ==> {
                &&& final(self).device_table().entries() == old(self).device_table().entries().push(
                    (Device { id: r->Ok_0, user_id, name, specs, price }),
                )
                &&& final(self).device_table().last_id() == r->Ok_0
                &&& forall|j: u64| #[trigger]
                    final(self).device(j) == if j == r->Ok_0 {
                        Some((Device { id: r->Ok_0, user_id, name, specs, price }))
                    } else {
                        old(self).device(j)
                    }
                &&& final(self).keeps_all_but_devices(old(self))
            },
    {
        match self.users.get(user_id) {
            Some(user) => {
                if user.role != Role::Seller {
                    return Err(MarketError::Forbidden(Gate::Role));
                }
                if self.devices.exhausted() {
                    return Err(MarketError::Exhausted);
                }
                let id = match self.devices.next_id() {
                    Some(id) => id,
                    None => {
                        return Err(MarketError::Exhausted);
                    },
                };
                self.devices.append(Device { id, user_id, name, specs, price });
                Ok(id)
            },
            None => Err(MarketError::NotFound(Entity::User)),
        }
    }

    /// Withdraws a device; only the seller who listed it may do so.
    pub fn delete_device(&mut self, user_id: u64, device_id: u64) -> (r: Result<(), MarketError>)
        requires
            old(self).wf(),
        ensures
            final(self).wf(),
            r == if old(self).device(device_id) is None {
                Err(MarketError::NotFound(Entity::Device))
            } else if old(self).device(device_id)->0.user_id != user_id {
                Err(MarketError::Forbidden(Gate::Ownership))
            } else {
                Ok::<(), MarketError>(())
            },
            r is Err ==> *final(self) == *old(self),
            r is Ok ==> {
                &&& forall|j: u64| #[trigger]
                    final(self).device(j) == if j == device_id {
                        None
                    } else {
                        old(self).device(j)
                    }
                &&& final(self).device_table().last_id() == old(self).device_table().last_id()
                &&& final(self).keeps_all_but_devices(old(self))
            },
    {
        match self.devices.get(device_id) {
            Some(device) => {
                if device.user_id == user_id {
                    let _ = self.devices.remove(device_id);
                    Ok(())
                } else {
                    Err(MarketError::Forbidden(Gate::Ownership))
                }
            },
            None => Err(MarketError::NotFound(Entity::Device)),
        }
    }

    pub fn get_device(&self, device_id: u64) -> (r: Option<Device>)
        requires
            self.wf(),
        ensures
            r == self.device(device_id),
    {
        self.devices.get(device_id)
    }

    /// Records a warranty on a device; only the device's seller may do so.
    /// `now` is the current time in seconds.
    pub fn create_contract(
        &mut self,
        seller_id: u64,
        buyer_id: u64,
        device_id: u64,
        warranty_months: u32,
        now: u64,
    ) -> (r: Result<u64, MarketError>)
        requires
            old(self).wf(),
        ensures
            final(self).wf(),
            r == if old(self).device(device_id) is None {
                Err(MarketError::NotFound(Entity::Device))
            } else if old(self).device(device_id)->0.user_id != seller_id {
                Err(MarketError::Forbidden(Gate::Ownership))
            } else if expiry_of(now, warranty_months) > u64::MAX {
                Err(MarketError::Validation)
            } else if old(self).contract_table().last_id() == u64::MAX {
                Err(MarketError::Exhausted)
            } else {
                Ok::<u64, MarketError>((old(self).contract_table().last_id() + 1) as u64)
            },
            r is Err ==> *final(self) == *old(self),
            r is Ok ==> {
                let c = WarrantyContract {
                    id: r->Ok_0,
                    seller_id,
                    buyer_id,
                    device_id,
                    warranty_months,
                    expiry_date: expiry_of(now, warranty_months) as u64,
                };
                &&& final(self).contract_table().entries()
                    == old(self).contract_table().entries().push(c)
                &&& final(self).contract_table().last_id() == r->Ok_0
                &&& forall|j: u64| #[trigger]
                    final(self).contract(j) == if j == r->Ok_0 {
                        Some(c)
                    } else {
                        old(self).contract(j)
                    }
                &&& final(self).keeps_all_but_contracts(old(self))
            },
    {
        match self.devices.get(device_id) {
            Some(device) => {
                if device.user_id != seller_id {
                    return Err(MarketError::Forbidden(Gate::Ownership));
                }
                let span: u64 = warranty_months as u64 * SECONDS_PER_MONTH;
                if now > u64::MAX - span {
                    return Err(MarketError::Validation);
                }
                let expiry_date: u64 = now + span;
                if self.contracts.exhausted() {
                    return Err(MarketError::Exhausted);
                }
                let id = match self.contracts.next_id() {
                    Some(id) => id,
                    None => {
                        return Err(MarketError::Exhausted);
                    },
                };
                self.contracts.append(
                    WarrantyContract {
                        id,
                        seller_id,
                        buyer_id,
                        device_id,
                        warranty_months,
                        expiry_date,
                    },
                );
                Ok(id)
            },
            None => Err(MarketError::NotFound(Entity::Device)),
        }
    }

    pub fn get_contract(&self, contract_id: u64) -> (r: Option<WarrantyContract>)
        requires
            self.wf(),
        ensures
            r == self.contract(contract_id),
    {
        self.contracts.get(contract_id)
    }

    pub fn delete_contract(&mut self, contract_id: u64) -> (r: Result<(), MarketError>)
        requires
            old(self).wf(),
        ensures
            final(self).wf(),
            r == if old(self).contract(contract_id) is None {
                Err(MarketError::NotFound(Entity::Contract))
            } else {
                Ok::<(), MarketError>(())
            },
            r is Err ==> *final(self) == *old(self),
            r is Ok ==> {
                &&& forall|j: u64| #[trigger]
                    final(self).contract(j) == if j == contract_id {
                        None
                    } else {
                        old(self).contract(j)
                    }
                &&& final(self).contract_table().last_id() == old(self).contract_table().last_id()
                &&& final(self).keeps_all_but_contracts(old(self))
            },
    {
        if self.contracts.get(contract_id).is_none() {
            return Err(MarketError::NotFound(Entity::Contract));
        }
        let _ = self.contracts.remove(contract_id);
        Ok(())
    }

    /// Files an inspection report on a device; only a specialist may do so.
    /// `now` is the current time in seconds.
    pub fn add_report(
        &mut self,
        user_id: u64,
        device_id: u64,
        specialist_name: String,
        notes: String,
        now: u64,
    ) -> (r: Result<u64, MarketError>)
        requires
            old(self).wf(),
        ensures
            final(self).wf(),
            r == if old(self).user(user_id) is None {
                Err(MarketError::NotFound(Entity::User))
            } else if !old(self).has_role(user_id, Role::Specialist) {
                Err(MarketError::Forbidden(Gate::Role))
            } else if old(self).device(device_id) is None {
                Err(MarketError::NotFound(Entity::Device))
            } else if old(self).report_table().last_id() == u64::MAX {
                Err(MarketError::Exhausted)
            } else {
                Ok::<u64, MarketError>((old(self).report_table().last_id() + 1) as u64)
            },
            r is Err ==> *final(self) == *old(self),
            r is Ok ==> {
                &&& final(self).report_table().entries() == old(self).report_table().entries().push(
                    (Report { id: r->Ok_0, device_id, specialist_name, notes, timestamp: now }),
                )
                &&& final(self).report_table().last_id() == r->Ok_0
                &&& forall|j: u64| #[trigger]
                    final(self).report(j) == if j == r->Ok_0 {
                        Some((Report { id: r->Ok_0, device_id, specialist_name, notes, timestamp: now }))
                    } else {
                        old(self).report(j)
                    }
                &&& final(self).keeps_all_but_reports(old(self))
            },
    {
        match self.users.get(user_id) {
            Some(user) => {
                if user.role != Role::Specialist {
                    return Err(MarketError::Forbidden(Gate::Role));
                }
                if self.devices.get(device_id).is_none() {
                    return Err(MarketError::NotFound(Entity::Device));
                }
                if self.reports.exhausted() {
                    return Err(MarketError::Exhausted);
                }
                let id = match self.reports.next_id() {
                    Some(id) => id,
                    None => {
                        return Err(MarketError::Exhausted);
                    },
                };
                self.reports.append(
                    Report { id, device_id, specialist_name, notes, timestamp: now },
                );
                Ok(id)
            },
            None => Err(MarketError::NotFound(Entity::User)),
        }
    }

    pub fn get_report(&self, report_id: u64) -> (r: Option<Report>)
        requires
            self.wf(),
        ensures
            r == self.report(report_id),
    {
        self.reports.get(report_id)
    }

    /// Removes a report; any specialist may do so, and so may the seller who
    /// owns the reported device.
    pub fn delete_report(&mut self, user_id: u64, report_id: u64) -> (r: Result<(), MarketError>)
        requires
            old(self).wf(),
        ensures
            final(self).wf(),
            r == if old(self).report(report_id) is None {
                Err(MarketError::NotFound(Entity::Report))
            } else if old(self).device(old(self).report(report_id)->0.device_id) is None {
                Err(MarketError::NotFound(Entity::Device))
            } else if old(self).user(user_id) is None {
                Err(MarketError::NotFound(Entity::User))
            } else if old(self).has_role(user_id, Role::Specialist) || old(self).device(
                old(self).report(report_id)->0.device_id,
            )->0.user_id == user_id {
                Ok::<(), MarketError>(())
            } else {
                Err(MarketError::Forbidden(Gate::Disjunctive))
            },
            r is Err ==> *final(self) == *old(self),
            r is Ok ==> {
                &&& forall|j: u64| #[trigger]
                    final(self).report(j) == if j == report_id {
                        None
                    } else {
                        old(self).report(j)
                    }
                &&& final(self).report_table().last_id() == old(self).report_table().last_id()
                &&& final(self).keeps_all_but_reports(old(self))
            },
    {
        let report = match self.reports.get(report_id) {
            Some(report) => report,
            None => {
                return Err(MarketError::NotFound(Entity::Report));
            },
        };
        let device = match self.devices.get(report.device_id) {
            Some(device) => device,
            None => {
                return Err(MarketError::NotFound(Entity::Device));
            },
        };
        let user = match self.users.get(user_id) {
            Some(user) => user,
            None => {
                return Err(MarketError::NotFound(Entity::User));
            },
        };
        if user.role == Role::Specialist || device.user_id == user_id {
            let _ = self.reports.remove(report_id);
            Ok(())
        } else {
            Err(MarketError::Forbidden(Gate::Disjunctive))
        }
    }
}

/// The cart `c` after `device_id` is added: a device already in it keeps its place.
pub open spec fn with_device(c: Option<Seq<u64>>, device_id: u64) -> Seq<u64> {
    match c {
        Some(s) => if s.contains(device_id) {
            s
        } else {
            s.push(device_id)
        },
        None => seq![device_id],
    }
}

pub open spec fn other_than(device_id: u64) -> spec_fn(u64) -> bool {
    |x: u64| x != device_id
}

/// The orders that a checkout of the cart `ids` places, given the devices on
/// sale: one per device still present, in cart order, numbered from `base + 1`.
pub open spec fn orders_for(devices: Table<Device>, ids: Seq<u64>, buyer: u64, now: u64, base: u64) -> Seq<
    Order,
>
    decreases ids.len(),
{
    if ids.len() == 0 {
        Seq::empty()
    } else {
        let prev = orders_for(devices, ids.drop_last(), buyer, now, base);
        match devices.get_spec(ids.last()) {
            Some(d) => prev.push(
                Order {
                    id: (base + prev.len() + 1) as u64,
                    buyer_id: buyer,
                    seller_id: d.user_id,
                    device_id: d.id,
                    timestamp: now,
                },
            ),
            None => prev,
        }
    }
}

fn holds_id(ids: &Vec<u64>, x: u64) -> (r: bool)
    ensures
        r == ids@.contains(x),
{
    let mut i: usize = 0;
    while i < ids.len()
        invariant
            0 <= i <= ids@.len(),
            forall|j: int| 0 <= j < i ==> ids@[j] != x,
        decreases ids@.len() - i,
    {
        if ids[i] == x {
            return true;
        }
        i = i + 1;
    }
    false
}

impl Marketplace {
    /// Puts a device in the cart of a buyer, once.
    pub fn add_to_cart(&mut self, user_id: u64, device_id: u64) -> (r: Result<(), MarketError>)
        requires
            old(self).wf(),
        ensures
            final(self).wf(),
            r == if !old(self).has_role(user_id, Role::Buyer) {
                Err(MarketError::Forbidden(Gate::Role))
            } else if old(self).device(device_id) is None {
                Err(MarketError::NotFound(Entity::Device))
            } else {
                Ok::<(), MarketError>(())
            },
            r is Err ==> *final(self) == *old(self),
            r is Ok ==> {
                &&& forall|j: u64| #[trigger]
                    final(self).cart(j) == if j == user_id {
                        Some(with_device(old(self).cart(user_id), device_id))
                    } else {
                        old(self).cart(j)
                    }
                &&& final(self).keeps_all_but_carts(old(self))
            },
    {
        match self.users.get(user_id) {
            Some(user) => {
                if user.role != Role::Buyer {
                    return Err(MarketError::Forbidden(Gate::Role));
                }
            },
            None => {
                return Err(MarketError::Forbidden(Gate::Role));
            },
        }
        if self.devices.get(device_id).is_none() {
            return Err(MarketError::NotFound(Entity::Device));
        }
        let mut ids = match self.carts.find(user_id) {
            Some(ids) => ids,
            None => Vec::new(),
        };
        let ghost before = ids@;
        if !holds_id(&ids, device_id) {
            ids.push(device_id);
            proof {
                assert forall|a: int, b: int|
                    0 <= a < ids@.len() && 0 <= b < ids@.len() && a != b implies ids@[a]
                    != ids@[b] by {
                    if a < before.len() && b < before.len() {
                        assert(before[a] != before[b]);
                    } else if a < before.len() {
                        assert(before.contains(before[a]));
                    } else {
                        assert(before.contains(before[b]));
                    }
                }
            }
        }
        assert(ids@ == with_device(self.cart(user_id), device_id));
        self.carts.store(user_id, ids);
        Ok(())
    }

    /// Takes a device out of a user's cart.
    pub fn remove_from_cart(&mut self, user_id: u64, device_id: u64) -> (r: Result<(), MarketError>)
        requires
            old(self).wf(),
        ensures
            final(self).wf(),
            r == if old(self).cart(user_id) is None {
                Err(MarketError::NotFound(Entity::Cart))
            } else {
                Ok::<(), MarketError>(())
            },
            r is Err ==> *final(self) == *old(self),
            r is Ok ==> {
                &&& forall|j: u64| #[trigger]
                    final(self).cart(j) == if j == user_id {
                        Some(old(self).cart(user_id)->0.filter(other_than(device_id)))
                    } else {
                        old(self).cart(j)
                    }
                &&& final(self).keeps_all_but_carts(old(self))
            },
    {
        let ids = match self.carts.find(user_id) {
            Some(ids) => ids,
            None => {
                return Err(MarketError::NotFound(Entity::Cart));
            },
        };
        let mut kept: Vec<u64> = Vec::new();
        let mut i: usize = 0;
        while i < ids.len()
            invariant
                0 <= i <= ids@.len(),
                ids@.no_duplicates(),
                kept@ == ids@.subrange(0, i as int).filter(other_than(device_id)),
                kept@.no_duplicates(),
                forall|x: u64| kept@.contains(x) ==> ids@.subrange(0, i as int).contains(x),
            decreases ids@.len() - i,
        {
            let x = ids[i];
            proof {
                let pre = ids@.subrange(0, i as int);
                assert(ids@.subrange(0, i + 1) == pre.push(x));
                pre.lemma_filter_push(x, other_than(device_id));
                assert(!pre.contains(x)) by {
                    if pre.contains(x) {
                        let k = choose|k: int| 0 <= k < pre.len() && pre[k] == x;
                        assert(ids@[k] == ids@[i as int]);
                    }
                }
            }
            let ghost k0 = kept@;
            if x != device_id {
                kept.push(x);
            }
            proof {
                let pre = ids@.subrange(0, i as int);
                let pre1 = ids@.subrange(0, i + 1);
                assert(!k0.contains(x));
                if x != device_id {
                    assert(kept@ == k0.push(x));
                    assert forall|a: int, b: int|
                        0 <= a < kept@.len() && 0 <= b < kept@.len() && a != b implies kept@[a]
                        != kept@[b] by {
                        if a < k0.len() && b < k0.len() {
                            assert(k0[a] != k0[b]);
                        } else if a < k0.len() {
                            assert(k0.contains(k0[a]));
                        } else {
                            assert(k0.contains(k0[b]));
                        }
                    }
                }
                assert forall|y: u64| kept@.contains(y) implies pre1.contains(y) by {
                    if y == x {
                        assert(pre1[i as int] == x);
                    } else {
                        let k = choose|k: int| 0 <= k < kept@.len() && kept@[k] == y;
                        assert(k < k0.len());
                        assert(k0[k] == y);
                        assert(k0.contains(y));
                        assert(pre.contains(y));
                        let m = choose|m: int| 0 <= m < pre.len() && pre[m] == y;
                        assert(pre1[m] == y);
                    }
                }
            }
            i = i + 1;
        }
        assert(ids@.subrange(0, ids@.len() as int) == ids@);
        self.carts.store(user_id, kept);
        Ok(())
    }

    /// Throws a user's cart away.
    pub fn clear_cart(&mut self, user_id: u64) -> (r: Result<(), MarketError>)
        requires
            old(self).wf(),
        ensures
            final(self).wf(),
            r == if old(self).cart(user_id) is None {
                Err(MarketError::NotFound(Entity::Cart))
            } else {
                Ok::<(), MarketError>(())
            },
            r is Err ==> *final(self) == *old(self),
            r is Ok ==> {
                &&& forall|j: u64| #[trigger]
                    final(self).cart(j) == if j == user_id {
                        None
                    } else {
                        old(self).cart(j)
                    }
                &&& final(self).keeps_all_but_carts(old(self))
            },
    {
        if self.carts.find(user_id).is_none() {
            return Err(MarketError::NotFound(Entity::Cart));
        }
        let _ = self.carts.remove(user_id);
        Ok(())
    }

    pub fn get_cart(&self, user_id: u64) -> (r: Option<Cart>)
        requires
            self.wf(),
        ensures
            r is Some <==> self.cart(user_id) is Some,
            r is Some ==> r->0.user_id == user_id && self.cart(user_id) == Some(r->0.device_ids@),
    {
        match self.carts.find(user_id) {
            Some(device_ids) => Some(Cart { user_id, device_ids }),
            None => None,
        }
    }
}

impl Marketplace {
    /// Buys every device of a user's cart that is still on sale, in cart order:
    /// each such device leaves the store and an order names its seller. Devices
    /// that are gone are skipped. The cart is then thrown away. `now` is the
    /// current time in seconds.
    pub fn checkout_cart(&mut self, user_id: u64, now: u64) -> (r: Result<Vec<Order>, MarketError>)
        requires
            old(self).wf(),
        ensures
            final(self).wf(),
            old(self).cart(user_id) is None ==> r == Err::<Vec<Order>, MarketError>(
                MarketError::NotFound(Entity::Cart),
            ),
            old(self).cart(user_id) is Some ==> (r is Err <==> old(self).order_table().last_id()
                + old(self).cart(user_id)->0.len() > u64::MAX),
            r is Err ==> *final(self) == *old(self),
            r is Err ==> r == Err::<Vec<Order>, MarketError>(MarketError::NotFound(Entity::Cart))
                || r == Err::<Vec<Order>, MarketError>(MarketError::Exhausted),
            r is Ok ==> {
                let c = old(self).cart(user_id)->0;
                let made = orders_for(
                    old(self).device_table(),
                    c,
                    user_id,
                    now,
                    old(self).order_table().last_id(),
                );
                &&& r->Ok_0@ == made
                &&& final(self).order_table().entries() == old(self).order_table().entries() + made
                &&& final(self).order_table().last_id() == old(self).order_table().last_id()
                    + made.len()
                &&& forall|j: u64| #[trigger]
                    final(self).device(j) == if c.contains(j) {
                        None
                    } else {
                        old(self).device(j)
                    }
                &&& final(self).device_table().last_id() == old(self).device_table().last_id()
                &&& forall|j: u64| #[trigger]
                    final(self).cart(j) == if j == user_id {
                        None
                    } else {
                        old(self).cart(j)
                    }
                &&& final(self).user_table() == old(self).user_table()
                &&& final(self).contract_table() == old(self).contract_table()
                &&& final(self).report_table() == old(self).report_table()
            },
    {
        let ids = match self.carts.find(user_id) {
            Some(ids) => ids,
            None => {
                return Err(MarketError::NotFound(Entity::Cart));
            },
        };
        let base = self.orders.last();
        if base > u64::MAX - ids.len() as u64 {
            return Err(MarketError::Exhausted);
        }
        let ghost d0 = self.devices;
        let ghost o0 = self.orders;
        let mut created: Vec<Order> = Vec::new();
        let mut i: usize = 0;
        while i < ids.len()
            invariant
                0 <= i <= ids@.len(),
                ids@.no_duplicates(),
                base + ids@.len() <= u64::MAX,
                base == o0.last_id(),
                self.users == old(self).users,
                self.contracts == old(self).contracts,
                self.reports == old(self).reports,
                self.carts == old(self).carts,
                d0 == old(self).devices,
                o0 == old(self).orders,
                self.devices.wf(),
                self.devices.last_id() == d0.last_id(),
                self.orders.wf(),
                self.orders.issued(),
                self.devices.issued(),
                created@ == orders_for(d0, ids@.subrange(0, i as int), user_id, now, base),
                created@.len() <= i,
                self.orders.last_id() == base + created@.len(),
                self.orders.entries() == o0.entries() + created@,
                forall|j: u64| #[trigger]
                    self.devices.get_spec(j) == if ids@.subrange(0, i as int).contains(j) {
                        None
                    } else {
                        d0.get_spec(j)
                    },
            decreases ids@.len() - i,
        {
            let d = ids[i];
            let ghost pre = ids@.subrange(0, i as int);
            proof {
                assert(ids@.subrange(0, i + 1) == pre.push(d));
                assert(ids@.subrange(0, i + 1).drop_last() == pre);
                assert(!pre.contains(d)) by {
                    if pre.contains(d) {
                        let k = choose|k: int| 0 <= k < pre.len() && pre[k] == d;
                        assert(ids@[k] == ids@[i as int]);
                    }
                }
                assert(self.devices.get_spec(d) == d0.get_spec(d));
                d0.lemma_get_key(d);
            }
            let ghost c0 = created@;
            let ghost t0 = self.orders;
            match self.devices.remove(d) {
                Some(device) => {
                    let oid = match self.orders.next_id() {
                        Some(oid) => oid,
                        None => {
                            return Err(MarketError::Exhausted);
                        },
                    };
                    let order = Order {
                        id: oid,
                        buyer_id: user_id,
                        seller_id: device.user_id,
                        device_id: device.id,
                        timestamp: now,
                    };
                    self.orders.append(order);
                    created.push(order);
                    proof {
                        assert(self.orders.entries() == o0.entries() + created@);
                    }
                },
                None => {},
            }
            proof {
                let pre1 = ids@.subrange(0, i + 1);
                assert forall|j: u64| #[trigger]
                    self.devices.get_spec(j) == if pre1.contains(j) {
                        None
                    } else {
                        d0.get_spec(j)
                    } by {
                    if j == d {
                        assert(pre1[i as int] == d);
                    } else if pre.contains(j) {
                        let k = choose|k: int| 0 <= k < pre.len() && pre[k] == j;
                        assert(pre1[k] == j);
                    } else {
                        if pre1.contains(j) {
                            let k = choose|k: int| 0 <= k < pre1.len() && pre1[k] == j;
                            assert(k < i);
                            assert(pre[k] == j);
                        }
                    }
                }
            }
            i = i + 1;
        }
        proof {
            assert(ids@.subrange(0, ids@.len() as int) == ids@);
        }
        let _ = self.carts.remove(user_id);
        Ok(created)
    }
}

pub open spec fn listed_by(user_id: u64) -> spec_fn(Device) -> bool {
    |d: Device| d.user_id == user_id
}

pub open spec fn about_device(device_id: u64) -> spec_fn(Report) -> bool {
    |r: Report| r.device_id == device_id
}

pub open spec fn meets(spec: DeviceSpec) -> spec_fn(Device) -> bool {
    |d: Device| qualifies(spec, d)
}

impl Marketplace {
    /// The reports on a device that `user_id` listed and that is still on sale.
    pub open spec fn on_devices_of(&self, user_id: u64) -> spec_fn(Report) -> bool {
        |r: Report| self.device(r.device_id) is Some && self.device(r.device_id)->0.user_id == user_id
    }

    /// All devices on sale, in scan order.
    pub fn list_devices(&self) -> (r: Vec<Device>)
        ensures
            r@ == self.device_table().entries(),
    {
        self.devices.scan()
    }

    /// The devices that a seller listed, in scan order.
    pub fn list_user_devices(&self, user_id: u64) -> (r: Vec<Device>)
        ensures
            r@ == self.device_table().entries().filter(listed_by(user_id)),
    {
        let all = self.devices.scan();
        let mut out: Vec<Device> = Vec::new();
        let mut i: usize = 0;
        while i < all.len()
            invariant
                0 <= i <= all@.len(),
                out@ == all@.subrange(0, i as int).filter(listed_by(user_id)),
            decreases all@.len() - i,
        {
            proof {
                assert(all@.subrange(0, i + 1) == all@.subrange(0, i as int).push(all@[i as int]));
                all@.subrange(0, i as int).lemma_filter_push(all@[i as int], listed_by(user_id));
            }
            if all[i].user_id == user_id {
                out.push(all[i].duplicate());
            }
            i = i + 1;
        }
        assert(all@.subrange(0, all@.len() as int) == all@);
        out
    }

    pub fn list_contracts(&self) -> (r: Vec<WarrantyContract>)
        ensures
            r@ == self.contract_table().entries(),
    {
        self.contracts.scan()
    }

    pub fn list_reports(&self) -> (r: Vec<Report>)
        ensures
            r@ == self.report_table().entries(),
    {
        self.reports.scan()
    }

    /// The reports on one device, in scan order.
    pub fn list_device_reports(&self, device_id: u64) -> (r: Vec<Report>)
        ensures
            r@ == self.report_table().entries().filter(about_device(device_id)),
    {
        let all = self.reports.scan();
        let mut out: Vec<Report> = Vec::new();
        let mut i: usize = 0;
        while i < all.len()
            invariant
                0 <= i <= all@.len(),
                out@ == all@.subrange(0, i as int).filter(about_device(device_id)),
            decreases all@.len() - i,
        {
            proof {
                assert(all@.subrange(0, i + 1) == all@.subrange(0, i as int).push(all@[i as int]));
                all@.subrange(0, i as int).lemma_filter_push(all@[i as int], about_device(device_id));
            }
            if all[i].device_id == device_id {
                out.push(all[i].duplicate());
            }
            i = i + 1;
        }
        assert(all@.subrange(0, all@.len() as int) == all@);
        out
    }

    /// The reports on the devices that a seller has on sale, in scan order.
    pub fn list_user_reports(&self, user_id: u64) -> (r: Vec<Report>)
        requires
            self.wf(),
        ensures
            r@ == self.report_table().entries().filter(self.on_devices_of(user_id)),
    {
        let all = self.reports.scan();
        let mut out: Vec<Report> = Vec::new();
        let mut i: usize = 0;
        while i < all.len()
            invariant
                self.wf(),
                0 <= i <= all@.len(),
                all@ == self.report_table().entries(),
                out@ == all@.subrange(0, i as int).filter(self.on_devices_of(user_id)),
            decreases all@.len() - i,
        {
            proof {
                assert(all@.subrange(0, i + 1) == all@.subrange(0, i as int).push(all@[i as int]));
                all@.subrange(0, i as int).lemma_filter_push(
                    all@[i as int],
                    self.on_devices_of(user_id),
                );
            }
            let owned = match self.devices.get(all[i].device_id) {
                Some(device) => device.user_id == user_id,
                None => false,
            };
            if owned {
                out.push(all[i].duplicate());
            }
            i = i + 1;
        }
        assert(all@.subrange(0, all@.len() as int) == all@);
        out
    }

    pub fn list_orders(&self) -> (r: Vec<Order>)
        ensures
            r@ == self.order_table().entries(),
    {
        self.orders.scan()
    }

    /// The devices on sale that satisfy `spec`, in scan order.
    pub fn check_device_in_storage(&self, spec: &DeviceSpec) -> (r: Vec<Device>)
        ensures
            r@ == self.device_table().entries().filter(meets(*spec)),
    {
        let all = self.devices.scan();
        let mut out: Vec<Device> = Vec::new();
        let mut i: usize = 0;
        while i < all.len()
            invariant
                0 <= i <= all@.len(),
                out@ == all@.subrange(0, i as int).filter(meets(*spec)),
            decreases all@.len() - i,
        {
            proof {
                assert(all@.subrange(0, i + 1) == all@.subrange(0, i as int).push(all@[i as int]));
                all@.subrange(0, i as int).lemma_filter_push(all@[i as int], meets(*spec));
            }
            if device_qualifies(spec, &all[i]) {
                out.push(all[i].duplicate());
            }
            i = i + 1;
        }
        assert(all@.subrange(0, all@.len() as int) == all@);
        out
    }
}

} // verus!
