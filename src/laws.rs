//! Laws that relate several operations of the marketplace.
use vstd::prelude::*;
use crate::market::{user_added, with_device, Marketplace};
use crate::model::{MarketError, Role, User};

verus! {

/// Reading back a user that `add_user` stored, by the id it returned, gives
/// exactly the name, email and role that were added, under that id.
pub proof fn lemma_user_round_trip(
    before: Marketplace,
    after: Marketplace,
    name: String,
    email: String,
    role: Role,
    r: Result<u64, MarketError>,
)
    requires
        before.wf(),
        before.user_table().last_id() < u64::MAX,
        user_added(before, after, name, email, role, r),
    ensures
        r is Ok,
        after.user(r->Ok_0) == Some((User { id: r->Ok_0, name, email, role })),
{
}

/// Adding a device to a cart twice leaves the cart as after the first time,
/// and the device stands in it exactly once.
pub proof fn lemma_cart_add_idempotent(c: Option<Seq<u64>>, device_id: u64)
    requires
        c is Some ==> c->0.no_duplicates(),
    ensures
        with_device(Some(with_device(c, device_id)), device_id) == with_device(c, device_id),
        exists|i: int|
            0 <= i < with_device(c, device_id).len() && with_device(c, device_id)[i] == device_id
                && forall|j: int|
                0 <= j < with_device(c, device_id).len() && j != i ==> with_device(c, device_id)[j]
                    != device_id,
{
    let s = with_device(c, device_id);
    match c {
        Some(old_ids) => {
            if old_ids.contains(device_id) {
                let i = choose|i: int| 0 <= i < old_ids.len() && old_ids[i] == device_id;
                assert(forall|j: int| 0 <= j < s.len() && j != i ==> s[j] != s[i]);
            } else {
                let i = old_ids.len() as int;
                assert(s[i] == device_id);
                assert(s.contains(device_id));
                assert forall|j: int| 0 <= j < s.len() && j != i implies s[j] != device_id by {
                    assert(s[j] == old_ids[j]);
                }
            }
        },
        None => {
            assert(s[0] == device_id);
            assert(s.contains(device_id));
        },
    }
}

} // verus!
