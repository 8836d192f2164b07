//! The carts of all buyers: at most one per user.
use vstd::prelude::*;
use crate::model::Cart;

verus! {

pub open spec fn unique_owners(s: Seq<Cart>) -> bool {
    forall|i: int, j: int| 0 <= i < s.len() && 0 <= j < s.len() && i != j ==> s[i].user_id != s[j].user_id
}

pub open spec fn owns_cart(s: Seq<Cart>, u: u64) -> bool {
    exists|i: int| 0 <= i < s.len() && s[i].user_id == u
}

pub open spec fn cart_in(s: Seq<Cart>, u: u64) -> Option<Seq<u64>> {
    if owns_cart(s, u) {
        Some(s[choose|i: int| 0 <= i < s.len() && s[i].user_id == u].device_ids@)
    } else {
        None
    }
}

proof fn lemma_cart_at(s: Seq<Cart>, i: int)
    requires
        unique_owners(s),
        0 <= i < s.len(),
    ensures
        cart_in(s, s[i].user_id) == Some(s[i].device_ids@),
{
    assert(owns_cart(s, s[i].user_id));
}

pub struct CartBook {
    carts: Vec<Cart>,
}

impl CartBook {
    /// The device ids in the cart of user `u`, in the order they were added.
    pub closed spec fn cart_of(&self, u: u64) -> Option<Seq<u64>> {
        cart_in(self.carts@, u)
    }

    pub closed spec fn wf(&self) -> bool {
        &&& unique_owners(self.carts@)
        &&& forall|i: int| 0 <= i < self.carts@.len() ==> (#[trigger] self.carts@[i]).device_ids@.no_duplicates()
    }

    pub fn new() -> (b: Self)
        ensures
            b.wf(),
            forall|u: u64| #[trigger] b.cart_of(u) is None,
    {
        CartBook { carts: Vec::new() }
    }

    /// The position of the cart of `u`, if there is one.
    fn position(&self, u: u64) -> (r: Option<usize>)
        requires
            self.wf(),
        ensures
            r is None ==> self.cart_of(u) is None,
            r is Some ==> r->0 < self.carts@.len() && self.carts@[r->0 as int].user_id == u,
    {
        let mut i: usize = 0;
        while i < self.carts.len()
            invariant
                0 <= i <= self.carts@.len(),
                forall|j: int| 0 <= j < i ==> self.carts@[j].user_id != u,
            decreases self.carts@.len() - i,
        {
            if self.carts[i].user_id == u {
                return Some(i);
            }
            i = i + 1;
        }
        None
    }

    pub fn find(&self, u: u64) -> (r: Option<Vec<u64>>)
        requires
            self.wf(),
        ensures
            r is Some <==> self.cart_of(u) is Some,
            r is Some ==> self.cart_of(u) == Some(r->0@) && r->0@.no_duplicates(),
    {
        match self.position(u) {
            Some(i) => {
                proof {
                    lemma_cart_at(self.carts@, i as int);
                }
                let ids = self.carts[i].device_ids.clone();
                assert(ids@ =~= self.carts@[i as int].device_ids@);
                Some(ids)
            },
            None => None,
        }
    }

    /// Sets the cart of `u` to `ids`.
    pub fn store(&mut self, u: u64, ids: Vec<u64>)
        requires
            old(self).wf(),
            ids@.no_duplicates(),
        ensures
            final(self).wf(),
            forall|j: u64| #[trigger]
                final(self).cart_of(j) == if j == u {
                    Some(ids@)
                } else {
                    old(self).cart_of(j)
                },
    {
        let ghost s = self.carts@;
        let ghost v = ids@;
        match self.position(u) {
            Some(i) => {
                self.carts.set(i, Cart { user_id: u, device_ids: ids });
                proof {
                    let t = self.carts@;
                    assert(t == s.update(i as int, t[i as int]));
                    assert forall|j: u64| #[trigger] cart_in(t, j) == if j == u {
                        Some(v)
                    } else {
                        cart_in(s, j)
                    } by {
                        if j == u {
                            lemma_cart_at(t, i as int);
                        } else if owns_cart(s, j) {
                            let m = choose|m: int| 0 <= m < s.len() && s[m].user_id == j;
                            lemma_cart_at(s, m);
                            lemma_cart_at(t, m);
                        } else {
                            assert forall|m: int| 0 <= m < t.len() implies t[m].user_id != j by {
                                if m != i {
                                    assert(t[m] == s[m]);
                                }
                            }
                        }
                    }
                }
            },
            None => {
                self.carts.push(Cart { user_id: u, device_ids: ids });
                proof {
                    let t = self.carts@;
                    let n = s.len() as int;
                    assert forall|j: u64| #[trigger] cart_in(t, j) == if j == u {
                        Some(v)
                    } else {
                        cart_in(s, j)
                    } by {
                        if j == u {
                            lemma_cart_at(t, n);
                        } else if owns_cart(s, j) {
                            let m = choose|m: int| 0 <= m < s.len() && s[m].user_id == j;
                            lemma_cart_at(s, m);
                            assert(t[m] == s[m]);
                            lemma_cart_at(t, m);
                        } else {
                            assert forall|m: int| 0 <= m < t.len() implies t[m].user_id != j by {
                                if m < n {
                                    assert(t[m] == s[m]);
                                }
                            }
                        }
                    }
                }
            },
        }
    }

    /// Removes the cart of `u` and returns its device ids.
    pub fn remove(&mut self, u: u64) -> (r: Option<Vec<u64>>)
        requires
            old(self).wf(),
        ensures
            final(self).wf(),
            r is Some <==> old(self).cart_of(u) is Some,
            r is Some ==> old(self).cart_of(u) == Some(r->0@) && r->0@.no_duplicates(),
            forall|j: u64| #[trigger]
                final(self).cart_of(j) == if j == u {
                    None
                } else {
                    old(self).cart_of(j)
                },
    {
        let ghost s = self.carts@;
        match self.position(u) {
            Some(i) => {
                proof {
                    lemma_cart_at(s, i as int);
                }
                let cart = self.carts.remove(i);
                proof {
                    let t = self.carts@;
                    assert(t == s.remove(i as int));
                    assert forall|j: u64| #[trigger] cart_in(t, j) == if j == u {
                        None
                    } else {
                        cart_in(s, j)
                    } by {
                        if j == u {
                            assert forall|m: int| 0 <= m < t.len() implies t[m].user_id != j by {
                                if m < i {
                                    assert(t[m] == s[m]);
                                } else {
                                    assert(t[m] == s[m + 1]);
                                }
                            }
                        } else if owns_cart(s, j) {
                            let m = choose|m: int| 0 <= m < s.len() && s[m].user_id == j;
                            lemma_cart_at(s, m);
                            if m < i {
                                assert(t[m] == s[m]);
                                lemma_cart_at(t, m);
                            } else {
                                assert(t[m - 1] == s[m]);
                                lemma_cart_at(t, m - 1);
                            }
                        } else {
                            assert forall|m: int| 0 <= m < t.len() implies t[m].user_id != j by {
                                if m < i {
                                    assert(t[m] == s[m]);
                                } else {
                                    assert(t[m] == s[m + 1]);
                                }
                            }
                        }
                    }
                    assert forall|m: int| 0 <= m < t.len() implies (#[trigger] t[m]).device_ids@.no_duplicates() by {
                        if m < i {
                            assert(t[m] == s[m]);
                        } else {
                            assert(t[m] == s[m + 1]);
                        }
                    }
                }
                Some(cart.device_ids)
            },
            None => None,
        }
    }
}

} // verus!
