//! The refund ledger: an append-only record of refunds and their lines.
//!
//! A refund is a book entry. Recording one moves no money: the gateway is
//! told by whoever reverses the payment.

use vstd::prelude::*;
use crate::Id;
use crate::Timestamp;
use crate::database::has_row;
use crate::database::lemma_filter_step;
use crate::database::lemma_rows_pushed;
use crate::database::position;
use crate::database::row;
use crate::database::Database;
use crate::database::DatabaseView;
use crate::database::Row;
use crate::errors::BigNeonError;
use crate::errors::ErrorView;

verus! {

#[derive(Clone, Copy, Debug, PartialEq, Eq)]
pub struct Refund {
    pub id: Id,
    pub order_id: Id,
    /// Who recorded the refund.
    pub user_id: Id,
    pub created_at: Timestamp,
    pub updated_at: Timestamp,
}

/// How much of one order item a refund gives back.
#[derive(Clone, Copy, Debug, PartialEq, Eq)]
pub struct RefundItem {
    pub id: Id,
    pub refund_id: Id,
    pub order_item_id: Id,
    pub quantity: i64,
    pub amount: i64,
}

/// A refund that has not been stored yet.
#[derive(Clone, Copy, Debug, PartialEq, Eq)]
pub struct NewRefund {
    pub order_id: Id,
    pub user_id: Id,
}

/// A line of a refund that has not been stored yet.
#[derive(Clone, Copy, Debug, PartialEq, Eq)]
pub struct NewRefundItem {
    pub refund_id: Id,
    pub order_item_id: Id,
    pub quantity: i64,
    pub amount: i64,
}

impl Row for Refund {
    open spec fn row_id(&self) -> Id {
        self.id
    }

    fn id(&self) -> (r: Id) {
        self.id
    }
}

impl Row for RefundItem {
    open spec fn row_id(&self) -> Id {
        self.id
    }

    fn id(&self) -> (r: Id) {
        self.id
    }
}

impl DatabaseView {
    /// The lines of refund `refund_id`, in the order in which they were stored.
    pub open spec fn refund_items_of(self, refund_id: Id) -> Seq<RefundItem> {
        self.refund_items.filter(|item: RefundItem| item.refund_id == refund_id)
    }

    /// Why a line cannot be stored under `id`, if it cannot: its refund must
    /// exist and the identity must be free.
    pub open spec fn refund_item_rejection(self, new: NewRefundItem, id: Id) -> Option<ErrorView> {
        if !has_row(self.refunds, new.refund_id) {
            Some(ErrorView::NotFound)
        } else if has_row(self.refund_items, id) {
            Some(ErrorView::DuplicateKey)
        } else {
            None
        }
    }
}

impl Refund {
    /// A refund of `order_id`, recorded by `user_id`, that has not been stored yet.
    pub fn create(order_id: Id, user_id: Id) -> (r: NewRefund)
        ensures
            r == (NewRefund { order_id, user_id }),
    {
        NewRefund { order_id, user_id }
    }

    /// The refund with identity `id`.
    pub fn find(id: Id, db: &Database) -> (r: Result<Refund, BigNeonError>)
        ensures
            r is Ok <==> has_row(db@.refunds, id),
            r matches Ok(refund) ==> refund.id == id && db@.refunds.contains(refund) && (db@.wf() ==> refund
                == row(db@.refunds, id)),
            r matches Err(e) ==> e@ == ErrorView::NotFound,
    {
        match position(&db.refunds, id) {
            Some(i) => Ok(db.refunds[i]),
            None => Err(BigNeonError::NotFound),
        }
    }

    /// The lines of this refund, in the order in which they were stored.
    pub fn items(&self, db: &Database) -> (r: Vec<RefundItem>)
        ensures
            r@ == db@.refund_items_of(self.id),
    {
        let ghost pred = |item: RefundItem| item.refund_id == self.id;
        let mut out: Vec<RefundItem> = Vec::new();
        let mut i: usize = 0;
        assert(db@.refund_items.take(0).filter(pred) =~= Seq::empty()) by {
            reveal(Seq::filter);
        }
        while i < db.refund_items.len()
            invariant
                i <= db.refund_items.len(),
                pred == |item: RefundItem| item.refund_id == self.id,
                out@ == db@.refund_items.take(i as int).filter(pred),
            decreases db.refund_items.len() - i,
        {
            proof {
                lemma_filter_step(db@.refund_items, i as int, pred);
            }
            if db.refund_items[i].refund_id == self.id {
                out.push(db.refund_items[i]);
            }
            i += 1;
        }
        assert(db@.refund_items.take(i as int) == db@.refund_items);
        out
    }
}

impl NewRefund {
    /// Stores the refund under the identity `id`, created at `now`. Nothing
    /// about the refund is checked: it fails, and changes nothing, exactly if
    /// the identity is taken.
    pub fn commit(self, id: Id, now: Timestamp, db: &mut Database) -> (r: Result<Refund, BigNeonError>)
        requires
            old(db)@.wf(),
        ensures
            final(db)@.wf(),
            match r {
                Ok(refund) => {
                    &&& !has_row(old(db)@.refunds, id)
                    &&& refund == (Refund {
                        id,
                        order_id: self.order_id,
                        user_id: self.user_id,
                        created_at: now,
                        updated_at: now,
                    })
                    &&& final(db)@ == (DatabaseView { refunds: old(db)@.refunds.push(refund), ..old(db)@ })
                },
                Err(e) => {
                    &&& has_row(old(db)@.refunds, id)
                    &&& e@ == ErrorView::DuplicateKey
                    &&& final(db)@ == old(db)@
                },
            },
    {
        if position(&db.refunds, id).is_some() {
            return Err(BigNeonError::DuplicateKey);
        }
        let refund = Refund {
            id,
            order_id: self.order_id,
            user_id: self.user_id,
            created_at: now,
            updated_at: now,
        };
        proof {
            lemma_rows_pushed(db@.refunds, refund);
        }
        db.refunds.push(refund);
        Ok(refund)
    }
}

impl RefundItem {
    /// A line of refund `refund_id` that has not been stored yet.
    pub fn create(refund_id: Id, order_item_id: Id, quantity: i64, amount: i64) -> (r: NewRefundItem)
        ensures
            r == (NewRefundItem { refund_id, order_item_id, quantity, amount }),
    {
        NewRefundItem { refund_id, order_item_id, quantity, amount }
    }
}

impl NewRefundItem {
    /// Stores the line under the identity `id`. It is refused, and the image
    /// left as it was, exactly where [`DatabaseView::refund_item_rejection`]
    /// says so.
    pub fn commit(self, id: Id, db: &mut Database) -> (r: Result<RefundItem, BigNeonError>)
        requires
            old(db)@.wf(),
        ensures
            final(db)@.wf(),
            match r {
                Ok(item) => {
                    &&& old(db)@.refund_item_rejection(self, id) is None
                    &&& item == (RefundItem {
                        id,
                        refund_id: self.refund_id,
                        order_item_id: self.order_item_id,
                        quantity: self.quantity,
                        amount: self.amount,
                    })
                    &&& final(db)@ == (DatabaseView {
                        refund_items: old(db)@.refund_items.push(item),
                        ..old(db)@
                    })
                },
                Err(e) => old(db)@.refund_item_rejection(self, id) == Some(e@) && final(db)@ == old(db)@,
            },
    {
        if position(&db.refunds, self.refund_id).is_none() {
            return Err(BigNeonError::NotFound);
        }
        if position(&db.refund_items, id).is_some() {
            return Err(BigNeonError::DuplicateKey);
        }
        let item = RefundItem {
            id,
            refund_id: self.refund_id,
            order_item_id: self.order_item_id,
            quantity: self.quantity,
            amount: self.amount,
        };
        proof {
            lemma_rows_pushed(db@.refund_items, item);
        }
        db.refund_items.push(item);
        Ok(item)
    }
}

impl Database {
    /// Takes a refund into the image as it is, as when the image is loaded
    /// from the store. Fails with `DuplicateKey`, and changes nothing, exactly
    /// if the identity is taken.
    pub fn load_refund(&mut self, refund: Refund) -> (r: Result<(), BigNeonError>)
        requires
            old(self)@.wf(),
        ensures
            final(self)@.wf(),
            r is Ok <==> !has_row(old(self)@.refunds, refund.id),
            r is Ok ==> final(self)@ == (DatabaseView { refunds: old(self)@.refunds.push(refund), ..old(self)@ }),
            r matches Err(e) ==> e@ == ErrorView::DuplicateKey && final(self)@ == old(self)@,
    {
        if position(&self.refunds, refund.id).is_some() {
            return Err(BigNeonError::DuplicateKey);
        }
        proof {
            lemma_rows_pushed(self@.refunds, refund);
        }
        self.refunds.push(refund);
        Ok(())
    }
}

} // verus!
