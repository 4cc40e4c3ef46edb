//! Order book bookkeeping: order numbering, status changes and lookups. The quantities,
//! prices and security data of an order travel with it as opaque `details`.
use crate::calendar::{utc_now, Timestamp};
use vstd::prelude::*;

verus! {

/// Lifecycle status of an order.
#[derive(Debug, Clone, Copy, PartialEq, Eq, Structural)]
pub enum OrderStatus {
    Pending,
    Submitted,
    Filled,
    PartiallyFilled,
    Cancelled,
    Rejected,
}

/// Errors of the order book.
#[derive(Debug, Clone, Copy, PartialEq, Eq, Structural)]
pub enum OrderError {
    /// No order carries this id.
    NotFound(i32),
}

/// A request to trade, as produced by the strategy.
#[derive(Debug, Clone)]
pub struct OrderSignal<D> {
    pub symbol: String,
    pub action: String,
    pub order_type: String,
    pub reason: String,
    pub details: D,
}

/// An order held by the order book.
#[derive(Debug, Clone)]
pub struct Order<D> {
    pub id: i32,
    pub symbol: String,
    pub action: String,
    pub order_type: String,
    pub status: OrderStatus,
    /// When the order was created.
    pub timestamp: Timestamp,
    pub details: D,
}

/// First id handed out by a new order book.
pub const FIRST_ORDER_ID: i32 = 1000;

/// Orders still waiting for the broker: pending or submitted.
pub open spec fn is_open_status(s: OrderStatus) -> bool {
    s == OrderStatus::Pending || s == OrderStatus::Submitted
}

/// Ids strictly increase along the sequence and stay below `next`.
pub open spec fn ids_ordered_below<D>(orders: Seq<Order<D>>, next: int) -> bool {
    &&& forall|i: int, j: int| 0 <= i < j < orders.len() ==> orders[i].id < orders[j].id
    &&& forall|i: int| 0 <= i < orders.len() ==> orders[i].id < next
}

/// Index of the first order with the given id, or `orders.len()` if none has it.
pub open spec fn index_of_id<D>(orders: Seq<Order<D>>, id: i32) -> int
    decreases orders.len(),
{
    if orders.len() == 0 {
        0
    } else if orders[0].id == id {
        0
    } else {
        1 + index_of_id(orders.drop_first(), id)
    }
}

/// The order with the given id, if any.
pub open spec fn find_order<D>(orders: Seq<Order<D>>, id: i32) -> Option<Order<D>> {
    let k = index_of_id(orders, id);
    if k < orders.len() {
        Some(orders[k])
    } else {
        None
    }
}

/// The orders with the given status replaced for every order carrying `id`.
pub open spec fn with_status<D>(orders: Seq<Order<D>>, id: i32, status: OrderStatus) -> Seq<Order<D>> {
    orders.map_values(
        |o: Order<D>|
            if o.id == id {
                Order { status: status, ..o }
            } else {
                o
            },
    )
}

/// Order book: orders in creation order, with increasing ids.
pub struct OrderManager<D> {
    orders: Vec<Order<D>>,
    next_order_id: i32,
}

impl<D> OrderManager<D> {
    #[verifier::type_invariant]
    spec fn well_formed(self) -> bool {
        &&& FIRST_ORDER_ID <= self.next_order_id
        &&& ids_ordered_below(self.orders@, self.next_order_id as int)
    }

    /// All orders, oldest first.
    pub closed spec fn orders_view(self) -> Seq<Order<D>> {
        self.orders@
    }

    /// The id the next created order receives.
    pub closed spec fn next_id_view(self) -> int {
        self.next_order_id as int
    }

    /// An empty order book whose first id is 1000.
    pub fn new() -> (m: Self)
        ensures
            m.orders_view() == Seq::<Order<D>>::empty(),
            m.next_id_view() == FIRST_ORDER_ID,
    {
        OrderManager { orders: Vec::new(), next_order_id: FIRST_ORDER_ID }
    }

    /// The id the next created order receives.
    pub fn next_order_id(&self) -> (id: i32)
        ensures
            id == self.next_id_view(),
            FIRST_ORDER_ID <= id,
            ids_ordered_below(self.orders_view(), id as int),
    {
        proof {
            use_type_invariant(self);
        }
        self.next_order_id
    }

    /// Records a new pending order for the signal under the next id, stamped with the current
    /// time, and returns a copy.
    pub fn create_order(&mut self, signal: OrderSignal<D>) -> (order: Order<D>)
        where
            D: Clone,
        requires
            old(self).next_id_view() < i32::MAX,
        ensures
            final(self).next_id_view() == old(self).next_id_view() + 1,
            final(self).orders_view() == old(self).orders_view().push(
                Order {
                    id: old(self).next_id_view() as i32,
                    symbol: signal.symbol,
                    action: signal.action,
                    order_type: signal.order_type,
                    status: OrderStatus::Pending,
                    timestamp: order.timestamp,
                    details: signal.details,
                },
            ),
            order.timestamp.nanos < 1_000_000_000,
            order.id == old(self).next_id_view(),
            order.symbol == signal.symbol,
            order.action == signal.action,
            order.order_type == signal.order_type,
            order.status == OrderStatus::Pending,
            cloned(signal.details, order.details),
    {
        proof {
            use_type_invariant(&*self);
        }
        let id = self.next_order_id;
        let timestamp = utc_now();
        let copy = Order {
            id,
            symbol: signal.symbol.clone(),
            action: signal.action.clone(),
            order_type: signal.order_type.clone(),
            status: OrderStatus::Pending,
            timestamp,
            details: signal.details.clone(),
        };
        let order = Order {
            id,
            symbol: signal.symbol,
            action: signal.action,
            order_type: signal.order_type,
            status: OrderStatus::Pending,
            timestamp,
            details: signal.details,
        };
        let mut orders = Vec::new();
        std::mem::swap(&mut orders, &mut self.orders);
        orders.push(order);
        let ghost pushed = orders@;
        assert(ids_ordered_below(pushed, id + 1));
        *self = OrderManager { orders, next_order_id: id + 1 };
        copy
    }

    /// Sets the status of the order with the given id; fails, changing nothing, when no
    /// order has that id.
    pub fn update_order_status(&mut self, order_id: i32, status: OrderStatus) -> (res: Result<
        (),
        OrderError,
    >)
        ensures
            res is Ok <==> find_order(old(self).orders_view(), order_id) is Some,
            res matches Err(e) ==> e == OrderError::NotFound(order_id),
            res is Ok ==> final(self).orders_view() == with_status(
                old(self).orders_view(),
                order_id,
                status,
            ),
            res is Err ==> final(self).orders_view() == old(self).orders_view(),
            final(self).next_id_view() == old(self).next_id_view(),
    {
        proof {
            use_type_invariant(&*self);
        }
        match self.position_of(order_id) {
            None => Err(OrderError::NotFound(order_id)),
            Some(k) => {
                let mut orders = Vec::new();
                std::mem::swap(&mut orders, &mut self.orders);
                let ghost before = orders@;
                let mut order = orders.remove(k);
                order.status = status;
                let ghost changed = order;
                orders.insert(k, order);
                proof {
                    assert(orders@ =~= before.update(k as int, changed));
                    lemma_index_of_unique(before, order_id, k as int);
                    assert(orders@ =~= with_status(before, order_id, status)) by {
                        assert forall|i: int| 0 <= i < before.len() implies #[trigger] orders@[i]
                            == with_status(before, order_id, status)[i] by {
                            if i != k {
                                assert(before[i].id != order_id);
                            }
                        }
                    }
                }
                let next = self.next_order_id;
                *self = OrderManager { orders, next_order_id: next };
                Ok(())
            },
        }
    }

    /// Position of the order with the given id.
    fn position_of(&self, order_id: i32) -> (res: Option<usize>)
        ensures
            res matches Some(k) ==> k == index_of_id(self.orders_view(), order_id) && k
                < self.orders_view().len() && self.orders_view()[k as int].id == order_id,
            res is None <==> find_order(self.orders_view(), order_id) is None,
    {
        let mut i: usize = 0;
        while i < self.orders.len()
            invariant
                0 <= i <= self.orders@.len(),
                forall|j: int| 0 <= j < i ==> self.orders@[j].id != order_id,
            decreases self.orders@.len() - i,
        {
            if self.orders[i].id == order_id {
                proof {
                    lemma_index_of_first(self.orders@, order_id, i as int);
                }
                return Some(i);
            }
            i = i + 1;
        }
        proof {
            lemma_index_of_absent(self.orders@, order_id);
        }
        None
    }

    /// Orders still pending or submitted, oldest first.
    pub fn get_pending_orders(&self) -> (res: Vec<&Order<D>>)
        ensures
            res@.map_values(|o: &Order<D>| *o) == self.orders_view().filter(
                |o: Order<D>| is_open_status(o.status),
            ),
    {
        let mut res: Vec<&Order<D>> = Vec::new();
        let mut i: usize = 0;
        while i < self.orders.len()
            invariant
                0 <= i <= self.orders@.len(),
                res@.map_values(|o: &Order<D>| *o) == self.orders@.take(i as int).filter(
                    |o: Order<D>| is_open_status(o.status),
                ),
            decreases self.orders@.len() - i,
        {
            let o = &self.orders[i];
            let ghost before = res@;
            if o.status == OrderStatus::Pending || o.status == OrderStatus::Submitted {
                res.push(o);
            }
            proof {
                let pred = |o: Order<D>| is_open_status(o.status);
                assert(self.orders@.take(i + 1) =~= self.orders@.take(i as int).push(self.orders@[i as int]));
                self.orders@.take(i as int).lemma_filter_push(self.orders@[i as int], pred);
                assert(res@.map_values(|o: &Order<D>| *o) =~= self.orders@.take(i + 1).filter(pred));
            }
            i = i + 1;
        }
        assert(self.orders@.take(self.orders@.len() as int) =~= self.orders@);
        res
    }

    /// The order with the given id.
    pub fn get_order(&self, order_id: i32) -> (res: Option<&Order<D>>)
        ensures
            match res {
                Some(o) => find_order(self.orders_view(), order_id) == Some(*o),
                None => find_order(self.orders_view(), order_id) is None,
            },
    {
        match self.position_of(order_id) {
            Some(k) => Some(&self.orders[k]),
            None => None,
        }
    }

    /// Marks the order with the given id as cancelled.
    pub fn cancel_order(&mut self, order_id: i32) -> (res: Result<(), OrderError>)
        ensures
            res is Ok <==> find_order(old(self).orders_view(), order_id) is Some,
            res matches Err(e) ==> e == OrderError::NotFound(order_id),
            res is Ok ==> final(self).orders_view() == with_status(
                old(self).orders_view(),
                order_id,
                OrderStatus::Cancelled,
            ),
            res is Err ==> final(self).orders_view() == old(self).orders_view(),
            final(self).next_id_view() == old(self).next_id_view(),
    {
        self.update_order_status(order_id, OrderStatus::Cancelled)
    }
}

/// `index_of_id` finds the first position holding the id.
pub proof fn lemma_index_of_first<D>(orders: Seq<Order<D>>, id: i32, k: int)
    requires
        0 <= k < orders.len(),
        orders[k].id == id,
        forall|j: int| 0 <= j < k ==> orders[j].id != id,
    ensures
        index_of_id(orders, id) == k,
    decreases k,
{
    if k > 0 {
        lemma_index_of_first(orders.drop_first(), id, k - 1);
    }
}

/// Without the id, `index_of_id` runs off the end.
pub proof fn lemma_index_of_absent<D>(orders: Seq<Order<D>>, id: i32)
    requires
        forall|j: int| 0 <= j < orders.len() ==> orders[j].id != id,
    ensures
        index_of_id(orders, id) == orders.len(),
    decreases orders.len(),
{
    if orders.len() > 0 {
        lemma_index_of_absent(orders.drop_first(), id);
    }
}

/// With increasing ids, the id found at `k` occurs nowhere else.
pub proof fn lemma_index_of_unique<D>(orders: Seq<Order<D>>, id: i32, k: int)
    requires
        forall|i: int, j: int| 0 <= i < j < orders.len() ==> orders[i].id < orders[j].id,
        0 <= k < orders.len(),
        index_of_id(orders, id) == k,
        orders[k].id == id,
    ensures
        forall|j: int| 0 <= j < orders.len() && j != k ==> orders[j].id != id,
{
}

/// Ids that increase along the book are pairwise distinct.
pub proof fn law_order_ids_are_unique<D>(orders: Seq<Order<D>>, next: int, i: int, j: int)
    requires
        ids_ordered_below(orders, next),
        0 <= i < orders.len(),
        0 <= j < orders.len(),
        i != j,
    ensures
        orders[i].id != orders[j].id,
{
}

/// An order just created under the book's next id is what a lookup of that id returns,
/// and the orders already in the book are still found under their ids.
pub proof fn law_created_order_is_found<D>(orders: Seq<Order<D>>, created: Order<D>, id: i32)
    requires
        ids_ordered_below(orders, created.id as int),
    ensures
        find_order(orders.push(created), created.id) == Some(created),
        id != created.id ==> find_order(orders.push(created), id) == find_order(orders, id),
{
    lemma_index_of_absent(orders, created.id);
    lemma_index_of_push(orders, created, created.id);
    lemma_index_of_push(orders, created, id);
    lemma_index_of_bounded(orders, id);
    if id != created.id && index_of_id(orders, id) < orders.len() {
        assert(orders.push(created)[index_of_id(orders, id)] == orders[index_of_id(orders, id)]);
    }
}

/// `index_of_id` on a sequence with one more order at the end.
pub proof fn lemma_index_of_push<D>(orders: Seq<Order<D>>, last: Order<D>, id: i32)
    ensures
        index_of_id(orders, id) < orders.len() ==> index_of_id(orders.push(last), id) == index_of_id(
            orders,
            id,
        ),
        index_of_id(orders, id) >= orders.len() ==> index_of_id(orders.push(last), id) == (if last.id
            == id {
            orders.len() as int
        } else {
            orders.len() + 1int
        }),
        index_of_id(orders, id) <= orders.len(),
    decreases orders.len(),
{
    if orders.len() > 0 {
        let rest = orders.drop_first();
        assert(orders.push(last).drop_first() =~= rest.push(last));
        assert(orders.push(last)[0] == orders[0]);
        lemma_index_of_bounded(rest, id);
        lemma_index_of_push(rest, last, id);
        if orders[0].id != id {
            assert(index_of_id(orders, id) == 1 + index_of_id(rest, id));
            assert(index_of_id(orders.push(last), id) == 1 + index_of_id(rest.push(last), id));
        }
    } else {
        let single = orders.push(last);
        assert(single.drop_first() =~= Seq::<Order<D>>::empty());
        assert(index_of_id(single.drop_first(), id) == 0);
        assert(single[0] == last);
    }
}

/// A status change leaves the number of orders, their ids and every other order alone, and
/// the order found under the id then carries the new status.
pub proof fn law_status_change_touches_one_order<D>(
    orders: Seq<Order<D>>,
    id: i32,
    status: OrderStatus,
    i: int,
)
    requires
        forall|a: int, b: int| 0 <= a < b < orders.len() ==> orders[a].id < orders[b].id,
        0 <= i < orders.len(),
    ensures
        with_status(orders, id, status).len() == orders.len(),
        with_status(orders, id, status)[i].id == orders[i].id,
        orders[i].id != id ==> with_status(orders, id, status)[i] == orders[i],
        orders[i].id == id ==> with_status(orders, id, status)[i].status == status,
        find_order(orders, id) is Some ==> find_order(with_status(orders, id, status), id)
            == Some(Order { status: status, ..find_order(orders, id).unwrap() }),
{
    let changed = with_status(orders, id, status);
    lemma_index_of_bounded(orders, id);
    if index_of_id(orders, id) < orders.len() {
        let k = index_of_id(orders, id);
        lemma_index_of_hit(orders, id);
        assert forall|j: int| 0 <= j < k implies changed[j].id != id by {
            lemma_index_of_before(orders, id, j);
        }
        lemma_index_of_first(changed, id, k);
    }
}

/// `index_of_id` never exceeds the length.
pub proof fn lemma_index_of_bounded<D>(orders: Seq<Order<D>>, id: i32)
    ensures
        0 <= index_of_id(orders, id) <= orders.len(),
    decreases orders.len(),
{
    if orders.len() > 0 {
        lemma_index_of_bounded(orders.drop_first(), id);
    }
}

/// A found index holds the id.
pub proof fn lemma_index_of_hit<D>(orders: Seq<Order<D>>, id: i32)
    requires
        index_of_id(orders, id) < orders.len(),
    ensures
        orders[index_of_id(orders, id)].id == id,
    decreases orders.len(),
{
    if orders.len() > 0 && orders[0].id != id {
        let rest = orders.drop_first();
        lemma_index_of_bounded(rest, id);
        assert(index_of_id(orders, id) == 1 + index_of_id(rest, id));
        lemma_index_of_hit(rest, id);
        assert(rest[index_of_id(rest, id)] == orders[index_of_id(orders, id)]);
    }
}

/// Positions before the found index do not hold the id.
pub proof fn lemma_index_of_before<D>(orders: Seq<Order<D>>, id: i32, j: int)
    requires
        0 <= j < index_of_id(orders, id),
        j < orders.len(),
    ensures
        orders[j].id != id,
    decreases orders.len(),
{
    if j > 0 {
        lemma_index_of_before(orders.drop_first(), id, j - 1);
    }
}

/// Pending and submitted orders are exactly the ones reported as open; closed orders
/// (filled, partially filled, cancelled, rejected) never are.
pub proof fn law_pending_orders_are_open<D>(orders: Seq<Order<D>>, o: Order<D>)
    ensures
        orders.filter(|x: Order<D>| is_open_status(x.status)).contains(o) <==> (orders.contains(o)
            && (o.status == OrderStatus::Pending || o.status == OrderStatus::Submitted)),
{
    let pred = |x: Order<D>| is_open_status(x.status);
    let f = orders.filter(pred);
    if f.contains(o) {
        orders.lemma_filter_contains_rev(pred, o);
        let k = choose|k: int| 0 <= k < f.len() && f[k] == o;
        orders.lemma_filter_pred(pred, k);
    }
    if orders.contains(o) && pred(o) {
        let k = choose|k: int| 0 <= k < orders.len() && orders[k] == o;
        orders.lemma_filter_contains(pred, k);
    }
}

} // verus!
