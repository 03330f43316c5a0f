//! The trust graph: a directed graph of credit, and payment paths through it.
//!
//! An edge from one agent to another carries how much credit the first extends
//! to the second. Payments are routed by repeated breadth-first search in the
//! residual graph, which finds a maximum flow.
use crate::credit::BilateralCreditView;
use crate::ledger::{self, CreditLedger};
use crate::table::{self, Group, Key, Table};
use crate::twin::Twin;
use crate::types::Did;
use vstd::prelude::*;
use vstd::seq_lib::*;
use vstd::set_lib::*;

verus! {

/// A single hop in a payment path.
#[derive(Debug, PartialEq, Eq)]
pub struct PaymentHop {
    /// The intermediary or final recipient.
    pub to: Did,
    /// The amount to route through this hop.
    pub amount: u64,
}

/// The mathematical form of [`PaymentHop`].
#[verifier::ext_equal]
pub struct PaymentHopView {
    pub to: Seq<char>,
    pub amount: u64,
}

impl DeepView for PaymentHop {
    type V = PaymentHopView;

    open spec fn deep_view(&self) -> PaymentHopView {
        PaymentHopView {
            to: self.to.deep_view(),
            amount: self.amount.deep_view(),
        }
    }
}

impl Twin for PaymentHop {
    fn twin(&self) -> (r: Self) {
        PaymentHop {
            to: self.to.twin(),
            amount: self.amount.twin(),
        }
    }
}

impl Clone for PaymentHop {
    fn clone(&self) -> (r: Self)
        ensures
            r.deep_view() == self.deep_view(),
    {
        self.twin()
    }
}

/// A complete payment path from sender to recipient.
#[derive(Debug, PartialEq, Eq)]
pub struct PaymentPath {
    /// The hops from sender to recipient.
    pub hops: Vec<PaymentHop>,
    /// The amount that flows through this path.
    pub capacity: u64,
}

/// The mathematical form of [`PaymentPath`].
#[verifier::ext_equal]
pub struct PaymentPathView {
    pub hops: Seq<PaymentHopView>,
    pub capacity: u64,
}

impl DeepView for PaymentPath {
    type V = PaymentPathView;

    open spec fn deep_view(&self) -> PaymentPathView {
        PaymentPathView {
            hops: self.hops.deep_view(),
            capacity: self.capacity.deep_view(),
        }
    }
}

impl Twin for PaymentPath {
    fn twin(&self) -> (r: Self) {
        PaymentPath {
            hops: self.hops.twin(),
            capacity: self.capacity.twin(),
        }
    }
}

impl Clone for PaymentPath {
    fn clone(&self) -> (r: Self)
        ensures
            r.deep_view() == self.deep_view(),
    {
        self.twin()
    }
}

/// The largest capacity that an edge can have.
pub const LIMIT: u128 = 0xffff_ffff_ffff_ffff;

/// Rows of capacities between agents.
pub type Rooms = Seq<((Seq<char>, Seq<char>), u128)>;

/// The capacity from one agent to another.
pub open spec fn room(rows: Rooms, a: Seq<char>, b: Seq<char>) -> int {
    match table::find(rows, (a, b)) {
        Some(n) => n as int,
        None => 0,
    }
}

/// The capacity of a step of a path.
pub open spec fn step(rows: Rooms, path: Seq<Seq<char>>, i: int) -> int {
    room(rows, path[i], path[i + 1])
}

/// Whether every step of a path has capacity.
pub open spec fn walkable(rows: Rooms, path: Seq<Seq<char>>) -> bool {
    forall|i: int| 0 <= i < path.len() - 1 ==> #[trigger] step(rows, path, i) > 0
}

/// Whether a path leads from one agent to another over open steps.
pub open spec fn leads(
    rows: Rooms,
    path: Seq<Seq<char>>,
    source: Seq<char>,
    sink: Seq<char>,
) -> bool {
    &&& path.len() >= 1
    &&& path[0] == source
    &&& path.last() == sink
    &&& walkable(rows, path)
}

/// Whether any path leads from one agent to another.
pub open spec fn connected(rows: Rooms, source: Seq<char>, sink: Seq<char>) -> bool {
    exists|path: Seq<Seq<char>>| leads(rows, path, source, sink)
}

/// Whether a path is a shortest one and passes no agent twice.
pub open spec fn shortest(
    rows: Rooms,
    path: Seq<Seq<char>>,
    source: Seq<char>,
    sink: Seq<char>,
) -> bool {
    &&& leads(rows, path, source, sink)
    &&& path.no_duplicates()
    &&& forall|other: Seq<Seq<char>>|
        leads(rows, other, source, sink) ==> path.len() <= #[trigger] other.len()
}

/// The least capacity along a path of at least one step.
pub open spec fn narrowest(rows: Rooms, path: Seq<Seq<char>>) -> int
    decreases path.len(),
{
    let last = room(rows, path[path.len() - 2], path[path.len() - 1]);
    if path.len() <= 2 {
        last
    } else {
        let before = narrowest(rows, path.drop_last());
        if before <= last {
            before
        } else {
            last
        }
    }
}

/// The capacities after a flow over one edge: less forward, more backward.
pub open spec fn push_edge(rows: Rooms, a: Seq<char>, b: Seq<char>, flow: int) -> Rooms {
    let forward = table::put(rows, (a, b), (room(rows, a, b) - flow) as u128);
    table::put(forward, (b, a), (room(forward, b, a) + flow) as u128)
}

/// The capacities after a flow along a path.
pub open spec fn pushed(rows: Rooms, path: Seq<Seq<char>>, flow: int) -> Rooms
    decreases path.len(),
{
    if path.len() < 2 {
        rows
    } else {
        push_edge(
            pushed(rows, path.drop_last(), flow),
            path[path.len() - 2],
            path[path.len() - 1],
            flow,
        )
    }
}

/// The agents that a payment path passes, its sender first.
pub open spec fn stations(sender: Seq<char>, path: PaymentPathView) -> Seq<Seq<char>> {
    seq![sender] + Seq::new(path.hops.len(), |i: int| path.hops[i].to)
}

/// The lesser of two numbers.
pub open spec fn least(a: int, b: int) -> int {
    if a <= b {
        a
    } else {
        b
    }
}

/// Whether one payment path is a next step of the search: a shortest path with
/// the most flow that its narrowest edge and the amount allow.
pub open spec fn augments(
    rows: Rooms,
    sender: Seq<char>,
    recipient: Seq<char>,
    amount: int,
    path: PaymentPathView,
) -> bool {
    &&& shortest(rows, stations(sender, path), sender, recipient)
    &&& path.capacity == least(narrowest(rows, stations(sender, path)), amount)
    &&& forall|i: int| 0 <= i < path.hops.len() ==> (#[trigger] path.hops[i]).amount == path.capacity
}

/// The total amount over all paths.
pub open spec fn total(paths: Seq<PaymentPathView>) -> int
    decreases paths.len(),
{
    if paths.len() == 0 {
        0
    } else {
        total(paths.drop_last()) + paths.last().capacity
    }
}

/// The capacities left after payments along several paths.
pub open spec fn residual(rows: Rooms, sender: Seq<char>, paths: Seq<PaymentPathView>) -> Rooms
    decreases paths.len(),
{
    if paths.len() == 0 {
        rows
    } else {
        pushed(
            residual(rows, sender, paths.drop_last()),
            stations(sender, paths.last()),
            paths.last().capacity as int,
        )
    }
}

/// Whether each path augments the flow of those before it.
pub open spec fn chosen(
    rows: Rooms,
    sender: Seq<char>,
    recipient: Seq<char>,
    amount: int,
    paths: Seq<PaymentPathView>,
) -> bool
    decreases paths.len(),
{
    paths.len() == 0 || {
        let front = paths.drop_last();
        &&& chosen(rows, sender, recipient, amount, front)
        &&& total(front) < amount
        &&& augments(
            residual(rows, sender, front),
            sender,
            recipient,
            amount - total(front),
            paths.last(),
        )
    }
}

/// Whether payment paths are what the search yields: each augments the flow of
/// those before it, and the list ends when the amount is routed, when there are
/// enough paths, or when no path is left.
pub open spec fn routed(
    rows: Rooms,
    sender: Seq<char>,
    recipient: Seq<char>,
    amount: int,
    max_paths: int,
    paths: Seq<PaymentPathView>,
) -> bool {
    &&& chosen(rows, sender, recipient, amount, paths)
    &&& paths.len() <= max_paths
    &&& total(paths) < amount && paths.len() < max_paths ==> !connected(
        residual(rows, sender, paths),
        sender,
        recipient,
    )
}

/// The capacity that leads out of a set of agents.
pub open spec fn cut(rows: Rooms, inside: spec_fn(Seq<char>) -> bool) -> int
    decreases rows.len(),
{
    if rows.len() == 0 {
        0
    } else {
        let row = rows.last();
        cut(rows.drop_last(), inside) + (if inside(row.0.0) && !inside(row.0.1) {
            row.1 as int
        } else {
            0
        })
    }
}

/// Capacities in the range of wide numbers.
pub open spec fn widened(rows: Seq<((Seq<char>, Seq<char>), u64)>) -> Rooms {
    Seq::new(rows.len(), |i: int| (rows[i].0, rows[i].1 as u128))
}

/// Both directions between two agents together stay within twice the limit.
pub open spec fn bounded(rows: Rooms) -> bool {
    forall|a: Seq<char>, b: Seq<char>|
        (#[trigger] room(rows, a, b)) + room(rows, b, a) <= 2 * LIMIT
}

proof fn lemma_push_edge(rows: Rooms, a: Seq<char>, b: Seq<char>, flow: int)
    requires
        table::distinct(rows),
        bounded(rows),
        a != b,
        0 <= flow <= room(rows, a, b),
    ensures
        table::distinct(push_edge(rows, a, b, flow)),
        bounded(push_edge(rows, a, b, flow)),
        room(push_edge(rows, a, b, flow), a, b) == room(rows, a, b) - flow,
        room(push_edge(rows, a, b, flow), b, a) == room(rows, b, a) + flow,
        forall|x: Seq<char>, y: Seq<char>|
            !(x == a && y == b) && !(x == b && y == a) ==> #[trigger] room(
                push_edge(rows, a, b, flow),
                x,
                y,
            ) == room(rows, x, y),
{
    let less = (room(rows, a, b) - flow) as u128;
    let forward = table::put(rows, (a, b), less);
    assert(room(rows, a, b) + room(rows, b, a) <= 2 * LIMIT);
    table::lemma_put_find(rows, (a, b), less, (b, a));
    assert((b, a) != (a, b));
    assert(room(forward, b, a) == room(rows, b, a));
    let more = (room(forward, b, a) + flow) as u128;
    let after = push_edge(rows, a, b, flow);
    table::lemma_put_find(forward, (b, a), more, (a, b));
    assert forall|x: Seq<char>, y: Seq<char>|
        !(x == a && y == b) && !(x == b && y == a) implies #[trigger] room(after, x, y) == room(
        rows,
        x,
        y,
    ) by {
        table::lemma_put_find(rows, (a, b), less, (x, y));
        table::lemma_put_find(forward, (b, a), more, (x, y));
    }
    assert forall|x: Seq<char>, y: Seq<char>| (#[trigger] room(after, x, y)) + room(
        after,
        y,
        x,
    ) <= 2 * LIMIT by {
        assert(room(rows, x, y) + room(rows, y, x) <= 2 * LIMIT);
    }
}

/// A flow within the capacity of a simple path leaves every pair of agents
/// with the capacity it had in both directions together.
proof fn lemma_pushed(rows: Rooms, path: Seq<Seq<char>>, flow: int)
    requires
        table::distinct(rows),
        bounded(rows),
        path.no_duplicates(),
        0 <= flow,
        forall|i: int| 0 <= i < path.len() - 1 ==> flow <= #[trigger] step(rows, path, i),
    ensures
        table::distinct(pushed(rows, path, flow)),
        bounded(pushed(rows, path, flow)),
        forall|x: Seq<char>, y: Seq<char>|
            !path.contains(x) || !path.contains(y) ==> #[trigger] room(
                pushed(rows, path, flow),
                x,
                y,
            ) == room(rows, x, y),
        forall|x: Seq<char>, y: Seq<char>|
            (#[trigger] room(pushed(rows, path, flow), x, y)) + room(
                pushed(rows, path, flow),
                y,
                x,
            ) == room(rows, x, y) + room(rows, y, x),
    decreases path.len(),
{
    if path.len() >= 2 {
        let front = path.drop_last();
        let a = path[path.len() - 2];
        let b = path[path.len() - 1];
        assert forall|i: int| 0 <= i < front.len() - 1 implies flow <= #[trigger] step(
            rows,
            front,
            i,
        ) by {
            assert(step(rows, front, i) == step(rows, path, i));
        }
        lemma_pushed(rows, front, flow);
        let mid = pushed(rows, front, flow);
        assert(!front.contains(b)) by {
            if front.contains(b) {
                let i = front.index_of(b);
                assert(path[i] == path[path.len() - 1]);
            }
        }
        assert(a != b);
        assert(room(mid, a, b) == room(rows, a, b));
        assert(flow <= step(rows, path, path.len() - 2));
        lemma_push_edge(mid, a, b, flow);
        let after = pushed(rows, path, flow);
        assert(path.contains(a) && path.contains(b));
        assert forall|x: Seq<char>, y: Seq<char>|
            !path.contains(x) || !path.contains(y) implies #[trigger] room(after, x, y) == room(
            rows,
            x,
            y,
        ) by {
            assert(front.contains(x) ==> path.contains(x)) by {
                if front.contains(x) {
                    assert(path[front.index_of(x)] == x);
                }
            }
            assert(front.contains(y) ==> path.contains(y)) by {
                if front.contains(y) {
                    assert(path[front.index_of(y)] == y);
                }
            }
            assert(room(after, x, y) == room(mid, x, y));
        }
        assert forall|x: Seq<char>, y: Seq<char>| (#[trigger] room(after, x, y)) + room(
            after,
            y,
            x,
        ) == room(rows, x, y) + room(rows, y, x) by {
            assert(room(mid, x, y) + room(mid, y, x) == room(rows, x, y) + room(rows, y, x));
        }
    }
}

proof fn lemma_narrowest(rows: Rooms, path: Seq<Seq<char>>)
    requires
        path.len() >= 2,
    ensures
        forall|i: int|
            0 <= i < path.len() - 1 ==> narrowest(rows, path) <= #[trigger] step(rows, path, i),
        walkable(rows, path) ==> narrowest(rows, path) > 0,
    decreases path.len(),
{
    assert(step(rows, path, path.len() - 2) == room(
        rows,
        path[path.len() - 2],
        path[path.len() - 1],
    ));
    if path.len() > 2 {
        let front = path.drop_last();
        lemma_narrowest(rows, front);
        assert forall|i: int| 0 <= i < path.len() - 1 implies narrowest(rows, path)
            <= #[trigger] step(rows, path, i) by {
            if i < path.len() - 2 {
                assert(step(rows, front, i) == step(rows, path, i));
            }
        }
        if walkable(rows, path) {
            assert forall|i: int| 0 <= i < front.len() - 1 implies #[trigger] step(
            rows,
            front,
            i,
        ) > 0 by {
            assert(step(rows, front, i) == step(rows, path, i));
            }
        }
    }
}

proof fn lemma_cut_put(
    rows: Rooms,
    a: Seq<char>,
    b: Seq<char>,
    n: u128,
    inside: spec_fn(Seq<char>) -> bool,
)
    requires
        table::distinct(rows),
    ensures
        cut(table::put(rows, (a, b), n), inside) == cut(rows, inside) + (if inside(a) && !inside(
            b,
        ) {
            n - room(rows, a, b)
        } else {
            0
        }),
    decreases rows.len(),
{
    let after = table::put(rows, (a, b), n);
    if !table::holds(rows, (a, b)) {
        assert(after.drop_last() =~= rows);
    } else {
        let p = table::place(rows, (a, b));
        assert(rows[p].0 == (a, b));
        let front = rows.drop_last();
        assert forall|i: int, j: int| 0 <= i < j < front.len() implies #[trigger] front[i].0
            != #[trigger] front[j].0 by {
            assert(rows[i].0 != rows[j].0);
        }
        if p == rows.len() - 1 {
            assert(after.drop_last() =~= front);
        } else {
            assert(front[p].0 == (a, b));
            table::lemma_place_unique(front, (a, b), p);
            assert(after.drop_last() =~= table::put(front, (a, b), n));
            lemma_cut_put(front, a, b, n, inside);
        }
    }
}

/// One where the agent is inside, zero where it is not.
pub open spec fn weight(inside: spec_fn(Seq<char>) -> bool, a: Seq<char>) -> int {
    if inside(a) {
        1
    } else {
        0
    }
}

proof fn lemma_cut_pushed(
    rows: Rooms,
    path: Seq<Seq<char>>,
    flow: int,
    inside: spec_fn(Seq<char>) -> bool,
)
    requires
        table::distinct(rows),
        bounded(rows),
        path.len() >= 1,
        path.no_duplicates(),
        0 <= flow,
        forall|i: int| 0 <= i < path.len() - 1 ==> flow <= #[trigger] step(rows, path, i),
    ensures
        cut(pushed(rows, path, flow), inside) == cut(rows, inside) - flow * (weight(
            inside,
            path[0],
        ) - weight(inside, path.last())),
    decreases path.len(),
{
    if path.len() >= 2 {
        let front = path.drop_last();
        let a = path[path.len() - 2];
        let b = path[path.len() - 1];
        assert forall|i: int| 0 <= i < front.len() - 1 implies flow <= #[trigger] step(
            rows,
            front,
            i,
        ) by {
            assert(step(rows, front, i) == step(rows, path, i));
        }
        lemma_cut_pushed(rows, front, flow, inside);
        lemma_pushed(rows, front, flow);
        let mid = pushed(rows, front, flow);
        assert(!front.contains(b)) by {
            if front.contains(b) {
                let i = front.index_of(b);
                assert(path[i] == path[path.len() - 1]);
            }
        }
        assert(room(mid, a, b) == room(rows, a, b));
        assert(flow <= step(rows, path, path.len() - 2));
        lemma_push_edge(mid, a, b, flow);
        let less = (room(mid, a, b) - flow) as u128;
        let forward = table::put(mid, (a, b), less);
        table::lemma_put_find(mid, (a, b), less, (b, a));
        assert(room(mid, a, b) + room(mid, b, a) <= 2 * LIMIT);
        lemma_cut_put(mid, a, b, less, inside);
        lemma_cut_put(forward, b, a, (room(forward, b, a) + flow) as u128, inside);
        let wa = weight(inside, a);
        let wb = weight(inside, b);
        let w0 = weight(inside, path[0]);
        assert(cut(pushed(rows, path, flow), inside) == cut(mid, inside) - flow * (wa - wb)) by {
            if wa == wb {
                assert(flow * (wa - wb) == 0) by (nonlinear_arith)
                    requires
                        wa == wb,
                ;
            } else if wa == 1 {
                assert(flow * (wa - wb) == flow) by (nonlinear_arith)
                    requires
                        wa == 1,
                        wb == 0,
                ;
            } else {
                assert(flow * (wa - wb) == -flow) by (nonlinear_arith)
                    requires
                        wa == 0,
                        wb == 1,
                ;
            }
        }
        assert(flow * (w0 - wa) + flow * (wa - wb) == flow * (w0 - wb)) by (nonlinear_arith);
    } else {
        assert(flow * 0 == 0);
    }
}

proof fn lemma_cut_nonnegative(rows: Rooms, inside: spec_fn(Seq<char>) -> bool)
    ensures
        cut(rows, inside) >= 0,
    decreases rows.len(),
{
    if rows.len() > 0 {
        lemma_cut_nonnegative(rows.drop_last(), inside);
    }
}

proof fn lemma_cut_closed(rows: Rooms, inside: spec_fn(Seq<char>) -> bool)
    requires
        forall|i: int|
            0 <= i < rows.len() && inside((#[trigger] rows[i]).0.0) && !inside(rows[i].0.1)
                ==> rows[i].1 == 0,
    ensures
        cut(rows, inside) == 0,
    decreases rows.len(),
{
    if rows.len() > 0 {
        let front = rows.drop_last();
        assert forall|i: int|
            0 <= i < front.len() && inside((#[trigger] front[i]).0.0) && !inside(
                front[i].0.1,
            ) implies front[i].1 == 0 by {
            assert(front[i] == rows[i]);
        }
        lemma_cut_closed(front, inside);
        let row = rows[rows.len() - 1];
    }
}

/// What the chosen paths leave: the rows stay in order, and every cut has lost
/// what was routed.
proof fn lemma_chosen(
    rows: Rooms,
    sender: Seq<char>,
    recipient: Seq<char>,
    amount: int,
    paths: Seq<PaymentPathView>,
)
    requires
        table::distinct(rows),
        bounded(rows),
        sender != recipient,
        amount >= 0,
        chosen(rows, sender, recipient, amount, paths),
    ensures
        0 <= total(paths) <= amount,
        table::distinct(residual(rows, sender, paths)),
        bounded(residual(rows, sender, paths)),
        forall|inside: spec_fn(Seq<char>) -> bool|
            inside(sender) && !inside(recipient) ==> #[trigger] cut(rows, inside) == cut(
                residual(rows, sender, paths),
                inside,
            ) + total(paths),
    decreases paths.len(),
{
    if paths.len() > 0 {
        let front = paths.drop_last();
        lemma_chosen(rows, sender, recipient, amount, front);
        let before = residual(rows, sender, front);
        lemma_augments(before, sender, recipient, amount - total(front), paths.last());
    }
}

proof fn lemma_augments(
    rows: Rooms,
    sender: Seq<char>,
    recipient: Seq<char>,
    amount: int,
    path: PaymentPathView,
)
    requires
        table::distinct(rows),
        bounded(rows),
        sender != recipient,
        amount > 0,
        augments(rows, sender, recipient, amount, path),
    ensures
        0 < path.capacity <= amount,
        ({
            let after = pushed(rows, stations(sender, path), path.capacity as int);
            &&& table::distinct(after)
            &&& bounded(after)
            &&& forall|inside: spec_fn(Seq<char>) -> bool|
                inside(sender) && !inside(recipient) ==> #[trigger] cut(rows, inside) == cut(
                    after,
                    inside,
                ) + path.capacity
        }),
{
    let flow = path.capacity as int;
    let way = stations(sender, path);
    let after = pushed(rows, way, flow);
    assert(way.len() >= 2) by {
        if way.len() == 1 {
            assert(way.last() == way[0]);
        }
    }
    lemma_narrowest(rows, way);
    lemma_pushed(rows, way, flow);
    assert forall|inside: spec_fn(Seq<char>) -> bool|
        inside(sender) && !inside(recipient) implies #[trigger] cut(rows, inside) == cut(
        after,
        inside,
    ) + flow by {
        lemma_cut_pushed(rows, way, flow, inside);
        assert(flow * 1 == flow);
    }
}

/// Where no path is left, some set of agents lets nothing out.
proof fn lemma_unconnected(rows: Rooms, sender: Seq<char>, recipient: Seq<char>)
    requires
        table::distinct(rows),
        !connected(rows, sender, recipient),
    ensures
        exists|inside: spec_fn(Seq<char>) -> bool|
            inside(sender) && !inside(recipient) && #[trigger] cut(rows, inside) == 0,
{
    let reach = |x: Seq<char>| connected(rows, sender, x);
    assert(leads(rows, seq![sender], sender, sender));
    assert forall|i: int|
        0 <= i < rows.len() && reach((#[trigger] rows[i]).0.0) && !reach(rows[i].0.1) implies rows[i].1
        == 0 by {
        let a = rows[i].0.0;
        let b = rows[i].0.1;
        if rows[i].1 > 0 {
            table::lemma_place_unique(rows, (a, b), i);
            let way = choose|way: Seq<Seq<char>>| leads(rows, way, sender, a);
            let longer = way.push(b);
            assert forall|k: int| 0 <= k < longer.len() - 1 implies #[trigger] step(
                rows,
                longer,
                k,
            ) > 0 by {
                if k < way.len() - 1 {
                    assert(step(rows, way, k) > 0);
                }
            }
            assert(leads(rows, longer, sender, b));
        }
    }
    lemma_cut_closed(rows, reach);
    assert(reach(sender) && !reach(recipient));
}

/// Routing keeps to the amount and to the number of paths and never exceeds the
/// capacity out of any set of agents that holds the sender and not the
/// recipient; and when it ends short of the amount with paths to spare, it has
/// routed as much as some such set lets out, which is the maximum.
pub proof fn lemma_routing_is_maximal(
    edges: Seq<((Seq<char>, Seq<char>), u64)>,
    sender: Seq<char>,
    recipient: Seq<char>,
    amount: u64,
    max_paths: usize,
    paths: Seq<PaymentPathView>,
)
    requires
        table::distinct(edges),
        sender != recipient,
        routed(
            widened(edges),
            sender,
            recipient,
            amount as int,
            max_paths as int,
            paths,
        ),
    ensures
        0 <= total(paths) <= amount,
        paths.len() <= max_paths,
        forall|inside: spec_fn(Seq<char>) -> bool|
            inside(sender) && !inside(recipient) ==> total(paths) <= #[trigger] cut(
                widened(edges),
                inside,
            ),
        total(paths) < amount && paths.len() < max_paths ==> exists|
            inside: spec_fn(Seq<char>) -> bool,
        |
            inside(sender) && !inside(recipient) && total(paths) == #[trigger] cut(
                widened(edges),
                inside,
            ),
{
    let rows = widened(edges);
    lemma_widened(edges);
    lemma_chosen(rows, sender, recipient, amount as int, paths);
    let rest = residual(rows, sender, paths);
    assert forall|inside: spec_fn(Seq<char>) -> bool|
        inside(sender) && !inside(recipient) implies total(paths) <= #[trigger] cut(
        rows,
        inside,
    ) by {
        lemma_cut_nonnegative(rest, inside);
    }
    if total(paths) < amount && paths.len() < max_paths {
        lemma_unconnected(rest, sender, recipient);
        let inside = choose|inside: spec_fn(Seq<char>) -> bool|
            inside(sender) && !inside(recipient) && #[trigger] cut(rest, inside) == 0;
        assert(total(paths) == cut(rows, inside));
    }
}

/// A flow along a path opens no step but the steps of the path backward.
#[verifier::spinoff_prover]
#[verifier::rlimit(40)]
proof fn lemma_opened(rows: Rooms, path: Seq<Seq<char>>, flow: int, x: Seq<char>, y: Seq<char>)
    requires
        table::distinct(rows),
        bounded(rows),
        path.no_duplicates(),
        0 <= flow,
        forall|i: int| 0 <= i < path.len() - 1 ==> flow <= #[trigger] step(rows, path, i),
        room(pushed(rows, path, flow), x, y) > 0,
    ensures
        room(rows, x, y) > 0 || exists|i: int|
            0 <= i < path.len() - 1 && x == path[i + 1] && y == #[trigger] path[i],
    decreases path.len(),
{
    if path.len() >= 2 {
        let front = path.drop_last();
        let last = path.len() - 2;
        let a = path[last];
        let b = path[last + 1];
        assert forall|i: int| 0 <= i < front.len() - 1 implies flow <= #[trigger] step(
            rows,
            front,
            i,
        ) by {
            assert(step(rows, front, i) == step(rows, path, i));
        }
        lemma_pushed(rows, front, flow);
        let mid = pushed(rows, front, flow);
        assert(!front.contains(b)) by {
            if front.contains(b) {
                let i = front.index_of(b);
                assert(path[i] == path[path.len() - 1]);
            }
        }
        assert(room(mid, a, b) == room(rows, a, b));
        assert(flow <= step(rows, path, last));
        assert(a != b);
        lemma_push_edge(mid, a, b, flow);
        if x == b && y == a {
            assert(x == path[last + 1] && y == path[last]);
        } else if room(mid, x, y) > 0 {
            lemma_opened(rows, front, flow, x, y);
            if room(rows, x, y) <= 0 {
                let i = choose|i: int|
                    0 <= i < front.len() - 1 && x == front[i + 1] && y == #[trigger] front[i];
                assert(x == path[i + 1] && y == path[i]);
            }
        }
    }
}

/// A way to an agent that passes no more agents than a number.
spec fn within(rows: Rooms, source: Seq<char>, x: Seq<char>, most: int) -> bool {
    exists|way: Seq<Seq<char>>| #[trigger] leads(rows, way, source, x) && way.len() <= most
}

/// What a flow along a shortest path lets one reach was no farther before.
#[verifier::spinoff_prover]
#[verifier::rlimit(40)]
proof fn lemma_no_nearer(
    rows: Rooms,
    path: Seq<Seq<char>>,
    flow: int,
    source: Seq<char>,
    sink: Seq<char>,
    other: Seq<Seq<char>>,
    k: int,
)
    requires
        table::distinct(rows),
        bounded(rows),
        shortest(rows, path, source, sink),
        0 <= flow,
        forall|i: int| 0 <= i < path.len() - 1 ==> flow <= #[trigger] step(rows, path, i),
        other.len() >= 1,
        other[0] == source,
        walkable(pushed(rows, path, flow), other),
        0 <= k < other.len(),
    ensures
        within(rows, source, other[k], k + 1),
    decreases k,
{
    if k == 0 {
        assert(leads(rows, seq![source], source, other[0]));
    } else {
        lemma_no_nearer(rows, path, flow, source, sink, other, k - 1);
        let x = other[k - 1];
        let y = other[k];
        let way = choose|way: Seq<Seq<char>>| #[trigger] leads(rows, way, source, x) && way.len() <= k;
        assert(step(pushed(rows, path, flow), other, k - 1) > 0);
        lemma_opened(rows, path, flow, x, y);
        if room(rows, x, y) > 0 {
            let longer = way.push(y);
            assert forall|j: int| 0 <= j < longer.len() - 1 implies #[trigger] step(
                rows,
                longer,
                j,
            ) > 0 by {
                if j < way.len() - 1 {
                    assert(step(rows, way, j) > 0);
                }
            }
            assert(leads(rows, longer, source, y));
        } else {
            let i = choose|i: int|
                0 <= i < path.len() - 1 && x == path[i + 1] && y == #[trigger] path[i];
            let rest = path.subrange(i + 2, path.len() as int);
            let detour = way + rest;
            assert(leads(rows, detour, source, sink)) by {
                assert forall|j: int| 0 <= j < detour.len() - 1 implies #[trigger] step(
                    rows,
                    detour,
                    j,
                ) > 0 by {
                    if j < way.len() - 1 {
                        assert(step(rows, way, j) > 0);
                    } else {
                        let q = j - way.len() + i + 2;
                        assert(detour[j] == path[q]);
                        assert(detour[j + 1] == path[q + 1]);
                        assert(step(rows, path, q) > 0);
                    }
                }
                if rest.len() == 0 {
                    assert(detour.last() == way.last());
                    assert(path[i + 1] == path.last());
                } else {
                    assert(detour.last() == path.last());
                }
            }
            assert(path.len() <= detour.len());
            let start = path.subrange(0, i + 1);
            assert forall|j: int| 0 <= j < start.len() - 1 implies #[trigger] step(
                rows,
                start,
                j,
            ) > 0 by {
                assert(step(rows, path, j) > 0);
            }
            assert(start.last() == y);
            assert(leads(rows, start, source, y));
        }
    }
}

/// The number of hops never falls from one payment path to the next.
pub proof fn lemma_hops_never_fall(
    edges: Seq<((Seq<char>, Seq<char>), u64)>,
    sender: Seq<char>,
    recipient: Seq<char>,
    amount: u64,
    max_paths: usize,
    paths: Seq<PaymentPathView>,
    i: int,
    j: int,
)
    requires
        table::distinct(edges),
        sender != recipient,
        routed(
            widened(edges),
            sender,
            recipient,
            amount as int,
            max_paths as int,
            paths,
        ),
        0 <= i <= j < paths.len(),
    ensures
        paths[i].hops.len() <= paths[j].hops.len(),
{
    lemma_widened(edges);
    lemma_chosen_hops(widened(edges), sender, recipient, amount as int, paths, i, j);
}

#[verifier::spinoff_prover]
#[verifier::rlimit(40)]
proof fn lemma_chosen_hops(
    rows: Rooms,
    sender: Seq<char>,
    recipient: Seq<char>,
    amount: int,
    paths: Seq<PaymentPathView>,
    i: int,
    j: int,
)
    requires
        table::distinct(rows),
        bounded(rows),
        sender != recipient,
        amount >= 0,
        chosen(rows, sender, recipient, amount, paths),
        0 <= i <= j < paths.len(),
    ensures
        paths[i].hops.len() <= paths[j].hops.len(),
    decreases paths.len(),
{
    let front = paths.drop_last();
    let last = paths.len() - 1;
    if j < last {
        lemma_chosen_hops(rows, sender, recipient, amount, front, i, j);
        assert(front[i] == paths[i] && front[j] == paths[j]);
    } else if i < last {
        lemma_chosen_hops(rows, sender, recipient, amount, front, i, last - 1);
        assert(front[i] == paths[i] && front[last - 1] == paths[last - 1]);
        let early = front.drop_last();
        assert(chosen(rows, sender, recipient, amount, front));
        assert(residual(rows, sender, front) == pushed(
            residual(rows, sender, early),
            stations(sender, front.last()),
            front.last().capacity as int,
        ));
        let before = residual(rows, sender, early);
        let p = front.last();
        let q = paths.last();
        let way = stations(sender, p);
        let next = stations(sender, q);
        lemma_chosen(rows, sender, recipient, amount, early);
        lemma_augments(before, sender, recipient, amount - total(early), p);
        assert(way.len() >= 2) by {
            if way.len() == 1 {
                assert(way.last() == way[0]);
            }
        }
        lemma_narrowest(before, way);
        lemma_no_nearer(
            before,
            way,
            p.capacity as int,
            sender,
            recipient,
            next,
            next.len() - 1,
        );
        let reached = choose|reached: Seq<Seq<char>>| #[trigger]
            leads(before, reached, sender, next[next.len() - 1]) && reached.len() <= next.len();
        assert(next.last() == recipient);
        assert(way.len() <= reached.len());
    }
}

/// Routing moves capacity between the two directions of a pair of agents and
/// creates none.
pub proof fn lemma_routing_conserves_pairs(
    edges: Seq<((Seq<char>, Seq<char>), u64)>,
    sender: Seq<char>,
    recipient: Seq<char>,
    amount: u64,
    max_paths: usize,
    paths: Seq<PaymentPathView>,
    a: Seq<char>,
    b: Seq<char>,
)
    requires
        table::distinct(edges),
        sender != recipient,
        routed(
            widened(edges),
            sender,
            recipient,
            amount as int,
            max_paths as int,
            paths,
        ),
    ensures
        ({
            let before = widened(edges);
            let after = residual(before, sender, paths);
            room(after, a, b) + room(after, b, a) == room(before, a, b) + room(before, b, a)
        }),
{
    lemma_widened(edges);
    lemma_pairs(widened(edges), sender, recipient, amount as int, paths, a, b);
}

proof fn lemma_pairs(
    rows: Rooms,
    sender: Seq<char>,
    recipient: Seq<char>,
    amount: int,
    paths: Seq<PaymentPathView>,
    a: Seq<char>,
    b: Seq<char>,
)
    requires
        table::distinct(rows),
        bounded(rows),
        sender != recipient,
        amount >= 0,
        chosen(rows, sender, recipient, amount, paths),
    ensures
        ({
            let after = residual(rows, sender, paths);
            room(after, a, b) + room(after, b, a) == room(rows, a, b) + room(rows, b, a)
        }),
    decreases paths.len(),
{
    if paths.len() > 0 {
        let front = paths.drop_last();
        lemma_pairs(rows, sender, recipient, amount, front, a, b);
        lemma_chosen(rows, sender, recipient, amount, front);
        let before = residual(rows, sender, front);
        let way = stations(sender, paths.last());
        assert(way.len() >= 2) by {
            if way.len() == 1 {
                assert(way.last() == way[0]);
            }
        }
        lemma_narrowest(before, way);
        lemma_pushed(before, way, paths.last().capacity as int);
        let after = residual(rows, sender, paths);
        assert(room(after, a, b) + room(after, b, a) == room(before, a, b) + room(before, b, a));
    }
}

proof fn lemma_widened(edges: Seq<((Seq<char>, Seq<char>), u64)>)
    requires
        table::distinct(edges),
    ensures
        table::distinct(widened(edges)),
        bounded(widened(edges)),
{
    let rows = widened(edges);
    assert forall|i: int, j: int| 0 <= i < j < rows.len() implies #[trigger] rows[i].0
        != #[trigger] rows[j].0 by {
        assert(edges[i].0 != edges[j].0);
    }
    assert forall|a: Seq<char>, b: Seq<char>| (#[trigger] room(rows, a, b)) + room(rows, b, a)
        <= 2 * LIMIT by {
        assert(room(rows, a, b) <= LIMIT) by {
            if table::holds(rows, (a, b)) {
                let p = table::place(rows, (a, b));
                assert(rows[p].0 == (a, b));
            }
        }
        assert(room(rows, b, a) <= LIMIT) by {
            if table::holds(rows, (b, a)) {
                let p = table::place(rows, (b, a));
                assert(rows[p].0 == (b, a));
            }
        }
    }
}

/// The state of a breadth-first search: who was seen, from whom, how far from
/// the source, and how many of those have been looked at.
pub open spec fn searched(
    rows: Rooms,
    source: Seq<char>,
    seen: Seq<Seq<char>>,
    parents: Seq<usize>,
    far: Seq<nat>,
    head: int,
) -> bool {
    &&& seen.len() >= 1 && seen.len() == parents.len() && seen.len() == far.len()
    &&& 0 <= head <= seen.len()
    &&& seen[0] == source && far[0] == 0
    &&& seen.no_duplicates()
    &&& forall|i: int|
        #![trigger parents[i]]
        0 < i < seen.len() ==> parents[i] < i && far[i] == far[parents[i] as int] + 1 && room(
            rows,
            seen[parents[i] as int],
            seen[i],
        ) > 0
    &&& forall|i: int, j: int| 0 <= i <= j < far.len() ==> #[trigger] far[i] <= #[trigger] far[j]
    &&& forall|i: int| head <= i < far.len() ==> #[trigger] far[i] <= far[head] + 1
    &&& forall|i: int, y: Seq<char>|
        0 <= i < head && #[trigger] room(rows, seen[i], y) > 0 ==> near(seen, far, y, far[i] + 1)
}

/// Whether an agent was seen within a distance.
pub open spec fn near(seen: Seq<Seq<char>>, far: Seq<nat>, y: Seq<char>, most: nat) -> bool {
    exists|k: int| 0 <= k < seen.len() && #[trigger] seen[k] == y && far[k] <= most
}

proof fn lemma_walk_seen(
    rows: Rooms,
    source: Seq<char>,
    seen: Seq<Seq<char>>,
    parents: Seq<usize>,
    far: Seq<nat>,
    head: int,
    path: Seq<Seq<char>>,
)
    requires
        searched(rows, source, seen, parents, far, head),
        path.len() >= 1,
        path[0] == source,
        walkable(rows, path),
        head == seen.len() || path.len() - 1 <= far[head],
    ensures
        near(seen, far, path.last(), (path.len() - 1) as nat),
    decreases path.len(),
{
    if path.len() == 1 {
        assert(seen[0] == path.last());
    } else {
        let front = path.drop_last();
        assert forall|i: int| 0 <= i < front.len() - 1 implies #[trigger] step(
            rows,
            front,
            i,
        ) > 0 by {
            assert(step(rows, front, i) == step(rows, path, i));
        }
        lemma_walk_seen(rows, source, seen, parents, far, head, front);
        let k = choose|k: int|
            0 <= k < seen.len() && #[trigger] seen[k] == front.last() && far[k] <= front.len() - 1;
        assert(step(rows, path, path.len() - 2) > 0);
        if head < seen.len() && k >= head {
            assert(far[head] <= far[k]);
        }
        assert(k < head);
        assert(room(rows, seen[k], path.last()) > 0);
        assert(near(seen, far, path.last(), far[k] + 1));
        let m = choose|m: int|
            0 <= m < seen.len() && #[trigger] seen[m] == path.last() && far[m] <= far[k] + 1;
        assert(seen[m] == path.last());
    }
}

proof fn lemma_few_seen(rows: Rooms, source: Seq<char>, seen: Seq<Seq<char>>)
    requires
        seen.no_duplicates(),
        forall|i: int| 0 <= i < seen.len() ==> known(rows, source, #[trigger] seen[i]),
    ensures
        seen.len() <= rows.len() + 1,
{
    let names = seq![source] + Seq::new(rows.len(), |j: int| rows[j].0.1);
    seen.unique_seq_to_set();
    names.lemma_cardinality_of_set();
    assert(seen.to_set().subset_of(names.to_set())) by {
        assert forall|x: Seq<char>| seen.to_set().contains(x) implies names.to_set().contains(
            x,
        ) by {
            let i = seen.index_of(x);
            assert(known(rows, source, seen[i]));
            if x == source {
                assert(names[0] == x);
            } else {
                let j = choose|j: int| 0 <= j < rows.len() && (#[trigger] rows[j]).0.1 == x;
                assert(names[j + 1] == x);
            }
        }
    }
    vstd::set_lib::lemma_len_subset(seen.to_set(), names.to_set());
}

/// Whether an agent is the source or the end of an edge.
pub open spec fn known(rows: Rooms, source: Seq<char>, x: Seq<char>) -> bool {
    x == source || exists|j: int| 0 <= j < rows.len() && (#[trigger] rows[j]).0.1 == x
}

/// The graph of credit between agents.
#[derive(Debug, PartialEq, Eq)]
pub struct TrustGraph {
    edges: Table<(Did, Did), u64>,
}

/// The edges after another one; an edge without capacity is left out.
pub open spec fn with_edge(
    edges: Seq<((Seq<char>, Seq<char>), u64)>,
    from: Seq<char>,
    to: Seq<char>,
    capacity: u64,
) -> Seq<((Seq<char>, Seq<char>), u64)> {
    if capacity == 0 {
        edges
    } else {
        table::put(edges, (from, to), capacity)
    }
}

/// The edges after those to each of several counterparties.
pub open spec fn with_outbound(
    edges: Seq<((Seq<char>, Seq<char>), u64)>,
    agent: Seq<char>,
    out: Seq<(Seq<char>, u64)>,
) -> Seq<((Seq<char>, Seq<char>), u64)>
    decreases out.len(),
{
    if out.len() == 0 {
        edges
    } else {
        with_edge(with_outbound(edges, agent, out.drop_last()), agent, out.last().0, out.last().1)
    }
}

/// The edges after those from the counterparty of each of several lines.
pub open spec fn with_inbound(
    edges: Seq<((Seq<char>, Seq<char>), u64)>,
    agent: Seq<char>,
    lines: Seq<BilateralCreditView>,
) -> Seq<((Seq<char>, Seq<char>), u64)>
    decreases lines.len(),
{
    if lines.len() == 0 {
        edges
    } else {
        with_edge(
            with_inbound(edges, agent, lines.drop_last()),
            lines.last().counterparty,
            agent,
            lines.last().debt_left(),
        )
    }
}

/// The edges after those of a ledger.
pub open spec fn with_ledger(
    edges: Seq<((Seq<char>, Seq<char>), u64)>,
    agent: Seq<char>,
    rows: Seq<(Seq<char>, BilateralCreditView)>,
) -> Seq<((Seq<char>, Seq<char>), u64)> {
    with_inbound(with_outbound(edges, agent, ledger::outbound(rows)), agent, table::values(rows))
}

impl TrustGraph {
    /// The edges with their capacities, in order of first arrival.
    pub closed spec fn edges(&self) -> Seq<((Seq<char>, Seq<char>), u64)> {
        self.edges.rows()
    }

    /// A graph without edges.
    pub fn new() -> (r: Self)
        ensures
            r.edges() == Seq::<((Seq<char>, Seq<char>), u64)>::empty(),
    {
        TrustGraph { edges: Table::new() }
    }

    /// Adds a directed edge, or replaces its capacity.
    pub fn add_edge(&mut self, from: Did, to: Did, capacity: u64)
        ensures
            final(self).edges() == with_edge(
                old(self).edges(),
                from.deep_view(),
                to.deep_view(),
                capacity,
            ),
    {
        if capacity == 0 {
            return;
        }
        self.edges.insert((from, to), capacity);
    }

    /// Adds the edges of a ledger as its agent sees them: the credit that it
    /// can still extend, and the debt that it can still take on.
    pub fn import_ledger(&mut self, agent: &Did, ledger: &CreditLedger)
        requires
            ledger.wf(),
        ensures
            final(self).edges() == with_ledger(
                old(self).edges(),
                agent.deep_view(),
                ledger.rows(),
            ),
    {
        let out = ledger.outbound_edges();
        let mut i: usize = 0;
        assert(out.deep_view().subrange(0, 0) =~= Seq::<(Seq<char>, u64)>::empty());
        while i < out.len()
            invariant
                i <= out@.len(),
                self.edges() == with_outbound(
                    old(self).edges(),
                    agent.deep_view(),
                    out.deep_view().subrange(0, i as int),
                ),
            decreases out@.len() - i,
        {
            proof {
                let upto = out.deep_view().subrange(0, i + 1);
                assert(upto.drop_last() =~= out.deep_view().subrange(0, i as int));
                assert(upto.last() == out@[i as int].deep_view());
            }
            self.add_edge(agent.twin(), out[i].0.twin(), out[i].1);
            i = i + 1;
        }
        assert(out.deep_view().subrange(0, i as int) =~= out.deep_view());
        let lines = ledger.iter();
        let ghost middle = self.edges();
        let mut k: usize = 0;
        assert(lines.deep_view().subrange(0, 0) =~= Seq::<BilateralCreditView>::empty());
        while k < lines.len()
            invariant
                k <= lines@.len(),
                self.edges() == with_inbound(
                    middle,
                    agent.deep_view(),
                    lines.deep_view().subrange(0, k as int),
                ),
            decreases lines@.len() - k,
        {
            proof {
                let upto = lines.deep_view().subrange(0, k + 1);
                assert(upto.drop_last() =~= lines.deep_view().subrange(0, k as int));
                assert(upto.last() == lines@[k as int].deep_view());
            }
            let line = lines[k];
            let capacity = line.available_debt();
            if capacity > 0 {
                self.add_edge(line.counterparty.twin(), agent.twin(), capacity);
            }
            k = k + 1;
        }
        assert(lines.deep_view().subrange(0, k as int) =~= lines.deep_view());
    }

    fn residual(&self) -> (r: Table<(Did, Did), u128>)
        ensures
            r.rows() == widened(self.edges()),
            table::distinct(self.edges()),
    {
        let mut r: Table<(Did, Did), u128> = Table::new();
        let n = self.edges.len();
        let mut i: usize = 0;
        while i < n
            invariant
                i <= n,
                n == self.edges().len(),
                table::distinct(self.edges()),
                r.rows() == widened(self.edges().subrange(0, i as int)),
            decreases n - i,
        {
            let pair = self.edges.key_at(i).twin();
            let capacity: u128 = *self.edges.value_at(i) as u128;
            proof {
                let done = widened(self.edges().subrange(0, i as int));
                assert(!table::holds(done, pair.deep_view())) by {
                    if table::holds(done, pair.deep_view()) {
                        let p = table::place(done, pair.deep_view());
                        assert(done[p].0 == pair.deep_view());
                        assert(self.edges()[p].0 != self.edges()[i as int].0);
                    }
                }
                assert(widened(self.edges().subrange(0, i + 1)) =~= done.push(
                    (pair.deep_view(), capacity),
                ));
            }
            r.insert(pair, capacity);
            i = i + 1;
        }
        assert(self.edges().subrange(0, i as int) =~= self.edges());
        r
    }

    /// Finds payment paths from a sender to a recipient that together carry at
    /// most `amount`, at most `max_paths` of them.
    pub fn find_paths(
        &self,
        sender: &Did,
        recipient: &Did,
        amount: u64,
        max_paths: usize,
    ) -> (r: Vec<PaymentPath>)
        ensures
            table::distinct(self.edges()),
            amount == 0 || sender.deep_view() == recipient.deep_view() ==> r@.len() == 0,
            amount > 0 && sender.deep_view() != recipient.deep_view() ==> routed(
                widened(self.edges()),
                sender.deep_view(),
                recipient.deep_view(),
                amount as int,
                max_paths as int,
                r.deep_view(),
            ),
    {
        let mut residual = self.residual();
        let mut paths: Vec<PaymentPath> = Vec::new();
        if amount == 0 || sender.same(recipient) {
            return paths;
        }
        let ghost start = residual.rows();
        let ghost s = sender.deep_view();
        let ghost t = recipient.deep_view();
        proof {
            lemma_widened(self.edges());
        }
        let mut left: u64 = amount;
        let mut stuck = false;
        while left > 0 && paths.len() < max_paths && !stuck
            invariant
                s == sender.deep_view(),
                t == recipient.deep_view(),
                s != t,
                table::distinct(start),
                bounded(start),
                chosen(start, s, t, amount as int, paths.deep_view()),
                residual.rows() == self::residual(start, s, paths.deep_view()),
                left == amount - total(paths.deep_view()),
                paths@.len() <= max_paths,
                stuck ==> !connected(residual.rows(), s, t),
            decreases max_paths - paths@.len(), (if stuck { 0int } else { 1 }),
        {
            let ghost before = residual.rows();
            let ghost done = paths.deep_view();
            proof {
                lemma_chosen(start, s, t, amount as int, done);
            }
            match bfs_find_path(&residual, sender, recipient) {
                None => {
                    stuck = true;
                },
                Some(way) => {
                    let path = augment(
                        &mut residual,
                        &way,
                        left,
                        Ghost(s),
                        Ghost(t),
                    );
                    let ghost added = path.deep_view();
                    left = left - path.capacity;
                    paths.push(path);
                    proof {
                        assert(paths.deep_view() =~= done.push(added));
                        assert(paths.deep_view().drop_last() =~= done);
                    }
                },
            }
        }
        paths
    }
}

fn room_of(residual: &Table<(Did, Did), u128>, from: &Did, to: &Did) -> (r: u128)
    ensures
        r == room(residual.rows(), from.deep_view(), to.deep_view()),
{
    let pair = (from.twin(), to.twin());
    match residual.get(&pair) {
        Some(n) => *n,
        None => 0,
    }
}

/// The most that a path and the amount let flow.
fn bottleneck(residual: &Table<(Did, Did), u128>, way: &Vec<Did>, most: u64) -> (r: u64)
    requires
        way@.len() >= 2,
    ensures
        r == least(narrowest(residual.rows(), way.deep_view()), most as int),
{
    let ghost nodes = way.deep_view();
    let mut narrow = room_of(residual, &way[0], &way[1]);
    let mut i: usize = 2;
    assert(nodes.subrange(0, 2).len() == 2);
    while i < way.len()
        invariant
            2 <= i <= way@.len(),
            nodes == way.deep_view(),
            narrow == narrowest(residual.rows(), nodes.subrange(0, i as int)),
        decreases way@.len() - i,
    {
        proof {
            let upto = nodes.subrange(0, i + 1);
            assert(upto.drop_last() =~= nodes.subrange(0, i as int));
        }
        let here = room_of(residual, &way[i - 1], &way[i]);
        if here < narrow {
            narrow = here;
        }
        i = i + 1;
    }
    assert(nodes.subrange(0, i as int) =~= nodes);
    if narrow <= most as u128 {
        narrow as u64
    } else {
        most
    }
}

fn push_flow(residual: &mut Table<(Did, Did), u128>, way: &Vec<Did>, flow: u64)
    requires
        table::distinct(old(residual).rows()),
        bounded(old(residual).rows()),
        way.deep_view().no_duplicates(),
        way@.len() >= 1,
        forall|i: int|
            0 <= i < way@.len() - 1 ==> flow <= #[trigger] step(
                old(residual).rows(),
                way.deep_view(),
                i,
            ),
    ensures
        final(residual).rows() == pushed(old(residual).rows(), way.deep_view(), flow as int),
{
    let ghost nodes = way.deep_view();
    let ghost before = residual.rows();
    let mut i: usize = 1;
    while i < way.len()
        invariant
            1 <= i <= way@.len(),
            nodes == way.deep_view(),
            nodes.no_duplicates(),
            table::distinct(before),
            bounded(before),
            forall|i: int| 0 <= i < nodes.len() - 1 ==> flow <= #[trigger] step(before, nodes, i),
            residual.rows() == pushed(before, nodes.subrange(0, i as int), flow as int),
        decreases way@.len() - i,
    {
        let ghost front = nodes.subrange(0, i as int);
        let ghost mid = residual.rows();
        proof {
            let upto = nodes.subrange(0, i + 1);
            assert(upto.drop_last() =~= front);
            assert forall|k: int| 0 <= k < front.len() - 1 implies flow <= #[trigger] step(
                before,
                front,
                k,
            ) by {
                assert(step(before, front, k) == step(before, nodes, k));
            }
            lemma_pushed(before, front, flow as int);
            assert(!front.contains(nodes[i as int])) by {
                if front.contains(nodes[i as int]) {
                    let k = front.index_of(nodes[i as int]);
                    assert(nodes[k] == nodes[i as int]);
                }
            }
            assert(room(mid, nodes[i - 1], nodes[i as int]) == room(
                before,
                nodes[i - 1],
                nodes[i as int],
            ));
            assert(flow <= step(before, nodes, i - 1));
            assert(room(mid, nodes[i - 1], nodes[i as int]) + room(
                mid,
                nodes[i as int],
                nodes[i - 1],
            ) <= 2 * LIMIT);
            table::lemma_put_find(
                mid,
                (nodes[i - 1], nodes[i as int]),
                (room(mid, nodes[i - 1], nodes[i as int]) - flow) as u128,
                (nodes[i as int], nodes[i - 1]),
            );
        }
        let forward = room_of(residual, &way[i - 1], &way[i]);
        residual.insert((way[i - 1].twin(), way[i].twin()), forward - (flow as u128));
        let backward = room_of(residual, &way[i], &way[i - 1]);
        residual.insert((way[i].twin(), way[i - 1].twin()), backward + (flow as u128));
        i = i + 1;
    }
    assert(nodes.subrange(0, i as int) =~= nodes);
}

/// Sends as much as possible of an amount along a shortest path.
fn augment(
    residual: &mut Table<(Did, Did), u128>,
    way: &Vec<Did>,
    left: u64,
    Ghost(s): Ghost<Seq<char>>,
    Ghost(t): Ghost<Seq<char>>,
) -> (r: PaymentPath)
    requires
        table::distinct(old(residual).rows()),
        bounded(old(residual).rows()),
        left > 0,
        s != t,
        shortest(old(residual).rows(), way.deep_view(), s, t),
    ensures
        augments(old(residual).rows(), s, t, left as int, r.deep_view()),
        r.capacity <= left,
        final(residual).rows() == pushed(
            old(residual).rows(),
            stations(s, r.deep_view()),
            r.capacity as int,
        ),
{
    let ghost before = residual.rows();
    let ghost nodes = way.deep_view();
    assert(nodes.len() >= 2) by {
        if nodes.len() == 1 {
            assert(nodes.last() == nodes[0]);
        }
    }
    let flow = bottleneck(residual, way, left);
    proof {
        lemma_narrowest(before, nodes);
    }
    push_flow(residual, way, flow);
    let path = PaymentPath { hops: hops_of(way, flow), capacity: flow };
    assert(stations(s, path.deep_view()) =~= nodes);
    path
}

fn hops_of(way: &Vec<Did>, flow: u64) -> (r: Vec<PaymentHop>)
    requires
        way@.len() >= 1,
    ensures
        r@.len() == way@.len() - 1,
        forall|i: int|
            0 <= i < r@.len() ==> (#[trigger] r@[i]).to.deep_view() == way.deep_view()[i + 1]
                && r@[i].amount == flow,
{
    let mut r: Vec<PaymentHop> = Vec::new();
    let mut i: usize = 1;
    while i < way.len()
        invariant
            1 <= i <= way@.len(),
            r@.len() == i - 1,
            forall|k: int|
                0 <= k < r@.len() ==> (#[trigger] r@[k]).to.deep_view() == way.deep_view()[k + 1]
                    && r@[k].amount == flow,
        decreases way@.len() - i,
    {
        r.push(PaymentHop { to: way[i].twin(), amount: flow });
        i = i + 1;
    }
    r
}

/// A shortest open path from a source to a sink, if there is any.
fn bfs_find_path(residual: &Table<(Did, Did), u128>, source: &Did, sink: &Did) -> (r: Option<
    Vec<Did>,
>)
    ensures
        match r {
            Some(way) => shortest(
                residual.rows(),
                way.deep_view(),
                source.deep_view(),
                sink.deep_view(),
            ),
            None => !connected(residual.rows(), source.deep_view(), sink.deep_view()),
        },
{
    let ghost rows = residual.rows();
    let ghost s = source.deep_view();
    let mut seen: Group<Did> = Group::new();
    let mut parents: Vec<usize> = Vec::new();
    let ghost mut far: Seq<nat> = seq![0];
    seen.insert(source.twin());
    parents.push(0);
    let mut head: usize = 0;
    let n = residual.len();
    assert(seen.members() =~= seq![s]);
    while head < seen.len()
        invariant
            rows == residual.rows(),
            table::distinct(rows),
            n == rows.len(),
            s == source.deep_view(),
            searched(rows, s, seen.members(), parents@, far, head as int),
            forall|i: int|
                0 <= i < seen.members().len() ==> known(rows, s, #[trigger] seen.members()[i]),
            forall|i: int|
                0 <= i < head ==> #[trigger] seen.members()[i] != sink.deep_view(),
        decreases rows.len() + 1 - head,
    {
        proof {
            lemma_few_seen(rows, s, seen.members());
        }
        let current = seen.at(head).twin();
        let ghost c = current.deep_view();
        if current.same(sink) {
            let way = traced(&seen, &parents, head, Ghost(rows), Ghost(s), Ghost(far));
            proof {
                let path = way.deep_view();
                assert forall|other: Seq<Seq<char>>|
                    leads(rows, other, s, sink.deep_view()) implies path.len()
                    <= #[trigger] other.len() by {
                    if other.len() < path.len() {
                        lemma_walk_seen(
                            rows,
                            s,
                            seen.members(),
                            parents@,
                            far,
                            head as int,
                            other,
                        );
                        let k = choose|k: int|
                            0 <= k < seen.members().len() && #[trigger] seen.members()[k]
                                == other.last() && far[k] <= other.len() - 1;
                        assert(seen.members()[k] == seen.members()[head as int]);
                    }
                }
            }
            return Some(way);
        }
        let mut j: usize = 0;
        let ghost far_before = far;
        while j < n
            invariant
                j <= n,
                n == rows.len(),
                rows == residual.rows(),
                table::distinct(rows),
                head < seen.members().len(),
                c == current.deep_view(),
                c == seen.members()[head as int],
                searched(rows, s, seen.members(), parents@, far, head as int),
                forall|i: int|
                    0 <= i < seen.members().len() ==> known(rows, s, #[trigger] seen.members()[i]),
                forall|i: int|
                    0 <= i < head ==> #[trigger] seen.members()[i] != sink.deep_view(),
                forall|k: int|
                    0 <= k < j && (#[trigger] rows[k]).0.0 == c && rows[k].1 > 0 ==> near(
                        seen.members(),
                        far,
                        rows[k].0.1,
                        far[head as int] + 1,
                    ),
            decreases n - j,
        {
            let pair = residual.key_at(j);
            let next = pair.1.twin();
            let ghost y = next.deep_view();
            if pair.0.same(&current) && *residual.value_at(j) > 0 {
                let ghost seen0 = seen.members();
                let ghost parents0 = parents@;
                let ghost far0 = far;
                if seen.insert(next) {
                    parents.push(head);
                    proof {
                        far = far.push((far[head as int] + 1) as nat);
                        table::lemma_place_unique(rows, (c, y), j as int);
                        lemma_search_grows(rows, s, seen0, parents0, far0, head as int, y);
                        assert(rows[j as int].0.1 == y);
                        assert(known(rows, s, y));
                        assert forall|k: int|
                            0 <= k <= j && (#[trigger] rows[k]).0.0 == c && rows[k].1
                                > 0 implies near(
                            seen.members(),
                            far,
                            rows[k].0.1,
                            far[head as int] + 1,
                        ) by {
                            if k < j {
                                lemma_near_grows(
                                    seen0,
                                    far0,
                                    rows[k].0.1,
                                    far0[head as int] + 1,
                                    y,
                                    (far0[head as int] + 1) as nat,
                                );
                            } else {
                                assert(seen.members()[seen0.len() as int] == y);
                            }
                        }
                    }
                } else {
                    proof {
                        let k = seen0.index_of(y);
                        if k < head {
                            assert(far[k] <= far[head as int]);
                        }
                        assert(seen.members()[k] == y);
                        assert(near(seen.members(), far, y, far[head as int] + 1));
                    }
                }
            }
            j = j + 1;
        }
        proof {
            assert forall|i: int, y: Seq<char>|
                0 <= i < head + 1 && #[trigger] room(rows, seen.members()[i], y) > 0 implies near(
                seen.members(),
                far,
                y,
                far[i] + 1,
            ) by {
                if i == head {
                    let k = table::place(rows, (c, y));
                    assert(rows[k].0 == (c, y));
                    assert(rows[k].0.0 == c);
                }
            }
            if head + 1 < far.len() {
                assert(far[head as int] <= far[head + 1]);
            }
            assert(searched(rows, s, seen.members(), parents@, far, head + 1));
        }
        head = head + 1;
    }
    proof {
        if connected(rows, s, sink.deep_view()) {
            let path = choose|path: Seq<Seq<char>>| leads(rows, path, s, sink.deep_view());
            lemma_walk_seen(rows, s, seen.members(), parents@, far, head as int, path);
            let k = choose|k: int|
                0 <= k < seen.members().len() && #[trigger] seen.members()[k] == path.last()
                    && far[k] <= path.len() - 1;
            assert(seen.members()[k] == sink.deep_view());
        }
    }
    None
}

proof fn lemma_near_grows(
    seen: Seq<Seq<char>>,
    far: Seq<nat>,
    y: Seq<char>,
    most: nat,
    more: Seq<char>,
    distance: nat,
)
    requires
        near(seen, far, y, most),
        seen.len() == far.len(),
    ensures
        near(seen.push(more), far.push(distance), y, most),
{
    let k = choose|k: int| 0 <= k < seen.len() && #[trigger] seen[k] == y && far[k] <= most;
    assert(seen.push(more)[k] == y);
}

proof fn lemma_search_grows(
    rows: Rooms,
    source: Seq<char>,
    seen: Seq<Seq<char>>,
    parents: Seq<usize>,
    far: Seq<nat>,
    head: int,
    y: Seq<char>,
)
    requires
        searched(rows, source, seen, parents, far, head),
        0 <= head < seen.len(),
        head <= usize::MAX,
        !seen.contains(y),
        room(rows, seen[head], y) > 0,
    ensures
        searched(
            rows,
            source,
            seen.push(y),
            parents.push(head as usize),
            far.push((far[head] + 1) as nat),
            head,
        ),
{
    let seen1 = seen.push(y);
    let parents1 = parents.push(head as usize);
    let far1 = far.push((far[head] + 1) as nat);
    assert(seen1.no_duplicates()) by {
        assert forall|i: int, j: int|
            0 <= i < seen1.len() && 0 <= j < seen1.len() && i != j implies seen1[i]
            != seen1[j] by {
            if i < seen.len() {
                assert(seen.contains(seen[i]));
            }
            if j < seen.len() {
                assert(seen.contains(seen[j]));
            }
        }
    }
    assert forall|i: int, j: int| 0 <= i <= j < far1.len() implies #[trigger] far1[i]
        <= #[trigger] far1[j] by {
        if j == far.len() && i < far.len() {
            if i < head {
                assert(far[i] <= far[head]);
            } else {
                assert(far[i] <= far[head] + 1);
            }
        }
    }
    assert forall|i: int, z: Seq<char>|
        0 <= i < head && #[trigger] room(rows, seen1[i], z) > 0 implies near(
        seen1,
        far1,
        z,
        far1[i] + 1,
    ) by {
        assert(room(rows, seen[i], z) > 0);
        lemma_near_grows(seen, far, z, far[i] + 1, y, (far[head] + 1) as nat);
    }
    assert forall|i: int| #![trigger parents1[i]] 0 < i < seen1.len() implies parents1[i] < i
        && far1[i] == far1[parents1[i] as int] + 1 && room(
        rows,
        seen1[parents1[i] as int],
        seen1[i],
    ) > 0 by {
        if i < seen.len() {
            assert(parents[i] < i);
        }
    }
}

/// The path that the search took to an agent, source first.
fn traced(
    seen: &Group<Did>,
    parents: &Vec<usize>,
    at: usize,
    Ghost(rows): Ghost<Rooms>,
    Ghost(s): Ghost<Seq<char>>,
    Ghost(far): Ghost<Seq<nat>>,
) -> (r: Vec<Did>)
    requires
        at < seen.members().len(),
        searched(rows, s, seen.members(), parents@, far, at as int),
    ensures
        r@.len() == far[at as int] + 1,
        leads(rows, r.deep_view(), s, seen.members()[at as int]),
        r.deep_view().no_duplicates(),
{
    let ghost names = seen.members();
    let mut chain: Vec<usize> = Vec::new();
    let mut k: usize = at;
    chain.push(k);
    while k != 0
        invariant
            names == seen.members(),
            searched(rows, s, names, parents@, far, at as int),
            k < names.len(),
            chain@.len() >= 1,
            chain@[0] == at,
            chain@.last() == k,
            forall|i: int| 0 <= i < chain@.len() ==> #[trigger] chain@[i] < names.len(),
            forall|i: int|
                #![trigger chain@[i]]
                0 <= i < chain@.len() ==> far[chain@[i] as int] + i == far[at as int],
            forall|i: int|
                #![trigger chain@[i]]
                0 <= i < chain@.len() - 1 ==> chain@[i] != 0 && parents@[chain@[i] as int]
                    == chain@[i + 1],
        decreases k,
    {
        let up = parents[k];
        assert(parents@[k as int] < k);
        k = up;
        chain.push(k);
    }
    let count = chain.len();
    let mut r: Vec<Did> = Vec::new();
    while r.len() < count
        invariant
            names == seen.members(),
            count == chain@.len(),
            forall|i: int| 0 <= i < chain@.len() ==> #[trigger] chain@[i] < names.len(),
            r@.len() <= count,
            forall|i: int|
                0 <= i < r@.len() ==> (#[trigger] r@[i]).deep_view() == names[chain@[count - 1
                    - i] as int],
        decreases count - r@.len(),
    {
        let from = count - 1 - r.len();
        r.push(seen.at(chain[from]).twin());
    }
    proof {
        let path = r.deep_view();
        assert forall|i: int| 0 <= i < path.len() - 1 implies #[trigger] step(
            rows,
            path,
            i,
        ) > 0 by {
            let here = chain@[count - 1 - (i + 1)];
            assert(parents@[here as int] == chain@[count - 1 - (i + 1) + 1]);
            assert(path[i] == r@[i].deep_view());
            assert(path[i + 1] == r@[i + 1].deep_view());
        }
        assert forall|i: int, j: int|
            0 <= i < path.len() && 0 <= j < path.len() && i != j implies path[i] != path[j] by {
            let a = chain@[count - 1 - i];
            let b = chain@[count - 1 - j];
            assert(path[i] == r@[i].deep_view());
            assert(path[j] == r@[j].deep_view());
            assert(far[a as int] + (count - 1 - i) == far[at as int]);
            assert(far[b as int] + (count - 1 - j) == far[at as int]);
            assert(a != b);
        }
        assert(path[0] == r@[0].deep_view());
        assert(path.last() == r@[count - 1].deep_view());
        assert(far[chain@[count - 1] as int] + (count - 1) == far[at as int]);
    }
    r
}

/// The edges of several ledgers.
pub open spec fn all_edges(
    ledgers: Seq<(Seq<char>, Seq<(Seq<char>, BilateralCreditView)>)>,
) -> Seq<((Seq<char>, Seq<char>), u64)>
    decreases ledgers.len(),
{
    if ledgers.len() == 0 {
        Seq::empty()
    } else {
        with_ledger(all_edges(ledgers.drop_last()), ledgers.last().0, ledgers.last().1)
    }
}

/// Agents and the rows of their ledgers.
pub open spec fn ledger_rows(
    ledgers: Seq<(&Did, &CreditLedger)>,
) -> Seq<(Seq<char>, Seq<(Seq<char>, BilateralCreditView)>)> {
    Seq::new(ledgers.len(), |i: int| (ledgers[i].0.deep_view(), ledgers[i].1.rows()))
}

/// Builds a trust graph from ledgers and finds at most five payment paths.
pub fn find_payment_paths(
    ledgers: &[(&Did, &CreditLedger)],
    sender: &Did,
    recipient: &Did,
    amount: u64,
) -> (r: Vec<PaymentPath>)
    requires
        forall|i: int| 0 <= i < ledgers@.len() ==> (#[trigger] ledgers@[i]).1.wf(),
    ensures
        table::distinct(all_edges(ledger_rows(ledgers@))),
        amount == 0 || sender.deep_view() == recipient.deep_view() ==> r@.len() == 0,
        amount > 0 && sender.deep_view() != recipient.deep_view() ==> routed(
            widened(all_edges(ledger_rows(ledgers@))),
            sender.deep_view(),
            recipient.deep_view(),
            amount as int,
            5,
            r.deep_view(),
        ),
{
    let mut graph = TrustGraph::new();
    let mut i: usize = 0;
    let ghost rows = ledger_rows(ledgers@);
    assert(rows.subrange(0, 0) =~= Seq::<
        (Seq<char>, Seq<(Seq<char>, BilateralCreditView)>),
    >::empty());
    while i < ledgers.len()
        invariant
            i <= ledgers@.len(),
            forall|k: int| 0 <= k < ledgers@.len() ==> (#[trigger] ledgers@[k]).1.wf(),
            rows == ledger_rows(ledgers@),
            graph.edges() == all_edges(rows.subrange(0, i as int)),
        decreases ledgers@.len() - i,
    {
        proof {
            let upto = rows.subrange(0, i + 1);
            assert(upto.drop_last() =~= rows.subrange(0, i as int));
            assert(upto.last() == rows[i as int]);
        }
        let (agent, ledger) = ledgers[i];
        graph.import_ledger(agent, ledger);
        i = i + 1;
    }
    assert(rows.subrange(0, i as int) =~= rows);
    graph.find_paths(sender, recipient, amount, 5)
}

} // verus!
