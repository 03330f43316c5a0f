//! Payment paths in the trust graph.
use nexus::ledger::CreditLedger;
use nexus::trust::{find_payment_paths, PaymentPath, TrustGraph};
use nexus::types::Did;

fn did(s: &str) -> Did {
    Did::new(&format!("did:key:{s}"))
}

#[test]
fn direct_edge_single_path() {
    let mut graph = TrustGraph::new();
    let alice = did("A");
    let bob = did("B");
    graph.add_edge(alice.clone(), bob.clone(), 50);

    let paths = graph.find_paths(&alice, &bob, 30, 5);
    assert_eq!(paths.len(), 1);
    assert_eq!(paths[0].capacity, 30);
    assert_eq!(paths[0].hops.len(), 1);
    assert_eq!(paths[0].hops[0].to, bob);
}

#[test]
fn two_hop_path() {
    let mut graph = TrustGraph::new();
    let a = did("A");
    let b = did("B");
    let c = did("C");
    graph.add_edge(a.clone(), b.clone(), 100);
    graph.add_edge(b.clone(), c.clone(), 100);

    let paths = graph.find_paths(&a, &c, 50, 5);
    assert_eq!(paths.len(), 1);
    assert_eq!(paths[0].capacity, 50);
    assert_eq!(paths[0].hops.len(), 2); // A→B, B→C
}

#[test]
fn no_path_when_no_connection() {
    let mut graph = TrustGraph::new();
    let a = did("A");
    let b = did("B");
    graph.add_edge(a.clone(), b.clone(), 100);

    let paths = graph.find_paths(&b, &a, 50, 5);
    assert!(paths.is_empty()); // No reverse edge
}

#[test]
fn bottleneck_limits_flow() {
    let mut graph = TrustGraph::new();
    let a = did("A");
    let b = did("B");
    let c = did("C");
    graph.add_edge(a.clone(), b.clone(), 10); // Bottleneck here
    graph.add_edge(b.clone(), c.clone(), 100);

    let paths = graph.find_paths(&a, &c, 50, 5);
    assert_eq!(paths.len(), 1);
    assert_eq!(paths[0].capacity, 10); // Limited by A→B capacity
}

#[test]
fn multiple_paths() {
    let mut graph = TrustGraph::new();
    let a = did("A");
    let b = did("B");
    let c = did("C");
    let d = did("D");
    // Path 1: A→B→D, capacity 30
    graph.add_edge(a.clone(), b.clone(), 30);
    graph.add_edge(b.clone(), d.clone(), 30);
    // Path 2: A→C→D, capacity 20
    graph.add_edge(a.clone(), c.clone(), 20);
    graph.add_edge(c.clone(), d.clone(), 20);

    let paths = graph.find_paths(&a, &d, 50, 5);
    let total: u64 = paths.iter().map(|p| p.capacity).sum();
    assert!(total >= 30); // Should find at least one path
}

#[test]
fn residual_reverse_edges_allow_rerouting_flow() {
    let mut graph = TrustGraph::new();
    let source = did("S");
    let left = did("L");
    let right = did("R");
    let middle = did("M");
    let alternate = did("A");
    let sink = did("T");

    graph.add_edge(source.clone(), left.clone(), 1);
    graph.add_edge(source.clone(), right.clone(), 1);
    graph.add_edge(left.clone(), middle.clone(), 1);
    graph.add_edge(right.clone(), middle.clone(), 1);
    graph.add_edge(middle.clone(), sink.clone(), 1);
    graph.add_edge(left.clone(), alternate.clone(), 1);
    graph.add_edge(alternate.clone(), sink.clone(), 1);

    let paths = graph.find_paths(&source, &sink, 2, 5);
    let total: u64 = paths.iter().map(|path| path.capacity).sum();

    assert_eq!(total, 2);
}

#[test]
fn ledger_import_creates_edges() {
    let alice = did("A");
    let bob = did("B");
    let mut ledger = CreditLedger::new();
    ledger.get_or_create(&bob, 100, 50, 0);

    let mut graph = TrustGraph::new();
    graph.import_ledger(&alice, &ledger);

    // Outbound: Alice extends 100 credit to Bob
    let paths = graph.find_paths(&alice, &bob, 50, 5);
    assert_eq!(paths.len(), 1);
    assert_eq!(paths[0].capacity, 50);
}

fn total(paths: &[PaymentPath]) -> u64 {
    paths.iter().map(|path| path.capacity).sum()
}

#[test]
fn routing_is_maximal_and_keeps_to_its_bounds() {
    let mut graph = TrustGraph::new();
    let (s, a, b, t) = (did("S"), did("A"), did("B"), did("T"));
    graph.add_edge(s.clone(), a.clone(), 10);
    graph.add_edge(s.clone(), b.clone(), 10);
    graph.add_edge(a.clone(), b.clone(), 1);
    graph.add_edge(a.clone(), t.clone(), 8);
    graph.add_edge(b.clone(), t.clone(), 10);
    // The cut before T lets 18 out.
    assert_eq!(total(&graph.find_paths(&s, &t, 100, 10)), 18);
    assert_eq!(total(&graph.find_paths(&s, &t, 5, 10)), 5);
    let one = graph.find_paths(&s, &t, 100, 1);
    assert_eq!(one.len(), 1);
    assert_eq!(one[0].hops.len(), 2);
    assert!(graph.find_paths(&s, &t, 100, 0).is_empty());
    assert!(graph.find_paths(&s, &s, 100, 5).is_empty());
    assert!(graph.find_paths(&s, &t, 0, 5).is_empty());
}

#[test]
fn large_opposite_edges_do_not_overflow() {
    let mut graph = TrustGraph::new();
    let (a, b) = (did("A"), did("B"));
    graph.add_edge(a.clone(), b.clone(), u64::MAX);
    graph.add_edge(b.clone(), a.clone(), u64::MAX);
    assert_eq!(total(&graph.find_paths(&a, &b, u64::MAX, 5)), u64::MAX);
}

#[test]
fn edges_without_capacity_are_left_out() {
    let mut graph = TrustGraph::new();
    let (a, b) = (did("A"), did("B"));
    graph.add_edge(a.clone(), b.clone(), 7);
    graph.add_edge(a.clone(), b.clone(), 0);
    assert_eq!(total(&graph.find_paths(&a, &b, 100, 5)), 7);
}

#[test]
fn payment_paths_from_ledgers() {
    let (a, b, c) = (did("A"), did("B"), did("C"));
    let mut first = CreditLedger::new();
    first.get_or_create(&b, 40, 0, 0);
    let mut second = CreditLedger::new();
    second.get_or_create(&c, 25, 0, 0);
    let paths = find_payment_paths(&[(&a, &first), (&b, &second)], &a, &c, 100);
    assert_eq!(paths.len(), 1);
    assert_eq!(paths[0].capacity, 25);
    assert_eq!(paths[0].hops[0].to, b);
    assert_eq!(paths[0].hops[1].to, c);
    assert_eq!(paths[0].hops[1].amount, 25);
}

#[test]
fn hops_never_fall() {
    let mut graph = TrustGraph::new();
    let (s, a, b, c, t) = (did("S"), did("A"), did("B"), did("C"), did("T"));
    graph.add_edge(s.clone(), t.clone(), 1);
    graph.add_edge(s.clone(), a.clone(), 5);
    graph.add_edge(a.clone(), t.clone(), 2);
    graph.add_edge(a.clone(), b.clone(), 5);
    graph.add_edge(b.clone(), c.clone(), 5);
    graph.add_edge(c.clone(), t.clone(), 5);
    let paths = graph.find_paths(&s, &t, 10, 5);
    let hops: Vec<usize> = paths.iter().map(|path| path.hops.len()).collect();
    assert_eq!(hops, vec![1, 2, 4]);
    assert_eq!(paths.iter().map(|path| path.capacity).sum::<u64>(), 6);
}
