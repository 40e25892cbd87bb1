use egg::Analysis;
use egg::CostFunction;
use egg::EGraph;
use egg::ENodeOrVar;
use egg::Extractor;
use egg::IterationData;
use egg::Language;
use egg::Pattern;
use egg::RecExpr;
use egg::Rewrite;
use egg::Runner;
use egg::StopReason;
use egg::Symbol;
use egg::Var;
use egg_herbie::analysis::retain_leaves;
use egg_herbie::analysis::ConstantFold;
use egg_herbie::constant::Constant;
use egg_herbie::constant::Integer;
use egg_herbie::cost::AltCost;
use egg_herbie::language::Id;
use egg_herbie::language::Math;
use egg_herbie::snapshot;
use egg_herbie::values::ClassValues;
use num_bigint::BigInt;
use num_rational::BigRational;

/// The part of the language that these scenarios use, as the engine
/// wants it: ordered and hashable.
#[derive(Debug, Clone, PartialEq, Eq, PartialOrd, Ord, Hash)]
enum Node {
    Add([egg::Id; 3]),
    Mul([egg::Id; 3]),
    Pow([egg::Id; 3]),
    Neg([egg::Id; 2]),
    Constant(BigRational),
    Symbol(Symbol),
}

impl Language for Node {
    fn matches(&self, other: &Self) -> bool {
        match (self, other) {
            (Node::Constant(a), Node::Constant(b)) => a == b,
            (Node::Symbol(a), Node::Symbol(b)) => a == b,
            _ => std::mem::discriminant(self) == std::mem::discriminant(other),
        }
    }

    fn children(&self) -> &[egg::Id] {
        match self {
            Node::Add(c) | Node::Mul(c) | Node::Pow(c) => c,
            Node::Neg(c) => c,
            Node::Constant(_) | Node::Symbol(_) => &[],
        }
    }

    fn children_mut(&mut self) -> &mut [egg::Id] {
        match self {
            Node::Add(c) | Node::Mul(c) | Node::Pow(c) => c,
            Node::Neg(c) => c,
            Node::Constant(_) | Node::Symbol(_) => &mut [],
        }
    }
}

fn handle(id: egg::Id) -> Id {
    Id(usize::from(id))
}

fn exact(c: &BigRational) -> Constant {
    let numer = Integer::from_signed_bytes_le(c.numer().to_signed_bytes_le());
    let denom = Integer::from_signed_bytes_le(c.denom().to_signed_bytes_le());
    Constant::new(&numer, &denom).unwrap()
}

fn ratio(c: &Constant) -> BigRational {
    BigRational::new(
        BigInt::from_signed_bytes_le(&c.numer().to_signed_bytes_le()),
        BigInt::from_signed_bytes_le(&c.denom().to_signed_bytes_le()),
    )
}

fn q(n: i64, d: i64) -> BigRational {
    BigRational::new(BigInt::from(n), BigInt::from(d))
}

fn math(node: &Node) -> Math {
    match node {
        Node::Add(c) => Math::Add(c.map(handle)),
        Node::Mul(c) => Math::Mul(c.map(handle)),
        Node::Pow(c) => Math::Pow(c.map(handle)),
        Node::Neg(c) => Math::Neg(c.map(handle)),
        Node::Constant(c) => Math::Constant(exact(c)),
        Node::Symbol(s) => Math::Symbol(s.as_str().to_string()),
    }
}

fn node(math: Math) -> Node {
    match math {
        Math::Add(c) => Node::Add(c.map(|h| egg::Id::from(h.0))),
        Math::Mul(c) => Node::Mul(c.map(|h| egg::Id::from(h.0))),
        Math::Pow(c) => Node::Pow(c.map(|h| egg::Id::from(h.0))),
        Math::Neg(c) => Node::Neg(c.map(|h| egg::Id::from(h.0))),
        Math::Constant(c) => Node::Constant(ratio(&c)),
        Math::Symbol(s) => Node::Symbol(Symbol::from(s)),
        other => unreachable!("{:?}", other),
    }
}

/// The engine's analysis hooks, answered by the rules of the library.
struct Fold(ConstantFold);

impl Analysis<Node> for Fold {
    type Data = Option<Constant>;

    fn make(egraph: &EGraph<Node, Fold>, enode: &Node) -> Option<Constant> {
        let mut values = ClassValues::new();
        for &id in enode.children() {
            values.set(handle(id), egraph[id].data.clone());
        }
        egraph.analysis.0.make(&values, &math(enode))
    }

    fn merge(&mut self, to: &mut Option<Constant>, from: Option<Constant>) -> egg::DidMerge {
        let did = self.0.merge(to, from);
        egg::DidMerge(did.0, did.1)
    }

    fn modify(egraph: &mut EGraph<Node, Fold>, id: egg::Id) {
        let data = egraph[id].data.clone();
        if let Some(step) = egraph.analysis.0.modify(&data) {
            let added = egraph.add(node(step.node));
            egraph.union(id, added);
            if step.prune {
                let mut members: Vec<Math> = egraph[id].nodes.iter().map(math).collect();
                retain_leaves(&mut members);
                egraph[id].nodes = members.into_iter().map(node).collect();
            }
        }
    }
}

/// The engine's cost hook, answered by the cost rule of the library.
struct Cost<'a> {
    egraph: &'a EGraph<Node, Fold>,
}

impl<'a> CostFunction<Node> for Cost<'a> {
    type Cost = usize;

    fn cost<C>(&mut self, enode: &Node, mut costs: C) -> usize
    where
        C: FnMut(egg::Id) -> usize,
    {
        let mut values = ClassValues::new();
        for &id in enode.children() {
            values.set(handle(id), self.egraph[id].data.clone());
        }
        let operands: Vec<usize> = enode.children().iter().map(|&id| costs(id)).collect();
        AltCost::new(&values).cost(&math(enode), &operands)
    }
}

/// The engine's per-iteration hook: extraction is the engine's, the
/// record is the library's.
struct Snapshot(snapshot::IterData);

impl IterationData<Node, Fold> for Snapshot {
    fn make(runner: &Runner<Node, Fold, Snapshot>) -> Snapshot {
        let extractor = Extractor::new(&runner.egraph, Cost { egraph: &runner.egraph });
        let roots: Vec<Id> = runner.roots.iter().map(|&root| handle(root)).collect();
        let found = runner
            .roots
            .iter()
            .map(|&root| {
                let (cost, best) = extractor.find_best(root);
                (cost, snapshot::RecExpr { nodes: best.as_ref().iter().map(math).collect() })
            })
            .collect();
        Snapshot(snapshot::IterData::make(&roots, found))
    }
}

fn graph(prune: bool) -> EGraph<Node, Fold> {
    EGraph::new(Fold(ConstantFold { unsound: false, constant_fold: true, prune }))
}

fn symbol(egraph: &mut EGraph<Node, Fold>, name: &str) -> egg::Id {
    egraph.add(Node::Symbol(Symbol::from(name)))
}

fn constant(egraph: &mut EGraph<Node, Fold>, n: i64, d: i64) -> egg::Id {
    egraph.add(Node::Constant(q(n, d)))
}

#[test]
fn with_pruning_a_class_with_a_known_value_holds_only_the_value() {
    let mut egraph = graph(true);
    let ctx = symbol(&mut egraph, "binary64");
    let two = constant(&mut egraph, 2, 1);
    let sum = egraph.add(Node::Add([ctx, two, two]));
    let four = constant(&mut egraph, 4, 1);
    egraph.rebuild();
    assert_eq!(egraph.find(sum), egraph.find(four));
    assert_eq!(egraph[sum].data, Some(exact(&q(4, 1))));
    assert_eq!(egraph[sum].nodes, vec![Node::Constant(q(4, 1))]);
    assert!(!egraph.analysis.0.unsound);
}

#[test]
fn without_pruning_extraction_picks_the_value() {
    let mut egraph = graph(false);
    let ctx = symbol(&mut egraph, "binary64");
    let two = constant(&mut egraph, 2, 1);
    let sum = egraph.add(Node::Add([ctx, two, two]));
    let four = constant(&mut egraph, 4, 1);
    egraph.rebuild();
    assert_eq!(egraph.find(sum), egraph.find(four));
    let mut members = egraph[sum].nodes.clone();
    members.sort();
    let mut expected = vec![Node::Add([ctx, two, two]), Node::Constant(q(4, 1))];
    expected.sort();
    assert_eq!(members, expected);
    let extractor = Extractor::new(&egraph, Cost { egraph: &egraph });
    let (cost, best) = extractor.find_best(sum);
    assert_eq!(cost, 1);
    assert_eq!(best.as_ref(), &[Node::Constant(q(4, 1))]);
    let mut cost_of = Cost { egraph: &egraph };
    assert!(cost_of.cost(&Node::Add([ctx, two, two]), |_| 1) >= 3);
}

#[test]
fn with_folding_off_the_sum_stays_alone() {
    let mut egraph = EGraph::new(Fold(ConstantFold {
        unsound: false,
        constant_fold: false,
        prune: true,
    }));
    let ctx = symbol(&mut egraph, "binary64");
    let two = constant(&mut egraph, 2, 1);
    let sum = egraph.add(Node::Add([ctx, two, two]));
    let four = constant(&mut egraph, 4, 1);
    egraph.rebuild();
    assert_ne!(egraph.find(sum), egraph.find(four));
    assert_eq!(egraph[sum].data, None);
    assert_eq!(egraph[two].data, None);
}

#[test]
fn values_propagate_through_nested_nodes() {
    let mut egraph = graph(true);
    let ctx = symbol(&mut egraph, "binary64");
    let two = constant(&mut egraph, 2, 1);
    let three = constant(&mut egraph, 3, 1);
    let minus_two = egraph.add(Node::Neg([ctx, two]));
    let power = egraph.add(Node::Pow([ctx, three, minus_two]));
    let x = symbol(&mut egraph, "x");
    let product = egraph.add(Node::Mul([ctx, power, x]));
    egraph.rebuild();
    assert_eq!(egraph[minus_two].data, Some(exact(&q(-2, 1))));
    assert_eq!(egraph[power].data, Some(exact(&q(1, 9))));
    assert_eq!(egraph[power].nodes, vec![Node::Constant(q(1, 9))]);
    assert_eq!(egraph[product].data, None);
    assert_eq!(egraph[x].data, None);
}

#[test]
fn a_power_with_an_odd_fractional_exponent_is_never_extracted() {
    let mut egraph = graph(true);
    let ctx = symbol(&mut egraph, "binary64");
    let x = symbol(&mut egraph, "x");
    let third = constant(&mut egraph, 1, 3);
    let power = egraph.add(Node::Pow([ctx, x, third]));
    let inner = egraph.add(Node::Neg([ctx, x]));
    let longer = egraph.add(Node::Neg([ctx, inner]));
    egraph.union(power, longer);
    egraph.rebuild();
    let extractor = Extractor::new(&egraph, Cost { egraph: &egraph });
    let (cost, best) = extractor.find_best(power);
    assert_eq!(cost, 5);
    assert!(matches!(best.as_ref().last(), Some(Node::Neg(_))));
    assert!(egraph[power].nodes.iter().any(|n| matches!(n, Node::Pow(_))));
}

#[test]
fn a_power_with_a_whole_exponent_is_extracted_by_size() {
    let mut egraph = graph(true);
    let ctx = symbol(&mut egraph, "binary64");
    let x = symbol(&mut egraph, "x");
    let two = constant(&mut egraph, 2, 1);
    let power = egraph.add(Node::Pow([ctx, x, two]));
    let inner = egraph.add(Node::Neg([ctx, x]));
    let longer = egraph.add(Node::Neg([ctx, inner]));
    egraph.union(power, longer);
    egraph.rebuild();
    let extractor = Extractor::new(&egraph, Cost { egraph: &egraph });
    let (cost, best) = extractor.find_best(power);
    assert_eq!(cost, 4);
    assert!(matches!(best.as_ref().last(), Some(Node::Pow(_))));
}

#[test]
fn uniting_different_values_sets_the_flag_and_does_not_stop_the_engine() {
    let mut egraph = graph(true);
    let a = constant(&mut egraph, 3, 2);
    let b = constant(&mut egraph, 5, 2);
    let c = constant(&mut egraph, 7, 2);
    egraph.rebuild();
    assert!(!egraph.analysis.0.unsound);
    egraph.union(a, a);
    egraph.rebuild();
    assert!(!egraph.analysis.0.unsound);
    egraph.union(a, b);
    egraph.rebuild();
    assert!(egraph.analysis.0.unsound);
    let kept = egraph[a].data.clone();
    assert!(kept == Some(exact(&q(3, 2))) || kept == Some(exact(&q(5, 2))));
    egraph.union(a, c);
    egraph.rebuild();
    assert!(egraph.analysis.0.unsound);
    assert_eq!(egraph.find(a), egraph.find(c));
}

fn var(ast: &mut RecExpr<ENodeOrVar<Node>>, name: &str) -> egg::Id {
    let v: Var = name.parse().unwrap();
    ast.add(ENodeOrVar::Var(v))
}

fn commute() -> Rewrite<Node, Fold> {
    let mut lhs = RecExpr::default();
    let (p, a, b) = (var(&mut lhs, "?p"), var(&mut lhs, "?a"), var(&mut lhs, "?b"));
    lhs.add(ENodeOrVar::ENode(Node::Add([p, a, b])));
    let mut rhs = RecExpr::default();
    let (p, a, b) = (var(&mut rhs, "?p"), var(&mut rhs, "?a"), var(&mut rhs, "?b"));
    rhs.add(ENodeOrVar::ENode(Node::Add([p, b, a])));
    Rewrite::new("commute-add", Pattern::new(lhs), Pattern::new(rhs)).unwrap()
}

fn associate() -> Rewrite<Node, Fold> {
    let mut lhs = RecExpr::default();
    let p = var(&mut lhs, "?p");
    let (a, b, c) = (var(&mut lhs, "?a"), var(&mut lhs, "?b"), var(&mut lhs, "?c"));
    let inner = lhs.add(ENodeOrVar::ENode(Node::Add([p, a, b])));
    lhs.add(ENodeOrVar::ENode(Node::Add([p, inner, c])));
    let mut rhs = RecExpr::default();
    let p = var(&mut rhs, "?p");
    let (a, b, c) = (var(&mut rhs, "?a"), var(&mut rhs, "?b"), var(&mut rhs, "?c"));
    let inner = rhs.add(ENodeOrVar::ENode(Node::Add([p, b, c])));
    rhs.add(ENodeOrVar::ENode(Node::Add([p, a, inner])));
    Rewrite::new("associate-add", Pattern::new(lhs), Pattern::new(rhs)).unwrap()
}

/// `((((x + 1) + y) + 2) + z) + 3` and so on, over `terms`.
fn chain(terms: &[Node]) -> RecExpr<Node> {
    let mut expr = RecExpr::default();
    let ctx = expr.add(Node::Symbol(Symbol::from("binary64")));
    let mut sum = expr.add(terms[0].clone());
    for term in &terms[1..] {
        let next = expr.add(term.clone());
        sum = expr.add(Node::Add([ctx, sum, next]));
    }
    expr
}

#[test]
fn three_rounds_record_three_snapshots_for_each_root() {
    let first = chain(&[
        Node::Symbol(Symbol::from("x")),
        Node::Constant(q(1, 1)),
        Node::Symbol(Symbol::from("y")),
        Node::Constant(q(2, 1)),
        Node::Symbol(Symbol::from("z")),
        Node::Constant(q(3, 1)),
        Node::Symbol(Symbol::from("w")),
    ]);
    let second = chain(&[Node::Constant(q(1, 2)), Node::Constant(q(1, 3))]);
    let rules = vec![commute(), associate()];
    let runner: Runner<Node, Fold, Snapshot> = Runner::new(Fold(ConstantFold::default()))
        .with_iter_limit(3)
        .with_expr(&first)
        .with_expr(&second)
        .run(&rules);
    assert!(matches!(runner.stop_reason, Some(StopReason::IterationLimit(3))));
    assert_eq!(runner.roots.len(), 2);
    assert_eq!(runner.iterations.len(), 3);
    let initial = 19;
    for iteration in &runner.iterations {
        let extracted = &iteration.data.0.extracted;
        assert_eq!(extracted.len(), 2);
        assert_eq!(extracted[0].0, handle(runner.roots[0]));
        assert_eq!(extracted[1].0, handle(runner.roots[1]));
        assert!(extracted[0].1.cost <= initial);
        assert!(matches!(extracted[0].1.best.nodes.last(), Some(Math::Add(_))));
        assert_eq!(extracted[1].1.cost, 1);
        assert_eq!(extracted[1].1.best.nodes, vec![Math::Constant(exact(&q(5, 6)))]);
    }
    let last = &runner.iterations[2].data.0.extracted;
    assert!(last[0].1.cost < initial);
    assert!(!runner.egraph.analysis.0.unsound);
}
