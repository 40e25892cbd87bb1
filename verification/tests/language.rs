use egg_herbie::constant::Constant;
use egg_herbie::constant::Integer;
use egg_herbie::language::Id;
use egg_herbie::language::Math;

fn operators() -> Vec<(Math, &'static str, usize)> {
    let b = [Id(10), Id(11), Id(12)];
    let u = [Id(20), Id(21)];
    vec![
        (Math::Add(b), "+", 3),
        (Math::Sub(b), "-", 3),
        (Math::Mul(b), "*", 3),
        (Math::Div(b), "/", 3),
        (Math::Pow(b), "pow", 3),
        (Math::Neg(u), "neg", 2),
        (Math::Sqrt(u), "sqrt", 2),
        (Math::Fabs(u), "fabs", 2),
        (Math::Ceil(u), "ceil", 2),
        (Math::Floor(u), "floor", 2),
        (Math::Round(u), "round", 2),
        (Math::Log(u), "log", 2),
        (Math::Cbrt(u), "cbrt", 2),
    ]
}

#[test]
fn operators_are_written_with_their_keywords() {
    let all = operators();
    assert_eq!(all.len(), 13);
    for (node, keyword, _) in all {
        assert_eq!(node.keyword(), Some(keyword));
    }
}

#[test]
fn leaves_and_other_operators_have_no_keyword() {
    let four = Math::Constant(Constant::from_integer(Integer::from_i64(4)));
    assert_eq!(four.keyword(), None);
    assert_eq!(Math::Symbol(String::from("x")).keyword(), None);
    assert_eq!(Math::Other(String::from("sin"), vec![Id(1)]).keyword(), None);
}

#[test]
fn operators_hold_their_operands_in_order() {
    for (node, _, arity) in operators() {
        let children = node.children();
        assert_eq!(children.len(), arity);
        if arity == 3 {
            assert_eq!(children, &[Id(10), Id(11), Id(12)]);
        } else {
            assert_eq!(children, &[Id(20), Id(21)]);
        }
        assert!(!node.is_leaf());
    }
}

#[test]
fn constants_and_symbols_are_leaves() {
    let four = Math::Constant(Constant::from_integer(Integer::from_i64(4)));
    assert!(four.children().is_empty());
    assert!(four.is_leaf());
    let x = Math::Symbol(String::from("x"));
    assert!(x.children().is_empty());
    assert!(x.is_leaf());
}

#[test]
fn the_open_variant_holds_any_number_of_operands() {
    let none = Math::Other(String::from("pi"), vec![]);
    assert!(none.is_leaf());
    let many = Math::Other(String::from("f"), vec![Id(3), Id(1), Id(2), Id(1)]);
    assert_eq!(many.children(), &[Id(3), Id(1), Id(2), Id(1)]);
    assert!(!many.is_leaf());
}

#[test]
fn nodes_compare_by_shape_and_content() {
    let half = Constant::new(&Integer::from_i64(1), &Integer::from_i64(2)).unwrap();
    let two_quarters = Constant::new(&Integer::from_i64(2), &Integer::from_i64(4)).unwrap();
    assert_eq!(Math::Constant(half.clone()), Math::Constant(two_quarters));
    assert_ne!(Math::Constant(half), Math::Symbol(String::from("1/2")));
    assert_eq!(Math::Add([Id(0), Id(1), Id(2)]), Math::Add([Id(0), Id(1), Id(2)]));
    assert_ne!(Math::Add([Id(0), Id(1), Id(2)]), Math::Add([Id(0), Id(2), Id(1)]));
    assert_ne!(Math::Add([Id(0), Id(1), Id(2)]), Math::Sub([Id(0), Id(1), Id(2)]));
    assert_ne!(
        Math::Other(String::from("f"), vec![Id(1)]),
        Math::Other(String::from("g"), vec![Id(1)])
    );
}
