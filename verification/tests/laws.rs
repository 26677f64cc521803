//! The laws of navigation, each checked on concrete trees.

use std::rc::Rc;

use the_zipper::{Location, Path, Tree};

fn item(s: &str) -> Tree<String> {
    Tree::Item(s.to_string())
}

fn expression() -> Tree<String> {
    Tree::Section(vec![
        item("a"),
        Tree::Section(vec![item("b1"), item("b2"), Tree::Section(vec![])]),
        item("c"),
        Tree::Section(vec![item("d1")]),
    ])
}

fn at_top(tree: Tree<String>) -> Location<String> {
    Location { cursor: tree, path: Rc::new(Path::Top) }
}

fn among_siblings(tree: Tree<String>) -> Location<String> {
    Location {
        cursor: tree,
        path: Rc::new(Path::Node {
            left: vec![item("l1"), item("l2")],
            right: vec![item("r1")],
            path: Rc::new(Path::Node {
                left: vec![],
                right: vec![item("outer")],
                path: Rc::new(Path::Top),
            }),
        }),
    }
}

#[test]
fn down_then_up_gives_the_location_back() {
    for location in [at_top(expression()), among_siblings(expression())] {
        let back = location.clone().go_down().unwrap().go_up();
        assert_eq!(back, Some(location));
    }
    let single = at_top(Tree::Section(vec![item("only")]));
    assert_eq!(single.clone().go_down().unwrap().go_up(), Some(single));
}

#[test]
fn down_then_up_from_new_rebuilds_the_section() {
    let section = expression();
    let rebuilt = Location::new(section.clone()).go_down().unwrap().go_up().unwrap();
    assert_eq!(rebuilt.cursor, section);
}

#[test]
fn any_child_then_up_gives_the_location_back() {
    for location in [at_top(expression()), among_siblings(expression())] {
        for n in 0..4 {
            let back = location.clone().get_nth(n).unwrap().go_up();
            assert_eq!(back, Some(location.clone()));
        }
    }
}

#[test]
fn right_then_left_gives_the_location_back() {
    let mut location = at_top(expression()).go_down().unwrap();
    for _ in 0..3 {
        let there = location.clone().go_right().unwrap();
        assert_eq!(there.clone().go_left(), Some(location));
        location = there;
    }
    assert_eq!(location.go_right(), None);
}

#[test]
fn left_then_right_gives_the_location_back() {
    let mut location = at_top(expression()).get_nth(3).unwrap();
    for _ in 0..3 {
        let there = location.clone().go_left().unwrap();
        assert_eq!(there.clone().go_right(), Some(location));
        location = there;
    }
    assert_eq!(location.go_left(), None);
}

#[test]
fn lateral_moves_keep_what_going_up_rebuilds() {
    let base = among_siblings(expression());
    let mut location = base.clone().go_down().unwrap();
    loop {
        assert_eq!(location.clone().go_up(), Some(base.clone()));
        match location.go_right() {
            Some(next) => location = next,
            None => break,
        }
    }
}

#[test]
fn get_nth_focuses_the_child_at_the_index() {
    let children = vec![item("c0"), Tree::Section(vec![item("x")]), item("c2"), item("c3")];
    let location = among_siblings(Tree::Section(children.clone()));
    for (i, child) in children.iter().enumerate() {
        assert_eq!(location.clone().get_nth(i).unwrap().cursor, *child);
    }
    assert_eq!(location.clone().get_nth(4), None);
    assert_eq!(location.clone().get_nth(5), None);
    assert_eq!(location.get_nth(usize::MAX), None);
}

#[test]
fn get_nth_is_down_then_right_n_times() {
    let location = among_siblings(expression());
    assert_eq!(location.clone().get_nth(0), location.clone().go_down());
    let mut stepped = location.clone().go_down();
    for n in 1..6 {
        stepped = stepped.and_then(Location::go_right);
        assert_eq!(location.clone().get_nth(n), stepped);
    }
}

#[test]
fn get_nth_keeps_siblings_nearest_first() {
    let location =
        at_top(Tree::Section(vec![item("a"), item("b"), item("c"), item("d"), item("e")]));
    assert_eq!(
        location.get_nth(2),
        Some(Location {
            cursor: item("c"),
            path: Rc::new(Path::Node {
                left: vec![item("b"), item("a")],
                right: vec![item("d"), item("e")],
                path: Rc::new(Path::Top),
            }),
        })
    );
}

#[test]
fn up_from_a_fresh_location_lists_the_tree_twice() {
    let tree = expression();
    let up = Location::new(tree.clone()).go_up();
    assert_eq!(up, Some(at_top(Tree::Section(vec![tree.clone(), tree]))));
}

#[test]
fn memo_lookup_equals_plain_lookup() {
    for base in [at_top(expression()), among_siblings(expression()), at_top(item("leaf"))] {
        let memo = base.clone().with_memo();
        for i in [0, 1, 2, 3, 4, 5, 1, 0, 3] {
            let through_memo = memo.clone().get_nth(i).map(|found| found.into_inner());
            assert_eq!(through_memo, base.clone().get_nth(i));
        }
    }
}

#[test]
fn memo_lookup_twice_gives_equal_locations() {
    let memo = among_siblings(expression()).with_memo();
    for i in 0..6 {
        let first = memo.clone().get_nth(i).map(|found| found.into_inner());
        let second = memo.clone().get_nth(i).map(|found| found.into_inner());
        assert_eq!(first, second);
    }
}

#[test]
fn memo_lookup_through_its_own_result_gives_the_same_location() {
    let memo = at_top(expression()).with_memo();
    let first = memo.get_nth(1).unwrap();
    let expected = first.clone().into_inner();
    let again = first.get_nth(1).unwrap();
    assert_eq!(again.into_inner(), expected);
}

#[test]
fn memo_wrappers_from_one_base_all_look_up_in_that_base() {
    let base = at_top(expression());
    let memo = base.clone().with_memo();
    let second_child = memo.clone().get_nth(1).unwrap();
    let through_child = second_child.clone().get_nth(0).unwrap().into_inner();
    assert_eq!(Some(through_child), base.clone().get_nth(0));
    assert_eq!(
        second_child.clone().get_nth(3).map(|found| found.into_inner()),
        base.clone().get_nth(3)
    );
    assert!(second_child.get_nth(4).is_none());
    assert!(memo.get_nth(4).is_none());
}

#[test]
fn memo_with_a_new_wrapper_starts_from_its_own_base() {
    let base = at_top(expression());
    let child = base.with_memo().get_nth(1).unwrap().into_inner();
    let memo = child.clone().with_memo();
    assert_eq!(memo.clone().get_nth(0).map(|found| found.into_inner()), child.clone().get_nth(0));
    assert_eq!(memo.clone().get_nth(1).unwrap().into_inner().cursor, item("b2"));
    assert!(memo.get_nth(3).is_none());
}
