use canopy::node::{postorder, preorder};
use canopy::order::{postorder_ids, preorder_ids, Recorder};
use canopy::walker::{SkipWalker, Walk, Walker};
use canopy::{Error, Outcome, Tree};

fn troot() -> Tree {
    let mut tree = Tree::new("r", true);
    let a = tree.add_child(0, "ba", true);
    tree.add_child(a, "ba:la", true);
    tree.add_child(a, "ba:lb", true);
    let b = tree.add_child(0, "bb", true);
    tree.add_child(b, "bb:la", true);
    tree.add_child(b, "bb:lb", true);
    tree
}

fn names(tree: &Tree, ids: &[usize]) -> Vec<String> {
    ids.iter().map(|&i| tree.node_name(i).to_string()).collect()
}

#[test]
fn tpostorder() {
    fn skipon(tree: &Tree, skipname: &str) -> Vec<String> {
        let mut v = Recorder::new(skipname);
        let r: Result<SkipWalker, Error> = postorder(tree, 0, &mut v);
        assert!(r.is_ok());
        names(tree, &v.seen)
    }

    let root = troot();
    assert_eq!(skipon(&root, "ba:la"), ["ba:la", "ba", "r"]);
    assert_eq!(skipon(&root, "ba:lb"), ["ba:la", "ba:lb", "ba", "r"]);
    assert_eq!(
        skipon(&root, "r"),
        ["ba:la", "ba:lb", "ba", "bb:la", "bb:lb", "bb", "r"]
    );
    assert_eq!(
        skipon(&root, "bb"),
        ["ba:la", "ba:lb", "ba", "bb:la", "bb:lb", "bb", "r"]
    );
    assert_eq!(skipon(&root, "ba"), ["ba:la", "ba:lb", "ba", "r"]);
}

#[test]
fn tpreorder() {
    fn skipon(tree: &Tree, skipname: &str) -> Vec<String> {
        let mut v = Recorder::new(skipname);
        let r: Result<SkipWalker, Error> = preorder(tree, 0, &mut v);
        assert!(r.is_ok());
        names(tree, &v.seen)
    }

    let root = troot();
    assert_eq!(
        skipon(&root, "never"),
        ["r", "ba", "ba:la", "ba:lb", "bb", "bb:la", "bb:lb"]
    );
    assert_eq!(skipon(&root, "r"), ["r"]);
    assert_eq!(skipon(&root, "ba"), ["r", "ba", "bb", "bb:la", "bb:lb"]);
    assert_eq!(skipon(&root, "bb"), ["r", "ba", "ba:la", "ba:lb", "bb"]);
}

#[test]
fn orders_of_a_tree() {
    let root = troot();
    assert_eq!(preorder_ids(&root, 0), [0, 1, 2, 3, 4, 5, 6]);
    assert_eq!(postorder_ids(&root, 0), [2, 3, 1, 5, 6, 4, 0]);
    assert_eq!(preorder_ids(&root, 4), [4, 5, 6]);
    assert_eq!(postorder_ids(&root, 1), [2, 3, 1]);
}

#[test]
fn single_node_is_visited_once() {
    let tree = Tree::new("only", false);
    let mut pre = Recorder::new("");
    let _: Result<SkipWalker, Error> = preorder(&tree, 0, &mut pre);
    assert_eq!(pre.seen, [0]);
    let mut post = Recorder::new("only");
    let r: Result<SkipWalker, Error> = postorder(&tree, 0, &mut post);
    assert_eq!(post.seen, [0]);
    assert_eq!(r, Ok(SkipWalker::new(true)));
}

#[test]
fn skip_result_is_joined() {
    let root = troot();
    let mut v = Recorder::new("ba:lb");
    let r: Result<SkipWalker, Error> = preorder(&root, 0, &mut v);
    assert_eq!(r, Ok(SkipWalker::new(true)));
    let mut v = Recorder::new("never");
    let r: Result<SkipWalker, Error> = preorder(&root, 0, &mut v);
    assert_eq!(r, Ok(SkipWalker::new(false)));
}

#[test]
fn walkers_join() {
    assert_eq!(Walk::Continue.join(Walk::Skip), Walk::Skip);
    assert_eq!(Walk::Skip.join(Walk::Continue), Walk::Continue);
    assert!(Walk::Skip.skip());
    assert!(!Walk::neutral().skip());
    assert!(SkipWalker::new(true).join(SkipWalker::new(false)).skip());
    assert!(!SkipWalker::neutral().join(SkipWalker::neutral()).skip());
}

#[test]
fn outcome_join() {
    let h = Outcome::handle();
    let i = Outcome::ignore();
    let hn = Outcome::Handle(canopy::Handle { skip: false });
    let is = Outcome::Ignore(canopy::Ignore::default().with_skip());
    assert_eq!(h.join(i), h);
    assert_eq!(i.join(h), h);
    assert_eq!(i.join(i), i);
    assert_eq!(hn.join(i), hn);
    assert_eq!(is.join(hn), h);
    assert_eq!(hn.join(is), h);
    assert_eq!(i.join(is), is);
    assert!(h.has_skip() && h.is_handled());
    assert!(!i.has_skip() && !i.is_handled());
    assert_eq!(Outcome::default(), i);
}
