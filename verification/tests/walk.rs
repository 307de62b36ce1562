use std::cell::RefCell;
use std::path::Path;
use std::rc::Rc;

use walk_rs::Action;
use walk_rs::Event;
use walk_rs::FileWalker;
use walk_rs::Pattern;
use walk_rs::Predicate;
use walk_rs::WalkState;

type Rule = Box<dyn Fn(&String) -> bool>;
type Sink = Box<dyn Fn(&String)>;
type Walker = FileWalker<String, Rule, Sink>;
type Item = Result<(String, bool), String>;

/// A directory tree held in memory: each directory with its listing, in
/// the order in which its entries are reported.
struct Tree {
    listings: Vec<(String, Result<Vec<Item>, String>)>,
}

impl Tree {
    fn new() -> Tree {
        Tree { listings: Vec::new() }
    }

    fn dir(mut self, path: &str, entries: &[(&str, bool)]) -> Tree {
        let items = entries
            .iter()
            .map(|(name, is_dir)| Ok((format!("{}/{}", path, name), *is_dir)))
            .collect();
        self.listings.push((path.to_string(), Ok(items)));
        self
    }

    fn dir_with(mut self, path: &str, items: Vec<Item>) -> Tree {
        self.listings.push((path.to_string(), Ok(items)));
        self
    }

    fn unreadable(mut self, path: &str, error: &str) -> Tree {
        self.listings.push((path.to_string(), Err(error.to_string())));
        self
    }

    fn listing(&self, path: &str) -> &Result<Vec<Item>, String> {
        match self.listings.iter().find(|(dir, _)| dir == path) {
            Some((_, listing)) => listing,
            None => panic!("no directory {}", path),
        }
    }

    fn is_dir(&self, path: &str) -> bool {
        self.listings.iter().any(|(dir, _)| dir == path)
    }
}

/// What a walk did, as its caller saw it.
struct Report {
    result: Result<(), String>,
    entered: Vec<String>,
    reported: Vec<String>,
}

enum Outcome {
    Ready,
    Failed(String),
    Done(Result<(), String>),
}

fn perform<'t>(
    walker: &Walker,
    tree: &'t Tree,
    action: Action<'_, String, String>,
    open: &mut Vec<std::slice::Iter<'t, Item>>,
    entered: &mut Vec<String>,
) -> Outcome {
    match action {
        Action::Enter(path) => match tree.listing(path) {
            Ok(items) => {
                entered.push(path.clone());
                open.push(items.iter());
                Outcome::Ready
            }
            Err(error) => Outcome::Failed(error.clone()),
        },
        Action::Dispatch(path) => {
            walker.call_callbacks(path);
            Outcome::Ready
        }
        Action::Advance => Outcome::Ready,
        Action::Leave => {
            open.pop();
            Outcome::Ready
        }
        Action::Finish(result) => Outcome::Done(result),
    }
}

/// Runs a walk over `tree`: does what the walker asks for and reports
/// what the tree holds.
fn run(walker: &Walker, tree: &Tree) -> Report {
    let mut open: Vec<std::slice::Iter<Item>> = Vec::new();
    let mut entered: Vec<String> = Vec::new();
    let mut reported: Vec<String> = Vec::new();
    let (mut state, first) = walker.walk::<String>();
    let mut outcome = perform(walker, tree, first, &mut open, &mut entered);
    loop {
        let action = match outcome {
            Outcome::Done(result) => {
                assert_eq!(state, WalkState::Finished);
                return Report { result, entered, reported };
            }
            Outcome::Failed(error) => walker.walk_at(&mut state, Event::Failed(error)),
            Outcome::Ready => {
                assert_eq!(state, WalkState::Listing { depth: open.len() - 1 });
                match open.last_mut().unwrap().next() {
                    None => walker.walk_at(&mut state, Event::Exhausted),
                    Some(Err(error)) => walker.walk_at(&mut state, Event::Failed(error.clone())),
                    Some(Ok((path, is_dir))) => {
                        reported.push(path.clone());
                        walker.walk_at(&mut state, Event::Entry { path, is_dir: *is_dir })
                    }
                }
            }
        };
        outcome = perform(walker, tree, action, &mut open, &mut entered);
    }
}

fn recorder(log: &Rc<RefCell<Vec<String>>>) -> Sink {
    let log = Rc::clone(log);
    Box::new(move |path: &String| log.borrow_mut().push(path.clone()))
}

fn names(paths: &[&str]) -> Vec<String> {
    paths.iter().map(|p| p.to_string()).collect()
}

fn ancestors_of(path: &str) -> Vec<String> {
    Path::new(path)
        .parent()
        .unwrap()
        .components()
        .map(|c| c.as_os_str().to_str().unwrap().to_string())
        .collect()
}

fn file_name_of(path: &str) -> String {
    Path::new(path).file_name().unwrap_or_default().to_str().unwrap().to_string()
}

fn parent_excludes(pattern: &str) -> Predicate<Rule> {
    let pattern = Pattern::new(pattern).expect("valid regex");
    Predicate::DirHard(Box::new(move |path: &String| {
        walk_rs::parent_excludes(&ancestors_of(path), &pattern)
    }))
}

fn file_excludes(pattern: &str, tree: &Rc<Tree>) -> Predicate<Rule> {
    let pattern = Pattern::new(pattern).expect("valid regex");
    let tree = Rc::clone(tree);
    Predicate::File(Box::new(move |path: &String| {
        walk_rs::file_excludes(tree.is_dir(path), &file_name_of(path), &pattern)
    }))
}

fn deep_tree() -> Tree {
    Tree::new()
        .dir("r", &[("f0", false), ("d1", true), ("g0", false)])
        .dir("r/d1", &[("f1", false), ("d2", true)])
        .dir("r/d1/d2", &[("f2", false), ("d3", true)])
        .dir("r/d1/d2/d3", &[("f3", false)])
}

#[test]
fn files_below_an_excluded_ancestor_are_not_dispatched() {
    let tree = Tree::new()
        .dir("root", &[("a.txt", false), ("b.txt", false), ("SCANS", true)])
        .dir("root/SCANS", &[("c.txt", false)]);
    let log = Rc::new(RefCell::new(Vec::new()));
    let walker = Walker::new("root".to_string())
        .with_callback(recorder(&log))
        .with_predicate(parent_excludes("SCANS"));
    let report = run(&walker, &tree);
    assert_eq!(report.result, Ok(()));
    assert_eq!(*log.borrow(), names(&["root/a.txt", "root/b.txt"]));
    assert_eq!(report.entered, names(&["root", "root/SCANS"]));
}

#[test]
fn an_excluded_ancestor_is_excluded_in_any_listing_order() {
    let tree = Tree::new()
        .dir("root", &[("SCANS", true), ("b.txt", false), ("a.txt", false)])
        .dir("root/SCANS", &[("c.txt", false), ("d.txt", false)]);
    let log = Rc::new(RefCell::new(Vec::new()));
    let walker = Walker::new("root".to_string())
        .with_callback(recorder(&log))
        .with_predicate(parent_excludes("SCANS"));
    let report = run(&walker, &tree);
    assert_eq!(report.result, Ok(()));
    assert_eq!(*log.borrow(), names(&["root/b.txt", "root/a.txt"]));
    assert_eq!(report.reported, names(&["root/SCANS", "root/SCANS/c.txt", "root/b.txt", "root/a.txt"]));
}

#[test]
fn files_with_an_excluded_name_are_not_dispatched() {
    let tree = Rc::new(Tree::new().dir("root", &[("main.rs", false), ("lib.rs", false)]));
    let log = Rc::new(RefCell::new(Vec::new()));
    let walker = Walker::new("root".to_string())
        .with_callback(recorder(&log))
        .with_predicate(file_excludes("main.*", &tree));
    let report = run(&walker, &tree);
    assert_eq!(report.result, Ok(()));
    assert_eq!(*log.borrow(), names(&["root/lib.rs"]));
    assert_eq!(report.reported, names(&["root/main.rs", "root/lib.rs"]));
}

#[test]
fn a_failed_listing_aborts_the_walk() {
    let tree = Tree::new()
        .dir("root", &[("a.txt", false), ("d1", true), ("c.txt", false)])
        .dir("root/d1", &[("b.txt", false), ("d2", true), ("z.txt", false)])
        .unreadable("root/d1/d2", "permission denied");
    let log = Rc::new(RefCell::new(Vec::new()));
    let walker = Walker::new("root".to_string()).with_callback(recorder(&log));
    let report = run(&walker, &tree);
    assert_eq!(report.result, Err("permission denied".to_string()));
    assert_eq!(*log.borrow(), names(&["root/a.txt", "root/d1/b.txt"]));
    assert_eq!(report.reported, names(&["root/a.txt", "root/d1", "root/d1/b.txt", "root/d1/d2"]));
}

#[test]
fn a_failed_hard_rule_ends_the_listing() {
    let tree = Tree::new().dir("root", &[("a", false), ("x", false), ("b", false)]);
    let log = Rc::new(RefCell::new(Vec::new()));
    let first_seen = Rc::new(RefCell::new(Vec::new()));
    let seen = Rc::clone(&first_seen);
    let always: Rule = Box::new(move |path: &String| {
        seen.borrow_mut().push(path.clone());
        true
    });
    let not_x: Rule = Box::new(|path: &String| path != "root/x");
    let walker = Walker::new("root".to_string())
        .with_callback(recorder(&log))
        .with_predicate(Predicate::DirHard(always))
        .with_predicate(Predicate::DirHard(not_x));
    let report = run(&walker, &tree);
    assert_eq!(report.result, Ok(()));
    assert_eq!(*log.borrow(), names(&["root/a"]));
    assert_eq!(report.reported, names(&["root/a", "root/x"]));
    assert_eq!(*first_seen.borrow(), names(&["root/a", "root/x"]));
}

#[test]
fn a_failed_hard_rule_returns_to_the_directory_above() {
    let tree = Tree::new()
        .dir("root", &[("sub", true), ("after", false)])
        .dir("root/sub", &[("one", false), ("stop", false), ("two", false)]);
    let log = Rc::new(RefCell::new(Vec::new()));
    let not_stop: Rule = Box::new(|path: &String| !path.ends_with("stop"));
    let walker = Walker::new("root".to_string())
        .with_callback(recorder(&log))
        .with_predicate(Predicate::DirHard(not_stop));
    let report = run(&walker, &tree);
    assert_eq!(report.result, Ok(()));
    assert_eq!(*log.borrow(), names(&["root/sub/one", "root/after"]));
}

#[test]
fn a_hard_rule_that_fails_on_a_directory_ends_the_listing_too() {
    let tree = Tree::new()
        .dir("root", &[("a", false), ("skip", true), ("b", false)])
        .dir("root/skip", &[("inner", false)]);
    let log = Rc::new(RefCell::new(Vec::new()));
    let not_skip: Rule = Box::new(|path: &String| path != "root/skip");
    let walker = Walker::new("root".to_string())
        .with_callback(recorder(&log))
        .with_predicate(Predicate::DirHard(not_skip));
    let report = run(&walker, &tree);
    assert_eq!(report.result, Ok(()));
    assert_eq!(*log.borrow(), names(&["root/a"]));
    assert_eq!(report.entered, names(&["root"]));
}

#[test]
fn max_depth_zero_lists_nothing() {
    let tree = deep_tree();
    let log = Rc::new(RefCell::new(Vec::new()));
    let walker = Walker::new("r".to_string()).with_max_depth(0).with_callback(recorder(&log));
    let report = run(&walker, &tree);
    assert_eq!(report.result, Ok(()));
    assert!(report.entered.is_empty());
    assert!(log.borrow().is_empty());
}

#[test]
fn max_depth_one_lists_the_root_and_does_not_descend() {
    let tree = deep_tree();
    let log = Rc::new(RefCell::new(Vec::new()));
    let walker = Walker::new("r".to_string()).with_max_depth(1).with_callback(recorder(&log));
    let report = run(&walker, &tree);
    assert_eq!(report.result, Ok(()));
    assert_eq!(report.entered, names(&["r"]));
    assert_eq!(*log.borrow(), names(&["r/f0", "r/g0"]));
}

#[test]
fn no_file_at_or_beyond_the_maximum_depth_is_dispatched() {
    let tree = deep_tree();
    let log = Rc::new(RefCell::new(Vec::new()));
    let walker = Walker::new("r".to_string()).with_max_depth(2).with_callback(recorder(&log));
    let report = run(&walker, &tree);
    assert_eq!(report.result, Ok(()));
    assert_eq!(report.entered, names(&["r", "r/d1"]));
    assert_eq!(*log.borrow(), names(&["r/f0", "r/d1/f1", "r/g0"]));
}

#[test]
fn no_file_above_the_minimum_depth_is_dispatched() {
    let tree = deep_tree();
    let log = Rc::new(RefCell::new(Vec::new()));
    let walker = Walker::new("r".to_string()).with_min_depth(2).with_callback(recorder(&log));
    let report = run(&walker, &tree);
    assert_eq!(report.result, Ok(()));
    assert_eq!(report.entered, names(&["r", "r/d1", "r/d1/d2", "r/d1/d2/d3"]));
    assert_eq!(*log.borrow(), names(&["r/d1/d2/f2", "r/d1/d2/d3/f3"]));
}

#[test]
fn both_depth_bounds_together() {
    let tree = deep_tree();
    let log = Rc::new(RefCell::new(Vec::new()));
    let walker = Walker::new("r".to_string())
        .with_min_depth(1)
        .with_max_depth(3)
        .with_callback(recorder(&log));
    let report = run(&walker, &tree);
    assert_eq!(report.result, Ok(()));
    assert_eq!(report.entered, names(&["r", "r/d1", "r/d1/d2"]));
    assert_eq!(*log.borrow(), names(&["r/d1/f1", "r/d1/d2/f2"]));
}

#[test]
fn without_bounds_every_file_is_dispatched_depth_first() {
    let tree = deep_tree();
    let log = Rc::new(RefCell::new(Vec::new()));
    let walker = Walker::new("r".to_string()).with_callback(recorder(&log));
    let report = run(&walker, &tree);
    assert_eq!(report.result, Ok(()));
    assert_eq!(*log.borrow(), names(&["r/f0", "r/d1/f1", "r/d1/d2/f2", "r/d1/d2/d3/f3", "r/g0"]));
}

#[test]
fn a_failed_soft_or_file_rule_skips_only_the_file() {
    let tree = Tree::new().dir("root", &[("a", false), ("b", false), ("c", false), ("d", false)]);
    let log = Rc::new(RefCell::new(Vec::new()));
    let not_b: Rule = Box::new(|path: &String| path != "root/b");
    let not_c: Rule = Box::new(|path: &String| path != "root/c");
    let walker = Walker::new("root".to_string())
        .with_callback(recorder(&log))
        .with_predicate(Predicate::DirSoft(not_b))
        .with_predicate(Predicate::File(not_c));
    let report = run(&walker, &tree);
    assert_eq!(report.result, Ok(()));
    assert_eq!(*log.borrow(), names(&["root/a", "root/d"]));
    assert_eq!(report.reported, names(&["root/a", "root/b", "root/c", "root/d"]));
}

#[test]
fn soft_and_file_rules_have_no_say_on_directories() {
    let tree = Tree::new()
        .dir("root", &[("sub", true)])
        .dir("root/sub", &[("f", false)]);
    let log = Rc::new(RefCell::new(Vec::new()));
    let no_sub: Rule = Box::new(|path: &String| path != "root/sub");
    let no_sub_again: Rule = Box::new(|path: &String| path != "root/sub");
    let walker = Walker::new("root".to_string())
        .with_callback(recorder(&log))
        .with_predicate(Predicate::DirSoft(no_sub))
        .with_predicate(Predicate::File(no_sub_again));
    let report = run(&walker, &tree);
    assert_eq!(report.result, Ok(()));
    assert_eq!(report.entered, names(&["root", "root/sub"]));
    assert_eq!(*log.borrow(), names(&["root/sub/f"]));
}

#[test]
fn an_unset_predicate_has_no_say() {
    let tree = Tree::new().dir("root", &[("a", false)]);
    let log = Rc::new(RefCell::new(Vec::new()));
    let walker = Walker::new("root".to_string())
        .with_callback(recorder(&log))
        .with_predicate(Predicate::Unset);
    let report = run(&walker, &tree);
    assert_eq!(report.result, Ok(()));
    assert_eq!(*log.borrow(), names(&["root/a"]));
}

#[test]
fn callbacks_fire_in_the_order_of_registration() {
    let tree = Tree::new().dir("root", &[("a", false), ("b", false)]);
    let log = Rc::new(RefCell::new(Vec::new()));
    let first = Rc::clone(&log);
    let second = Rc::clone(&log);
    let walker = Walker::new("root".to_string())
        .with_callback(Box::new(move |p: &String| first.borrow_mut().push(format!("1:{}", p))))
        .with_callback(Box::new(move |p: &String| second.borrow_mut().push(format!("2:{}", p))));
    let report = run(&walker, &tree);
    assert_eq!(report.result, Ok(()));
    assert_eq!(*log.borrow(), names(&["1:root/a", "2:root/a", "1:root/b", "2:root/b"]));
}

#[test]
fn a_failed_entry_aborts_the_walk_after_the_entries_before_it() {
    let tree = Tree::new().dir_with(
        "root",
        vec![
            Ok(("root/a".to_string(), false)),
            Err("stale handle".to_string()),
            Ok(("root/b".to_string(), false)),
        ],
    );
    let log = Rc::new(RefCell::new(Vec::new()));
    let walker = Walker::new("root".to_string()).with_callback(recorder(&log));
    let report = run(&walker, &tree);
    assert_eq!(report.result, Err("stale handle".to_string()));
    assert_eq!(*log.borrow(), names(&["root/a"]));
}

#[test]
fn an_unreadable_root_fails_the_walk_at_once() {
    let tree = Tree::new().unreadable("root", "not found");
    let log = Rc::new(RefCell::new(Vec::new()));
    let walker = Walker::new("root".to_string()).with_callback(recorder(&log));
    let report = run(&walker, &tree);
    assert_eq!(report.result, Err("not found".to_string()));
    assert!(log.borrow().is_empty());
}

#[test]
fn an_empty_root_ends_in_success() {
    let tree = Tree::new().dir("root", &[]);
    let walker = Walker::new("root".to_string());
    let report = run(&walker, &tree);
    assert_eq!(report.result, Ok(()));
    assert_eq!(report.entered, names(&["root"]));
}

/// The depth-first descent, written out: what a walk over `tree` hands to
/// the callbacks, and how it ends.
fn descend(
    walker: &Walker,
    tree: &Tree,
    location: &str,
    depth: usize,
    max_depth: usize,
    min_depth: usize,
    out: &mut Vec<String>,
) -> Result<(), String> {
    if depth >= max_depth {
        return Ok(());
    }
    let items = match tree.listing(location) {
        Ok(items) => items,
        Err(error) => return Err(error.clone()),
    };
    for item in items {
        let (path, is_dir) = match item {
            Ok(found) => found,
            Err(error) => return Err(error.clone()),
        };
        if !walker.call_pred_dirh(path) {
            break;
        }
        if *is_dir {
            descend(walker, tree, path, depth + 1, max_depth, min_depth, out)?;
            continue;
        }
        if depth < min_depth {
            continue;
        }
        let soft = walker.call_pred_dirs(path);
        let file = walker.call_pred_file(path);
        if soft && file {
            out.push(path.clone());
        }
    }
    Ok(())
}

fn big_tree() -> Tree {
    Tree::new()
        .dir("r", &[("a.rs", false), ("x", true), ("b.txt", false), ("y", true), ("z", true), ("c.rs", false)])
        .dir("r/x", &[("x1.rs", false), ("deep", true), ("x2.txt", false)])
        .dir("r/x/deep", &[("d1.txt", false), ("stop.rs", false), ("d2.rs", false)])
        .unreadable("r/y", "denied")
        .dir("r/z", &[("z1.rs", false)])
}

#[test]
fn a_walk_does_what_the_descent_does() {
    for max_depth in 0..5 {
        for min_depth in 0..4 {
            for rules in 0..4 {
                let tree = big_tree();
                let log = Rc::new(RefCell::new(Vec::new()));
                let mut walker = Walker::new("r".to_string())
                    .with_max_depth(max_depth)
                    .with_min_depth(min_depth)
                    .with_callback(recorder(&log));
                if rules & 1 != 0 {
                    walker = walker.with_predicate(Predicate::DirHard(Box::new(|p: &String| {
                        !p.ends_with("stop.rs")
                    })));
                }
                if rules & 2 != 0 {
                    walker = walker
                        .with_predicate(Predicate::File(Box::new(|p: &String| p.ends_with(".rs"))))
                        .with_predicate(Predicate::DirSoft(Box::new(|p: &String| !p.contains("x2"))));
                }
                let mut expected = Vec::new();
                let result = descend(&walker, &tree, "r", 0, max_depth, min_depth, &mut expected);
                let report = run(&walker, &tree);
                assert_eq!(report.result, result);
                assert_eq!(*log.borrow(), expected);
            }
        }
    }
}

#[test]
fn the_descent_of_the_big_tree_stops_at_its_unreadable_directory() {
    let tree = big_tree();
    let log = Rc::new(RefCell::new(Vec::new()));
    let walker = Walker::new("r".to_string()).with_callback(recorder(&log));
    let report = run(&walker, &tree);
    assert_eq!(report.result, Err("denied".to_string()));
    assert_eq!(
        *log.borrow(),
        names(&["r/a.rs", "r/x/x1.rs", "r/x/deep/d1.txt", "r/x/deep/stop.rs", "r/x/deep/d2.rs", "r/x/x2.txt", "r/b.txt"])
    );
    let shallow = Walker::new("r".to_string()).with_max_depth(1).with_callback(recorder(&log));
    assert_eq!(run(&shallow, &tree).result, Ok(()));
}
