use walk_rs::Predicate;
use walk_rs::Role;

type Rule = fn(&String) -> bool;

fn has_dot(path: &String) -> bool {
    path.contains('.')
}

#[test]
fn call_applies_the_wrapped_function() {
    let rule: Rule = has_dot;
    assert!(Predicate::File(rule).call(&"a.txt".to_string()));
    assert!(!Predicate::File(rule).call(&"a".to_string()));
    assert!(Predicate::DirSoft(rule).call(&"a.txt".to_string()));
    assert!(!Predicate::DirSoft(rule).call(&"a".to_string()));
    assert!(Predicate::DirHard(rule).call(&"a.txt".to_string()));
    assert!(!Predicate::DirHard(rule).call(&"a".to_string()));
}

#[test]
fn a_hard_directory_rule_is_a_directory_rule() {
    let predicate = Predicate::DirHard(has_dot as Rule);
    assert!(predicate.is_dir());
    assert!(predicate.is_dir_hard());
    assert!(!predicate.is_dir_soft());
    assert!(!predicate.is_file());
}

#[test]
fn a_soft_directory_rule_is_a_directory_rule() {
    let predicate = Predicate::DirSoft(has_dot as Rule);
    assert!(predicate.is_dir());
    assert!(!predicate.is_dir_hard());
    assert!(predicate.is_dir_soft());
    assert!(!predicate.is_file());
}

#[test]
fn a_file_rule_is_no_directory_rule() {
    let predicate = Predicate::File(has_dot as Rule);
    assert!(!predicate.is_dir());
    assert!(!predicate.is_dir_hard());
    assert!(!predicate.is_dir_soft());
    assert!(predicate.is_file());
}

#[test]
fn an_unset_predicate_has_no_role() {
    let predicate: Predicate<Rule> = Predicate::Unset;
    assert!(!predicate.is_dir());
    assert!(!predicate.is_dir_hard());
    assert!(!predicate.is_dir_soft());
    assert!(!predicate.is_file());
    assert!(!predicate.has_role(Role::DirHard));
    assert!(!predicate.has_role(Role::DirSoft));
    assert!(!predicate.has_role(Role::File));
}

#[test]
fn has_role_tells_the_roles_apart() {
    let hard = Predicate::DirHard(has_dot as Rule);
    let soft = Predicate::DirSoft(has_dot as Rule);
    let file = Predicate::File(has_dot as Rule);
    assert!(hard.has_role(Role::DirHard) && !hard.has_role(Role::DirSoft) && !hard.has_role(Role::File));
    assert!(!soft.has_role(Role::DirHard) && soft.has_role(Role::DirSoft) && !soft.has_role(Role::File));
    assert!(!file.has_role(Role::DirHard) && !file.has_role(Role::DirSoft) && file.has_role(Role::File));
}
