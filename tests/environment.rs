use std::rc::Rc;

use can::env::Env;
use can::problem::Problem;
use can::region::{Located, Region};
use can::symbol::Symbol;
use can::variants::VariantTable;

fn region(start_line: u32, start_col: u32, end_line: u32, end_col: u32) -> Region {
    Region { start_line, start_col, end_line, end_col }
}

fn located(r: Region, s: &str) -> Located<Box<str>> {
    Located { region: r, value: s.into() }
}

fn unused_import(name: &str) -> Problem {
    Problem::UnusedImport(located(region(1, 0, 1, 10), name))
}

#[test]
fn new_environment_keeps_home_and_variants_with_no_problems() {
    let mut table = VariantTable::new();
    table.insert(Symbol::new("Main.Red"), located(region(2, 4, 2, 7), "Red"));
    table.insert(Symbol::new("Main.Blue"), located(region(2, 10, 2, 14), "Blue"));
    let env = Env::new("Main".into(), Rc::new(table));
    assert_eq!(env.home(), "Main");
    assert!(env.problems().is_empty());
    assert_eq!(
        env.variants().get(&Symbol::new("Main.Red")),
        Some(&located(region(2, 4, 2, 7), "Red"))
    );
    assert_eq!(
        env.variants().get(&Symbol::new("Main.Blue")),
        Some(&located(region(2, 10, 2, 14), "Blue"))
    );
    assert_eq!(env.variants().get(&Symbol::new("Main.Green")), None);
}

#[test]
fn empty_variants_then_same_problem_twice() {
    let mut env = Env::new("Main".into(), Rc::new(VariantTable::new()));
    assert_eq!(env.home(), "Main");
    assert_eq!(env.problems().len(), 0);
    let d1 = unused_import("List");
    env.problem(d1.clone());
    assert_eq!(env.problems(), &vec![d1.clone()]);
    env.problem(d1.clone());
    assert_eq!(env.problems(), &vec![d1.clone(), d1]);
}

#[test]
fn problems_come_back_in_call_order() {
    let mut env = Env::new("Main".into(), Rc::new(VariantTable::new()));
    let ps = vec![
        Problem::Shadowing(located(region(3, 0, 3, 1), "x")),
        Problem::UnresolvedName(located(region(4, 2, 4, 5), "foo")),
        Problem::Shadowing(located(region(3, 0, 3, 1), "x")),
        Problem::DuplicateDefinition(located(region(5, 0, 5, 3), "bar")),
        Problem::UnresolvedVariant(located(region(6, 1, 6, 6), "Green")),
    ];
    for p in ps.iter() {
        env.problem(p.clone());
    }
    assert_eq!(env.into_problems(), ps);
}

#[test]
fn recording_leaves_home_and_variants_alone() {
    let mut table = VariantTable::new();
    table.insert(Symbol::new("Main.Ok"), located(region(7, 3, 7, 5), "Ok"));
    let env_table = Rc::new(table);
    let mut env = Env::new("Main.Sub".into(), env_table.clone());
    for i in 0..5 {
        env.problem(unused_import(&format!("M{}", i)));
    }
    assert_eq!(env.home(), "Main.Sub");
    assert_eq!(
        env.variants().get(&Symbol::new("Main.Ok")),
        Some(&located(region(7, 3, 7, 5), "Ok"))
    );
    assert_eq!(env.variants().get(&Symbol::new("Main.Err")), None);
    assert_eq!(env.problems().len(), 5);
}

#[test]
fn variant_association_survives_any_number_of_problems() {
    let s = Symbol::new("Result.Ok");
    let r = region(12, 8, 12, 10);
    let mut table = VariantTable::new();
    table.insert(s.clone(), located(r, "Ok"));
    let mut env = Env::new("Main".into(), Rc::new(table));
    for n in 0..20 {
        assert_eq!(env.variants().get(&s), Some(&located(r, "Ok")));
        env.problem(Problem::UnresolvedName(located(region(n, 0, n, 1), "y")));
    }
    assert_eq!(env.variants().get(&s), Some(&located(r, "Ok")));
}

#[test]
fn environments_from_one_table_keep_their_own_problems() {
    let mut table = VariantTable::new();
    table.insert(Symbol::new("Main.A"), located(region(1, 1, 1, 2), "A"));
    let shared = Rc::new(table);
    let mut first = Env::new("First".into(), shared.clone());
    let mut second = Env::new("Second".into(), shared.clone());
    first.problem(unused_import("X"));
    first.problem(unused_import("Y"));
    assert_eq!(second.problems().len(), 0);
    second.problem(unused_import("Z"));
    assert_eq!(first.problems(), &vec![unused_import("X"), unused_import("Y")]);
    assert_eq!(second.problems(), &vec![unused_import("Z")]);
    assert_eq!(
        first.variants().get(&Symbol::new("Main.A")),
        second.variants().get(&Symbol::new("Main.A"))
    );
}

#[test]
fn insert_replaces_an_existing_symbol() {
    let mut table = VariantTable::new();
    let s = Symbol::new("Main.Cons");
    table.insert(s.clone(), located(region(1, 0, 1, 4), "Cons"));
    table.insert(Symbol::new("Main.Nil"), located(region(1, 7, 1, 10), "Nil"));
    table.insert(s.clone(), located(region(9, 0, 9, 4), "Cons"));
    assert_eq!(table.get(&s), Some(&located(region(9, 0, 9, 4), "Cons")));
    assert_eq!(
        table.get(&Symbol::new("Main.Nil")),
        Some(&located(region(1, 7, 1, 10), "Nil"))
    );
    assert!(table.contains(&Symbol::new("Main.Nil")));
    assert!(!table.contains(&Symbol::new("Main.Snoc")));
}

#[test]
fn empty_table_holds_nothing() {
    let table = VariantTable::new();
    assert_eq!(table.get(&Symbol::new("")), None);
    assert!(!table.contains(&Symbol::new("Main.Red")));
}

#[test]
fn symbols_compare_by_name() {
    assert_eq!(Symbol::new("Main.Red"), Symbol::new("Main.Red"));
    assert_ne!(Symbol::new("Main.Red"), Symbol::new("Main.Blue"));
    assert_eq!(Symbol::new("Main.Red").as_str(), "Main.Red");
}
