use kennedy::compiler::SymbolTable;

fn key(name: &str) -> String {
    name.to_string()
}

#[test]
fn lookup_in_an_empty_table_finds_nothing() {
    let table: SymbolTable<u32> = SymbolTable::new();
    assert_eq!(table.depth(), 0);
    assert_eq!(table.lookup(&key("x")), None);
}

#[test]
fn innermost_binding_wins_and_goes_with_its_scope() {
    let mut table: SymbolTable<u32> = SymbolTable::new();
    table.enter_scope();
    table.define(key("x"), 1);
    table.define(key("y"), 10);
    table.enter_scope();
    assert_eq!(table.lookup(&key("x")), Some(&1));
    table.define(key("x"), 2);
    assert_eq!(table.lookup(&key("x")), Some(&2));
    assert_eq!(table.lookup(&key("y")), Some(&10));
    assert_eq!(table.depth(), 2);
    table.exit_scope();
    assert_eq!(table.lookup(&key("x")), Some(&1));
    assert_eq!(table.depth(), 1);
    table.exit_scope();
    assert_eq!(table.lookup(&key("x")), None);
    assert_eq!(table.depth(), 0);
}

#[test]
fn later_binding_in_one_scope_replaces_the_earlier() {
    let mut table: SymbolTable<u32> = SymbolTable::new();
    table.enter_scope();
    table.define(key("x"), 1);
    table.define(key("x"), 2);
    table.define(key("z"), 3);
    assert_eq!(table.lookup(&key("x")), Some(&2));
}

#[test]
fn define_without_a_scope_opens_one() {
    let mut table: SymbolTable<u32> = SymbolTable::new();
    table.define(key("x"), 1);
    assert_eq!(table.depth(), 1);
    assert_eq!(table.lookup(&key("x")), Some(&1));
}

#[test]
fn exit_without_a_scope_does_nothing() {
    let mut table: SymbolTable<u32> = SymbolTable::new();
    table.exit_scope();
    assert_eq!(table.depth(), 0);
}
