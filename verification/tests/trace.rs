use tape_machine::Memory;

fn lines(memory: &Memory) -> (String, String) {
    memory.debug()
}

#[test]
fn view_of_a_fresh_bounded_memory() {
    let m = Memory::bounded(3);
    let (mark, tape) = lines(&m);
    assert_eq!(mark, "v");
    assert_eq!(tape, "0|0|0|");
}

#[test]
fn view_marks_the_last_digit_of_the_current_cell() {
    let mut m = Memory::bounded(3);
    m.store(12);
    m.inc();
    m.store(255);
    let (mark, tape) = lines(&m);
    assert_eq!(tape, "12|255|0|");
    assert_eq!(mark, "     v");
    m.inc();
    let (mark, _) = lines(&m);
    assert_eq!(mark, "       v");
    m.inc();
    let (mark, _) = lines(&m);
    assert_eq!(mark, " v");
}

#[test]
fn view_of_a_fresh_unbounded_memory() {
    let m = Memory::unbounded();
    let (mark, tape) = lines(&m);
    assert_eq!(mark, format!("v p{} b{}", 0, 0));
    assert_eq!(tape, " back:false");
}

#[test]
fn view_of_an_unbounded_memory_ahead() {
    let mut m = Memory::unbounded();
    m.store(1);
    m.inc();
    m.inc();
    m.store(100);
    let (mark, tape) = lines(&m);
    assert_eq!(tape, "1|0|100| back:false");
    assert_eq!(mark, format!("      v p{} b{}", 2, 0));
}

#[test]
fn view_of_an_unbounded_memory_behind() {
    let mut m = Memory::unbounded();
    m.store(42);
    m.dec();
    m.store(7);
    m.dec();
    m.store(200);
    let (mark, tape) = lines(&m);
    assert_eq!(tape, "200|7|42| back:true");
    assert_eq!(mark, format!("  v p{} b{}", 0, 1));
    m.inc();
    let (mark, _) = lines(&m);
    assert_eq!(mark, format!("    v p{} b{}", 0, 0));
    m.inc();
    let (mark, tape) = lines(&m);
    assert_eq!(mark, format!("       v p{} b{}", 0, 0));
    assert_eq!(tape, "200|7|42| back:false");
}

#[test]
fn view_puts_the_mark_first_where_the_cell_is_not_there() {
    let mut m = Memory::unbounded();
    m.store(5);
    m.dec();
    m.dec();
    let (mark, tape) = lines(&m);
    assert_eq!(mark, format!("v p{} b{}", 0, 1));
    assert_eq!(tape, "5| back:true");
    for _ in 0..12 {
        m.inc();
    }
    let (mark, tape) = lines(&m);
    assert_eq!(mark, format!("v p{} b{}", 10, 0));
    assert_eq!(tape, "5| back:false");
}

#[test]
fn view_changes_nothing() {
    let mut m = Memory::unbounded();
    m.inc();
    let before = m.cells();
    let _ = lines(&m);
    assert_eq!(m.cells(), before);
    assert_eq!(m.forward_len(), 0);
    assert_eq!(m.distance(), 1);
}
