use itajara::phase::{legal, legal_moves, Phase};

#[test]
fn the_byte_is_the_old_byte() {
    assert_eq!(Phase::all().map(|p| p.as_u8()), [0, 1, 2, 3, 4, 5]);
    for p in Phase::all() {
        assert_eq!(Phase::from_u8(p.as_u8()), p);
    }
    assert_eq!(Phase::from_u8(6), Phase::Idle, "a request value falls through to idle");
    assert_eq!(Phase::from_u8(255), Phase::Idle);
}

#[test]
fn the_wire_words_are_unchanged() {
    assert_eq!(
        Phase::all().map(|p| p.wire_word()),
        ["idle", "armed", "recordingFirst", "overdubbing", "playing", "multiplying"]
    );
}

#[test]
fn the_table_is_a_set_and_names_its_self_transitions() {
    let table = legal_moves();
    for (i, a) in table.iter().enumerate() {
        for b in &table[i + 1..] {
            assert_ne!(a, b, "duplicate row");
        }
    }
    for p in Phase::all() {
        assert_eq!(
            legal(p, p),
            matches!(p, Phase::Idle | Phase::Playing),
            "self-transition {} -> {}",
            p.wire_word(),
            p.wire_word()
        );
    }
}

#[test]
fn a_move_is_legal_where_the_table_has_it() {
    let table = legal_moves();
    assert_eq!(table.len(), 21);
    for from in Phase::all() {
        for to in Phase::all() {
            assert_eq!(legal(from, to), table.contains(&(from, to)));
        }
    }
    assert!(!legal(Phase::Armed, Phase::Multiply));
    assert!(!legal(Phase::Multiply, Phase::Overdub));
}
