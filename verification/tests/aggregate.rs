use itajara::aggregate::{
    choose_first, choose_one, compose, layout_of, Device, Layout, Lost, Member,
};

fn member(name: &str, in_ch: u32, first_in: u32) -> Member {
    Member {
        uid: format!("uid-{name}"),
        name: name.to_string(),
        in_ch,
        first_in,
        out_ch: 0,
        first_out: 1,
        absent: false,
    }
}

fn es9_then_a4c() -> Layout {
    Layout {
        name: "ES9 then A4C".to_string(),
        uid: "agg".to_string(),
        in_ch: 24,
        members: vec![
            member("ES-9", 16, 1),
            member("AUDIO4c", 8, 17),
            member("MacBook Pro Speakers", 0, 25),
        ],
    }
}

#[test]
fn a_member_is_found_by_part_of_its_name() {
    let l = es9_then_a4c();
    assert_eq!(l.member("audio4c").unwrap().first_in, 17);
    assert_eq!(l.member("ES-9").unwrap().first_in, 1);
}

#[test]
fn the_same_source_follows_its_interface_when_the_order_changes() {
    let forward = es9_then_a4c();
    let reversed = Layout {
        name: "A4C then ES9".to_string(),
        uid: "agg".to_string(),
        in_ch: 24,
        members: vec![member("AUDIO4c", 8, 1), member("ES-9", 16, 9)],
    };
    assert_eq!(forward.member("AUDIO4c").unwrap().first_in, 17);
    assert_eq!(reversed.member("AUDIO4c").unwrap().first_in, 1);
}

#[test]
fn an_absent_interface_is_named_not_guessed_at() {
    let l = es9_then_a4c();
    let e = l.member("Scarlett").unwrap_err();
    assert!(e.contains("not in"), "{e}");
    assert!(e.contains("ES-9"), "it should say what IS there: {e}");
}

#[test]
fn an_ambiguous_name_is_refused() {
    let l = Layout {
        name: "two".to_string(),
        uid: "agg".to_string(),
        in_ch: 4,
        members: vec![member("ES-9 A", 2, 1), member("ES-9 B", 2, 3)],
    };
    assert_eq!(l.member("ES-9 B").unwrap().first_in, 3, "an exact name wins outright");
    let e = l.member("ES-9").unwrap_err();
    assert!(e.contains("more than one"), "{e}");
}

#[test]
fn a_plain_device_has_no_members_and_says_so() {
    let l = Layout {
        name: "AUDIO4c".to_string(),
        uid: "u".to_string(),
        in_ch: 8,
        members: vec![],
    };
    assert!(!l.is_aggregate());
    assert!(l.describe().contains("not an aggregate"));
}

#[test]
fn a_name_is_matched_whatever_its_case_is() {
    let l = es9_then_a4c();
    assert_eq!(l.find("es-9"), Ok(0));
    assert_eq!(l.find("AUDIO4C"), Ok(1));
    assert_eq!(l.find("nowhere"), Err(Lost::Nowhere));
    assert_eq!(l.find("e"), Err(Lost::Many));
}

#[test]
fn members_follow_one_another_as_the_device_lists_them() {
    let device = |uid: &str, name: &str, i: u32, o: u32, subs: Vec<&str>| Device {
        uid: uid.to_string(),
        name: name.to_string(),
        in_ch: i,
        out_ch: o,
        subs: subs.into_iter().map(|s| s.to_string()).collect(),
    };
    let all = compose(&vec![
        device("a", "ES-9", 16, 16, vec![]),
        device("b", "AUDIO4c", 8, 8, vec![]),
        device("agg", "Both", 24, 24, vec!["b", "a", "gone"]),
    ]);
    assert_eq!(all.len(), 3);
    assert!(!all[0].is_aggregate());
    let both = &all[2];
    assert!(both.is_aggregate());
    assert_eq!(both.members[0].first_in, 1);
    assert_eq!(both.members[1].first_in, 9);
    assert_eq!(both.members[1].first_out, 9);
    assert!(both.members[2].absent);
    assert!(both.consistent());
    assert_eq!(layout_of(&all, "both"), Some(2));
    assert_eq!(layout_of(&all, "audio"), Some(1));
    assert_eq!(layout_of(&all, "nothing like it"), None);
}

#[test]
fn what_was_asked_for_is_quoted_in_a_refusal() {
    let l = es9_then_a4c();
    assert_eq!(
        l.member("a \"b\"").unwrap_err(),
        "\"a \\\"b\\\"\" is not in ES9 then A4C. It holds: ES-9, AUDIO4c, MacBook Pro Speakers"
    );
    assert_eq!(
        l.member("E").unwrap_err(),
        "\"E\" matches more than one member of ES9 then A4C: ES-9, MacBook Pro Speakers"
    );
}

#[test]
fn names_in_lower_case_are_chosen_among() {
    let names: Vec<String> = ["es-9", "audio4c", "es-9 mk2"].iter().map(|s| s.to_string()).collect();
    assert_eq!(choose_one(&names, "es-9"), Ok(0), "the very name wins");
    assert_eq!(choose_one(&names, "audio"), Ok(1));
    assert_eq!(choose_one(&names, "mk2"), Ok(2));
    assert_eq!(choose_one(&names, "es-"), Err(Lost::Many));
    assert_eq!(choose_one(&names, "ES-9"), Err(Lost::Nowhere), "as it is written");
    assert_eq!(choose_first(&names, "es-"), Some(0));
    assert_eq!(choose_first(&names, "audio4c"), Some(1));
    assert_eq!(choose_first(&names, "zoom"), None);
}

#[test]
fn a_name_that_is_not_one_member_is_refused_as_it_was_quoted() {
    let l = es9_then_a4c();
    let low: Vec<String> = l.members.iter().map(|m| m.name.to_lowercase()).collect();
    assert_eq!(
        l.refuse("<x>".to_string(), &low, "x", Lost::Nowhere),
        "<x> is not in ES9 then A4C. It holds: ES-9, AUDIO4c, MacBook Pro Speakers"
    );
    assert_eq!(
        l.refuse("<e>".to_string(), &low, "e", Lost::Many),
        "<e> matches more than one member of ES9 then A4C: ES-9, MacBook Pro Speakers"
    );
}
