use tmm::ascendancy::Ascendancy;
use tmm::geometry::{slot_angle, sweep_between, SlotAngle, Sweep};
use tmm::options::{is_ascii_alphabetic_or_digit_or_hash, is_valid_color, parse_options};
use tmm::tree::{AscendancyNodeKind, NodeKind};
use tmm::version::ParseVersionError;
use tmm::{Options, SkillTreeUrl, Version};

#[test]
fn curated_angles_for_16_slots() {
    let expected = [0, 30, 45, 60, 90, 120, 135, 150, 180, 210, 225, 240, 270, 300, 315, 330];
    for (i, deg) in expected.iter().enumerate() {
        assert_eq!(slot_angle(16, i as u32), SlotAngle { num: *deg, den: 360 });
    }
}

#[test]
fn curated_angles_for_40_slots() {
    let expected = [
        0, 10, 20, 30, 40, 45, 50, 60, 70, 80, 90, 100, 110, 120, 130, 135, 140, 150, 160, 170,
        180, 190, 200, 210, 220, 225, 230, 240, 250, 260, 270, 280, 290, 300, 310, 315, 320, 330,
        340, 350,
    ];
    for (i, deg) in expected.iter().enumerate() {
        assert_eq!(slot_angle(40, i as u32), SlotAngle { num: *deg, den: 360 });
    }
}

#[test]
fn other_orbits_are_even() {
    assert_eq!(slot_angle(6, 2), SlotAngle { num: 2, den: 6 });
    assert_eq!(slot_angle(12, 11), SlotAngle { num: 11, den: 12 });
    assert_eq!(slot_angle(1, 0), SlotAngle { num: 0, den: 1 });
}

#[test]
fn sweep_takes_the_rotation_into_one_turn() {
    let a = |n| SlotAngle { num: n, den: 360 };
    // from 30 to 0: rotation of 30 degrees
    assert_eq!(sweep_between(a(30), a(0)), Sweep::CounterClockwise);
    // from 0 to 30: rotation of 330 degrees
    assert_eq!(sweep_between(a(0), a(30)), Sweep::Clockwise);
    // exactly half a turn is not more than half
    assert_eq!(sweep_between(a(180), a(0)), Sweep::CounterClockwise);
    assert_eq!(sweep_between(a(0), a(181)), Sweep::CounterClockwise);
    assert_eq!(sweep_between(a(0), a(179)), Sweep::Clockwise);
    let b = |n| SlotAngle { num: n, den: 6 };
    assert_eq!(sweep_between(b(1), b(5)), Sweep::CounterClockwise);
    assert_eq!(sweep_between(b(5), b(1)), Sweep::Clockwise);
}

#[test]
fn ascendancy_names() {
    assert_eq!(Ascendancy::from_name(&"Juggernaut".to_string()), Some(Ascendancy::Juggernaut));
    assert_eq!(
        Ascendancy::from_name(&"KingInTheMists".to_string()),
        Some(Ascendancy::KingInTheMists)
    );
    assert_eq!(Ascendancy::from_name(&"juggernaut".to_string()), None);
    assert_eq!(Ascendancy::from_name(&"".to_string()), None);
    assert_eq!(Ascendancy::Trialmaster.as_str(), "Trialmaster");
    for i in 0..32 {
        let a = Ascendancy::from_index(i);
        assert_eq!(a.index(), i);
        assert_eq!(Ascendancy::from_name(&a.as_str().to_string()), Some(a));
    }
}

#[test]
fn alternate_ascendancies() {
    assert!(Ascendancy::Warden.is_alternate());
    assert!(Ascendancy::Warlock.is_alternate());
    assert!(Ascendancy::Primalist.is_alternate());
    assert!(!Ascendancy::Ascendant.is_alternate());
    assert!(!Ascendancy::Aul.is_alternate());
}

#[test]
fn node_kind_names() {
    assert_eq!(NodeKind::Jewel.as_str(), "Jewel");
    assert_eq!(NodeKind::Keystone.as_str(), "Keystone");
    let k = NodeKind::Ascendancy {
        kind: AscendancyNodeKind::Start,
        ascendancy: Ascendancy::Slayer,
    };
    assert_eq!(k.as_str(), "Ascendancy");
}

#[test]
fn versions_parse_with_dot_or_underscore() {
    assert_eq!(Version::parse("3.23"), Ok(Version::V3_23));
    assert_eq!(Version::parse("3_17"), Ok(Version::V3_17));
    assert_eq!("3.15".parse::<Version>(), Ok(Version::V3_15));
    assert_eq!(Version::parse("3.24"), Err(ParseVersionError {}));
    assert_eq!(Version::parse(""), Err(ParseVersionError {}));
    assert_eq!(Version::latest(), Version::V3_23);
}

#[test]
fn color_characters() {
    assert!(is_ascii_alphabetic_or_digit_or_hash('a'));
    assert!(is_ascii_alphabetic_or_digit_or_hash('Z'));
    assert!(is_ascii_alphabetic_or_digit_or_hash('7'));
    assert!(is_ascii_alphabetic_or_digit_or_hash('#'));
    assert!(!is_ascii_alphabetic_or_digit_or_hash(' '));
    assert!(!is_ascii_alphabetic_or_digit_or_hash(';'));
    assert!(!is_ascii_alphabetic_or_digit_or_hash('é'));
    assert!(is_valid_color(&"#ff00AA".to_string()));
    assert!(!is_valid_color(&"red;x".to_string()));
    assert!(is_valid_color(&"".to_string()));
}

#[test]
fn options_from_pairs() {
    let stu = SkillTreeUrl { class: 4, ascendancy: 2, alternate_ascendancy: 1, nodes: vec![5, 6] };
    let pairs: Vec<(String, String)> = vec![
        ("color".into(), "red".into()),
        ("activeColor".into(), "bad;value".into()),
        ("nodeColor".into(), "#123456".into()),
        ("color".into(), "blue".into()),
        ("unknown".into(), "green".into()),
        ("connectionActiveColor".into(), "#abc".into()),
    ];
    let o: Options = parse_options(&pairs, stu);
    assert_eq!(o.class, 4);
    assert_eq!(o.ascendancy, 2);
    assert_eq!(o.alternate_ascendancy, 1);
    assert_eq!(o.nodes, vec![5, 6]);
    assert_eq!(o.color.as_deref(), Some("blue"));
    assert_eq!(o.active_color, None);
    assert_eq!(o.node_color.as_deref(), Some("#123456"));
    assert_eq!(o.connection_active_color.as_deref(), Some("#abc"));
    assert_eq!(o.background_color, None);
    assert_eq!(o.node_active_color, None);
    assert_eq!(o.connection_color, None);
}
