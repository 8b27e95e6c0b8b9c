use hammster::field::Value;
use hammster::shell::{read_bits, read_decimal, Action, Hammster, Message};

fn filled(a: &str, b: &str, d: &str) -> Hammster {
    let mut h = Hammster::new();
    assert!(matches!(h.update(Message::InputAChanged(a.to_string())), Action::Idle));
    assert!(matches!(h.update(Message::InputBChanged(b.to_string())), Action::Idle));
    assert!(matches!(h.update(Message::HammingDistanceChanged(d.to_string())), Action::Idle));
    h
}

#[test]
fn title_names_the_application() {
    assert_eq!(Hammster::new().title(), "Hammster");
}

#[test]
fn edits_replace_their_field() {
    let h = filled("11110000", "10101010", "4");
    assert_eq!(h.input_a, "11110000");
    assert_eq!(h.input_b, "10101010");
    assert_eq!(h.hamming_distance, "4");
}

#[test]
fn button_builds_a_proof_request() {
    let mut h = filled("11111111", "00000000", "8");
    match h.update(Message::ButtonPressed) {
        Action::Prove(req) => {
            assert_eq!(req.input_a, vec![Value::known(1); 8]);
            assert_eq!(req.input_b, vec![Value::known(0); 8]);
            assert_eq!(req.public_input, vec![8]);
        },
        _ => panic!("expected a proof request"),
    }
    assert_eq!(h.input_a, "11111111");
}

#[test]
fn button_rejects_malformed_fields() {
    for (a, b, d) in [
        ("1111111", "00000000", "8"),
        ("11111111", "0000000x", "8"),
        ("11111111", "00000000", ""),
        ("11111111", "00000000", "-1"),
        ("111111111", "00000000", "8"),
    ] {
        let mut h = filled(a, b, d);
        assert!(matches!(h.update(Message::ButtonPressed), Action::Reject));
    }
}

#[test]
fn digits_are_read_one_cell_each() {
    assert_eq!(
        read_bits("10293847"),
        Some(vec![1, 0, 2, 9, 3, 8, 4, 7].into_iter().map(Value::known).collect())
    );
    assert_eq!(read_bits("1029384"), None);
    assert_eq!(read_bits("1029384a"), None);
}

#[test]
fn decimal_reading_covers_the_u64_range() {
    assert_eq!(read_decimal("0"), Some(0));
    assert_eq!(read_decimal("042"), Some(42));
    assert_eq!(read_decimal("18446744073709551615"), Some(u64::MAX));
    assert_eq!(read_decimal("18446744073709551616"), None);
    assert_eq!(read_decimal("12a"), None);
    assert_eq!(read_decimal(""), None);
}
