use tinybot::plugins::dice::{format_roll, handle_event, parse_dice, roll, roll_values, DiceExpr};
use tinybot::sdk::{AdapterEvent, MessageContent, MessageEvent, MessageMeta, PluginEvent, PrivateMeta};

fn event(text: &str) -> AdapterEvent {
    AdapterEvent::Message(MessageEvent {
        meta: MessageMeta::Private(PrivateMeta { user_id: "u42".into() }),
        content: MessageContent { text: text.into() },
    })
}

#[test]
fn parse_dice_accepts_count_and_sides() {
    assert_eq!(parse_dice("3d6"), Some(DiceExpr { count: 3, sides: 6 }));
    assert_eq!(parse_dice("  1d20 \n"), Some(DiceExpr { count: 1, sides: 20 }));
    assert_eq!(parse_dice("+2d+4"), Some(DiceExpr { count: 2, sides: 4 }));
    assert_eq!(parse_dice("99d10000"), Some(DiceExpr { count: 99, sides: 10000 }));
}

#[test]
fn parse_dice_rejects_out_of_range_and_malformed() {
    assert_eq!(parse_dice("0d6"), None);
    assert_eq!(parse_dice("100d6"), None);
    assert_eq!(parse_dice("1d0"), None);
    assert_eq!(parse_dice("1d10001"), None);
    assert_eq!(parse_dice("d6"), None);
    assert_eq!(parse_dice("2d"), None);
    assert_eq!(parse_dice("2x6"), None);
    assert_eq!(parse_dice("2d6d"), None);
    assert_eq!(parse_dice("-1d6"), None);
    assert_eq!(parse_dice("hello"), None);
}

#[test]
fn format_roll_of_one_die() {
    let e = DiceExpr { count: 1, sides: 6 };
    assert_eq!(format_roll(&e, &vec![4]), "1d6 = 4");
}

#[test]
fn format_roll_of_several_dice() {
    let e = DiceExpr { count: 3, sides: 6 };
    assert_eq!(format_roll(&e, &vec![1, 5, 2]), "3d6 = 1+5+2 = 8");
}

#[test]
fn rolled_values_stay_in_range() {
    let e = DiceExpr { count: 50, sides: 3 };
    let mut rng = rand::thread_rng();
    for _ in 0..20 {
        let v = roll_values(&e, &mut rng);
        assert_eq!(v.len(), 50);
        assert!(v.iter().all(|x| (1..=3).contains(x)));
    }
}

#[test]
fn roll_of_a_one_sided_die_is_fixed() {
    let mut rng = rand::thread_rng();
    assert_eq!(roll(&DiceExpr { count: 3, sides: 1 }, &mut rng), "3d1 = 1+1+1 = 3");
}

#[test]
fn handle_event_answers_the_sender() {
    let out = handle_event(&event("2d1")).expect("a roll");
    assert_eq!(out.len(), 1);
    match &out[0] {
        PluginEvent::Message(m) => {
            assert_eq!(m.content.text, "2d1 = 1+1 = 2");
            assert_eq!(m.meta, MessageMeta::Private(PrivateMeta { user_id: "u42".into() }));
        }
    }
}

#[test]
fn handle_event_ignores_other_text() {
    assert!(handle_event(&event("roll some dice")).is_none());
}
