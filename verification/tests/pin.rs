use volumesetup::config::PinMode;
use volumesetup::error::Error;
use volumesetup::pin::{
    pin_next, pin_next_with, pin_prompt, pin_start, pin_start_with, position_of_key,
    read_keystrokes, scrambled_keypad, PinState, PinStep,
};

fn keypad() -> Vec<u8> {
    vec![3, 1, 4, 5, 9, 2, 6, 8, 7]
}

fn other_keypad() -> Vec<u8> {
    vec![9, 8, 7, 6, 5, 4, 3, 2, 1]
}

#[test]
fn keystrokes_read_the_digits_off_the_grid() {
    let digits = keypad();
    assert_eq!(read_keystrokes(&digits, "789456123"), Some("314592687".to_string()));
    assert_eq!(read_keystrokes(&digits, "uiojklm,."), Some("314592687".to_string()));
    assert_eq!(read_keystrokes(&digits, "wersdfxcv"), Some("314592687".to_string()));
    assert_eq!(read_keystrokes(&digits, "7ur5kd"), Some("334999".to_string()));
    assert_eq!(read_keystrokes(&digits, ""), Some(String::new()));
}

#[test]
fn keystrokes_of_all_layouts_agree_on_every_position() {
    let digits = keypad();
    let layouts = ["789456123", "uiojklm,.", "wersdfxcv"];
    for layout in layouts {
        for (position, key) in layout.chars().enumerate() {
            assert_eq!(position_of_key(key), Some(position));
            assert_eq!(
                read_keystrokes(&digits, &key.to_string()),
                Some(digits[position].to_string())
            );
        }
    }
}

#[test]
fn one_foreign_keystroke_spoils_the_entry() {
    let digits = keypad();
    assert_eq!(read_keystrokes(&digits, "78a"), None);
    assert_eq!(read_keystrokes(&digits, "0"), None);
    assert_eq!(read_keystrokes(&digits, "7 8"), None);
    assert_eq!(read_keystrokes(&digits, "W"), None);
    assert_eq!(position_of_key('0'), None);
    assert_eq!(position_of_key('a'), None);
}

#[test]
fn factory_default_pin_needs_no_dialogue() {
    match pin_start_with(PinMode::FactoryDefault, keypad()) {
        PinStep::Done { pin } => assert_eq!(pin, "123456"),
        _ => panic!("a dialogue was started"),
    }
    match pin_start(PinMode::FactoryDefault) {
        PinStep::Done { pin } => assert_eq!(pin, "123456"),
        _ => panic!("a dialogue was started"),
    }
}

#[test]
fn text_pin_is_taken_as_entered() {
    let state = match pin_start_with(PinMode::Text, keypad()) {
        PinStep::Ask { state, warned } => {
            assert!(!warned);
            assert_eq!(pin_prompt(&state, warned), "Enter your PIN");
            state
        }
        _ => panic!("no prompt"),
    };
    match pin_next_with(state, b" s3cret \n".to_vec(), keypad()) {
        PinStep::Done { pin } => assert_eq!(pin, "s3cret"),
        _ => panic!("no PIN"),
    }
}

#[test]
fn empty_pin_asks_for_a_new_start() {
    assert!(matches!(pin_next_with(PinState::Text, b"  \n".to_vec(), keypad()), PinStep::Empty));
    let state = PinState::Numpad { digits: keypad() };
    assert!(matches!(pin_next_with(state, b"\n".to_vec(), other_keypad()), PinStep::Empty));
}

#[test]
fn numpad_pin_is_read_through_the_keypad_shown() {
    let state = match pin_start_with(PinMode::Numpad, keypad()) {
        PinStep::Ask { state, warned } => {
            assert!(!warned);
            assert_eq!(
                pin_prompt(&state, warned),
                "Press numpad buttons matching the locations of your PIN digits\n 3 1 4\n 5 9 2\n 6 8 7\n"
            );
            state
        }
        _ => panic!("no prompt"),
    };
    match pin_next_with(state, b"8k.\n".to_vec(), other_keypad()) {
        PinStep::Done { pin } => assert_eq!(pin, "197"),
        _ => panic!("no PIN"),
    }
}

#[test]
fn numpad_entry_with_a_foreign_key_shows_a_fresh_keypad() {
    let state = PinState::Numpad { digits: keypad() };
    match pin_next_with(state, b"78q".to_vec(), other_keypad()) {
        PinStep::Ask { state, warned } => {
            assert!(warned);
            match &state {
                PinState::Numpad { digits } => assert_eq!(digits, &other_keypad()),
                PinState::Text => panic!("the dialogue changed its kind"),
            }
            assert_eq!(
                pin_prompt(&state, warned),
                "There were invalid digits in the PIN. Please try again.\nPress numpad buttons matching the locations of your PIN digits\n 9 8 7\n 6 5 4\n 3 2 1\n"
            );
        }
        _ => panic!("the entry was not refused"),
    }
}

#[test]
fn pin_dialogue_fails_on_a_reply_that_is_not_utf8() {
    match pin_next_with(PinState::Text, vec![0xff], keypad()) {
        PinStep::Failed { error } => assert_eq!(error, Error::KeyFile),
        _ => panic!("the reply was accepted"),
    }
}

#[test]
fn scrambled_keypad_is_a_permutation_of_the_digits() {
    let mut moved = false;
    for _ in 0..64 {
        let digits = scrambled_keypad();
        let mut sorted = digits.clone();
        sorted.sort();
        assert_eq!(sorted, vec![1, 2, 3, 4, 5, 6, 7, 8, 9]);
        if digits != sorted {
            moved = true;
        }
    }
    assert!(moved, "64 keypads in a row came out in the plain order");
}

#[test]
fn random_dialogue_shows_a_keypad_and_reads_it() {
    let state = match pin_start(PinMode::Numpad) {
        PinStep::Ask { state, .. } => state,
        _ => panic!("no prompt"),
    };
    let digits = match &state {
        PinState::Numpad { digits } => digits.clone(),
        PinState::Text => panic!("no keypad"),
    };
    let wanted = "2580";
    let layout = ['7', '8', '9', '4', '5', '6', '1', '2', '3'];
    let mut keys = String::new();
    for d in "258".chars() {
        let digit = d.to_digit(10).unwrap() as u8;
        let position = digits.iter().position(|x| *x == digit).unwrap();
        keys.push(layout[position]);
    }
    match pin_next(state, keys.into_bytes()) {
        PinStep::Done { pin } => assert_eq!(pin, &wanted[..3]),
        _ => panic!("no PIN"),
    }
    let state = match pin_start(PinMode::Numpad) {
        PinStep::Ask { state, .. } => state,
        _ => panic!("no prompt"),
    };
    match pin_next(state, b"12z".to_vec()) {
        PinStep::Ask { state: PinState::Numpad { digits }, warned } => {
            assert!(warned);
            let mut sorted = digits.clone();
            sorted.sort();
            assert_eq!(sorted, vec![1, 2, 3, 4, 5, 6, 7, 8, 9]);
        }
        _ => panic!("the entry was not refused"),
    }
}
