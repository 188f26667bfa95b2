use abc_letters::{
    classify, get_asset, letter_box_origin, lower_char, prefix_of, recognize_step, sound_path_of,
    InputEvent,
    Letter, RawEvent, TargetWordSet, LETTER_BOX_SIZE, NO_LETTER, WINDOW_HEIGHT, WINDOW_WIDTH,
};

fn chars(s: &str) -> Vec<char> {
    s.chars().collect()
}

fn set(list: &[&str]) -> Option<TargetWordSet> {
    TargetWordSet::new(list.iter().map(|w| chars(w)).collect())
}

#[test]
fn classify_maps_keys() {
    assert_eq!(classify(RawEvent::Quit), InputEvent::Quit);
    assert_eq!(classify(RawEvent::KeyDown(27)), InputEvent::Quit);
    assert_eq!(classify(RawEvent::KeyDown(97)), InputEvent::KeySelect('A'));
    assert_eq!(classify(RawEvent::KeyDown(109)), InputEvent::KeySelect('M'));
    assert_eq!(classify(RawEvent::KeyDown(122)), InputEvent::KeySelect('Z'));
    assert_eq!(classify(RawEvent::KeyDown(65)), InputEvent::Ignored);
    assert_eq!(classify(RawEvent::KeyDown(123)), InputEvent::Ignored);
    assert_eq!(classify(RawEvent::Other), InputEvent::Ignored);
}

#[test]
fn asset_paths() {
    assert_eq!(get_asset("knewave.ttf".to_string()), "assets/knewave.ttf");
    assert_eq!(Letter::new('Q').get_sound_path(), "assets/q.ogg");
    assert_eq!(Letter::new('Q').letter(), "Q");
    assert_eq!(lower_char('G'), 'g');
    assert_eq!(lower_char('g'), 'g');
    assert_eq!(lower_char(' '), ' ');
}

#[test]
fn new_letter_is_unplayed() {
    let l = Letter::new('K');
    assert_eq!(l, Letter { letter: 'K', played: false });
    assert_eq!(Letter::new(NO_LETTER).letter, ' ');
}

#[test]
fn standard_special_letters() {
    for c in ['Y', 'E', 'N', 'U', 'L', 'I', 'S', 'A', 'R'] {
        assert!(Letter::new(c).is_special(), "{}", c);
    }
    for c in ['B', 'C', 'D', 'X', 'Z'] {
        assert!(!Letter::new(c).is_special(), "{}", c);
    }
}

#[test]
fn word_set_rejects_bad_lists() {
    assert!(set(&["CAT", "CAR"]).is_some());
    assert!(set(&[]).is_some());
    assert!(set(&[""]).is_none());
    assert!(set(&["C"]).is_none());
    assert!(set(&["Cat"]).is_none());
    assert!(set(&["CAT", "CAT"]).is_none());
    assert!(set(&["CA", "CAT"]).is_none());
    assert!(set(&["CAT", "CA"]).is_none());
}

#[test]
fn word_set_queries() {
    let ws = set(&["CAT", "CAR"]).unwrap();
    assert!(ws.is_special('R'));
    assert!(!ws.is_special('X'));
    assert!(ws.contains_word(&chars("CAR")));
    assert!(!ws.contains_word(&chars("CA")));
    assert!(ws.starts_word(&chars("CA")));
    assert!(ws.starts_word(&chars("")));
    assert!(!ws.starts_word(&chars("CT")));
    assert!(prefix_of(&chars("CA"), &chars("CAT")));
    assert!(prefix_of(&chars("CAT"), &chars("CAT")));
    assert!(!prefix_of(&chars("CATS"), &chars("CAT")));
}

#[test]
fn recognizer_steps() {
    let ws = set(&["CAT", "CAR"]).unwrap();
    let mut p = Vec::new();
    assert_eq!(recognize_step(&ws, &mut p, 'A'), None);
    assert_eq!(p, chars(""));
    assert_eq!(recognize_step(&ws, &mut p, 'C'), None);
    assert_eq!(p, chars("C"));
    assert_eq!(recognize_step(&ws, &mut p, 'A'), None);
    assert_eq!(p, chars("CA"));
    assert_eq!(recognize_step(&ws, &mut p, 'R'), Some(chars("CAR")));
    assert_eq!(p, chars(""));
}

#[test]
fn letter_box_is_centred() {
    assert_eq!(letter_box_origin(WINDOW_WIDTH, WINDOW_HEIGHT, LETTER_BOX_SIZE), (270, 190));
    assert_eq!(letter_box_origin(7, 5, 3), (2, 1));
}

#[test]
fn word_sound_path() {
    assert_eq!(sound_path_of(&chars("YESARA")), "assets/yesara.ogg");
    assert_eq!(sound_path_of(&chars("")), "assets/.ogg");
}
