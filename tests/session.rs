use abc_letters::{InputEvent, Session, TargetWordSet, TickAction, TickOutcome};

fn words(list: &[&str]) -> TargetWordSet {
    TargetWordSet::new(list.iter().map(|w| w.chars().collect()).collect()).unwrap()
}

fn run(outcome: TickOutcome) -> TickAction {
    match outcome {
        TickOutcome::Run(a) => a,
        TickOutcome::Quit => panic!("unexpected quit"),
    }
}

fn key(s: &mut Session, c: char) -> TickAction {
    run(s.tick(&vec![InputEvent::KeySelect(c)]))
}

fn prefix(s: &Session) -> String {
    s.prefix().into_iter().collect()
}

#[test]
fn single_letter_plays_its_sound() {
    let mut s = Session::new(TargetWordSet::standard());
    let a = key(&mut s, 'A');
    assert_eq!(a.render, Some('A'));
    assert_eq!(a.letter_cue.as_deref(), Some("assets/a.ogg"));
    assert_eq!(a.word_cue, None);
    assert!(s.current().played);
}

#[test]
fn word_completed_plays_word_sound() {
    let mut s = Session::new(words(&["CAT"]));
    let c = key(&mut s, 'C');
    assert_eq!(c.word_cue, None);
    assert_eq!(prefix(&s), "C");
    let a = key(&mut s, 'A');
    assert_eq!(a.word_cue, None);
    assert_eq!(prefix(&s), "CA");
    let t = key(&mut s, 'T');
    assert_eq!(t.letter_cue.as_deref(), Some("assets/t.ogg"));
    assert_eq!(t.word_cue.as_deref(), Some("assets/cat.ogg"));
    assert_eq!(prefix(&s), "");
}

#[test]
fn failed_extension_abandons_prefix() {
    let mut s = Session::new(words(&["CAT", "CAR"]));
    key(&mut s, 'C');
    key(&mut s, 'A');
    assert_eq!(prefix(&s), "CA");
    // X is in neither word, so it only plays its own sound.
    let x = key(&mut s, 'X');
    assert_eq!(x.letter_cue.as_deref(), Some("assets/x.ogg"));
    assert_eq!(x.word_cue, None);
    assert_eq!(prefix(&s), "CA");
    // C is in a word, but no word starts with "CAC".
    let c = key(&mut s, 'C');
    assert_eq!(c.letter_cue.as_deref(), Some("assets/c.ogg"));
    assert_eq!(c.word_cue, None);
    assert_eq!(prefix(&s), "");
}

#[test]
fn abandoned_letter_is_not_retried() {
    let mut s = Session::new(words(&["CAT", "ACE"]));
    key(&mut s, 'C');
    key(&mut s, 'A');
    let c = key(&mut s, 'C');
    assert_eq!(c.word_cue, None);
    assert_eq!(prefix(&s), "");
}

#[test]
fn quit_mid_batch_stops_the_batch() {
    let mut s = Session::new(TargetWordSet::standard());
    let out = s.tick(&vec![
        InputEvent::KeySelect('B'),
        InputEvent::Quit,
        InputEvent::KeySelect('C'),
    ]);
    assert!(matches!(out, TickOutcome::Quit));
    assert_eq!(s.current().letter, 'B');
    assert!(!s.current().played);
}

#[test]
fn last_selection_in_batch_wins() {
    let mut s = Session::new(TargetWordSet::standard());
    let a = run(s.tick(&vec![
        InputEvent::KeySelect('B'),
        InputEvent::Ignored,
        InputEvent::KeySelect('D'),
    ]));
    assert_eq!(a.render, Some('D'));
    assert_eq!(a.letter_cue.as_deref(), Some("assets/d.ogg"));
}

#[test]
fn plain_letters_keep_prefix() {
    let mut s = Session::new(TargetWordSet::standard());
    key(&mut s, 'Y');
    key(&mut s, 'E');
    assert_eq!(prefix(&s), "YE");
    for c in ['B', 'D', 'Z', 'Q'] {
        let a = key(&mut s, c);
        assert_eq!(a.letter_cue, Some(format!("assets/{}.ogg", c.to_ascii_lowercase())));
        assert_eq!(a.word_cue, None);
        assert_eq!(prefix(&s), "YE");
    }
    key(&mut s, 'N');
    assert_eq!(prefix(&s), "YEN");
}

#[test]
fn standard_words_complete() {
    for w in ["YENULI", "YELINSA", "YESARA"] {
        let mut s = Session::new(TargetWordSet::standard());
        let n = w.chars().count();
        for (i, c) in w.chars().enumerate() {
            let a = key(&mut s, c);
            assert_eq!(a.letter_cue, Some(format!("assets/{}.ogg", c.to_ascii_lowercase())));
            if i + 1 < n {
                assert_eq!(a.word_cue, None);
                assert_eq!(prefix(&s), w[..i + 1].to_string());
            } else {
                assert_eq!(a.word_cue, Some(format!("assets/{}.ogg", w.to_lowercase())));
                assert_eq!(prefix(&s), "");
            }
        }
    }
}

#[test]
fn special_letter_off_every_word_resets_prefix() {
    let mut s = Session::new(TargetWordSet::standard());
    key(&mut s, 'Y');
    key(&mut s, 'E');
    let a = key(&mut s, 'Y');
    assert_eq!(a.word_cue, None);
    assert_eq!(prefix(&s), "");
}

#[test]
fn special_letter_starting_no_word_stays_empty() {
    let mut s = Session::new(TargetWordSet::standard());
    let a = key(&mut s, 'E');
    assert_eq!(a.letter_cue.as_deref(), Some("assets/e.ogg"));
    assert_eq!(prefix(&s), "");
}

#[test]
fn idle_polls_change_nothing() {
    let mut s = Session::new(TargetWordSet::standard());
    let empty = run(s.tick(&vec![]));
    assert_eq!(empty.render, None);
    assert_eq!(empty.letter_cue, None);
    key(&mut s, 'Y');
    for _ in 0..3 {
        let a = run(s.tick(&vec![InputEvent::Ignored]));
        assert_eq!(a.render, Some('Y'));
        assert_eq!(a.letter_cue, None);
        assert_eq!(a.word_cue, None);
        assert_eq!(prefix(&s), "Y");
        assert!(s.current().played);
    }
}

#[test]
fn reselecting_replays_the_letter() {
    let mut s = Session::new(TargetWordSet::standard());
    let first = key(&mut s, 'A');
    assert_eq!(first.letter_cue.as_deref(), Some("assets/a.ogg"));
    let second = key(&mut s, 'A');
    assert_eq!(second.letter_cue.as_deref(), Some("assets/a.ogg"));
    let batch = run(s.tick(&vec![InputEvent::KeySelect('A')]));
    assert_eq!(batch.letter_cue.as_deref(), Some("assets/a.ogg"));
}

#[test]
fn apply_events_resets_played_on_same_letter() {
    let mut s = Session::new(TargetWordSet::standard());
    key(&mut s, 'A');
    assert!(s.current().played);
    let quit = s.apply_events(&vec![InputEvent::KeySelect('A')]);
    assert!(!quit);
    assert!(!s.current().played);
    let (letter_cue, word_cue) = s.dispatch();
    assert_eq!(letter_cue.as_deref(), Some("assets/a.ogg"));
    assert_eq!(word_cue, None);
}
