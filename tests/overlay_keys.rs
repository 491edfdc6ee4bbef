use alacritty_ipc::overlay::{Takeover, TakeoverKey};

#[test]
fn overlay_starts_hidden_and_takes_events() {
    let mut t = Takeover::default();
    assert!(!t.active);
    assert!(t.accepts_update());
    t.show();
    assert!(t.active);
    assert!(!t.accepts_update());
}

#[test]
fn escape_closes() {
    let mut t = Takeover::default();
    t.show();
    assert!(t.key_input(TakeoverKey::Escape, false, false));
    assert!(!t.active);
}

#[test]
fn bracket_needs_modifier() {
    let mut t = Takeover::default();
    t.show();
    assert!(!t.key_input(TakeoverKey::LBracket, false, false));
    assert!(t.active);
    assert!(!t.key_input(TakeoverKey::Other, true, true));
    assert!(t.active);
    assert!(t.key_input(TakeoverKey::LBracket, false, true));
    assert!(!t.active);
    t.show();
    assert!(t.key_input(TakeoverKey::LBracket, true, false));
    assert!(!t.active);
}
