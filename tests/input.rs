use ibl_baker::input::{ButtonState, ElementState};
use ibl_baker::texture::TextureImportOptions;

#[test]
fn increment_keeps_state_and_counts_frames() {
    assert!(matches!(ButtonState::Released(0).increment(), ButtonState::Released(1)));
    assert!(matches!(ButtonState::Pressed(41).increment(), ButtonState::Pressed(42)));
}

#[test]
fn press_and_release_restart_the_count() {
    let mut b = ButtonState::Released(7);
    b.update_from_element_state(ElementState::Pressed, ButtonState::Released(6));
    assert_eq!(b, ButtonState::Pressed(0));
    let mut b = ButtonState::Pressed(3);
    b.update_from_element_state(ElementState::Released, ButtonState::Pressed(2));
    assert_eq!(b, ButtonState::Released(0));
}

#[test]
fn repeated_events_leave_the_state() {
    let mut b = ButtonState::Pressed(5);
    b.update_from_element_state(ElementState::Pressed, ButtonState::Pressed(4));
    assert_eq!(b, ButtonState::Pressed(5));
    let mut b = ButtonState::Released(9);
    b.update_from_element_state(ElementState::Released, ButtonState::Released(8));
    assert_eq!(b, ButtonState::Released(9));
}

#[test]
fn default_import_options() {
    let o = TextureImportOptions::default();
    assert!(o.label.is_none());
    assert!(!o.is_lut);
    assert!(!o.is_linear);
}
