use prime_spiral::coeff::UNIT_ONE;
use prime_spiral::registry::NumberRegistry;
use prime_spiral::state::{admit_step, Command, ViewState};
use prime_spiral::view::Center;

const CENTER: Center = Center { x: 900, y: 500 };

/// The scaled integer offsets of a candidate, as the surrounding frame
/// loop computes them: radius and angle both equal the number itself.
fn scaled_offsets(state: &ViewState) -> (i32, i32) {
    let v = state.next_candidate as f64;
    let coeff = state.coeff.units as f64 / UNIT_ONE as f64;
    let ox = (coeff * v * v.cos()).round() as i32;
    let oy = (coeff * v * v.sin()).round() as i32;
    (ox, oy)
}

#[test]
fn starts_with_defaults() {
    let s = ViewState::new();
    assert_eq!(s.coeff.units, UNIT_ONE);
    assert_eq!(s.next_candidate, 1);
    assert!(!s.prime_only);
    assert!(!s.show_axes);
}

#[test]
fn commands_update_the_state() {
    let mut s = ViewState::new();
    assert!(s.apply_command(Command::TogglePrimeOnly));
    assert!(s.prime_only);
    assert!(s.apply_command(Command::TogglePrimeOnly));
    assert!(!s.prime_only);
    assert!(s.apply_command(Command::ToggleAxes));
    assert!(s.show_axes);
    assert!(s.apply_command(Command::Coarsen));
    assert_eq!(s.coeff.units, 2 * UNIT_ONE);
    assert!(s.apply_command(Command::Refine));
    assert_eq!(s.coeff.units, 1_900_000_000_000);
    assert!(!s.apply_command(Command::Quit));
    assert_eq!(s.next_candidate, 1);
}

#[test]
fn first_candidate_is_admitted_on_the_first_attempt() {
    // at coefficient 1.0 the first candidate sits at raw offsets
    // (cos 1, sin 1), well inside any reasonable viewport
    let mut state = ViewState::new();
    let mut reg = NumberRegistry::new();
    let (ox, oy) = scaled_offsets(&state);
    assert!(admit_step(&mut state, &mut reg, ox, oy, CENTER));
    assert_eq!(state.next_candidate, 2);
    assert_eq!(reg.len(), 1);
    let rec = reg.record_at(0);
    assert_eq!(rec.value, 1);
    assert!(!rec.prime);
    assert!(rec.visible);
    assert_eq!(rec.screen_x, 901);
    assert_eq!(rec.screen_y, 499);
}

#[test]
fn rejected_candidate_is_retried_not_advanced() {
    let mut state = ViewState::new();
    let mut reg = NumberRegistry::new();
    // hand the step offsets that fall outside the viewport
    assert!(!admit_step(&mut state, &mut reg, 2000, 0, CENTER));
    assert_eq!(state.next_candidate, 1);
    assert_eq!(reg.len(), 0);
    // the same candidate goes through once its projection is visible
    assert!(admit_step(&mut state, &mut reg, 0, 0, CENTER));
    assert_eq!(state.next_candidate, 2);
    assert_eq!(reg.len(), 1);
}

#[test]
fn generates_the_first_hundred_candidates_in_order() {
    let mut state = ViewState::new();
    let mut reg = NumberRegistry::new();
    while state.next_candidate <= 100 {
        let (ox, oy) = scaled_offsets(&state);
        let before = state.next_candidate;
        if admit_step(&mut state, &mut reg, ox, oy, CENTER) {
            assert_eq!(state.next_candidate, before + 1);
        } else {
            assert_eq!(state.next_candidate, before);
            // at coefficient 1.0 every small candidate is on screen
            panic!("candidate {} unexpectedly off screen", before);
        }
    }
    assert_eq!(reg.len(), 100);
    // spot-check primality classification along the spiral
    assert!(!reg.record_at(0).prime);
    assert!(reg.record_at(1).prime);
    assert!(reg.record_at(16).prime);
    assert!(!reg.record_at(98).prime);
}
