use krankulator_core::controller::{Controller, A, B, SELECT, START, UP, DOWN, LEFT, RIGHT};


#[test]
fn test_set_pressed() {
    let mut c = Controller::new();
    c.set_pressed(A);

    assert_eq!(c.status, A);
}

#[test]
fn test_set_not_pressed() {
    let mut c = Controller::new();
    c.set_pressed(A);
    assert_eq!(c.status, A);

    c.set_not_pressed(A);
    assert_eq!(c.status, 0);
}

#[test]
fn test_is_pressed() {
    let mut c = Controller::new();
    c.set_pressed(A);
    c.set_pressed(SELECT);

    assert_eq!(c.is_pressed(A), 1);
    assert_eq!(c.is_pressed(B), 0);
    assert_eq!(c.is_pressed(SELECT), 1);
    assert_eq!(c.is_pressed(START), 0);
    assert_eq!(c.is_pressed(UP), 0);
    assert_eq!(c.is_pressed(DOWN), 0);
    assert_eq!(c.is_pressed(LEFT), 0);
    assert_eq!(c.is_pressed(RIGHT), 0);
}

#[test]
fn test_poll() {
    let mut c = Controller::new();
    c.set_pressed(A);
    c.set_pressed(SELECT);
    c.set_strobe(true);
    c.set_strobe(false);
    assert_eq!(c.poll(), 1); // A
    assert_eq!(c.poll(), 0); // B
    assert_eq!(c.poll(), 1); // SELECT
    assert_eq!(c.poll(), 0); // START
    assert_eq!(c.poll(), 0);
    assert_eq!(c.poll(), 0);
    assert_eq!(c.poll(), 0);
    assert_eq!(c.poll(), 0);

    // Re-strobe resets the shift register
    c.set_strobe(true);
    c.set_strobe(false);
    assert_eq!(c.poll(), 1); // A again
    assert_eq!(c.poll(), 0);
    assert_eq!(c.poll(), 1); // SELECT again
}

#[test]
fn test_poll_during_strobe() {
    let mut c = Controller::new();
    c.set_pressed(A);
    c.set_pressed(START);
    c.set_strobe(true);
    // While strobe is high, always returns bit 0 (A button)
    assert_eq!(c.poll(), 1);
    assert_eq!(c.poll(), 1);
    assert_eq!(c.poll(), 1);
}


#[test]
fn controller_reads_one_after_eight_bits() {
    let mut c = Controller::new();
    c.set_pressed(RIGHT);
    c.set_strobe(true);
    c.set_strobe(false);
    for _ in 0..7 {
        assert_eq!(c.poll(), 0);
    }
    assert_eq!(c.poll(), 1); // RIGHT
    assert_eq!(c.poll(), 1);
    assert_eq!(c.poll(), 1);
    assert_eq!(c.save_polls(), 10);
}

#[test]
fn controller_press_release_roundtrip() {
    let mut c = Controller::new();
    c.set_pressed(B);
    c.set_pressed(UP);
    c.set_not_pressed(UP);
    assert_eq!(c.save_status(), B);
    c.load_status(0xFF);
    c.load_shift(0x0F);
    c.load_polls(3);
    c.load_strobe(true);
    assert_eq!(c.save_shift(), 0x0F);
    assert!(c.save_strobe());
    assert_eq!(c.poll(), 1);
    assert_eq!(c.save_polls(), 3);
}
