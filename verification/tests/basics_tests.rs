use guessing_game::basics::get_val;
use guessing_game::basics::Number;

#[test]
fn get_val_returns_the_fixed_value() {
    assert_eq!(get_val(), 42);
}

#[test]
fn number_sign_checks() {
    let minus_two = Number { odd: false, val: -2 };
    assert!(!minus_two.is_positive());
    assert!(minus_two.is_negative());

    let seventeen = Number { odd: true, val: 17 };
    assert!(seventeen.is_positive());
    assert!(!seventeen.is_negative());

    let zero = Number { odd: false, val: 0 };
    assert!(!zero.is_positive());
    assert!(!zero.is_negative());
}
