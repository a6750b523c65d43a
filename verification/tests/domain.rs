use moa_quizz::binary64::Binary64;
use moa_quizz::domain::{
    check_angle, check_angle_distance, check_distance, check_drop, check_drop_distance, DomainError,
};

fn number(value: f64) -> Binary64 {
    Binary64::from_bits(value.to_bits())
}

#[test]
fn zero_distance_is_a_domain_error() {
    assert_eq!(check_distance(number(0.0)), Err(DomainError::Distance));
    assert_eq!(check_distance(number(-0.0)), Err(DomainError::Distance));
    assert_eq!(check_drop_distance(number(0.05), number(0.0)), Err(DomainError::Distance));
    assert_eq!(check_angle_distance(number(1.0), number(0.0)), Err(DomainError::Distance));
}

#[test]
fn negative_distance_is_a_domain_error() {
    assert_eq!(check_distance(number(-100.0)), Err(DomainError::Distance));
    assert_eq!(check_distance(number(-5.0e-324)), Err(DomainError::Distance));
    assert_eq!(check_drop_distance(number(0.1), number(-25.0)), Err(DomainError::Distance));
}

#[test]
fn distance_that_is_no_number_is_a_domain_error() {
    assert_eq!(check_distance(number(f64::INFINITY)), Err(DomainError::Distance));
    assert_eq!(check_distance(number(f64::NEG_INFINITY)), Err(DomainError::Distance));
    assert_eq!(check_distance(number(f64::NAN)), Err(DomainError::Distance));
}

#[test]
fn positive_distance_is_accepted() {
    for distance in [25.0_f64, 50.0, 100.0, 200.0, 400.0, 800.0, 1000.0, 5.0e-324, f64::MAX] {
        assert_eq!(check_distance(number(distance)), Ok(()));
    }
}

#[test]
fn angle_must_be_finite() {
    assert_eq!(check_angle(number(0.2)), Ok(()));
    assert_eq!(check_angle(number(0.0)), Ok(()));
    assert_eq!(check_angle(number(-1.0)), Ok(()));
    assert_eq!(check_angle(number(f64::NAN)), Err(DomainError::Angle));
    assert_eq!(check_angle(number(f64::INFINITY)), Err(DomainError::Angle));
    assert_eq!(check_angle(number(f64::NEG_INFINITY)), Err(DomainError::Angle));
}

#[test]
fn drop_must_be_finite() {
    assert_eq!(check_drop(number(0.05)), Ok(()));
    assert_eq!(check_drop(number(0.0)), Ok(()));
    assert_eq!(check_drop(number(-0.04)), Ok(()));
    assert_eq!(check_drop(number(f64::NAN)), Err(DomainError::Drop));
    assert_eq!(check_drop(number(f64::INFINITY)), Err(DomainError::Drop));
    assert_eq!(check_drop(number(f64::NEG_INFINITY)), Err(DomainError::Drop));
}

#[test]
fn worked_inputs_are_in_the_domain() {
    assert_eq!(check_angle_distance(number(0.2), number(100.0)), Ok(()));
    assert_eq!(check_angle_distance(number(1.0), number(100.0)), Ok(()));
    assert_eq!(check_drop_distance(number(0.05), number(100.0)), Ok(()));
    assert_eq!(check_drop_distance(number(0.1), number(100.0)), Ok(()));
}

#[test]
fn first_input_is_judged_first() {
    assert_eq!(check_angle_distance(number(f64::NAN), number(0.0)), Err(DomainError::Angle));
    assert_eq!(check_angle_distance(number(f64::INFINITY), number(100.0)), Err(DomainError::Angle));
    assert_eq!(check_angle_distance(number(1.0), number(f64::NAN)), Err(DomainError::Distance));
    assert_eq!(check_drop_distance(number(f64::NAN), number(-1.0)), Err(DomainError::Drop));
    assert_eq!(check_drop_distance(number(f64::INFINITY), number(100.0)), Err(DomainError::Drop));
    assert_eq!(check_drop_distance(number(0.0), number(f64::INFINITY)), Err(DomainError::Distance));
}
