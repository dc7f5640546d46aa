use simple_ga::ga::probability::Probability;
use simple_ga::util::{Odds, ODDS_ONE};

#[test]
fn test_as_f64() {
    assert_eq!(Probability::Never.as_odds(), 0);
    assert_eq!(Probability::Chance(500_000).as_odds(), 500_000);
    assert_eq!(Probability::Guaranteed.as_odds(), ODDS_ONE);
}

#[test]
fn test_partial_eq() {
    assert_eq!(Probability::Never, Probability::Never);
    assert_eq!(Probability::Chance(500_000), Probability::Chance(500_000));
    assert_eq!(Probability::Guaranteed, Probability::Guaranteed);
    assert_eq!(Probability::Guaranteed, Probability::Chance(ODDS_ONE));
    assert_eq!(Probability::Never, Probability::Chance(0));
    assert_ne!(Probability::Chance(500_000), Probability::Guaranteed);
}

#[test]
fn test_from() {
    let value: Odds = Probability::Chance(700_000).into();
    assert_eq!(value, 700_000);

    let prob: Probability = 700_000.into();
    assert_eq!(prob, Probability::Chance(700_000));

    let prob: Probability = ODDS_ONE.into();
    assert!(matches!(prob, Probability::Guaranteed));

    let prob: Probability = 0.into();
    assert!(matches!(prob, Probability::Never));
}

#[test]
fn test_is_valid() {
    assert!(Probability::Never.is_valid());
    assert!(Probability::Chance(500_000).is_valid());
    assert!(Probability::Guaranteed.is_valid());
    assert!(!Probability::Chance(1_500_000).is_valid());
    assert!(!Probability::Chance(u32::MAX).is_valid());
}

#[test]
fn test_is_valid_odds() {
    assert!(Probability::is_valid_odds(0));
    assert!(Probability::is_valid_odds(500_000));
    assert!(Probability::is_valid_odds(ODDS_ONE));
    assert!(!Probability::is_valid_odds(1_500_000));
    assert!(!Probability::is_valid_odds(ODDS_ONE + 1));
}

#[test]
fn assert_is_valid_odds_hands_back_odds() {
    assert_eq!(Probability::assert_is_valid_odds(250_000), 250_000);
    Probability::Chance(10).assert_is_valid();
}
