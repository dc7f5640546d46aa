use simple_ga::util::{coin_flip, index_from_draw, random_index_bias, Bias, DRAW_SCALE, ODDS_ONE};

fn average_index(len: usize, bias: Bias) -> f64 {
    const SAMPLE_SIZE: u64 = 10000;
    let total: usize = (0..SAMPLE_SIZE).map(|n| index_from_draw(n * DRAW_SCALE / SAMPLE_SIZE, len, bias)).sum();
    total as f64 / SAMPLE_SIZE as f64
}

#[test]
fn front_bias_averages_in_lower_third() {
    let avg = average_index(100, Bias::Front);
    assert!(avg < 30.0, "{avg}");
}

#[test]
fn back_bias_averages_in_upper_third() {
    let avg = average_index(100, Bias::Back);
    assert!(avg > 70.0, "{avg}");
}

#[test]
fn biased_index_stays_in_range() {
    for len in [1usize, 2, 3, 10, 1000] {
        for bias in [Bias::Front, Bias::FrontInverse, Bias::Back, Bias::BackInverse] {
            for k in [0, 1, DRAW_SCALE / 3, DRAW_SCALE / 2, DRAW_SCALE - 2, DRAW_SCALE - 1] {
                assert!(index_from_draw(k, len, bias) < len);
            }
            for _ in 0..200 {
                assert!(random_index_bias(len, bias) < len);
            }
        }
    }
}

#[test]
fn biased_index_exact_values() {
    assert_eq!(index_from_draw(0, 100, Bias::Front), 0);
    assert_eq!(index_from_draw(DRAW_SCALE / 2, 100, Bias::Front), 16);
    assert_eq!(index_from_draw(DRAW_SCALE - 1, 100, Bias::Front), 99);
    assert_eq!(index_from_draw(0, 100, Bias::Back), 0);
    assert_eq!(index_from_draw(DRAW_SCALE / 2, 100, Bias::Back), 83);
    assert_eq!(index_from_draw(DRAW_SCALE - 1, 100, Bias::Back), 99);
    assert_eq!(index_from_draw(DRAW_SCALE / 2, 100, Bias::FrontInverse), 33);
    assert_eq!(index_from_draw(DRAW_SCALE / 2, 100, Bias::BackInverse), 0);
    assert_eq!(index_from_draw(0, 100, Bias::FrontInverse), 50);
}

#[test]
fn inverse_swaps_biases() {
    assert_eq!(Bias::Front.inverse(), Bias::FrontInverse);
    assert_eq!(Bias::FrontInverse.inverse(), Bias::Front);
    assert_eq!(Bias::Back.inverse(), Bias::BackInverse);
    assert_eq!(Bias::BackInverse.inverse(), Bias::Back);
}

#[test]
fn coin_flip_extremes() {
    for _ in 0..100 {
        assert!(!coin_flip(0));
        assert!(coin_flip(ODDS_ONE));
    }
}
