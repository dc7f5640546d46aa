use simple_ga::ga::prune::{
    prune_to_length, DefaultPruneHalfBack, DefaultPruneThirdFrontSkipFirst, PruneExtraBackSkipFirst,
    PruneExtraFrontSkipFirst, PruneOther, PruneRandom, PruneSingleBackSkipFirst, PruneSingleFront,
};
use simple_ga::util::Bias;

#[test]
fn prune_test_prune_random() {
    let mut items = vec![1, 2, 3];
    PruneSingleBackSkipFirst.prune_random(&mut items);
    PruneSingleBackSkipFirst.prune_random(&mut items);
    assert_eq!(items, vec![1]);

    let mut items = vec![1, 2, 3];
    PruneExtraBackSkipFirst::new(1).prune_random(&mut items);
    assert_eq!(items, vec![1]);
}

#[test]
fn prune_to_max_length_on_longer_sequence() {
    for bias in [Bias::Front, Bias::Back, Bias::FrontInverse, Bias::BackInverse] {
        for skip_first in [false, true] {
            let mut items: Vec<u32> = (0..12).collect();
            prune_to_length(&mut items, 5, bias, skip_first);
            assert_eq!(items.len(), 5);
            assert!(items.windows(2).all(|w| w[0] < w[1]));
            if skip_first {
                assert_eq!(items[0], 0);
            }
        }
    }
}

#[test]
fn prune_to_max_length_on_short_sequence_is_noop() {
    let mut items: Vec<u32> = vec![7, 8, 9];
    prune_to_length(&mut items, 5, Bias::Back, true);
    assert_eq!(items, vec![7, 8, 9]);
    let mut items: Vec<u32> = vec![7, 8, 9];
    PruneExtraFrontSkipFirst::new(3).prune(&mut items);
    assert_eq!(items, vec![7, 8, 9]);
}

#[test]
fn prune_skip_first_keeps_protected_item() {
    let mut items: Vec<u32> = vec![4];
    PruneSingleBackSkipFirst.prune(&mut items);
    assert_eq!(items, vec![4]);
    let mut items: Vec<u32> = vec![4, 5, 6, 7];
    PruneExtraFrontSkipFirst::new(0).prune(&mut items);
    assert_eq!(items, vec![4]);
}

#[test]
fn prune_single_removes_one() {
    let mut items: Vec<u32> = vec![1, 2, 3, 4];
    PruneSingleFront.prune(&mut items);
    assert_eq!(items.len(), 3);
    let mut empty: Vec<u32> = vec![];
    PruneSingleFront.prune(&mut empty);
    assert!(empty.is_empty());
}

#[test]
fn prune_sized_rounds_the_share() {
    let mut items: Vec<u32> = (0..7).collect();
    DefaultPruneHalfBack.prune(&mut items);
    assert_eq!(items.len(), 4);
    let mut items: Vec<u32> = (0..10).collect();
    DefaultPruneThirdFrontSkipFirst.prune(&mut items);
    assert_eq!(items.len(), 3);
    assert_eq!(items[0], 0);
}
