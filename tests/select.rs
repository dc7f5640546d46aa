use std::collections::HashSet;

use simple_ga::ga::select::{SelectOther, SelectOtherRandom, SelectRandomManyWithBias, SelectRandomWithBias};
use simple_ga::util::Bias;

#[derive(Debug, PartialEq)]
struct Foo(usize);

#[test]
fn select_test_select_random_owned() {
    let foo = Foo(1);
    let items = vec![foo];
    let selected = SelectRandomWithBias::new(Bias::Front).select_random(items);
    assert_eq!(selected, Some(Foo(1)));

    let items = vec![Foo(1), Foo(1), Foo(1)];
    let selected = SelectRandomManyWithBias::new(2, Bias::Front).select_random(items);
    assert_eq!(selected, vec![Foo(1), Foo(1)]);
}

#[test]
fn select_test_select_random() {
    let foo = Foo(1);
    let items = vec![&foo];
    let selected = SelectRandomWithBias::new(Bias::Front).select_random(items);
    assert_eq!(selected, Some(Foo(1)).as_ref());

    let foo = Foo(1);
    let items = vec![&foo];
    let selected = SelectRandomManyWithBias::new(2, Bias::Front).select_random(items);
    assert_eq!(selected, vec![&foo]);
}

#[test]
fn select_test_select_random_mut() {
    let mut foo = Foo(1);
    let items = vec![&mut foo];
    let selected = SelectRandomWithBias::new(Bias::Front).select_random(items);
    let Some(selected) = selected else {
        unreachable!();
    };
    selected.0 = 2;
    let selected_value = selected.0;
    let foo_value = foo.0;
    assert_eq!(selected_value, 2);
    assert_eq!(foo_value, 2);

    let mut a = Foo(1);
    let mut b = Foo(1);
    let items = vec![&mut a, &mut b];
    let mut selected = SelectRandomManyWithBias::new(2, Bias::Front).select_random(items);
    {
        let Some(selected) = selected.get_mut(0) else {
            unreachable!();
        };
        selected.0 = 2;
    }
    assert_eq!(selected.into_iter().next(), Some(&mut Foo(2)));
}

#[test]
fn test_select_random_indexes() {
    let items = 0..1000000usize;
    let select = SelectRandomManyWithBias::new(items.len() - 1, Bias::Front).select_random_indexes(items.len());
    assert_eq!(select.len(), items.len() - 1);
}

#[test]
fn test_select_random_range() {
    let selected = SelectRandomManyWithBias::new(8, Bias::Front).select_random((0..10).collect::<Vec<usize>>());
    assert_eq!(selected.into_iter().collect::<HashSet<_>>().len(), 8);
}

#[test]
fn test_select_random_range_a() {
    let len = 50000;
    let expected = len / 2 - 1;
    let selected =
        SelectRandomManyWithBias::new(expected, Bias::Front).select_random((0..len).collect::<Vec<usize>>());
    assert_eq!(selected.into_iter().collect::<HashSet<_>>().len(), expected);
}

#[test]
fn test_select_random_range_b() {
    let len = 50000;
    let expected = len / 2 + 1;
    let selected =
        SelectRandomManyWithBias::new(expected, Bias::Front).select_random((0..len).collect::<Vec<usize>>());
    assert_eq!(selected.into_iter().collect::<HashSet<_>>().len(), expected);
}

#[test]
fn select_many_returns_min_of_amount_and_length_in_order() {
    let len = 10usize;
    for amount in [0, 1, len - 1, len, len + 1] {
        for bias in [Bias::Front, Bias::Back, Bias::FrontInverse, Bias::BackInverse] {
            let selected = SelectRandomManyWithBias::new(amount, bias).select_random((0..len).collect::<Vec<usize>>());
            assert_eq!(selected.len(), amount.min(len));
            assert!(selected.windows(2).all(|w| w[0] < w[1]));
            assert!(selected.iter().all(|i| *i < len));
        }
    }
}

#[test]
fn select_one_on_empty_gives_none() {
    let selected = SelectRandomWithBias::new(Bias::Back).select_from(Vec::<usize>::new());
    assert_eq!(selected, None);
    let selected = SelectRandomManyWithBias::new(3, Bias::Back).select_from(Vec::<usize>::new());
    assert!(selected.is_empty());
}

#[test]
fn select_one_picks_an_item() {
    for _ in 0..100 {
        let selected = SelectRandomWithBias::new(Bias::Back).select_from(vec![4usize, 5, 6]);
        assert!(matches!(selected, Some(4..=6)));
    }
}
