use generator_light::ext::{
    from_fn, from_iter, once, once_with, Either, GeneratorExt, GeneratorIterator,
};
use generator_light::{Generator, GeneratorState};

fn squares(n: usize) -> impl Generator<Yield = usize, Return = ()> {
    from_iter(1..=n).map_yield(|x: usize| x * x)
}

fn tok_generator<'a>(s: &'a str) -> impl Generator<Yield = &'a str, Return = ()> {
    from_iter(s.split_whitespace())
}

#[test]
fn test_squares() {
    let mut g = squares(5).into_iter();
    assert_eq!(g.next(), Some(1));
    assert_eq!(g.next(), Some(4));
    assert_eq!(g.next(), Some(9));
    assert_eq!(g.next(), Some(16));
    assert_eq!(g.next(), Some(25));
    assert_eq!(g.next(), None);
}

#[test]
fn test_tokens() {
    let mut g = tok_generator("hello world").into_iter();
    assert_eq!(g.next(), Some("hello"));
    assert_eq!(g.next(), Some("world"));
    assert_eq!(g.next(), None);
}

#[test]
fn once_yields_then_completes_forever() {
    let mut g = once(7);
    assert!(matches!(g.resume(()), GeneratorState::Yield(7)));
    assert!(matches!(g.resume(()), GeneratorState::Complete(())));
    assert!(matches!(g.resume(()), GeneratorState::Complete(())));
}

#[test]
fn once_with_applies_function_to_first_resume_value() {
    let mut g = once_with(|x: i32| x * 3 + 1);
    assert!(matches!(g.resume(4), GeneratorState::Yield(13)));
    assert!(matches!(g.resume(10), GeneratorState::Complete(())));
}

#[test]
fn state_map_yield_and_map_complete() {
    let s: GeneratorState<i32, &str> = GeneratorState::Yield(5);
    assert!(matches!(s.map_yield(|y| y + 1), GeneratorState::Yield(6)));
    let s: GeneratorState<i32, &str> = GeneratorState::Complete("done");
    assert!(matches!(s.map_yield(|y| y + 1), GeneratorState::Complete("done")));
    let s: GeneratorState<i32, i32> = GeneratorState::Complete(2);
    assert!(matches!(s.map_complete(|r| r * 10), GeneratorState::Complete(20)));
    let s: GeneratorState<i32, i32> = GeneratorState::Yield(2);
    assert!(matches!(s.map_complete(|r| r * 10), GeneratorState::Yield(2)));
}

#[test]
fn compose_feeds_first_into_second() {
    let second = from_fn(|x: i32| {
        if x < 3 {
            GeneratorState::Yield(x * 100)
        } else {
            GeneratorState::Complete(x)
        }
    });
    let mut g = from_iter(vec![1, 2, 3, 4].into_iter()).compose(second);
    assert!(matches!(g.resume(()), GeneratorState::Yield(100)));
    assert!(matches!(g.resume(()), GeneratorState::Yield(200)));
    assert!(matches!(g.resume(()), GeneratorState::Complete(Either::Right(3))));
}

#[test]
fn compose_completes_left_when_first_completes() {
    let second = from_fn(|x: i32| GeneratorState::<i32, i32>::Yield(x));
    let mut g = from_iter(Vec::<i32>::new().into_iter()).compose(second);
    assert!(matches!(g.resume(()), GeneratorState::Complete(Either::Left(()))));
}

#[test]
fn map_complete_maps_only_the_result() {
    let mut g = once(1).map_complete(|()| "finished");
    assert!(matches!(g.resume(()), GeneratorState::Yield(1)));
    assert!(matches!(g.resume(()), GeneratorState::Complete("finished")));
}

#[test]
fn map_yield_maps_every_item() {
    let mut it = from_iter(vec!["a", "bb", "ccc"].into_iter()).map_yield(|s: &str| s.len()).into_iter();
    assert_eq!(it.next(), Some(1));
    assert_eq!(it.next(), Some(2));
    assert_eq!(it.next(), Some(3));
    assert_eq!(it.next(), None);
}

#[test]
fn chain_with_runs_second_after_first() {
    let g = from_iter(vec![1, 2].into_iter()).chain_with(|()| (from_iter(vec![3, 4].into_iter()), ()));
    let mut it = g.into_iter();
    assert_eq!(it.next(), Some(1));
    assert_eq!(it.next(), Some(2));
    assert_eq!(it.next(), Some(3));
    assert_eq!(it.next(), Some(4));
    assert_eq!(it.next(), None);
    assert_eq!(it.next(), None);
}

#[test]
fn chain_with_passes_first_result_on() {
    let first = from_fn(|x: i32| {
        if x == 0 {
            GeneratorState::Complete(41)
        } else {
            GeneratorState::Yield(x)
        }
    });
    let mut g = first.chain_with(|r: i32| (once_with(|v: i32| v + 1000), r + 1));
    assert!(matches!(g.resume(5), GeneratorState::Yield(5)));
    assert!(matches!(g.resume(0), GeneratorState::Yield(1042)));
    assert!(matches!(g.resume(7), GeneratorState::Complete(())));
}

#[test]
fn join_with_flattens_inner_generators() {
    let outer = from_iter(vec![1, 2, 3].into_iter()).map_yield(|n: usize| from_iter(0..n));
    let mut it = outer.join_with(|| (), |()| ()).into_iter();
    let mut seen = Vec::new();
    while let Some(x) = it.next() {
        seen.push(x);
    }
    assert_eq!(seen, vec![0, 0, 1, 0, 1, 2]);
}

#[test]
fn join_with_skips_empty_inner_generators() {
    let outer = from_iter(vec![0, 2, 0, 0, 1].into_iter()).map_yield(|n: usize| from_iter(10..10 + n));
    let mut it = outer.join_with(|| (), |()| ()).into_iter();
    assert_eq!(it.next(), Some(10));
    assert_eq!(it.next(), Some(11));
    assert_eq!(it.next(), Some(10));
    assert_eq!(it.next(), None);
}

#[test]
fn receiving_transforms_resume_values() {
    let inner = from_fn(|x: usize| GeneratorState::<usize, ()>::Yield(x * 2));
    let mut g = inner.receiving(|s: &str| s.len());
    assert!(matches!(g.resume("abc"), GeneratorState::Yield(6)));
    assert!(matches!(g.resume(""), GeneratorState::Yield(0)));
}

#[test]
fn boxed_generator_forwards_resume() {
    let mut g: Box<_> = Box::new(once('x'));
    assert!(matches!(g.resume(()), GeneratorState::Yield('x')));
    assert!(matches!(g.resume(()), GeneratorState::Complete(())));
}

#[test]
fn from_iter_on_infinite_iterator_is_lazy() {
    let mut it = from_iter(1..).compose(from_fn(|x: u64| {
        if x <= 3 {
            GeneratorState::Yield(x * x)
        } else {
            GeneratorState::Complete(())
        }
    }));
    assert!(matches!(it.resume(()), GeneratorState::Yield(1)));
    assert!(matches!(it.resume(()), GeneratorState::Yield(4)));
    assert!(matches!(it.resume(()), GeneratorState::Yield(9)));
    assert!(matches!(it.resume(()), GeneratorState::Complete(Either::Right(()))));
}

#[test]
fn iterating_once_gives_its_value_then_ends() {
    let mut it = once("only").into_iter();
    assert_eq!(it.next(), Some("only"));
    assert_eq!(it.next(), None);
    assert_eq!(it.next(), None);
}

#[test]
fn from_fn_hands_every_resume_value_to_the_function() {
    let mut g = from_fn(|x: u32| {
        if x % 2 == 0 {
            GeneratorState::Yield(x / 2)
        } else {
            GeneratorState::Complete(x)
        }
    });
    assert!(matches!(g.resume(8), GeneratorState::Yield(4)));
    assert!(matches!(g.resume(3), GeneratorState::Complete(3)));
    assert!(matches!(g.resume(2), GeneratorState::Yield(1)));
}

#[test]
fn map_yield_then_map_complete_on_one_generator() {
    let mut g = from_iter(vec![2, 3].into_iter())
        .map_yield(|x: i32| x * x)
        .map_complete(|()| -1);
    assert!(matches!(g.resume(()), GeneratorState::Yield(4)));
    assert!(matches!(g.resume(()), GeneratorState::Yield(9)));
    assert!(matches!(g.resume(()), GeneratorState::Complete(-1)));
}
