use generator_light::fut_generator::settle;
use generator_light::gen_context::{GeneratorContext, Progress};
use generator_light::{FnOnceOutput, GeneratorState};

#[test]
fn resumed_value_reaches_suspension_point() {
    let mut ctx: GeneratorContext<&str, i32> = GeneratorContext::new_resumed(9);
    let mut pending = None;
    assert_eq!(ctx.poll_yield(&mut pending), Progress::Ready(9));
    assert_eq!(ctx.poll_yield(&mut pending), Progress::Pending);
}

#[test]
fn yielded_item_reaches_resumer() {
    let mut ctx: GeneratorContext<&str, i32> = GeneratorContext::new_resumed(1);
    let mut pending = Some("item");
    assert_eq!(ctx.poll_yield(&mut pending), Progress::Pending);
    assert_eq!(pending, None);
    let out = settle::<&str, i32, ()>(Progress::Pending, ctx);
    assert!(matches!(out, Some(GeneratorState::Yield("item"))));
}

#[test]
fn suspension_point_round_trip() {
    let mut ctx: GeneratorContext<u8, u32> = GeneratorContext::new_resumed(0);
    let mut pending = Some(5u8);
    assert_eq!(ctx.poll_yield(&mut pending), Progress::Pending);
    ctx.resume(77);
    assert_eq!(ctx.poll_yield(&mut pending), Progress::Ready(77));
}

#[test]
fn take_yielded_gives_back_handed_out_item() {
    let mut ctx: GeneratorContext<u8, u32> = GeneratorContext::new_resumed(0);
    let mut pending = Some(3u8);
    let _ = ctx.poll_yield(&mut pending);
    assert_eq!(ctx.take_yielded(), Some(3));
}

#[test]
fn settle_finished_body_completes() {
    let ctx: GeneratorContext<u8, u32> = GeneratorContext::new_resumed(4);
    let out = settle(Progress::Ready("end"), ctx);
    assert!(matches!(out, Some(GeneratorState::Complete("end"))));
}

#[test]
fn settle_suspension_without_item() {
    let mut ctx: GeneratorContext<u8, u32> = GeneratorContext::new_resumed(4);
    let mut pending = None;
    assert_eq!(ctx.poll_yield(&mut pending), Progress::Ready(4));
    let out = settle::<u8, u32, ()>(Progress::Pending, ctx);
    assert!(out.is_none());
}

#[test]
fn fn_once_output_calls_the_function() {
    let f = |x: i32| x - 1;
    assert_eq!(f.call(10), 9);
}

#[test]
fn slot_holds_yield_only_after_a_poll() {
    let mut ctx: GeneratorContext<u8, u32> = GeneratorContext::new_resumed(2);
    assert!(!ctx.holds_yield());
    let mut pending = None;
    assert_eq!(ctx.poll_yield(&mut pending), Progress::Ready(2));
    assert!(ctx.holds_yield());
    ctx.resume(3);
    assert!(!ctx.holds_yield());
}
