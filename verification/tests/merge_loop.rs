use defiant::encoding::{merge_loop, DecodeContext};
use defiant::error::DecodeError;

fn sum_bytes(v: &mut u32, b: &mut &[u8], _c: DecodeContext) -> Result<(), DecodeError> {
    *v += b[0] as u32;
    *b = &b[1..];
    Ok(())
}

fn take_two(v: &mut u32, b: &mut &[u8], _c: DecodeContext) -> Result<(), DecodeError> {
    if b.len() < 2 {
        return Err(DecodeError::BufferUnderflow);
    }
    *v += 1;
    *b = &b[2..];
    Ok(())
}

fn refuse(_v: &mut u32, _b: &mut &[u8], _c: DecodeContext) -> Result<(), DecodeError> {
    Err(DecodeError::InvalidTag)
}

#[test]
fn merge_loop_consumes_the_announced_bytes() {
    let data: &[u8] = &[0x02, 0x03, 0x04, 0x09];
    let mut buf = data;
    let mut v = 0u32;
    assert_eq!(merge_loop(&mut v, &mut buf, DecodeContext::default(), sum_bytes), Ok(()));
    assert_eq!(v, 7);
    assert_eq!(buf, &[0x09]);
}

#[test]
fn merge_loop_leaves_the_value_on_underflow() {
    let data: &[u8] = &[0x05, 0x01];
    let mut buf = data;
    let mut v = 11u32;
    assert_eq!(
        merge_loop(&mut v, &mut buf, DecodeContext::default(), sum_bytes),
        Err(DecodeError::BufferUnderflow)
    );
    assert_eq!(v, 11);
}

#[test]
fn merge_loop_returns_the_first_error() {
    let data: &[u8] = &[0x01, 0x00];
    let mut buf = data;
    let mut v = 0u32;
    assert_eq!(merge_loop(&mut v, &mut buf, DecodeContext::default(), refuse), Err(DecodeError::InvalidTag));
}

#[test]
fn merge_loop_refuses_an_overrun() {
    let data: &[u8] = &[0x01, 0x00, 0x00];
    let mut buf = data;
    let mut v = 0u32;
    assert_eq!(
        merge_loop(&mut v, &mut buf, DecodeContext::default(), take_two),
        Err(DecodeError::DelimitedLengthExceeded)
    );
}

#[test]
fn merge_loop_of_nothing_keeps_the_value() {
    let data: &[u8] = &[0x00, 0x07];
    let mut buf = data;
    let mut v = 3u32;
    assert_eq!(merge_loop(&mut v, &mut buf, DecodeContext::default(), refuse), Ok(()));
    assert_eq!(v, 3);
    assert_eq!(buf, &[0x07]);
}

#[test]
fn the_default_context_admits_exactly_the_recursion_limit() {
    let mut ctx = DecodeContext::default();
    for _ in 0..99 {
        ctx = ctx.enter_recursion();
        assert!(ctx.limit_reached().is_ok());
    }
    ctx = ctx.enter_recursion();
    assert_eq!(ctx.limit_reached(), Err(DecodeError::RecursionLimitReached));
}
