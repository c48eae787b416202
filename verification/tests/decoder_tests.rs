use cauldron::flac::decoder::{
    extend_sign_u16, extend_sign_u32, fixed_predict, predict_lpc_low_order, rice_to_signed,
};
use cauldron::flac::frame::{decode_left_side, decode_mid_side, decode_right_side};

#[test]
fn test_rice_to_signed() {
    assert_eq!(rice_to_signed(0), 0);
    assert_eq!(rice_to_signed(1), -1);
    assert_eq!(rice_to_signed(2), 1);
    assert_eq!(rice_to_signed(3), -2);
    assert_eq!(rice_to_signed(4), 2);
}

#[test]
fn test_predict_lpc_low_order() {
    let coef: Vec<i16> = vec![-77, 164, -219, 146, 38, 161, -895, 1151];
    let shift: i16 = 9;
    let mut buffer: Vec<i32> = vec![
        3590, 3465, 2979, 2237, 1692, 1411, 900, 476, 188, -189, 49, 3, 37, 150, -353, -49,
    ];
    let result: Vec<i32> = vec![
        3590, 3465, 2979, 2237, 1692, 1411, 900, 476, 187, -255, -688, -1146, -1455, -1428, -1567,
        -1717,
    ];

    predict_lpc_low_order(&coef, shift, &mut buffer, 0, 16);

    assert_eq!(buffer, result);
}

fn fixed_residual(order: usize, s: &[i32], i: usize) -> i32 {
    let p: i64 = match order {
        0 => 0,
        1 => s[i - 1] as i64,
        2 => 2 * s[i - 1] as i64 - s[i - 2] as i64,
        3 => 3 * s[i - 1] as i64 - 3 * s[i - 2] as i64 + s[i - 3] as i64,
        _ => 4 * s[i - 1] as i64 - 6 * s[i - 2] as i64 + 4 * s[i - 3] as i64 - s[i - 4] as i64,
    };
    (s[i] as i64 - p) as i32
}

#[test]
fn test_fixed_predict_round_trip() {
    // Encoding a signal with the order-k residual and decoding it again
    // restores the signal, for every fixed order.
    let signal: Vec<i32> = vec![3, 7, -2, 5, 9, -11, 20, 6, 0, -4];
    for order in 0..=4usize {
        let mut buffer: Vec<i32> = Vec::new();
        for i in 0..signal.len() {
            if i < order {
                buffer.push(signal[i]);
            } else {
                buffer.push(fixed_residual(order, &signal, i));
            }
        }
        fixed_predict(order, &mut buffer, 0, signal.len());
        assert_eq!(buffer, signal, "order {}", order);
    }
}

#[test]
fn test_fixed_predict_order_one() {
    let mut buffer: Vec<i32> = vec![100, 5, -5, 5];
    fixed_predict(1, &mut buffer, 0, 4);
    assert_eq!(buffer, vec![100, 105, 100, 105]);
}

#[test]
fn test_mid_side_round_trip() {
    // Mid-side decorrelation undoes the encoder's mapping.
    let pairs = [
        (0i32, 0i32),
        (1, -1),
        (12345, -54321),
        (-700, 699),
        (32767, -32768),
        (1 << 24, -(1 << 24)),
    ];
    for &(l, r) in pairs.iter() {
        let mid = ((l as i64 + r as i64) >> 1) as i32;
        let side = l.wrapping_sub(r);
        let mut buffer: Vec<i32> = vec![mid, side];
        decode_mid_side(&mut buffer, 1);
        assert_eq!(buffer, vec![l, r], "pair ({}, {})", l, r);
    }
}

#[test]
fn test_left_side_right_side() {
    // left-side: channel 1 holds left - right.
    let mut buffer: Vec<i32> = vec![10, 3];
    decode_left_side(&mut buffer, 1);
    assert_eq!(buffer, vec![10, 7]);

    // right-side: channel 0 holds left - right, channel 1 the right.
    let mut buffer: Vec<i32> = vec![3, 7];
    decode_right_side(&mut buffer, 1);
    assert_eq!(buffer, vec![10, 7]);
}

#[test]
fn test_extend_sign() {
    assert_eq!(extend_sign_u32(0xffff, 16), -1);
    assert_eq!(extend_sign_u32(0x7fff, 16), 32767);
    assert_eq!(extend_sign_u32(0x8000, 16), -32768);
    assert_eq!(extend_sign_u32(0xffff_ffff, 32), -1);
    assert_eq!(extend_sign_u32(1, 2), 1);
    assert_eq!(extend_sign_u32(3, 2), -1);
    assert_eq!(extend_sign_u16(0x1f, 5), -1);
    assert_eq!(extend_sign_u16(0x0f, 5), 15);
}
