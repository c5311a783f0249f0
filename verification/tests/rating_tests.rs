use memebot_backend::rating::{order_key, rating_bits};

#[test]
fn order_key_follows_number_order() {
    let values: [f32; 12] = [
        f32::NEG_INFINITY, -1.0e30, -2.5, -1.0, -1.0e-40, -0.0, 0.0, 1.0e-40, 0.5, 1.0, 3.0,
        f32::INFINITY,
    ];
    for w in values.windows(2) {
        assert!(order_key(w[0].to_bits()) < order_key(w[1].to_bits()), "{} {}", w[0], w[1]);
    }
}

#[test]
fn order_key_exact_values() {
    assert_eq!(order_key(0.0f32.to_bits()), 0x8000_0000);
    assert_eq!(order_key((-0.0f32).to_bits()), 0x7fff_ffff);
    assert_eq!(order_key(1.0f32.to_bits()), 0x3f80_0000 + 0x8000_0000);
    assert_eq!(order_key((-1.0f32).to_bits()), 0xffff_ffff - 0xbf80_0000);
}

#[test]
fn rating_bits_undoes_order_key() {
    for x in [0.0f32, -0.0, 0.55, -7.25, f32::MAX, f32::MIN, f32::INFINITY, f32::NAN] {
        let bits = x.to_bits();
        assert_eq!(rating_bits(order_key(bits)), bits);
    }
    for key in [0u32, 1, 0x7fff_ffff, 0x8000_0000, 0xffff_ffff, 12345] {
        assert_eq!(order_key(rating_bits(key)), key);
    }
}
