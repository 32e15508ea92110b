use wie_jni::keys::{convert_key_code, KeyCode};

#[test]
fn every_code_in_the_table_maps() {
    let expected = [
        KeyCode::UP, KeyCode::DOWN, KeyCode::LEFT, KeyCode::RIGHT, KeyCode::OK,
        KeyCode::LEFT_SOFT_KEY, KeyCode::RIGHT_SOFT_KEY, KeyCode::CLEAR, KeyCode::CALL,
        KeyCode::HANGUP, KeyCode::VOLUME_UP, KeyCode::VOLUME_DOWN, KeyCode::NUM0, KeyCode::NUM1,
        KeyCode::NUM2, KeyCode::NUM3, KeyCode::NUM4, KeyCode::NUM5, KeyCode::NUM6, KeyCode::NUM7,
        KeyCode::NUM8, KeyCode::NUM9, KeyCode::HASH, KeyCode::STAR,
    ];
    for (code, key) in expected.iter().enumerate() {
        assert_eq!(convert_key_code(code as i32), Some(*key));
    }
}

#[test]
fn codes_outside_the_table_map_to_nothing() {
    assert_eq!(convert_key_code(-1), None);
    assert_eq!(convert_key_code(24), None);
    assert_eq!(convert_key_code(i32::MAX), None);
    assert_eq!(convert_key_code(i32::MIN), None);
}

#[test]
fn no_two_codes_share_a_key() {
    for a in 0..24 {
        for b in 0..24 {
            if a != b {
                assert_ne!(convert_key_code(a), convert_key_code(b));
            }
        }
    }
}
