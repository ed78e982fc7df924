use tetris::input::Input;

#[test]
fn reset_forgets_every_key() {
    let mut input = Input {
        left_key_pressed: true,
        right_key_pressed: true,
        up_key_pressed: true,
        down_key_pressed: true,
    };
    input.reset();
    assert_eq!(
        input,
        Input {
            left_key_pressed: false,
            right_key_pressed: false,
            up_key_pressed: false,
            down_key_pressed: false,
        }
    );
}

#[test]
fn reset_leaves_an_idle_input_idle() {
    let mut input = Input {
        left_key_pressed: false,
        right_key_pressed: false,
        up_key_pressed: false,
        down_key_pressed: false,
    };
    input.reset();
    assert!(!input.left_key_pressed);
    assert!(!input.right_key_pressed);
    assert!(!input.up_key_pressed);
    assert!(!input.down_key_pressed);
}
