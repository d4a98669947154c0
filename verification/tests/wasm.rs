use ratgames::host::wasm::WasmHostError;
use ratgames::host::wasm::{ui_input_from_key, write_rgba8};
use ratgames::ui::UiInput;

#[test]
fn named_control_keys_map_to_semantic_inputs() {
    assert_eq!(ui_input_from_key("Enter"), Some(UiInput::Confirm));
    assert_eq!(ui_input_from_key("Backspace"), Some(UiInput::Backspace));
    assert_eq!(ui_input_from_key("Delete"), Some(UiInput::Delete));
    assert_eq!(ui_input_from_key("Escape"), Some(UiInput::Cancel));
    assert_eq!(ui_input_from_key("ArrowLeft"), Some(UiInput::Left));
    assert_eq!(ui_input_from_key("ArrowRight"), Some(UiInput::Right));
    assert_eq!(ui_input_from_key("ArrowUp"), Some(UiInput::Up));
    assert_eq!(ui_input_from_key("ArrowDown"), Some(UiInput::Down));
    assert_eq!(ui_input_from_key("Home"), Some(UiInput::Home));
    assert_eq!(ui_input_from_key("End"), Some(UiInput::End));
}

#[test]
fn single_characters_become_typed_text() {
    assert_eq!(ui_input_from_key("a"), Some(UiInput::Char('a')));
    assert_eq!(ui_input_from_key("5"), Some(UiInput::Char('5')));
    assert_eq!(ui_input_from_key(" "), Some(UiInput::Char(' ')));
    assert_eq!(ui_input_from_key("?"), Some(UiInput::Char('?')));
}

#[test]
fn unmodelled_named_keys_and_empties_return_none() {
    // Multi-character names carry no command we model; an empty string and a
    // lone control character are likewise dropped.
    assert_eq!(ui_input_from_key("Shift"), None);
    assert_eq!(ui_input_from_key("Tab"), None);
    assert_eq!(ui_input_from_key("F1"), None);
    assert_eq!(ui_input_from_key("Dead"), None);
    assert_eq!(ui_input_from_key(""), None);
    assert_eq!(ui_input_from_key("\u{7}"), None);
}

#[test]
fn rgba8_swizzles_argb_words_to_opaque_rgba_bytes() {
    let mut out = Vec::new();
    // 0x00RRGGBB: red, green, blue.
    write_rgba8(&[0x00FF_0000, 0x0000_FF00, 0x0000_00FF], &mut out);
    assert_eq!(
        out,
        vec![
            0xFF, 0x00, 0x00, 0xFF, // R
            0x00, 0xFF, 0x00, 0xFF, // G
            0x00, 0x00, 0xFF, 0xFF, // B
        ]
    );
}

#[test]
fn rgba8_clears_prior_contents_each_call() {
    let mut out = vec![1, 2, 3];
    write_rgba8(&[0x0012_3456], &mut out);
    assert_eq!(out, vec![0x12, 0x34, 0x56, 0xFF]);
}

#[test]
fn host_errors_read_as_sentences() {
    assert_eq!(WasmHostError::NoContext.message(), "the canvas has no 2d rendering context");
    assert_eq!(
        WasmHostError::Canvas("blit".to_string()).message(),
        "canvas operation failed: blit"
    );
}
