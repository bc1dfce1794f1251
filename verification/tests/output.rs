use std::cell::RefCell;
use whispertype::config::OutputMode;
use whispertype::output::output_text;

fn type_text(_text: &str) -> Result<(), String> {
    Ok(())
}

fn copy_to_clipboard(_text: &str) -> Result<(), String> {
    Ok(())
}

#[test]
fn test_output_mode_equality() {
    assert_eq!(OutputMode::Both, OutputMode::Both);
    assert_eq!(OutputMode::Clipboard, OutputMode::Clipboard);
    assert_eq!(OutputMode::TypeIntoField, OutputMode::TypeIntoField);
    assert_ne!(OutputMode::Both, OutputMode::Clipboard);
    assert_ne!(OutputMode::Clipboard, OutputMode::TypeIntoField);
}

#[test]
fn test_output_mode_type_into_field_variant() {
    let result = output_text("test", &OutputMode::TypeIntoField, type_text, copy_to_clipboard);
    let _ = result;
}

#[test]
fn test_output_mode_clipboard_variant() {
    let result = output_text("test", &OutputMode::Clipboard, type_text, copy_to_clipboard);
    let _ = result;
}

#[test]
fn test_output_mode_both_variant() {
    let result = output_text("test", &OutputMode::Both, type_text, copy_to_clipboard);
    let _ = result;
}

#[test]
fn test_output_mode_match_arms_are_exhaustive() {
    let modes = [
        OutputMode::TypeIntoField,
        OutputMode::Clipboard,
        OutputMode::Both,
    ];
    for mode in &modes {
        let _ = output_text("test", mode, type_text, copy_to_clipboard);
    }
}

#[test]
fn test_output_text_with_empty_string() {
    let _ = output_text("", &OutputMode::Clipboard, type_text, copy_to_clipboard);
    let _ = output_text("", &OutputMode::TypeIntoField, type_text, copy_to_clipboard);
    let _ = output_text("", &OutputMode::Both, type_text, copy_to_clipboard);
}

#[test]
fn test_output_text_with_unicode() {
    let _ = output_text(
        "Hello \u{2714} \u{1F600}",
        &OutputMode::Clipboard,
        type_text,
        copy_to_clipboard,
    );
}

#[test]
fn test_output_text_with_multiline() {
    let _ = output_text(
        "line1\nline2\nline3",
        &OutputMode::Clipboard,
        type_text,
        copy_to_clipboard,
    );
}

fn run(mode: OutputMode, keyboard_fails: bool, clipboard_fails: bool) -> (Result<(), String>, Vec<String>) {
    let log: RefCell<Vec<String>> = RefCell::new(Vec::new());
    let result = output_text(
        "hello",
        &mode,
        |text: &str| {
            log.borrow_mut().push(format!("type:{}", text));
            if keyboard_fails {
                Err("keyboard".to_string())
            } else {
                Ok(())
            }
        },
        |text: &str| {
            log.borrow_mut().push(format!("copy:{}", text));
            if clipboard_fails {
                Err("clipboard".to_string())
            } else {
                Ok(())
            }
        },
    );
    (result, log.into_inner())
}

#[test]
fn output_text_routes_to_the_destinations_of_the_mode() {
    assert_eq!(
        run(OutputMode::TypeIntoField, false, true),
        (Ok(()), vec!["type:hello".to_string()])
    );
    assert_eq!(
        run(OutputMode::Clipboard, true, false),
        (Ok(()), vec!["copy:hello".to_string()])
    );
    assert_eq!(
        run(OutputMode::Both, false, false),
        (
            Ok(()),
            vec!["type:hello".to_string(), "copy:hello".to_string()]
        )
    );
}

#[test]
fn output_text_passes_failures_on() {
    assert_eq!(
        run(OutputMode::TypeIntoField, true, false),
        (Err("keyboard".to_string()), vec!["type:hello".to_string()])
    );
    assert_eq!(
        run(OutputMode::Clipboard, false, true),
        (Err("clipboard".to_string()), vec!["copy:hello".to_string()])
    );
    // with both, a keyboard failure ends the delivery before the clipboard is touched
    assert_eq!(
        run(OutputMode::Both, true, true),
        (Err("keyboard".to_string()), vec!["type:hello".to_string()])
    );
    assert_eq!(
        run(OutputMode::Both, false, true),
        (
            Err("clipboard".to_string()),
            vec!["type:hello".to_string(), "copy:hello".to_string()]
        )
    );
}
