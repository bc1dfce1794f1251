//! Routing of transcribed text to its destinations.

use crate::config::OutputMode;
use crate::text::{lemma_returns_on_text_by_ref, returns_on_text};
use vstd::prelude::*;

verus! {

/// What `output_text` may return for `mode`, given what the two destinations
/// may return for the text: the one destination's result when only one is
/// asked; with both, the keyboard's error if it fails, else the clipboard's result.
pub open spec fn routed<K: Fn(&str) -> Result<(), String>, B: Fn(&str) -> Result<
    (),
    String,
>>(text: Seq<char>, mode: OutputMode, type_text: K, copy_to_clipboard: B, result: Result<
    (),
    String,
>) -> bool {
    match mode {
        OutputMode::TypeIntoField => returns_on_text(type_text, text, result),
        OutputMode::Clipboard => returns_on_text(copy_to_clipboard, text, result),
        OutputMode::Both => exists|typed: Result<(), String>|
            {
                &&& #[trigger] returns_on_text(type_text, text, typed)
                &&& if typed is Err {
                    result == typed
                } else {
                    returns_on_text(copy_to_clipboard, text, result)
                }
            },
    }
}

/// Delivers `text` as `mode` asks: to the keyboard, to the clipboard, or to
/// the keyboard and then the clipboard. With both, a keyboard failure is
/// returned at once and the clipboard is left alone.
pub fn output_text<K, B>(text: &str, mode: &OutputMode, type_text: K, copy_to_clipboard: B) -> (result:
    Result<(), String>) where
    K: Fn(&str) -> Result<(), String>,
    B: Fn(&str) -> Result<(), String>,

    requires
        call_requires(type_text, (text,)),
        call_requires(copy_to_clipboard, (text,)),
    ensures
        routed(text@, *mode, type_text, copy_to_clipboard, result),
{
    match mode {
        OutputMode::TypeIntoField => {
            let typed = type_text(text);
            assert(returns_on_text(type_text, text@, typed));
            typed
        },
        OutputMode::Clipboard => {
            let copied = copy_to_clipboard(text);
            assert(returns_on_text(copy_to_clipboard, text@, copied));
            copied
        },
        OutputMode::Both => {
            let typed = type_text(text);
            assert(returns_on_text(type_text, text@, typed));
            if typed.is_err() {
                return typed;
            }
            let copied = copy_to_clipboard(text);
            assert(returns_on_text(copy_to_clipboard, text@, copied));
            copied
        },
    }
}

/// The routing is the same whether the destinations are handed over directly or by reference.
pub proof fn lemma_routed_by_ref<K: Fn(&str) -> Result<(), String>, B: Fn(&str) -> Result<
    (),
    String,
>>(text: Seq<char>, mode: OutputMode, type_text: &K, copy_to_clipboard: &B, result: Result<
    (),
    String,
>)
    requires
        routed(text, mode, type_text, copy_to_clipboard, result),
    ensures
        routed(text, mode, *type_text, *copy_to_clipboard, result),
{
    match mode {
        OutputMode::TypeIntoField => {
            lemma_returns_on_text_by_ref(type_text, text, result);
        },
        OutputMode::Clipboard => {
            lemma_returns_on_text_by_ref(copy_to_clipboard, text, result);
        },
        OutputMode::Both => {
            let typed = choose|typed: Result<(), String>|
                {
                    &&& #[trigger] returns_on_text(type_text, text, typed)
                    &&& if typed is Err {
                        result == typed
                    } else {
                        returns_on_text(copy_to_clipboard, text, result)
                    }
                };
            lemma_returns_on_text_by_ref(type_text, text, typed);
            if typed is Ok {
                lemma_returns_on_text_by_ref(copy_to_clipboard, text, result);
            }
        },
    }
}

} // verus!
