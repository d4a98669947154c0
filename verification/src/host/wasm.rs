//! Browser-host helpers: DOM key names to [`UiInput`], and `0x00RRGGBB`
//! surface words to the RGBA bytes a canvas `ImageData` holds.

use vstd::prelude::*;

use crate::chars::{control, is_control, str_eq};
use crate::ui::UiInput;
use vstd::string::{StrSliceExecFns, StringExecFns};

verus! {

/// The command a DOM `KeyboardEvent.key` name stands for: the named keys the
/// library models, a single non-control character as typed text, and nothing
/// for any other name.
pub open spec fn spec_key(key: Seq<char>) -> Option<UiInput> {
    if key == "Enter"@ {
        Some(UiInput::Confirm)
    } else if key == "Backspace"@ {
        Some(UiInput::Backspace)
    } else if key == "Delete"@ {
        Some(UiInput::Delete)
    } else if key == "Escape"@ {
        Some(UiInput::Cancel)
    } else if key == "ArrowLeft"@ {
        Some(UiInput::Left)
    } else if key == "ArrowRight"@ {
        Some(UiInput::Right)
    } else if key == "ArrowUp"@ {
        Some(UiInput::Up)
    } else if key == "ArrowDown"@ {
        Some(UiInput::Down)
    } else if key == "Home"@ {
        Some(UiInput::Home)
    } else if key == "End"@ {
        Some(UiInput::End)
    } else if key.len() == 1 && !is_control(key[0]) {
        Some(UiInput::Char(key[0]))
    } else {
        None
    }
}

/// Map a DOM `KeyboardEvent.key` name to a semantic input.
pub fn ui_input_from_key(key: &str) -> (r: Option<UiInput>)
    ensures
        r == spec_key(key@),
{
    if str_eq(key, "Enter") {
        Some(UiInput::Confirm)
    } else if str_eq(key, "Backspace") {
        Some(UiInput::Backspace)
    } else if str_eq(key, "Delete") {
        Some(UiInput::Delete)
    } else if str_eq(key, "Escape") {
        Some(UiInput::Cancel)
    } else if str_eq(key, "ArrowLeft") {
        Some(UiInput::Left)
    } else if str_eq(key, "ArrowRight") {
        Some(UiInput::Right)
    } else if str_eq(key, "ArrowUp") {
        Some(UiInput::Up)
    } else if str_eq(key, "ArrowDown") {
        Some(UiInput::Down)
    } else if str_eq(key, "Home") {
        Some(UiInput::Home)
    } else if str_eq(key, "End") {
        Some(UiInput::End)
    } else if key.unicode_len() == 1 {
        let c = key.get_char(0);
        if control(c) {
            None
        } else {
            Some(UiInput::Char(c))
        }
    } else {
        None
    }
}

/// The RGBA bytes for surface words: per word its red, green and blue bytes,
/// then an opaque alpha.
pub open spec fn rgba_bytes(pixels: Seq<u32>) -> Seq<u8> {
    Seq::new(
        4 * pixels.len(),
        |i: int|
            {
                let px = pixels[i / 4];
                if i % 4 == 0 {
                    (px >> 16u32) as u8
                } else if i % 4 == 1 {
                    (px >> 8u32) as u8
                } else if i % 4 == 2 {
                    px as u8
                } else {
                    0xFFu8
                }
            },
    )
}

/// Replace `out` with the RGBA bytes of `pixels`.
pub fn write_rgba8(pixels: &[u32], out: &mut Vec<u8>)
    ensures
        final(out)@ == rgba_bytes(pixels@),
{
    out.clear();
    let n = pixels.len();
    let mut i: usize = 0;
    while i < n
        invariant
            n == pixels@.len(),
            i <= n,
            out@ == rgba_bytes(pixels@.take(i as int)),
        decreases n - i,
    {
        let px = pixels[i];
        let ghost before = out@;
        out.push((px >> 16) as u8);
        out.push((px >> 8) as u8);
        out.push(px as u8);
        out.push(0xFF);
        proof {
            let s = pixels@.take(i + 1);
            assert forall|k: int| 0 <= k < 4 * (i + 1) implies #[trigger] out@[k] == rgba_bytes(s)[k] by {
                if k < 4 * i {
                    assert(k / 4 < i) by (nonlinear_arith)
                        requires
                            0 <= k < 4 * i,
                    ;
                    assert(s[k / 4] == pixels@.take(i as int)[k / 4]);
                } else {
                    assert(k / 4 == i) by (nonlinear_arith)
                        requires
                            4 * i <= k < 4 * (i + 1),
                    ;
                    assert(k % 4 == k - 4 * i) by (nonlinear_arith)
                        requires
                            4 * i <= k < 4 * (i + 1),
                    ;
                }
            }
            assert(out@ =~= rgba_bytes(s));
        }
        i += 1;
    }
    proof {
        assert(pixels@.take(n as int) =~= pixels@);
    }
}

/// Why the browser canvas host failed.
#[derive(Debug, Clone, PartialEq, Eq)]
pub enum WasmHostError {
    /// The canvas would not yield a 2D rendering context.
    NoContext,
    /// A canvas operation (building or blitting `ImageData`) failed.
    Canvas(String),
}

impl WasmHostError {
    /// The error as a sentence.
    pub fn message(&self) -> (m: String)
        ensures
            self is NoContext ==> m@ == "the canvas has no 2d rendering context"@,
            self matches WasmHostError::Canvas(why) ==> m@ == "canvas operation failed: "@ + why@,
    {
        match self {
            WasmHostError::NoContext => "the canvas has no 2d rendering context".to_owned(),
            WasmHostError::Canvas(why) => {
                let mut m = "canvas operation failed: ".to_owned();
                m.append(why.as_str());
                m
            },
        }
    }
}

} // verus!
