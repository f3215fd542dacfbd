//! The global hotkey and the self-heal used when it cannot be claimed.
use vstd::prelude::*;

use crate::error::{is_other, Error};
use crate::ffmpeg::{push_text, texts};
use crate::text::decimal;

verus! {

broadcast use vstd::string::group_string_axioms;

/// The chord that starts and stops a broadcast.
pub const HOTKEY: &'static str = "Alt+X";

/// Arguments of `taskkill` that force-kill every process named `image` except the one
/// with id `own_pid`.
pub fn taskkill_args(image: &str, own_pid: u32) -> (r: Vec<String>)
    ensures
        texts(r@) == seq!["/F"@, "/IM"@, image@, "/FI"@, "PID ne "@ + decimal(own_pid as nat)],
{
    let mut filter = "PID ne ".to_string();
    let pid = crate::text::decimal_string(own_pid as u64);
    filter.append(pid.as_str());
    let mut r: Vec<String> = Vec::new();
    push_text(&mut r, "/F");
    push_text(&mut r, "/IM");
    push_text(&mut r, image);
    push_text(&mut r, "/FI");
    push_text(&mut r, filter.as_str());
    proof {
        assert(texts(r@) =~= seq!["/F"@, "/IM"@, image@, "/FI"@, "PID ne "@ + decimal(own_pid as nat)]);
    }
    r
}

/// The error when the hotkey still cannot be claimed after stale processes were
/// killed: `detail` is what the second registration reported.
pub fn registration_failed(detail: &str) -> (e: Error)
    ensures
        is_other(e, "register hotkey '"@ + HOTKEY@ + "': "@ + detail@),
{
    let mut m = "register hotkey '".to_string();
    m.append(HOTKEY);
    m.append("': ");
    m.append(detail);
    crate::error::other(m.as_str())
}

} // verus!
