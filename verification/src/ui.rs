//! The lines that the terminal shows for warnings.
use owo_colors::OwoColorize;
use vstd::prelude::*;

verus! {

/// The sign in front of a warning.
pub const WARNING_SIGN: &'static str = "\u{26a0}";

/// The ANSI sequence that turns the foreground yellow.
pub const YELLOW_ON: &'static str = "\x1b[33m";

/// The ANSI sequence that restores the default foreground.
pub const FOREGROUND_OFF: &'static str = "\x1b[39m";

/// `owo_colors::OwoColorize::yellow`, displayed: the text between the ANSI
/// codes that turn the foreground yellow and back to the default, as the
/// crate's `FgColorDisplay` writes it.
#[verifier::external_body]
fn yellow(text: &str) -> (r: String)
    ensures
        r@ == YELLOW_ON@ + text@ + FOREGROUND_OFF@,
{
    format!("{}", text.yellow())
}

/// The line shown for a warning: two spaces, the sign (yellow on a colour
/// terminal), a space and the message.
pub open spec fn spec_warning_line(msg: Seq<char>, color: bool) -> Seq<char> {
    let sign = if color {
        YELLOW_ON@ + WARNING_SIGN@ + FOREGROUND_OFF@
    } else {
        WARNING_SIGN@
    };
    "  "@ + sign + " "@ + msg
}

/// The line to show for a warning, or nothing in quiet mode.
pub fn warning(msg: &str, color: bool, quiet: bool) -> (r: Option<String>)
    ensures
        quiet ==> r is None,
        !quiet ==> (r matches Some(line) && line@ == spec_warning_line(msg@, color)),
{
    if quiet {
        return None;
    }
    let mut out: Vec<char> = Vec::new();
    crate::text::extend_str(&mut out, "  ");
    if color {
        let sign = yellow(WARNING_SIGN);
        crate::text::extend_str(&mut out, sign.as_str());
    } else {
        crate::text::extend_str(&mut out, WARNING_SIGN);
    }
    crate::text::extend_str(&mut out, " ");
    crate::text::extend_str(&mut out, msg);
    Some(crate::text::string_of_all(&out))
}

} // verus!
