use vstd::prelude::*;

use crate::identity::AppIdentity;
use crate::identity::display_name;
use crate::identity::spec_display_name;
use crate::text::base_name;
use crate::text::base_start;
use crate::text::str_chars;
use vstd::string::StrSliceExecFns;
use vstd::string::StringExecFns;
use vstd::string::StringSliceAdditionalSpecFns;

verus! {

/// The character standing for decimal digit `d`.
pub open spec fn digit_char(d: nat) -> char
    recommends
        d < 10,
{
    ((48 + d) as u8) as char
}

/// The decimal rendering of `n`, most significant digit first, with no sign
/// and no leading zero except for `n == 0` itself.
pub open spec fn decimal_digits(n: nat) -> Seq<char>
    decreases n,
{
    if n < 10 {
        seq![digit_char(n)]
    } else {
        decimal_digits(n / 10).push(digit_char(n % 10))
    }
}

fn digit_str(d: u32) -> (s: &'static str)
    requires
        d < 10,
    ensures
        s@ == seq![digit_char(d as nat)],
{
    if d == 0 {
        proof {
            reveal_strlit("0");
            assert("0"@ =~= seq![digit_char(0)]);
        }
        "0"
    } else if d == 1 {
        proof {
            reveal_strlit("1");
            assert("1"@ =~= seq![digit_char(1)]);
        }
        "1"
    } else if d == 2 {
        proof {
            reveal_strlit("2");
            assert("2"@ =~= seq![digit_char(2)]);
        }
        "2"
    } else if d == 3 {
        proof {
            reveal_strlit("3");
            assert("3"@ =~= seq![digit_char(3)]);
        }
        "3"
    } else if d == 4 {
        proof {
            reveal_strlit("4");
            assert("4"@ =~= seq![digit_char(4)]);
        }
        "4"
    } else if d == 5 {
        proof {
            reveal_strlit("5");
            assert("5"@ =~= seq![digit_char(5)]);
        }
        "5"
    } else if d == 6 {
        proof {
            reveal_strlit("6");
            assert("6"@ =~= seq![digit_char(6)]);
        }
        "6"
    } else if d == 7 {
        proof {
            reveal_strlit("7");
            assert("7"@ =~= seq![digit_char(7)]);
        }
        "7"
    } else if d == 8 {
        proof {
            reveal_strlit("8");
            assert("8"@ =~= seq![digit_char(8)]);
        }
        "8"
    } else {
        proof {
            reveal_strlit("9");
            assert("9"@ =~= seq![digit_char(9)]);
        }
        "9"
    }
}

fn push_decimal(n: u32, out: &mut String)
    ensures
        final(out)@ == old(out)@ + decimal_digits(n as nat),
    decreases n,
{
    if n >= 10 {
        push_decimal(n / 10, out);
        out.append(digit_str(n % 10));
        proof {
            assert(out@ =~= old(out)@ + decimal_digits(n as nat));
        }
    } else {
        out.append(digit_str(n));
        proof {
            assert(out@ =~= old(out)@ + decimal_digits(n as nat));
        }
    }
}

/// Renders `n` in decimal.
pub fn decimal_string(n: u32) -> (r: String)
    ensures
        r@ == decimal_digits(n as nat),
{
    let mut r = String::new();
    push_decimal(n, &mut r);
    proof {
        assert(r@ =~= decimal_digits(n as nat));
    }
    r
}

/// The argument list for delivering an interactive interrupt (the signal a
/// Ctrl-C would send) to `pid` through the system's `kill` utility: the
/// signal selector first, then the decimal pid.
pub fn interrupt_args(pid: u32) -> (r: Vec<String>)
    ensures
        r@.len() == 2,
        r@[0]@ == "-2"@,
        r@[1]@ == decimal_digits(pid as nat),
{
    let mut r: Vec<String> = Vec::new();
    r.push(String::from_str("-2"));
    r.push(decimal_string(pid));
    r
}

/// The error text reported when the interrupt for `pid` could not be
/// delivered; `detail` is the operating system's own diagnostic.
pub open spec fn spec_stop_error(pid: u32, detail: Seq<char>) -> Seq<char> {
    "Failed to stop process "@ + decimal_digits(pid as nat) + ": "@ + detail
}

/// Builds the error text for a failed interrupt delivery.
pub fn stop_error_message(pid: u32, detail: &str) -> (r: String)
    ensures
        r@ == spec_stop_error(pid, detail@),
{
    let mut r = String::from_str("Failed to stop process ");
    push_decimal(pid, &mut r);
    r.append(": ");
    r.append(detail);
    proof {
        assert(r@ =~= spec_stop_error(pid, detail@));
    }
    r
}

/// Decides the outcome of the stop operation from the delivery report:
/// success exactly when the operating system accepted the interrupt, and
/// otherwise the descriptive error carrying the pid and the system's own
/// diagnostic. The target's later behaviour is not part of the verdict.
pub fn stop_result(pid: u32, delivered: bool, detail: &str) -> (r: Result<(), String>)
    ensures
        delivered <==> r is Ok,
        r matches Err(m) ==> m@ == spec_stop_error(pid, detail@),
{
    if delivered {
        Ok(())
    } else {
        Err(stop_error_message(pid, detail))
    }
}

/// The argument list that makes a freshly spawned supervisor CLI continue
/// the session named by `session_id`.
pub fn resume_args(session_id: &str) -> (r: Vec<String>)
    ensures
        r@.len() == 3,
        r@[0]@ == "--continue"@,
        r@[1]@ == "--session-id"@,
        r@[2]@ == session_id@,
{
    let mut r: Vec<String> = Vec::new();
    r.push(String::from_str("--continue"));
    r.push(String::from_str("--session-id"));
    r.push(String::from_str(session_id));
    r
}

/// The exact bytes the resume operation writes to the spawned process's
/// standard input: the prompt's UTF-8 bytes followed by a single newline.
pub fn resume_input_bytes(prompt: &str) -> (r: Vec<u8>)
    ensures
        r@ == prompt.spec_bytes().push(10u8),
{
    let b = prompt.as_bytes();
    let mut v = vstd::slice::slice_to_vec(b);
    v.push(10u8);
    v
}

/// How the open/focus operation is to act on a resolved identity: run the
/// dedicated command-line launcher first where one exists (only Zed has
/// one), and fall back to — or start from — generic activation under the
/// application's display name.
pub struct OpenPlan {
    /// Argument for the Zed launcher, present exactly when the identity is
    /// Zed; its failure must fall back to generic activation.
    pub zed_cli: Option<String>,
    /// Display name for the generic "activate application" fallback.
    pub activate: String,
}

/// Lays out how to focus the application `id` on the project at
/// `project_path`.
pub fn open_plan(id: AppIdentity, project_path: &str) -> (r: OpenPlan)
    ensures
        id == AppIdentity::Zed ==> (r.zed_cli matches Some(p) && p@ == project_path@),
        id != AppIdentity::Zed ==> r.zed_cli is None,
        r.activate@ == spec_display_name(id),
{
    let zed_cli = match id {
        AppIdentity::Zed => Some(String::from_str(project_path)),
        _ => None,
    };
    OpenPlan { zed_cli, activate: String::from_str(display_name(id)) }
}

/// The filesystem path of Zed's bundled command-line launcher.
pub fn zed_cli_program() -> (r: &'static str)
    ensures
        r@ == "/Applications/Zed.app/Contents/MacOS/cli"@,
{
    "/Applications/Zed.app/Contents/MacOS/cli"
}

/// The scripting command that asks the window manager to bring the
/// application called `name` to the foreground.
pub open spec fn spec_activation_script(name: Seq<char>) -> Seq<char> {
    "tell application \""@ + name + "\" to activate"@
}

/// Builds the activation command for the application called `name`.
pub fn activation_script(name: &str) -> (r: String)
    ensures
        r@ == spec_activation_script(name@),
{
    let mut r = String::from_str("tell application \"");
    r.append(name);
    r.append("\" to activate");
    proof {
        assert(r@ =~= spec_activation_script(name@));
    }
    r
}

/// The display name the open operation derives from a project path: its
/// final path segment, empty when the path ends in a separator.
pub fn project_display_name(path: &str) -> (r: String)
    ensures
        r@ == base_name(path@),
{
    let chars = str_chars(path);
    let start = base_start(&chars);
    let n: usize = path.unicode_len();
    let segment = path.substring_char(start, n);
    segment.to_owned()
}

} // verus!
