use vstd::prelude::*;
use crate::model::HostsError;
use crate::paths::Platform;
use crate::text::{is_ws, push_char, chars_of};

verus! {

/// `s` without its leading white space.
pub open spec fn trim_start(s: Seq<char>) -> Seq<char>
    decreases s.len(),
{
    if s.len() > 0 && is_ws(s[0]) {
        trim_start(s.drop_first())
    } else {
        s
    }
}

/// `s` without its trailing white space.
pub open spec fn trim_end(s: Seq<char>) -> Seq<char>
    decreases s.len(),
{
    if s.len() > 0 && is_ws(s.last()) {
        trim_end(s.drop_last())
    } else {
        s
    }
}

pub open spec fn trimmed(s: Seq<char>) -> Seq<char> {
    trim_end(trim_start(s))
}

/// `s` without white space at either end.
pub fn trim(s: &str) -> (r: String)
    ensures
        r@ == trimmed(s@),
{
    let cs = chars_of(s);
    let mut lo: usize = 0;
    assert(cs@.skip(0) =~= cs@);
    while lo < cs.len() && crate::text::is_whitespace(cs[lo])
        invariant
            lo <= cs@.len(),
            trim_start(cs@.skip(lo as int)) == trim_start(cs@),
        decreases cs.len() - lo,
    {
        assert(cs@.skip(lo as int).drop_first() =~= cs@.skip(lo + 1));
        lo = lo + 1;
    }
    assert(trim_start(cs@) == cs@.skip(lo as int)) by {
        assert(cs@.skip(0) =~= cs@);
    }
    let mut hi: usize = cs.len();
    assert(cs@.subrange(lo as int, hi as int) =~= cs@.skip(lo as int));
    while hi > lo && crate::text::is_whitespace(cs[hi - 1])
        invariant
            lo <= hi <= cs@.len(),
            trim_end(cs@.subrange(lo as int, hi as int)) == trimmed(s@),
            cs@ == s@,
            trim_start(cs@) == cs@.skip(lo as int),
        decreases hi,
    {
        assert(cs@.subrange(lo as int, hi as int).drop_last() =~= cs@.subrange(
            lo as int,
            hi - 1,
        ));
        hi = hi - 1;
    }
    let mut r = String::new();
    let mut i: usize = lo;
    while i < hi
        invariant
            lo <= i <= hi <= cs@.len(),
            r@ == cs@.subrange(lo as int, i as int),
        decreases hi - i,
    {
        assert(cs@.subrange(lo as int, i + 1) =~= cs@.subrange(lo as int, i as int).push(
            cs@[i as int],
        ));
        push_char(&mut r, cs[i]);
        i = i + 1;
    }
    r
}

pub open spec fn dark() -> Seq<char> {
    "dark"@
}

pub open spec fn light() -> Seq<char> {
    "light"@
}

/// The theme that the platform's query reported: on macOS `dark` where the
/// query succeeded and printed `Dark`; on Windows `dark` where it succeeded
/// and printed `dark`; `light` in every other case.
pub open spec fn theme_of(platform: Platform, success: bool, stdout: Seq<char>) -> Seq<char> {
    match platform {
        Platform::MacOs => if success && trimmed(stdout) == "Dark"@ {
            dark()
        } else {
            light()
        },
        Platform::Windows => if success && trimmed(stdout) == "dark"@ {
            dark()
        } else {
            light()
        },
        _ => light(),
    }
}

/// The system theme from the outcome of the platform's theme query.
pub fn theme_from_output(platform: Platform, success: bool, stdout: &str) -> (r: String)
    ensures
        r@ == theme_of(platform, success, stdout@),
{
    match platform {
        Platform::MacOs => {
            let t = trim(stdout);
            let dark_word = String::from_str("Dark");
            if success && t == dark_word {
                String::from_str("dark")
            } else {
                String::from_str("light")
            }
        },
        Platform::Windows => {
            let t = trim(stdout);
            let dark_word = String::from_str("dark");
            if success && t == dark_word {
                String::from_str("dark")
            } else {
                String::from_str("light")
            }
        },
        _ => String::from_str("light"),
    }
}

/// `s` with each backslash doubled.
pub open spec fn doubled_backslashes(s: Seq<char>) -> Seq<char>
    decreases s.len(),
{
    if s.len() == 0 {
        seq![]
    } else {
        doubled_backslashes(s.drop_last()) + if s.last() == '\\' {
            seq!['\\', '\\']
        } else {
            seq![s.last()]
        }
    }
}

/// Doubles each backslash of a path, as a PowerShell string wants it.
pub fn double_backslashes(s: &str) -> (r: String)
    ensures
        r@ == doubled_backslashes(s@),
{
    let cs = chars_of(s);
    let mut r = String::new();
    for i in 0..cs.len()
        invariant
            r@ == doubled_backslashes(cs@.take(i as int)),
    {
        assert(cs@.take(i + 1).drop_last() =~= cs@.take(i as int));
        let c = cs[i];
        push_char(&mut r, c);
        if c == '\\' {
            push_char(&mut r, c);
        }
        assert(r@ =~= doubled_backslashes(cs@.take(i + 1)));
    }
    assert(cs@.take(cs.len() as int) =~= cs@);
    r
}

/// A program to run, with its arguments, that copies the staged file over the
/// protected one with elevated rights.
pub struct ElevationCommand {
    pub program: String,
    pub args: Vec<String>,
}

/// The AppleScript that copies `staged` over `target` as administrator and
/// makes it world-readable.
pub open spec fn mac_script(staged: Seq<char>, target: Seq<char>) -> Seq<char> {
    "do shell script \"cat '"@ + staged + "' > '"@ + target + "' && chmod 644 '"@ + target
        + "'\" with administrator privileges"@
}

/// The PowerShell line that copies `staged` over `target` in an elevated shell.
pub open spec fn windows_script(staged: Seq<char>, target: Seq<char>) -> Seq<char> {
    "Start-Process -FilePath 'cmd.exe' -ArgumentList '/c copy /Y \""@ + doubled_backslashes(
        staged,
    ) + "\" \""@ + doubled_backslashes(target) + "\"' -Verb RunAs -Wait"@
}

/// The elevated copy for the platform: `osascript -e` on macOS, `powershell
/// -Command` on Windows, none elsewhere.
pub fn elevation_command(platform: Platform, staged: &str, target: &str) -> (r: Option<
    ElevationCommand,
>)
    ensures
        platform is MacOs ==> (r matches Some(c) && c.program@ == "osascript"@ && c.args@.len()
            == 2 && c.args@[0]@ == "-e"@ && c.args@[1]@ == mac_script(staged@, target@)),
        platform is Windows ==> (r matches Some(c) && c.program@ == "powershell"@
            && c.args@.len() == 2 && c.args@[0]@ == "-Command"@ && c.args@[1]@ == windows_script(
            staged@,
            target@,
        )),
        (platform is Linux || platform is Other) ==> r is None,
{
    match platform {
        Platform::MacOs => {
            let mut script = String::from_str("do shell script \"cat '");
            script.append(staged);
            script.append("' > '");
            script.append(target);
            script.append("' && chmod 644 '");
            script.append(target);
            script.append("'\" with administrator privileges");
            let mut args: Vec<String> = Vec::new();
            args.push(String::from_str("-e"));
            args.push(script);
            Some(ElevationCommand { program: String::from_str("osascript"), args })
        },
        Platform::Windows => {
            let s = double_backslashes(staged);
            let t = double_backslashes(target);
            let mut script = String::from_str(
                "Start-Process -FilePath 'cmd.exe' -ArgumentList '/c copy /Y \"",
            );
            script.append(s.as_str());
            script.append("\" \"");
            script.append(t.as_str());
            script.append("\"' -Verb RunAs -Wait");
            let mut args: Vec<String> = Vec::new();
            args.push(String::from_str("-Command"));
            args.push(script);
            Some(ElevationCommand { program: String::from_str("powershell"), args })
        },
        _ => None,
    }
}

pub open spec fn elevation_failure_prefix() -> Seq<char> {
    "Failed to elevate privileges: "@
}

/// The permission-denied error for an elevated copy that reported failure.
pub fn elevation_failure(stderr: &str) -> (r: HostsError)
    ensures
        r matches HostsError::PermissionDenied(m) && m@ == elevation_failure_prefix() + stderr@,
{
    let mut m = String::from_str("Failed to elevate privileges: ");
    m.append(stderr);
    HostsError::PermissionDenied(m)
}

} // verus!
