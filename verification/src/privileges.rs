//! Administrator rights for editing `/etc/hosts`: the native macOS prompts
//! (AppleScript through `osascript`), what their outcomes mean, and the
//! steps of the first-launch request.
use vstd::prelude::*;

use crate::config::{app_dir, config_file};
use crate::text::{chars_of, contains, owned, path_join, push_str, string_of};

verus! {

/// The flag file that records that administrator rights were granted.
pub const ADMIN_STATE_FILE: &'static str = ".admin_granted";

/// What the flag file holds.
pub const GRANTED_CONTENT: &'static str = "granted\n";

/// The root command that checks access to `/etc/hosts`.
pub const VERIFY_ADMIN_COMMAND: &'static str = "test -f /etc/hosts && test -r /etc/hosts";

/// The dialog that explains why administrator rights are needed.
pub const EXPLAIN_SCRIPT: &'static str = "display dialog \"AInv Helper требует права администратора для изменения файла /etc/hosts.\n\nНажмите «Продолжить», затем введите пароль в системном диалоге.\" buttons {\"Отмена\", \"Продолжить\"} default button 2 with title \"AInv Helper\" with icon caution";

/// Why administrator rights are not available.
#[derive(Debug, Clone)]
pub enum PrivilegeError {
    /// The user dismissed the explanation dialog.
    Cancelled,
    /// The user refused the password prompt.
    Denied,
    /// The privileged command failed; its standard error.
    Failed(String),
}

impl PrivilegeError {
    /// The error's message.
    pub fn message(&self) -> (r: String)
        ensures
            r@ == match self {
                PrivilegeError::Cancelled => "administrator access setup cancelled"@,
                PrivilegeError::Denied => "administrator access denied by user"@,
                PrivilegeError::Failed(e) => "privileged command failed: "@ + e@,
            },
    {
        match self {
            PrivilegeError::Cancelled => owned("administrator access setup cancelled"),
            PrivilegeError::Denied => owned("administrator access denied by user"),
            PrivilegeError::Failed(e) => {
                let mut out: Vec<char> = Vec::new();
                push_str(&mut out, "privileged command failed: ");
                push_str(&mut out, e.as_str());
                string_of(&out)
            },
        }
    }
}

/// The flag file's path.
pub fn state_path() -> (r: String)
    ensures
        exists|base: Option<Seq<char>>| r@ == path_join(app_dir(base), ADMIN_STATE_FILE@),
{
    config_file(ADMIN_STATE_FILE)
}

/// `s` with each backslash doubled and each double quote escaped by a
/// backslash.
pub open spec fn applescript_escaped(s: Seq<char>) -> Seq<char>
    decreases s.len(),
{
    if s.len() == 0 {
        seq![]
    } else if s.last() == '\\' {
        applescript_escaped(s.drop_last()) + seq!['\\', '\\']
    } else if s.last() == '"' {
        applescript_escaped(s.drop_last()) + seq!['\\', '"']
    } else {
        applescript_escaped(s.drop_last()).push(s.last())
    }
}

/// `s` as an AppleScript string literal.
pub open spec fn applescript_literal(s: Seq<char>) -> Seq<char> {
    seq!['"'] + applescript_escaped(s) + seq!['"']
}

/// What an AppleScript string body reads as, left to right: a backslash
/// takes the next character literally; `None` where a double quote stands
/// unescaped or a backslash ends the body.
pub open spec fn applescript_decoded(s: Seq<char>) -> Option<Seq<char>>
    decreases s.len(),
{
    if s.len() == 0 {
        Some(seq![])
    } else if s[0] == '"' {
        None
    } else if s[0] == '\\' {
        if s.len() < 2 {
            None
        } else {
            match applescript_decoded(s.skip(2)) {
                Some(r) => Some(seq![s[1]] + r),
                None => None,
            }
        }
    } else {
        match applescript_decoded(s.skip(1)) {
            Some(r) => Some(seq![s[0]] + r),
            None => None,
        }
    }
}

proof fn lemma_escaped_concat(a: Seq<char>, b: Seq<char>)
    ensures
        applescript_escaped(a + b) == applescript_escaped(a) + applescript_escaped(b),
    decreases b.len(),
{
    if b.len() == 0 {
        assert(a + b =~= a);
        assert(applescript_escaped(a) + applescript_escaped(b) =~= applescript_escaped(a));
    } else {
        lemma_escaped_concat(a, b.drop_last());
        assert((a + b).drop_last() =~= a + b.drop_last());
        assert((a + b).last() == b.last());
        let t = applescript_escaped(a + b.drop_last());
        assert(applescript_escaped(a) + applescript_escaped(b) =~= if b.last() == '\\' {
            t + seq!['\\', '\\']
        } else if b.last() == '"' {
            t + seq!['\\', '"']
        } else {
            t.push(b.last())
        });
    }
}

proof fn lemma_escaped_decodes(v: Seq<char>)
    ensures
        applescript_decoded(applescript_escaped(v)) == Some(v),
    decreases v.len(),
{
    if v.len() == 0 {
        assert(applescript_escaped(v) =~= seq![]);
    } else {
        let c = v[0];
        let rest = v.skip(1);
        assert(v =~= seq![c] + rest);
        lemma_escaped_concat(seq![c], rest);
        lemma_escaped_decodes(rest);
        let one = seq![c];
        assert(one.drop_last() =~= Seq::<char>::empty());
        assert(applescript_escaped(Seq::<char>::empty()) =~= seq![]);
        let e = applescript_escaped(rest);
        let s = applescript_escaped(v);
        if c == '\\' {
            assert(applescript_escaped(one) =~= seq!['\\', '\\']);
            assert(s.skip(2) =~= e);
            assert(seq![s[1]] + rest =~= v);
        } else if c == '"' {
            assert(applescript_escaped(one) =~= seq!['\\', '"']);
            assert(s.skip(2) =~= e);
            assert(seq![s[1]] + rest =~= v);
        } else {
            assert(applescript_escaped(one) =~= seq![c]);
            assert(s.skip(1) =~= e);
            assert(seq![s[0]] + rest =~= v);
        }
    }
}

/// The quoted form reads back as the value: it starts and ends with a
/// double quote, and its body, read left to right with each backslash
/// taking the next character literally, holds no unescaped double quote
/// and gives back exactly `value`.
pub proof fn law_applescript_literal_decodes(value: Seq<char>)
    ensures
        applescript_literal(value).len() >= 2,
        applescript_literal(value)[0] == '"',
        applescript_literal(value).last() == '"',
        applescript_decoded(
            applescript_literal(value).subrange(1, applescript_literal(value).len() - 1),
        ) == Some(value),
{
    let l = applescript_literal(value);
    assert(l.subrange(1, l.len() - 1) =~= applescript_escaped(value));
    lemma_escaped_decodes(value);
}

/// Quotes a string for AppleScript: backslashes and double quotes are
/// escaped and the whole is put in double quotes.
pub fn applescript_quote(value: &str) -> (r: String)
    ensures
        r@ == applescript_literal(value@),
{
    let v = chars_of(value);
    let mut out: Vec<char> = Vec::new();
    out.push('"');
    let mut k: usize = 0;
    while k < v.len()
        invariant
            k <= v@.len(),
            out@ == seq!['"'] + applescript_escaped(v@.take(k as int)),
        decreases v@.len() - k,
    {
        assert(v@.take(k + 1).drop_last() =~= v@.take(k as int));
        assert(v@.take(k + 1).last() == v@[k as int]);
        if v[k] == '\\' {
            out.push('\\');
            out.push('\\');
        } else if v[k] == '"' {
            out.push('\\');
            out.push('"');
        } else {
            out.push(v[k]);
        }
        assert(out@ =~= seq!['"'] + applescript_escaped(v@.take(k + 1)));
        k = k + 1;
    }
    assert(v@.take(v@.len() as int) =~= v@);
    out.push('"');
    string_of(&out)
}

/// The AppleScript that runs `shell_command` as root after the system
/// password prompt.
pub open spec fn admin_script_text(shell_command: Seq<char>) -> Seq<char> {
    "do shell script "@ + applescript_literal(shell_command) + " with administrator privileges"@
}

/// The AppleScript that runs `shell_command` with administrator privileges.
pub fn admin_script(shell_command: &str) -> (r: String)
    ensures
        r@ == admin_script_text(shell_command@),
{
    let mut out: Vec<char> = Vec::new();
    push_str(&mut out, "do shell script ");
    let q = applescript_quote(shell_command);
    push_str(&mut out, q.as_str());
    push_str(&mut out, " with administrator privileges");
    string_of(&out)
}

/// The outcome of the privileged `osascript` run: success, a refusal when
/// its standard error reports the user's cancellation (`User canceled` or
/// error `-128`), or else a failure carrying the standard error.
pub fn admin_outcome(success: bool, stderr: &str) -> (r: Result<(), PrivilegeError>)
    ensures
        success ==> r is Ok,
        !success && (contains(stderr@, "User canceled"@) || contains(stderr@, "-128"@)) ==> (r matches Err(
            e,
        ) && e is Denied),
        !success && !(contains(stderr@, "User canceled"@) || contains(stderr@, "-128"@)) ==> (r matches Err(
            PrivilegeError::Failed(m),
        ) && m@ == stderr@),
{
    if success {
        return Ok(());
    }
    let v = chars_of(stderr);
    let a = chars_of("User canceled");
    let b = chars_of("-128");
    if crate::hosts::contains_chars(&v, &a) || crate::hosts::contains_chars(&v, &b) {
        return Err(PrivilegeError::Denied);
    }
    Err(PrivilegeError::Failed(owned(stderr)))
}

/// The outcome of the explanation dialog: going on unless it was dismissed.
pub fn explain_outcome(success: bool) -> (r: Result<(), PrivilegeError>)
    ensures
        success <==> r is Ok,
        r matches Err(e) ==> e is Cancelled,
{
    if success {
        Ok(())
    } else {
        Err(PrivilegeError::Cancelled)
    }
}

/// One step of requesting administrator rights.
#[derive(Debug, Clone, Copy, PartialEq, Eq, Structural)]
pub enum AdminStep {
    /// Show the explanation dialog.
    Explain,
    /// Run the access check as root.
    Verify,
    /// Write the flag file.
    MarkGranted,
}

/// The full request: explain, verify access as root, record the grant.
pub open spec fn request_steps() -> Seq<AdminStep> {
    seq![AdminStep::Explain, AdminStep::Verify, AdminStep::MarkGranted]
}

fn full_request() -> (r: Vec<AdminStep>)
    ensures
        r@ == request_steps(),
{
    let mut steps: Vec<AdminStep> = Vec::new();
    steps.push(AdminStep::Explain);
    steps.push(AdminStep::Verify);
    steps.push(AdminStep::MarkGranted);
    assert(steps@ =~= request_steps());
    steps
}

/// The steps at launch, run in order until one fails (the application does
/// not start then): none when the rights were granted before, else the full
/// request.
pub fn ensure_on_first_launch(granted: bool) -> (r: Vec<AdminStep>)
    ensures
        granted ==> r@.len() == 0,
        !granted ==> r@ == request_steps(),
{
    if granted {
        Vec::new()
    } else {
        full_request()
    }
}

/// The steps of a repeated request from the menu: always the full request.
pub fn request_again() -> (r: Vec<AdminStep>)
    ensures
        r@ == request_steps(),
{
    full_request()
}

} // verus!
