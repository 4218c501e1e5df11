//! The Android emulator's system HTTP proxy, switched through `adb`
//! (`settings put/delete global http_proxy`, with host and port).
//!
//! The library decides which `adb` commands run, in what order, and what
//! their output means; running `adb` is left to the caller, which hands the
//! outputs back.
use vstd::prelude::*;

use crate::config::user_home_dir;
use crate::text::{
    after_first_word, chars_of, decimal, digit_char, eq_chars, find, find_in, first_word,
    first_word_at, is_digit, is_ws, join_spaced, join_spaced_chars, lemma_find, nl, owned,
    parse_u16, parse_unsigned, path_join, push_decimal, push_range, push_str, str_eq, string_of,
    trim, trim_end_at, trim_start, trim_start_at, views,
};

verus! {

/// The host that the emulator sees as the Mac running it.
pub const DEFAULT_ANDROID_PROXY_HOST: &'static str = "10.0.2.2";

/// The port of the local proxy.
pub const DEFAULT_LISTEN_PORT: u16 = 9140;

/// One `adb` invocation. A checked command stops the plan when `adb` cannot
/// be run or exits with a non-zero status; an unchecked one is run and its
/// outcome ignored.
pub struct AdbCommand {
    pub args: Vec<String>,
    pub checked: bool,
}

/// A sequence of `adb` invocations, run in order after checking (when
/// `require_device` is set) that a device is connected.
pub struct AdbPlan {
    pub require_device: bool,
    pub commands: Vec<AdbCommand>,
}

/// Whether a plan goes on after one of its commands has ended.
#[derive(Debug, Clone, Copy, PartialEq, Eq, Structural)]
pub enum PlanStep {
    /// Run the next command.
    Continue,
    /// Stop the plan with the command's error.
    Stop,
}

/// What a plan does after a command ends (`ok` when it succeeded): the
/// failure of a checked command stops the plan; an unchecked command's
/// failure is ignored.
pub fn plan_next(checked: bool, ok: bool) -> (r: PlanStep)
    ensures
        r == (if ok || !checked {
            PlanStep::Continue
        } else {
            PlanStep::Stop
        }),
{
    if ok || !checked {
        PlanStep::Continue
    } else {
        PlanStep::Stop
    }
}

/// What went wrong while talking to `adb`.
#[derive(Debug, Clone)]
pub enum AndroidError {
    /// `adb devices` lists no device in the `device` state.
    NoDevice,
    /// No `adb` executable was found.
    AdbNotFound,
    /// `adb` could not be started.
    Spawn { args: String, reason: String },
    /// A checked command exited with a non-zero status.
    CommandFailed { args: String, output: String },
}

impl AndroidError {
    /// The error's message.
    pub fn message(&self) -> (r: String)
        ensures
            r@ == match self {
                AndroidError::NoDevice => "no Android emulator/device connected (adb devices)"@,
                AndroidError::AdbNotFound => "adb not found — install android-platform-tools or set AIO_PROXY_ADB"@,
                AndroidError::Spawn { args, reason } => "run adb "@ + args@ + ": "@ + reason@,
                AndroidError::CommandFailed { args, output } => "adb "@ + args@ + " failed: "@
                    + output@,
            },
    {
        match self {
            AndroidError::NoDevice => owned("no Android emulator/device connected (adb devices)"),
            AndroidError::AdbNotFound => owned(
                "adb not found — install android-platform-tools or set AIO_PROXY_ADB",
            ),
            AndroidError::Spawn { args, reason } => {
                let mut out: Vec<char> = Vec::new();
                push_str(&mut out, "run adb ");
                push_str(&mut out, args.as_str());
                push_str(&mut out, ": ");
                push_str(&mut out, reason.as_str());
                string_of(&out)
            },
            AndroidError::CommandFailed { args, output } => {
                let mut out: Vec<char> = Vec::new();
                push_str(&mut out, "adb ");
                push_str(&mut out, args.as_str());
                push_str(&mut out, " failed: ");
                push_str(&mut out, output.as_str());
                string_of(&out)
            },
        }
    }
}

// ---------------------------------------------------------------------------
// Proxy endpoint and proxy state
// ---------------------------------------------------------------------------

/// The proxy host: the `AIO_PROXY_ANDROID_HOST` value when set and
/// non-empty, else the default host.
pub open spec fn endpoint_host(host_var: Option<Seq<char>>) -> Seq<char> {
    match host_var {
        Some(h) => if h.len() > 0 {
            h
        } else {
            DEFAULT_ANDROID_PROXY_HOST@
        },
        None => DEFAULT_ANDROID_PROXY_HOST@,
    }
}

/// The proxy port: the `AIO_PROXY_PORT` value when it reads as a `u16`,
/// else the default port.
pub open spec fn endpoint_port(port_var: Option<Seq<char>>) -> u16 {
    match port_var {
        Some(p) => match parse_unsigned(p, 65535) {
            Some(n) => n as u16,
            None => DEFAULT_LISTEN_PORT,
        },
        None => DEFAULT_LISTEN_PORT,
    }
}

/// The proxy endpoint, from the values of `AIO_PROXY_ANDROID_HOST` and
/// `AIO_PROXY_PORT` (`None` where a variable is unset or not Unicode).
pub fn proxy_endpoint(host_var: Option<&str>, port_var: Option<&str>) -> (r: (String, u16))
    ensures
        r.0@ == endpoint_host(
            match host_var {
                Some(h) => Some(h@),
                None => None,
            },
        ),
        r.1 == endpoint_port(
            match port_var {
                Some(p) => Some(p@),
                None => None,
            },
        ),
{
    let host = match host_var {
        Some(h) => if h.unicode_len() > 0 {
            owned(h)
        } else {
            owned(DEFAULT_ANDROID_PROXY_HOST)
        },
        None => owned(DEFAULT_ANDROID_PROXY_HOST),
    };
    let port = match port_var {
        Some(p) => match parse_u16(p) {
            Some(n) => n,
            None => DEFAULT_LISTEN_PORT,
        },
        None => DEFAULT_LISTEN_PORT,
    };
    (host, port)
}

pub open spec fn ascii_lower(c: char) -> char {
    if 'A' <= c && c <= 'Z' {
        ((c as u32) + 32) as char
    } else {
        c
    }
}

/// `a` equals `b` when ASCII letters are compared without case
/// (`str::eq_ignore_ascii_case`).
pub open spec fn eq_ignore_ascii_case(a: Seq<char>, b: Seq<char>) -> bool {
    a.len() == b.len() && forall|i: int| 0 <= i < a.len() ==> ascii_lower(#[trigger] a[i])
        == ascii_lower(b[i])
}

/// A setting value switches the proxy on unless, trimmed, it is empty,
/// `null` in any ASCII case, `:0` or `null:null`.
pub open spec fn proxy_value_active(value: Seq<char>) -> bool {
    let t = trim(value);
    !(t.len() == 0 || eq_ignore_ascii_case(t, "null"@) || t == ":0"@ || t == "null:null"@)
}

fn lower(c: char) -> (r: char)
    ensures
        r == ascii_lower(c),
{
    if 'A' <= c && c <= 'Z' {
        ((c as u8) + 32) as char
    } else {
        c
    }
}

fn eq_ignore_case_chars(a: &Vec<char>, b: &Vec<char>) -> (r: bool)
    ensures
        r == eq_ignore_ascii_case(a@, b@),
{
    if a.len() != b.len() {
        return false;
    }
    let mut i: usize = 0;
    while i < a.len()
        invariant
            a@.len() == b@.len(),
            i <= a@.len(),
            forall|j: int| 0 <= j < i ==> ascii_lower(#[trigger] a@[j]) == ascii_lower(b@[j]),
        decreases a@.len() - i,
    {
        if lower(a[i]) != lower(b[i]) {
            return false;
        }
        i = i + 1;
    }
    true
}

/// The trimmed text of `v`.
fn trimmed(v: &Vec<char>) -> (r: Vec<char>)
    ensures
        r@ == trim(v@),
{
    let a = trim_start_at(v, 0, v.len());
    let b = trim_end_at(v, a, v.len());
    assert(v@.subrange(0, v@.len() as int) =~= v@);
    let mut out: Vec<char> = Vec::new();
    push_range(&mut out, v, a, b);
    out
}

/// Whether a value of the `http_proxy` setting means that the proxy is on.
pub fn is_proxy_value_active(value: &str) -> (r: bool)
    ensures
        r == proxy_value_active(value@),
{
    let v = chars_of(value);
    let t = trimmed(&v);
    if t.len() == 0 {
        return false;
    }
    let null = chars_of("null");
    let zero = chars_of(":0");
    let both = chars_of("null:null");
    !(eq_ignore_case_chars(&t, &null) || eq_chars(&t, &zero) || eq_chars(&t, &both))
}

/// Whether the proxy is on, given the output of the `http_proxy` setting
/// read (`None` when `adb` could not be run, which counts as off).
pub fn is_proxy_active(setting_output: Option<&str>) -> (r: bool)
    ensures
        r == match setting_output {
            Some(o) => proxy_value_active(trim(o@)),
            None => false,
        },
{
    match setting_output {
        Some(o) => {
            let v = chars_of(o);
            let t = trimmed(&v);
            let s = string_of(&t);
            is_proxy_value_active(s.as_str())
        },
        None => false,
    }
}

// ---------------------------------------------------------------------------
// Commands
// ---------------------------------------------------------------------------

pub open spec fn settings_args(verb: Seq<char>, key: Seq<char>) -> Seq<Seq<char>> {
    seq!["shell"@, "settings"@, verb, "global"@, key]
}

fn settings_command(verb: &str, key: &str, value: Option<&str>) -> (r: Vec<String>)
    ensures
        views(r@) == match value {
            Some(v) => settings_args(verb@, key@).push(v@),
            None => settings_args(verb@, key@),
        },
{
    let mut args: Vec<String> = Vec::new();
    args.push(owned("shell"));
    args.push(owned("settings"));
    args.push(owned(verb));
    args.push(owned("global"));
    args.push(owned(key));
    match value {
        Some(v) => args.push(owned(v)),
        None => {},
    }
    assert(views(args@) =~= match value {
        Some(v) => settings_args(verb@, key@).push(v@),
        None => settings_args(verb@, key@),
    });
    args
}

/// The command that reads a global setting; its failure status is ignored
/// and its output is the setting's value.
pub fn read_setting(name: &str) -> (r: AdbCommand)
    ensures
        views(r.args@) == settings_args("get"@, name@),
        !r.checked,
{
    AdbCommand { args: settings_command("get", name, None), checked: false }
}

/// `host:port`.
pub open spec fn host_port(host: Seq<char>, port: u16) -> Seq<char> {
    host + seq![':'] + decimal(port as nat)
}

/// The plan that switches the proxy on to `host:port`: with a device
/// connected, put `http_proxy`, `global_http_proxy_host` and
/// `global_http_proxy_port`, each checked.
pub fn set_proxy(host: &str, port: u16) -> (r: AdbPlan)
    ensures
        r.require_device,
        r.commands@.len() == 3,
        forall|i: int| 0 <= i < 3 ==> (#[trigger] r.commands@[i]).checked,
        views(r.commands@[0].args@) == settings_args("put"@, "http_proxy"@).push(
            host_port(host@, port),
        ),
        views(r.commands@[1].args@) == settings_args("put"@, "global_http_proxy_host"@).push(
            host@,
        ),
        views(r.commands@[2].args@) == settings_args("put"@, "global_http_proxy_port"@).push(
            decimal(port as nat),
        ),
{
    let mut hp: Vec<char> = Vec::new();
    push_str(&mut hp, host);
    hp.push(':');
    push_decimal(&mut hp, port as u32);
    assert(hp@ =~= host_port(host@, port));
    let hp = string_of(&hp);
    let mut ps: Vec<char> = Vec::new();
    push_decimal(&mut ps, port as u32);
    let ps = string_of(&ps);
    let mut commands: Vec<AdbCommand> = Vec::new();
    commands.push(
        AdbCommand { args: settings_command("put", "http_proxy", Some(hp.as_str())), checked: true },
    );
    commands.push(
        AdbCommand {
            args: settings_command("put", "global_http_proxy_host", Some(host)),
            checked: true,
        },
    );
    commands.push(
        AdbCommand {
            args: settings_command("put", "global_http_proxy_port", Some(ps.as_str())),
            checked: true,
        },
    );
    AdbPlan { require_device: true, commands }
}

/// The plan that switches the proxy off: with a device connected, delete
/// `http_proxy`, `global_http_proxy_host` and `global_http_proxy_port`,
/// ignoring how each deletion ends.
pub fn clear_proxy() -> (r: AdbPlan)
    ensures
        r.require_device,
        r.commands@.len() == 3,
        forall|i: int| 0 <= i < 3 ==> !(#[trigger] r.commands@[i]).checked,
        views(r.commands@[0].args@) == settings_args("delete"@, "http_proxy"@),
        views(r.commands@[1].args@) == settings_args("delete"@, "global_http_proxy_host"@),
        views(r.commands@[2].args@) == settings_args("delete"@, "global_http_proxy_port"@),
{
    let mut commands: Vec<AdbCommand> = Vec::new();
    commands.push(AdbCommand { args: settings_command("delete", "http_proxy", None), checked: false });
    commands.push(
        AdbCommand {
            args: settings_command("delete", "global_http_proxy_host", None),
            checked: false,
        },
    );
    commands.push(
        AdbCommand {
            args: settings_command("delete", "global_http_proxy_port", None),
            checked: false,
        },
    );
    AdbPlan { require_device: true, commands }
}

/// Toggles the proxy: when it is on, the plan switches it off; otherwise the
/// plan switches it on to `host:port`. Returns the plan and the new state.
pub fn toggle_proxy(active: bool, host: &str, port: u16) -> (r: (AdbPlan, bool))
    ensures
        r.1 == !active,
        r.0.require_device,
        r.0.commands@.len() == 3,
        active ==> forall|i: int| 0 <= i < 3 ==> !(#[trigger] r.0.commands@[i]).checked,
        active ==> views(r.0.commands@[0].args@) == settings_args("delete"@, "http_proxy"@),
        active ==> views(r.0.commands@[1].args@) == settings_args(
            "delete"@,
            "global_http_proxy_host"@,
        ),
        active ==> views(r.0.commands@[2].args@) == settings_args(
            "delete"@,
            "global_http_proxy_port"@,
        ),
        !active ==> forall|i: int| 0 <= i < 3 ==> (#[trigger] r.0.commands@[i]).checked,
        !active ==> views(r.0.commands@[0].args@) == settings_args("put"@, "http_proxy"@).push(
            host_port(host@, port),
        ),
        !active ==> views(r.0.commands@[1].args@) == settings_args(
            "put"@,
            "global_http_proxy_host"@,
        ).push(host@),
        !active ==> views(r.0.commands@[2].args@) == settings_args(
            "put"@,
            "global_http_proxy_port"@,
        ).push(decimal(port as nat)),
{
    if active {
        (clear_proxy(), false)
    } else {
        (set_proxy(host, port), true)
    }
}

// ---------------------------------------------------------------------------
// Devices
// ---------------------------------------------------------------------------

/// The serial that a line of `adb devices` lists: its first word, when its
/// second word is `device`.
pub open spec fn line_serial(line: Seq<char>) -> Option<Seq<char>> {
    if first_word(after_first_word(line)) == "device"@ {
        Some(first_word(line))
    } else {
        None
    }
}

/// The pieces of `s` between line feeds (one more than there are line feeds).
pub open spec fn line_pieces(s: Seq<char>) -> Seq<Seq<char>>
    decreases s.len(),
{
    match find(s, nl()) {
        None => seq![s],
        Some(i) => {
            proof {
                lemma_find(s, nl());
            }
            seq![s.take(i)] + line_pieces(s.skip(i + 1))
        },
    }
}

/// The lines of `s` (`str::lines`, up to a carriage return before a line
/// feed, which no whitespace-separated word can hold): a final line feed
/// ends the last line instead of starting an empty one.
pub open spec fn lines(s: Seq<char>) -> Seq<Seq<char>> {
    if s.len() == 0 {
        seq![]
    } else if s.last() == '\n' {
        line_pieces(s).drop_last()
    } else {
        line_pieces(s)
    }
}

/// The serials that the given lines list, in order.
pub open spec fn serials_of(lines: Seq<Seq<char>>) -> Seq<Seq<char>>
    decreases lines.len(),
{
    if lines.len() == 0 {
        seq![]
    } else {
        match line_serial(lines[0]) {
            Some(s) => seq![s] + serials_of(lines.drop_first()),
            None => serials_of(lines.drop_first()),
        }
    }
}

/// The serials of the devices in the `device` state that the output of
/// `adb devices` lists (its first line is a heading).
pub open spec fn device_serials(output: Seq<char>) -> Seq<Seq<char>> {
    if lines(output).len() == 0 {
        seq![]
    } else {
        serials_of(lines(output).drop_first())
    }
}

fn line_serial_at(v: &Vec<char>, lo: usize, hi: usize) -> (r: Option<String>)
    requires
        lo <= hi <= v@.len(),
    ensures
        match line_serial(v@.subrange(lo as int, hi as int)) {
            Some(s) => r matches Some(x) && x@ == s,
            None => r is None,
        },
{
    let (s0, e0) = first_word_at(v, lo, hi);
    let (s1, e1) = first_word_at(v, e0, hi);
    let device = chars_of("device");
    let mut word: Vec<char> = Vec::new();
    push_range(&mut word, v, s1, e1);
    assert(word@ =~= v@.subrange(s1 as int, e1 as int));
    if eq_chars(&word, &device) {
        let mut serial: Vec<char> = Vec::new();
        push_range(&mut serial, v, s0, e0);
        assert(serial@ =~= v@.subrange(s0 as int, e0 as int));
        Some(string_of(&serial))
    } else {
        None
    }
}

proof fn lemma_serials_of_append(a: Seq<Seq<char>>, b: Seq<Seq<char>>)
    ensures
        serials_of(a + b) == serials_of(a) + serials_of(b),
    decreases a.len(),
{
    if a.len() == 0 {
        assert(a + b =~= b);
    } else {
        assert((a + b).drop_first() =~= a.drop_first() + b);
        lemma_serials_of_append(a.drop_first(), b);
        assert((a + b)[0] == a[0]);
        match line_serial(a[0]) {
            Some(s) => {
                assert(seq![s] + (serials_of(a.drop_first()) + serials_of(b)) =~= (seq![s]
                    + serials_of(a.drop_first())) + serials_of(b));
            },
            None => {},
        }
    }
}

proof fn lemma_empty_line_no_serial()
    ensures
        line_serial(Seq::<char>::empty()) is None,
{
    let e = Seq::<char>::empty();
    assert(trim_start(e) =~= e);
    assert(first_word(e) =~= e);
    assert(after_first_word(e) =~= e);
    reveal_strlit("device");
    assert("device"@.len() == 6);
}

proof fn lemma_line_pieces_nonempty(s: Seq<char>)
    ensures
        line_pieces(s).len() >= 1,
    decreases s.len(),
{
    match find(s, nl()) {
        None => {},
        Some(i) => {
            lemma_find(s, nl());
            lemma_line_pieces_nonempty(s.skip(i + 1));
        },
    }
}

/// A final line feed leaves an empty last piece, which lists no serial.
proof fn lemma_device_serials_pieces(s: Seq<char>)
    ensures
        device_serials(s) == serials_of(line_pieces(s).skip(1)),
{
    assert(line_pieces(s).skip(1) =~= line_pieces(s).drop_first()) by {
        lemma_line_pieces_nonempty(s);
    }
    lemma_line_pieces_nonempty(s);
    let p = line_pieces(s);
    if s.len() == 0 {
        assert(find(s, nl()) is None) by {
            lemma_find(s, nl());
        }
        assert(p.skip(1) =~= Seq::<Seq<char>>::empty());
    } else if s.last() == '\n' {
        lemma_last_piece_empty(s);
        if p.len() >= 2 {
            assert(p.skip(1) =~= p.drop_last().skip(1) + seq![p.last()]);
            assert(lines(s).drop_first() =~= p.drop_last().skip(1));
            lemma_serials_of_append(p.drop_last().skip(1), seq![p.last()]);
            lemma_empty_line_no_serial();
            assert(p.last() == Seq::<char>::empty());
            assert(seq![p.last()][0] == p.last());
            assert(seq![p.last()].drop_first() =~= Seq::<Seq<char>>::empty());
            assert(serials_of(Seq::<Seq<char>>::empty()) =~= Seq::<Seq<char>>::empty());
            assert(line_serial(seq![p.last()][0]) is None);
            assert(serials_of(seq![p.last()]) =~= Seq::<Seq<char>>::empty());
            assert(serials_of(p.drop_last().skip(1)) + Seq::<Seq<char>>::empty() =~= serials_of(
                p.drop_last().skip(1),
            ));
        } else {
            assert(p.skip(1) =~= Seq::<Seq<char>>::empty());
            assert(p.len() == 2);
        }
    }
}

/// When `s` ends with a line feed, its last piece is empty.
proof fn lemma_last_piece_empty(s: Seq<char>)
    requires
        s.len() > 0,
        s.last() == '\n',
    ensures
        line_pieces(s).len() >= 2,
        line_pieces(s).last() =~= Seq::<char>::empty(),
    decreases s.len(),
{
    lemma_find(s, nl());
    let k = s.len() - 1;
    assert(s.subrange(k, k + 1) =~= nl());
    assert(crate::text::occurs_at(s, nl(), k));
    let i = find(s, nl())->0;
    let rest = s.skip(i + 1);
    if rest.len() > 0 {
        assert(rest.last() == s.last());
        lemma_last_piece_empty(rest);
    } else {
        assert(find(rest, nl()) is None) by {
            lemma_find(rest, nl());
        }
    }
}

/// The serials of the connected devices that the output of `adb devices`
/// lists: every line after the first whose second word is `device` gives its
/// first word.
pub fn connected_device_serials(output: &str) -> (r: Vec<String>)
    ensures
        views(r@) == device_serials(output@),
{
    let v = chars_of(output);
    let newline = chars_of("\n");
    proof {
        reveal_strlit("\n");
    }
    assert(newline@ =~= nl());
    let ghost s = v@;
    let mut out: Vec<String> = Vec::new();
    let mut pos: usize = 0;
    let mut first = true;
    proof {
        lemma_device_serials_pieces(s);
        assert(s.skip(0) =~= s);
    }
    loop
        invariant_except_break
            serials_of(line_pieces(s).skip(1)) == views(out@) + serials_of(
                line_pieces(s.skip(pos as int)).skip(if first {
                    1int
                } else {
                    0int
                }),
            ),
        invariant
            s == v@,
            newline@ == nl(),
            pos <= v@.len(),
        ensures
            serials_of(line_pieces(s).skip(1)) == views(out@),
        decreases v@.len() - pos,
    {
        let ghost rest = s.skip(pos as int);
        assert(rest =~= v@.subrange(pos as int, v@.len() as int));
        let found = find_in(&v, pos, v.len(), &newline);
        let line_end = match found {
            Some(k) => k,
            None => v.len(),
        };
        proof {
            lemma_find(rest, nl());
        }
        let ghost piece = v@.subrange(pos as int, line_end as int);
        assert(line_pieces(rest)[0] == piece) by {
            match found {
                Some(k) => {
                    assert(rest.take(k - pos) =~= piece);
                },
                None => {
                    assert(rest =~= piece);
                },
            }
        }
        let ghost next_rest = match found {
            Some(k) => s.skip(k + 1),
            None => Seq::<char>::empty(),
        };
        proof {
            match found {
                Some(k) => {
                    assert(rest.skip(k - pos + 1) =~= s.skip(k + 1));
                    assert(line_pieces(rest) =~= seq![piece] + line_pieces(next_rest));
                },
                None => {
                    assert(line_pieces(rest) =~= seq![piece]);
                },
            }
        }
        if !first {
            let serial = line_serial_at(&v, pos, line_end);
            let ghost before = views(out@);
            match serial {
                Some(x) => {
                    out.push(x);
                    assert(views(out@) =~= before + seq![x@]);
                },
                None => {
                    assert(views(out@) =~= before);
                },
            }
            proof {
                assert(line_pieces(rest).skip(0) =~= line_pieces(rest));
                assert(line_pieces(rest)[0] == piece);
                match found {
                    Some(k) => {
                        assert(line_pieces(rest).drop_first() =~= line_pieces(next_rest));
                        assert(line_pieces(next_rest).skip(0) =~= line_pieces(next_rest));
                    },
                    None => {
                        assert(line_pieces(rest).drop_first() =~= Seq::<Seq<char>>::empty());
                    },
                }
                match line_serial(piece) {
                    Some(x) => {
                        assert(before + (seq![x] + serials_of(line_pieces(rest).drop_first()))
                            =~= (before + seq![x]) + serials_of(line_pieces(rest).drop_first()));
                    },
                    None => {},
                }
            }
        } else {
            proof {
                match found {
                    Some(k) => {
                        assert(line_pieces(rest).skip(1) =~= line_pieces(next_rest));
                        assert(line_pieces(next_rest).skip(0) =~= line_pieces(next_rest));
                    },
                    None => {
                        assert(line_pieces(rest).skip(1) =~= Seq::<Seq<char>>::empty());
                    },
                }
            }
        }
        match found {
            Some(k) => {
                pos = k + 1;
                first = false;
                assert(s.skip(pos as int) == next_rest);
            },
            None => {
                assert(serials_of(Seq::<Seq<char>>::empty()) =~= Seq::<Seq<char>>::empty());
                assert(views(out@) + Seq::<Seq<char>>::empty() =~= views(out@));
                break ;
            },
        }
    }
    out
}

/// Fails when the list of connected devices is empty.
pub fn ensure_device(serials: &Vec<String>) -> (r: Result<(), AndroidError>)
    ensures
        r is Err <==> serials@.len() == 0,
        r matches Err(e) ==> e is NoDevice,
{
    if serials.len() == 0 {
        Err(AndroidError::NoDevice)
    } else {
        Ok(())
    }
}

/// The device serial that the environment names: `AIO_PROXY_ADB_SERIAL`
/// when it is set, else `ANDROID_SERIAL`; an empty value names none.
pub open spec fn env_serial(primary: Option<Seq<char>>, fallback: Option<Seq<char>>) -> Option<
    Seq<char>,
> {
    let chosen = match primary {
        Some(p) => Some(p),
        None => fallback,
    };
    match chosen {
        Some(c) => if c.len() > 0 {
            Some(c)
        } else {
            None
        },
        None => None,
    }
}

pub open spec fn opt_view(o: Option<&str>) -> Option<Seq<char>> {
    match o {
        Some(s) => Some(s@),
        None => None,
    }
}

/// The device serial that the environment names, from the values of
/// `AIO_PROXY_ADB_SERIAL` and `ANDROID_SERIAL` (`None` where unset).
pub fn env_device_serial(primary: Option<&str>, fallback: Option<&str>) -> (r: Option<String>)
    ensures
        match env_serial(opt_view(primary), opt_view(fallback)) {
            Some(c) => r matches Some(x) && x@ == c,
            None => r is None,
        },
{
    let chosen = match primary {
        Some(p) => Some(p),
        None => fallback,
    };
    match chosen {
        Some(c) => if c.unicode_len() > 0 {
            Some(owned(c))
        } else {
            None
        },
        None => None,
    }
}

pub open spec fn starts_with(s: Seq<char>, p: Seq<char>) -> bool {
    p.len() <= s.len() && s.take(p.len() as int) == p
}

/// The serial to address among the connected devices: the first emulator
/// (`emulator-…`), else the first device; none without devices.
pub open spec fn picked_serial(serials: Seq<Seq<char>>) -> Option<Seq<char>> {
    if serials.len() == 0 {
        None
    } else if exists|i: int| 0 <= i < serials.len() && starts_with(serials[i], "emulator-"@) {
        let i = choose|i: int|
            0 <= i < serials.len() && starts_with(serials[i], "emulator-"@) && forall|j: int|
                0 <= j < i ==> !starts_with(#[trigger] serials[j], "emulator-"@);
        Some(serials[i])
    } else {
        Some(serials[0])
    }
}

fn starts_with_chars(s: &Vec<char>, p: &Vec<char>) -> (r: bool)
    ensures
        r == starts_with(s@, p@),
{
    if p.len() > s.len() {
        return false;
    }
    let mut i: usize = 0;
    while i < p.len()
        invariant
            p@.len() <= s@.len(),
            i <= p@.len(),
            forall|j: int| 0 <= j < i ==> s@[j] == p@[j],
        decreases p@.len() - i,
    {
        if s[i] != p[i] {
            assert(s@.take(p@.len() as int)[i as int] != p@[i as int]);
            return false;
        }
        i = i + 1;
    }
    assert(s@.take(p@.len() as int) =~= p@);
    true
}

/// The serial to address among the connected devices.
pub fn pick_device_serial(serials: &Vec<String>) -> (r: Option<String>)
    ensures
        match picked_serial(views(serials@)) {
            Some(c) => r matches Some(x) && x@ == c,
            None => r is None,
        },
{
    let ghost vs = views(serials@);
    if serials.len() == 0 {
        return None;
    }
    let prefix = chars_of("emulator-");
    let mut i: usize = 0;
    while i < serials.len()
        invariant
            vs == views(serials@),
            prefix@ == "emulator-"@,
            i <= serials@.len(),
            forall|j: int| 0 <= j < i ==> !starts_with(#[trigger] vs[j], "emulator-"@),
        decreases serials@.len() - i,
    {
        let c = chars_of(serials[i].as_str());
        if starts_with_chars(&c, &prefix) {
            proof {
                assert(starts_with(vs[i as int], "emulator-"@));
                let k = choose|k: int|
                    0 <= k < vs.len() && starts_with(vs[k], "emulator-"@) && forall|j: int|
                        0 <= j < k ==> !starts_with(#[trigger] vs[j], "emulator-"@);
                if k < i {
                    assert(!starts_with(vs[k], "emulator-"@));
                }
                if k > i {
                    assert(!starts_with(vs[i as int], "emulator-"@));
                }
            }
            return Some(owned(serials[i].as_str()));
        }
        i = i + 1;
    }
    assert(!exists|i: int| 0 <= i < vs.len() && starts_with(vs[i], "emulator-"@));
    Some(owned(serials[0].as_str()))
}

/// A command needs a device chosen unless it is `devices` or names one
/// with `-s` already.
pub open spec fn needs_serial(args: Seq<Seq<char>>) -> bool {
    &&& !(args.len() > 0 && args[0] == "devices"@)
    &&& !(exists|i: int| 0 <= i < args.len() && args[i] == "-s"@)
}

/// Whether `adb` must be told which device the command is for.
pub fn needs_device_selection(args: &Vec<String>) -> (r: bool)
    ensures
        r == needs_serial(views(args@)),
{
    let ghost vs = views(args@);
    if args.len() > 0 && str_eq(args[0].as_str(), "devices") {
        return false;
    }
    let mut i: usize = 0;
    while i < args.len()
        invariant
            vs == views(args@),
            i <= args@.len(),
            forall|j: int| 0 <= j < i ==> vs[j] != "-s"@,
        decreases args@.len() - i,
    {
        if str_eq(args[i].as_str(), "-s") {
            assert(vs[i as int] == "-s"@);
            return false;
        }
        i = i + 1;
    }
    true
}

/// The full argument list: `-s <serial>` in front when a serial is given.
pub fn adb_args(args: &Vec<String>, serial: Option<&str>) -> (r: Vec<String>)
    ensures
        views(r@) == match serial {
            Some(s) => seq!["-s"@, s@] + views(args@),
            None => views(args@),
        },
{
    let mut out: Vec<String> = Vec::new();
    match serial {
        Some(s) => {
            out.push(owned("-s"));
            out.push(owned(s));
        },
        None => {},
    }
    let ghost start = views(out@);
    let mut i: usize = 0;
    while i < args.len()
        invariant
            i <= args@.len(),
            views(out@) == start + views(args@.take(i as int)),
        decreases args@.len() - i,
    {
        let ghost before = out@;
        out.push(owned(args[i].as_str()));
        assert(views(out@) =~= views(before).push(args@[i as int]@));
        assert(views(args@.take(i + 1)) =~= views(args@.take(i as int)).push(args@[i as int]@));
        assert(views(out@) =~= start + views(args@.take(i + 1)));
        i = i + 1;
    }
    assert(args@.take(args@.len() as int) =~= args@);
    assert(views(out@) =~= match serial {
        Some(s) => seq!["-s"@, s@] + views(args@),
        None => views(args@),
    });
    out
}

/// The outcome of an `adb` run that exited: its standard output, unless it
/// failed and failure is not allowed, in which case the error quotes the
/// command and its standard error (its standard output when the standard
/// error is blank).
pub fn finish_adb(
    success: bool,
    allow_failure: bool,
    stdout: &str,
    stderr: &str,
    full_args: &Vec<String>,
) -> (r: Result<String, AndroidError>)
    ensures
        (!success && !allow_failure) ==> (r matches Err(AndroidError::CommandFailed { args, output })
            && args@ == join_spaced(views(full_args@)) && output@ == if trim(stderr@).len() > 0 {
            stderr@
        } else {
            stdout@
        }),
        (success || allow_failure) ==> (r matches Ok(out) && out@ == stdout@),
{
    if !success && !allow_failure {
        let e = chars_of(stderr);
        let t = trimmed(&e);
        let output = if t.len() > 0 {
            owned(stderr)
        } else {
            owned(stdout)
        };
        let args = join_spaced_chars(full_args);
        return Err(AndroidError::CommandFailed { args: string_of(&args), output });
    }
    Ok(owned(stdout))
}

/// The error for an `adb` that could not be started: a missing executable,
/// or else the reason together with the command.
pub fn map_adb_spawn_error(not_found: bool, reason: &str, args: &Vec<String>) -> (r: AndroidError)
    ensures
        not_found ==> r is AdbNotFound,
        !not_found ==> (r matches AndroidError::Spawn { args: a, reason: why } && a@ == join_spaced(
            views(args@),
        ) && why@ == reason@),
{
    if not_found {
        AndroidError::AdbNotFound
    } else {
        let a = join_spaced_chars(args);
        AndroidError::Spawn { args: string_of(&a), reason: owned(reason) }
    }
}

// ---------------------------------------------------------------------------
// Locating adb
// ---------------------------------------------------------------------------

/// Where `adb` may be, in order of preference: `AIO_PROXY_ADB` when set and
/// non-empty, the Android SDKs under `ANDROID_HOME` and `ANDROID_SDK_ROOT`,
/// the SDK in the user's home directory, and finally `adb` on the `PATH`.
pub open spec fn adb_candidate_paths(
    explicit: Option<Seq<char>>,
    android_home: Option<Seq<char>>,
    sdk_root: Option<Seq<char>>,
    home: Option<Seq<char>>,
) -> Seq<Seq<char>> {
    let a = match explicit {
        Some(e) => if e.len() > 0 {
            seq![e]
        } else {
            seq![]
        },
        None => seq![],
    };
    let b = match android_home {
        Some(h) => seq![path_join(h, "platform-tools/adb"@)],
        None => seq![],
    };
    let c = match sdk_root {
        Some(r) => seq![path_join(r, "platform-tools/adb"@)],
        None => seq![],
    };
    let d = match home {
        Some(h) => seq![path_join(h, "Library/Android/sdk/platform-tools/adb"@)],
        None => seq![],
    };
    a + b + c + d + seq!["adb"@]
}

/// Where `adb` may be, from the values of `AIO_PROXY_ADB`, `ANDROID_HOME`
/// and `ANDROID_SDK_ROOT` and the user's home directory.
pub fn adb_candidates(
    explicit: Option<&str>,
    android_home: Option<&str>,
    sdk_root: Option<&str>,
    home: Option<&str>,
) -> (r: Vec<String>)
    ensures
        views(r@) == adb_candidate_paths(
            opt_view(explicit),
            opt_view(android_home),
            opt_view(sdk_root),
            opt_view(home),
        ),
{
    let mut out: Vec<String> = Vec::new();
    match explicit {
        Some(e) => if e.unicode_len() > 0 {
            out.push(owned(e));
        },
        None => {},
    }
    match android_home {
        Some(h) => out.push(crate::text::join_path(h, "platform-tools/adb")),
        None => {},
    }
    match sdk_root {
        Some(h) => out.push(crate::text::join_path(h, "platform-tools/adb")),
        None => {},
    }
    match home {
        Some(h) => out.push(crate::text::join_path(h, "Library/Android/sdk/platform-tools/adb")),
        None => {},
    }
    out.push(owned("adb"));
    assert(views(out@) =~= adb_candidate_paths(
        opt_view(explicit),
        opt_view(android_home),
        opt_view(sdk_root),
        opt_view(home),
    ));
    out
}

/// Where `adb` may be, from the values of `AIO_PROXY_ADB`, `ANDROID_HOME`
/// and `ANDROID_SDK_ROOT`, with the home directory that `dirs` reports.
pub fn find_adb_candidates(
    explicit: Option<&str>,
    android_home: Option<&str>,
    sdk_root: Option<&str>,
) -> (r: Vec<String>)
    ensures
        exists|home: Option<Seq<char>>|
            views(r@) == adb_candidate_paths(
                opt_view(explicit),
                opt_view(android_home),
                opt_view(sdk_root),
                home,
            ),
{
    let home = user_home_dir();
    match home {
        Some(h) => {
            let hs = h.as_str();
            let r = adb_candidates(explicit, android_home, sdk_root, Some(hs));
            assert(opt_view(Some(hs)) == Some(h@));
            r
        },
        None => adb_candidates(explicit, android_home, sdk_root, None),
    }
}

/// The first candidate that is `adb` itself or exists.
pub open spec fn chosen_adb(candidates: Seq<Seq<char>>, exists: Seq<bool>) -> Seq<char>
    decreases candidates.len(),
{
    if candidates.len() == 0 || exists.len() == 0 {
        "adb"@
    } else if candidates[0] == "adb"@ || exists[0] {
        candidates[0]
    } else {
        chosen_adb(candidates.drop_first(), exists.drop_first())
    }
}

/// The `adb` to run: the first candidate that is `adb` itself or exists
/// (`exists[i]` tells whether `candidates[i]` exists).
pub fn choose_adb(candidates: &Vec<String>, exists: &Vec<bool>) -> (r: String)
    requires
        candidates@.len() == exists@.len(),
    ensures
        r@ == chosen_adb(views(candidates@), exists@),
{
    let mut i: usize = 0;
    assert(views(candidates@).skip(0) =~= views(candidates@));
    assert(exists@.skip(0) =~= exists@);
    while i < candidates.len()
        invariant
            candidates@.len() == exists@.len(),
            i <= candidates@.len(),
            chosen_adb(views(candidates@), exists@) == chosen_adb(
                views(candidates@).skip(i as int),
                exists@.skip(i as int),
            ),
        decreases candidates@.len() - i,
    {
        let ghost cs = views(candidates@).skip(i as int);
        let ghost es = exists@.skip(i as int);
        assert(cs[0] == candidates@[i as int]@);
        if str_eq(candidates[i].as_str(), "adb") || exists[i] {
            return owned(candidates[i].as_str());
        }
        assert(cs.drop_first() =~= views(candidates@).skip(i + 1));
        assert(es.drop_first() =~= exists@.skip(i + 1));
        i = i + 1;
    }
    owned("adb")
}

// ---------------------------------------------------------------------------
// Laws
// ---------------------------------------------------------------------------

proof fn lemma_decimal_digits(n: nat)
    ensures
        decimal(n).len() >= 1,
        forall|i: int| 0 <= i < decimal(n).len() ==> is_digit(#[trigger] decimal(n)[i]),
        n > 0 ==> decimal(n) != seq!['0'],
    decreases n,
{
    if n >= 10 {
        lemma_decimal_digits(n / 10);
        assert forall|i: int| 0 <= i < decimal(n).len() implies is_digit(#[trigger] decimal(n)[i]) by {
            if i < decimal(n / 10).len() {
                assert(decimal(n)[i] == decimal(n / 10)[i]);
            }
        }
    } else {
        assert(decimal(n)[0] == digit_char(n));
    }
}

proof fn lemma_trim_start_concat(a: Seq<char>, b: Seq<char>)
    requires
        b.len() > 0,
        !is_ws(b[0]),
    ensures
        trim_start(a + b) == trim_start(a) + b,
    decreases a.len(),
{
    if a.len() > 0 {
        assert((a + b)[0] == a[0]);
        if is_ws(a[0]) {
            assert((a + b).drop_first() =~= a.drop_first() + b);
            lemma_trim_start_concat(a.drop_first(), b);
        }
    } else {
        assert(a + b =~= b);
        assert(trim_start(a) =~= a);
        assert(a + b =~= trim_start(a) + b);
    }
}

/// The value that switching the proxy on writes to `http_proxy` reads back
/// as on. This holds unless the host is blank and the port is 0, since
/// `:0` reads as off.
pub proof fn law_set_value_reads_active(host: Seq<char>, port: u16)
    requires
        trim(host).len() > 0 || port != 0,
    ensures
        proxy_value_active(host_port(host, port)),
{
    reveal_strlit("null");
    reveal_strlit(":0");
    reveal_strlit("null:null");
    let d = decimal(port as nat);
    lemma_decimal_digits(port as nat);
    let rest = seq![':'] + d;
    assert(host_port(host, port) =~= host + rest);
    assert(rest[0] == ':');
    assert(!is_ws(':'));
    lemma_trim_start_concat(host, rest);
    let h = trim_start(host);
    let t0 = h + rest;
    assert(is_digit(d[d.len() - 1]));
    assert(t0.last() == d.last());
    assert(!is_ws(t0.last()));
    assert(trim(host_port(host, port)) == t0);
    crate::text::lemma_trim_end_shape(h);
    crate::text::lemma_trim_start_shape(host);
    if h.len() == 0 {
        assert(trim(host) =~= Seq::<char>::empty());
        assert(port != 0);
        assert(t0 =~= seq![':'] + d);
        assert(t0[0] == ':');
        assert(ascii_lower(t0[0]) == ':');
        assert(ascii_lower("null"@[0]) == 'n');
        if t0 == ":0"@ {
            assert(d =~= seq!['0']);
        }
        assert(t0 != "null:null"@) by {
            if t0 == "null:null"@ {
                assert(t0[0] == "null:null"@[0]);
            }
        }
    } else {
        let k = h.len() as int;
        assert(t0[k] == ':');
        assert(t0.len() >= 3);
        if eq_ignore_ascii_case(t0, "null"@) {
            assert(ascii_lower(t0[k]) == ascii_lower("null"@[k]));
        }
        if t0 == "null:null"@ {
            assert(t0[k] == "null:null"@[k]);
            assert(k == 4);
            assert(t0[5] == d[0]);
            assert(t0[5] == 'n');
        }
    }
}

proof fn lemma_trim_start_all_ws(a: Seq<char>)
    requires
        forall|i: int| 0 <= i < a.len() ==> is_ws(#[trigger] a[i]),
    ensures
        trim_start(a) == Seq::<char>::empty(),
    decreases a.len(),
{
    if a.len() > 0 {
        assert(is_ws(a[0]));
        assert forall|i: int| 0 <= i < a.drop_first().len() implies is_ws(
            #[trigger] a.drop_first()[i],
        ) by {
            assert(a.drop_first()[i] == a[i + 1]);
        }
        lemma_trim_start_all_ws(a.drop_first());
    } else {
        assert(a =~= Seq::<char>::empty());
    }
}

/// Text made of whitespace, then a first character that is none, loses
/// exactly the whitespace to `trim_start`.
proof fn lemma_trim_start_past_ws(a: Seq<char>, b: Seq<char>)
    requires
        forall|i: int| 0 <= i < a.len() ==> is_ws(#[trigger] a[i]),
        b.len() > 0,
        !is_ws(b[0]),
    ensures
        trim_start(a + b) == b,
{
    lemma_trim_start_concat(a, b);
    lemma_trim_start_all_ws(a);
    assert(trim_start(a) + b =~= b);
}

proof fn lemma_first_ws_after_word(w: Seq<char>, y: Seq<char>)
    requires
        forall|i: int| 0 <= i < w.len() ==> !is_ws(#[trigger] w[i]),
        y.len() == 0 || is_ws(y[0]),
    ensures
        crate::text::first_ws(w + y) == w.len(),
    decreases w.len(),
{
    if w.len() > 0 {
        assert((w + y)[0] == w[0]);
        assert((w + y).drop_first() =~= w.drop_first() + y);
        assert forall|i: int| 0 <= i < w.drop_first().len() implies !is_ws(
            #[trigger] w.drop_first()[i],
        ) by {
            assert(w.drop_first()[i] == w[i + 1]);
        }
        lemma_first_ws_after_word(w.drop_first(), y);
    } else {
        assert(w + y =~= y);
    }
}

/// A line of `adb devices` output lists its serial exactly when the device
/// is in the `device` state: for a line made of optional whitespace, a
/// serial, whitespace, a state word and the rest of the line (empty or
/// starting with whitespace), the serial is listed when the state is
/// `device` and nothing is listed for any other state (`offline`,
/// `unauthorized`, ...).
pub proof fn law_line_lists_only_ready_devices(
    lead: Seq<char>,
    serial: Seq<char>,
    sep: Seq<char>,
    state: Seq<char>,
    rest: Seq<char>,
)
    requires
        forall|i: int| 0 <= i < lead.len() ==> is_ws(#[trigger] lead[i]),
        forall|i: int| 0 <= i < sep.len() ==> is_ws(#[trigger] sep[i]),
        sep.len() > 0,
        serial.len() > 0,
        forall|i: int| 0 <= i < serial.len() ==> !is_ws(#[trigger] serial[i]),
        state.len() > 0,
        forall|i: int| 0 <= i < state.len() ==> !is_ws(#[trigger] state[i]),
        rest.len() == 0 || is_ws(rest[0]),
    ensures
        line_serial(lead + serial + sep + state + rest) == (if state == "device"@ {
            Some(serial)
        } else {
            None::<Seq<char>>
        }),
{
    let line = lead + serial + sep + state + rest;
    let body = serial + (sep + state + rest);
    assert(line =~= lead + body);
    assert(body[0] == serial[0]);
    lemma_trim_start_past_ws(lead, body);
    assert((sep + state + rest)[0] == sep[0]);
    lemma_first_ws_after_word(serial, sep + state + rest);
    assert(first_word(line) =~= serial);
    let after = sep + (state + rest);
    assert(after_first_word(line) =~= after);
    assert((state + rest)[0] == state[0]);
    lemma_trim_start_past_ws(sep, state + rest);
    lemma_first_ws_after_word(state, rest);
    assert(first_word(after) =~= state);
}

/// Proof that `decimal(n)` reads back as `n`.
proof fn lemma_decimal_value(n: nat)
    ensures
        crate::text::digits_value(decimal(n)) == n,
    decreases n,
{
    if n >= 10 {
        lemma_decimal_value(n / 10);
        assert(decimal(n).drop_last() =~= decimal(n / 10));
        assert(decimal(n).last() == digit_char(n % 10));
        assert(crate::text::digit_value(digit_char(n % 10)) == n % 10);
        assert(decimal(n).len() > 0);
        assert(crate::text::digits_value(decimal(n)) == crate::text::digits_value(
            decimal(n).drop_last(),
        ) * 10 + crate::text::digit_value(decimal(n).last()));
        assert(n == (n / 10) * 10 + n % 10);
    } else {
        assert(decimal(n).drop_last() =~= Seq::<char>::empty());
        assert(decimal(n).last() == digit_char(n));
        assert(crate::text::digit_value(digit_char(n)) == n);
        assert(crate::text::digits_value(decimal(n)) == crate::text::digits_value(
            decimal(n).drop_last(),
        ) * 10 + crate::text::digit_value(decimal(n).last()));
    }
}

/// The proxy port is the one that `AIO_PROXY_PORT` gives whenever the value
/// reads as a `u16`, whatever the number (the decimal form of any `u16`
/// among them); only an unset or unreadable value gives the default port.
pub proof fn law_port_variable_is_used(n: u16, p: Seq<char>)
    ensures
        endpoint_port(Some(decimal(n as nat))) == n,
        parse_unsigned(p, 65535) is Some ==> endpoint_port(Some(p)) == parse_unsigned(p, 65535)->0,
        parse_unsigned(p, 65535) is None ==> endpoint_port(Some(p)) == DEFAULT_LISTEN_PORT,
        endpoint_port(None) == DEFAULT_LISTEN_PORT,
{
    let d = decimal(n as nat);
    lemma_decimal_digits(n as nat);
    lemma_decimal_value(n as nat);
    assert(d[0] != '+') by {
        assert(is_digit(d[0]));
    }
    assert(crate::text::unsigned_digits(d) == d);
    assert(crate::text::all_digits(d));
}

/// Candidate `i` is `adb` itself or exists.
pub open spec fn usable_adb(candidates: Seq<Seq<char>>, present: Seq<bool>, i: int) -> bool {
    candidates[i] == "adb"@ || present[i]
}

/// The `adb` chosen is the first candidate, in order of preference, that is
/// `adb` itself or exists: when candidate `i` is such a one and none before
/// it is, candidate `i` is chosen, whatever follows it.
pub proof fn law_adb_is_first_usable(candidates: Seq<Seq<char>>, present: Seq<bool>, i: int)
    requires
        candidates.len() == present.len(),
        0 <= i < candidates.len(),
        usable_adb(candidates, present, i),
        forall|j: int| 0 <= j < i ==> !usable_adb(candidates, present, j),
    ensures
        chosen_adb(candidates, present) == candidates[i],
    decreases i,
{
    if i > 0 {
        assert(!usable_adb(candidates, present, 0));
        let cs = candidates.drop_first();
        let es = present.drop_first();
        assert forall|j: int| 0 <= j < i - 1 implies !usable_adb(cs, es, j) by {
            assert(cs[j] == candidates[j + 1] && es[j] == present[j + 1]);
            assert(!usable_adb(candidates, present, j + 1));
        }
        law_adb_is_first_usable(cs, es, i - 1);
    }
}

/// When no candidate is `adb` itself or exists, plain `adb` is run.
pub proof fn law_adb_falls_back(candidates: Seq<Seq<char>>, present: Seq<bool>)
    requires
        candidates.len() == present.len(),
        forall|j: int| 0 <= j < candidates.len() ==> !usable_adb(candidates, present, j),
    ensures
        chosen_adb(candidates, present) == "adb"@,
    decreases candidates.len(),
{
    if candidates.len() > 0 {
        assert(!usable_adb(candidates, present, 0));
        let cs = candidates.drop_first();
        let es = present.drop_first();
        assert forall|j: int| 0 <= j < cs.len() implies !usable_adb(cs, es, j) by {
            assert(cs[j] == candidates[j + 1] && es[j] == present[j + 1]);
            assert(!usable_adb(candidates, present, j + 1));
        }
        law_adb_falls_back(cs, es);
    }
}

} // verus!
