//! The status shown next to the tray icon: the battery charge as `pmset`
//! reports it, or the CPU load.
use vstd::prelude::*;

use crate::text::{
    after_first_word, chars_of, contains, decimal, first_word, first_word_at, parse_u8_chars, parse_unsigned, push_decimal,
    push_range, string_of, words,
};

verus! {

/// A status value (0–100 for a percentage) with its label.
#[derive(Debug, Clone)]
pub struct StatusSnapshot {
    pub value: u8,
    pub label: String,
}

/// What was measured for a status source.
pub enum StatusReading {
    /// The output of `pmset -g batt`.
    Battery(String),
    /// The global CPU usage, rounded to a whole percentage.
    Cpu(u8),
}

/// `s` without its trailing semicolons (`trim_end_matches(';')`).
pub open spec fn trim_end_semicolons(s: Seq<char>) -> Seq<char>
    decreases s.len(),
{
    if s.len() > 0 && s.last() == ';' {
        trim_end_semicolons(s.drop_last())
    } else {
        s
    }
}

/// The percentage that a word of `pmset` output shows: a number up to 255
/// followed by `%`, and possibly by semicolons after that.
pub open spec fn word_percent(w: Seq<char>) -> Option<nat> {
    let u = trim_end_semicolons(w);
    if u.len() > 0 && u.last() == '%' {
        parse_unsigned(u.drop_last(), 255)
    } else {
        None
    }
}

/// The first percentage among the words.
pub open spec fn first_percent(ws: Seq<Seq<char>>) -> Option<nat>
    decreases ws.len(),
{
    if ws.len() == 0 {
        None
    } else {
        match word_percent(ws[0]) {
            Some(n) => Some(n),
            None => first_percent(ws.drop_first()),
        }
    }
}

/// The battery charge that `pmset` output shows: its first percentage, or
/// 100 when it shows none.
pub open spec fn battery_percent(text: Seq<char>) -> u8 {
    match first_percent(words(text)) {
        Some(n) => n as u8,
        None => 100,
    }
}

/// The battery is on external power or charging.
pub open spec fn battery_charging(text: Seq<char>) -> bool {
    contains(text, "AC Power"@) || contains(text, "charging"@)
}

/// `n%`, followed by a lightning sign when charging.
pub open spec fn percent_label(n: u8, charging: bool) -> Seq<char> {
    decimal(n as nat) + seq!['%'] + if charging {
        seq!['\u{26a1}']
    } else {
        seq![]
    }
}

/// The percentage shown by the word `v[lo..hi]`.
fn word_percent_at(v: &Vec<char>, lo: usize, hi: usize) -> (r: Option<u8>)
    requires
        lo <= hi <= v@.len(),
    ensures
        match word_percent(v@.subrange(lo as int, hi as int)) {
            Some(n) => r == Some(n as u8),
            None => r is None,
        },
{
    let mut k = hi;
    while k > lo && v[k - 1] == ';'
        invariant
            lo <= k <= hi <= v@.len(),
            trim_end_semicolons(v@.subrange(lo as int, hi as int)) == trim_end_semicolons(
                v@.subrange(lo as int, k as int),
            ),
        decreases k,
    {
        assert(v@.subrange(lo as int, k as int).drop_last() =~= v@.subrange(
            lo as int,
            k - 1 as int,
        ));
        k = k - 1;
    }
    let ghost u = v@.subrange(lo as int, k as int);
    assert(trim_end_semicolons(v@.subrange(lo as int, hi as int)) == u);
    if k > lo && v[k - 1] == '%' {
        let mut digits: Vec<char> = Vec::new();
        push_range(&mut digits, v, lo, k - 1);
        assert(digits@ =~= u.drop_last());
        parse_u8_chars(&digits)
    } else {
        None
    }
}

/// The battery status from the output of `pmset -g batt`.
pub fn poll_battery(text: &str) -> (r: StatusSnapshot)
    ensures
        r.value == battery_percent(text@),
        r.label@ == percent_label(battery_percent(text@), battery_charging(text@)),
{
    let v = chars_of(text);
    let n = v.len();
    assert(v@.subrange(0, n as int) =~= v@);
    let mut pos: usize = 0;
    let mut percent: u8 = 100;
    loop
        invariant_except_break
            first_percent(words(text@)) == first_percent(words(v@.subrange(pos as int, n as int))),
            percent == 100,
        invariant
            v@ == text@,
            n == v@.len(),
            pos <= n,
        ensures
            percent == battery_percent(text@),
        decreases n - pos,
    {
        let ghost rest = v@.subrange(pos as int, n as int);
        let (s0, e0) = first_word_at(&v, pos, n);
        if s0 == n {
            assert(words(rest) =~= Seq::<Seq<char>>::empty());
            assert(first_percent(words(rest)) is None);
            break ;
        }
        assert(words(rest) == seq![first_word(rest)] + words(after_first_word(rest)));
        assert(words(rest)[0] == v@.subrange(s0 as int, e0 as int));
        assert(words(rest).drop_first() =~= words(v@.subrange(e0 as int, n as int)));
        match word_percent_at(&v, s0, e0) {
            Some(p) => {
                percent = p;
                break ;
            },
            None => {},
        }
        proof {
            crate::text::lemma_after_first_word_shorter(rest);
        }
        pos = e0;
    }
    let ac = chars_of("AC Power");
    let ch = chars_of("charging");
    let charging = crate::hosts::contains_chars(&v, &ac) || crate::hosts::contains_chars(&v, &ch);
    StatusSnapshot { value: percent, label: percent_label_string(percent, charging) }
}

fn percent_label_string(n: u8, charging: bool) -> (r: String)
    ensures
        r@ == percent_label(n, charging),
{
    let mut out: Vec<char> = Vec::new();
    push_decimal(&mut out, n as u32);
    out.push('%');
    if charging {
        out.push('\u{26a1}');
    }
    assert(out@ =~= percent_label(n, charging));
    string_of(&out)
}

/// The CPU status for a usage already rounded to a whole percentage.
pub fn poll_cpu(usage: u8) -> (r: StatusSnapshot)
    ensures
        r.value == usage,
        r.label@ == percent_label(usage, false),
{
    StatusSnapshot { value: usage, label: percent_label_string(usage, false) }
}

/// The status for a reading of its source.
pub fn poll(reading: &StatusReading) -> (r: StatusSnapshot)
    ensures
        match reading {
            StatusReading::Battery(text) => r.value == battery_percent(text@) && r.label@
                == percent_label(battery_percent(text@), battery_charging(text@)),
            StatusReading::Cpu(u) => r.value == *u && r.label@ == percent_label(*u, false),
        },
{
    match reading {
        StatusReading::Battery(text) => poll_battery(text.as_str()),
        StatusReading::Cpu(u) => poll_cpu(*u),
    }
}

} // verus!
