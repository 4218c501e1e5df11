//! Editing the text of `/etc/hosts`: the block of entries that this
//! application manages, and the iOS simulator route block.
//!
//! Every function here maps the file's current text to its new text; reading
//! and writing the file itself (which needs administrator rights) is done by
//! the caller.
use vstd::prelude::*;

use crate::config::{app_dir, config_file, entry_line, HostsConfig, HostsEntry};
use crate::text::{
    chars_of, contains, find, find_in, is_ws, lemma_find_after_newline, lemma_find_at_start,
    lemma_not_contains_join, lemma_not_contains_newline_end, lemma_occurs_extend,
    lemma_occurs_shift, lemma_prefix_not_contains, lemma_trim_end_append_ws,
    lemma_trim_end_idempotent, lemma_trim_end_shape, lemma_occurs_in_prefix,
    lemma_occurs_in_suffix, lemma_trim_start_newlines_suffix, nl, no_newline, occurs_at, push_all,
    path_join, push_range, push_str, skip_newlines_at, string_of, trim_end, trim_end_at,
    trim_start_newlines,
};

verus! {

pub const HOSTS_PATH: &'static str = "/etc/hosts";

pub const BLOCK_BEGIN: &'static str = "# --- ainv-helper begin ---";

pub const BLOCK_END: &'static str = "# --- ainv-helper end ---";

pub const IOS_SIM_BEGIN: &'static str = "# BEGIN AMIO IOS SIMULATOR";

pub const IOS_SIM_END: &'static str = "# END AMIO IOS SIMULATOR";

pub const IOS_SIM_ENTRY: &'static str = "127.0.0.1 invest-test.alfabank.ru";

/// Why the hosts file was left as it is.
#[derive(Debug, Clone, Copy, PartialEq, Eq, Structural)]
pub enum HostsError {
    /// `[hosts] enabled` is false in the configuration.
    Disabled,
}

impl HostsError {
    /// The error's message.
    pub fn message(&self) -> (r: String)
        ensures
            r@ == "hosts management is disabled in config"@,
    {
        match self {
            HostsError::Disabled => crate::text::owned("hosts management is disabled in config"),
        }
    }
}

/// `t`, followed by a line feed unless it is empty.
pub open spec fn with_separator(t: Seq<char>) -> Seq<char> {
    if t.len() > 0 {
        t + nl()
    } else {
        t
    }
}

/// `t`, followed by a line feed unless it is empty or already ends with one.
pub open spec fn with_final_newline(t: Seq<char>) -> Seq<char> {
    if t.len() > 0 && t.last() != '\n' {
        t + nl()
    } else {
        t
    }
}

/// `content` with the first block that starts with `begin` cut out: the block
/// runs to the end of the first `end` marker after it (or to the end of the
/// text when there is none). The text before the block loses its trailing
/// whitespace, the text after it its leading line feeds, and one line feed
/// joins them when both are non-empty. Without `begin`, `content` is kept.
pub open spec fn cut_block(content: Seq<char>, begin: Seq<char>, end: Seq<char>) -> Seq<char> {
    match find(content, begin) {
        None => content,
        Some(start) => {
            let head = trim_end(content.take(start));
            let tail = content.skip(start);
            match find(tail, end) {
                Some(k) => if k + end.len() < tail.len() {
                    let rest = trim_start_newlines(tail.skip(k + end.len()));
                    if head.len() > 0 && rest.len() > 0 {
                        head + nl() + rest
                    } else {
                        head + rest
                    }
                } else {
                    head
                },
                None => head,
            }
        },
    }
}

/// The text of the iOS simulator route block.
pub open spec fn ios_sim_block_text() -> Seq<char> {
    IOS_SIM_BEGIN@ + nl() + IOS_SIM_ENTRY@ + nl() + IOS_SIM_END@ + nl()
}

/// The route counts as present when its begin marker, end marker and entry
/// all occur in the text.
pub open spec fn ios_sim_present(content: Seq<char>) -> bool {
    &&& contains(content, IOS_SIM_BEGIN@)
    &&& contains(content, IOS_SIM_END@)
    &&& contains(content, IOS_SIM_ENTRY@)
}

/// The text with the route block added at its end.
pub open spec fn ios_sim_appended(content: Seq<char>) -> Seq<char> {
    with_separator(trim_end(content)) + ios_sim_block_text()
}

/// The text with the first route block removed; unchanged without a begin marker.
pub open spec fn ios_sim_removed(content: Seq<char>) -> Seq<char> {
    match find(content, IOS_SIM_BEGIN@) {
        None => content,
        Some(_) => with_final_newline(cut_block(content, IOS_SIM_BEGIN@, IOS_SIM_END@)),
    }
}

/// The text with the first managed block removed.
pub open spec fn managed_removed(content: Seq<char>) -> Seq<char> {
    cut_block(content, BLOCK_BEGIN@, BLOCK_END@)
}

/// `"\n" + line` for every entry, in order.
pub open spec fn prefixed_lines(entries: Seq<HostsEntry>) -> Seq<char>
    decreases entries.len(),
{
    if entries.len() == 0 {
        seq![]
    } else {
        prefixed_lines(entries.drop_last()) + nl() + entry_line(entries.last())
    }
}

/// The managed block for the entries: the begin marker, one line per entry and
/// the end marker, joined by line feeds; empty when there are no entries.
pub open spec fn managed_block(entries: Seq<HostsEntry>) -> Seq<char> {
    if entries.len() == 0 {
        seq![]
    } else {
        BLOCK_BEGIN@ + prefixed_lines(entries) + nl() + BLOCK_END@
    }
}

/// The hosts text with its managed block replaced by one for `entries`. The
/// text outside the block loses its trailing whitespace; the result ends with
/// a line feed.
pub open spec fn merged(existing: Seq<char>, entries: Seq<HostsEntry>) -> Seq<char> {
    let base = trim_end(managed_removed(existing));
    if entries.len() == 0 {
        base + nl()
    } else {
        with_separator(base) + managed_block(entries) + nl()
    }
}

/// Removes the first block from `begin` through the following `end` marker.
fn remove_block(v: &Vec<char>, begin: &Vec<char>, end: &Vec<char>) -> (r: Vec<char>)
    ensures
        r@ == cut_block(v@, begin@, end@),
{
    assert(v@.subrange(0, v@.len() as int) =~= v@);
    let start = match find_in(v, 0, v.len(), begin) {
        None => {
            let mut out: Vec<char> = Vec::new();
            push_all(&mut out, v);
            assert(out@ =~= v@);
            return out;
        },
        Some(s) => s,
    };
    let ghost content = v@;
    let ghost tail = content.skip(start as int);
    assert(content.take(start as int) =~= v@.subrange(0, start as int));
    assert(tail =~= v@.subrange(start as int, v@.len() as int));
    let head_end = trim_end_at(v, 0, start);
    let mut out: Vec<char> = Vec::new();
    push_range(&mut out, v, 0, head_end);
    assert(out@ =~= trim_end(content.take(start as int)));
    let ghost head = out@;
    match find_in(v, start, v.len(), end) {
        Some(k) => {
            let end_offset = k + end.len();
            if end_offset < v.len() {
                assert(tail.skip(k - start + end@.len()) =~= v@.subrange(
                    end_offset as int,
                    v@.len() as int,
                ));
                let rest_start = skip_newlines_at(v, end_offset, v.len());
                if out.len() > 0 && rest_start < v.len() {
                    out.push('\n');
                }
                push_range(&mut out, v, rest_start, v.len());
                let ghost rest = v@.subrange(rest_start as int, v@.len() as int);
                assert(rest == trim_start_newlines(tail.skip(k - start + end@.len())));
                proof {
                    if head.len() > 0 && rest.len() > 0 {
                        assert(out@ =~= head + nl() + rest);
                    } else {
                        assert(out@ =~= head + rest);
                    }
                }
            }
        },
        None => {},
    }
    out
}

/// The iOS simulator route block.
pub fn ios_sim_block() -> (r: String)
    ensures
        r@ == ios_sim_block_text(),
{
    let v = ios_sim_block_chars();
    string_of(&v)
}

fn ios_sim_block_chars() -> (r: Vec<char>)
    ensures
        r@ == ios_sim_block_text(),
{
    let mut out: Vec<char> = Vec::new();
    push_str(&mut out, IOS_SIM_BEGIN);
    out.push('\n');
    push_str(&mut out, IOS_SIM_ENTRY);
    out.push('\n');
    push_str(&mut out, IOS_SIM_END);
    out.push('\n');
    assert(out@ =~= ios_sim_block_text());
    out
}

pub(crate) fn contains_chars(v: &Vec<char>, p: &Vec<char>) -> (r: bool)
    ensures
        r == contains(v@, p@),
{
    proof {
        crate::text::lemma_find(v@, p@);
    }
    assert(v@.subrange(0, v@.len() as int) =~= v@);
    find_in(v, 0, v.len(), p).is_some()
}

fn ios_sim_present_chars(v: &Vec<char>) -> (r: bool)
    ensures
        r == ios_sim_present(v@),
{
    let b = chars_of(IOS_SIM_BEGIN);
    let e = chars_of(IOS_SIM_END);
    let n = chars_of(IOS_SIM_ENTRY);
    contains_chars(v, &b) && contains_chars(v, &e) && contains_chars(v, &n)
}

/// Whether the text holds the iOS simulator route.
pub fn is_ios_sim_block_present(content: &str) -> (r: bool)
    ensures
        r == ios_sim_present(content@),
{
    let v = chars_of(content);
    ios_sim_present_chars(&v)
}

fn append_ios_sim_chars(v: &Vec<char>) -> (r: Vec<char>)
    ensures
        r@ == ios_sim_appended(v@),
{
    let k = trim_end_at(v, 0, v.len());
    assert(v@.subrange(0, v@.len() as int) =~= v@);
    let mut out: Vec<char> = Vec::new();
    push_range(&mut out, v, 0, k);
    if out.len() > 0 {
        out.push('\n');
    }
    let block = ios_sim_block_chars();
    push_all(&mut out, &block);
    out
}

/// The text with the iOS simulator route block added at its end.
pub fn append_ios_sim_block(content: &str) -> (r: String)
    ensures
        r@ == ios_sim_appended(content@),
{
    let v = chars_of(content);
    let out = append_ios_sim_chars(&v);
    string_of(&out)
}

fn remove_ios_sim_chars(v: &Vec<char>) -> (r: Vec<char>)
    ensures
        r@ == ios_sim_removed(v@),
{
    let b = chars_of(IOS_SIM_BEGIN);
    let e = chars_of(IOS_SIM_END);
    assert(v@.subrange(0, v@.len() as int) =~= v@);
    if find_in(v, 0, v.len(), &b).is_none() {
        let mut out: Vec<char> = Vec::new();
        push_all(&mut out, v);
        assert(out@ =~= v@);
        return out;
    }
    let mut out = remove_block(v, &b, &e);
    if out.len() > 0 && out[out.len() - 1] != '\n' {
        out.push('\n');
    }
    out
}

/// The text with the first iOS simulator route block removed.
pub fn remove_ios_sim_block(content: &str) -> (r: String)
    ensures
        r@ == ios_sim_removed(content@),
{
    let v = chars_of(content);
    let out = remove_ios_sim_chars(&v);
    string_of(&out)
}

/// The text with the first managed block removed.
pub fn remove_managed_block(content: &str) -> (r: String)
    ensures
        r@ == managed_removed(content@),
{
    let v = chars_of(content);
    let out = managed_removed_chars(&v);
    string_of(&out)
}

fn managed_removed_chars(v: &Vec<char>) -> (r: Vec<char>)
    ensures
        r@ == managed_removed(v@),
{
    let b = chars_of(BLOCK_BEGIN);
    let e = chars_of(BLOCK_END);
    remove_block(v, &b, &e)
}

fn managed_block_chars(entries: &Vec<HostsEntry>) -> (r: Vec<char>)
    ensures
        r@ == managed_block(entries@),
{
    let mut out: Vec<char> = Vec::new();
    if entries.len() == 0 {
        return out;
    }
    push_str(&mut out, BLOCK_BEGIN);
    let mut i: usize = 0;
    while i < entries.len()
        invariant
            i <= entries@.len(),
            out@ == BLOCK_BEGIN@ + prefixed_lines(entries@.take(i as int)),
        decreases entries@.len() - i,
    {
        out.push('\n');
        let line = entries[i].line_chars();
        push_all(&mut out, &line);
        assert(entries@.take(i + 1).drop_last() =~= entries@.take(i as int));
        assert(out@ =~= BLOCK_BEGIN@ + prefixed_lines(entries@.take(i + 1)));
        i = i + 1;
    }
    assert(entries@.take(entries@.len() as int) =~= entries@);
    out.push('\n');
    push_str(&mut out, BLOCK_END);
    assert(out@ =~= managed_block(entries@));
    out
}

/// The managed block for the entries.
pub fn format_managed_block(entries: &Vec<HostsEntry>) -> (r: String)
    ensures
        r@ == managed_block(entries@),
{
    let v = managed_block_chars(entries);
    string_of(&v)
}

/// The hosts text with its managed block replaced by one for `entries`.
pub fn merge(existing: &str, entries: &Vec<HostsEntry>) -> (r: String)
    ensures
        r@ == merged(existing@, entries@),
{
    let v = chars_of(existing);
    let base = managed_removed_chars(&v);
    let k = trim_end_at(&base, 0, base.len());
    assert(base@.subrange(0, base@.len() as int) =~= base@);
    let mut out: Vec<char> = Vec::new();
    push_range(&mut out, &base, 0, k);
    if entries.len() == 0 {
        out.push('\n');
        return string_of(&out);
    }
    if out.len() > 0 {
        out.push('\n');
    }
    let block = managed_block_chars(entries);
    push_all(&mut out, &block);
    out.push('\n');
    string_of(&out)
}

/// The new hosts text when the configured entries are applied to `current`:
/// refused when hosts management is disabled, else `current` merged with the
/// configured entries.
pub fn apply(config: &HostsConfig, current: &str) -> (r: Result<String, HostsError>)
    ensures
        !config.enabled ==> r == Err::<String, HostsError>(HostsError::Disabled),
        config.enabled ==> (r matches Ok(s) && s@ == merged(current@, config.entries@)),
{
    if !config.enabled {
        return Err(HostsError::Disabled);
    }
    Ok(merge(current, &config.entries))
}

/// The new hosts text when the managed block is cleared from `current`.
pub fn clear_managed(current: &str) -> (r: String)
    ensures
        r@ == managed_removed(current@),
{
    remove_managed_block(current)
}

/// Whether the iOS simulator route is active, given the hosts text when it
/// could be read (`None` when it could not, which counts as inactive).
pub fn is_ios_sim_route_active(content: Option<&str>) -> (r: bool)
    ensures
        r == match content {
            Some(c) => ios_sim_present(c@),
            None => false,
        },
{
    match content {
        Some(c) => is_ios_sim_block_present(c),
        None => false,
    }
}

/// The text and the new state after toggling the route: the route block is
/// removed when present (the route is then off) and appended otherwise.
pub open spec fn ios_sim_toggled(content: Seq<char>) -> (Seq<char>, bool) {
    if ios_sim_present(content) {
        (ios_sim_removed(content), false)
    } else {
        (ios_sim_appended(content), true)
    }
}

/// Toggles the iOS simulator route in `current`: removes the block when the
/// route is present, appends it otherwise. Returns the new text and whether
/// the route is now enabled.
pub fn toggle_ios_sim_route(current: &str) -> (r: (String, bool))
    ensures
        (r.0@, r.1) == ios_sim_toggled(current@),
{
    let v = chars_of(current);
    let active = ios_sim_present_chars(&v);
    let updated = if active {
        remove_ios_sim_chars(&v)
    } else {
        append_ios_sim_chars(&v)
    };
    (string_of(&updated), !active)
}

} // verus!

verus! {

// ---------------------------------------------------------------------------
// Laws
// ---------------------------------------------------------------------------

/// Facts about the marker texts that the laws rest on.
proof fn lemma_markers()
    ensures
        no_newline(BLOCK_BEGIN@),
        no_newline(BLOCK_END@),
        no_newline(IOS_SIM_BEGIN@),
        no_newline(IOS_SIM_END@),
        no_newline(IOS_SIM_ENTRY@),
        BLOCK_BEGIN@.len() > 0,
        IOS_SIM_BEGIN@.len() > 0,
        IOS_SIM_END@.len() > 0,
        !contains(BLOCK_BEGIN@, BLOCK_END@),
        !contains(IOS_SIM_BEGIN@, IOS_SIM_END@),
        !contains(IOS_SIM_ENTRY@, IOS_SIM_END@),
        is_ws('\n'),
{
    reveal_strlit("# --- ainv-helper begin ---");
    reveal_strlit("# --- ainv-helper end ---");
    reveal_strlit("# BEGIN AMIO IOS SIMULATOR");
    reveal_strlit("# END AMIO IOS SIMULATOR");
    reveal_strlit("127.0.0.1 invest-test.alfabank.ru");
    let bb = BLOCK_BEGIN@;
    let be = BLOCK_END@;
    assert forall|i: int| !occurs_at(bb, be, i) by {
        if occurs_at(bb, be, i) {
            assert(bb.subrange(i, i + be.len())[0] == be[0]);
            assert(i == 0);
            assert(bb.subrange(i, i + be.len())[18] == be[18]);
        }
    }
    let ib = IOS_SIM_BEGIN@;
    let ie = IOS_SIM_END@;
    let en = IOS_SIM_ENTRY@;
    assert forall|i: int| !occurs_at(ib, ie, i) by {
        if occurs_at(ib, ie, i) {
            assert(ib.subrange(i, i + ie.len())[0] == ie[0]);
            assert(i == 0);
            assert(ib.subrange(i, i + ie.len())[2] == ie[2]);
        }
    }
    assert forall|i: int| !occurs_at(en, ie, i) by {
        if occurs_at(en, ie, i) {
            assert(en.subrange(i, i + ie.len())[0] == ie[0]);
        }
    }
}

/// The route block holds its begin marker first, then the entry, then the
/// end marker, each on a line of its own.
proof fn lemma_block_layout()
    ensures
        occurs_at(ios_sim_block_text(), IOS_SIM_BEGIN@, 0),
        occurs_at(ios_sim_block_text(), IOS_SIM_ENTRY@, IOS_SIM_BEGIN@.len() + 1int),
        occurs_at(
            ios_sim_block_text(),
            IOS_SIM_END@,
            IOS_SIM_BEGIN@.len() + IOS_SIM_ENTRY@.len() + 2int,
        ),
        ios_sim_block_text() =~= (IOS_SIM_BEGIN@ + nl() + IOS_SIM_ENTRY@) + nl() + (IOS_SIM_END@
            + nl()),
{
    let b = ios_sim_block_text();
    let lb = IOS_SIM_BEGIN@.len() as int;
    let ln = IOS_SIM_ENTRY@.len() as int;
    let le = IOS_SIM_END@.len() as int;
    assert(b.subrange(0, lb) =~= IOS_SIM_BEGIN@);
    assert(b.subrange(lb + 1, lb + 1 + ln) =~= IOS_SIM_ENTRY@);
    assert(b.subrange(lb + ln + 2, lb + ln + 2 + le) =~= IOS_SIM_END@);
}

/// `with_separator(trim_end(t))` followed by a block that starts with `p`,
/// where `p` is not in `t`, finds `p` where the block starts.
proof fn lemma_find_block_start(c: Seq<char>, block: Seq<char>, p: Seq<char>)
    requires
        no_newline(p),
        !contains(c, p),
        occurs_at(block, p, 0),
    ensures
        find(with_separator(trim_end(c)) + block, p) == Some(
            with_separator(trim_end(c)).len() as int,
        ),
        !contains(trim_end(c), p),
{
    let t = trim_end(c);
    lemma_trim_end_shape(c);
    lemma_prefix_not_contains(c, t.len() as int, p);
    if t.len() > 0 {
        assert(with_separator(t) + block =~= t + nl() + block);
        lemma_find_after_newline(t, block, p);
    } else {
        assert(with_separator(t) + block =~= block);
        lemma_find_at_start(block, p);
    }
}

/// `trim_end` of `with_separator(trim_end(c))` is `trim_end(c)`.
proof fn lemma_trim_separator(c: Seq<char>)
    ensures
        trim_end(with_separator(trim_end(c))) == trim_end(c),
{
    lemma_markers();
    lemma_trim_end_idempotent(c);
    if trim_end(c).len() > 0 {
        lemma_trim_end_append_ws(trim_end(c), nl());
    }
}

/// Adding the iOS simulator route always leaves the route present.
pub proof fn law_appended_route_is_present(content: Seq<char>)
    ensures
        ios_sim_present(ios_sim_appended(content)),
{
    let w = with_separator(trim_end(content));
    let b = ios_sim_block_text();
    lemma_block_layout();
    lemma_occurs_shift(w, b, IOS_SIM_BEGIN@, 0);
    lemma_occurs_shift(w, b, IOS_SIM_ENTRY@, IOS_SIM_BEGIN@.len() + 1int);
    lemma_occurs_shift(w, b, IOS_SIM_END@, IOS_SIM_BEGIN@.len() + IOS_SIM_ENTRY@.len() + 2int);
}

/// Removing the route right after adding it gives back the text it was added to,
/// with its trailing whitespace reduced to a single line feed (none when the
/// text is blank), and the route is then absent. This holds when the text had
/// no route begin marker of its own.
pub proof fn law_remove_undoes_append(content: Seq<char>)
    requires
        !contains(content, IOS_SIM_BEGIN@),
    ensures
        ios_sim_removed(ios_sim_appended(content)) == with_separator(trim_end(content)),
        !ios_sim_present(with_separator(trim_end(content))),
{
    let t = trim_end(content);
    let w = with_separator(t);
    let b = ios_sim_block_text();
    let m = w + b;
    lemma_markers();
    lemma_block_layout();
    lemma_trim_end_shape(content);
    lemma_find_block_start(content, b, IOS_SIM_BEGIN@);
    let start = w.len() as int;
    assert(m.take(start) =~= w);
    assert(m.skip(start) =~= b);
    lemma_trim_separator(content);
    let x = IOS_SIM_BEGIN@ + nl() + IOS_SIM_ENTRY@;
    let y = IOS_SIM_END@ + nl();
    lemma_not_contains_join(IOS_SIM_BEGIN@, IOS_SIM_ENTRY@, IOS_SIM_END@);
    assert(y.subrange(0, IOS_SIM_END@.len() as int) =~= IOS_SIM_END@);
    lemma_find_after_newline(x, y, IOS_SIM_END@);
    let k = x.len() + 1int;
    assert(b.skip(k + IOS_SIM_END@.len()) =~= nl());
    assert(nl().drop_first() =~= Seq::<char>::empty());
    assert(trim_start_newlines(nl()) == trim_start_newlines(Seq::<char>::empty()));
    assert(cut_block(m, IOS_SIM_BEGIN@, IOS_SIM_END@) =~= t);
    if t.len() > 0 {
        lemma_not_contains_newline_end(t, IOS_SIM_BEGIN@);
    }
}

/// Toggling the route twice restores the text (with its trailing whitespace
/// reduced to one line feed) and reports the route on, then off. This holds
/// when the text had no route begin marker of its own.
pub proof fn law_toggle_twice_restores(content: Seq<char>)
    requires
        !contains(content, IOS_SIM_BEGIN@),
    ensures
        ios_sim_toggled(content).1,
        ios_sim_present(ios_sim_toggled(content).0),
        !ios_sim_toggled(ios_sim_toggled(content).0).1,
        ios_sim_toggled(ios_sim_toggled(content).0).0 == with_separator(trim_end(content)),
        !ios_sim_present(ios_sim_toggled(ios_sim_toggled(content).0).0),
{
    law_appended_route_is_present(content);
    law_remove_undoes_append(content);
}

/// The begin marker and the entry lines hold no end marker when no line does.
proof fn lemma_lines_without_end(entries: Seq<HostsEntry>)
    requires
        forall|i: int| 0 <= i < entries.len() ==> !contains(#[trigger] entry_line(entries[i]), BLOCK_END@),
    ensures
        !contains(BLOCK_BEGIN@ + prefixed_lines(entries), BLOCK_END@),
    decreases entries.len(),
{
    lemma_markers();
    if entries.len() == 0 {
        assert(BLOCK_BEGIN@ + prefixed_lines(entries) =~= BLOCK_BEGIN@);
    } else {
        let init = entries.drop_last();
        assert forall|i: int| 0 <= i < init.len() implies !contains(
            #[trigger] entry_line(init[i]),
            BLOCK_END@,
        ) by {
            assert(init[i] == entries[i]);
        }
        lemma_lines_without_end(init);
        assert(!contains(entry_line(entries[entries.len() - 1]), BLOCK_END@));
        lemma_not_contains_join(
            BLOCK_BEGIN@ + prefixed_lines(init),
            entry_line(entries.last()),
            BLOCK_END@,
        );
        assert(BLOCK_BEGIN@ + prefixed_lines(entries) =~= (BLOCK_BEGIN@ + prefixed_lines(init))
            + nl() + entry_line(entries.last()));
    }
}

/// Clearing the managed block right after applying entries gives back the
/// text outside the block, without its trailing whitespace (followed by one
/// line feed when there were no entries, since then no block was written).
/// This holds when the text outside the first managed block has no begin
/// marker of its own and no entry line holds the end marker.
pub proof fn law_clear_undoes_apply(existing: Seq<char>, entries: Seq<HostsEntry>)
    requires
        !contains(managed_removed(existing), BLOCK_BEGIN@),
        forall|i: int| 0 <= i < entries.len() ==> !contains(#[trigger] entry_line(entries[i]), BLOCK_END@),
    ensures
        managed_removed(merged(existing, entries)) == if entries.len() == 0 {
            trim_end(managed_removed(existing)) + nl()
        } else {
            trim_end(managed_removed(existing))
        },
{
    let c = managed_removed(existing);
    let base = trim_end(c);
    lemma_markers();
    lemma_trim_end_shape(c);
    lemma_prefix_not_contains(c, base.len() as int, BLOCK_BEGIN@);
    if entries.len() == 0 {
        lemma_not_contains_newline_end(base, BLOCK_BEGIN@);
        crate::text::lemma_find(base + nl(), BLOCK_BEGIN@);
    } else {
        let x = BLOCK_BEGIN@ + prefixed_lines(entries);
        let y = BLOCK_END@ + nl();
        let tail = managed_block(entries) + nl();
        let w = with_separator(base);
        let m = merged(existing, entries);
        assert(tail =~= x + nl() + y);
        assert(m =~= w + tail);
        assert(tail.subrange(0, BLOCK_BEGIN@.len() as int) =~= BLOCK_BEGIN@);
        lemma_find_block_start(c, tail, BLOCK_BEGIN@);
        let start = w.len() as int;
        assert(m.take(start) =~= w);
        assert(m.skip(start) =~= tail);
        lemma_trim_separator(c);
        lemma_lines_without_end(entries);
        assert(y.subrange(0, BLOCK_END@.len() as int) =~= BLOCK_END@);
        lemma_find_after_newline(x, y, BLOCK_END@);
        let k = x.len() + 1int;
        assert(tail.skip(k + BLOCK_END@.len()) =~= nl());
        assert(nl().drop_first() =~= Seq::<char>::empty());
        assert(trim_start_newlines(nl()) == trim_start_newlines(Seq::<char>::empty()));
        assert(managed_removed(m) =~= base);
    }
}

/// Applying the same entries twice gives the same text as applying them
/// once, under the conditions of `law_clear_undoes_apply`.
pub proof fn law_apply_idempotent(existing: Seq<char>, entries: Seq<HostsEntry>)
    requires
        !contains(managed_removed(existing), BLOCK_BEGIN@),
        forall|i: int| 0 <= i < entries.len() ==> !contains(#[trigger] entry_line(entries[i]), BLOCK_END@),
    ensures
        merged(merged(existing, entries), entries) == merged(existing, entries),
{
    let base = trim_end(managed_removed(existing));
    law_clear_undoes_apply(existing, entries);
    lemma_trim_end_idempotent(managed_removed(existing));
    if entries.len() == 0 {
        lemma_markers();
        lemma_trim_end_append_ws(base, nl());
    }
}

/// After applying entries, every entry's line is in the hosts text.
pub proof fn law_applied_entries_present(existing: Seq<char>, entries: Seq<HostsEntry>, i: int)
    requires
        0 <= i < entries.len(),
    ensures
        contains(merged(existing, entries), entry_line(entries[i])),
    decreases entries.len(),
{
    let base = trim_end(managed_removed(existing));
    let w = with_separator(base);
    let pl = prefixed_lines(entries);
    lemma_line_in_prefixed(entries, i);
    let j = choose|j: int| occurs_at(pl, entry_line(entries[i]), j);
    lemma_occurs_shift(BLOCK_BEGIN@, pl, entry_line(entries[i]), j);
    let x = BLOCK_BEGIN@ + pl;
    lemma_occurs_extend(x, nl() + BLOCK_END@ + nl(), entry_line(entries[i]), BLOCK_BEGIN@.len() + j);
    assert(x + (nl() + BLOCK_END@ + nl()) =~= managed_block(entries) + nl());
    lemma_occurs_shift(w, managed_block(entries) + nl(), entry_line(entries[i]), BLOCK_BEGIN@.len() + j);
    assert(merged(existing, entries) =~= w + (managed_block(entries) + nl()));
}

proof fn lemma_line_in_prefixed(entries: Seq<HostsEntry>, i: int)
    requires
        0 <= i < entries.len(),
    ensures
        contains(prefixed_lines(entries), entry_line(entries[i])),
    decreases entries.len(),
{
    let init = entries.drop_last();
    let line = entry_line(entries.last());
    assert(prefixed_lines(entries) == (prefixed_lines(init) + nl()) + line);
    if i == entries.len() - 1 {
        assert(line.subrange(0, line.len() as int) =~= line);
        lemma_occurs_shift(prefixed_lines(init) + nl(), line, line, 0);
    } else {
        lemma_line_in_prefixed(init, i);
        assert(init[i] == entries[i]);
        let j = choose|j: int| occurs_at(prefixed_lines(init), entry_line(init[i]), j);
        lemma_occurs_extend(prefixed_lines(init), nl() + line, entry_line(entries[i]), j);
        assert(prefixed_lines(init) + (nl() + line) =~= prefixed_lines(entries));
    }
}

} // verus!

verus! {

// ---------------------------------------------------------------------------
// Installing a new hosts file
// ---------------------------------------------------------------------------

/// `v` with every `'` written as `'\''`, which ends a single-quoted shell
/// word, adds a quote and starts a new single-quoted word.
pub open spec fn quote_escaped(v: Seq<char>) -> Seq<char>
    decreases v.len(),
{
    if v.len() == 0 {
        seq![]
    } else if v.last() == '\'' {
        quote_escaped(v.drop_last()) + seq!['\'', '\\', '\'', '\'']
    } else {
        quote_escaped(v.drop_last()).push(v.last())
    }
}

/// A path as a shell word: single-quoted when it holds a space or a quote,
/// as it is otherwise.
pub open spec fn shell_word(v: Seq<char>) -> Seq<char> {
    if v.contains(' ') || v.contains('\'') {
        seq!['\''] + quote_escaped(v) + seq!['\'']
    } else {
        v
    }
}

/// A path as a shell word.
pub fn shell_escape(path: &str) -> (r: String)
    ensures
        r@ == shell_word(path@),
{
    let v = chars_of(path);
    let mut special = false;
    let mut i: usize = 0;
    while i < v.len()
        invariant
            i <= v@.len(),
            special == exists|j: int| 0 <= j < i && (v@[j] == ' ' || v@[j] == '\''),
        decreases v@.len() - i,
    {
        if v[i] == ' ' || v[i] == '\'' {
            special = true;
        }
        i = i + 1;
    }
    assert(special == (v@.contains(' ') || v@.contains('\''))) by {
        if v@.contains(' ') {
            let j = choose|j: int| 0 <= j < v@.len() && v@[j] == ' ';
            assert(0 <= j < v@.len() && (v@[j] == ' ' || v@[j] == '\''));
        }
        if v@.contains('\'') {
            let j = choose|j: int| 0 <= j < v@.len() && v@[j] == '\'';
            assert(0 <= j < v@.len() && (v@[j] == ' ' || v@[j] == '\''));
        }
    }
    if !special {
        return owned_chars(&v);
    }
    let mut out: Vec<char> = Vec::new();
    out.push('\'');
    let mut k: usize = 0;
    while k < v.len()
        invariant
            k <= v@.len(),
            out@ == seq!['\''] + quote_escaped(v@.take(k as int)),
        decreases v@.len() - k,
    {
        assert(v@.take(k + 1).drop_last() =~= v@.take(k as int));
        assert(v@.take(k + 1).last() == v@[k as int]);
        if v[k] == '\'' {
            out.push('\'');
            out.push('\\');
            out.push('\'');
            out.push('\'');
        } else {
            out.push(v[k]);
        }
        assert(out@ =~= seq!['\''] + quote_escaped(v@.take(k + 1)));
        k = k + 1;
    }
    assert(v@.take(v@.len() as int) =~= v@);
    out.push('\'');
    string_of(&out)
}

fn owned_chars(v: &Vec<char>) -> (r: String)
    ensures
        r@ == v@,
{
    string_of(v)
}

/// The start of the root shell command that installs a staged hosts file: it
/// first keeps a time-stamped backup of the current one.
pub const INSTALL_PREFIX: &'static str = "cp /etc/hosts /etc/hosts.ainv-backup.$(date +%s) 2>/dev/null; cp ";

/// The root shell command that backs up `/etc/hosts` and copies the staged
/// file at `staged` over it.
pub open spec fn install_command_text(staged: Seq<char>) -> Seq<char> {
    INSTALL_PREFIX@ + shell_word(staged) + seq![' '] + HOSTS_PATH@
}

/// The root shell command that installs the staged hosts file.
pub fn install_command(staged: &str) -> (r: String)
    ensures
        r@ == install_command_text(staged@),
{
    let mut out: Vec<char> = Vec::new();
    push_str(&mut out, INSTALL_PREFIX);
    let w = shell_escape(staged);
    push_str(&mut out, w.as_str());
    out.push(' ');
    push_str(&mut out, HOSTS_PATH);
    assert(out@ =~= install_command_text(staged@));
    string_of(&out)
}

/// Where the new hosts text is staged before it is copied into place.
pub fn staging_path() -> (r: String)
    ensures
        exists|base: Option<Seq<char>>| r@ == path_join(app_dir(base), "hosts.staging"@),
{
    config_file("hosts.staging")
}

/// The text holds at most one route begin marker.
pub open spec fn single_route_marker(content: Seq<char>) -> bool {
    forall|i: int, j: int|
        occurs_at(content, IOS_SIM_BEGIN@, i) && occurs_at(content, IOS_SIM_BEGIN@, j) ==> i == j
}

/// Toggling reports the state that the new text is in: the route is present
/// in the new text exactly when toggling reports it on. This holds when the
/// text holds at most one route begin marker.
pub proof fn law_toggle_reports_state(content: Seq<char>)
    requires
        single_route_marker(content),
    ensures
        ios_sim_toggled(content).1 == ios_sim_present(ios_sim_toggled(content).0),
{
    if !ios_sim_present(content) {
        law_appended_route_is_present(content);
        return;
    }
    lemma_markers();
    let b = IOS_SIM_BEGIN@;
    let e = IOS_SIM_END@;
    crate::text::lemma_find(content, b);
    let start = find(content, b)->0;
    let head = trim_end(content.take(start));
    let tail = content.skip(start);
    lemma_trim_end_shape(content.take(start));
    assert(!contains(head, b)) by {
        if contains(head, b) {
            let j = choose|j: int| occurs_at(head, b, j);
            assert(head =~= content.take(start).take(head.len() as int));
            lemma_occurs_in_prefix(content.take(start), head.len() as int, b, j);
            lemma_occurs_in_prefix(content, start, b, j);
        }
    }
    let cut = cut_block(content, b, e);
    assert(!contains(cut, b)) by {
        crate::text::lemma_find(tail, e);
        match find(tail, e) {
            Some(k) => {
                if k + e.len() < tail.len() {
                    let m = start + k + e.len();
                    let after = tail.skip(k + e.len());
                    assert(after =~= content.skip(m));
                    let rest = trim_start_newlines(after);
                    lemma_trim_start_newlines_suffix(after);
                    assert(!contains(rest, b)) by {
                        if contains(rest, b) {
                            let j = choose|j: int| occurs_at(rest, b, j);
                            let off = after.len() - rest.len();
                            assert(occurs_at(after.skip(off), b, j));
                            lemma_occurs_in_suffix(after, off, b, j);
                            assert(occurs_at(content.skip(m), b, off + j));
                            lemma_occurs_in_suffix(content, m, b, off + j);
                            assert(occurs_at(content, b, start));
                            assert(m + off + j == start);
                        }
                    }
                    if head.len() > 0 && rest.len() > 0 {
                        lemma_not_contains_join(head, rest, b);
                    } else if head.len() == 0 {
                        assert(head + rest =~= rest);
                    } else {
                        assert(head + rest =~= head);
                    }
                }
            },
            None => {},
        }
    }
    if cut.len() > 0 && cut.last() != '\n' {
        lemma_not_contains_newline_end(cut, b);
    }
}

/// Clearing the managed block from a text that has none leaves it as it is.
pub proof fn law_clear_without_block_keeps_text(content: Seq<char>)
    requires
        !contains(content, BLOCK_BEGIN@),
    ensures
        managed_removed(content) == content,
{
    crate::text::lemma_find(content, BLOCK_BEGIN@);
}

/// Removing the route from a text without a route begin marker leaves it as
/// it is.
pub proof fn law_remove_without_route_keeps_text(content: Seq<char>)
    requires
        !contains(content, IOS_SIM_BEGIN@),
    ensures
        ios_sim_removed(content) == content,
{
    crate::text::lemma_find(content, IOS_SIM_BEGIN@);
}

/// Cutting a block out keeps everything around it: for a text made of
/// `pre`, the begin marker, `mid`, the end marker and `post`, where the
/// begin marker first occurs right after `pre` and the end marker first
/// occurs after it right after `mid`, the result is `pre` without its
/// trailing whitespace, then the whole of `post` without its leading line
/// feeds, joined by one line feed when both are non-empty.
pub proof fn law_cut_block_keeps_surroundings(
    pre: Seq<char>,
    begin: Seq<char>,
    mid: Seq<char>,
    end: Seq<char>,
    post: Seq<char>,
)
    requires
        forall|j: int|
            0 <= j < pre.len() ==> !#[trigger] occurs_at(pre + begin + mid + end + post, begin, j),
        forall|j: int|
            0 <= j < begin.len() + mid.len() ==> !#[trigger] occurs_at(
                begin + mid + end + post,
                end,
                j,
            ),
    ensures
        cut_block(pre + begin + mid + end + post, begin, end) == (if trim_end(pre).len() > 0
            && trim_start_newlines(post).len() > 0 {
            trim_end(pre) + nl() + trim_start_newlines(post)
        } else {
            trim_end(pre) + trim_start_newlines(post)
        }),
{
    let c = pre + begin + mid + end + post;
    let tail = begin + mid + end + post;
    let p = pre.len() as int;
    assert(c.subrange(p, p + begin.len()) =~= begin);
    crate::text::lemma_find_is(c, begin, p);
    assert(c.take(p) =~= pre);
    assert(c.skip(p) =~= tail);
    let k = (begin.len() + mid.len()) as int;
    assert(tail.subrange(k, k + end.len()) =~= end);
    crate::text::lemma_find_is(tail, end, k);
    assert(tail.skip(k + end.len()) =~= post);
    if post.len() == 0 {
        assert(trim_start_newlines(post) =~= post);
        assert(trim_end(pre) + trim_start_newlines(post) =~= trim_end(pre));
    }
}

/// Clearing the managed block keeps the text before and after it: the text
/// before it loses only its trailing whitespace, and all of the text after
/// the end marker stays, less its leading line feeds.
pub proof fn law_clear_keeps_surroundings(pre: Seq<char>, mid: Seq<char>, post: Seq<char>)
    requires
        forall|j: int|
            0 <= j < pre.len() ==> !#[trigger] occurs_at(
                pre + BLOCK_BEGIN@ + mid + BLOCK_END@ + post,
                BLOCK_BEGIN@,
                j,
            ),
        forall|j: int|
            0 <= j < BLOCK_BEGIN@.len() + mid.len() ==> !#[trigger] occurs_at(
                BLOCK_BEGIN@ + mid + BLOCK_END@ + post,
                BLOCK_END@,
                j,
            ),
    ensures
        managed_removed(pre + BLOCK_BEGIN@ + mid + BLOCK_END@ + post) == (if trim_end(pre).len() > 0
            && trim_start_newlines(post).len() > 0 {
            trim_end(pre) + nl() + trim_start_newlines(post)
        } else {
            trim_end(pre) + trim_start_newlines(post)
        }),
{
    law_cut_block_keeps_surroundings(pre, BLOCK_BEGIN@, mid, BLOCK_END@, post);
}

/// Removing the route block keeps the text before and after it: the text
/// before it loses only its trailing whitespace, all of the text after the
/// end marker stays, less its leading line feeds, and the result ends with
/// a line feed unless it is empty.
pub proof fn law_remove_route_keeps_surroundings(pre: Seq<char>, mid: Seq<char>, post: Seq<char>)
    requires
        forall|j: int|
            0 <= j < pre.len() ==> !#[trigger] occurs_at(
                pre + IOS_SIM_BEGIN@ + mid + IOS_SIM_END@ + post,
                IOS_SIM_BEGIN@,
                j,
            ),
        forall|j: int|
            0 <= j < IOS_SIM_BEGIN@.len() + mid.len() ==> !#[trigger] occurs_at(
                IOS_SIM_BEGIN@ + mid + IOS_SIM_END@ + post,
                IOS_SIM_END@,
                j,
            ),
    ensures
        ios_sim_removed(pre + IOS_SIM_BEGIN@ + mid + IOS_SIM_END@ + post) == with_final_newline(
            if trim_end(pre).len() > 0 && trim_start_newlines(post).len() > 0 {
                trim_end(pre) + nl() + trim_start_newlines(post)
            } else {
                trim_end(pre) + trim_start_newlines(post)
            },
        ),
{
    let c = pre + IOS_SIM_BEGIN@ + mid + IOS_SIM_END@ + post;
    let p = pre.len() as int;
    assert(c.subrange(p, p + IOS_SIM_BEGIN@.len()) =~= IOS_SIM_BEGIN@);
    crate::text::lemma_find_is(c, IOS_SIM_BEGIN@, p);
    law_cut_block_keeps_surroundings(pre, IOS_SIM_BEGIN@, mid, IOS_SIM_END@, post);
}

/// Toggling an active route off keeps the text before and after its block,
/// as removing the route does, and reports the route as off.
pub proof fn law_toggle_off_keeps_surroundings(pre: Seq<char>, mid: Seq<char>, post: Seq<char>)
    requires
        ios_sim_present(pre + IOS_SIM_BEGIN@ + mid + IOS_SIM_END@ + post),
        forall|j: int|
            0 <= j < pre.len() ==> !#[trigger] occurs_at(
                pre + IOS_SIM_BEGIN@ + mid + IOS_SIM_END@ + post,
                IOS_SIM_BEGIN@,
                j,
            ),
        forall|j: int|
            0 <= j < IOS_SIM_BEGIN@.len() + mid.len() ==> !#[trigger] occurs_at(
                IOS_SIM_BEGIN@ + mid + IOS_SIM_END@ + post,
                IOS_SIM_END@,
                j,
            ),
    ensures
        ios_sim_toggled(pre + IOS_SIM_BEGIN@ + mid + IOS_SIM_END@ + post) == (
            with_final_newline(
                if trim_end(pre).len() > 0 && trim_start_newlines(post).len() > 0 {
                    trim_end(pre) + nl() + trim_start_newlines(post)
                } else {
                    trim_end(pre) + trim_start_newlines(post)
                },
            ),
            false,
        ),
{
    law_remove_route_keeps_surroundings(pre, mid, post);
}

} // verus!
