//! Completion from a shell's own engine: what to run, how to read what it
//! prints, and which answer still counts when it arrives.
//!
//! Each engine drives a **cold one-shot** subshell. The caller runs it and hands
//! its output back; this module shapes the output into the protocol's
//! [`CompletionResponse`].

use vstd::prelude::*;
use vstd::utf8::{encode_utf8, is_char_boundary, is_char_boundary_start_end_of_seq};
use crate::completion::{CompletionItem, CompletionResponse, ItemView, ResponseView, item_views};
use crate::text::{begins_with, chars_of, find_char, find_first, find_first_is, has_prefix, is_white, join_on, same_chars, split_chars, split_on, split_undoes_join, string_of, sub_chars, trim, trimmed, trimmed_end, char_rows, decoded_text, from_utf8_lossy};

verus! {

/// What the event loop should do with a completion worker's result, decided by
/// [`CompletionState::resolve`].
#[derive(Clone, Debug, PartialEq, Eq)]
pub enum CompletionOutcome {
    /// Stale (the owned line moved on) or owned editing is off — ignore the result.
    Discard,
    /// Open the completion menu with these candidates.
    Open(CompletionResponse),
    /// The engine found nothing — hand the line to readline.
    FallBack,
}

/// Generation bookkeeping for owned-editor completion. A request captures the
/// current [`CompletionState::dispatch`] generation; when its result arrives it is
/// applied only if the generation still matches — otherwise an owned-editor
/// keypress or a fresh prompt has [`CompletionState::invalidate`]d it.
#[derive(Clone, Copy, Debug, PartialEq, Eq, Structural)]
pub struct CompletionState {
    pub generation: u64,
}

/// The generation after `g`.
pub open spec fn next_generation(g: u64) -> u64 {
    if g == u64::MAX {
        0
    } else {
        (g + 1) as u64
    }
}

impl CompletionState {
    /// Invalidate any in-flight request: a new owned keypress or fresh prompt makes
    /// a pending result stale.
    pub fn invalidate(&mut self)
        ensures
            final(self).generation == next_generation(old(self).generation),
    {
        self.generation = if self.generation == u64::MAX {
            0
        } else {
            self.generation + 1
        };
    }

    /// The generation to tag a request dispatched now. Call after
    /// [`Self::invalidate`].
    pub fn dispatch(&self) -> (g: u64)
        ensures
            g == self.generation,
    {
        self.generation
    }

    /// Decide what to do with the result of request `generation`. `owned` is whether
    /// owned editing is still in effect. A result is applied only when it is both
    /// current and still owned; otherwise it is discarded.
    pub fn resolve(&self, generation: u64, owned: bool, response: Option<CompletionResponse>) -> (o:
        CompletionOutcome)
        ensures
            o == if !owned || generation != self.generation {
                CompletionOutcome::Discard
            } else {
                match response {
                    Some(r) => CompletionOutcome::Open(r),
                    None => CompletionOutcome::FallBack,
                }
            },
    {
        if !owned || generation != self.generation {
            CompletionOutcome::Discard
        } else {
            match response {
                Some(r) => CompletionOutcome::Open(r),
                None => CompletionOutcome::FallBack,
            }
        }
    }
}

impl Default for CompletionState {
    fn default() -> (s: Self)
        ensures
            s.generation == 0,
    {
        CompletionState { generation: 0 }
    }
}

/// A request dispatched before an invalidation is stale after it.
pub proof fn invalidation_makes_stale(g: u64)
    ensures
        next_generation(g) != g,
{
}

/// Where the last whitespace-delimited token begins, as a byte offset.
pub open spec fn token_start(bytes: Seq<u8>) -> int
    decreases bytes.len(),
{
    if bytes.len() == 0 {
        0
    } else if bytes.last() == 0x20 || bytes.last() == 0x09 {
        bytes.len() as int
    } else {
        token_start(bytes.drop_last())
    }
}

/// Byte offset where the last whitespace-delimited token of `s` begins (0 if
/// there is no whitespace) — the in-progress word the engine completes. Quoting
/// and escaped spaces are not handled.
pub fn last_token_start(s: &str) -> (i: usize)
    ensures
        i == token_start(encode_utf8(s@)),
        i <= encode_utf8(s@).len(),
{
    let b = s.as_bytes();
    let mut i: usize = b.len();
    proof {
        assert(b@.take(b@.len() as int) =~= b@);
    }
    while i > 0 && b[i - 1] != 0x20 && b[i - 1] != 0x09
        invariant
            i <= b.len(),
            b@ == encode_utf8(s@),
            token_start(b@) == token_start(b@.take(i as int)),
        decreases i,
    {
        proof {
            assert(b@.take(i as int).drop_last() =~= b@.take(i - 1));
        }
        i = i - 1;
    }
    proof {
        if i > 0 {
            assert(b@.take(i as int).last() == b@[i - 1]);
        }
    }
    i
}

/// How one character is written inside fish single quotes.
pub open spec fn fish_char(c: char) -> Seq<char> {
    if c == '\'' {
        seq!['\\', '\'']
    } else if c == '\\' {
        seq!['\\', '\\']
    } else {
        seq![c]
    }
}

/// The characters of `s` as written inside fish single quotes.
pub open spec fn fish_escaped(s: Seq<char>) -> Seq<char>
    decreases s.len(),
{
    if s.len() == 0 {
        Seq::empty()
    } else {
        fish_escaped(s.drop_last()) + fish_char(s.last())
    }
}

/// Quote `s` as a single fish string literal, escaping the two bytes special
/// inside fish single quotes (`'` and `\`), so an arbitrary line embeds safely
/// in the `complete -C` script.
pub fn fish_single_quote(s: &str) -> (q: String)
    ensures
        q@ == seq!['\''] + fish_escaped(s@) + seq!['\''],
{
    let v = chars_of(s);
    let mut out = String::new();
    out.push('\'');
    let mut i: usize = 0;
    proof {
        assert(out@ =~= seq!['\''] + fish_escaped(v@.take(0)));
    }
    while i < v.len()
        invariant
            i <= v.len(),
            out@ == seq!['\''] + fish_escaped(v@.take(i as int)),
        decreases v.len() - i,
    {
        let ghost before = out@;
        let c = v[i];
        if c == '\'' {
            out.push('\\');
            out.push('\'');
        } else if c == '\\' {
            out.push('\\');
            out.push('\\');
        } else {
            out.push(c);
        }
        proof {
            assert(v@.take(i + 1).drop_last() =~= v@.take(i as int));
            assert(out@ =~= before + fish_char(c));
            assert(out@ =~= seq!['\''] + (fish_escaped(v@.take(i as int)) + fish_char(c)));
        }
        i = i + 1;
    }
    out.push('\'');
    proof {
        assert(v@.take(v@.len() as int) =~= v@);
        assert(out@ =~= seq!['\''] + fish_escaped(s@) + seq!['\'']);
    }
    out
}

/// What fish reads inside single quotes: a backslash takes the next character as
/// it is where that is a quote or a backslash, and a lone quote ends the text.
/// Gives the text, and what follows the closing quote.
pub open spec fn fish_read(s: Seq<char>) -> Option<(Seq<char>, Seq<char>)>
    decreases s.len(),
{
    if s.len() == 0 {
        None
    } else if s[0] == '\'' {
        Some((Seq::empty(), s.skip(1)))
    } else if s[0] == '\\' && s.len() > 1 && (s[1] == '\'' || s[1] == '\\') {
        match fish_read(s.skip(2)) {
            Some((t, rest)) => Some((seq![s[1]] + t, rest)),
            None => None,
        }
    } else {
        match fish_read(s.skip(1)) {
            Some((t, rest)) => Some((seq![s[0]] + t, rest)),
            None => None,
        }
    }
}

/// Reading a quoted line gives the line back, and nothing of it is left outside
/// the quotes: no line can break out of the literal.
pub proof fn quoted_line_reads_back(s: Seq<char>)
    ensures
        fish_read(fish_escaped(s) + seq!['\'']) == Some((s, Seq::<char>::empty())),
{
    quoted_rest_reads_back(s, 0);
    assert(s.skip(0) =~= s);
    assert(s.take(0) =~= Seq::empty());
}

proof fn fish_escaped_from_front(s: Seq<char>)
    requires
        s.len() > 0,
    ensures
        fish_escaped(s) == fish_char(s[0]) + fish_escaped(s.skip(1)),
    decreases s.len(),
{
    if s.len() == 1 {
        assert(s.drop_last() =~= Seq::empty());
        assert(s.skip(1) =~= Seq::empty());
        assert(fish_escaped(s) =~= fish_char(s[0]) + fish_escaped(s.skip(1)));
    } else {
        fish_escaped_from_front(s.drop_last());
        assert(s.drop_last().skip(1) =~= s.skip(1).drop_last());
        assert(fish_escaped(s) =~= fish_char(s[0]) + fish_escaped(s.skip(1)));
    }
}

proof fn quoted_rest_reads_back(s: Seq<char>, i: int)
    requires
        0 <= i <= s.len(),
    ensures
        fish_read(fish_escaped(s.skip(i)) + seq!['\'']) == Some((s.skip(i), Seq::<char>::empty())),
    decreases s.len() - i,
{
    let t = s.skip(i);
    let q = fish_escaped(t) + seq!['\''];
    if t.len() == 0 {
        assert(q =~= seq!['\'']);
        assert(q.skip(1) =~= Seq::empty());
        assert(t =~= Seq::empty());
    } else {
        quoted_rest_reads_back(s, i + 1);
        fish_escaped_from_front(t);
        assert(t.skip(1) =~= s.skip(i + 1));
        let rest = fish_escaped(t.skip(1)) + seq!['\''];
        assert(q =~= fish_char(t[0]) + rest);
        if t[0] == '\'' || t[0] == '\\' {
            assert(q.skip(2) =~= rest);
        } else {
            assert(q.skip(1) =~= rest);
        }
        assert(seq![t[0]] + t.skip(1) =~= t);
    }
}

/// Largest char boundary `<= i` (and `<= s.len()`).
pub fn floor_char_boundary(s: &str, i: usize) -> (b: usize)
    ensures
        is_char_boundary(encode_utf8(s@), b as int),
        b <= i,
        b <= encode_utf8(s@).len(),
        forall|j: int|
            b < j <= i && j <= encode_utf8(s@).len() ==> !is_char_boundary(encode_utf8(s@), j),
{
    let n: usize = s.as_bytes().len();
    let mut b: usize = if i < n {
        i
    } else {
        n
    };
    let ghost top = b as int;
    proof {
        vstd::utf8::encode_utf8_valid_utf8(s@);
        is_char_boundary_start_end_of_seq(encode_utf8(s@));
    }
    while !s.is_char_boundary(b)
        invariant
            b <= top <= encode_utf8(s@).len(),
            top <= i,
            top == i || top == encode_utf8(s@).len(),
            is_char_boundary(encode_utf8(s@), 0),
            forall|j: int| b < j <= top ==> !is_char_boundary(encode_utf8(s@), j),
        decreases b,
    {
        b = b - 1;
    }
    b
}

/// The lines of `s`, as `str::lines` gives them: each ends at a line feed, with
/// a carriage return before it left out; what follows the last line feed is a line
/// where it is not empty.
pub open spec fn text_lines(s: Seq<char>) -> Seq<Seq<char>> {
    let p = split_on(s, '\n');
    let ended = p.drop_last().map_values(|l: Seq<char>| without_cr(l));
    if p.last().len() == 0 {
        ended
    } else {
        ended.push(p.last())
    }
}

/// `l` without a carriage return at its end.
pub open spec fn without_cr(l: Seq<char>) -> Seq<char> {
    if l.len() > 0 && l.last() == '\r' {
        l.drop_last()
    } else {
        l
    }
}

/// The lines of `s`.
pub fn lines_of_text(s: &str) -> (v: Vec<Vec<char>>)
    ensures
        char_rows(v@) == text_lines(s@),
{
    let chars = chars_of(s);
    let mut parts = split_chars(&chars, '\n');
    let ghost p = split_on(s@, '\n');
    let ghost want = text_lines(s@);
    let mut out: Vec<Vec<char>> = Vec::new();
    let n: usize = parts.len() - 1;
    let mut i: usize = 0;
    while i < n
        invariant
            i <= n,
            n + 1 == parts@.len(),
            char_rows(parts@) == p,
            out@.len() == i,
            forall|k: int| 0 <= k < i ==> #[trigger] out@[k]@ == without_cr(p[k]),
        decreases n - i,
    {
        let part = &parts[i];
        proof {
            assert(p[i as int] == parts@[i as int]@);
        }
        let len: usize = part.len();
        let line = if len > 0 && part[len - 1] == '\r' {
            sub_chars(part, 0, len - 1)
        } else {
            sub_chars(part, 0, len)
        };
        proof {
            assert(line@ =~= without_cr(p[i as int]));
        }
        out.push(line);
        i = i + 1;
    }
    let last = &parts[n];
    proof {
        assert(p.last() == parts@[n as int]@);
    }
    if last.len() > 0 {
        let line = sub_chars(last, 0, last.len());
        proof {
            assert(line@ =~= p.last());
        }
        out.push(line);
    }
    proof {
        assert(char_rows(out@) =~= want);
    }
    out
}

/// `s` without the spaces at its end.
pub open spec fn without_spaces(s: Seq<char>) -> Seq<char>
    decreases s.len(),
{
    if s.len() > 0 && s.last() == ' ' {
        without_spaces(s.drop_last())
    } else {
        s
    }
}

/// Whether one of `items` has this value.
pub open spec fn has_value(items: Seq<ItemView>, value: Seq<char>) -> bool {
    exists|i: int| 0 <= i < items.len() && (#[trigger] items[i]).value == value
}

/// The candidates in the bash driver's output: each line without its trailing
/// spaces, where that is not empty and not listed already.
pub open spec fn bash_items(lines: Seq<Seq<char>>) -> Seq<ItemView>
    decreases lines.len(),
{
    if lines.len() == 0 {
        Seq::empty()
    } else {
        let before = bash_items(lines.drop_last());
        let value = without_spaces(lines.last());
        if value.len() == 0 || has_value(before, value) {
            before
        } else {
            before.push(ItemView { value, description: None })
        }
    }
}

/// `d` without a leading `-- `, trimmed.
pub open spec fn zsh_description(d: Seq<char>) -> Seq<char> {
    let t = trimmed(d);
    if begins_with(t, "-- "@) {
        trimmed(t.skip("-- "@.len() as int))
    } else {
        trimmed(t)
    }
}

/// What one line of the zsh driver's output holds: a value, and after a tab its
/// description where that is not empty.
pub open spec fn zsh_item(line: Seq<char>) -> ItemView {
    let k = find_first(line, '\t');
    if k < line.len() {
        let d = zsh_description(line.skip(k + 1));
        ItemView {
            value: line.take(k),
            description: if d.len() > 0 {
                Some(d)
            } else {
                None
            },
        }
    } else {
        ItemView { value: line, description: None }
    }
}

/// The candidates in the zsh driver's output, without those listed already.
pub open spec fn zsh_items(lines: Seq<Seq<char>>) -> Seq<ItemView>
    decreases lines.len(),
{
    if lines.len() == 0 {
        Seq::empty()
    } else {
        let before = zsh_items(lines.drop_last());
        let item = zsh_item(lines.last());
        if item.value.len() == 0 || has_value(before, item.value) {
            before
        } else {
            before.push(item)
        }
    }
}

/// What one line of fish's output holds: a value, and after a tab its description.
pub open spec fn fish_item(line: Seq<char>) -> ItemView {
    let k = find_first(line, '\t');
    if k < line.len() {
        ItemView { value: line.take(k), description: Some(line.skip(k + 1)) }
    } else {
        ItemView { value: line, description: None }
    }
}

/// The candidates in fish's output.
pub open spec fn fish_items(lines: Seq<Seq<char>>) -> Seq<ItemView>
    decreases lines.len(),
{
    if lines.len() == 0 {
        Seq::empty()
    } else {
        let before = fish_items(lines.drop_last());
        let item = fish_item(lines.last());
        if item.value.len() == 0 {
            before
        } else {
            before.push(item)
        }
    }
}

/// Whether one of `items` has this value.
fn listed(items: &Vec<CompletionItem>, value: &[char]) -> (b: bool)
    ensures
        b == has_value(item_views(items@), value@),
{
    let mut i: usize = 0;
    while i < items.len()
        invariant
            i <= items.len(),
            forall|k: int| 0 <= k < i ==> (#[trigger] item_views(items@)[k]).value != value@,
        decreases items.len() - i,
    {
        let v = chars_of(items[i].value.as_str());
        proof {
            assert(item_views(items@)[i as int].value == v@);
        }
        if same_chars(&v, value) {
            return true;
        }
        i = i + 1;
    }
    false
}

/// Append an item.
proof fn pushed_views(items: Seq<CompletionItem>, item: CompletionItem)
    ensures
        item_views(items.push(item)) == item_views(items).push(item@),
{
    assert(item_views(items.push(item)) =~= item_views(items).push(item@));
}

/// Parse the bash driver's output: one candidate per line, no descriptions
/// (bash carries none). Compspecs append a trailing-space suffix to a complete
/// match, so trailing spaces are stripped; command completion lists the same name
/// once per source (builtin, alias, PATH), so duplicates are dropped, first
/// occurrence wins.
pub fn parse_bash_completions(stdout: &str) -> (items: Vec<CompletionItem>)
    ensures
        item_views(items@) == bash_items(text_lines(stdout@)),
{
    let lines = lines_of_text(stdout);
    let ghost l = text_lines(stdout@);
    let mut items: Vec<CompletionItem> = Vec::new();
    let mut i: usize = 0;
    proof {
        assert(item_views(items@) =~= bash_items(l.take(0)));
    }
    while i < lines.len()
        invariant
            i <= lines.len(),
            char_rows(lines@) == l,
            item_views(items@) == bash_items(l.take(i as int)),
        decreases lines.len() - i,
    {
        proof {
            assert(l[i as int] == lines@[i as int]@);
            assert(l.take(i + 1).drop_last() =~= l.take(i as int));
        }
        let mut value = sub_chars(&lines[i], 0, lines[i].len());
        proof {
            assert(value@ =~= l[i as int]);
        }
        while value.len() > 0 && value[value.len() - 1] == ' '
            invariant
                without_spaces(value@) == without_spaces(l[i as int]),
            decreases value.len(),
        {
            let _ = value.pop();
        }
        if value.len() > 0 && !listed(&items, &value) {
            let item = CompletionItem { value: string_of(&value), description: None };
            proof {
                pushed_views(items@, item);
            }
            items.push(item);
        }
        i = i + 1;
    }
    proof {
        assert(l.take(l.len() as int) =~= l);
    }
    items
}

/// Strip a zsh description of its leading `-- `.
fn zsh_description_of(d: &[char]) -> (t: String)
    ensures
        t@ == zsh_description(d@),
{
    let s = string_of(d);
    let t = trim(s.as_str());
    let chars = chars_of(t.as_str());
    let dashes = chars_of("-- ");
    if has_prefix(&chars, &dashes) {
        let rest = sub_chars(&chars, dashes.len(), chars.len());
        proof {
            assert(rest@ =~= chars@.skip("-- "@.len() as int));
        }
        let rest = string_of(&rest);
        trim(rest.as_str())
    } else {
        trim(t.as_str())
    }
}

/// Parse the zsh driver's output: one candidate per line, `value<TAB>description`
/// where present. zsh formats descriptions as `-- text`, so a leading `-- ` is
/// stripped; matches can repeat across completion tags, so duplicate values are
/// dropped, first occurrence wins.
pub fn parse_zsh_completions(stdout: &str) -> (items: Vec<CompletionItem>)
    ensures
        item_views(items@) == zsh_items(text_lines(stdout@)),
{
    let lines = lines_of_text(stdout);
    let ghost l = text_lines(stdout@);
    let mut items: Vec<CompletionItem> = Vec::new();
    let mut i: usize = 0;
    proof {
        assert(item_views(items@) =~= zsh_items(l.take(0)));
    }
    while i < lines.len()
        invariant
            i <= lines.len(),
            char_rows(lines@) == l,
            item_views(items@) == zsh_items(l.take(i as int)),
        decreases lines.len() - i,
    {
        proof {
            assert(l[i as int] == lines@[i as int]@);
            assert(l.take(i + 1).drop_last() =~= l.take(i as int));
        }
        let line = &lines[i];
        let k: usize = find_char(line, '\t');
        let value = sub_chars(line, 0, k);
        let description: Option<String> = if k < line.len() {
            let d = sub_chars(line, k + 1, line.len());
            proof {
                assert(d@ =~= line@.skip(k + 1));
            }
            let d = zsh_description_of(&d);
            if chars_of(d.as_str()).len() > 0 {
                Some(d)
            } else {
                None
            }
        } else {
            None
        };
        proof {
            assert(value@ =~= zsh_item(l[i as int]).value);
        }
        if value.len() > 0 && !listed(&items, &value) {
            let item = CompletionItem { value: string_of(&value), description };
            proof {
                pushed_views(items@, item);
                assert(item@ == zsh_item(l[i as int]));
            }
            items.push(item);
        }
        i = i + 1;
    }
    proof {
        assert(l.take(l.len() as int) =~= l);
    }
    items
}

/// Parse fish's `complete -C` output: one candidate per line, the value and an
/// optional description separated by a tab.
pub fn parse_completions(stdout: &str) -> (items: Vec<CompletionItem>)
    ensures
        item_views(items@) == fish_items(text_lines(stdout@)),
{
    let lines = lines_of_text(stdout);
    let ghost l = text_lines(stdout@);
    let mut items: Vec<CompletionItem> = Vec::new();
    let mut i: usize = 0;
    proof {
        assert(item_views(items@) =~= fish_items(l.take(0)));
    }
    while i < lines.len()
        invariant
            i <= lines.len(),
            char_rows(lines@) == l,
            item_views(items@) == fish_items(l.take(i as int)),
        decreases lines.len() - i,
    {
        proof {
            assert(l[i as int] == lines@[i as int]@);
            assert(l.take(i + 1).drop_last() =~= l.take(i as int));
        }
        let line = &lines[i];
        let k: usize = find_char(line, '\t');
        let value = sub_chars(line, 0, k);
        let description: Option<String> = if k < line.len() {
            let d = sub_chars(line, k + 1, line.len());
            proof {
                assert(d@ =~= line@.skip(k + 1));
            }
            Some(string_of(&d))
        } else {
            None
        };
        proof {
            assert(value@ =~= fish_item(l[i as int]).value);
        }
        if value.len() > 0 {
            let item = CompletionItem { value: string_of(&value), description };
            proof {
                pushed_views(items@, item);
                assert(item@ == fish_item(l[i as int]));
            }
            items.push(item);
        }
        i = i + 1;
    }
    proof {
        assert(l.take(l.len() as int) =~= l);
    }
    items
}

/// No two candidates that bash offers are the same, and none is empty.
pub proof fn bash_candidates_are_distinct(lines: Seq<Seq<char>>)
    ensures
        forall|i: int| 0 <= i < bash_items(lines).len() ==> (#[trigger] bash_items(lines)[i]).value.len() > 0,
        forall|i: int, j: int|
            0 <= i < j < bash_items(lines).len() ==> (#[trigger] bash_items(lines)[i]).value != (
            #[trigger] bash_items(lines)[j]).value,
    decreases lines.len(),
{
    if lines.len() > 0 {
        bash_candidates_are_distinct(lines.drop_last());
        let before = bash_items(lines.drop_last());
        let all = bash_items(lines);
        assert forall|i: int| 0 <= i < all.len() implies (#[trigger] all[i]).value.len() > 0 by {
            if i < before.len() {
                assert(all[i] == before[i]);
            }
        }
        assert forall|i: int, j: int| 0 <= i < j < all.len() implies (#[trigger] all[i]).value != (
        #[trigger] all[j]).value by {
            assert(all[i] == before[i]);
            if j < before.len() {
                assert(all[j] == before[j]);
            }
        }
    }
}

/// No two candidates that zsh offers have the same value, and none is empty.
pub proof fn zsh_candidates_are_distinct(lines: Seq<Seq<char>>)
    ensures
        forall|i: int| 0 <= i < zsh_items(lines).len() ==> (#[trigger] zsh_items(lines)[i]).value.len() > 0,
        forall|i: int, j: int|
            0 <= i < j < zsh_items(lines).len() ==> (#[trigger] zsh_items(lines)[i]).value != (
            #[trigger] zsh_items(lines)[j]).value,
    decreases lines.len(),
{
    if lines.len() > 0 {
        zsh_candidates_are_distinct(lines.drop_last());
        let before = zsh_items(lines.drop_last());
        let all = zsh_items(lines);
        assert forall|i: int| 0 <= i < all.len() implies (#[trigger] all[i]).value.len() > 0 by {
            if i < before.len() {
                assert(all[i] == before[i]);
            }
        }
        assert forall|i: int, j: int| 0 <= i < j < all.len() implies (#[trigger] all[i]).value != (
        #[trigger] all[j]).value by {
            assert(all[i] == before[i]);
            if j < before.len() {
                assert(all[j] == before[j]);
            }
        }
    }
}

/// A shell whose engine can be asked.
#[derive(Clone, Copy, Debug, PartialEq, Eq, Structural)]
pub enum Engine {
    Fish,
    Bash,
    Zsh,
}

/// One question to a shell's engine: the line up to the caret.
#[derive(Clone, Debug, PartialEq, Eq)]
pub struct EngineQuery {
    /// The line up to the caret.
    pub prefix: String,
    /// The caret as a byte offset.
    pub cursor: usize,
}

/// The question for `line` with the caret at byte offset `cursor`: the line up to
/// the caret, with a stray offset snapped to a char boundary.
pub fn engine_query(line: &str, cursor: usize) -> (q: EngineQuery)
    ensures
        is_char_boundary(encode_utf8(line@), q.cursor as int),
        q.cursor <= cursor,
        q.cursor <= encode_utf8(line@).len(),
        forall|j: int|
            q.cursor < j <= cursor && j <= encode_utf8(line@).len() ==> !is_char_boundary(
                encode_utf8(line@),
                j,
            ),
        encode_utf8(q.prefix@) == encode_utf8(line@).take(q.cursor as int),
{
    let at: usize = floor_char_boundary(line, cursor);
    let (head, _tail) = line.split_at(at);
    proof {
        assert(encode_utf8(line@).take(at as int) =~= encode_utf8(line@).subrange(0, at as int));
    }
    EngineQuery { prefix: head.to_owned(), cursor: at }
}

/// The fish script that completes a line: `complete -C` on the quoted line.
pub fn fish_script(prefix: &str) -> (s: String)
    ensures
        s@ == "complete -C -- "@ + (seq!['\''] + fish_escaped(prefix@) + seq!['\'']),
{
    let mut s = "complete -C -- ".to_owned();
    let q = fish_single_quote(prefix);
    s.append(q.as_str());
    s
}

/// The candidates that an engine's output holds.
pub open spec fn engine_items(engine: Engine, stdout: Seq<u8>) -> Seq<ItemView> {
    let lines = text_lines(decoded_text(stdout));
    match engine {
        Engine::Fish => fish_items(lines),
        Engine::Bash => bash_items(lines),
        Engine::Zsh => zsh_items(lines),
    }
}

/// Shape what an engine printed into a response. `None` where it offers nothing —
/// the caller then falls back to readline. The replacement range is the
/// in-progress word (the last whitespace-delimited token up to the caret).
pub fn engine_response(engine: Engine, query: &EngineQuery, stdout: &[u8]) -> (r: Option<
    CompletionResponse,
>)
    ensures
        ({
            let items = engine_items(engine, stdout@);
            if items.len() == 0 {
                r.is_none()
            } else {
                r.is_some() && r->0@ == (ResponseView {
                    replace_start: token_start(encode_utf8(query.prefix@)) as nat,
                    replace_end: query.cursor as nat,
                    items,
                })
            }
        }),
{
    let text = from_utf8_lossy(stdout);
    let items = match engine {
        Engine::Fish => parse_completions(text.as_str()),
        Engine::Bash => parse_bash_completions(text.as_str()),
        Engine::Zsh => parse_zsh_completions(text.as_str()),
    };
    proof {
        assert(item_views(items@).len() == items@.len());
    }
    if items.len() == 0 {
        None
    } else {
        Some(
            CompletionResponse {
                replace_start: last_token_start(query.prefix.as_str()),
                replace_end: query.cursor,
                items,
            },
        )
    }
}

/// The word that a response replaces lies within the line up to the caret, holds no
/// space or tab, and stands at the line's start or right behind one.
pub proof fn replaced_range_is_in_the_line(prefix: Seq<u8>)
    ensures
        0 <= token_start(prefix) <= prefix.len(),
        forall|i: int|
            token_start(prefix) <= i < prefix.len() ==> #[trigger] prefix[i] != 0x20 && prefix[i]
                != 0x09,
        token_start(prefix) > 0 ==> prefix[token_start(prefix) - 1] == 0x20
            || prefix[token_start(prefix) - 1] == 0x09,
    decreases prefix.len(),
{
    if prefix.len() > 0 && prefix.last() != 0x20 && prefix.last() != 0x09 {
        let head = prefix.drop_last();
        replaced_range_is_in_the_line(head);
        assert forall|i: int| token_start(prefix) <= i < prefix.len() implies #[trigger] prefix[i]
            != 0x20 && prefix[i] != 0x09 by {
            if i < head.len() {
                assert(head[i] == prefix[i]);
            }
        }
        if token_start(prefix) > 0 {
            assert(head[token_start(prefix) - 1] == prefix[token_start(prefix) - 1]);
        }
    }
}

/// What was seen of a running engine.
#[derive(Clone, Copy, Debug, PartialEq, Eq, Structural)]
pub enum ChildPoll {
    /// It exited, with or without success.
    Exited(bool),
    /// It is still running.
    Running,
    /// Its state could not be read.
    Lost,
}

/// What to do with a running engine next.
#[derive(Clone, Copy, Debug, PartialEq, Eq, Structural)]
pub enum ChildStep {
    /// Collect its output and use it.
    Collect,
    /// Give up on it.
    Fail,
    /// It is past its deadline: kill it and give up.
    Kill,
    /// Look again in a moment.
    Wait,
}

/// Decide what to do with a running engine: use the output of one that succeeded,
/// give up on one that failed or was lost, kill one that is past its deadline.
pub fn child_step(poll: ChildPoll, past_deadline: bool) -> (s: ChildStep)
    ensures
        s == match poll {
            ChildPoll::Exited(ok) => if ok {
                ChildStep::Collect
            } else {
                ChildStep::Fail
            },
            ChildPoll::Running => if past_deadline {
                ChildStep::Kill
            } else {
                ChildStep::Wait
            },
            ChildPoll::Lost => ChildStep::Fail,
        },
{
    match poll {
        ChildPoll::Exited(ok) => if ok {
            ChildStep::Collect
        } else {
            ChildStep::Fail
        },
        ChildPoll::Running => if past_deadline {
            ChildStep::Kill
        } else {
            ChildStep::Wait
        },
        ChildPoll::Lost => ChildStep::Fail,
    }
}

/// Lines that were written one after the other, each with a line feed behind it, are
/// read back; a carriage return before the line feed is left out.
pub proof fn written_lines_are_read(lines: Seq<Seq<char>>, crlf: Seq<Seq<char>>)
    requires
        lines.len() >= 1,
        crlf.len() == lines.len(),
        forall|i: int| 0 <= i < lines.len() ==> !(#[trigger] lines[i]).contains('\n'),
        forall|i: int|
            0 <= i < lines.len() ==> (#[trigger] lines[i]).len() == 0 || lines[i].last() != '\r',
        forall|i: int|
            0 <= i < lines.len() ==> #[trigger] crlf[i] == lines[i] || crlf[i] == lines[i].push('\r'),
    ensures
        text_lines(join_on(crlf, seq!['\n']) + seq!['\n']) == lines,
{
    let all = crlf.push(Seq::<char>::empty());
    let s = join_on(crlf, seq!['\n']) + seq!['\n'];
    assert(all.drop_last() =~= crlf);
    assert(join_on(all, seq!['\n']) =~= s);
    assert forall|i: int| 0 <= i < all.len() implies !(#[trigger] all[i]).contains('\n') by {
        if i < lines.len() {
            assert(crlf[i] == all[i]);
            assert(!lines[i].contains('\n'));
            if all[i].contains('\n') {
                let k = choose|k: int| 0 <= k < all[i].len() && all[i][k] == '\n';
                assert(lines[i][k] == '\n');
            }
        }
    }
    split_undoes_join(all, '\n');
    let got = text_lines(s);
    assert forall|i: int| 0 <= i < lines.len() implies #[trigger] got[i] == lines[i] by {
        assert(got[i] == without_cr(crlf[i]));
        assert(lines[i].len() == 0 || lines[i].last() != '\r');
        assert(crlf[i] == lines[i] || crlf[i] == lines[i].push('\r'));
        assert(lines[i].push('\r').drop_last() =~= lines[i]);
    }
    assert(got =~= lines);
}

/// Dropping the spaces at a line's end drops spaces alone, and all of them.
pub proof fn only_trailing_spaces_are_dropped(s: Seq<char>)
    ensures
        ({
            let t = without_spaces(s);
            &&& t.len() <= s.len()
            &&& t == s.take(t.len() as int)
            &&& forall|i: int| t.len() <= i < s.len() ==> #[trigger] s[i] == ' '
            &&& t.len() > 0 ==> t.last() != ' '
        }),
    decreases s.len(),
{
    let t = without_spaces(s);
    if s.len() > 0 && s.last() == ' ' {
        only_trailing_spaces_are_dropped(s.drop_last());
        assert(s.drop_last().take(t.len() as int) =~= s.take(t.len() as int));
        assert forall|i: int| t.len() <= i < s.len() implies #[trigger] s[i] == ' ' by {
            if i < s.len() - 1 {
                assert(s.drop_last()[i] == s[i]);
            }
        }
    } else {
        assert(s.take(s.len() as int) =~= s);
    }
}

/// Every line that bash prints is offered, without its trailing spaces, and nothing that
/// it did not print; none carries a description.
pub proof fn bash_offers_every_line(lines: Seq<Seq<char>>, k: int, i: int)
    ensures
        0 <= k < lines.len() && without_spaces(lines[k]).len() > 0 ==> has_value(
            bash_items(lines),
            without_spaces(lines[k]),
        ),
        0 <= i < bash_items(lines).len() ==> bash_items(lines)[i].description.is_none(),
        0 <= i < bash_items(lines).len() ==> exists|j: int|
            0 <= j < lines.len() && without_spaces(#[trigger] lines[j]) == bash_items(lines)[i].value,
    decreases lines.len(),
{
    if lines.len() > 0 {
        let head = lines.drop_last();
        let before = bash_items(head);
        let all = bash_items(lines);
        bash_offers_every_line(head, k, i);
        if 0 <= k < lines.len() && without_spaces(lines[k]).len() > 0 {
            let v = without_spaces(lines[k]);
            if k < head.len() {
                assert(head[k] == lines[k]);
            }
            if has_value(before, v) {
                let x = choose|x: int| 0 <= x < before.len() && (#[trigger] before[x]).value == v;
                assert(all[x].value == v);
            } else {
                assert(all[all.len() - 1].value == v);
            }
        }
        if 0 <= i < all.len() {
            if i < before.len() {
                let j = choose|j: int| 0 <= j < head.len() && without_spaces(#[trigger] head[j]) == before[i].value;
                assert(lines[j] == head[j]);
            } else {
                assert(without_spaces(lines[lines.len() - 1]) == all[i].value);
            }
        }
    }
}

/// What was offered stays in its place as more lines come: candidates keep the order in
/// which they first appeared.
pub proof fn candidates_keep_their_order(lines: Seq<Seq<char>>, line: Seq<char>, i: int)
    ensures
        0 <= i < bash_items(lines).len() ==> bash_items(lines.push(line))[i] == bash_items(lines)[i],
        0 <= i < zsh_items(lines).len() ==> zsh_items(lines.push(line))[i] == zsh_items(lines)[i],
        0 <= i < fish_items(lines).len() ==> fish_items(lines.push(line))[i] == fish_items(lines)[i],
        bash_items(lines).len() <= bash_items(lines.push(line)).len() <= bash_items(lines).len() + 1,
        zsh_items(lines).len() <= zsh_items(lines.push(line)).len() <= zsh_items(lines).len() + 1,
        fish_items(lines).len() <= fish_items(lines.push(line)).len() <= fish_items(lines).len() + 1,
{
    assert(lines.push(line).drop_last() =~= lines);
}

/// A line of zsh's output with a tab has its description behind it, without the leading
/// dashes and without white space around it; one without has none.
pub proof fn zsh_lines_read_back(value: Seq<char>, d: Seq<char>)
    requires
        !value.contains('\t'),
        d.len() > 0,
        !is_white(d[0]),
        !is_white(d.last()),
    ensures
        zsh_item(value) == (ItemView { value, description: None }),
        zsh_item(value + seq!['\t'] + ("-- "@ + d)) == (ItemView { value, description: Some(d) }),
        !begins_with(d, "-- "@) ==> zsh_item(value + seq!['\t'] + d) == (ItemView {
            value,
            description: Some(d),
        }),
        zsh_item(value + seq!['\t']) == (ItemView { value, description: None }),
{
    let n = value.len() as int;
    reveal_strlit("-- ");
    let dashed = "-- "@ + d;
    no_tab_before(value, Seq::empty());
    no_tab_before(value, dashed);
    no_tab_before(value, d);
    assert(value.take(n) =~= value);
    assert forall|j: int| 0 <= j < n implies value[j] != '\t' by {
        assert(value.contains(value[j]));
    }
    find_first_is(value, '\t', n);
    let a = value + seq!['\t'] + dashed;
    assert(a.take(n) =~= value);
    assert(a.skip(n + 1) =~= dashed);
    assert(trimmed_end(dashed) =~= dashed) by {
        assert(dashed.last() == d.last());
    }
    assert(trimmed(dashed) == dashed);
    assert(dashed.take(3) =~= "-- "@);
    assert(dashed.skip(3) =~= d);
    assert(trimmed(d) == d);
    let b = value + seq!['\t'] + d;
    assert(b.take(n) =~= value);
    assert(b.skip(n + 1) =~= d);
    let e = value + seq!['\t'];
    assert(e =~= value + seq!['\t'] + Seq::<char>::empty());
    assert(e.take(n) =~= value);
    assert(e.skip(n + 1) =~= Seq::<char>::empty());
    assert(trimmed(Seq::<char>::empty()) =~= Seq::<char>::empty());
}

proof fn no_tab_before(value: Seq<char>, rest: Seq<char>)
    requires
        !value.contains('\t'),
    ensures
        find_first(value + seq!['\t'] + rest, '\t') == value.len(),
{
    let s = value + seq!['\t'] + rest;
    assert forall|j: int| 0 <= j < value.len() implies s[j] != '\t' by {
        assert(s[j] == value[j]);
        assert(value.contains(value[j]));
    }
    find_first_is(s, '\t', value.len() as int);
}

/// Every line of zsh's output with a value is offered.
pub proof fn zsh_offers_every_line(lines: Seq<Seq<char>>, k: int)
    requires
        0 <= k < lines.len(),
        zsh_item(lines[k]).value.len() > 0,
    ensures
        has_value(zsh_items(lines), zsh_item(lines[k]).value),
    decreases lines.len(),
{
    let head = lines.drop_last();
    let before = zsh_items(head);
    let all = zsh_items(lines);
    let v = zsh_item(lines[k]).value;
    if k < head.len() {
        assert(head[k] == lines[k]);
        zsh_offers_every_line(head, k);
    }
    if has_value(before, v) {
        let x = choose|x: int| 0 <= x < before.len() && (#[trigger] before[x]).value == v;
        assert(all[x].value == v);
    } else {
        assert(all[all.len() - 1].value == v);
    }
}

/// A line of fish's output is a value, with its description behind a tab; lines with a
/// value are offered in order, one candidate each.
pub proof fn fish_lines_read_back(value: Seq<char>, d: Seq<char>)
    requires
        !value.contains('\t'),
    ensures
        fish_item(value) == (ItemView { value, description: None }),
        fish_item(value + seq!['\t'] + d) == (ItemView { value, description: Some(d) }),
{
    let n = value.len() as int;
    no_tab_before(value, d);
    assert forall|j: int| 0 <= j < n implies value[j] != '\t' by {
        assert(value.contains(value[j]));
    }
    find_first_is(value, '\t', n);
    let a = value + seq!['\t'] + d;
    assert(a.take(n) =~= value);
    assert(a.skip(n + 1) =~= d);
}

/// Each line of fish's output is one candidate, in order, where all have a value.
pub proof fn fish_offers_line_by_line(lines: Seq<Seq<char>>, k: int)
    requires
        forall|j: int| 0 <= j < lines.len() ==> fish_item(#[trigger] lines[j]).value.len() > 0,
        0 <= k < lines.len(),
    ensures
        fish_items(lines).len() == lines.len(),
        fish_items(lines)[k] == fish_item(lines[k]),
    decreases lines.len(),
{
    let head = lines.drop_last();
    assert forall|j: int| 0 <= j < head.len() implies fish_item(#[trigger] head[j]).value.len() > 0 by {
        assert(head[j] == lines[j]);
    }
    assert(fish_item(lines[lines.len() - 1]).value.len() > 0);
    if head.len() > 0 {
        fish_offers_line_by_line(head, if k < head.len() {
            k
        } else {
            0
        });
    }
}

/// Each engine's output is read its own way.
pub proof fn engines_are_read_their_way(stdout: Seq<u8>)
    ensures
        engine_items(Engine::Fish, stdout) == fish_items(text_lines(decoded_text(stdout))),
        engine_items(Engine::Bash, stdout) == bash_items(text_lines(decoded_text(stdout))),
        engine_items(Engine::Zsh, stdout) == zsh_items(text_lines(decoded_text(stdout))),
{
}

} // verus!
