//! The command-palette / history-search overlay: its state, its fuzzy filtering,
//! and what of it is drawn.
//!
//! This is pure interaction state — it never touches the terminal, PTY, or
//! clipboard. Pressing Enter yields an [`Action`] the event loop executes.
//! Filtering uses `nucleo-matcher` for the same smart fuzzy ranking editors use.

use vstd::prelude::*;
use nucleo_matcher::pattern::{CaseMatching, Normalization, Pattern};
use nucleo_matcher::{Config, Matcher, Utf32Str};
use crate::color::{Rgba, mixed};
use crate::commands::{Action, ActionView, BindingView, binding_views, chord_hint, command_table, commands};
use crate::completion::opt_text;
use crate::layout::{text_width, width_of_text};
use crate::palette::Palette;
use crate::text::{chars_of, is_control, is_control_char};

verus! {

/// Colors for the overlay, resolved from the theme by the app.
#[derive(Clone, Copy, Debug, PartialEq, Eq, Structural)]
pub struct OverlayColors {
    /// Opaque panel background.
    pub panel_bg: Rgba,
    /// Primary text.
    pub fg: Rgba,
    /// Secondary/disabled text (item details, placeholder).
    pub dim: Rgba,
    /// Background of the selected row.
    pub sel_bg: Rgba,
    /// Accent for the prompt sigil, query cursor, and bottom rule.
    pub accent: Rgba,
}

/// `top` composited over `bottom` at `alpha`/255.
pub open spec fn mixed_colors(top: Rgba, bottom: Rgba, alpha: u8) -> Rgba {
    Rgba {
        r: mixed(top.r, bottom.r, alpha),
        g: mixed(top.g, bottom.g, alpha),
        b: mixed(top.b, bottom.b, alpha),
        a: 255,
    }
}

/// `top` composited over `bottom` at `alpha`/255 — a quick opaque blend.
pub fn mix(top: Rgba, bottom: Rgba, alpha: u8) -> (c: Rgba)
    ensures
        c == mixed_colors(top, bottom, alpha),
{
    Rgba::new(top.r, top.g, top.b, alpha).over(bottom)
}

/// Resolve the overlay's colors from the active palette: a subtle lift above the
/// terminal background for the panel, muted text for details, and a warm
/// highlight on the selected row.
pub fn overlay_colors(palette: &Palette) -> (c: OverlayColors)
    ensures
        c == (OverlayColors {
            panel_bg: mixed_colors(palette.foreground, palette.background, 22),
            fg: palette.foreground,
            dim: mixed_colors(palette.foreground, palette.background, 120),
            sel_bg: mixed_colors(palette.cursor, palette.background, 64),
            accent: palette.cursor,
        }),
{
    OverlayColors {
        panel_bg: mix(palette.foreground, palette.background, 22),
        fg: palette.foreground,
        dim: mix(palette.foreground, palette.background, 120),
        sel_bg: mix(palette.cursor, palette.background, 64),
        accent: palette.cursor,
    }
}

/// One selectable row in the overlay.
#[derive(Clone, Debug, PartialEq, Eq)]
pub struct OverlayItem {
    /// Primary label (the action name, or a history command).
    pub label: String,
    /// Optional secondary text shown dimmed after the label.
    pub detail: Option<String>,
}

/// A modal overlay to draw over the grid: a query line plus a filtered list.
#[derive(Clone, Debug)]
pub struct Overlay {
    /// Sigil shown before the query (e.g. `>` or `history`).
    pub prompt: String,
    /// The text typed so far.
    pub query: String,
    /// The visible window of filtered items, best match first: only the rows that
    /// fit this frame, so the renderer paints these directly.
    pub items: Vec<OverlayItem>,
    /// Index *within `items`* of the highlighted row, or `None` if (degenerately)
    /// the selection falls outside the visible window.
    pub selected_visible: Option<usize>,
    /// A query was typed, and nothing matches it.
    pub no_matches: bool,
    /// The display column of the query's caret.
    pub query_caret_col: usize,
    /// Resolved colors.
    pub colors: OverlayColors,
}

/// The score that `nucleo-matcher`, in its default configuration, gives a haystack
/// for a query, with case ignored and smart normalization; `None` where it does not
/// match.
pub uninterp spec fn fuzzy_score(query: Seq<char>, haystack: Seq<char>) -> Option<u32>;

/// As many characters can match without the score's passing the 16 bits that the
/// matcher counts it in.
pub const MAX_WORD: usize = 2520;

/// As many words can match without the sum's passing the 32 bits that the matcher
/// counts it in.
pub const MAX_WORDS: usize = 65537;

/// So can all the words of a query of as many characters.
pub const MAX_QUERY: usize = 165191048;

/// Whether the character at `i` parts two words: a space, unless a backslash stands
/// before it.
pub open spec fn parts_words(query: Seq<char>, i: int) -> bool {
    query[i] == ' ' && (i == 0 || query[i - 1] != '\\')
}

/// Whether the characters from `i` on up to `j` stand in one word.
pub open spec fn in_one_word(query: Seq<char>, i: int, j: int) -> bool {
    forall|k: int| i <= k < j ==> !#[trigger] parts_words(query, k)
}

/// How many words a query has, empty ones too.
pub open spec fn word_count(query: Seq<char>) -> nat
    decreases query.len(),
{
    if query.len() == 0 {
        1
    } else {
        word_count(query.drop_last()) + if parts_words(query, query.len() - 1) {
            1nat
        } else {
            0nat
        }
    }
}

/// Whether no word of a query is longer than what can match.
pub open spec fn short_words(query: Seq<char>) -> bool {
    forall|i: int, j: int|
        0 <= i <= j <= query.len() && #[trigger] in_one_word(query, i, j) ==> j - i <= MAX_WORD
}

/// Whether the scores of a query's words can be summed up.
pub open spec fn summable(query: Seq<char>) -> bool {
    query.len() <= MAX_QUERY || word_count(query) <= MAX_WORDS
}

/// Whether the matcher can score a haystack for a query without counting too far: a
/// word scores by the characters that match, which are no more than it has, and no
/// more than the haystack has.
pub open spec fn matchable(query: Seq<char>, haystack: Seq<char>) -> bool {
    &&& haystack.len() <= u32::MAX
    &&& haystack.len() <= MAX_WORD || short_words(query)
    &&& summable(query)
}

/// `Matcher::new` with the default configuration, `Pattern::parse` and
/// `Pattern::score`. The matcher is made for this one call, so the score rests on the
/// query and the haystack alone. How a score comes about is left to [`fuzzy_score`].
#[verifier::external_body]
pub(crate) fn score_haystack(query: &str, haystack: &str) -> (s: Option<u32>)
    requires
        matchable(query@, haystack@),
    ensures
        s == fuzzy_score(query@, haystack@),
{
    let mut matcher = Matcher::new(Config::DEFAULT);
    let pattern = Pattern::parse(query, CaseMatching::Ignore, Normalization::Smart);
    let mut buf = Vec::new();
    pattern.score(Utf32Str::new(haystack, &mut buf), &mut matcher)
}

/// The score of a haystack, where the matcher can take the query and the haystack.
pub open spec fn match_score(query: Seq<char>, haystack: Seq<char>) -> Option<u32> {
    if matchable(query, haystack) {
        fuzzy_score(query, haystack)
    } else {
        None
    }
}

/// Whether no word of the query `q` is longer than what can match.
fn has_short_words(q: &[char]) -> (r: bool)
    ensures
        r == short_words(q@),
{
    let mut start: usize = 0;
    let mut i: usize = 0;
    while i < q.len()
        invariant
            start <= i <= q@.len(),
            start == 0 || parts_words(q@, start - 1),
            in_one_word(q@, start as int, i as int),
            forall|a: int, b: int|
                0 <= a <= b <= i && #[trigger] in_one_word(q@, a, b) ==> b - a <= MAX_WORD,
        decreases q@.len() - i,
    {
        if q[i] == ' ' && (i == 0 || q[i - 1] != '\\') {
            start = i + 1;
        } else if i - start == MAX_WORD {
            proof {
                assert(in_one_word(q@, start as int, i + 1));
            }
            return false;
        }
        proof {
            assert forall|a: int, b: int| 0 <= a <= b <= i + 1 && #[trigger] in_one_word(q@, a, b) implies b - a
                <= MAX_WORD by {
                if b == i + 1 && a <= i {
                    assert(!parts_words(q@, i as int));
                    if start > 0 && a <= start - 1 {
                        assert(parts_words(q@, start - 1));
                    }
                }
            }
        }
        i = i + 1;
    }
    true
}

/// Whether the query `q` has no more words than can be summed up at any length.
fn has_few_words(q: &[char]) -> (r: bool)
    ensures
        r == (word_count(q@) <= MAX_WORDS),
{
    let mut n: usize = 1;
    let mut i: usize = 0;
    proof {
        assert(q@.take(0) =~= Seq::empty());
    }
    while i < q.len()
        invariant
            i <= q@.len(),
            n == word_count(q@.take(i as int)),
            n <= MAX_WORDS,
        decreases q@.len() - i,
    {
        proof {
            let part = q@.take(i + 1);
            assert(part.drop_last() =~= q@.take(i as int));
            assert(parts_words(part, i as int) == parts_words(q@, i as int));
            words_only_grow(q@, i + 1);
        }
        if q[i] == ' ' && (i == 0 || q[i - 1] != '\\') {
            if n == MAX_WORDS {
                return false;
            }
            n = n + 1;
        }
        i = i + 1;
    }
    proof {
        assert(q@.take(q@.len() as int) =~= q@);
    }
    true
}

/// A query has no fewer words than what it begins with.
proof fn words_only_grow(query: Seq<char>, n: int)
    requires
        0 <= n <= query.len(),
    ensures
        word_count(query.take(n)) <= word_count(query),
    decreases query.len() - n,
{
    if n < query.len() {
        words_only_grow(query, n + 1);
        assert(query.take(n + 1).drop_last() =~= query.take(n));
    } else {
        assert(query.take(n) =~= query);
    }
}

/// Whether the matcher can score a haystack of `len` characters for the query `q`.
pub fn is_matchable(q: &[char], len: usize) -> (r: bool)
    ensures
        forall|hay: Seq<char>| hay.len() == len ==> r == #[trigger] matchable(q@, hay),
{
    len as u64 <= u32::MAX as u64 && (len <= MAX_WORD || has_short_words(q)) && (q.len() <= MAX_QUERY
        || has_few_words(q))
}

/// How many leading entries of `order` have a score of at least `x`.
pub open spec fn rank_pos(order: Seq<int>, scores: Seq<Option<u32>>, x: u32) -> int
    decreases order.len(),
{
    if order.len() > 0 && (scores[order[0]] matches Some(y) && y >= x) {
        1 + rank_pos(order.skip(1), scores, x)
    } else {
        0
    }
}

/// The entries that have a score, best first; equal ones stay in list order. Each
/// entry goes behind those ranked so far that score at least as well.
pub open spec fn ranked(scores: Seq<Option<u32>>) -> Seq<int>
    decreases scores.len(),
{
    if scores.len() == 0 {
        Seq::empty()
    } else {
        let before = ranked(scores.drop_last());
        match scores.last() {
            Some(x) => before.insert(rank_pos(before, scores, x), scores.len() - 1),
            None => before,
        }
    }
}

/// Indices as integers.
pub open spec fn ints(v: Seq<usize>) -> Seq<int> {
    v.map_values(|x: usize| x as int)
}

proof fn rank_pos_in_range(order: Seq<int>, scores: Seq<Option<u32>>, x: u32)
    ensures
        0 <= rank_pos(order, scores, x) <= order.len(),
        forall|k: int|
            0 <= k < rank_pos(order, scores, x) ==> (scores[#[trigger] order[k]] matches Some(y)
                && y >= x),
        rank_pos(order, scores, x) < order.len() ==> !(scores[order[rank_pos(order, scores, x)]]
            matches Some(y) && y >= x),
    decreases order.len(),
{
    if order.len() > 0 && (scores[order[0]] matches Some(y) && y >= x) {
        rank_pos_in_range(order.skip(1), scores, x);
        let p = rank_pos(order, scores, x);
        assert forall|k: int| 0 <= k < p implies (scores[#[trigger] order[k]] matches Some(y) && y >= x) by {
            if k > 0 {
                assert(order.skip(1)[k - 1] == order[k]);
            }
        }
        if p < order.len() {
            assert(order.skip(1)[p - 1] == order[p]);
        }
    }
}

/// A ranking rests on the scores of its entries alone.
proof fn rank_pos_ignores_others(order: Seq<int>, a: Seq<Option<u32>>, b: Seq<Option<u32>>, x: u32)
    requires
        forall|k: int| 0 <= k < order.len() ==> a[#[trigger] order[k]] == b[order[k]],
    ensures
        rank_pos(order, a, x) == rank_pos(order, b, x),
    decreases order.len(),
{
    if order.len() > 0 {
        assert(a[order[0]] == b[order[0]]);
        assert forall|k: int| 0 <= k < order.skip(1).len() implies a[#[trigger] order.skip(1)[k]]
            == b[order.skip(1)[k]] by {
            assert(order.skip(1)[k] == order[k + 1]);
        }
        rank_pos_ignores_others(order.skip(1), a, b, x);
    }
}

/// Behind the entries that score at least as well and before the others, the last
/// entry keeps a ranking in order.
proof fn insertion_keeps_the_order(scores: Seq<Option<u32>>, order: Seq<int>, p: int, x: u32)
    requires
        scores.len() > 0,
        scores.last() == Some(x),
        0 <= p <= order.len(),
        forall|k: int|
            0 <= k < order.len() ==> 0 <= #[trigger] order[k] < scores.len() - 1
                && scores[order[k]].is_some(),
        forall|j: int, k: int|
            0 <= j < k < order.len() ==> ranks_before(
                scores,
                #[trigger] order[j],
                #[trigger] order[k],
            ),
        forall|k: int| 0 <= k < p ==> (scores[#[trigger] order[k]] matches Some(y) && y >= x),
        p < order.len() ==> !(scores[order[p]] matches Some(y) && y >= x),
    ensures
        forall|j: int, k: int|
            0 <= j < k <= order.len() ==> ranks_before(
                scores,
                #[trigger] order.insert(p, scores.len() - 1)[j],
                #[trigger] order.insert(p, scores.len() - 1)[k],
            ),
{
    let n = scores.len() - 1;
    let all = order.insert(p, n);
    assert forall|j: int, k: int| 0 <= j < k < all.len() implies ranks_before(
        scores,
        #[trigger] all[j],
        #[trigger] all[k],
    ) by {
        if k < p {
            assert(ranks_before(scores, order[j], order[k]));
        } else if k == p {
            assert(scores[order[j]] matches Some(y) && y >= x);
        } else if j < p {
            assert(ranks_before(scores, order[j], order[k - 1]));
        } else if j == p {
            if k - 1 > p {
                assert(ranks_before(scores, order[p], order[k - 1]));
            }
            assert(scores[order[k - 1]].is_some());
        } else {
            assert(ranks_before(scores, order[j - 1], order[k - 1]));
        }
    }
}

/// What was in a ranking is in it after an insertion, and what was inserted.
proof fn insertion_keeps_entries(order: Seq<int>, p: int, n: int, i: int)
    requires
        0 <= p <= order.len(),
        i == n || order.contains(i),
    ensures
        order.insert(p, n).contains(i),
{
    let all = order.insert(p, n);
    if i == n {
        assert(all[p] == i);
    } else {
        let k = choose|k: int| 0 <= k < order.len() && order[k] == i;
        if k < p {
            assert(all[k] == i);
        } else {
            assert(all[k + 1] == i);
        }
    }
}

/// A ranking lists exactly the entries that have a score, the better ones first,
/// and equal ones in list order.
pub proof fn ranking_is_sorted(scores: Seq<Option<u32>>)
    ensures
        forall|k: int|
            0 <= k < ranked(scores).len() ==> 0 <= #[trigger] ranked(scores)[k] < scores.len()
                && scores[ranked(scores)[k]].is_some(),
        forall|i: int|
            0 <= i < scores.len() && (#[trigger] scores[i]).is_some() ==> ranked(scores).contains(i),
        forall|j: int, k: int|
            0 <= j < k < ranked(scores).len() ==> ranks_before(
                scores,
                #[trigger] ranked(scores)[j],
                #[trigger] ranked(scores)[k],
            ),
    decreases scores.len(),
{
    if scores.len() > 0 {
        let n = scores.len() - 1;
        let head = scores.drop_last();
        let before = ranked(head);
        let all = ranked(scores);
        ranking_is_sorted(head);
        match scores.last() {
            None => {
                assert forall|i: int| 0 <= i < scores.len() && (#[trigger] scores[i]).is_some() implies all.contains(
                    i,
                ) by {
                    assert(scores[n] == scores.last());
                    assert(head[i].is_some());
                }
                assert forall|j: int, k: int| 0 <= j < k < all.len() implies ranks_before(
                    scores,
                    #[trigger] all[j],
                    #[trigger] all[k],
                ) by {
                    assert(ranks_before(head, before[j], before[k]));
                }
            },
            Some(x) => {
                let p = rank_pos(before, scores, x);
                rank_pos_in_range(before, scores, x);
                assert(forall|k: int| 0 <= k < p ==> all[k] == before[k]);
                assert(all[p] == n);
                assert(forall|k: int| p < k < all.len() ==> all[k] == before[k - 1]);
                assert forall|k: int| 0 <= k < all.len() implies 0 <= #[trigger] all[k] < scores.len()
                    && scores[all[k]].is_some() by {
                    if k < p {
                        assert(0 <= before[k] < head.len());
                        assert(scores[before[k]] == head[before[k]]);
                    } else if k > p {
                        assert(0 <= before[k - 1] < head.len());
                        assert(scores[before[k - 1]] == head[before[k - 1]]);
                    }
                }
                assert forall|i: int| 0 <= i < scores.len() && (#[trigger] scores[i]).is_some() implies all.contains(
                    i,
                ) by {
                    if i < n {
                        assert(head[i].is_some());
                        assert(before.contains(i));
                    }
                    insertion_keeps_entries(before, p, n, i);
                }
                assert forall|j: int, k: int| 0 <= j < k < before.len() implies ranks_before(
                    scores,
                    #[trigger] before[j],
                    #[trigger] before[k],
                ) by {
                    assert(ranks_before(head, before[j], before[k]));
                }
                insertion_keeps_the_order(scores, before, p, x);
            },
        }
    }
}

/// Whether entry `i` belongs before entry `j`: it scores better, or equally well
/// and stands earlier in the list.
pub open spec fn ranks_before(scores: Seq<Option<u32>>, i: int, j: int) -> bool {
    match (scores[i], scores[j]) {
        (Some(a), Some(b)) => a > b || (a == b && i < j),
        _ => false,
    }
}

/// Rank entries by score: higher first, ties in list order, and those without a
/// score left out.
pub fn rank(scores: &[Option<u32>]) -> (order: Vec<usize>)
    ensures
        ints(order@) == ranked(scores@),
        forall|k: int| 0 <= k < order@.len() ==> #[trigger] order@[k] < scores@.len(),
{
    let mut order: Vec<usize> = Vec::new();
    let mut i: usize = 0;
    proof {
        assert(ints(order@) =~= ranked(scores@.take(0)));
    }
    while i < scores.len()
        invariant
            i <= scores.len(),
            ints(order@) == ranked(scores@.take(i as int)),
            forall|k: int| 0 <= k < order@.len() ==> #[trigger] order@[k] < i,
        decreases scores.len() - i,
    {
        let ghost part = scores@.take(i + 1);
        let ghost before = ints(order@);
        proof {
            assert(part.drop_last() =~= scores@.take(i as int));
            assert(part.last() == scores@[i as int]);
        }
        if let Some(x) = scores[i] {
            let mut p: usize = 0;
            proof {
                assert(before.skip(0) =~= before);
            }
            while p < order.len() && at_least(scores, order[p], x)
                invariant
                    p <= order@.len(),
                    i < scores.len(),
                    before == ints(order@),
                    forall|k: int| 0 <= k < order@.len() ==> #[trigger] order@[k] < i,
                    rank_pos(before, scores@, x) == p + rank_pos(before.skip(p as int), scores@, x),
                decreases order@.len() - p,
            {
                proof {
                    assert(before.skip(p as int)[0] == order@[p as int]);
                    assert(before.skip(p as int).skip(1) =~= before.skip(p + 1));
                }
                p = p + 1;
            }
            proof {
                if p < order@.len() {
                    assert(before.skip(p as int)[0] == order@[p as int]);
                }
                assert(rank_pos(before, scores@, x) == p);
                assert forall|k: int| 0 <= k < before.len() implies scores@[#[trigger] before[k]]
                    == part[before[k]] by {
                    assert(order@[k] < i);
                }
                rank_pos_ignores_others(before, scores@, part, x);
            }
            let ghost old_order = order@;
            order.insert(p, i);
            proof {
                assert(ints(order@) =~= before.insert(p as int, i as int));
                assert forall|k: int| 0 <= k < order@.len() implies #[trigger] order@[k] < i + 1 by {
                    if k < p {
                        assert(order@[k] == old_order[k]);
                    } else if k > p {
                        assert(order@[k] == old_order[k - 1]);
                    }
                }
            }
        }
        i = i + 1;
    }
    proof {
        assert(scores@.take(scores@.len() as int) =~= scores@);
    }
    order
}

/// Whether entry `i` has a score of at least `x`.
fn at_least(scores: &[Option<u32>], i: usize, x: u32) -> (b: bool)
    requires
        i < scores@.len(),
    ensures
        b == (scores@[i as int] matches Some(y) && y >= x),
{
    match scores[i] {
        Some(y) => y >= x,
        None => false,
    }
}

/// A single editable text line: append-typed, backspace-deleted, with a caret
/// that always rests at the end. The shared input primitive behind both the
/// palette/history query and the compose-next band, so both edit text the same
/// way — control chars ignored, the caret measured in display columns (wide
/// glyphs count as two) rather than `char`s.
#[derive(Clone, Debug)]
pub struct InputLine {
    text: String,
}

/// `text` with `c` typed at its end; control characters are ignored.
pub open spec fn typed(text: Seq<char>, c: char) -> Seq<char> {
    if is_control(c) {
        text
    } else {
        text.push(c)
    }
}

/// `text` with all of `s` typed at its end.
pub open spec fn typed_all(text: Seq<char>, s: Seq<char>) -> Seq<char>
    decreases s.len(),
{
    if s.len() == 0 {
        text
    } else {
        typed(typed_all(text, s.drop_last()), s.last())
    }
}

/// `text` without its last character.
pub open spec fn erased(text: Seq<char>) -> Seq<char> {
    if text.len() == 0 {
        text
    } else {
        text.drop_last()
    }
}

impl InputLine {
    pub closed spec fn view(&self) -> Seq<char> {
        self.text@
    }

    /// Append a typed character (ignoring control chars).
    pub fn input_char(&mut self, c: char)
        ensures
            final(self)@ == typed(old(self)@, c),
    {
        if !is_control_char(c) {
            self.text.push(c);
        }
    }

    /// Delete the last character.
    pub fn backspace(&mut self)
        ensures
            final(self)@ == erased(old(self)@),
    {
        let _ = self.text.pop();
    }

    /// The text typed so far.
    pub fn text(&self) -> (s: &str)
        ensures
            s@ == self@,
    {
        self.text.as_str()
    }

    /// Whether nothing is typed.
    pub fn is_empty(&self) -> (b: bool)
        ensures
            b == (self@.len() == 0),
    {
        chars_of(self.text.as_str()).len() == 0
    }

    /// Take the text, leaving the line empty (used to queue a composed command).
    pub fn take(&mut self) -> (s: String)
        ensures
            s@ == old(self)@,
            final(self)@ == Seq::<char>::empty(),
    {
        let mut s = String::new();
        std::mem::swap(&mut s, &mut self.text);
        s
    }

    /// Display column the caret rests on: the display width of the text, so a
    /// wide/CJK char advances it by two columns, not one.
    pub fn caret_col(&self) -> (c: usize)
        ensures
            c == text_width(self@),
    {
        width_of_text(self.text.as_str())
    }
}

impl Default for InputLine {
    fn default() -> (l: Self)
        ensures
            l@ == Seq::<char>::empty(),
    {
        InputLine { text: String::new() }
    }
}

/// The band's input line: the next command being typed at the bottom while a
/// command runs. Edits the same way the overlay query does (see [`InputLine`]);
/// the event loop takes it on Enter (send to the running command) or on
/// Ctrl+Shift+Enter ([`Action::QueueInput`], queue for the next prompt).
#[derive(Clone, Debug)]
pub struct BandInput {
    line: InputLine,
}

impl BandInput {
    pub closed spec fn view(&self) -> Seq<char> {
        self.line@
    }

    /// Append a typed character to the input line.
    pub fn input_char(&mut self, c: char)
        ensures
            final(self)@ == typed(old(self)@, c),
    {
        self.line.input_char(c);
    }

    /// Append all of `s` to the input line.
    pub fn input_text(&mut self, s: &str)
        ensures
            final(self)@ == typed_all(old(self)@, s@),
    {
        let chars = chars_of(s);
        let mut i: usize = 0;
        proof {
            assert(chars@.take(0) =~= Seq::empty());
        }
        while i < chars.len()
            invariant
                i <= chars.len(),
                self@ == typed_all(old(self)@, chars@.take(i as int)),
            decreases chars.len() - i,
        {
            proof {
                assert(chars@.take(i + 1).drop_last() =~= chars@.take(i as int));
            }
            self.line.input_char(chars[i]);
            i = i + 1;
        }
        proof {
            assert(chars@.take(chars@.len() as int) =~= chars@);
        }
    }

    /// Delete the last character of the input line.
    pub fn backspace(&mut self)
        ensures
            final(self)@ == erased(old(self)@),
    {
        self.line.backspace();
    }

    /// The text typed so far.
    pub fn text(&self) -> (s: &str)
        ensures
            s@ == self@,
    {
        self.line.text()
    }

    /// Whether the input line is empty.
    pub fn is_empty(&self) -> (b: bool)
        ensures
            b == (self@.len() == 0),
    {
        self.line.is_empty()
    }

    /// Take the typed text, leaving the line empty.
    pub fn take(&mut self) -> (s: String)
        ensures
            s@ == old(self)@,
            final(self)@ == Seq::<char>::empty(),
    {
        self.line.take()
    }
}

impl Default for BandInput {
    fn default() -> (b: Self)
        ensures
            b@ == Seq::<char>::empty(),
    {
        BandInput { line: InputLine::default() }
    }
}

/// What an overlay searches.
#[derive(Clone, Copy, Debug, PartialEq, Eq, Structural)]
pub enum Kind {
    Palette,
    History,
}

/// One entry that an overlay can offer.
#[derive(Clone, Debug)]
pub struct Candidate {
    pub label: String,
    pub detail: Option<String>,
    /// Label plus detail, matched against so an action is findable by its
    /// keybinding hint, not only its name.
    pub haystack: String,
    pub action: Action,
}

/// An entry with its texts as characters.
pub ghost struct CandidateView {
    pub label: Seq<char>,
    pub detail: Option<Seq<char>>,
    pub haystack: Seq<char>,
    pub action: ActionView,
}

/// The entry of a label, a detail and a command.
pub open spec fn candidate_of(
    label: Seq<char>,
    detail: Option<Seq<char>>,
    action: ActionView,
) -> CandidateView {
    CandidateView {
        label,
        detail,
        haystack: match detail {
            Some(d) => label + seq![' '] + d,
            None => label,
        },
        action,
    }
}

impl Candidate {
    pub open spec fn view(&self) -> CandidateView {
        CandidateView {
            label: self.label@,
            detail: opt_text(self.detail),
            haystack: self.haystack@,
            action: self.action@,
        }
    }

    /// The entry of a label, a detail and a command.
    pub fn new(label: String, detail: Option<String>, action: Action) -> (c: Self)
        ensures
            c@ == candidate_of(label@, opt_text(detail), action@),
    {
        let mut haystack = label.clone();
        if let Some(d) = &detail {
            haystack.push(' ');
            haystack.append(d.as_str());
        }
        let c = Candidate { label, detail, haystack, action };
        proof {
            assert(c@.haystack =~= candidate_of(label@, opt_text(detail), action@).haystack);
        }
        c
    }
}

/// Entries as views.
pub open spec fn candidate_views(v: Seq<Candidate>) -> Seq<CandidateView> {
    v.map_values(|c: Candidate| c@)
}

/// The palette's entries: the labelled rows of the command table, each with the
/// hint of its own chord.
pub open spec fn palette_entries(table: Seq<BindingView>) -> Seq<CandidateView>
    decreases table.len(),
{
    if table.len() == 0 {
        Seq::empty()
    } else {
        let before = palette_entries(table.drop_last());
        let b = table.last();
        match b.label {
            Some(label) => before.push(
                candidate_of(
                    label,
                    match b.chord {
                        Some(c) => Some(chord_hint(c)),
                        None => None,
                    },
                    b.action,
                ),
            ),
            None => before,
        }
    }
}

/// The history's entries: one for each command.
pub open spec fn history_entries(commands: Seq<Seq<char>>) -> Seq<CandidateView> {
    commands.map_values(|c: Seq<char>| candidate_of(c, None, ActionView::InsertCommand(c)))
}

/// Live state of an open overlay.
pub struct OverlayState {
    kind: Kind,
    query: InputLine,
    candidates: Vec<Candidate>,
    /// Indices into `candidates`, best match first.
    filtered: Vec<usize>,
    /// Index into `filtered`.
    selected: usize,
}

/// An overlay in mathematical terms.
pub ghost struct OverlayView {
    pub kind: Kind,
    pub query: Seq<char>,
    pub candidates: Seq<CandidateView>,
    pub filtered: Seq<int>,
    pub selected: int,
}

/// The numbers below `n`, in order.
pub open spec fn up_to(n: int) -> Seq<int> {
    Seq::new(n as nat, |i: int| i)
}

/// The scores of all entries for a query.
pub open spec fn scores_for(query: Seq<char>, candidates: Seq<CandidateView>) -> Seq<Option<u32>> {
    candidates.map_values(|c: CandidateView| match_score(query, c.haystack))
}

/// The entries that a query lists, best first: all of them where it is empty.
pub open spec fn listed_for(query: Seq<char>, candidates: Seq<CandidateView>) -> Seq<int> {
    if query.len() == 0 {
        up_to(candidates.len() as int)
    } else {
        ranked(scores_for(query, candidates))
    }
}

/// Where entry `c` stands in `list`, or 0 where it does not.
pub open spec fn place_of(list: Seq<int>, c: int) -> int {
    if list.contains(c) {
        first_place(list, c)
    } else {
        0
    }
}

/// The first place of `c` in `list`, or its length.
pub open spec fn first_place(list: Seq<int>, c: int) -> int
    decreases list.len(),
{
    if list.len() == 0 || list[0] == c {
        0
    } else {
        1 + first_place(list.skip(1), c)
    }
}

impl OverlayView {
    /// The list holds entries, and the highlight is on one of them.
    pub open spec fn wf(self) -> bool {
        &&& forall|k: int| 0 <= k < self.filtered.len() ==> 0 <= #[trigger] self.filtered[k] < self.candidates.len()
        &&& 0 <= self.selected
        &&& self.selected < self.filtered.len() || (self.selected == 0 && self.filtered.len() == 0)
    }

    /// The list for the query as it is now. The highlight stays on its entry where
    /// that is still listed, and else goes to the top.
    pub open spec fn refiltered(self) -> OverlayView {
        let list = listed_for(self.query, self.candidates);
        OverlayView {
            filtered: list,
            selected: if self.selected < self.filtered.len() {
                place_of(list, self.filtered[self.selected])
            } else {
                0
            },
            ..self
        }
    }

    /// The first visible row of a window of `visible` rows: the window scrolls so
    /// that the highlight is inside.
    pub open spec fn window_start(self, visible: int) -> int {
        let first = if visible > 0 && self.selected >= visible {
            self.selected + 1 - visible
        } else {
            0
        };
        let most = self.filtered.len() - visible;
        if first < most {
            first
        } else {
            most
        }
    }

    /// How many rows are visible.
    pub open spec fn visible(self, capacity: int) -> int {
        if self.filtered.len() < capacity {
            self.filtered.len() as int
        } else {
            capacity
        }
    }
}

/// The overlay after all of `s` was typed into its query.
pub open spec fn query_typed(o: OverlayView, s: Seq<char>) -> OverlayView
    decreases s.len(),
{
    if s.len() == 0 {
        o
    } else {
        let before = query_typed(o, s.drop_last());
        (OverlayView { query: typed(before.query, s.last()), ..before }).refiltered()
    }
}

/// The sigil before the query.
pub open spec fn prompt_of(kind: Kind) -> Seq<char> {
    match kind {
        Kind::Palette => ">"@,
        Kind::History => "history"@,
    }
}

impl OverlayState {
    pub closed spec fn view(&self) -> OverlayView {
        OverlayView {
            kind: self.kind,
            query: self.query@,
            candidates: candidate_views(self.candidates@),
            filtered: ints(self.filtered@),
            selected: self.selected as int,
        }
    }

    /// The list holds entries, and the highlight is on one of them.
    pub open spec fn wf(&self) -> bool {
        self@.wf()
    }

    /// The command palette: the labelled rows of the single command table, each
    /// showing the keybinding hint derived from its own chord.
    pub fn palette() -> (s: Self)
        ensures
            s.wf(),
            s@ == (OverlayView {
                kind: Kind::Palette,
                query: Seq::empty(),
                candidates: palette_entries(command_table()),
                filtered: up_to(palette_entries(command_table()).len() as int),
                selected: 0,
            }),
    {
        let table = commands();
        let ghost t = command_table();
        let mut candidates: Vec<Candidate> = Vec::new();
        let mut i: usize = 0;
        proof {
            assert(candidate_views(candidates@) =~= palette_entries(t.take(0)));
        }
        while i < table.len()
            invariant
                i <= table.len(),
                binding_views(table@) == t,
                candidate_views(candidates@) == palette_entries(t.take(i as int)),
            decreases table.len() - i,
        {
            let b = &table[i];
            proof {
                assert(t[i as int] == b@);
                assert(t.take(i + 1).drop_last() =~= t.take(i as int));
            }
            if let Some(label) = b.label {
                let hint: Option<String> = match &b.chord {
                    Some(c) => Some(c.hint()),
                    None => None,
                };
                let ghost before = candidate_views(candidates@);
                let c = Candidate::new(label.to_owned(), hint, b.action.copy());
                candidates.push(c);
                proof {
                    assert(candidate_views(candidates@) =~= before.push(c@));
                }
            }
            i = i + 1;
        }
        proof {
            assert(t.take(t.len() as int) =~= t);
        }
        Self::build(Kind::Palette, candidates)
    }

    /// The history search: one row per recent command.
    pub fn history(commands: Vec<String>) -> (s: Self)
        ensures
            s.wf(),
            s@ == (OverlayView {
                kind: Kind::History,
                query: Seq::empty(),
                candidates: history_entries(crate::terminal::string_views(commands@)),
                filtered: up_to(commands@.len() as int),
                selected: 0,
            }),
    {
        let ghost want = history_entries(crate::terminal::string_views(commands@));
        let mut candidates: Vec<Candidate> = Vec::new();
        let mut i: usize = 0;
        proof {
            assert(candidate_views(candidates@) =~= want.take(0));
        }
        while i < commands.len()
            invariant
                i <= commands.len(),
                want == history_entries(crate::terminal::string_views(commands@)),
                candidate_views(candidates@) == want.take(i as int),
            decreases commands.len() - i,
        {
            let ghost before = candidate_views(candidates@);
            let cmd = commands[i].clone();
            let c = Candidate::new(commands[i].clone(), None, Action::InsertCommand(cmd));
            candidates.push(c);
            proof {
                assert(c@ == want[i as int]);
                assert(candidate_views(candidates@) =~= before.push(c@));
                assert(want.take(i + 1) =~= want.take(i as int).push(want[i as int]));
            }
            i = i + 1;
        }
        proof {
            assert(want.take(want.len() as int) =~= want);
        }
        Self::build(Kind::History, candidates)
    }

    fn build(kind: Kind, candidates: Vec<Candidate>) -> (s: Self)
        ensures
            s.wf(),
            s@ == (OverlayView {
                kind,
                query: Seq::empty(),
                candidates: candidate_views(candidates@),
                filtered: up_to(candidates@.len() as int),
                selected: 0,
            }),
    {
        let filtered = count_up(candidates.len());
        OverlayState {
            kind,
            query: InputLine::default(),
            candidates,
            filtered,
            selected: 0,
        }
    }

    /// Append a typed character to the query (ignoring control chars).
    pub fn input_char(&mut self, c: char)
        requires
            old(self).wf(),
        ensures
            final(self).wf(),
            final(self)@ == (OverlayView { query: typed(old(self)@.query, c), ..old(self)@ }).refiltered(),
    {
        self.query.input_char(c);
        self.refilter();
    }

    /// Type all of `s` into the query.
    pub fn input_text(&mut self, s: &str)
        requires
            old(self).wf(),
        ensures
            final(self).wf(),
            final(self)@ == query_typed(old(self)@, s@),
    {
        let ghost v0 = self@;
        let chars = chars_of(s);
        let mut i: usize = 0;
        proof {
            assert(chars@.take(0) =~= Seq::empty());
        }
        while i < chars.len()
            invariant
                i <= chars.len(),
                self.wf(),
                self@ == query_typed(v0, chars@.take(i as int)),
            decreases chars.len() - i,
        {
            proof {
                assert(chars@.take(i + 1).drop_last() =~= chars@.take(i as int));
            }
            self.input_char(chars[i]);
            i = i + 1;
        }
        proof {
            assert(chars@.take(chars@.len() as int) =~= chars@);
        }
    }

    /// Delete the last query character.
    pub fn backspace(&mut self)
        requires
            old(self).wf(),
        ensures
            final(self).wf(),
            final(self)@ == (OverlayView { query: erased(old(self)@.query), ..old(self)@ }).refiltered(),
    {
        self.query.backspace();
        self.refilter();
    }

    /// Move the highlight by `delta` rows, wrapping around.
    pub fn move_selection(&mut self, delta: i32)
        requires
            old(self).wf(),
        ensures
            final(self).wf(),
            final(self)@ == (OverlayView {
                selected: if old(self)@.filtered.len() == 0 {
                    old(self)@.selected
                } else {
                    (old(self)@.selected + delta) % (old(self)@.filtered.len() as int)
                },
                ..old(self)@
            }),
    {
        if self.filtered.len() == 0 {
            return ;
        }
        let len: i128 = self.filtered.len() as i128;
        let sum: i128 = self.selected as i128 + delta as i128;
        let d: i128 = if sum >= 0 {
            sum % len
        } else {
            // Rust's remainder of a negative number is not positive.
            let back: i128 = (0 - sum) % len;
            if back == 0 {
                0
            } else {
                len - back
            }
        };
        proof {
            if sum < 0 {
                let n = len as int;
                let s = sum as int;
                let b = (-s) % n;
                assert(s == n * (-((-s) / n)) - b && 0 <= b < n) by (nonlinear_arith)
                    requires
                        n > 0,
                        b == (-s) % n,
                ;
                let q = -((-s) / n);
                if b == 0 {
                    assert(s % n == 0) by (nonlinear_arith)
                        requires
                            s == n * q,
                            n > 0,
                    ;
                } else {
                    assert(s % n == n - b) by (nonlinear_arith)
                        requires
                            s == n * q - b,
                            0 < b < n,
                    ;
                }
            }
        }
        self.selected = d as usize;
    }

    /// How many entries there are to choose from.
    pub fn entries(&self) -> (n: usize)
        ensures
            n == self@.candidates.len(),
    {
        self.candidates.len()
    }

    /// How many entries the query lists.
    pub fn listed(&self) -> (n: usize)
        ensures
            n == self@.filtered.len(),
    {
        self.filtered.len()
    }

    /// The place of the highlight in the list.
    pub fn selected(&self) -> (p: usize)
        ensures
            p == self@.selected,
    {
        self.selected
    }

    /// The action of the highlighted row, if any.
    pub fn selected_action(&self) -> (a: Option<Action>)
        requires
            self.wf(),
        ensures
            if self@.filtered.len() == 0 {
                a.is_none()
            } else {
                a.is_some() && a->0@ == self@.candidates[self@.filtered[self@.selected]].action
            },
    {
        if self.filtered.len() == 0 {
            return None;
        }
        let i: usize = self.filtered[self.selected];
        proof {
            assert(self@.filtered[self.selected as int] == i);
            assert(self@.candidates[i as int] == self.candidates@[i as int]@);
        }
        Some(self.candidates[i].action.copy())
    }

    /// The scores of all entries for the query.
    fn score_all(&self) -> (scores: Vec<Option<u32>>)
        ensures
            scores@ == scores_for(self@.query, self@.candidates),
    {
        let mut scores: Vec<Option<u32>> = Vec::new();
        let query = chars_of(self.query.text());
        let ghost want = scores_for(self@.query, self@.candidates);
        let mut i: usize = 0;
        while i < self.candidates.len()
            invariant
                i <= self.candidates@.len(),
                query@ == self@.query,
                want == scores_for(self@.query, self@.candidates),
                want.len() == self.candidates@.len(),
                scores@ == want.take(i as int),
            decreases self.candidates@.len() - i,
        {
            let hay = self.candidates[i].haystack.as_str();
            let s: Option<u32> = if is_matchable(&query, chars_of(hay).len()) {
                score_haystack(self.query.text(), hay)
            } else {
                None
            };
            proof {
                assert(self@.candidates[i as int] == self.candidates@[i as int]@);
                assert(s == want[i as int]);
                assert(want.take(i + 1) =~= want.take(i as int).push(s));
            }
            scores.push(s);
            i = i + 1;
        }
        proof {
            assert(want.take(want.len() as int) =~= want);
        }
        scores
    }

    /// List the entries for the query as it is now. The highlight stays on its
    /// entry where that is still listed, and else jumps to the top.
    fn refilter(&mut self)
        requires
            old(self).wf(),
        ensures
            final(self).wf(),
            final(self)@ == old(self)@.refiltered(),
    {
        let ghost v0 = self@;
        let previous: Option<usize> = if self.selected < self.filtered.len() {
            Some(self.filtered[self.selected])
        } else {
            None
        };
        if self.query.is_empty() {
            self.filtered = count_up(self.candidates.len());
        } else {
            let scores = self.score_all();
            self.filtered = rank(&scores);
        }
        let ghost list = listed_for(v0.query, v0.candidates);
        proof {
            assert(ints(self.filtered@) == list);
            if v0.query.len() > 0 {
                ranking_is_sorted(scores_for(v0.query, v0.candidates));
            }
        }
        self.selected = match previous {
            Some(c) => self.place(c),
            None => 0,
        };
    }

    /// Where entry `c` stands in the list, or 0 where it does not.
    fn place(&self, c: usize) -> (p: usize)
        ensures
            p == place_of(self@.filtered, c as int),
            p < self@.filtered.len() || p == 0,
    {
        let ghost list = self@.filtered;
        let mut p: usize = 0;
        proof {
            assert(list.skip(0) =~= list);
        }
        while p < self.filtered.len()
            invariant
                p <= self.filtered@.len(),
                list == ints(self.filtered@),
                first_place(list, c as int) == p + first_place(list.skip(p as int), c as int),
                forall|k: int| 0 <= k < p ==> #[trigger] list[k] != c,
            decreases self.filtered@.len() - p,
        {
            proof {
                assert(list.skip(p as int)[0] == self.filtered@[p as int]);
                assert(list.skip(p as int).skip(1) =~= list.skip(p + 1));
            }
            if self.filtered[p] == c {
                proof {
                    assert(list[p as int] == c);
                }
                return p;
            }
            p = p + 1;
        }
        0
    }

    /// Build the render-ready overlay description for this frame, materializing
    /// only the `capacity` rows that fit below the query line. The window scrolls
    /// so the selection stays visible, so a long history copies a dozen strings
    /// per redraw rather than the whole filtered list.
    pub fn to_overlay(&self, colors: OverlayColors, capacity: usize) -> (o: Overlay)
        requires
            self.wf(),
        ensures
            is_overlay_of(o, self@, colors, capacity as int),
    {
        let len: usize = self.filtered.len();
        let visible: usize = if len < capacity {
            len
        } else {
            capacity
        };
        let mut first: usize = if visible > 0 && self.selected >= visible {
            self.selected - visible + 1
        } else {
            0
        };
        if first > len - visible {
            first = len - visible;
        }
        let ghost v = self@;
        proof {
            assert(first == v.window_start(visible as int));
        }
        let mut items: Vec<OverlayItem> = Vec::new();
        let mut k: usize = 0;
        while k < visible
            invariant
                self.wf(),
                v == self@,
                len == self.filtered@.len(),
                first + visible <= len,
                k <= visible,
                items@.len() == k,
                forall|j: int|
                    0 <= j < k ==> (#[trigger] items@[j]).label@ == v.candidates[v.filtered[first
                        + j]].label && opt_text(items@[j].detail) == v.candidates[v.filtered[first
                        + j]].detail,
            decreases visible - k,
        {
            let at: usize = first + k;
            let i: usize = self.filtered[at];
            proof {
                assert(v.filtered[first + k] == i);
                assert(v.candidates[i as int] == self.candidates@[i as int]@);
            }
            let c = &self.candidates[i];
            items.push(OverlayItem { label: c.label.clone(), detail: c.detail.clone() });
            k = k + 1;
        }
        let selected_visible: Option<usize> = if visible > 0 && self.selected >= first
            && self.selected - first < visible {
            Some(self.selected - first)
        } else {
            None
        };
        let prompt = match self.kind {
            Kind::Palette => ">".to_owned(),
            Kind::History => "history".to_owned(),
        };
        // The renderer draws the prompt, one space, then the query; display widths
        // keep the caret on the real cell when the query holds wide glyphs.
        let prompt_w: usize = width_of_text(prompt.as_str());
        let query_w: usize = self.query.caret_col();
        let query_caret_col: usize = prompt_w.saturating_add(1).saturating_add(query_w);
        // An empty query shows a placeholder, which already conveys the empty
        // state.
        let no_matches: bool = !self.query.is_empty() && self.filtered.len() == 0;
        Overlay {
            prompt,
            query: self.query.text().to_owned(),
            items,
            selected_visible,
            no_matches,
            query_caret_col,
            colors,
        }
    }
}

/// `n`, or the largest `usize` where that is smaller.
pub open spec fn at_most_usize(n: int) -> int {
    if n > usize::MAX {
        usize::MAX as int
    } else {
        n
    }
}

/// Whether `o` describes the overlay `v` with room for `capacity` rows.
pub open spec fn is_overlay_of(o: Overlay, v: OverlayView, colors: OverlayColors, capacity: int) -> bool {
    let visible = v.visible(capacity);
    let first = v.window_start(visible);
    &&& o.prompt@ == prompt_of(v.kind)
    &&& o.query@ == v.query
    &&& o.items@.len() == visible
    &&& forall|j: int|
        0 <= j < visible ==> (#[trigger] o.items@[j]).label@ == v.candidates[v.filtered[first + j]].label
            && opt_text(o.items@[j].detail) == v.candidates[v.filtered[first + j]].detail
    &&& match o.selected_visible {
        Some(s) => visible > 0 && s == v.selected - first && s < visible,
        None => visible == 0 || v.selected < first || v.selected >= first + visible,
    }
    &&& o.no_matches == (v.query.len() > 0 && v.filtered.len() == 0)
    &&& o.query_caret_col == at_most_usize(
        (text_width(prompt_of(v.kind)) + 1 + text_width(v.query)) as int,
    )
    &&& o.colors == colors
}

/// Where any row is visible, the highlighted one is.
pub proof fn highlight_is_visible(v: OverlayView, capacity: int)
    requires
        v.wf(),
        capacity > 0,
        v.filtered.len() > 0,
    ensures
        0 <= v.window_start(v.visible(capacity)),
        v.window_start(v.visible(capacity)) <= v.selected,
        v.selected < v.window_start(v.visible(capacity)) + v.visible(capacity),
        v.window_start(v.visible(capacity)) + v.visible(capacity) <= v.filtered.len(),
{
}

/// Erasing the whole query lists every entry again.
pub proof fn empty_query_lists_everything(v: OverlayView)
    requires
        v.query.len() == 0,
    ensures
        v.refiltered().filtered == up_to(v.candidates.len() as int),
{
}

/// A change of the query leaves the highlight on its entry, where that is still
/// listed.
pub proof fn highlight_follows_its_entry(v: OverlayView)
    requires
        v.wf(),
        v.filtered.len() > 0,
        listed_for(v.query, v.candidates).contains(v.filtered[v.selected]),
    ensures
        v.refiltered().filtered[v.refiltered().selected] == v.filtered[v.selected],
{
    first_place_is(listed_for(v.query, v.candidates), v.filtered[v.selected]);
}

proof fn first_place_is(list: Seq<int>, c: int)
    requires
        list.contains(c),
    ensures
        0 <= first_place(list, c) < list.len(),
        list[first_place(list, c)] == c,
    decreases list.len(),
{
    if list[0] != c {
        let k = choose|k: int| 0 <= k < list.len() && list[k] == c;
        assert(list.skip(1)[k - 1] == c);
        first_place_is(list.skip(1), c);
    }
}

/// Moving the highlight and back again leaves it where it was.
pub proof fn highlight_moves_back(selected: int, len: int, delta: int)
    requires
        0 <= selected < len,
    ensures
        ((selected + delta) % len - delta) % len == selected,
{
    let m = (selected + delta) % len;
    let q = (selected + delta) / len;
    assert(selected + delta == len * q + m) by (nonlinear_arith)
        requires
            len > 0,
            m == (selected + delta) % len,
            q == (selected + delta) / len,
    ;
    assert(m - delta == len * (-q) + selected) by (nonlinear_arith)
        requires
            selected + delta == len * q + m,
    ;
    vstd::arithmetic::div_mod::lemma_mod_multiples_vanish(-q, selected, len);
    vstd::arithmetic::div_mod::lemma_small_mod(selected as nat, len as nat);
}

/// The numbers below `n`, in order.
fn count_up(n: usize) -> (v: Vec<usize>)
    ensures
        ints(v@) == up_to(n as int),
{
    let mut v: Vec<usize> = Vec::new();
    let mut i: usize = 0;
    while i < n
        invariant
            i <= n,
            v@.len() == i,
            forall|k: int| 0 <= k < i ==> #[trigger] v@[k] == k,
        decreases n - i,
    {
        v.push(i);
        i = i + 1;
    }
    proof {
        assert(ints(v@) =~= up_to(n as int));
    }
    v
}

/// Typing adds the character at the end and erasing takes it back; control characters
/// are not typed, and there is nothing to erase in an empty line.
pub proof fn erasing_undoes_typing(text: Seq<char>, c: char)
    ensures
        !is_control(c) ==> typed(text, c).len() == text.len() + 1,
        !is_control(c) ==> typed(text, c).last() == c,
        !is_control(c) ==> erased(typed(text, c)) == text,
        is_control(c) ==> typed(text, c) == text,
        erased(Seq::empty()) == Seq::<char>::empty(),
        text.len() > 0 ==> erased(text) == text.take(text.len() - 1),
{
    assert(text.push(c).drop_last() =~= text);
    if text.len() > 0 {
        assert(text.drop_last() =~= text.take(text.len() - 1));
    }
}

/// A text without control characters is typed as it is; with some, it is typed without
/// them.
pub proof fn typing_drops_control_characters(text: Seq<char>, a: Seq<char>, c: char, b: Seq<char>)
    requires
        is_control(c),
        forall|i: int| 0 <= i < a.len() ==> !is_control(#[trigger] a[i]),
        forall|i: int| 0 <= i < b.len() ==> !is_control(#[trigger] b[i]),
    ensures
        typed_all(text, a) == text + a,
        typed_all(text, a.push(c)) == text + a,
        typed_all(text, a.push(c) + b) == text + a + b,
{
    plain_text_is_typed(text, a);
    let head = a.push(c);
    assert(head.drop_last() =~= a);
    typed_in_parts(text, head, b);
    plain_text_is_typed(text + a, b);
}

proof fn plain_text_is_typed(text: Seq<char>, a: Seq<char>)
    requires
        forall|i: int| 0 <= i < a.len() ==> !is_control(#[trigger] a[i]),
    ensures
        typed_all(text, a) == text + a,
    decreases a.len(),
{
    if a.len() == 0 {
        assert(text + a =~= text);
    } else {
        let h = a.drop_last();
        assert forall|i: int| 0 <= i < h.len() implies !is_control(#[trigger] h[i]) by {
            assert(h[i] == a[i]);
        }
        plain_text_is_typed(text, h);
        assert(!is_control(a[a.len() - 1]));
        assert((text + h).push(a.last()) =~= text + a);
    }
}

proof fn typed_in_parts(text: Seq<char>, a: Seq<char>, b: Seq<char>)
    ensures
        typed_all(text, a + b) == typed_all(typed_all(text, a), b),
    decreases b.len(),
{
    if b.len() == 0 {
        assert(a + b =~= a);
    } else {
        typed_in_parts(text, a, b.drop_last());
        assert((a + b).drop_last() =~= a + b.drop_last());
        assert((a + b).last() == b.last());
    }
}

/// How many of the first `n` rows of a table have a label.
pub open spec fn labels_before(table: Seq<BindingView>, n: int) -> int
    decreases n,
{
    if n <= 0 {
        0
    } else {
        labels_before(table, n - 1) + if table[n - 1].label.is_some() {
            1int
        } else {
            0
        }
    }
}

/// The palette lists the labelled rows of the table, in order: each with its label, its
/// command, and the hint of its chord where it has one. What is searched is the label
/// and the hint behind it.
pub proof fn the_palette_lists_the_labels(table: Seq<BindingView>, i: int)
    requires
        0 <= i < table.len(),
    ensures
        palette_entries(table).len() == labels_before(table, table.len() as int),
        table[i].label matches Some(label) ==> {
            let e = palette_entries(table)[labels_before(table, i)];
            &&& 0 <= labels_before(table, i) < palette_entries(table).len()
            &&& e.label == label
            &&& e.action == table[i].action
            &&& e.detail.is_some() == table[i].chord.is_some()
            &&& table[i].chord matches Some(c) ==> e.detail == Some(chord_hint(c))
            &&& table[i].chord matches Some(c) ==> e.haystack == label + seq![' '] + chord_hint(c)
            &&& table[i].chord.is_none() ==> e.haystack == label
        },
    decreases table.len(),
{
    let head = table.drop_last();
    let n = table.len() as int;
    same_labels(table, head, n - 1);
    same_labels(table, head, i);
    if i < n - 1 {
        assert(head[i] == table[i]);
        the_palette_lists_the_labels(head, i);
    } else if n > 1 {
        the_palette_lists_the_labels(head, 0);
    } else {
        assert(palette_entries(head) =~= Seq::empty());
    }
}

proof fn same_labels(table: Seq<BindingView>, head: Seq<BindingView>, n: int)
    requires
        n <= head.len() <= table.len(),
        forall|j: int| 0 <= j < head.len() ==> #[trigger] head[j] == table[j],
    ensures
        labels_before(table, n) == labels_before(head, n),
        n >= 0 ==> 0 <= labels_before(table, n) <= n,
    decreases n,
{
    if n > 0 {
        same_labels(table, head, n - 1);
        assert(head[n - 1] == table[n - 1]);
    }
}

/// The history search lists the commands in order; choosing one inserts it as it is.
pub proof fn the_history_lists_the_commands(commands: Seq<Seq<char>>, i: int)
    requires
        0 <= i < commands.len(),
    ensures
        history_entries(commands).len() == commands.len(),
        history_entries(commands)[i].label == commands[i],
        history_entries(commands)[i].haystack == commands[i],
        history_entries(commands)[i].detail.is_none(),
        history_entries(commands)[i].action == ActionView::InsertCommand(commands[i]),
{
}

/// A query lists exactly the entries that match it; without one, all are listed in order.
pub proof fn a_query_lists_what_matches(query: Seq<char>, candidates: Seq<CandidateView>, i: int)
    requires
        0 <= i < candidates.len(),
    ensures
        query.len() == 0 ==> listed_for(query, candidates).len() == candidates.len(),
        query.len() == 0 ==> listed_for(query, candidates)[i] == i,
        query.len() > 0 && matchable(query, candidates[i].haystack) ==> (listed_for(
            query,
            candidates,
        ).contains(i) <==> fuzzy_score(query, candidates[i].haystack).is_some()),
        query.len() > 0 && !matchable(query, candidates[i].haystack) ==> !listed_for(
            query,
            candidates,
        ).contains(i),
{
    let scores = scores_for(query, candidates);
    ranking_is_sorted(scores);
    let list = ranked(scores);
    if query.len() > 0 && list.contains(i) {
        let k = choose|k: int| 0 <= k < list.len() && list[k] == i;
        assert(scores[list[k]].is_some());
    }
    assert(scores[i] == match_score(query, candidates[i].haystack));
}

/// Of two listed entries the one that matches better comes first, and of two that match
/// equally well the earlier one.
pub proof fn better_matches_come_first(query: Seq<char>, candidates: Seq<CandidateView>, j: int, k: int)
    requires
        query.len() > 0,
        0 <= j < k < listed_for(query, candidates).len(),
    ensures
        ({
            let a = listed_for(query, candidates)[j];
            let b = listed_for(query, candidates)[k];
            let x = fuzzy_score(query, candidates[a].haystack);
            let y = fuzzy_score(query, candidates[b].haystack);
            &&& x.is_some() && y.is_some()
            &&& x->0 > y->0 || (x->0 == y->0 && a < b)
        }),
{
    let scores = scores_for(query, candidates);
    ranking_is_sorted(scores);
    let a = ranked(scores)[j];
    let b = ranked(scores)[k];
    assert(ranks_before(scores, a, b));
    assert(scores[a] == match_score(query, candidates[a].haystack));
    assert(scores[b] == match_score(query, candidates[b].haystack));
}

/// The window scrolls no further than it must: where it does not begin at the top of the
/// list, the highlighted row is its last.
pub proof fn the_window_scrolls_as_needed(v: OverlayView, capacity: int)
    requires
        v.wf(),
        capacity > 0,
        v.filtered.len() > 0,
    ensures
        ({
            let n = v.visible(capacity);
            &&& n <= capacity && n <= v.filtered.len()
            &&& n == capacity || n == v.filtered.len()
            &&& v.selected < n ==> v.window_start(n) == 0
            &&& v.selected >= n ==> v.window_start(n) + n - 1 == v.selected
        }),
{
}

/// Typing into the query and erasing it again shows the list as it was, with the
/// highlight on the same entry or at the top.
pub proof fn erasing_a_query_lists_as_before(v: OverlayView, c: char)
    requires
        v.wf(),
        !is_control(c),
        v.filtered == listed_for(v.query, v.candidates),
    ensures
        ({
            let on = (OverlayView { query: typed(v.query, c), ..v }).refiltered();
            let off = (OverlayView { query: erased(on.query), ..on }).refiltered();
            &&& off.query == v.query
            &&& off.filtered == v.filtered
            &&& off.candidates == v.candidates
        }),
{
    erasing_undoes_typing(v.query, c);
}

/// A mix with full alpha is the upper color and with none the lower, always opaque.
pub proof fn mixes_are_opaque(top: Rgba, bottom: Rgba, alpha: u8)
    ensures
        mixed_colors(top, bottom, 255) == (Rgba { a: 255, ..top }),
        mixed_colors(top, bottom, 0) == (Rgba { a: 255, ..bottom }),
        mixed_colors(top, bottom, alpha).a == 255,
{
    crate::color::blend_extremes(top.r, bottom.r);
    crate::color::blend_extremes(top.g, bottom.g);
    crate::color::blend_extremes(top.b, bottom.b);
}

/// The palette is marked by an angle, the history search by its name.
pub proof fn sigils_differ(kind: Kind)
    ensures
        prompt_of(Kind::Palette) == seq!['>'],
        prompt_of(Kind::History) == seq!['h', 'i', 's', 't', 'o', 'r', 'y'],
{
    reveal_strlit(">");
    reveal_strlit("history");
    assert(">"@ =~= seq!['>']);
    assert("history"@ =~= seq!['h', 'i', 's', 't', 'o', 'r', 'y']);
}

} // verus!
