//! The completion-delegation wire protocol.
//!
//! The terminal owns the prompt editor but delegates *completion* to the shell's
//! own engine, fetched out-of-band. This module defines the two halves of that
//! exchange:
//!
//! - **Request** (terminal → a responder): the partial line + cursor byte offset,
//!   as a transport-neutral serialization a responder consumes (typed as a
//!   function invocation to a warm subshell, or read from the line a bound widget
//!   was triggered over). [`encode_request`] produces that serialization.
//!
//! - **Response** (a responder → terminal): the candidate list, emitted as a
//!   custom **OSC sequence** the shell prints to its PTY, so it rides the same
//!   byte stream the OSC-133 markers do and is framed by
//!   [`crate::osc133::Scanner`].
//!
//! All free-text fields (the line, candidate values, descriptions) are
//! percent-encoded with a strict unreserved set, so the framing bytes — `;`
//! between fields, `,` between a value and its description, the OSC terminators,
//! and any control/non-ASCII byte — can never appear inside a field.

use vstd::prelude::*;
use vstd::utf8::{decode_utf8, encode_utf8, encode_utf8_decode_utf8, encode_utf8_valid_utf8, is_ascii_chars, is_ascii_chars_encode_utf8, valid_utf8};
use crate::decimal::{all_digits, decimal, decimal_reads_back, is_digit, parse_unsigned, to_decimal, unsigned_of};
use crate::osc133::{MAX_COMPLETION_OSC, MarkerView, ScanState, cwd_prefix, encoded_char, encoded_text_is_unreserved, escaped, framed_payload_is_found, marker_of, percent_coding_round_trips, percent_decode, percent_decoded, percent_encode_strict, scan_hits, scan_state, semantic_prefix, unescape_undoes_escape};
use crate::text::{bytes_of, chars_of, find_char, find_first, find_first_is, from_utf8, join_on, split_chars, split_on, split_undoes_join, string_of, sub_chars};

verus! {

/// The OSC payload prefix that frames a completion **response**. `5379` is a
/// private OSC command code, and the `res` sub-tag makes a stray collision on
/// the number alone fail to match.
pub const RESPONSE_PREFIX: &'static str = "5379;res;";

/// Cap on candidates a single response carries. Responders should rank and
/// truncate to this; [`encode_response`] enforces it.
pub const MAX_ITEMS: usize = 256;

/// The bytes of [`RESPONSE_PREFIX`].
pub open spec fn response_prefix() -> Seq<u8> {
    seq![0x35u8, 0x33, 0x37, 0x39, 0x3b, 0x72, 0x65, 0x73, 0x3b]
}

/// A completion request: complete `line` with the cursor at byte offset `cursor`.
#[derive(Clone, Debug, PartialEq, Eq)]
pub struct CompletionRequest {
    /// The partial command line to complete.
    pub line: String,
    /// The cursor position as a byte offset into `line` (`0..=line.len()`).
    pub cursor: usize,
}

/// One completion candidate: the text to insert, plus an optional description
/// (e.g. fish's per-candidate hint; bash has none, so `None`).
#[derive(Clone, Debug, PartialEq, Eq)]
pub struct CompletionItem {
    /// The candidate text that replaces the in-progress word.
    pub value: String,
    /// A short description shown beside the candidate, if the engine supplies one.
    pub description: Option<String>,
}

/// A completion response: the candidates, plus the byte range of the request line
/// they replace. `replace_start..replace_end` is the in-progress word (the same
/// span for every candidate — shells complete one token at a time), so the app
/// splices a chosen `value` over that range rather than appending it.
#[derive(Clone, Debug, PartialEq, Eq)]
pub struct CompletionResponse {
    /// Byte offset into the request line where the replaced word begins.
    pub replace_start: usize,
    /// Byte offset into the request line where the replaced word ends (usually
    /// the request cursor).
    pub replace_end: usize,
    /// The candidates, best-ranked first; at most [`MAX_ITEMS`].
    pub items: Vec<CompletionItem>,
}

/// A candidate with its texts as characters.
pub ghost struct ItemView {
    pub value: Seq<char>,
    pub description: Option<Seq<char>>,
}

/// A response with its texts as characters.
pub ghost struct ResponseView {
    pub replace_start: nat,
    pub replace_end: nat,
    pub items: Seq<ItemView>,
}

/// An optional string as characters.
pub open spec fn opt_text(s: Option<String>) -> Option<Seq<char>> {
    match s {
        Some(s) => Some(s@),
        None => None,
    }
}

impl CompletionItem {
    pub open spec fn view(&self) -> ItemView {
        ItemView { value: self.value@, description: opt_text(self.description) }
    }
}

/// The candidates as views.
pub open spec fn item_views(items: Seq<CompletionItem>) -> Seq<ItemView> {
    items.map_values(|i: CompletionItem| i@)
}

impl CompletionResponse {
    pub open spec fn view(&self) -> ResponseView {
        ResponseView {
            replace_start: self.replace_start as nat,
            replace_end: self.replace_end as nat,
            items: item_views(self.items@),
        }
    }
}

/// The wire form of a request.
pub open spec fn request_text(line: Seq<char>, cursor: nat) -> Seq<char> {
    decimal(cursor) + seq![' '] + escaped(encode_utf8(line))
}

/// Serialize a request to its transport-neutral form: `"<cursor> <line%>"`, where
/// the line is strict-percent-encoded (so it holds no spaces and the single space
/// is an unambiguous separator). The transport layer adds its own framing (a
/// responder function name, a newline) around this.
pub fn encode_request(req: &CompletionRequest) -> (s: String)
    ensures
        s@ == request_text(req.line@, req.cursor as nat),
{
    let digits = to_decimal(req.cursor as u64);
    let mut s = string_of(&digits);
    s.push(' ');
    let line = percent_encode_strict(req.line.as_str());
    s.append(line.as_str());
    proof {
        assert(s@ =~= request_text(req.line@, req.cursor as nat));
    }
    s
}

/// What a request text means: the cursor before the first space, and the line
/// after it; `None` without a space, or where the cursor is no number.
pub open spec fn request_of(s: Seq<char>) -> Option<(Seq<char>, nat)> {
    let k = find_first(s, ' ');
    if k >= s.len() {
        None
    } else {
        match unsigned_of(s.take(k), usize::MAX as nat) {
            Some(cursor) => Some((percent_decoded(s.skip(k + 1)), cursor)),
            None => None,
        }
    }
}

/// Parse a request produced by [`encode_request`]. Returns `None` if the cursor
/// field is missing or not a number. Mirrors what a shell responder does.
pub fn parse_request(s: &str) -> (r: Option<CompletionRequest>)
    ensures
        match request_of(s@) {
            Some((line, cursor)) => r.is_some() && r->0.line@ == line && r->0.cursor == cursor,
            None => r.is_none(),
        },
{
    let chars = chars_of(s);
    let k = find_char(&chars, ' ');
    if k >= chars.len() {
        return None;
    }
    let head = sub_chars(&chars, 0, k);
    let tail = sub_chars(&chars, k + 1, chars.len());
    proof {
        assert(head@ =~= s@.take(k as int));
        assert(tail@ =~= s@.skip(k + 1));
    }
    match parse_unsigned(&head, usize::MAX as u64) {
        Some(cursor) => {
            let tail = string_of(&tail);
            Some(CompletionRequest { line: percent_decode(tail.as_str()), cursor: cursor as usize })
        },
        None => None,
    }
}

/// How one candidate is written.
pub open spec fn item_text(item: ItemView) -> Seq<char> {
    let value = escaped(encode_utf8(item.value));
    match item.description {
        Some(d) => value + seq![','] + escaped(encode_utf8(d)),
        None => value,
    }
}

/// The candidates, each after a `;`.
pub open spec fn items_text(items: Seq<ItemView>) -> Seq<char>
    decreases items.len(),
{
    if items.len() == 0 {
        Seq::empty()
    } else {
        items_text(items.drop_last()) + (seq![';'] + item_text(items.last()))
    }
}

/// The payload of a response, after the prefix.
pub open spec fn response_text(res: ResponseView) -> Seq<char> {
    decimal(res.replace_start) + seq![';'] + decimal(res.replace_end) + items_text(res.items)
}

/// `res` with its candidates cut to the cap.
pub open spec fn capped(res: ResponseView) -> ResponseView {
    if res.items.len() > MAX_ITEMS {
        ResponseView { items: res.items.take(MAX_ITEMS as int), ..res }
    } else {
        res
    }
}

/// The whole OSC sequence of a response.
pub open spec fn response_bytes(res: ResponseView) -> Seq<u8> {
    seq![0x1bu8, 0x5d] + response_prefix() + encode_utf8(response_text(res)) + seq![0x1bu8, 0x5c]
}

/// Encode a response to the full OSC byte sequence a responder prints
/// (`ESC ] 5379;res;… ST`). The candidate count is capped at [`MAX_ITEMS`]. This
/// is the reference the per-shell responders reproduce.
pub fn encode_response(res: &CompletionResponse) -> (out: Vec<u8>)
    ensures
        out@ == response_bytes(capped(res@)),
{
    let start = to_decimal(res.replace_start as u64);
    let end = to_decimal(res.replace_end as u64);
    let mut payload = string_of(&start);
    payload.push(';');
    let end = string_of(&end);
    payload.append(end.as_str());
    let n: usize = if res.items.len() > MAX_ITEMS {
        MAX_ITEMS
    } else {
        res.items.len()
    };
    let ghost all = item_views(res.items@);
    let ghost head = payload@;
    let mut i: usize = 0;
    proof {
        assert(head + items_text(all.take(0)) =~= head);
    }
    while i < n
        invariant
            i <= n <= res.items.len(),
            all == item_views(res.items@),
            payload@ == head + items_text(all.take(i as int)),
        decreases n - i,
    {
        let item = &res.items[i];
        let ghost before = payload@;
        payload.push(';');
        let value = percent_encode_strict(item.value.as_str());
        payload.append(value.as_str());
        if let Some(desc) = &item.description {
            payload.push(',');
            let desc = percent_encode_strict(desc.as_str());
            payload.append(desc.as_str());
        }
        proof {
            assert(all.take(i + 1).drop_last() =~= all.take(i as int));
            assert(all.take(i + 1).last() == item@);
            assert(payload@ =~= before + (seq![';'] + item_text(item@)));
            assert(payload@ =~= head + (items_text(all.take(i as int)) + (seq![';'] + item_text(item@))));
        }
        i = i + 1;
    }
    proof {
        assert(all.take(all.len() as int) =~= all);
        assert(capped(res@).items == all.take(n as int));
        assert(payload@ =~= response_text(capped(res@)));
    }
    let mut out: Vec<u8> = vec![0x1b, 0x5d, 0x35, 0x33, 0x37, 0x39, 0x3b, 0x72, 0x65, 0x73, 0x3b];
    proof {
        assert(out@ =~= seq![0x1bu8, 0x5d] + response_prefix());
    }
    let mut body = bytes_of(payload.as_str());
    out.append(&mut body);
    out.push(0x1b);
    out.push(0x5c);
    proof {
        assert(out@ =~= response_bytes(capped(res@)));
    }
    out
}

/// What one field of a response stands for: a value, and after the first `,` its
/// description.
pub open spec fn item_of(field: Seq<char>) -> ItemView {
    let k = find_first(field, ',');
    if k < field.len() {
        ItemView {
            value: percent_decoded(field.take(k)),
            description: Some(percent_decoded(field.skip(k + 1))),
        }
    } else {
        ItemView { value: percent_decoded(field), description: None }
    }
}

/// The candidates of the fields; empty fields stand for none.
pub open spec fn items_of(fields: Seq<Seq<char>>) -> Seq<ItemView>
    decreases fields.len(),
{
    if fields.len() == 0 {
        Seq::empty()
    } else if fields.last().len() == 0 {
        items_of(fields.drop_last())
    } else {
        items_of(fields.drop_last()).push(item_of(fields.last()))
    }
}

/// What the payload of a response, after the prefix, means.
pub open spec fn response_of(rest: Seq<u8>) -> Option<ResponseView> {
    if !valid_utf8(rest) {
        None
    } else {
        let fields = split_on(decode_utf8(rest), ';');
        if fields.len() < 2 {
            None
        } else {
            match (unsigned_of(fields[0], usize::MAX as nat), unsigned_of(fields[1], usize::MAX as nat)) {
                (Some(start), Some(end)) => Some(
                    ResponseView {
                        replace_start: start,
                        replace_end: end,
                        items: items_of(fields.skip(2)),
                    },
                ),
                _ => None,
            }
        }
    }
}

/// Parse the bytes of a completion-response OSC payload *after* [`RESPONSE_PREFIX`]
/// — i.e. `"<start>;<end>[;<value%>[,<desc%>]]…"`. Returns `None` for a malformed
/// header (non-UTF-8, or a start/end that is not a number); a stray empty
/// candidate field is skipped rather than rejected.
pub fn parse_response_payload(rest: &[u8]) -> (r: Option<CompletionResponse>)
    ensures
        match response_of(rest@) {
            Some(v) => r.is_some() && r->0@ == v,
            None => r.is_none(),
        },
{
    let text = match from_utf8(rest) {
        Some(t) => t,
        None => {
            return None;
        },
    };
    let chars = chars_of(text.as_str());
    let fields = split_chars(&chars, ';');
    let ghost f = split_on(chars@, ';');
    if fields.len() < 2 {
        return None;
    }
    proof {
        assert(f[0] == fields@[0]@);
        assert(f[1] == fields@[1]@);
    }
    let replace_start = match parse_unsigned(&fields[0], usize::MAX as u64) {
        Some(n) => n as usize,
        None => {
            return None;
        },
    };
    let replace_end = match parse_unsigned(&fields[1], usize::MAX as u64) {
        Some(n) => n as usize,
        None => {
            return None;
        },
    };
    let mut items: Vec<CompletionItem> = Vec::new();
    let mut i: usize = 2;
    proof {
        assert(item_views(items@) =~= items_of(f.subrange(2, 2)));
    }
    while i < fields.len()
        invariant
            2 <= i <= fields.len(),
            f.len() == fields.len(),
            forall|k: int| 0 <= k < f.len() ==> #[trigger] f[k] == fields@[k]@,
            item_views(items@) == items_of(f.subrange(2, i as int)),
        decreases fields.len() - i,
    {
        let field = &fields[i];
        proof {
            assert(f.subrange(2, i + 1).drop_last() =~= f.subrange(2, i as int));
            assert(f.subrange(2, i + 1).last() == f[i as int]);
        }
        if field.len() > 0 {
            let k = find_char(field, ',');
            let ghost before = item_views(items@);
            let item = if k < field.len() {
                let v = sub_chars(field, 0, k);
                let d = sub_chars(field, k + 1, field.len());
                proof {
                    assert(v@ =~= field@.take(k as int));
                    assert(d@ =~= field@.skip(k + 1));
                }
                let v = string_of(&v);
                let d = string_of(&d);
                CompletionItem {
                    value: percent_decode(v.as_str()),
                    description: Some(percent_decode(d.as_str())),
                }
            } else {
                let v = string_of(field);
                CompletionItem { value: percent_decode(v.as_str()), description: None }
            };
            items.push(item);
            proof {
                assert(item@ == item_of(field@));
                assert(item_views(items@) =~= before.push(item@));
            }
        }
        i = i + 1;
    }
    proof {
        assert(f.subrange(2, f.len() as int) =~= f.skip(2));
    }
    Some(CompletionResponse { replace_start, replace_end, items })
}

/// A request reads back as what was written, whatever its line holds.
pub proof fn request_round_trips(line: Seq<char>, cursor: usize)
    ensures
        request_of(request_text(line, cursor as nat)) == Some((line, cursor as nat)),
{
    let d = decimal(cursor as nat);
    let e = escaped(encode_utf8(line));
    let s = request_text(line, cursor as nat);
    decimal_reads_back(cursor as nat, usize::MAX as nat);
    percent_coding_round_trips(line);
    assert forall|j: int| 0 <= j < d.len() implies s[j] != ' ' by {
        assert(s[j] == d[j]);
        assert(is_digit(d[j]));
    }
    find_first_is(s, ' ', d.len() as int);
    assert(s.take(d.len() as int) =~= d);
    assert(s.skip(d.len() as int + 1) =~= e);
}

/// Whether a candidate has anything to write: one with neither text nor
/// description leaves an empty field, which reading skips.
pub open spec fn writable(item: ItemView) -> bool {
    item.value.len() > 0 || item.description.is_some()
}

/// The texts between the `;` of a response.
pub open spec fn response_fields(res: ResponseView) -> Seq<Seq<char>> {
    seq![decimal(res.replace_start), decimal(res.replace_end)] + res.items.map_values(
        |i: ItemView| item_text(i),
    )
}

proof fn encoded_has_no(bytes: Seq<u8>, c: char)
    requires
        !encoded_char(c),
    ensures
        !escaped(bytes).contains(c),
{
    encoded_text_is_unreserved(bytes);
}

proof fn item_text_reads_back(item: ItemView)
    requires
        writable(item),
    ensures
        item_of(item_text(item)) == item,
        !item_text(item).contains(';'),
        item_text(item).len() > 0,
        is_ascii_chars(item_text(item)),
{
    let v = escaped(encode_utf8(item.value));
    let t = item_text(item);
    encoded_has_no(encode_utf8(item.value), ',');
    encoded_has_no(encode_utf8(item.value), ';');
    percent_coding_round_trips(item.value);
    unescape_undoes_escape(encode_utf8(item.value));
    match item.description {
        Some(d) => {
            let e = escaped(encode_utf8(d));
            encoded_has_no(encode_utf8(d), ';');
            percent_coding_round_trips(d);
            unescape_undoes_escape(encode_utf8(d));
            let k = v.len() as int;
            assert(t[k] == ',');
            assert forall|j: int| 0 <= j < k implies t[j] != ',' by {
                assert(t[j] == v[j]);
                assert(v.contains(v[j]));
            }
            find_first_is(t, ',', k);
            assert(t.take(k) =~= v);
            assert(t.skip(k + 1) =~= e);
            assert forall|j: int| 0 <= j < t.len() implies t[j] != ';' by {
                if j < k {
                    assert(v.contains(v[j]));
                } else if j > k {
                    assert(t[j] == e[j - k - 1]);
                    assert(e.contains(e[j - k - 1]));
                }
            }
        },
        None => {
            assert forall|j: int| 0 <= j < t.len() implies t[j] != ',' by {
                assert(v.contains(v[j]));
            }
            find_first_is(t, ',', t.len() as int);
            if v.len() == 0 {
                assert(encode_utf8(escaped(encode_utf8(item.value))) =~= Seq::empty());
                assert(encode_utf8(item.value).len() == 0);
                encode_utf8_decode_utf8(item.value);
                assert(encode_utf8(item.value) =~= encode_utf8(Seq::empty()));
                encode_utf8_decode_utf8(Seq::empty());
            }
        },
    }
}

proof fn response_is_its_fields(res: ResponseView)
    ensures
        response_text(res) == join_on(response_fields(res), seq![';']),
    decreases res.items.len(),
{
    let f = response_fields(res);
    if res.items.len() == 0 {
        assert(f =~= seq![decimal(res.replace_start), decimal(res.replace_end)]);
        assert(f.drop_last() =~= seq![decimal(res.replace_start)]);
        assert(join_on(f.drop_last(), seq![';']) == decimal(res.replace_start));
        assert(response_text(res) =~= join_on(f, seq![';']));
    } else {
        let short = ResponseView { items: res.items.drop_last(), ..res };
        response_is_its_fields(short);
        assert(f.drop_last() =~= response_fields(short));
        assert(f.last() == item_text(res.items.last()));
        assert(response_text(res) =~= join_on(f, seq![';']));
    }
}

proof fn items_read_back(items: Seq<ItemView>)
    requires
        forall|i: int| 0 <= i < items.len() ==> writable(#[trigger] items[i]),
    ensures
        items_of(items.map_values(|i: ItemView| item_text(i))) == items,
    decreases items.len(),
{
    let f = |i: ItemView| item_text(i);
    let t = items.map_values(f);
    if items.len() == 0 {
        assert(items =~= Seq::empty());
    } else {
        let short = items.drop_last();
        assert forall|i: int| 0 <= i < short.len() implies writable(#[trigger] short[i]) by {
            assert(short[i] == items[i]);
        }
        items_read_back(short);
        assert(t.drop_last() =~= short.map_values(f));
        assert(writable(items[items.len() - 1]));
        item_text_reads_back(items.last());
        assert(t.last() == item_text(items.last()));
        assert(short.push(items.last()) =~= items);
    }
}

proof fn encoded_char_is_visible(c: char)
    requires
        encoded_char(c),
    ensures
        '\u{20}' < c < '\u{7f}',
{
    if c != '%' {
        assert((c as u8) as u32 == c as u32);
    }
}

proof fn response_text_is_ascii(res: ResponseView)
    requires
        forall|i: int| 0 <= i < res.items.len() ==> writable(#[trigger] res.items[i]),
    ensures
        forall|i: int|
            0 <= i < response_text(res).len() ==> '\u{20}' < #[trigger] response_text(res)[i] < '\u{7f}',
    decreases res.items.len(),
{
    let a = decimal(res.replace_start);
    let b = decimal(res.replace_end);
    decimal_reads_back(res.replace_start, res.replace_start);
    decimal_reads_back(res.replace_end, res.replace_end);
    let t = response_text(res);
    if res.items.len() == 0 {
        assert forall|i: int| 0 <= i < t.len() implies '\u{20}' < #[trigger] t[i] < '\u{7f}' by {
            if i < a.len() {
                assert(is_digit(a[i]));
                assert(t[i] == a[i]);
            } else if i > a.len() {
                assert(is_digit(b[i - a.len() - 1]));
                assert(t[i] == b[i - a.len() - 1]);
            }
        }
    } else {
        let short = ResponseView { items: res.items.drop_last(), ..res };
        response_text_is_ascii(short);
        let item = res.items.last();
        let h = response_text(short);
        let e = item_text(item);
        let v = escaped(encode_utf8(item.value));
        assert(t =~= h + (seq![';'] + e));
        encoded_text_is_unreserved(encode_utf8(item.value));
        assert forall|i: int| 0 <= i < e.len() implies '\u{20}' < #[trigger] e[i] < '\u{7f}' by {
            match item.description {
                Some(d) => {
                    let w = escaped(encode_utf8(d));
                    encoded_text_is_unreserved(encode_utf8(d));
                    if i < v.len() {
                        assert(encoded_char(v[i]));
                        assert(e[i] == v[i]);
                        encoded_char_is_visible(e[i]);
                    } else if i > v.len() {
                        assert(encoded_char(w[i - v.len() - 1]));
                        assert(e[i] == w[i - v.len() - 1]);
                        encoded_char_is_visible(e[i]);
                    } else {
                        assert(e[i] == ',');
                    }
                },
                None => {
                    assert(encoded_char(v[i]));
                    encoded_char_is_visible(e[i]);
                },
            }
        }
        assert forall|i: int| 0 <= i < t.len() implies '\u{20}' < #[trigger] t[i] < '\u{7f}' by {
            if i < h.len() {
                assert(t[i] == h[i]);
            } else if i > h.len() {
                assert(t[i] == e[i - h.len() - 1]);
            }
        }
    }
}

/// A response reads back as what was written, whatever its texts hold. A candidate
/// with neither value nor description is left out: it is written as an empty field,
/// which a reader skips.
pub proof fn response_round_trips(res: ResponseView)
    requires
        res.replace_start <= usize::MAX,
        res.replace_end <= usize::MAX,
        forall|i: int| 0 <= i < res.items.len() ==> writable(#[trigger] res.items[i]),
    ensures
        response_of(encode_utf8(response_text(res))) == Some(res),
{
    let t = response_text(res);
    let f = response_fields(res);
    encode_utf8_valid_utf8(t);
    encode_utf8_decode_utf8(t);
    response_is_its_fields(res);
    decimal_reads_back(res.replace_start, usize::MAX as nat);
    decimal_reads_back(res.replace_end, usize::MAX as nat);
    assert forall|i: int| 0 <= i < f.len() implies !(#[trigger] f[i]).contains(';') by {
        if i == 0 {
            assert(all_digits(f[0]));
        } else if i == 1 {
            assert(all_digits(f[1]));
        } else {
            assert(writable(res.items[i - 2]));
            item_text_reads_back(res.items[i - 2]);
        }
    }
    split_undoes_join(f, ';');
    assert(f.skip(2) =~= res.items.map_values(|i: ItemView| item_text(i)));
    items_read_back(res.items);
}

/// The framed bytes of a response are scanned as that response.
proof fn framed_response_is_scanned(res: ResponseView)
    requires
        res.replace_start <= usize::MAX,
        res.replace_end <= usize::MAX,
        forall|i: int| 0 <= i < res.items.len() ==> writable(#[trigger] res.items[i]),
        response_bytes(res).len() <= MAX_COMPLETION_OSC,
    ensures
        scan_state(ScanState::Ground, response_bytes(res)) == ScanState::Ground,
        scan_hits(ScanState::Ground, response_bytes(res)) == seq![
            (response_bytes(res).len() as int, MarkerView::Completion(res)),
        ],
{
    let t = response_text(res);
    let body = encode_utf8(t);
    let payload = response_prefix() + body;
    let k = response_prefix().len() as int;
    response_text_is_ascii(res);
    assert(is_ascii_chars(t));
    is_ascii_chars_encode_utf8(t);
    assert forall|i: int| 0 <= i < payload.len() implies #[trigger] payload[i] != 0x07 && payload[i]
        != 0x1b by {
        if i >= k {
            assert(payload[i] == body[i - k]);
            assert('\u{20}' < t[i - k]);
        }
    }
    assert(payload.take(k) =~= response_prefix());
    assert(payload.skip(k) =~= body);
    assert(payload[0] == 0x35);
    assert(payload.take(semantic_prefix().len() as int)[0] == 0x35);
    assert(payload.take(cwd_prefix().len() as int)[0] == 0x35);
    response_round_trips(res);
    assert(marker_of(payload) == Some(MarkerView::Completion(res)));
    framed_payload_is_found(ScanState::Ground, payload, false);
    assert(response_bytes(res) =~= seq![0x1bu8, 0x5d] + payload + seq![0x1bu8, 0x5c]);
}

/// The bytes that a responder prints for `res` scan to one completion marker that
/// holds `res`, its candidates cut to the cap, with its offset at their very end,
/// wherever they stay within the scanner's bound.
pub proof fn printed_response_is_scanned(res: ResponseView)
    requires
        res.replace_start <= usize::MAX,
        res.replace_end <= usize::MAX,
        forall|i: int| 0 <= i < res.items.len() ==> writable(#[trigger] res.items[i]),
        response_bytes(capped(res)).len() <= MAX_COMPLETION_OSC,
    ensures
        scan_state(ScanState::Ground, response_bytes(capped(res))) == ScanState::Ground,
        scan_hits(ScanState::Ground, response_bytes(capped(res))) == seq![
            (response_bytes(capped(res)).len() as int, MarkerView::Completion(capped(res))),
        ],
{
    let c = capped(res);
    assert forall|i: int| 0 <= i < c.items.len() implies writable(#[trigger] c.items[i]) by {
        assert(c.items[i] == res.items[i]);
    }
    framed_response_is_scanned(c);
}

/// A response is cut to its first 256 candidates and is otherwise as it was.
pub proof fn the_cap_keeps_the_best(res: ResponseView, i: int)
    ensures
        capped(res).items.len() <= 256,
        res.items.len() <= 256 ==> capped(res) == res,
        capped(res).replace_start == res.replace_start,
        capped(res).replace_end == res.replace_end,
        0 <= i < capped(res).items.len() ==> capped(res).items[i] == res.items[i],
        res.items.len() > 256 ==> capped(res).items.len() == 256,
{
}

/// A response whose range is not two numbers is refused, and so is one that is no text.
pub proof fn malformed_responses_are_refused(rest: Seq<u8>)
    ensures
        !valid_utf8(rest) ==> response_of(rest).is_none(),
        valid_utf8(rest) && split_on(decode_utf8(rest), ';').len() < 2 ==> response_of(rest).is_none(),
        response_of(rest) matches Some(r) ==> {
            let fields = split_on(decode_utf8(rest), ';');
            &&& unsigned_of(fields[0], usize::MAX as nat) == Some(r.replace_start)
            &&& unsigned_of(fields[1], usize::MAX as nat) == Some(r.replace_end)
            &&& r.items.len() <= fields.len() - 2
        },
{
    if valid_utf8(rest) {
        let fields = split_on(decode_utf8(rest), ';');
        if fields.len() >= 2 {
            items_are_fields(fields.skip(2));
        }
    }
}

proof fn items_are_fields(fields: Seq<Seq<char>>)
    ensures
        items_of(fields).len() <= fields.len(),
    decreases fields.len(),
{
    if fields.len() > 0 {
        items_are_fields(fields.drop_last());
    }
}

/// A request is read at its first space: the cursor before it, the line behind it.
pub proof fn requests_are_read_at_the_space(cursor: usize, rest: Seq<char>, line: Seq<char>)
    ensures
        request_of(decimal(cursor as nat) + seq![' '] + rest) == Some(
            (percent_decoded(rest), cursor as nat),
        ),
        ({
            let t = request_text(line, cursor as nat);
            let n = decimal(cursor as nat).len() as int;
            &&& t.take(n) == decimal(cursor as nat)
            &&& t[n] == ' '
            &&& t.skip(n + 1) == escaped(encode_utf8(line))
        }),
{
    let d = decimal(cursor as nat);
    let n = d.len() as int;
    let s = d + seq![' '] + rest;
    decimal_reads_back(cursor as nat, usize::MAX as nat);
    assert forall|j: int| 0 <= j < n implies s[j] != ' ' by {
        assert(s[j] == d[j]);
        assert(is_digit(d[j]));
    }
    find_first_is(s, ' ', n);
    assert(s.take(n) =~= d);
    assert(s.skip(n + 1) =~= rest);
    let t = request_text(line, cursor as nat);
    assert(t.take(n) =~= d);
    assert(t.skip(n + 1) =~= escaped(encode_utf8(line)));
}

/// A response is written in fields: the range that it replaces, then the candidates in
/// order, each with its description behind a comma.
pub proof fn responses_are_written_in_fields(res: ResponseView, i: int)
    requires
        0 <= i < res.items.len(),
    ensures
        ({
            let fields = split_on(response_text(res), ';');
            let value = escaped(encode_utf8(res.items[i].value));
            &&& fields.len() == res.items.len() + 2
            &&& fields[0] == decimal(res.replace_start)
            &&& fields[1] == decimal(res.replace_end)
            &&& res.items[i].description.is_none() ==> fields[i + 2] == value
            &&& res.items[i].description matches Some(d) ==> fields[i + 2] == value + seq![','] + escaped(
                encode_utf8(d),
            )
        }),
{
    let f = response_fields(res);
    response_is_its_fields(res);
    decimal_reads_back(res.replace_start, res.replace_start);
    decimal_reads_back(res.replace_end, res.replace_end);
    assert forall|k: int| 0 <= k < f.len() implies !(#[trigger] f[k]).contains(';') by {
        if k == 0 {
            assert(all_digits(f[0]));
        } else if k == 1 {
            assert(all_digits(f[1]));
        } else {
            no_separator_in_item(res.items[k - 2]);
        }
    }
    split_undoes_join(f, ';');
}

proof fn no_separator_in_item(item: ItemView)
    ensures
        !item_text(item).contains(';'),
{
    let t = item_text(item);
    encoded_text_is_unreserved(encode_utf8(item.value));
    if item.description.is_some() {
        encoded_text_is_unreserved(encode_utf8(item.description->0));
    }
    if t.contains(';') {
        let i = choose|i: int| 0 <= i < t.len() && t[i] == ';';
        let v = escaped(encode_utf8(item.value));
        if i < v.len() {
            assert(encoded_char(v[i]));
        } else if i > v.len() {
            let d = escaped(encode_utf8(item.description->0));
            assert(t[i] == d[i - v.len() - 1]);
            assert(encoded_char(d[i - v.len() - 1]));
        }
    }
}

/// An empty field of a response stands for no candidate, any other for one.
pub proof fn empty_fields_are_skipped(fields: Seq<Seq<char>>, field: Seq<char>)
    ensures
        items_of(fields.push(Seq::empty())) == items_of(fields),
        field.len() > 0 ==> items_of(fields.push(field)).len() == items_of(fields).len() + 1,
        field.len() > 0 && !field.contains(',') ==> items_of(fields.push(field)).last() == (ItemView {
            value: percent_decoded(field),
            description: None,
        }),
{
    assert(fields.push(Seq::<char>::empty()).drop_last() =~= fields);
    assert(fields.push(field).drop_last() =~= fields);
    if field.len() > 0 && !field.contains(',') {
        assert forall|j: int| 0 <= j < field.len() implies field[j] != ',' by {
            assert(field.contains(field[j]));
        }
        find_first_is(field, ',', field.len() as int);
    }
}

} // verus!
