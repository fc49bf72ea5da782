//! A byte-stream tee that recognizes shell-integration escape sequences which
//! the emulator drops before any handler can see them.
//!
//! [`Scanner`] runs over each PTY chunk *before* it reaches the emulator, framing
//! OSC sequences (`ESC ] … (BEL | ST)`) and surfacing the ones we care about:
//!
//! - **OSC 133** semantic prompts (`133;A` / `B` / `C` / `D[;exit]`) — the
//!   command-block boundaries.
//! - **OSC 7** working-directory reports (`7;file://host/path`).
//! - Completion responses (see [`crate::completion`]).
//!
//! The framing state persists across calls, so a sequence split across PTY
//! reads is still recognized. Each recognized marker is returned with the byte
//! offset just past its terminator, so the caller can feed the emulator up to
//! that point and read the cursor to anchor the marker to an absolute grid line.

use vstd::prelude::*;
use vstd::utf8::{decode_utf8, encode_utf8, encode_utf8_decode_utf8, encode_utf8_valid_utf8, is_ascii_chars, is_ascii_chars_encode_utf8, valid_utf8};
use crate::completion::{CompletionResponse, ResponseView, parse_response_payload, response_of, response_prefix};
use crate::decimal::{decimal, i32_of, parse_i32, signed_numbers_read_back};
use crate::hex::{hex_digit, hex_val, to_upper_digit, upper_digit};
use crate::text::{begins_with, chars_of, decoded_text, find_char, find_first, find_first_is, from_utf8, from_utf8_lossy, has_prefix, split_at_the_first_separator, split_chars, split_on, string_of, sub_chars};

verus! {

/// An OSC 133 semantic-prompt marker.
#[derive(Clone, Copy, Debug, PartialEq, Eq, Structural)]
pub enum SemanticKind {
    /// `133;A` — a fresh prompt is about to be drawn.
    PromptStart,
    /// `133;B` — end of the prompt; command input begins here.
    PromptEnd,
    /// `133;C` — the command was submitted; its output begins here.
    OutputStart,
    /// `133;D[;exit]` — the command finished, optionally with its exit code.
    CommandFinished(Option<i32>),
}

/// A recognized shell-integration marker.
#[derive(Clone, Debug, PartialEq, Eq)]
pub enum Marker {
    /// An OSC 133 semantic prompt.
    Semantic(SemanticKind),
    /// An OSC 7 working-directory report, decoded to a filesystem path.
    Cwd(String),
    /// A completion response.
    Completion(CompletionResponse),
}

/// A marker with its text as characters.
pub ghost enum MarkerView {
    Semantic(SemanticKind),
    Cwd(Seq<char>),
    Completion(ResponseView),
}

impl Marker {
    pub open spec fn view(&self) -> MarkerView {
        match self {
            Marker::Semantic(k) => MarkerView::Semantic(*k),
            Marker::Cwd(p) => MarkerView::Cwd(p@),
            Marker::Completion(r) => MarkerView::Completion(r@),
        }
    }
}

/// Upper bound on an OSC payload we will buffer; a longer sequence is abandoned
/// rather than grown without limit (the emulator still parses it on its own
/// path).
pub const MAX_OSC: usize = 4096;

/// The same bound for a completion response, which carries many candidates.
pub const MAX_COMPLETION_OSC: usize = 1048576;

/// Where the scanner is in the middle of recognizing an OSC sequence. The buffer
/// holds the payload accumulated after `ESC ]`, so a split read resumes cleanly.
#[derive(Debug)]
pub enum State {
    /// Outside any escape sequence.
    Ground,
    /// Saw `ESC`; awaiting `]` to begin an OSC.
    Esc,
    /// Inside an OSC payload.
    Osc(Vec<u8>),
    /// Inside an OSC payload, just saw `ESC`; awaiting `\` (the ST terminator).
    OscEsc(Vec<u8>),
}

/// A scanner state with its buffer as a sequence.
pub ghost enum ScanState {
    Ground,
    Esc,
    Osc(Seq<u8>),
    OscEsc(Seq<u8>),
}

impl State {
    pub open spec fn view(&self) -> ScanState {
        match self {
            State::Ground => ScanState::Ground,
            State::Esc => ScanState::Esc,
            State::Osc(b) => ScanState::Osc(b@),
            State::OscEsc(b) => ScanState::OscEsc(b@),
        }
    }
}

/// The longest payload that is buffered, given how it begins.
pub open spec fn osc_limit(payload: Seq<u8>) -> int {
    if payload.len() >= response_prefix().len() && payload.take(response_prefix().len() as int)
        == response_prefix() {
        MAX_COMPLETION_OSC as int
    } else {
        MAX_OSC as int
    }
}

/// The state after one more byte.
pub open spec fn scan_step(st: ScanState, b: u8) -> ScanState {
    match st {
        ScanState::Ground => if b == 0x1b {
            ScanState::Esc
        } else {
            ScanState::Ground
        },
        ScanState::Esc => if b == 0x5d {
            ScanState::Osc(Seq::empty())
        } else if b == 0x1b {
            ScanState::Esc
        } else {
            ScanState::Ground
        },
        ScanState::Osc(buf) => if b == 0x07 {
            ScanState::Ground
        } else if b == 0x1b {
            ScanState::OscEsc(buf)
        } else if buf.len() + 1 > osc_limit(buf.push(b)) {
            ScanState::Ground
        } else {
            ScanState::Osc(buf.push(b))
        },
        ScanState::OscEsc(buf) => if b == 0x5d {
            ScanState::Osc(Seq::empty())
        } else if b == 0x1b {
            ScanState::Esc
        } else {
            ScanState::Ground
        },
    }
}

/// The payload that byte `b` completes, if it ends an OSC sequence: BEL inside
/// one, or the second byte of the ST terminator.
pub open spec fn completed(st: ScanState, b: u8) -> Option<Seq<u8>> {
    match st {
        ScanState::Osc(buf) => if b == 0x07 {
            Some(buf)
        } else {
            None
        },
        ScanState::OscEsc(buf) => if b == 0x5c {
            Some(buf)
        } else {
            None
        },
        _ => None,
    }
}

/// The state after all of `bytes`.
pub open spec fn scan_state(st: ScanState, bytes: Seq<u8>) -> ScanState
    decreases bytes.len(),
{
    if bytes.len() == 0 {
        st
    } else {
        scan_step(scan_state(st, bytes.drop_last()), bytes.last())
    }
}

/// The marker that byte `b` completes, if any.
pub open spec fn marker_at(st: ScanState, b: u8) -> Option<MarkerView> {
    match completed(st, b) {
        Some(payload) => marker_of(payload),
        None => None,
    }
}

/// The markers completed within `bytes`, each with the offset just past its
/// terminator.
pub open spec fn scan_hits(st: ScanState, bytes: Seq<u8>) -> Seq<(int, MarkerView)>
    decreases bytes.len(),
{
    if bytes.len() == 0 {
        Seq::empty()
    } else {
        let before = scan_hits(st, bytes.drop_last());
        match marker_at(scan_state(st, bytes.drop_last()), bytes.last()) {
            Some(m) => before.push((bytes.len() as int, m)),
            None => before,
        }
    }
}

/// Scan results with markers as views.
pub open spec fn hits_view(hits: Seq<(usize, Marker)>) -> Seq<(int, MarkerView)> {
    hits.map_values(|h: (usize, Marker)| (h.0 as int, h.1@))
}

/// Stateful OSC framer. One per terminal; [`Scanner::scan`] each PTY chunk.
#[derive(Debug)]
pub struct Scanner {
    pub state: State,
}

impl Scanner {
    pub open spec fn view(&self) -> ScanState {
        self.state@
    }

    /// A scanner outside any sequence.
    pub fn new() -> (s: Self)
        ensures
            s@ == ScanState::Ground,
    {
        Scanner { state: State::Ground }
    }

    /// Scan one chunk, returning each recognized marker paired with the byte
    /// offset **just past** its terminator within `bytes`. Framing state carries
    /// over to the next call, so a sequence straddling chunk boundaries is
    /// recognized when its terminator finally arrives.
    pub fn scan(&mut self, bytes: &[u8]) -> (hits: Vec<(usize, Marker)>)
        ensures
            hits_view(hits@) == scan_hits(old(self)@, bytes@),
            final(self)@ == scan_state(old(self)@, bytes@),
    {
        let mut hits: Vec<(usize, Marker)> = Vec::new();
        let mut i: usize = 0;
        proof {
            assert(hits_view(hits@) =~= Seq::empty());
        }
        while i < bytes.len()
            invariant
                i <= bytes.len(),
                hits_view(hits@) == scan_hits(old(self)@, bytes@.take(i as int)),
                self@ == scan_state(old(self)@, bytes@.take(i as int)),
            decreases bytes.len() - i,
        {
            let b: u8 = bytes[i];
            let ghost st = self@;
            proof {
                assert(bytes@.take(i + 1).drop_last() =~= bytes@.take(i as int));
            }
            let mut state = State::Ground;
            std::mem::swap(&mut self.state, &mut state);
            self.state = match state {
                State::Ground => if b == 0x1b {
                    State::Esc
                } else {
                    State::Ground
                },
                State::Esc => if b == 0x5d {
                    State::Osc(Vec::new())
                } else if b == 0x1b {
                    State::Esc
                } else {
                    State::Ground
                },
                State::Osc(mut buf) => if b == 0x07 {
                    push_hit(&mut hits, i, &buf);
                    State::Ground
                } else if b == 0x1b {
                    State::OscEsc(buf)
                } else {
                    buf.push(b);
                    if over_limit(&buf) {
                        State::Ground
                    } else {
                        State::Osc(buf)
                    }
                },
                State::OscEsc(buf) => if b == 0x5c {
                    push_hit(&mut hits, i, &buf);
                    State::Ground
                } else if b == 0x5d {
                    State::Osc(Vec::new())
                } else if b == 0x1b {
                    State::Esc
                } else {
                    State::Ground
                },
            };
            proof {
                match &self.state {
                    State::Osc(v) => {
                        if v@.len() == 0 {
                            assert(v@ =~= Seq::empty());
                        }
                    },
                    _ => {},
                }
                assert(self@ == scan_step(st, b));
            }
            i = i + 1;
        }
        proof {
            assert(bytes@.take(bytes@.len() as int) =~= bytes@);
        }
        hits
    }
}

impl Default for Scanner {
    fn default() -> (s: Self)
        ensures
            s@ == ScanState::Ground,
    {
        Scanner::new()
    }
}

/// Whether the payload has outgrown its limit.
fn over_limit(payload: &[u8]) -> (r: bool)
    ensures
        r == (payload@.len() > osc_limit(payload@)),
{
    if payload.len() <= MAX_OSC {
        false
    } else if payload.len() > MAX_COMPLETION_OSC {
        true
    } else {
        strip_bytes(payload, &prefix_bytes()).is_none()
    }
}

fn prefix_bytes() -> (v: Vec<u8>)
    ensures
        v@ == response_prefix(),
{
    let v: Vec<u8> = vec![0x35, 0x33, 0x37, 0x39, 0x3b, 0x72, 0x65, 0x73, 0x3b];
    proof {
        assert(v@ =~= response_prefix());
    }
    v
}

/// What follows `prefix` in `s`, if `s` begins with it.
pub open spec fn after_prefix(s: Seq<u8>, prefix: Seq<u8>) -> Option<Seq<u8>> {
    if s.len() >= prefix.len() && s.take(prefix.len() as int) == prefix {
        Some(s.skip(prefix.len() as int))
    } else {
        None
    }
}

/// What follows `prefix` in `s`, if `s` begins with it.
pub fn strip_bytes<'a>(s: &'a [u8], prefix: &[u8]) -> (r: Option<&'a [u8]>)
    ensures
        match after_prefix(s@, prefix@) {
            Some(rest) => r.is_some() && r->0@ == rest,
            None => r.is_none(),
        },
{
    if s.len() < prefix.len() {
        return None;
    }
    let mut i: usize = 0;
    while i < prefix.len()
        invariant
            i <= prefix.len() <= s.len(),
            forall|j: int| 0 <= j < i ==> s@[j] == prefix@[j],
        decreases prefix.len() - i,
    {
        if s[i] != prefix[i] {
            proof {
                assert(s@.take(prefix@.len() as int)[i as int] != prefix@[i as int]);
            }
            return None;
        }
        i = i + 1;
    }
    proof {
        assert(s@.take(prefix@.len() as int) =~= prefix@);
        assert(s@.subrange(prefix@.len() as int, s@.len() as int) =~= s@.skip(prefix@.len() as int));
    }
    Some(&s[prefix.len()..s.len()])
}

/// Parse a completed OSC payload and, if it is one we track, record it with the
/// offset just past its terminator byte (at index `term_index`).
pub fn push_hit(hits: &mut Vec<(usize, Marker)>, term_index: usize, payload: &[u8])
    requires
        term_index < usize::MAX,
    ensures
        match marker_of(payload@) {
            Some(m) => hits_view(final(hits)@) == hits_view(old(hits)@).push((term_index + 1, m)),
            None => final(hits)@ == old(hits)@,
        },
{
    match parse_marker(payload) {
        Some(m) => {
            hits.push((term_index + 1, m));
            proof {
                assert(hits_view(hits@) =~= hits_view(old(hits)@).push((term_index + 1, m@)));
            }
        },
        None => {},
    }
}

/// The bytes as characters, one for one.
pub open spec fn byte_chars(b: Seq<u8>) -> Seq<char> {
    b.map_values(|x: u8| x as char)
}

fn chars_of_bytes(b: &[u8]) -> (v: Vec<char>)
    ensures
        v@ == byte_chars(b@),
{
    let mut v: Vec<char> = Vec::new();
    let mut i: usize = 0;
    while i < b.len()
        invariant
            i <= b.len(),
            v@ == byte_chars(b@.take(i as int)),
        decreases b.len() - i,
    {
        v.push(b[i] as char);
        proof {
            assert(byte_chars(b@.take(i + 1)) =~= byte_chars(b@.take(i as int)).push(b@[i as int] as char));
        }
        i = i + 1;
    }
    proof {
        assert(b@.take(b@.len() as int) =~= b@);
    }
    v
}

/// The semantic prompt that the `;`-separated `fields` of an OSC 133 stand for:
/// the first names the kind, the second may hold the exit code, and any more are
/// ignored.
pub open spec fn semantic_of(fields: Seq<Seq<char>>) -> Option<SemanticKind> {
    if fields[0] == seq!['A'] {
        Some(SemanticKind::PromptStart)
    } else if fields[0] == seq!['B'] {
        Some(SemanticKind::PromptEnd)
    } else if fields[0] == seq!['C'] {
        Some(SemanticKind::OutputStart)
    } else if fields[0] == seq!['D'] {
        Some(
            SemanticKind::CommandFinished(
                if fields.len() > 1 {
                    i32_of(fields[1])
                } else {
                    None
                },
            ),
        )
    } else {
        None
    }
}

/// The bytes of `133;`.
pub open spec fn semantic_prefix() -> Seq<u8> {
    seq![0x31u8, 0x33, 0x33, 0x3b]
}

/// The bytes of `7;`.
pub open spec fn cwd_prefix() -> Seq<u8> {
    seq![0x37u8, 0x3b]
}

/// What an OSC payload (the bytes between `ESC ]` and the terminator) means:
/// an OSC 133 semantic prompt, an OSC 7 working directory, or a completion
/// response; `None` for any other.
pub open spec fn marker_of(payload: Seq<u8>) -> Option<MarkerView> {
    match after_prefix(payload, semantic_prefix()) {
        Some(rest) => match semantic_of(split_on(byte_chars(rest), ';')) {
            Some(k) => Some(MarkerView::Semantic(k)),
            None => None,
        },
        None => match after_prefix(payload, cwd_prefix()) {
            Some(rest) => if valid_utf8(rest) {
                match url_path(decode_utf8(rest)) {
                    Some(p) => Some(MarkerView::Cwd(p)),
                    None => None,
                }
            } else {
                None
            },
            None => match after_prefix(payload, response_prefix()) {
                Some(rest) => match response_of(rest) {
                    Some(r) => Some(MarkerView::Completion(r)),
                    None => None,
                },
                None => None,
            },
        },
    }
}

/// Recognize a tracked marker in `payload` (the bytes between `ESC ]` and the
/// terminator).
pub fn parse_marker(payload: &[u8]) -> (m: Option<Marker>)
    ensures
        match marker_of(payload@) {
            Some(v) => m.is_some() && m->0@ == v,
            None => m.is_none(),
        },
{
    let semantic: Vec<u8> = vec![0x31, 0x33, 0x33, 0x3b];
    let cwd: Vec<u8> = vec![0x37, 0x3b];
    proof {
        assert(semantic@ =~= semantic_prefix());
        assert(cwd@ =~= cwd_prefix());
    }
    if let Some(rest) = strip_bytes(payload, &semantic) {
        let text = chars_of_bytes(rest);
        let fields = split_chars(&text, ';');
        let ghost f = split_on(text@, ';');
        proof {
            assert(f[0] == fields@[0]@);
            assert(f.len() > 1 ==> f[1] == fields@[1]@);
            assert(fields@[0]@.len() == 1 ==> fields@[0]@ =~= seq![fields@[0]@[0]]);
            assert(seq!['A'][0] == 'A' && seq!['B'][0] == 'B' && seq!['C'][0] == 'C' && seq!['D'][0] == 'D');
        }
        if fields[0].len() != 1 {
            return None;
        }
        let kind = fields[0][0];
        if kind == 'A' {
            Some(Marker::Semantic(SemanticKind::PromptStart))
        } else if kind == 'B' {
            Some(Marker::Semantic(SemanticKind::PromptEnd))
        } else if kind == 'C' {
            Some(Marker::Semantic(SemanticKind::OutputStart))
        } else if kind == 'D' {
            let exit = if fields.len() > 1 {
                parse_i32(&fields[1])
            } else {
                None
            };
            Some(Marker::Semantic(SemanticKind::CommandFinished(exit)))
        } else {
            None
        }
    } else if let Some(rest) = strip_bytes(payload, &cwd) {
        match from_utf8(rest) {
            Some(url) => match file_url_to_path(url.as_str()) {
                Some(path) => Some(Marker::Cwd(path)),
                None => None,
            },
            None => None,
        }
    } else if let Some(rest) = strip_bytes(payload, &prefix_bytes()) {
        match parse_response_payload(rest) {
            Some(r) => Some(Marker::Completion(r)),
            None => None,
        }
    } else {
        None
    }
}

/// The filesystem path of a `file://host/path` URL, percent-decoded; `None`
/// where the text is no such URL or has no path.
pub open spec fn url_path(url: Seq<char>) -> Option<Seq<char>> {
    if !begins_with(url, "file://"@) {
        None
    } else {
        let rest = url.skip("file://"@.len() as int);
        let slash = find_first(rest, '/');
        if slash < rest.len() {
            Some(percent_decoded(rest.skip(slash)))
        } else {
            None
        }
    }
}

/// Extract the filesystem path from a `file://host/path` URL, percent-decoding
/// it. Returns `None` if it is not a `file://` URL with a path. The authority
/// (host) runs up to the first `/`, which begins the path.
pub fn file_url_to_path(url: &str) -> (p: Option<String>)
    ensures
        match url_path(url@) {
            Some(path) => p.is_some() && p->0@ == path,
            None => p.is_none(),
        },
{
    let chars = chars_of(url);
    let scheme = chars_of("file://");
    if !has_prefix(&chars, &scheme) {
        return None;
    }
    let rest = sub_chars(&chars, scheme.len(), chars.len());
    proof {
        assert(rest@ =~= url@.skip("file://"@.len() as int));
    }
    let slash = find_char(&rest, '/');
    if slash < rest.len() {
        let path = sub_chars(&rest, slash, rest.len());
        proof {
            assert(path@ =~= rest@.skip(slash as int));
        }
        let path = string_of(&path);
        Some(percent_decode(path.as_str()))
    } else {
        None
    }
}

/// `bytes` with each `%XX` escape replaced by the byte it stands for; what is not
/// a valid escape stays as it is.
pub open spec fn unescaped(bytes: Seq<u8>) -> Seq<u8>
    decreases bytes.len(),
{
    if bytes.len() == 0 {
        Seq::empty()
    } else if bytes[0] == 0x25 && bytes.len() > 2 && hex_digit(bytes[1]).is_some() && hex_digit(
        bytes[2],
    ).is_some() {
        seq![(hex_digit(bytes[1])->0 * 16 + hex_digit(bytes[2])->0) as u8] + unescaped(bytes.skip(3))
    } else {
        seq![bytes[0]] + unescaped(bytes.skip(1))
    }
}

/// `s` with its escapes decoded.
pub open spec fn percent_decoded(s: Seq<char>) -> Seq<char> {
    decoded_text(unescaped(encode_utf8(s)))
}

/// Decode `%XX` escapes in a URL path; bytes that are not valid escapes pass
/// through unchanged.
pub fn percent_decode(s: &str) -> (r: String)
    ensures
        r@ == percent_decoded(s@),
{
    let bytes = s.as_bytes();
    let mut out: Vec<u8> = Vec::new();
    let mut i: usize = 0;
    let ghost all = unescaped(bytes@);
    proof {
        assert(bytes@.skip(0) =~= bytes@);
        assert(out@ + all =~= all);
    }
    while i < bytes.len()
        invariant
            i <= bytes.len(),
            out@ + unescaped(bytes@.skip(i as int)) == all,
        decreases bytes.len() - i,
    {
        let ghost rest = bytes@.skip(i as int);
        let mut step: usize = 1;
        let mut b: u8 = bytes[i];
        if b == 0x25 && bytes.len() - i > 2 {
            if let (Some(h), Some(l)) = (hex_val(bytes[i + 1]), hex_val(bytes[i + 2])) {
                b = h * 16 + l;
                step = 3;
            }
        }
        let ghost before = out@;
        out.push(b);
        proof {
            assert(rest[0] == bytes@[i as int]);
            assert(rest.len() > 2 ==> rest[1] == bytes@[i + 1] && rest[2] == bytes@[i + 2]);
            assert(rest.skip(step as int) =~= bytes@.skip(i + step));
            assert(unescaped(rest) == seq![b] + unescaped(rest.skip(step as int)));
            assert(before + (seq![b] + unescaped(rest.skip(step as int))) =~= before.push(b)
                + unescaped(rest.skip(step as int)));
        }
        i = i + step;
    }
    proof {
        assert(bytes@.skip(i as int) =~= Seq::empty());
        assert(out@ + Seq::<u8>::empty() =~= out@);
    }
    from_utf8_lossy(&out)
}

/// Whether `b` is in the unreserved set: a letter, a digit, or one of `-._~`.
pub open spec fn unreserved(b: u8) -> bool {
    ||| 0x30 <= b <= 0x39
    ||| 0x41 <= b <= 0x5a
    ||| 0x61 <= b <= 0x7a
    ||| b == 0x2d
    ||| b == 0x2e
    ||| b == 0x5f
    ||| b == 0x7e
}

/// How one byte is written: itself where it is unreserved, else `%XX`.
pub open spec fn escape_byte(b: u8) -> Seq<char> {
    if unreserved(b) {
        seq![b as char]
    } else {
        seq!['%', upper_digit(b / 16) as char, upper_digit(b % 16) as char]
    }
}

/// `bytes` with every byte outside the unreserved set written as an escape.
pub open spec fn escaped(bytes: Seq<u8>) -> Seq<char>
    decreases bytes.len(),
{
    if bytes.len() == 0 {
        Seq::empty()
    } else {
        escaped(bytes.drop_last()) + escape_byte(bytes.last())
    }
}

/// Percent-encode `s` with a strict unreserved set, so that no separator,
/// control character or non-ASCII byte is left in it.
pub fn percent_encode_strict(s: &str) -> (r: String)
    ensures
        r@ == escaped(encode_utf8(s@)),
{
    let bytes = s.as_bytes();
    let mut out = String::new();
    let mut i: usize = 0;
    while i < bytes.len()
        invariant
            i <= bytes.len(),
            out@ == escaped(bytes@.take(i as int)),
        decreases bytes.len() - i,
    {
        let b: u8 = bytes[i];
        let ghost before = out@;
        if (0x30 <= b && b <= 0x39) || (0x41 <= b && b <= 0x5a) || (0x61 <= b && b <= 0x7a) || b
            == 0x2d || b == 0x2e || b == 0x5f || b == 0x7e {
            out.push(b as char);
        } else {
            out.push('%');
            out.push(to_upper_digit(b / 16) as char);
            out.push(to_upper_digit(b % 16) as char);
        }
        proof {
            assert(bytes@.take(i + 1).drop_last() =~= bytes@.take(i as int));
            assert(out@ =~= before + escape_byte(b));
        }
        i = i + 1;
    }
    proof {
        assert(bytes@.take(bytes@.len() as int) =~= bytes@);
    }
    out
}

/// Scanning chunk by chunk is scanning the whole: the state carries over, and a
/// marker found in the second chunk is the one found in the joined bytes, its
/// offset counted from the second chunk's start.
pub proof fn scanning_in_chunks(st: ScanState, a: Seq<u8>, b: Seq<u8>)
    ensures
        scan_state(st, a + b) == scan_state(scan_state(st, a), b),
        scan_hits(st, a + b) == scan_hits(st, a) + scan_hits(scan_state(st, a), b).map_values(
            |h: (int, MarkerView)| (h.0 + a.len(), h.1),
        ),
    decreases b.len(),
{
    let mid = scan_state(st, a);
    let shift = |h: (int, MarkerView)| (h.0 + a.len(), h.1);
    if b.len() == 0 {
        assert(a + b =~= a);
        assert(scan_hits(st, a) + scan_hits(mid, b).map_values(shift) =~= scan_hits(st, a));
    } else {
        let c = b.drop_last();
        assert((a + b).drop_last() =~= a + c);
        assert((a + b).last() == b.last());
        scanning_in_chunks(st, a, c);
        let before = scan_hits(mid, c);
        match marker_at(scan_state(mid, c), b.last()) {
            Some(m) => {
                assert(before.push((b.len() as int, m)).map_values(shift) =~= before.map_values(
                    shift,
                ).push(((a + b).len() as int, m)));
                assert((scan_hits(st, a) + before.map_values(shift)).push(
                    ((a + b).len() as int, m),
                ) =~= scan_hits(st, a) + before.map_values(shift).push(((a + b).len() as int, m)));
            },
            None => {},
        }
    }
}

/// Every offset that a scan reports lies within the chunk, past at least one of
/// its bytes, and the offsets strictly increase.
pub proof fn hit_offsets_increase(st: ScanState, bytes: Seq<u8>)
    ensures
        forall|i: int|
            0 <= i < scan_hits(st, bytes).len() ==> 1 <= (#[trigger] scan_hits(st, bytes)[i]).0
                <= bytes.len(),
        forall|i: int, j: int|
            0 <= i < j < scan_hits(st, bytes).len() ==> (#[trigger] scan_hits(st, bytes)[i]).0 < (
            #[trigger] scan_hits(st, bytes)[j]).0,
    decreases bytes.len(),
{
    if bytes.len() > 0 {
        hit_offsets_increase(st, bytes.drop_last());
        let before = scan_hits(st, bytes.drop_last());
        let all = scan_hits(st, bytes);
        assert(forall|i: int| 0 <= i < before.len() ==> all[i] == #[trigger] before[i]);
        assert forall|i: int| 0 <= i < all.len() implies 1 <= (#[trigger] all[i]).0 <= bytes.len() by {
            if i < before.len() {
                assert(all[i] == before[i]);
            }
        }
        assert forall|i: int, j: int| 0 <= i < j < all.len() implies (#[trigger] all[i]).0 < (
        #[trigger] all[j]).0 by {
            assert(all[i] == before[i]);
            if j < before.len() {
                assert(all[j] == before[j]);
            }
        }
    }
}

/// One more byte.
proof fn scan_one_more(st: ScanState, s: Seq<u8>, b: u8)
    ensures
        scan_state(st, s.push(b)) == scan_step(scan_state(st, s), b),
        scan_hits(st, s.push(b)) == match marker_at(scan_state(st, s), b) {
            Some(m) => scan_hits(st, s).push(((s.len() + 1) as int, m)),
            None => scan_hits(st, s),
        },
{
    assert(s.push(b).drop_last() =~= s);
}

/// Text without an escape byte never moves a resting scanner, and holds no
/// marker.
pub proof fn plain_text_has_no_marker(bytes: Seq<u8>)
    requires
        forall|i: int| 0 <= i < bytes.len() ==> #[trigger] bytes[i] != 0x1b,
    ensures
        scan_state(ScanState::Ground, bytes) == ScanState::Ground,
        scan_hits(ScanState::Ground, bytes).len() == 0,
    decreases bytes.len(),
{
    if bytes.len() > 0 {
        let c = bytes.drop_last();
        assert forall|i: int| 0 <= i < c.len() implies #[trigger] c[i] != 0x1b by {
            assert(c[i] == bytes[i]);
        }
        plain_text_has_no_marker(c);
        assert(bytes.last() == bytes[bytes.len() - 1]);
    }
}

/// A payload free of terminators and within its limit, framed by `ESC ]` and
/// either terminator, is completed as that payload exactly.
pub proof fn framed_payload_is_found(st: ScanState, payload: Seq<u8>, bel: bool)
    requires
        st == ScanState::Ground || st == ScanState::Esc,
        forall|i: int| 0 <= i < payload.len() ==> #[trigger] payload[i] != 0x07 && payload[i] != 0x1b,
        payload.len() <= MAX_OSC || (payload.len() <= MAX_COMPLETION_OSC && after_prefix(
            payload,
            response_prefix(),
        ).is_some()),
    ensures
        ({
            let end = if bel {
                seq![0x07u8]
            } else {
                seq![0x1bu8, 0x5c]
            };
            let bytes = seq![0x1bu8, 0x5d] + payload + end;
            &&& scan_state(st, bytes) == ScanState::Ground
            &&& scan_hits(st, bytes) == match marker_of(payload) {
                Some(m) => seq![(bytes.len() as int, m)],
                None => Seq::empty(),
            }
        }),
{
    let open = seq![0x1bu8, 0x5d];
    let none = Seq::<u8>::empty();
    scan_one_more(st, none, 0x1b);
    scan_one_more(st, none.push(0x1b), 0x5d);
    assert(none.push(0x1b).push(0x5d) =~= open);
    let inside = ScanState::Osc(none);
    assert(scan_state(st, open) == inside);
    assert(scan_hits(st, open) =~= Seq::empty());
    payload_is_buffered(payload, payload.len() as int);
    assert(payload.take(payload.len() as int) =~= payload);
    scanning_in_chunks(st, open, payload);
    let shift = |h: (int, MarkerView)| (h.0 + open.len(), h.1);
    assert(scan_hits(inside, payload).map_values(shift) =~= Seq::empty());
    let head = open + payload;
    assert(scan_state(st, head) == ScanState::Osc(payload));
    assert(scan_hits(st, head) =~= Seq::empty());
    if bel {
        scan_one_more(st, head, 0x07);
        let bytes = head + seq![0x07u8];
        assert(bytes =~= head.push(0x07));
        assert(marker_at(ScanState::Osc(payload), 0x07) == marker_of(payload));
        framed_result(scan_hits(st, bytes), marker_of(payload), bytes.len() as int);
    } else {
        let one = head.push(0x1b);
        scan_one_more(st, head, 0x1b);
        scan_one_more(st, one, 0x5c);
        let bytes = head + seq![0x1bu8, 0x5c];
        assert(bytes =~= one.push(0x5c));
        assert(scan_state(st, one) == ScanState::OscEsc(payload));
        assert(marker_at(ScanState::OscEsc(payload), 0x5c) == marker_of(payload));
        framed_result(scan_hits(st, bytes), marker_of(payload), bytes.len() as int);
    }
}

proof fn framed_result(hits: Seq<(int, MarkerView)>, m: Option<MarkerView>, n: int)
    requires
        hits == match m {
            Some(m) => Seq::<(int, MarkerView)>::empty().push((n, m)),
            None => Seq::empty(),
        },
    ensures
        hits == match m {
            Some(m) => seq![(n, m)],
            None => Seq::empty(),
        },
{
}

proof fn payload_is_buffered(payload: Seq<u8>, n: int)
    requires
        0 <= n <= payload.len(),
        forall|i: int| 0 <= i < payload.len() ==> #[trigger] payload[i] != 0x07 && payload[i] != 0x1b,
        payload.len() <= MAX_OSC || (payload.len() <= MAX_COMPLETION_OSC && after_prefix(
            payload,
            response_prefix(),
        ).is_some()),
    ensures
        scan_state(ScanState::Osc(Seq::empty()), payload.take(n)) == ScanState::Osc(payload.take(n)),
        scan_hits(ScanState::Osc(Seq::empty()), payload.take(n)) =~= Seq::empty(),
    decreases n,
{
    if n == 0 {
        assert(payload.take(0) =~= Seq::empty());
    } else {
        payload_is_buffered(payload, n - 1);
        let t = payload.take(n);
        assert(t.drop_last() =~= payload.take(n - 1));
        assert(t.last() == payload[n - 1]);
        assert(payload.take(n - 1).push(payload[n - 1]) =~= t);
        if n > MAX_OSC {
            let k = response_prefix().len() as int;
            assert(t.take(k) =~= payload.take(k));
        }
    }
}

/// The bytes of `escape_byte`, which are ASCII.
proof fn escape_byte_reads_back(b: u8, rest: Seq<u8>)
    ensures
        unescaped(escape_byte(b).map_values(|c: char| c as u8) + rest) == seq![b] + unescaped(rest),
        is_ascii_chars(escape_byte(b)),
{
    let e = escape_byte(b).map_values(|c: char| c as u8);
    let all = e + rest;
    if unreserved(b) {
        assert(e =~= seq![b]);
        assert(all.skip(1) =~= rest);
    } else {
        let h = upper_digit(b / 16);
        let l = upper_digit(b % 16);
        assert(hex_digit(h) == Some((b / 16) as u8));
        assert(hex_digit(l) == Some((b % 16) as u8));
        assert(h < 0x80 && l < 0x80);
        assert(e =~= seq![0x25u8, h, l]);
        assert(all[1] == h && all[2] == l);
        assert(all.skip(3) =~= rest);
        assert(b / 16 * 16 + b % 16 == b);
    }
}

proof fn escaped_from_front(bytes: Seq<u8>)
    requires
        bytes.len() > 0,
    ensures
        escaped(bytes) == escape_byte(bytes[0]) + escaped(bytes.skip(1)),
    decreases bytes.len(),
{
    if bytes.len() == 1 {
        assert(bytes.drop_last() =~= Seq::empty());
        assert(bytes.skip(1) =~= Seq::empty());
        assert(escaped(bytes) =~= escape_byte(bytes[0]) + escaped(bytes.skip(1)));
    } else {
        escaped_from_front(bytes.drop_last());
        assert(bytes.drop_last().skip(1) =~= bytes.skip(1).drop_last());
        assert(escaped(bytes) =~= escape_byte(bytes[0]) + escaped(bytes.skip(1)));
    }
}

/// Unescaping what was escaped gives the bytes back.
pub proof fn unescape_undoes_escape(bytes: Seq<u8>)
    ensures
        is_ascii_chars(escaped(bytes)),
        unescaped(encode_utf8(escaped(bytes))) == bytes,
    decreases bytes.len(),
{
    let f = |c: char| c as u8;
    let e = escaped(bytes);
    if bytes.len() == 0 {
        assert(encode_utf8(e) =~= Seq::empty());
        assert(bytes =~= Seq::empty());
    } else {
        let t = bytes.skip(1);
        unescape_undoes_escape(t);
        escaped_from_front(bytes);
        escape_byte_reads_back(bytes[0], encode_utf8(escaped(t)));
        assert(is_ascii_chars(e));
        is_ascii_chars_encode_utf8(e);
        is_ascii_chars_encode_utf8(escaped(t));
        assert(encode_utf8(e) =~= escape_byte(bytes[0]).map_values(f) + encode_utf8(escaped(t)));
        assert(seq![bytes[0]] + t =~= bytes);
    }
}

/// Decoding what was percent-encoded gives the text back.
pub proof fn percent_coding_round_trips(s: Seq<char>)
    ensures
        percent_decoded(escaped(encode_utf8(s))) == s,
{
    unescape_undoes_escape(encode_utf8(s));
    encode_utf8_valid_utf8(s);
    encode_utf8_decode_utf8(s);
}

/// Whether `c` may stand in percent-encoded text.
pub open spec fn encoded_char(c: char) -> bool {
    c == '%' || ((c as u32) < 0x80 && unreserved(c as u8))
}

/// Percent-encoded text holds unreserved characters, `%` and nothing else: no
/// separator, terminator, control character or non-ASCII character.
pub proof fn encoded_text_is_unreserved(bytes: Seq<u8>)
    ensures
        forall|i: int| 0 <= i < escaped(bytes).len() ==> encoded_char(#[trigger] escaped(bytes)[i]),
    decreases bytes.len(),
{
    if bytes.len() > 0 {
        encoded_text_is_unreserved(bytes.drop_last());
        let head = escaped(bytes.drop_last());
        let b = bytes.last();
        let e = escape_byte(b);
        assert(forall|i: int| 0 <= i < e.len() ==> encoded_char(#[trigger] e[i]));
        assert forall|i: int| 0 <= i < escaped(bytes).len() implies encoded_char(
            #[trigger] escaped(bytes)[i],
        ) by {
            if i < head.len() {
                assert(escaped(bytes)[i] == head[i]);
            } else {
                assert(escaped(bytes)[i] == e[i - head.len()]);
            }
        }
    }
}

proof fn fields_of(k: u8, tail: Seq<u8>)
    requires
        k != 0x3b,
        tail.len() == 0 || tail[0] == 0x3b,
    ensures
        ({
            let fields = split_on(byte_chars(seq![k] + tail), ';');
            &&& fields[0] == seq![k as char]
            &&& tail.len() == 0 ==> fields.len() == 1
            &&& tail.len() > 0 ==> fields == seq![seq![k as char]] + split_on(byte_chars(tail.skip(1)), ';')
        }),
{
    let a = seq![k as char];
    let s = byte_chars(seq![k] + tail);
    assert(!a.contains(';'));
    if tail.len() == 0 {
        assert(s =~= a);
        split_at_the_first_separator(a, Seq::empty(), ';');
    } else {
        assert(s =~= a + seq![';'] + byte_chars(tail.skip(1)));
        split_at_the_first_separator(a, byte_chars(tail.skip(1)), ';');
    }
}

/// The letter behind `133;` names the marker, whatever fields follow it; another letter
/// is no marker.
pub proof fn prompt_markers_are_read(k: u8, tail: Seq<u8>)
    requires
        k != 0x3b,
        tail.len() == 0 || tail[0] == 0x3b,
    ensures
        ({
            let m = marker_of(seq![0x31u8, 0x33, 0x33, 0x3b, k] + tail);
            &&& k as char == 'A' ==> m == Some(MarkerView::Semantic(SemanticKind::PromptStart))
            &&& k as char == 'B' ==> m == Some(MarkerView::Semantic(SemanticKind::PromptEnd))
            &&& k as char == 'C' ==> m == Some(MarkerView::Semantic(SemanticKind::OutputStart))
            &&& k as char == 'D' && tail.len() == 0 ==> m == Some(
                MarkerView::Semantic(SemanticKind::CommandFinished(None)),
            )
            &&& !('A' <= k as char <= 'D') ==> m.is_none()
        }),
{
    let payload = seq![0x31u8, 0x33, 0x33, 0x3b, k] + tail;
    assert(payload.take(4) =~= semantic_prefix());
    assert(payload.skip(4) =~= seq![k] + tail);
    fields_of(k, tail);
    assert(seq![k as char][0] == k as char);
    assert(seq!['A'][0] == 'A' && seq!['B'][0] == 'B' && seq!['C'][0] == 'C' && seq!['D'][0] == 'D');
}

/// The field behind `133;D;` is the exit code, with its sign; a field that is no number
/// leaves the command without one.
pub proof fn exit_codes_are_read(code: Seq<u8>, n: nat)
    requires
        !byte_chars(code).contains(';'),
    ensures
        ({
            let m = marker_of(seq![0x31u8, 0x33, 0x33, 0x3b, 0x44, 0x3b] + code);
            &&& byte_chars(code) == decimal(n) && n <= 0x7fff_ffff ==> m == Some(
                MarkerView::Semantic(SemanticKind::CommandFinished(Some(n as i32))),
            )
            &&& byte_chars(code) == seq!['-'] + decimal(n) && n <= 0x8000_0000 ==> m == Some(
                MarkerView::Semantic(SemanticKind::CommandFinished(Some((-n) as i32))),
            )
            &&& i32_of(byte_chars(code)).is_none() ==> m == Some(
                MarkerView::Semantic(SemanticKind::CommandFinished(None)),
            )
        }),
{
    let tail = seq![0x3bu8] + code;
    let payload = seq![0x31u8, 0x33, 0x33, 0x3b, 0x44, 0x3b] + code;
    assert(payload =~= seq![0x31u8, 0x33, 0x33, 0x3b, 0x44] + tail);
    assert(payload.take(4) =~= semantic_prefix());
    assert(payload.skip(4) =~= seq![0x44u8] + tail);
    fields_of(0x44, tail);
    assert(tail.skip(1) =~= code);
    split_at_the_first_separator(byte_chars(code), Seq::empty(), ';');
    signed_numbers_read_back(n);
    assert(seq!['D'][0] != 'A' && seq!['D'][0] != 'B' && seq!['D'][0] != 'C');
    assert(seq!['A'][0] == 'A' && seq!['B'][0] == 'B' && seq!['C'][0] == 'C');
}

proof fn slash_and_escaped(path: Seq<char>)
    ensures
        percent_decoded(seq!['/'] + escaped(encode_utf8(path))) == seq!['/'] + path,
{
    let e = escaped(encode_utf8(path));
    let s = seq!['/'] + e;
    let f = |c: char| c as u8;
    unescape_undoes_escape(encode_utf8(path));
    assert(is_ascii_chars(s));
    is_ascii_chars_encode_utf8(s);
    is_ascii_chars_encode_utf8(e);
    assert(encode_utf8(s) =~= seq![0x2fu8] + encode_utf8(e));
    assert(encode_utf8(s).skip(1) =~= encode_utf8(e));
    assert(unescaped(encode_utf8(s)) =~= seq![0x2fu8] + encode_utf8(path));
    let t = seq!['/'] + path;
    assert(t.drop_first() =~= path);
    assert(is_ascii_chars(seq!['/']));
    is_ascii_chars_encode_utf8(seq!['/']);
    assert(seq!['/'].drop_first() =~= Seq::empty());
    assert(encode_utf8(seq!['/'].drop_first()) =~= Seq::empty());
    assert(encode_utf8(seq!['/']) =~= vstd::utf8::encode_scalar('/' as u32));
    assert(encode_utf8(seq!['/']) =~= seq![0x2fu8]);
    assert(encode_utf8(t) =~= seq![0x2fu8] + encode_utf8(path));
    encode_utf8_valid_utf8(t);
    encode_utf8_decode_utf8(t);
}

/// A working directory that a shell reports is read back, whatever its path holds and
/// whatever host it names.
pub proof fn working_directories_are_read(host: Seq<char>, path: Seq<char>)
    requires
        !host.contains('/'),
    ensures
        marker_of(
            seq![0x37u8, 0x3b] + encode_utf8(
                "file://"@ + host + (seq!['/'] + escaped(encode_utf8(path))),
            ),
        ) == Some(MarkerView::Cwd(seq!['/'] + path)),
{
    let tail = seq!['/'] + escaped(encode_utf8(path));
    let url = "file://"@ + host + tail;
    let bytes = encode_utf8(url);
    let payload = seq![0x37u8, 0x3b] + bytes;
    reveal_strlit("file://");
    assert(payload[0] == 0x37);
    assert(semantic_prefix()[0] == 0x31);
    if payload.len() >= 4 {
        assert(payload.take(4)[0] == 0x37);
    }
    assert(after_prefix(payload, semantic_prefix()).is_none());
    assert(payload.take(2) =~= cwd_prefix());
    assert(payload.skip(2) =~= bytes);
    encode_utf8_valid_utf8(url);
    encode_utf8_decode_utf8(url);
    let n = "file://"@.len() as int;
    assert(url.take(n) =~= "file://"@);
    let rest = url.skip(n);
    assert(rest =~= host + tail);
    assert(rest[host.len() as int] == '/');
    assert forall|j: int| 0 <= j < host.len() implies rest[j] != '/' by {
        assert(rest[j] == host[j]);
        assert(host.contains(host[j]));
    }
    find_first_is(rest, '/', host.len() as int);
    assert(rest.skip(host.len() as int) =~= tail);
    slash_and_escaped(path);
}

/// A URL of another kind, or one without a path, names no directory.
pub proof fn other_urls_name_no_directory(url: Seq<char>)
    ensures
        !begins_with(url, "file://"@) ==> url_path(url).is_none(),
        begins_with(url, "file://"@) && !url.skip(7).contains('/') ==> url_path(url).is_none(),
{
    reveal_strlit("file://");
    if begins_with(url, "file://"@) && !url.skip(7).contains('/') {
        let rest = url.skip(7);
        assert forall|j: int| 0 <= j < rest.len() implies rest[j] != '/' by {
            assert(rest.contains(rest[j]));
        }
        find_first_is(rest, '/', rest.len() as int);
    }
}

/// What holds no percent sign is decoded as it is.
pub proof fn plain_text_needs_no_decoding(s: Seq<char>)
    requires
        is_ascii_chars(s),
        !s.contains('%'),
    ensures
        percent_decoded(s) == s,
{
    is_ascii_chars_encode_utf8(s);
    let b = encode_utf8(s);
    assert forall|i: int| 0 <= i < b.len() implies #[trigger] b[i] != 0x25 by {
        assert(b[i] == s[i] as u8);
        assert(s.contains(s[i]));
    }
    no_escape_stays(b);
    encode_utf8_valid_utf8(s);
    encode_utf8_decode_utf8(s);
}

proof fn no_escape_stays(b: Seq<u8>)
    requires
        forall|i: int| 0 <= i < b.len() ==> #[trigger] b[i] != 0x25,
    ensures
        unescaped(b) == b,
    decreases b.len(),
{
    if b.len() > 0 {
        let t = b.skip(1);
        assert forall|i: int| 0 <= i < t.len() implies #[trigger] t[i] != 0x25 by {
            assert(t[i] == b[i + 1]);
        }
        no_escape_stays(t);
        assert(seq![b[0]] + t =~= b);
    } else {
        assert(unescaped(b) =~= b);
    }
}

/// A payload is buffered up to four kilobytes, a completion response up to a megabyte;
/// one that grows longer is dropped, and its sequence with it.
pub proof fn long_payloads_are_dropped(buf: Seq<u8>, b: u8)
    requires
        b != 0x07,
        b != 0x1b,
    ensures
        ({
            let next = scan_step(ScanState::Osc(buf), b);
            let all = buf.push(b);
            let response = all.len() >= 9 && all.take(9) == seq![
                '5' as u8, '3' as u8, '7' as u8, '9' as u8, ';' as u8, 'r' as u8, 'e' as u8, 's' as u8, ';' as u8,
            ];
            &&& all.len() <= 4096 ==> next == ScanState::Osc(all)
            &&& all.len() > 4096 && !response ==> next == ScanState::Ground
            &&& all.len() <= 1048576 && response ==> next == ScanState::Osc(all)
            &&& all.len() > 1048576 ==> next == ScanState::Ground
            &&& completed(ScanState::Osc(buf), b).is_none()
        }),
{
    let all = buf.push(b);
    assert(response_prefix() =~= seq![
        '5' as u8, '3' as u8, '7' as u8, '9' as u8, ';' as u8, 'r' as u8, 'e' as u8, 's' as u8, ';' as u8,
    ]);
}

/// An escape inside a sequence ends it: with a backslash behind it the payload is
/// complete, with anything else it is dropped; what follows may begin a new one.
pub proof fn broken_sequences_are_dropped(buf: Seq<u8>, b: u8)
    ensures
        scan_step(ScanState::Osc(buf), 0x1b) == ScanState::OscEsc(buf),
        completed(ScanState::Osc(buf), 0x1b).is_none(),
        b == '\\' as u8 ==> completed(ScanState::OscEsc(buf), b) == Some(buf),
        b != '\\' as u8 ==> completed(ScanState::OscEsc(buf), b).is_none(),
        scan_step(ScanState::OscEsc(buf), b) == scan_step(ScanState::Esc, b),
        completed(ScanState::Ground, b).is_none() && completed(ScanState::Esc, b).is_none(),
{
}

/// Letters, digits and `-._~` are written as they are; every other byte is written as a
/// percent sign and its two digits: separators, white space, control and non-ASCII bytes
/// among them.
pub proof fn only_safe_bytes_are_written_plain(b: u8)
    ensures
        ({
            let c = b as char;
            let plain = 'a' <= c <= 'z' || 'A' <= c <= 'Z' || '0' <= c <= '9' || c == '-' || c == '.' || c == '_'
                || c == '~';
            &&& plain ==> escape_byte(b) == seq![c]
            &&& !plain ==> escape_byte(b).len() == 3 && escape_byte(b)[0] == '%'
            &&& !plain ==> hex_digit(escape_byte(b)[1] as u8) == Some((b / 16) as u8)
            &&& !plain ==> hex_digit(escape_byte(b)[2] as u8) == Some((b % 16) as u8)
        }),
{
}

} // verus!
