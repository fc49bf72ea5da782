//! Text as sequences of characters: conversions between strings and vectors of
//! characters, trimming, and the pieces of `std` that the rest of the crate
//! leans on.

use vstd::prelude::*;
use vstd::utf8::{decode_utf8, encode_utf8, valid_utf8};

verus! {

/// `String::push` appends one character.
pub assume_specification[ String::push ](s: &mut String, c: char)
    ensures
        final(s)@ == old(s)@.push(c),
;

/// `String::pop` removes the last character, if there is one, and returns it.
pub assume_specification[ String::pop ](s: &mut String) -> (c: Option<char>)
    ensures
        old(s)@.len() == 0 ==> c.is_none() && final(s)@ == old(s)@,
        old(s)@.len() > 0 ==> c == Some(old(s)@.last()) && final(s)@ == old(s)@.drop_last(),
;

/// What `format!("{:?}", s)` writes for a string: `s` in double quotes, with the
/// characters that Rust's debug notation escapes written as escapes.
pub uninterp spec fn debug_quoted(s: Seq<char>) -> Seq<char>;

/// Rust's debug notation of a string, as `format!("{:?}", s)` writes it. What
/// the notation is in each case is left to [`debug_quoted`].
#[verifier::external_body]
pub(crate) fn debug_quote(s: &str) -> (q: String)
    ensures
        q@ == debug_quoted(s@),
{
    format!("{:?}", s)
}

/// The characters of `s`, in order.
pub fn chars_of(s: &str) -> (v: Vec<char>)
    ensures
        v@ == s@,
{
    let mut v: Vec<char> = Vec::new();
    for c in it: s.chars()
        invariant
            it.seq() == s@,
            v@ == s@.take(it.index() as int),
    {
        v.push(c);
        proof {
            assert(s@.take(it.index() as int).push(c) =~= s@.take(it.index() + 1));
        }
    }
    proof {
        assert(s@.take(s@.len() as int) =~= s@);
    }
    v
}

/// The string made of the characters `v`.
pub fn string_of(v: &[char]) -> (s: String)
    ensures
        s@ == v@,
{
    let mut s = String::new();
    let mut i: usize = 0;
    while i < v.len()
        invariant
            i <= v.len(),
            s@ == v@.take(i as int),
        decreases v.len() - i,
    {
        s.push(v[i]);
        proof {
            assert(v@.take(i as int).push(v@[i as int]) =~= v@.take(i + 1));
        }
        i = i + 1;
    }
    proof {
        assert(v@.take(v@.len() as int) =~= v@);
    }
    s
}

/// Whether two slices hold the same characters.
pub fn same_chars(a: &[char], b: &[char]) -> (r: bool)
    ensures
        r == (a@ == b@),
{
    if a.len() != b.len() {
        return false;
    }
    let mut i: usize = 0;
    while i < a.len()
        invariant
            i <= a.len(),
            a.len() == b.len(),
            a@.take(i as int) == b@.take(i as int),
        decreases a.len() - i,
    {
        if a[i] != b[i] {
            proof {
                assert(a@[i as int] != b@[i as int]);
            }
            return false;
        }
        proof {
            assert(a@.take(i + 1) =~= a@.take(i as int).push(a@[i as int]));
            assert(b@.take(i + 1) =~= b@.take(i as int).push(b@[i as int]));
        }
        i = i + 1;
    }
    proof {
        assert(a@.take(a@.len() as int) =~= a@);
        assert(b@.take(b@.len() as int) =~= b@);
    }
    true
}

/// The text that `String::from_utf8_lossy` makes of bytes that are not UTF-8.
pub uninterp spec fn lossy_text(bytes: Seq<u8>) -> Seq<char>;

/// `bytes` as text: what they encode where they are UTF-8, and otherwise what
/// std's lossy conversion makes of them.
pub open spec fn decoded_text(bytes: Seq<u8>) -> Seq<char> {
    if valid_utf8(bytes) {
        decode_utf8(bytes)
    } else {
        lossy_text(bytes)
    }
}

/// `String::from_utf8_lossy`: valid UTF-8 decodes to the characters it encodes.
/// Of other bytes only [`lossy_text`] names the result; where the replacement
/// characters fall is left unsaid.
#[verifier::external_body]
pub(crate) fn from_utf8_lossy(bytes: &[u8]) -> (s: String)
    ensures
        s@ == if valid_utf8(bytes@) {
            decode_utf8(bytes@)
        } else {
            lossy_text(bytes@)
        },
{
    String::from_utf8_lossy(bytes).into_owned()
}

/// `str::from_utf8`: succeeds on valid UTF-8 alone, with the characters that the
/// bytes encode.
#[verifier::external_body]
pub(crate) fn from_utf8(bytes: &[u8]) -> (r: Option<String>)
    ensures
        match r {
            Some(s) => valid_utf8(bytes@) && s@ == decode_utf8(bytes@),
            None => !valid_utf8(bytes@),
        },
{
    std::str::from_utf8(bytes).ok().map(str::to_owned)
}

/// The path of `name` below the directory `dir`: the two with a slash between them,
/// unless `dir` ends in one already or is empty.
pub open spec fn below(dir: Seq<char>, name: Seq<char>) -> Seq<char> {
    if dir.len() == 0 || dir.last() == '/' {
        dir + name
    } else {
        dir + "/"@ + name
    }
}

/// The path of `name` below the directory `dir`.
pub fn path_below(dir: &str, name: &str) -> (p: String)
    ensures
        p@ == below(dir@, name@),
{
    let chars = chars_of(dir);
    let mut p = dir.to_owned();
    if chars.len() > 0 && chars[chars.len() - 1] != '/' {
        p.append("/");
    }
    p.append(name);
    p
}

/// The bytes of `s`, which are its UTF-8 encoding.
pub fn bytes_of(s: &str) -> (v: Vec<u8>)
    ensures
        v@ == encode_utf8(s@),
{
    let b = s.as_bytes();
    let mut v: Vec<u8> = Vec::new();
    let mut i: usize = 0;
    while i < b.len()
        invariant
            i <= b.len(),
            v@ == b@.take(i as int),
        decreases b.len() - i,
    {
        v.push(b[i]);
        proof {
            assert(b@.take(i + 1) =~= b@.take(i as int).push(b@[i as int]));
        }
        i = i + 1;
    }
    proof {
        assert(b@.take(b@.len() as int) =~= b@);
    }
    v
}

/// A vector of character vectors, as sequences.
pub open spec fn char_rows(v: Seq<Vec<char>>) -> Seq<Seq<char>> {
    v.map_values(|x: Vec<char>| x@)
}

/// The pieces of `s` between the separators, one more than there are of them.
pub open spec fn split_on(s: Seq<char>, sep: char) -> Seq<Seq<char>>
    decreases s.len(),
{
    if s.len() == 0 {
        seq![Seq::empty()]
    } else {
        let p = split_on(s.drop_last(), sep);
        if s.last() == sep {
            p.push(Seq::empty())
        } else {
            p.update(p.len() - 1, p.last().push(s.last()))
        }
    }
}

/// There is at least one piece.
pub proof fn split_has_a_piece(s: Seq<char>, sep: char)
    ensures
        split_on(s, sep).len() >= 1,
    decreases s.len(),
{
    if s.len() > 0 {
        split_has_a_piece(s.drop_last(), sep);
    }
}

/// Split `s` at every separator.
pub fn split_chars(s: &[char], sep: char) -> (v: Vec<Vec<char>>)
    ensures
        char_rows(v@) == split_on(s@, sep),
        v@.len() >= 1,
{
    let mut v: Vec<Vec<char>> = Vec::new();
    let mut cur: Vec<char> = Vec::new();
    let mut i: usize = 0;
    proof {
        assert(char_rows(v@).push(cur@) =~= split_on(s@.take(0), sep));
    }
    while i < s.len()
        invariant
            i <= s.len(),
            char_rows(v@).push(cur@) == split_on(s@.take(i as int), sep),
        decreases s.len() - i,
    {
        let ghost before = char_rows(v@).push(cur@);
        proof {
            assert(s@.take(i + 1).drop_last() =~= s@.take(i as int));
        }
        if s[i] == sep {
            v.push(cur);
            cur = Vec::new();
            proof {
                assert(char_rows(v@).push(cur@) =~= before.push(Seq::empty()));
            }
        } else {
            cur.push(s[i]);
            proof {
                assert(char_rows(v@).push(cur@) =~= before.update(
                    before.len() - 1,
                    before.last().push(s@[i as int]),
                ));
            }
        }
        i = i + 1;
    }
    let ghost all = char_rows(v@).push(cur@);
    v.push(cur);
    proof {
        assert(s@.take(s@.len() as int) =~= s@);
        assert(char_rows(v@) =~= all);
    }
    v
}

/// The pieces with the separator between them.
pub open spec fn join_on(parts: Seq<Seq<char>>, sep: Seq<char>) -> Seq<char>
    decreases parts.len(),
{
    if parts.len() == 0 {
        Seq::empty()
    } else if parts.len() == 1 {
        parts[0]
    } else {
        join_on(parts.drop_last(), sep) + sep + parts.last()
    }
}

/// Splitting what was joined gives the pieces back, where none of them holds the
/// separator.
pub proof fn split_undoes_join(parts: Seq<Seq<char>>, sep: char)
    requires
        parts.len() >= 1,
        forall|i: int| 0 <= i < parts.len() ==> !(#[trigger] parts[i]).contains(sep),
    ensures
        split_on(join_on(parts, seq![sep]), sep) == parts,
    decreases parts.len(),
{
    if parts.len() == 1 {
        split_of_tail(Seq::empty(), parts[0], sep);
        assert(Seq::<char>::empty() + parts[0] =~= parts[0]);
        assert(split_on(Seq::<char>::empty(), sep) =~= seq![Seq::<char>::empty()]);
        assert(split_on(parts[0], sep) =~= parts);
    } else {
        let head = join_on(parts.drop_last(), seq![sep]);
        assert forall|i: int| 0 <= i < parts.drop_last().len() implies !(#[trigger] parts.drop_last()[i]).contains(sep) by {
            assert(parts.drop_last()[i] == parts[i]);
        }
        split_undoes_join(parts.drop_last(), sep);
        let h = head + seq![sep];
        assert(h.drop_last() =~= head);
        assert(h.last() == sep);
        split_of_tail(h, parts.last(), sep);
        let p = parts.drop_last().push(Seq::<char>::empty());
        assert(split_on(h, sep) == p);
        assert(p.update(p.len() - 1, p.last() + parts.last()) =~= parts);
    }
}

/// Text without a separator only makes the last piece longer.
pub proof fn split_of_tail(head: Seq<char>, tail: Seq<char>, sep: char)
    requires
        !tail.contains(sep),
    ensures
        split_on(head + tail, sep) == split_on(head, sep).update(
            split_on(head, sep).len() - 1,
            split_on(head, sep).last() + tail,
        ),
    decreases tail.len(),
{
    let p = split_on(head, sep);
    split_has_a_piece(head, sep);
    if tail.len() == 0 {
        assert(head + tail =~= head);
        assert(p.last() + tail =~= p.last());
        assert(p.update(p.len() - 1, p.last()) =~= p);
    } else {
        let t = tail.drop_last();
        assert(!t.contains(sep)) by {
            if t.contains(sep) {
                let i = choose|i: int| 0 <= i < t.len() && t[i] == sep;
                assert(tail[i] == sep);
            }
        }
        split_of_tail(head, t, sep);
        assert((head + tail).drop_last() =~= head + t);
        assert((head + tail).last() == tail.last());
        assert(tail.last() != sep) by {
            assert(tail[tail.len() - 1] == tail.last());
        }
        let q = split_on(head + t, sep);
        assert(q.last() == p.last() + t);
        assert((p.last() + t).push(tail.last()) =~= p.last() + tail);
        assert(q.update(q.len() - 1, q.last().push(tail.last())) =~= p.update(
            p.len() - 1,
            p.last() + tail,
        ));
    }
}

/// Where `x` first stands in `s`, or the length of `s` where it does not.
pub open spec fn find_first(s: Seq<char>, x: char) -> int
    decreases s.len(),
{
    if s.len() == 0 {
        0
    } else if s[0] == x {
        0
    } else {
        1 + find_first(s.skip(1), x)
    }
}

/// `find_first` is the first place of `x`, if there is one.
pub proof fn find_first_is(s: Seq<char>, x: char, k: int)
    requires
        0 <= k <= s.len(),
        k < s.len() ==> s[k] == x,
        forall|j: int| 0 <= j < k ==> s[j] != x,
    ensures
        find_first(s, x) == k,
    decreases k,
{
    if k > 0 {
        find_first_is(s.skip(1), x, k - 1);
    }
}

/// Find the first `x` in `s`; the length of `s` where there is none.
pub fn find_char(s: &[char], x: char) -> (k: usize)
    ensures
        k == find_first(s@, x),
        k <= s.len(),
        k < s.len() ==> s@[k as int] == x,
        forall|j: int| 0 <= j < k ==> s@[j] != x,
{
    let mut k: usize = 0;
    while k < s.len() && s[k] != x
        invariant
            k <= s.len(),
            forall|j: int| 0 <= j < k ==> s@[j] != x,
        decreases s.len() - k,
    {
        k = k + 1;
    }
    proof {
        find_first_is(s@, x, k as int);
    }
    k
}

/// The characters from `from` up to `to`.
pub fn sub_chars(s: &[char], from: usize, to: usize) -> (v: Vec<char>)
    requires
        from <= to <= s.len(),
    ensures
        v@ == s@.subrange(from as int, to as int),
{
    let mut v: Vec<char> = Vec::new();
    let mut i: usize = from;
    while i < to
        invariant
            from <= i <= to <= s.len(),
            v@ == s@.subrange(from as int, i as int),
        decreases to - i,
    {
        v.push(s[i]);
        proof {
            assert(s@.subrange(from as int, i + 1) =~= s@.subrange(from as int, i as int).push(s@[i as int]));
        }
        i = i + 1;
    }
    v
}

/// Whether `s` begins with `prefix`.
pub open spec fn begins_with(s: Seq<char>, prefix: Seq<char>) -> bool {
    s.len() >= prefix.len() && s.take(prefix.len() as int) == prefix
}

/// Whether `s` begins with `prefix`.
pub fn has_prefix(s: &[char], prefix: &[char]) -> (b: bool)
    ensures
        b == begins_with(s@, prefix@),
{
    if s.len() < prefix.len() {
        return false;
    }
    let head = sub_chars(s, 0, prefix.len());
    proof {
        assert(s@.subrange(0, prefix@.len() as int) =~= s@.take(prefix@.len() as int));
    }
    same_chars(&head, prefix)
}

/// Whether `c` has Unicode's `White_Space` property.
pub open spec fn is_white(c: char) -> bool {
    let u = c as u32;
    ||| 0x09 <= u <= 0x0d
    ||| u == 0x20
    ||| u == 0x85
    ||| u == 0xa0
    ||| u == 0x1680
    ||| 0x2000 <= u <= 0x200a
    ||| u == 0x2028
    ||| u == 0x2029
    ||| u == 0x202f
    ||| u == 0x205f
    ||| u == 0x3000
}

/// Whether `c` has Unicode's `White_Space` property.
pub fn is_white_space(c: char) -> (b: bool)
    ensures
        b == is_white(c),
{
    let u: u32 = c as u32;
    (0x09 <= u && u <= 0x0d) || u == 0x20 || u == 0x85 || u == 0xa0 || u == 0x1680 || (0x2000 <= u
        && u <= 0x200a) || u == 0x2028 || u == 0x2029 || u == 0x202f || u == 0x205f || u == 0x3000
}

/// Whether `c` is a control character (Unicode's general category `Cc`).
pub open spec fn is_control(c: char) -> bool {
    (c as u32) < 0x20 || 0x7f <= (c as u32) <= 0x9f
}

/// Whether `c` is a control character (Unicode's general category `Cc`).
pub fn is_control_char(c: char) -> (b: bool)
    ensures
        b == is_control(c),
{
    let u: u32 = c as u32;
    u < 0x20 || (0x7f <= u && u <= 0x9f)
}

/// `s` without the white space at its end.
pub open spec fn trimmed_end(s: Seq<char>) -> Seq<char>
    decreases s.len(),
{
    if s.len() > 0 && is_white(s.last()) {
        trimmed_end(s.drop_last())
    } else {
        s
    }
}

/// `s` without the white space at its start.
pub open spec fn trimmed_start(s: Seq<char>) -> Seq<char>
    decreases s.len(),
{
    if s.len() > 0 && is_white(s[0]) {
        trimmed_start(s.skip(1))
    } else {
        s
    }
}

/// `s` without the white space at either end.
pub open spec fn trimmed(s: Seq<char>) -> Seq<char> {
    trimmed_end(trimmed_start(s))
}

/// Drop the white space at the end of `v`.
pub fn trim_end_chars(v: &mut Vec<char>)
    ensures
        final(v)@ == trimmed_end(old(v)@),
{
    while v.len() > 0 && is_white_space(v[v.len() - 1])
        invariant
            trimmed_end(v@) == trimmed_end(old(v)@),
        decreases v.len(),
    {
        let _ = v.pop();
    }
}

/// `s` without the white space at its end.
pub fn trim_end(s: &str) -> (r: String)
    ensures
        r@ == trimmed_end(s@),
{
    let mut v = chars_of(s);
    trim_end_chars(&mut v);
    string_of(&v)
}

/// `s` without the white space at either end.
pub fn trim(s: &str) -> (r: String)
    ensures
        r@ == trimmed(s@),
{
    let v = chars_of(s);
    let mut i: usize = 0;
    proof {
        assert(v@.skip(0) =~= v@);
    }
    while i < v.len() && is_white_space(v[i])
        invariant
            i <= v.len(),
            trimmed_start(v@.skip(i as int)) == trimmed_start(v@),
        decreases v.len() - i,
    {
        proof {
            assert(v@.skip(i as int)[0] == v@[i as int]);
            assert(v@.skip(i as int).skip(1) =~= v@.skip(i + 1));
        }
        i = i + 1;
    }
    let mut rest = sub_chars(&v, i, v.len());
    proof {
        assert(rest@ =~= v@.skip(i as int));
        if i < v.len() {
            assert(v@.skip(i as int)[0] == v@[i as int]);
        }
    }
    trim_end_chars(&mut rest);
    string_of(&rest)
}

/// Trimming the end drops white space alone, and all of it.
pub proof fn trimming_the_end_drops_white_space(s: Seq<char>)
    ensures
        ({
            let t = trimmed_end(s);
            &&& t.len() <= s.len()
            &&& t == s.take(t.len() as int)
            &&& forall|i: int| t.len() <= i < s.len() ==> is_white(#[trigger] s[i])
            &&& t.len() > 0 ==> !is_white(t.last())
        }),
    decreases s.len(),
{
    let t = trimmed_end(s);
    if s.len() > 0 && is_white(s.last()) {
        trimming_the_end_drops_white_space(s.drop_last());
        assert(s.drop_last().take(t.len() as int) =~= s.take(t.len() as int));
        assert forall|i: int| t.len() <= i < s.len() implies is_white(#[trigger] s[i]) by {
            if i < s.len() - 1 {
                assert(s.drop_last()[i] == s[i]);
            }
        }
    } else {
        assert(s.take(s.len() as int) =~= s);
    }
}

/// Trimming the start drops white space alone, and all of it.
pub proof fn trimming_the_start_drops_white_space(s: Seq<char>)
    ensures
        ({
            let t = trimmed_start(s);
            let k = s.len() - t.len();
            &&& k >= 0
            &&& t == s.skip(k)
            &&& forall|i: int| 0 <= i < k ==> is_white(#[trigger] s[i])
            &&& t.len() > 0 ==> !is_white(t[0])
        }),
    decreases s.len(),
{
    let t = trimmed_start(s);
    let k = s.len() - t.len();
    if s.len() > 0 && is_white(s[0]) {
        trimming_the_start_drops_white_space(s.skip(1));
        assert(s.skip(1).skip(k - 1) =~= s.skip(k));
        assert forall|i: int| 0 <= i < k implies is_white(#[trigger] s[i]) by {
            if i > 0 {
                assert(s.skip(1)[i - 1] == s[i]);
            }
        }
    } else {
        assert(s.skip(0) =~= s);
    }
}

/// What trimming leaves is a piece of the text with white space alone around it, and
/// none at its own ends.
pub proof fn trimming_keeps_the_middle(s: Seq<char>) -> (k: int)
    ensures
        0 <= k <= k + trimmed(s).len() <= s.len(),
        trimmed(s) == s.subrange(k, k + trimmed(s).len()),
        forall|i: int| 0 <= i < k ==> is_white(#[trigger] s[i]),
        forall|i: int| k + trimmed(s).len() <= i < s.len() ==> is_white(#[trigger] s[i]),
        trimmed(s).len() > 0 ==> !is_white(trimmed(s)[0]) && !is_white(trimmed(s).last()),
{
    let a = trimmed_start(s);
    let t = trimmed(s);
    let k = s.len() - a.len();
    trimming_the_start_drops_white_space(s);
    trimming_the_end_drops_white_space(a);
    assert(t =~= s.subrange(k, k + t.len()));
    assert forall|i: int| k + t.len() <= i < s.len() implies is_white(#[trigger] s[i]) by {
        assert(a[i - k] == s[i]);
    }
    k
}

/// Of the ASCII characters, the space and those from tab to carriage return are white
/// space; those outside the space to the tilde are control characters.
pub proof fn ascii_white_space(c: char)
    requires
        (c as u32) < 0x80,
    ensures
        is_white(c) <==> (c == ' ' || c == '\t' || c == '\n' || c == '\u{b}' || c == '\u{c}' || c == '\r'),
        is_control(c) <==> !(' ' <= c <= '~'),
{
}

/// The path of a name below a directory is the directory and the name with exactly
/// one slash between them; the directory may bring that slash.
pub proof fn paths_have_one_slash(dir: Seq<char>, name: Seq<char>)
    requires
        dir.len() > 0,
        dir.last() != '/',
    ensures
        below(dir, name).len() == dir.len() + 1 + name.len(),
        below(dir, name).take(dir.len() as int) == dir,
        below(dir, name)[dir.len() as int] == '/',
        below(dir, name).skip(dir.len() as int + 1) == name,
        below(dir.push('/'), name) == below(dir, name),
        below(Seq::empty(), name) == name,
{
    reveal_strlit("/");
    assert("/"@ =~= seq!['/']);
    assert(below(dir, name).take(dir.len() as int) =~= dir);
    assert(below(dir, name).skip(dir.len() as int + 1) =~= name);
    assert(below(dir.push('/'), name) =~= below(dir, name));
    assert(below(Seq::empty(), name) =~= name);
}

/// A text begins with what was put in front, and with nothing that differs from it.
pub proof fn prefixes_are_read_off(prefix: Seq<char>, rest: Seq<char>, s: Seq<char>)
    ensures
        begins_with(prefix + rest, prefix),
        begins_with(s, prefix) ==> s == prefix + s.skip(prefix.len() as int),
{
    assert((prefix + rest).take(prefix.len() as int) =~= prefix);
    if begins_with(s, prefix) {
        assert(s =~= prefix + s.skip(prefix.len() as int));
    }
}

/// Splitting goes on behind a separator as from the start: what comes before it is the
/// first piece, where it holds none itself.
pub proof fn split_at_the_first_separator(a: Seq<char>, rest: Seq<char>, sep: char)
    requires
        !a.contains(sep),
    ensures
        split_on(a, sep) == seq![a],
        split_on(a + seq![sep] + rest, sep) == seq![a] + split_on(rest, sep),
    decreases rest.len(),
{
    let head = a + seq![sep];
    let all = head + rest;
    split_of_tail(Seq::empty(), a, sep);
    assert(Seq::<char>::empty() + a =~= a);
    assert(split_on(Seq::<char>::empty(), sep) =~= seq![Seq::<char>::empty()]);
    assert(split_on(a, sep) =~= seq![a]);
    if rest.len() == 0 {
        assert(all =~= head);
        assert(head.drop_last() =~= a);
        assert(split_on(all, sep) =~= seq![a] + split_on(rest, sep));
    } else {
        let r = rest.drop_last();
        split_at_the_first_separator(a, r, sep);
        split_has_a_piece(r, sep);
        assert(all.drop_last() =~= head + r);
        assert(all.last() == rest.last());
        assert(split_on(all, sep) =~= seq![a] + split_on(rest, sep));
    }
}

} // verus!
