//! Text as sequences of characters: searching, building, and measuring it.

use vstd::prelude::*;
use vstd::utf8::{decode_utf8, encode_scalar, encode_utf8, valid_utf8};

verus! {

/// `String::push` appends the character to the end of the string.
pub assume_specification[ String::push ](s: &mut String, c: char)
    ensures
        final(s)@ == old(s)@.push(c),
;

/// `String::push_str` appends the slice to the end of the string.
pub assume_specification[ String::push_str ](s: &mut String, string: &str)
    ensures
        final(s)@ == old(s)@ + string@,
;

/// The text that `String::from_utf8_lossy` reads from bytes.
pub uninterp spec fn decoded_lossily(bytes: Seq<u8>) -> Seq<char>;

/// `String::from_utf8_lossy` decodes the bytes as UTF-8, with a replacement
/// character for each invalid sequence. Claimed: the text depends on the bytes
/// alone, and is their decoding where they are valid UTF-8.
#[verifier::external_body]
pub(crate) fn lossy_text(bytes: &[u8]) -> (text: String)
    ensures
        text@ == decoded_lossily(bytes@),
        valid_utf8(bytes@) ==> text@ == decode_utf8(bytes@),
{
    String::from_utf8_lossy(bytes).into_owned()
}

/// `p` stands in `s` at offset `at`.
pub open spec fn occurs(s: Seq<char>, at: int, p: Seq<char>) -> bool {
    &&& 0 <= at
    &&& at + p.len() <= s.len()
    &&& s.subrange(at, at + p.len()) == p
}

/// The Unicode `White_Space` property.
pub open spec fn whitespace(c: char) -> bool {
    let u = c as u32;
    ||| 0x9 <= u <= 0xd
    ||| u == 0x20
    ||| u == 0x85
    ||| u == 0xa0
    ||| u == 0x1680
    ||| 0x2000 <= u <= 0x200a
    ||| u == 0x2028
    ||| u == 0x2029
    ||| u == 0x202f
    ||| u == 0x205f
    ||| u == 0x3000
}

/// An ASCII letter.
pub open spec fn ascii_letter(c: char) -> bool {
    'a' as u32 <= c as u32 <= 'z' as u32 || 'A' as u32 <= c as u32 <= 'Z' as u32
}

/// A lowercase hex digit.
pub open spec fn hex_lower(c: char) -> bool {
    '0' as u32 <= c as u32 <= '9' as u32 || 'a' as u32 <= c as u32 <= 'f' as u32
}

/// The bytes that the UTF-8 form of `c` takes.
pub open spec fn char_bytes(c: char) -> nat {
    let u = c as u32;
    if u < 0x80 {
        1
    } else if u < 0x800 {
        2
    } else if u < 0x10000 {
        3
    } else {
        4
    }
}

/// The bytes that the UTF-8 form of `s` takes.
pub open spec fn text_bytes(s: Seq<char>) -> nat
    decreases s.len(),
{
    if s.len() == 0 {
        0
    } else {
        text_bytes(s.drop_last()) + char_bytes(s.last())
    }
}

/// Every character takes a byte or more.
pub proof fn lemma_text_bytes_many(s: Seq<char>)
    ensures
        text_bytes(s) >= s.len(),
    decreases s.len(),
{
    if s.len() > 0 {
        lemma_text_bytes_many(s.drop_last());
    }
}

/// Byte lengths add up over concatenation.
pub proof fn lemma_text_bytes_add(a: Seq<char>, b: Seq<char>)
    ensures
        text_bytes(a + b) == text_bytes(a) + text_bytes(b),
    decreases b.len(),
{
    if b.len() == 0 {
        assert(a + b == a);
    } else {
        assert((a + b).drop_last() == a + b.drop_last());
        lemma_text_bytes_add(a, b.drop_last());
    }
}

/// `text_bytes` is the length of the UTF-8 encoding.
pub proof fn lemma_text_bytes_encodes(s: Seq<char>)
    ensures
        encode_utf8(s).len() == text_bytes(s),
    decreases s.len(),
{
    if s.len() > 0 {
        lemma_text_bytes_encodes(s.drop_first());
        let head = seq![s[0]];
        assert(s == head + s.drop_first());
        lemma_text_bytes_add(head, s.drop_first());
        assert(text_bytes(head) == char_bytes(s[0])) by {
            assert(head.drop_last() == Seq::<char>::empty());
            assert(text_bytes(Seq::<char>::empty()) == 0);
        }
        vstd::utf8::char_is_scalar(s[0]);
        assert(encode_scalar(s[0] as u32).len() == char_bytes(s[0]));
    }
}

/// Looking for `p` in a suffix is looking for it further along in the whole.
pub proof fn lemma_occurs_skip(s: Seq<char>, at: int, k: int, p: Seq<char>)
    requires
        0 <= at <= s.len(),
        0 <= k,
    ensures
        occurs(s.skip(at), k, p) == occurs(s, at + k, p),
{
    if at + k + p.len() <= s.len() {
        assert(s.skip(at).subrange(k, k + p.len()) == s.subrange(at + k, at + k + p.len()));
    }
}

/// The characters of `text`.
pub fn chars_of(text: &str) -> (chars: Vec<char>)
    ensures
        chars@ == text@,
{
    let mut chars: Vec<char> = Vec::new();
    for c in it: text.chars()
        invariant
            it.seq() == text@,
            chars@ == text@.take(it.index()),
    {
        chars.push(c);
    }
    chars
}

/// The text of `chars`.
pub fn text_of(chars: &Vec<char>) -> (text: String)
    ensures
        text@ == chars@,
{
    let mut text = String::new();
    for i in 0..chars.len()
        invariant
            text@ == chars@.take(i as int),
    {
        text.push(chars[i]);
    }
    text
}

/// Whether `p` stands in `s` at offset `at`.
pub fn occurs_at(s: &Vec<char>, at: usize, p: &str) -> (found: bool)
    ensures
        found == occurs(s@, at as int, p@),
        found ==> at + p@.len() <= usize::MAX,
{
    if at > s.len() {
        return false;
    }
    let mut end: usize = at;
    for c in it: p.chars()
        invariant
            it.seq() == p@,
            end == at + it.index(),
            at <= end <= s.len(),
            s@.subrange(at as int, end as int) == p@.take(it.index()),
    {
        if end >= s.len() || s[end] != c {
            proof {
                if occurs(s@, at as int, p@) {
                    assert(s@.subrange(at as int, at + p@.len())[it.index()] == c);
                }
            }
            return false;
        }
        end = end + 1;
    }
    assert(p@.take(p@.len() as int) == p@);
    true
}

/// Whether `c` is white space.
pub fn is_whitespace(c: char) -> (yes: bool)
    ensures
        yes == whitespace(c),
{
    let u: u32 = c as u32;
    (0x9 <= u && u <= 0xd) || u == 0x20 || u == 0x85 || u == 0xa0 || u == 0x1680 || (0x2000 <= u
        && u <= 0x200a) || u == 0x2028 || u == 0x2029 || u == 0x202f || u == 0x205f || u == 0x3000
}

/// Whether `c` is an ASCII letter.
pub fn is_ascii_letter(c: char) -> (yes: bool)
    ensures
        yes == ascii_letter(c),
{
    let u: u32 = c as u32;
    ('a' as u32 <= u && u <= 'z' as u32) || ('A' as u32 <= u && u <= 'Z' as u32)
}

/// Whether two texts hold the same characters.
pub fn same_text(a: &str, b: &str) -> (same: bool)
    ensures
        same == (a@ == b@),
{
    let left = chars_of(a);
    assert(a@.subrange(0, a@.len() as int) == a@);
    occurs_at(&left, 0, b) && left.len() == b.unicode_len()
}

/// The lowercase hex digit of `d`.
pub open spec fn hex_digit(d: int) -> char {
    if d < 10 {
        ('0' as u32 + d) as char
    } else {
        ('a' as u32 + d - 10) as char
    }
}

/// The last `width` hex digits of `n`, most significant first.
pub open spec fn hex_digits(n: int, width: nat) -> Seq<char>
    decreases width,
{
    if width == 0 {
        Seq::empty()
    } else {
        hex_digits(n / 16, (width - 1) as nat).push(hex_digit(n % 16))
    }
}

/// Hex renderings are hex digits.
pub proof fn lemma_hex_digits(n: int, width: nat)
    requires
        0 <= n,
    ensures
        hex_digits(n, width).len() == width,
        forall|i: int| 0 <= i < width ==> hex_lower(#[trigger] hex_digits(n, width)[i]),
    decreases width,
{
    if width > 0 {
        lemma_hex_digits(n / 16, (width - 1) as nat);
    }
}

/// The lowercase hex digit of `d`.
pub fn digit(d: u8) -> (c: char)
    requires
        d < 16,
    ensures
        c == hex_digit(d as int),
{
    if d < 10 {
        (48 + d) as char
    } else {
        (87 + d) as char
    }
}

/// The last `width` hex digits of `bits`, most significant first.
pub fn render_hex(bits: u128, width: usize) -> (text: String)
    ensures
        text@ == hex_digits(bits as int, width as nat),
    decreases width,
{
    if width == 0 {
        String::new()
    } else {
        let mut text = render_hex(bits / 16, width - 1);
        text.push(digit((bits % 16) as u8));
        text
    }
}

/// `s` without the `c`s at its end.
pub open spec fn trimmed_end(s: Seq<char>, c: char) -> Seq<char>
    decreases s.len(),
{
    if s.len() > 0 && s.last() == c {
        trimmed_end(s.drop_last(), c)
    } else {
        s
    }
}

/// `text` without the `c`s at its end.
pub fn trim_end(text: &str, c: char) -> (trimmed: String)
    ensures
        trimmed@ == trimmed_end(text@, c),
{
    let mut chars = chars_of(text);
    while chars.len() > 0 && chars[chars.len() - 1] == c
        invariant
            trimmed_end(chars@, c) == trimmed_end(text@, c),
        decreases chars@.len(),
    {
        let last = chars.pop();
    }
    text_of(&chars)
}

/// `a` followed by `b`.
pub fn concat(a: &str, b: &str) -> (text: String)
    ensures
        text@ == a@ + b@,
{
    let mut text = a.to_owned();
    text.push_str(b);
    text
}

/// A Unicode control character.
pub open spec fn control(c: char) -> bool {
    let u = c as u32;
    u < 0x20 || 0x7f <= u < 0xa0
}

/// Whether `c` is a Unicode control character.
pub fn is_control(c: char) -> (yes: bool)
    ensures
        yes == control(c),
{
    let u: u32 = c as u32;
    u < 0x20 || (0x7f <= u && u < 0xa0)
}

/// The texts of a list of strings.
pub open spec fn texts(list: Seq<String>) -> Seq<Seq<char>> {
    Seq::new(list.len(), |i: int| list[i]@)
}

/// Whether `list` holds `text`.
pub fn holds_text(list: &Vec<String>, text: &str) -> (found: bool)
    ensures
        found == texts(list@).contains(text@),
{
    for i in 0..list.len()
        invariant
            forall|k: int| 0 <= k < i ==> #[trigger] texts(list@)[k] != text@,
    {
        if same_text(list[i].as_str(), text) {
            assert(texts(list@)[i as int] == text@);
            return true;
        }
    }
    false
}

/// Whether two lists hold the same texts.
pub fn same_texts(a: &Vec<String>, b: &Vec<String>) -> (same: bool)
    ensures
        same == (texts(a@) == texts(b@)),
{
    if a.len() != b.len() {
        assert(texts(a@).len() != texts(b@).len());
        return false;
    }
    for i in 0..a.len()
        invariant
            a@.len() == b@.len(),
            forall|k: int| 0 <= k < i ==> #[trigger] texts(a@)[k] == texts(b@)[k],
    {
        if !same_text(a[i].as_str(), b[i].as_str()) {
            assert(texts(a@)[i as int] != texts(b@)[i as int]);
            return false;
        }
    }
    assert(texts(a@) =~= texts(b@));
    true
}

/// A copy of a list of strings.
pub fn clone_texts(list: &Vec<String>) -> (copy: Vec<String>)
    ensures
        texts(copy@) == texts(list@),
{
    let mut copy: Vec<String> = Vec::new();
    for i in 0..list.len()
        invariant
            copy@.len() == i,
            forall|k: int| 0 <= k < i ==> #[trigger] copy@[k]@ == list@[k]@,
    {
        copy.push(list[i].clone());
    }
    assert(texts(copy@) =~= texts(list@));
    copy
}

/// An optional string as text.
pub open spec fn text_option(text: Option<String>) -> Option<Seq<char>> {
    match text {
        Some(t) => Some(t@),
        None => None,
    }
}

/// A copy of an optional string.
pub fn clone_option(text: &Option<String>) -> (copy: Option<String>)
    ensures
        text_option(copy) == text_option(*text),
{
    match text {
        Some(t) => Some(t.clone()),
        None => None,
    }
}

/// Whether two optional strings hold the same text.
pub fn same_option_text(a: &Option<String>, b: &Option<String>) -> (same: bool)
    ensures
        same == (text_option(*a) == text_option(*b)),
{
    match (a, b) {
        (Some(x), Some(y)) => same_text(x.as_str(), y.as_str()),
        (None, None) => true,
        _ => false,
    }
}

/// The text of a string as `Debug` writes it.
pub uninterp spec fn debug_text(text: Seq<char>) -> Seq<char>;

/// `str`'s `Debug` writes the text between quotes, with its special characters
/// escaped. Claimed: what is written depends on the text alone.
#[verifier::external_body]
pub(crate) fn debug(text: &str) -> (written: String)
    ensures
        written@ == debug_text(text@),
{
    format!("{text:?}")
}

/// What stands before, between, and after the line feeds of `s`.
pub open spec fn pieces(s: Seq<char>) -> Seq<Seq<char>>
    decreases s.len(),
{
    if s.len() == 0 {
        seq![Seq::empty()]
    } else if s.last() == '\n' {
        pieces(s.drop_last()).push(Seq::empty())
    } else {
        let before = pieces(s.drop_last());
        before.drop_last().push(before.last().push(s.last()))
    }
}

/// A line without the carriage return at its end.
pub open spec fn chopped(line: Seq<char>) -> Seq<char> {
    if line.len() > 0 && line.last() == '\r' {
        line.drop_last()
    } else {
        line
    }
}

/// The lines of `s`: each ends with a line feed, or a carriage return and a
/// line feed, which do not belong to it; the last one's ending is optional.
pub open spec fn text_lines(s: Seq<char>) -> Seq<Seq<char>> {
    let p = pieces(s);
    let full = (p.len() - 1) as nat;
    let ended = Seq::new(full, |i: int| chopped(p[i]));
    if p.last().len() == 0 {
        ended
    } else {
        ended.push(p.last())
    }
}

/// Pieces are never none.
pub proof fn lemma_pieces(s: Seq<char>)
    ensures
        pieces(s).len() > 0,
    decreases s.len(),
{
    if s.len() > 0 {
        lemma_pieces(s.drop_last());
    }
}

/// The lines of `text`.
pub fn lines_of(text: &str) -> (lines: Vec<String>)
    ensures
        texts(lines@) == text_lines(text@),
{
    let mut lines: Vec<String> = Vec::new();
    let mut current: Vec<char> = Vec::new();
    assert(pieces(text@.take(0)) == seq![Seq::<char>::empty()]);
    for c in it: text.chars()
        invariant
            it.seq() == text@,
            pieces(text@.take(it.index())).len() == lines@.len() + 1,
            forall|k: int|
                0 <= k < lines@.len() ==> #[trigger] lines@[k]@ == chopped(
                    pieces(text@.take(it.index()))[k],
                ),
            current@ == pieces(text@.take(it.index())).last(),
    {
        let ghost before = pieces(text@.take(it.index()));
        assert(text@.take(it.index() + 1).drop_last() == text@.take(it.index()));
        if c == '\n' {
            if current.len() > 0 && current[current.len() - 1] == '\r' {
                let last = current.pop();
            }
            assert(current@ == chopped(before.last()));
            lines.push(text_of(&current));
            current = Vec::new();
        } else {
            current.push(c);
        }
    }
    assert(text@.take(text@.len() as int) == text@);
    if current.len() > 0 {
        lines.push(text_of(&current));
    }
    assert(texts(lines@) =~= text_lines(text@));
    lines
}

/// The lines, each followed by `ending`.
pub open spec fn framed(lines: Seq<Seq<char>>, ending: Seq<char>) -> Seq<char>
    decreases lines.len(),
{
    if lines.len() == 0 {
        Seq::empty()
    } else {
        framed(lines.drop_last(), ending) + lines.last() + ending
    }
}

/// Text without a line feed prolongs the last piece.
proof fn lemma_pieces_prolong(s: Seq<char>, x: Seq<char>)
    requires
        !x.contains('\n'),
    ensures
        pieces(s + x) == pieces(s).drop_last().push(pieces(s).last() + x),
    decreases x.len(),
{
    lemma_pieces(s);
    if x.len() == 0 {
        assert(s + x == s);
        assert(pieces(s).last() + x == pieces(s).last());
        assert(pieces(s).drop_last().push(pieces(s).last()) == pieces(s));
    } else {
        let y = x.drop_last();
        assert(x.contains(x.last()));
        assert(!y.contains('\n')) by {
            if y.contains('\n') {
                let k = choose|k: int| 0 <= k < y.len() && y[k] == '\n';
                assert(x[k] == '\n');
            }
        }
        lemma_pieces_prolong(s, y);
        assert((s + x).drop_last() == s + y);
        assert((s + x).last() == x.last());
        assert((pieces(s).last() + y).push(x.last()) == pieces(s).last() + x);
        assert(pieces(s + y).drop_last() == pieces(s).drop_last());
    }
}

/// Lines can be framed and read back: no line holds a line feed, and none that
/// is framed by a bare line feed ends with a carriage return.
pub open spec fn frameable(lines: Seq<Seq<char>>, ending: Seq<char>) -> bool {
    forall|i: int|
        0 <= i < lines.len() ==> !(#[trigger] lines[i]).contains('\n') && (ending == seq!['\n']
            ==> chopped(lines[i]) == lines[i])
}

proof fn lemma_framed_pieces(lines: Seq<Seq<char>>, ending: Seq<char>)
    requires
        ending == seq!['\n'] || ending == seq!['\r', '\n'],
        frameable(lines, ending),
    ensures
        pieces(framed(lines, ending)).len() == lines.len() + 1,
        pieces(framed(lines, ending)).last().len() == 0,
        forall|i: int|
            0 <= i < lines.len() ==> chopped(#[trigger] pieces(framed(lines, ending))[i])
                == lines[i],
    decreases lines.len(),
{
    if lines.len() > 0 {
        let before = lines.drop_last();
        let line = lines.last();
        assert(frameable(before, ending)) by {
            assert forall|i: int| 0 <= i < before.len() implies !(#[trigger] before[i]).contains(
                '\n',
            ) && (ending == seq!['\n'] ==> chopped(before[i]) == before[i]) by {
                assert(before[i] == lines[i]);
            }
        }
        lemma_framed_pieces(before, ending);
        let start = framed(before, ending);
        assert(!lines[lines.len() - 1].contains('\n'));
        let tail = if ending == seq!['\n'] {
            line
        } else {
            line.push('\r')
        };
        assert(!tail.contains('\n')) by {
            if tail.contains('\n') {
                let k = choose|k: int| 0 <= k < tail.len() && tail[k] == '\n';
                assert(k < line.len());
                assert(line[k] == '\n');
            }
        }
        lemma_pieces_prolong(start, tail);
        let whole = framed(lines, ending);
        assert(whole =~= (start + tail).push('\n'));
        assert(whole.drop_last() == start + tail);
        assert(whole.last() == '\n');
        assert(pieces(start).last() + tail == tail);
        assert(ending != seq!['\n'] ==> chopped(tail) == line) by {
            assert(ending != seq!['\n'] ==> tail.drop_last() == line);
        }
        assert forall|i: int| 0 <= i < lines.len() implies chopped(#[trigger] pieces(whole)[i])
            == lines[i] by {
            if i < before.len() {
                assert(pieces(whole)[i] == pieces(start)[i]);
                assert(before[i] == lines[i]);
            }
        }
    }
}

/// Framed lines read back as they were written, whether each is ended by a
/// line feed or by a carriage return and a line feed.
pub proof fn law_framed_lines_read_back(lines: Seq<Seq<char>>, ending: Seq<char>)
    requires
        ending == seq!['\n'] || ending == seq!['\r', '\n'],
        frameable(lines, ending),
    ensures
        text_lines(framed(lines, ending)) == lines,
{
    lemma_framed_pieces(lines, ending);
    assert(text_lines(framed(lines, ending)) =~= lines);
}

/// What `text` lacks to end a line: a line feed, unless it ends with one or is
/// empty.
pub open spec fn lacked_ending(text: Seq<char>) -> Seq<char> {
    if text.len() == 0 || text.last() == '\n' {
        Seq::empty()
    } else {
        seq!['\n']
    }
}

/// What follows a line feed starts a piece of its own.
proof fn lemma_pieces_follow(a: Seq<char>, b: Seq<char>)
    requires
        a.len() == 0 || a.last() == '\n',
    ensures
        pieces(a + b) == pieces(a).drop_last() + pieces(b),
    decreases b.len(),
{
    lemma_pieces(a);
    lemma_pieces(b);
    if b.len() == 0 {
        assert(a + b == a);
        assert(pieces(a).last() == Seq::<char>::empty());
        assert(pieces(a) =~= pieces(a).drop_last() + pieces(b));
    } else {
        let c = b.drop_last();
        lemma_pieces_follow(a, c);
        lemma_pieces(c);
        assert((a + b).drop_last() == a + c);
        assert((a + b).last() == b.last());
        if b.last() == '\n' {
            assert((pieces(a).drop_last() + pieces(c)).push(Seq::empty()) =~= pieces(a).drop_last()
                + pieces(b));
        } else {
            assert((pieces(a).drop_last() + pieces(c)).drop_last().push(
                pieces(c).last().push(b.last()),
            ) =~= pieces(a).drop_last() + pieces(b));
        }
    }
}

/// Lines framed behind a text that was ended first read back behind the lines
/// of the text. Those stay as they are; only a carriage return that ended the
/// text no longer belongs to its last line.
pub proof fn law_framed_lines_extend(text: Seq<char>, lines: Seq<Seq<char>>)
    requires
        frameable(lines, seq!['\n']),
    ensures
        ({
            let had = text_lines(text);
            let has = text_lines(text + lacked_ending(text) + framed(lines, seq!['\n']));
            &&& has.len() == had.len() + lines.len()
            &&& has.skip(had.len() as int) == lines
            &&& forall|i: int|
                0 <= i < had.len() ==> #[trigger] has[i] == had[i] || i == had.len() - 1
                    && lacked_ending(text).len() > 0 && has[i] == chopped(had[i])
        }),
{
    let ended = text + lacked_ending(text);
    let more = framed(lines, seq!['\n']);
    let had = text_lines(text);
    let has = text_lines(ended + more);
    lemma_pieces(text);
    lemma_framed_pieces(lines, seq!['\n']);
    lemma_pieces_follow(ended, more);
    if lacked_ending(text).len() == 0 {
        assert(ended == text);
        assert(pieces(text).last() == Seq::<char>::empty());
    } else {
        assert(ended.drop_last() == text);
        assert(pieces(ended) == pieces(text).push(Seq::empty()));
        assert(pieces(text).last().len() > 0);
    }
    let n = pieces(ended).len() - 1;
    assert(had.len() == n);
    assert forall|i: int| 0 <= i < lines.len() implies has[n + i] == lines[i] by {
        assert(pieces(ended + more)[n + i] == pieces(more)[i]);
    }
    assert(has.skip(n) =~= lines);
    assert forall|i: int| 0 <= i < had.len() implies #[trigger] has[i] == had[i] || i == had.len()
        - 1 && lacked_ending(text).len() > 0 && has[i] == chopped(had[i]) by {
        assert(pieces(ended + more)[i] == pieces(ended)[i]);
        assert(pieces(ended)[i] == pieces(text)[i]);
    }
}

/// The UTF-8 length of the first `count` characters of `text`.
pub fn prefix_bytes(text: &str, count: usize) -> (n: usize)
    requires
        count <= text@.len(),
    ensures
        n == encode_utf8(text@.take(count as int)).len(),
{
    let total: usize = text.as_bytes().len();
    proof {
        lemma_text_bytes_encodes(text@);
        lemma_text_bytes_encodes(text@.take(count as int));
    }
    let mut n: usize = 0;
    let mut seen: usize = 0;
    for c in it: text.chars()
        invariant
            it.seq() == text@,
            count <= text@.len(),
            total == text_bytes(text@),
            seen == if it.index() < count { it.index() } else { count as int },
            n == text_bytes(text@.take(seen as int)),
    {
        if seen < count {
            let u: u32 = c as u32;
            let width: usize = if u < 0x80 {
                1
            } else if u < 0x800 {
                2
            } else if u < 0x10000 {
                3
            } else {
                4
            };
            proof {
                let longer = text@.take(seen + 1);
                assert(longer.drop_last() == text@.take(seen as int));
                assert(text@ == longer + text@.skip(seen + 1));
                lemma_text_bytes_add(longer, text@.skip(seen + 1));
            }
            n = n + width;
            seen = seen + 1;
        }
    }
    n
}

/// What stands in a text at an offset is what the text is made of there.
pub proof fn law_occurs_is_a_split(a: Seq<char>, p: Seq<char>, b: Seq<char>, s: Seq<char>, at: int)
    ensures
        occurs(a + p + b, a.len() as int, p),
        occurs(s, at, p) ==> 0 <= at && at + p.len() <= s.len() && s == s.take(at) + p + s.skip(
            at + p.len(),
        ),
{
    assert((a + p + b).subrange(a.len() as int, (a.len() + p.len()) as int) =~= p);
    if occurs(s, at, p) {
        assert forall|i: int| at <= i < at + p.len() implies s[i] == p[i - at] by {
            assert(s.subrange(at, at + p.len())[i - at] == p[i - at]);
        }
        assert(s =~= s.take(at) + p + s.skip(at + p.len()));
    }
}

/// The character classes: the controls are those below the space, the delete
/// character, and the block behind it; the letters are the fifty-two of ASCII;
/// the hex digits are the ten digits and six lowercase letters.
pub proof fn law_character_classes(c: char)
    ensures
        control(c) <==> {
            ||| c as u32 <= 0x1f
            ||| c as u32 == 0x7f
            ||| 0x80 <= c as u32 <= 0x9f
        },
        ascii_letter(c) <==> 0x41 <= c as u32 <= 0x5a || 0x61 <= c as u32 <= 0x7a,
        hex_lower(c) <==> 0x30 <= c as u32 <= 0x39 || 0x61 <= c as u32 <= 0x66,
        whitespace(c) ==> c as u32 == 0x20 || control(c) || c as u32 >= 0xa0,
        c == ' ' || c == '\t' || c == '\n' || c == '\r' ==> whitespace(c),
        ascii_letter(c) || hex_lower(c) ==> !whitespace(c) && !control(c),
{
}

/// A digit's character tells the digit.
proof fn lemma_hex_digit_tells(d: int, e: int)
    requires
        0 <= d < 16,
        0 <= e < 16,
        hex_digit(d) == hex_digit(e),
    ensures
        d == e,
{
    let c = hex_digit(d) as u32 as int;
    assert(d < 10 ==> c == 48 + d);
    assert(d >= 10 ==> c == 87 + d);
    let k = hex_digit(e) as u32 as int;
    assert(e < 10 ==> k == 48 + e);
    assert(e >= 10 ==> k == 87 + e);
}

/// The digits tell numbers apart: two numbers that `width` digits can hold and
/// that are rendered alike are one. The last digit is the remainder by
/// sixteen, as `0` to `9` and `a` to `f`.
pub proof fn law_hex_digits_tell_numbers_apart(n: int, m: int, width: nat)
    requires
        0 <= n < vstd::arithmetic::power::pow(16, width),
        0 <= m < vstd::arithmetic::power::pow(16, width),
    ensures
        hex_digits(n, width) == hex_digits(m, width) ==> n == m,
        hex_digits(n, width).len() == width,
        width > 0 ==> hex_digits(n, width).last() as u32 == if n % 16 < 10 {
            0x30 + n % 16
        } else {
            0x61 + n % 16 - 10
        },
    decreases width,
{
    lemma_hex_digits(n, width);
    reveal(vstd::arithmetic::power::pow);
    if width > 0 {
        let less = (width - 1) as nat;
        let step = vstd::arithmetic::power::pow(16, less);
        assert(vstd::arithmetic::power::pow(16, width) == 16 * step);
        assert(n / 16 < step && m / 16 < step);
        law_hex_digits_tell_numbers_apart(n / 16, m / 16, less);
        let a = hex_digits(n, width);
        let b = hex_digits(m, width);
        assert(a.drop_last() =~= hex_digits(n / 16, less));
        assert(b.drop_last() =~= hex_digits(m / 16, less));
        assert(a.last() == hex_digit(n % 16));
        assert(b.last() == hex_digit(m % 16));
        if a == b {
            lemma_hex_digit_tells(n % 16, m % 16);
        }
    }
}

/// Trimming takes all of the character at the end and nothing else: what is
/// left does not end in it, and is followed by nothing but it.
pub proof fn law_trimming_takes_the_end_alone(s: Seq<char>, c: char)
    ensures
        trimmed_end(s, c).len() <= s.len(),
        s.take(trimmed_end(s, c).len() as int) == trimmed_end(s, c),
        forall|i: int| trimmed_end(s, c).len() <= i < s.len() ==> #[trigger] s[i] == c,
        trimmed_end(s, c).len() > 0 ==> trimmed_end(s, c).last() != c,
    decreases s.len(),
{
    if s.len() > 0 && s.last() == c {
        let head = s.drop_last();
        law_trimming_takes_the_end_alone(head, c);
        let n = trimmed_end(s, c).len() as int;
        assert(s.take(n) =~= head.take(n));
        assert forall|i: int| n <= i < s.len() implies #[trigger] s[i] == c by {
            if i < head.len() {
                assert(head[i] == c);
            }
        }
    } else {
        assert(s.take(s.len() as int) =~= s);
    }
}

/// Pieces are what stands between line feeds: none holds one, and joined by
/// line feeds they are the text again.
#[verifier::rlimit(40)]
pub proof fn law_pieces_rejoin(s: Seq<char>)
    ensures
        pieces(s).len() > 0,
        forall|i: int| 0 <= i < pieces(s).len() ==> !(#[trigger] pieces(s)[i]).contains('\n'),
        s == framed(pieces(s).drop_last(), seq!['\n']) + pieces(s).last(),
    decreases s.len(),
{
    if s.len() == 0 {
        assert(pieces(s).drop_last() =~= Seq::<Seq<char>>::empty());
        assert(s =~= framed(pieces(s).drop_last(), seq!['\n']) + pieces(s).last());
    } else {
        let head = s.drop_last();
        let before = pieces(head);
        law_pieces_rejoin(head);
        assert(s == head.push(s.last()));
        if s.last() == '\n' {
            assert(pieces(s).drop_last() =~= before);
            assert(framed(before, seq!['\n']) =~= framed(before.drop_last(), seq!['\n'])
                + before.last() + seq!['\n']);
            assert(s =~= framed(before, seq!['\n']) + Seq::<char>::empty());
            assert forall|i: int| 0 <= i < pieces(s).len() implies !(#[trigger] pieces(
                s,
            )[i]).contains('\n') by {
                if i < before.len() {
                    assert(pieces(s)[i] == before[i]);
                }
            }
        } else {
            let last = before.last().push(s.last());
            assert(pieces(s).drop_last() =~= before.drop_last());
            assert(s =~= framed(before.drop_last(), seq!['\n']) + last);
            assert forall|i: int| 0 <= i < pieces(s).len() implies !(#[trigger] pieces(
                s,
            )[i]).contains('\n') by {
                if i < before.len() - 1 {
                    assert(pieces(s)[i] == before[i]);
                } else {
                    assert(!before[before.len() - 1].contains('\n'));
                    if last.contains('\n') {
                        let k = choose|k: int| 0 <= k < last.len() && last[k] == '\n';
                        assert(k < before.last().len());
                        assert(before.last()[k] == '\n');
                    }
                }
            }
        }
    }
}

/// The lines of a text are its pieces: each that a line feed ends loses one
/// carriage return at its end, and what stands behind the last line feed is a
/// line of its own, as it is, where it is anything.
pub proof fn law_lines_are_the_pieces(s: Seq<char>, i: int)
    ensures
        0 <= i < pieces(s).len() - 1 ==> i < text_lines(s).len() && text_lines(s)[i] == if pieces(
            s,
        )[i].len() > 0 && pieces(s)[i].last() == '\r' {
            pieces(s)[i].drop_last()
        } else {
            pieces(s)[i]
        },
        text_lines(s).len() == if pieces(s).last().len() == 0 {
            pieces(s).len() - 1
        } else {
            pieces(s).len() as int
        },
        pieces(s).last().len() > 0 ==> text_lines(s).last() == pieces(s).last(),
{
    lemma_pieces(s);
}

/// A text takes as many bytes as its UTF-8 form, however it is cut.
pub proof fn law_bytes_are_those_of_the_encoding(a: Seq<char>, b: Seq<char>)
    ensures
        text_bytes(a) == encode_utf8(a).len(),
        text_bytes(a + b) == text_bytes(a) + text_bytes(b),
{
    lemma_text_bytes_encodes(a);
    lemma_text_bytes_add(a, b);
}

} // verus!
