//! Small string utilities shared by the library.
use vstd::prelude::*;
use vstd::utf8::*;
use vstd::string::*;

verus! {

/// `String::push`: appends one character.
#[verifier::external_body]
pub(crate) fn push_char(s: &mut String, c: char)
    ensures
        final(s)@ == old(s)@.push(c),
{
    s.push(c);
}

/// The lower-case hexadecimal digit of a number below 16.
pub open spec fn spec_hex_digit(n: u8) -> char {
    if n < 10 {
        ((n + 48) as u8) as char
    } else {
        ((n + 87) as u8) as char
    }
}

/// The lower-case hexadecimal digit of `n`.
fn hex_digit(n: u8) -> (c: char)
    requires
        n < 16,
    ensures
        c == spec_hex_digit(n),
{
    if n < 10 {
        (n + 48) as char
    } else {
        (n + 87) as char
    }
}

/// Lower-case hexadecimal text of a byte sequence: two digits per byte, high nibble first.
pub open spec fn spec_lower_hex(bytes: Seq<u8>) -> Seq<char>
    decreases bytes.len(),
{
    if bytes.len() == 0 {
        Seq::empty()
    } else {
        spec_lower_hex(bytes.drop_last()) + seq![
            spec_hex_digit(bytes.last() / 16),
            spec_hex_digit(bytes.last() % 16),
        ]
    }
}

/// Hexadecimal text has two ASCII digits per byte.
pub proof fn lemma_lower_hex_shape(bytes: Seq<u8>)
    ensures
        spec_lower_hex(bytes).len() == 2 * bytes.len(),
        is_ascii_chars(spec_lower_hex(bytes)),
    decreases bytes.len(),
{
    if bytes.len() > 0 {
        lemma_lower_hex_shape(bytes.drop_last());
        let prev = spec_lower_hex(bytes.drop_last());
        let tail = seq![
            spec_hex_digit(bytes.last() / 16),
            spec_hex_digit(bytes.last() % 16),
        ];
        assert forall|i| 0 <= i < spec_lower_hex(bytes).len() implies '\0' <= #[trigger] spec_lower_hex(
            bytes,
        )[i] <= '\u{7f}' by {
            if i < prev.len() {
                assert(spec_lower_hex(bytes)[i] == prev[i]);
            } else {
                assert(spec_lower_hex(bytes)[i] == tail[i - prev.len()]);
            }
        }
    }
}

/// Lower-case hexadecimal text of `bytes`.
pub fn lower_hex(bytes: &[u8]) -> (res: String)
    ensures
        res@ == spec_lower_hex(bytes@),
{
    let mut res = String::new();
    let mut i: usize = 0;
    while i < bytes.len()
        invariant
            i <= bytes@.len(),
            res@ == spec_lower_hex(bytes@.take(i as int)),
        decreases bytes@.len() - i,
    {
        let b = bytes[i];
        push_char(&mut res, hex_digit(b / 16));
        push_char(&mut res, hex_digit(b % 16));
        proof {
            assert(bytes@.take(i + 1).drop_last() == bytes@.take(i as int));
        }
        i += 1;
    }
    proof {
        assert(bytes@.take(bytes@.len() as int) == bytes@);
    }
    res
}

/// An ASCII text splits into the same two parts whether it is cut by characters or by
/// the bytes of its UTF-8 encoding.
pub proof fn lemma_ascii_split(s: Seq<char>, k: int)
    requires
        is_ascii_chars(s),
        0 <= k <= s.len(),
    ensures
        encode_utf8(s).len() == s.len(),
        is_char_boundary(encode_utf8(s), k),
        decode_utf8(encode_utf8(s).subrange(0, k)) == s.subrange(0, k),
        decode_utf8(encode_utf8(s).subrange(k, s.len() as int)) == s.subrange(k, s.len() as int),
{
    broadcast use group_utf8_lib;

    let b = encode_utf8(s);
    is_ascii_chars_encode_utf8(s);
    if k < s.len() {
        is_char_boundary_iff_not_is_continuation_byte(b, k);
        assert((s[k] as u32) < 128);
        assert(b[k] == s[k] as u8);
        let byte: u8 = b[k];
        assert(!is_continuation_byte(byte)) by (bit_vector)
            requires
                byte < 128,
        ;
    } else {
        is_char_boundary_start_end_of_seq(b);
    }
    let s1 = s.subrange(0, k);
    let s2 = s.subrange(k, s.len() as int);
    assert(is_ascii_chars(s1));
    assert(is_ascii_chars(s2));
    is_ascii_chars_encode_utf8(s1);
    is_ascii_chars_encode_utf8(s2);
    assert(encode_utf8(s1) =~= b.subrange(0, k));
    assert(encode_utf8(s2) =~= b.subrange(k, s.len() as int));
}

/// A path joined with a relative name, as `Path::join` does on Unix: an absolute name
/// replaces the path, and a separator is put between the two unless the path is empty or
/// already ends with one.
pub open spec fn spec_join_path(base: Seq<char>, name: Seq<char>) -> Seq<char> {
    if name.len() > 0 && name[0] == '/' {
        name
    } else if base.len() == 0 || base.last() == '/' {
        base + name
    } else {
        base + seq!['/'] + name
    }
}

/// Joins `name` to the path `base`.
pub fn join_path(base: &str, name: &str) -> (res: String)
    ensures
        res@ == spec_join_path(base@, name@),
{
    let base_len = base.unicode_len();
    let name_len = name.unicode_len();
    if name_len > 0 && name.get_char(0) == '/' {
        return name.to_owned();
    }
    let mut res = base.to_owned();
    if !(base_len == 0 || base.get_char(base_len - 1) == '/') {
        push_char(&mut res, '/');
    }
    res.append(name);
    res
}

/// What a sequence with one more element holds.
pub proof fn lemma_push_contains<A>(s: Seq<A>, x: A, k: A)
    ensures
        s.push(x).contains(k) <==> s.contains(k) || k == x,
{
    if s.push(x).contains(k) {
        let j = choose|j: int| 0 <= j < s.push(x).len() && s.push(x)[j] == k;
        if j < s.len() {
            assert(s[j] == k);
        }
    }
    if s.contains(k) {
        let j = choose|j: int| 0 <= j < s.len() && s[j] == k;
        assert(s.push(x)[j] == k);
    }
    if k == x {
        assert(s.push(x)[s.len() as int] == k);
    }
}

/// `char::is_whitespace`: the Unicode `White_Space` characters.
pub open spec fn is_whitespace(c: char) -> bool {
    c == '\t' || c == '\n' || c == '\u{b}' || c == '\u{c}' || c == '\r' || c == ' ' || c
        == '\u{85}' || c == '\u{a0}' || c == '\u{1680}' || ('\u{2000}' <= c && c <= '\u{200a}')
        || c == '\u{2028}' || c == '\u{2029}' || c == '\u{202f}' || c == '\u{205f}' || c
        == '\u{3000}'
}

/// The text without its leading whitespace.
pub open spec fn trim_start(s: Seq<char>) -> Seq<char>
    decreases s.len(),
{
    if s.len() > 0 && is_whitespace(s[0]) {
        trim_start(s.drop_first())
    } else {
        s
    }
}

/// The text without its trailing whitespace.
pub open spec fn trim_end(s: Seq<char>) -> Seq<char>
    decreases s.len(),
{
    if s.len() > 0 && is_whitespace(s.last()) {
        trim_end(s.drop_last())
    } else {
        s
    }
}

/// The text without its leading and trailing whitespace.
pub open spec fn spec_trim(s: Seq<char>) -> Seq<char> {
    trim_end(trim_start(s))
}

/// `str::trim`: the text without leading and trailing whitespace, whitespace being the
/// characters of the Unicode `White_Space` property.
#[verifier::external_body]
pub(crate) fn trim(s: &str) -> (res: String)
    ensures
        res@ == spec_trim(s@),
{
    s.trim().to_string()
}

/// A line ended by a newline loses a carriage return that stands before the newline.
pub open spec fn strip_cr(line: Seq<char>) -> Seq<char> {
    if line.len() > 0 && line.last() == '\r' {
        line.drop_last()
    } else {
        line
    }
}

/// The lines finished so far, and the line under way, after reading `s`.
pub open spec fn lines_state(s: Seq<char>) -> (Seq<Seq<char>>, Seq<char>)
    decreases s.len(),
{
    if s.len() == 0 {
        (Seq::empty(), Seq::empty())
    } else {
        let (done, cur) = lines_state(s.drop_last());
        if s.last() == '\n' {
            (done.push(strip_cr(cur)), Seq::empty())
        } else {
            (done, cur.push(s.last()))
        }
    }
}

/// The lines of a text, as `BufRead::lines` and `str::lines` give them: split after each
/// newline, without the newline or a carriage return just before it; a last line without a
/// newline counts when it is not empty.
pub open spec fn spec_file_lines(s: Seq<char>) -> Seq<Seq<char>> {
    let (done, cur) = lines_state(s);
    if cur.len() > 0 {
        done.push(cur)
    } else {
        done
    }
}

/// The line without a carriage return at its end.
fn strip_cr_exec(line: String) -> (res: String)
    ensures
        res@ == strip_cr(line@),
{
    let n = line.as_str().unicode_len();
    if n > 0 && line.as_str().get_char(n - 1) == '\r' {
        line.as_str().substring_char(0, n - 1).to_owned()
    } else {
        line
    }
}

/// The lines of a file's content.
pub fn file_to_lines(content: &str) -> (res: Vec<String>)
    ensures
        string_seq_views(res@) == spec_file_lines(content@),
{
    let mut done: Vec<String> = Vec::new();
    let mut cur = String::new();
    for c in it: content.chars()
        invariant
            it.seq() == content@,
            (string_seq_views(done@), cur@) == lines_state(content@.take(it.index() as int)),
    {
        proof {
            assert(content@.take(it.index() + 1).drop_last() == content@.take(it.index() as int));
            assert(content@.take(it.index() + 1).last() == c);
        }
        if c == '\n' {
            let line = strip_cr_exec(cur);
            let ghost before = done@;
            done.push(line);
            proof {
                assert(string_seq_views(done@) == string_seq_views(before).push(line@));
            }
            cur = String::new();
        } else {
            push_char(&mut cur, c);
        }
    }
    proof {
        assert(content@.take(content@.len() as int) == content@);
    }
    if cur.as_str().unicode_len() > 0 {
        let ghost before = done@;
        done.push(cur);
        proof {
            assert(string_seq_views(done@) == string_seq_views(before).push(cur@));
        }
    }
    done
}

/// The texts of a sequence of strings.
pub open spec fn string_seq_views(strings: Seq<String>) -> Seq<Seq<char>> {
    strings.map_values(|s: String| s@)
}

/// The lines of a text, each without leading and trailing whitespace.
pub fn string_content_to_string_vec(content: &str) -> (res: Vec<String>)
    ensures
        string_seq_views(res@) == spec_file_lines(content@).map_values(|l: Seq<char>| spec_trim(l)),
{
    let lines = file_to_lines(content);
    let ghost lv = string_seq_views(lines@);
    let mut res: Vec<String> = Vec::new();
    let mut i: usize = 0;
    while i < lines.len()
        invariant
            lv == string_seq_views(lines@),
            lv == spec_file_lines(content@),
            i <= lines@.len(),
            string_seq_views(res@) == lv.take(i as int).map_values(|l: Seq<char>| spec_trim(l)),
        decreases lines@.len() - i,
    {
        let t = trim(lines[i].as_str());
        let ghost before = res@;
        res.push(t);
        proof {
            assert(string_seq_views(res@) == string_seq_views(before).push(t@));
            assert(lv.take(i + 1).map_values(|l: Seq<char>| spec_trim(l)) == lv.take(
                i as int,
            ).map_values(|l: Seq<char>| spec_trim(l)).push(spec_trim(lv[i as int])));
        }
        i += 1;
    }
    proof {
        assert(lv.take(lines@.len() as int) == lv);
    }
    res
}

/// Reading text without a newline extends the line under way.
pub proof fn lemma_lines_state_append(a: Seq<char>, b: Seq<char>)
    requires
        !b.contains('\n'),
    ensures
        lines_state(a + b) == (lines_state(a).0, lines_state(a).1 + b),
    decreases b.len(),
{
    if b.len() == 0 {
        assert(a + b == a);
        assert(lines_state(a).1 + b == lines_state(a).1);
    } else {
        let bl = b.drop_last();
        assert(!bl.contains('\n')) by {
            if bl.contains('\n') {
                let j = choose|j: int| 0 <= j < bl.len() && bl[j] == '\n';
                assert(b[j] == '\n');
            }
        }
        lemma_lines_state_append(a, bl);
        assert((a + b).drop_last() == a + bl);
        assert((a + b).last() == b.last());
        assert(b.last() != '\n') by {
            assert(b[b.len() - 1] == b.last());
        }
        assert(lines_state(a).1 + bl.push(b.last()) == lines_state(a).1 + b) by {
            assert(bl.push(b.last()) == b);
        }
        assert((lines_state(a).1 + bl).push(b.last()) == lines_state(a).1 + bl.push(b.last()));
    }
}

/// The UTF-8 encoding of two texts one after the other is the two encodings one after the
/// other.
pub proof fn lemma_encode_concat(a: Seq<char>, b: Seq<char>)
    ensures
        encode_utf8(a + b) == encode_utf8(a) + encode_utf8(b),
    decreases a.len(),
{
    if a.len() == 0 {
        assert(a + b == b);
    } else {
        lemma_encode_concat(a.drop_first(), b);
        assert((a + b).drop_first() == a.drop_first() + b);
        assert((a + b)[0] == a[0]);
    }
}

} // verus!
