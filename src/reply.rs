//! Reading a reply: gathering the bytes the rotator sends, splitting them into
//! lines, checking the echo and reading the status line.
use vstd::prelude::*;
use vstd::utf8::{decode_utf8, valid_utf8};

use crate::error::Error;

verus! {

/// Position of the first `c` in `s`, or the length of `s` when there is none.
pub open spec fn first_index(s: Seq<char>, c: char) -> nat
    decreases s.len(),
{
    if s.len() == 0 || s[0] == c {
        0
    } else {
        1 + first_index(s.drop_first(), c)
    }
}

/// The ASCII whitespace characters: space, tab, line feed, form feed and
/// carriage return.
pub open spec fn is_blank(c: char) -> bool {
    c == ' ' || c == '\t' || c == '\n' || c == '\x0C' || c == '\r'
}

/// Length of the run of non-blank characters that starts `s`.
pub open spec fn word_len(s: Seq<char>) -> nat
    decreases s.len(),
{
    if s.len() == 0 || is_blank(s[0]) {
        0
    } else {
        1 + word_len(s.drop_first())
    }
}

pub proof fn lemma_first_index_bound(s: Seq<char>, c: char)
    ensures
        first_index(s, c) <= s.len(),
    decreases s.len(),
{
    if s.len() > 0 && s[0] != c {
        lemma_first_index_bound(s.drop_first(), c);
    }
}

/// `first_index` is the position where the first `c` stands.
pub proof fn lemma_first_index_is(s: Seq<char>, c: char, k: int)
    requires
        0 <= k <= s.len(),
        forall|j: int| 0 <= j < k ==> s[j] != c,
        k == s.len() || s[k] == c,
    ensures
        first_index(s, c) == k,
    decreases k,
{
    if k > 0 {
        lemma_first_index_is(s.drop_first(), c, k - 1);
    }
}

pub proof fn lemma_word_len_bound(s: Seq<char>)
    ensures
        word_len(s) <= s.len(),
    decreases s.len(),
{
    if s.len() > 0 && !is_blank(s[0]) {
        lemma_word_len_bound(s.drop_first());
    }
}

/// `word_len` is the position of the first blank.
pub proof fn lemma_word_len_is(s: Seq<char>, k: int)
    requires
        0 <= k <= s.len(),
        forall|j: int| 0 <= j < k ==> !is_blank(s[j]),
        k == s.len() || is_blank(s[k]),
    ensures
        word_len(s) == k,
    decreases k,
{
    if k > 0 {
        lemma_word_len_is(s.drop_first(), k - 1);
    }
}

/// The lines of `s`: the pieces between newline terminators, the last one
/// kept only when it is not empty.
pub open spec fn lines_of(s: Seq<char>) -> Seq<Seq<char>>
    decreases s.len(),
{
    if s.len() == 0 {
        seq![]
    } else {
        let i = first_index(s, '\n');
        if i < s.len() {
            seq![s.take(i as int)] + lines_of(s.skip(i + 1 as int))
        } else {
            seq![s]
        }
    }
}

/// The runs of non-blank characters of `s`, in order.
pub open spec fn words(s: Seq<char>) -> Seq<Seq<char>>
    decreases s.len()
    via words_decreases
{
    if s.len() == 0 {
        seq![]
    } else if is_blank(s[0]) {
        words(s.drop_first())
    } else {
        seq![s.take(word_len(s) as int)] + words(s.skip(word_len(s) as int))
    }
}

#[via_fn]
proof fn words_decreases(s: Seq<char>) {
    lemma_word_len_bound(s);
    if s.len() > 0 && !is_blank(s[0]) {
        assert(word_len(s) >= 1);
    }
}

/// The strings of `v` as character sequences.
pub open spec fn views(v: Seq<String>) -> Seq<Seq<char>> {
    v.map_values(|x: String| x@)
}

/// What a reply says about the request it answers.
pub enum Reply {
    /// `OK`, with the values that followed it.
    Values(Seq<Seq<char>>),
    /// `ERR`, with the message that followed it.
    Refused(Seq<char>),
    /// Anything else.
    Malformed,
}

/// The characters that Rust counts as whitespace: those with the Unicode
/// `White_Space` property.
pub open spec fn is_white(c: char) -> bool {
    let u = c as u32;
    ||| 0x09 <= u <= 0x0D
    ||| u == 0x20
    ||| u == 0x85
    ||| u == 0xA0
    ||| u == 0x1680
    ||| 0x2000 <= u <= 0x200A
    ||| u == 0x2028
    ||| u == 0x2029
    ||| u == 0x202F
    ||| u == 0x205F
    ||| u == 0x3000
}

/// Number of whitespace characters that start `s`.
pub open spec fn leading_white(s: Seq<char>) -> nat
    decreases s.len(),
{
    if s.len() == 0 || !is_white(s[0]) {
        0
    } else {
        1 + leading_white(s.drop_first())
    }
}

/// Number of whitespace characters that end `s`.
pub open spec fn trailing_white(s: Seq<char>) -> nat
    decreases s.len(),
{
    if s.len() == 0 || !is_white(s.last()) {
        0
    } else {
        1 + trailing_white(s.drop_last())
    }
}

/// `s` without its leading and trailing whitespace.
pub open spec fn trimmed(s: Seq<char>) -> Seq<char> {
    let rest = s.skip(leading_white(s) as int);
    rest.take(rest.len() - trailing_white(rest))
}

/// The request as it stands on the wire: trimmed of surrounding whitespace,
/// its newline terminator among it.
pub open spec fn sent_line(request: Seq<char>) -> Seq<char> {
    trimmed(request)
}

/// `leading_white` is the position of the first character that is not
/// whitespace.
pub proof fn lemma_leading_white_is(s: Seq<char>, k: int)
    requires
        0 <= k <= s.len(),
        forall|j: int| 0 <= j < k ==> is_white(s[j]),
        k == s.len() || !is_white(s[k]),
    ensures
        leading_white(s) == k,
    decreases k,
{
    if k > 0 {
        lemma_leading_white_is(s.drop_first(), k - 1);
    }
}

/// `trailing_white` counts the whitespace after the last character that is
/// not whitespace.
pub proof fn lemma_trailing_white_is(s: Seq<char>, k: int)
    requires
        0 <= k <= s.len(),
        forall|j: int| s.len() - k <= j < s.len() ==> is_white(s[j]),
        k == s.len() || !is_white(s[s.len() - k - 1]),
    ensures
        trailing_white(s) == k,
    decreases k,
{
    if k > 0 {
        lemma_trailing_white_is(s.drop_last(), k - 1);
    }
}

/// The status line: a status word, then, after a single space, the payload.
/// `OK` takes the payload's words as values; `ERR` takes the whole payload
/// as its message and needs one.
pub open spec fn status_reply(line: Seq<char>) -> Reply {
    let k = first_index(line, ' ');
    let status = line.take(k as int);
    let payload = line.skip(k + 1 as int);
    if status == "OK"@ {
        Reply::Values(
            if k < line.len() {
                words(payload)
            } else {
                seq![]
            },
        )
    } else if status == "ERR"@ && k < line.len() {
        Reply::Refused(payload)
    } else {
        Reply::Malformed
    }
}

/// A reply to `request`: at least two lines, the first the echo of the
/// request, the second the status line. Later lines are not read.
pub open spec fn interpret(response: Seq<char>, request: Seq<char>) -> Reply {
    let lines = lines_of(response);
    if lines.len() < 2 || lines[0] != sent_line(request) {
        Reply::Malformed
    } else {
        status_reply(lines[1])
    }
}

/// Whether `c` is whitespace, as `char::is_whitespace` has it.
fn white(c: char) -> (r: bool)
    ensures
        r == is_white(c),
{
    let u = c as u32;
    (0x09 <= u && u <= 0x0D) || u == 0x20 || u == 0x85 || u == 0xA0 || u == 0x1680 || (0x2000 <= u
        && u <= 0x200A) || u == 0x2028 || u == 0x2029 || u == 0x202F || u == 0x205F || u == 0x3000
}

/// `s` without its leading and trailing whitespace.
pub fn trim_text(s: &str) -> (r: &str)
    ensures
        r@ == trimmed(s@),
{
    let n = s.unicode_len();
    let mut i: usize = 0;
    while i < n && white(s.get_char(i))
        invariant
            i <= n,
            n == s@.len(),
            forall|j: int| 0 <= j < i ==> is_white(s@[j]),
        decreases n - i,
    {
        i += 1;
    }
    proof {
        lemma_leading_white_is(s@, i as int);
    }
    let ghost rest = s@.skip(i as int);
    let mut e: usize = n;
    while e > i && white(s.get_char(e - 1))
        invariant
            i <= e <= n,
            n == s@.len(),
            rest == s@.skip(i as int),
            forall|j: int| e <= j < n ==> is_white(s@[j]),
        decreases e,
    {
        e -= 1;
    }
    proof {
        lemma_trailing_white_is(rest, n - e);
        assert(rest.take(e - i) =~= s@.subrange(i as int, e as int));
    }
    s.substring_char(i, e)
}

/// Whether `c` is ASCII whitespace.
fn blank(c: char) -> (r: bool)
    ensures
        r == is_blank(c),
{
    c == ' ' || c == '\t' || c == '\n' || c == '\x0C' || c == '\r'
}

/// Position of the first `c` in `s` at or after `from`, or the length of `s`.
fn find_char(s: &str, from: usize, c: char) -> (r: usize)
    requires
        from <= s@.len(),
    ensures
        r == from + first_index(s@.skip(from as int), c),
        r <= s@.len(),
{
    let n = s.unicode_len();
    let mut i = from;
    while i < n && s.get_char(i) != c
        invariant
            from <= i <= n,
            n == s@.len(),
            forall|j: int| from <= j < i ==> s@[j] != c,
        decreases n - i,
    {
        i += 1;
    }
    proof {
        lemma_first_index_is(s@.skip(from as int), c, i - from);
    }
    i
}

/// End of the run of non-blank characters of `s` that starts at `from`.
fn word_end(s: &str, from: usize) -> (r: usize)
    requires
        from <= s@.len(),
    ensures
        r == from + word_len(s@.skip(from as int)),
        r <= s@.len(),
{
    let n = s.unicode_len();
    let mut i = from;
    while i < n && !blank(s.get_char(i))
        invariant
            from <= i <= n,
            n == s@.len(),
            forall|j: int| from <= j < i ==> !is_blank(s@[j]),
        decreases n - i,
    {
        i += 1;
    }
    proof {
        lemma_word_len_is(s@.skip(from as int), i - from);
    }
    i
}

/// Whether two texts hold the same characters.
pub fn same_text(a: &str, b: &str) -> (r: bool)
    ensures
        r == (a@ == b@),
{
    let n = a.unicode_len();
    if n != b.unicode_len() {
        return false;
    }
    let mut i: usize = 0;
    while i < n
        invariant
            i <= n,
            n == a@.len(),
            n == b@.len(),
            forall|j: int| 0 <= j < i ==> a@[j] == b@[j],
        decreases n - i,
    {
        if a.get_char(i) != b.get_char(i) {
            return false;
        }
        i += 1;
    }
    proof {
        assert(a@ =~= b@);
    }
    true
}

/// Splits `s` into its runs of non-blank characters.
pub fn split_words(s: &str) -> (r: Vec<String>)
    ensures
        views(r@) == words(s@),
{
    let n = s.unicode_len();
    let mut out: Vec<String> = Vec::new();
    let mut i: usize = 0;
    proof {
        assert(s@.skip(0) =~= s@);
        assert(views(out@) =~= Seq::<Seq<char>>::empty());
    }
    while i < n
        invariant
            i <= n,
            n == s@.len(),
            words(s@) == views(out@) + words(s@.skip(i as int)),
        decreases n - i,
    {
        let ghost rest = s@.skip(i as int);
        if blank(s.get_char(i)) {
            proof {
                assert(rest.drop_first() =~= s@.skip(i + 1));
            }
            i += 1;
        } else {
            let j = word_end(s, i);
            let ghost before = out@;
            let word = String::from_str(s.substring_char(i, j));
            proof {
                assert(rest.take(j - i) =~= word@);
                assert(rest.skip(j - i) =~= s@.skip(j as int));
                assert(words(rest) == seq![word@] + words(s@.skip(j as int)));
            }
            out.push(word);
            proof {
                assert(views(out@) =~= views(before).push(word@));
            }
            i = j;
        }
    }
    proof {
        assert(s@.skip(n as int) =~= Seq::<char>::empty());
        assert(views(out@) + Seq::<Seq<char>>::empty() =~= views(out@));
    }
    out
}

/// Reads a status line: `OK` followed by values, or `ERR` followed by a message.
pub fn read_status(line: &str) -> (r: Result<Vec<String>, Error>)
    ensures
        match status_reply(line@) {
            Reply::Values(vs) => r matches Ok(v) && views(v@) == vs,
            Reply::Refused(m) => r matches Err(Error::ResponseError(msg)) && msg@ == m,
            Reply::Malformed => r matches Err(Error::InvalidResponse),
        },
{
    let n = line.unicode_len();
    let k = find_char(line, 0, ' ');
    let status = line.substring_char(0, k);
    proof {
        assert(line@.skip(0) =~= line@);
        reveal_strlit("OK");
        reveal_strlit("ERR");
        assert(status@ =~= line@.take(k as int));
    }
    if same_text(status, "OK") {
        if k < n {
            let payload = line.substring_char(k + 1, n);
            proof {
                assert(payload@ =~= line@.skip(k + 1));
            }
            Ok(split_words(payload))
        } else {
            let none: Vec<String> = Vec::new();
            proof {
                assert(views(none@) =~= Seq::<Seq<char>>::empty());
            }
            Ok(none)
        }
    } else if same_text(status, "ERR") && k < n {
        let message = line.substring_char(k + 1, n);
        proof {
            assert(message@ =~= line@.skip(k + 1));
        }
        Err(Error::ResponseError(String::from_str(message)))
    } else {
        Err(Error::InvalidResponse)
    }
}

/// Checks the reply `response` to `request` and returns the values of an
/// `OK`, or the error that the reply amounts to.
pub fn validate_parse(response: &str, request: &str) -> (r: Result<Vec<String>, Error>)
    ensures
        match interpret(response@, request@) {
            Reply::Values(vs) => r matches Ok(v) && views(v@) == vs,
            Reply::Refused(m) => r matches Err(Error::ResponseError(msg)) && msg@ == m,
            Reply::Malformed => r matches Err(Error::InvalidResponse),
        },
{
    let ghost s = response@;
    let n = response.unicode_len();
    let i = find_char(response, 0, '\n');
    proof {
        assert(s.skip(0) =~= s);
        lemma_first_index_bound(s, '\n');
    }
    if i == n || i + 1 == n {
        proof {
            if i + 1 == n {
                assert(s.skip(i + 1) =~= Seq::<char>::empty());
                assert(lines_of(s) == seq![s.take(i as int)] + lines_of(s.skip(i + 1)));
            }
            assert(lines_of(s).len() < 2);
        }
        return Err(Error::InvalidResponse);
    }
    let j = find_char(response, i + 1, '\n');
    proof {
        let rest = s.skip(i + 1);
        let k = first_index(rest, '\n');
        assert(lines_of(s) == seq![s.take(i as int)] + lines_of(rest));
        lemma_first_index_bound(rest, '\n');
        if k < rest.len() {
            assert(lines_of(rest) == seq![rest.take(k as int)] + lines_of(rest.skip(k + 1 as int)));
        } else {
            assert(rest.take(k as int) =~= rest);
        }
        assert(lines_of(s)[0] == s.take(i as int));
        assert(lines_of(s)[1] =~= s.subrange(i + 1, j as int));
    }
    let sent = trim_text(request);
    let echo = response.substring_char(0, i);
    if !same_text(echo, sent) {
        proof {
            assert(echo@ =~= s.take(i as int));
        }
        return Err(Error::InvalidResponse);
    }
    proof {
        assert(echo@ =~= s.take(i as int));
    }
    read_status(response.substring_char(i + 1, j))
}

/// What to do after a read from the port.
#[derive(Debug, Clone, Copy, PartialEq, Eq, Structural)]
pub enum ReadStep {
    /// Text was added: read again.
    Continue,
    /// The port went idle: the reply is complete.
    Complete,
    /// The bytes read were not text: the reply is invalid.
    Invalid,
}

/// Relies on `core::str::from_utf8`: it accepts exactly the well-formed
/// UTF-8 sequences and then yields the text they encode.
#[verifier::external_body]
fn utf8_text(bytes: &[u8]) -> (r: Option<&str>)
    ensures
        r matches Some(t) ==> valid_utf8(bytes@) && t@ == decode_utf8(bytes@),
        r is None ==> !valid_utf8(bytes@),
{
    core::str::from_utf8(bytes).ok()
}

/// Takes in one read of `chunk` from the port: an empty read ends the reply,
/// text is appended to `reply`, and bytes that are not text fail it. Each
/// chunk must be text on its own.
pub fn accept_chunk(reply: &mut String, chunk: &[u8]) -> (r: ReadStep)
    ensures
        chunk@.len() == 0 ==> r == ReadStep::Complete && final(reply)@ == old(reply)@,
        chunk@.len() > 0 && valid_utf8(chunk@) ==> r == ReadStep::Continue && final(reply)@
            == old(reply)@ + decode_utf8(chunk@),
        chunk@.len() > 0 && !valid_utf8(chunk@) ==> r == ReadStep::Invalid && final(reply)@
            == old(reply)@,
{
    if chunk.len() == 0 {
        return ReadStep::Complete;
    }
    match utf8_text(chunk) {
        Some(text) => {
            reply.append(text);
            ReadStep::Continue
        },
        None => ReadStep::Invalid,
    }
}

} // verus!
