//! Text helpers of the shell: POSIX quoting of command lines for the
//! agent's terminals, character spans mapped to UTF-8 byte ranges, and the
//! short form of a model name.

use vstd::prelude::*;
use vstd::utf8::*;
use vstd::string::{StringExecFns, StrSliceExecFns, StringSliceAdditionalSpecFns};
use vstd::std_specs::iter::IteratorSpec;
use crate::slash::{first_index, trim_spec};

verus! {

/// Append `c` to `s` (std's `String::push`).
#[verifier::external_body]
pub(crate) fn push_char(s: &mut String, c: char)
    ensures
        final(s)@ == old(s)@.push(c),
{
    s.push(c);
}

/// How one character appears inside single quotes: a single quote closes
/// the quoting, adds an escaped quote and reopens it.
pub open spec fn quote_char(c: char) -> Seq<char> {
    if c == '\'' {
        seq!['\'', '\\', '\'', '\'']
    } else {
        seq![c]
    }
}

pub open spec fn quote_body(s: Seq<char>) -> Seq<char>
    decreases s.len(),
{
    if s.len() == 0 {
        Seq::empty()
    } else {
        quote_body(s.drop_last()) + quote_char(s.last())
    }
}

/// `s` single-quoted so that a POSIX shell reads it as one literal word.
pub open spec fn shell_quoted(s: Seq<char>) -> Seq<char> {
    seq!['\''] + quote_body(s) + seq!['\'']
}

/// POSIX single-quote a token so it reaches the shell as one literal
/// argument, whatever spaces or metacharacters it holds.
pub fn shell_quote(s: &str) -> (r: String)
    ensures
        r@ == shell_quoted(s@),
{
    let ghost v = s@;
    let mut out = String::new();
    push_char(&mut out, '\'');
    let mut it = s.chars();
    let ghost mut i: int = 0;
    assert(v.skip(0) =~= v);
    assert(v.take(0) =~= Seq::<char>::empty());
    loop
        invariant
            0 <= i <= v.len(),
            it.remaining() == v.skip(i),
            out@ == seq!['\''] + quote_body(v.take(i)),
        ensures
            i == v.len(),
            out@ == seq!['\''] + quote_body(v.take(i)),
        decreases v.len() - i,
    {
        match it.next() {
            None => {
                proof {
                    if i < v.len() {
                        assert(v.skip(i).len() > 0);
                    }
                }
                break;
            },
            Some(c) => {
                proof {
                    assert(v.skip(i)[0] == v[i]);
                    assert(v.skip(i).drop_first() =~= v.skip(i + 1));
                    assert(v.take(i + 1).drop_last() =~= v.take(i));
                }
                if c == '\'' {
                    push_char(&mut out, '\'');
                    push_char(&mut out, '\\');
                    push_char(&mut out, '\'');
                    push_char(&mut out, '\'');
                } else {
                    push_char(&mut out, c);
                }
                proof {
                    i = i + 1;
                    assert(out@ =~= seq!['\''] + quote_body(v.take(i)));
                }
            },
        }
    }
    push_char(&mut out, '\'');
    assert(v.take(v.len() as int) =~= v);
    out
}

/// How a POSIX shell reads a word built from single-quoted stretches
/// (taken literally up to the next `'`) and backslash-escaped characters,
/// reading from outside (`quoted` false) or inside a quoted stretch;
/// `None` for an unterminated quote or any other construct.
pub open spec fn shell_read_from(w: Seq<char>, quoted: bool) -> Option<Seq<char>>
    decreases w.len(),
{
    if w.len() == 0 {
        if quoted {
            None
        } else {
            Some(Seq::empty())
        }
    } else if quoted {
        if w[0] == '\'' {
            shell_read_from(w.drop_first(), false)
        } else {
            match shell_read_from(w.drop_first(), true) {
                Some(r) => Some(seq![w[0]] + r),
                None => None,
            }
        }
    } else if w[0] == '\'' {
        shell_read_from(w.drop_first(), true)
    } else if w[0] == '\\' && w.len() >= 2 {
        match shell_read_from(w.skip(2), false) {
            Some(r) => Some(seq![w[1]] + r),
            None => None,
        }
    } else {
        None
    }
}

pub open spec fn shell_read(w: Seq<char>) -> Option<Seq<char>> {
    shell_read_from(w, false)
}

/// Inside quotes, a quote-free stretch is taken literally up to the
/// closing quote.
proof fn lemma_read_quoted(a: Seq<char>, x: Seq<char>)
    requires
        forall|i: int| 0 <= i < a.len() ==> #[trigger] a[i] != '\'',
    ensures
        shell_read_from(a + seq!['\''] + x, true) == (match shell_read_from(x, false) {
            Some(r) => Some(a + r),
            None => None::<Seq<char>>,
        }),
    decreases a.len(),
{
    let w = a + seq!['\''] + x;
    if a.len() == 0 {
        assert(w[0] == '\'');
        assert(w.drop_first() =~= x);
        if let Some(r) = shell_read_from(x, false) {
            assert(a + r =~= r);
        }
    } else {
        assert(w[0] == a[0]);
        assert(w.drop_first() =~= a.drop_first() + seq!['\''] + x);
        assert forall|i: int| 0 <= i < a.drop_first().len() implies #[trigger] a.drop_first()[i] != '\'' by {
            assert(a.drop_first()[i] == a[i + 1]);
        }
        lemma_read_quoted(a.drop_first(), x);
        if let Some(r) = shell_read_from(x, false) {
            assert(seq![a[0]] + (a.drop_first() + r) =~= a + r);
        }
    }
}

proof fn lemma_quote_body_concat(a: Seq<char>, b: Seq<char>)
    ensures
        quote_body(a + b) == quote_body(a) + quote_body(b),
    decreases b.len(),
{
    if b.len() == 0 {
        assert(a + b =~= a);
        assert(quote_body(a) + quote_body(b) =~= quote_body(a));
    } else {
        assert((a + b).drop_last() =~= a + b.drop_last());
        assert((a + b).last() == b.last());
        lemma_quote_body_concat(a, b.drop_last());
        assert(quote_body(a + b) =~= quote_body(a) + quote_body(b));
    }
}

proof fn lemma_quote_body_plain(a: Seq<char>)
    requires
        forall|i: int| 0 <= i < a.len() ==> #[trigger] a[i] != '\'',
    ensures
        quote_body(a) == a,
    decreases a.len(),
{
    if a.len() > 0 {
        assert forall|i: int| 0 <= i < a.drop_last().len() implies #[trigger] a.drop_last()[i] != '\'' by {
            assert(a.drop_last()[i] == a[i]);
        }
        lemma_quote_body_plain(a.drop_last());
        assert(a.drop_last().push(a.last()) =~= a);
    }
}

/// Quoting round-trips: a POSIX shell reads the quoted word back as
/// exactly the token it was given, whatever characters it holds.
pub proof fn lemma_shell_quote_round_trip(s: Seq<char>)
    ensures
        shell_read(shell_quoted(s)) == Some(s),
    decreases s.len(),
{
    match first_index(s, '\'') {
        None => lemma_round_trip_without_quote(s),
        Some(i) => {
            lemma_first_index_some(s, '\'', i);
            lemma_shell_quote_round_trip(s.skip(i + 1));
            lemma_round_trip_at_quote(s, i);
        },
    }
}

/// The round trip for a token holding no single quote.
#[verifier::spinoff_prover]
proof fn lemma_round_trip_without_quote(s: Seq<char>)
    requires
        first_index(s, '\'') is None,
    ensures
        shell_read(shell_quoted(s)) == Some(s),
{
    let w = shell_quoted(s);
    lemma_first_index_none(s, '\'');
    lemma_quote_body_plain(s);
    assert(w =~= seq!['\''] + s + seq!['\'']);
    assert(w.drop_first() =~= s + seq!['\''] + Seq::<char>::empty());
    lemma_read_quoted(s, Seq::<char>::empty());
    assert(s + Seq::<char>::empty() =~= s);
}

/// The round trip for a token whose first single quote is at `i`, given
/// the round trip for what follows that quote.
#[verifier::spinoff_prover]
proof fn lemma_round_trip_at_quote(s: Seq<char>, i: int)
    requires
        first_index(s, '\'') == Some(i),
        shell_read(shell_quoted(s.skip(i + 1))) == Some(s.skip(i + 1)),
    ensures
        shell_read(shell_quoted(s)) == Some(s),
{
    let w = shell_quoted(s);
    lemma_first_index_some(s, '\'', i);
    let a = s.take(i);
    let rest = s.skip(i + 1);
    assert(s =~= a + seq!['\''] + rest);
    lemma_quote_body_concat(a + seq!['\''], rest);
    lemma_quote_body_concat(a, seq!['\'']);
    assert forall|k: int| 0 <= k < a.len() implies #[trigger] a[k] != '\'' by {}
    lemma_quote_body_plain(a);
    assert(quote_body(seq!['\'']) =~= quote_char('\'')) by {
        assert(seq!['\''].drop_last() =~= Seq::<char>::empty());
        assert(quote_body(Seq::<char>::empty()) =~= Seq::<char>::empty());
    }
    let q = shell_quoted(rest);
    let x = seq!['\\', '\''] + q;
    assert(w =~= seq!['\''] + (a + seq!['\''] + x));
    assert(w.drop_first() =~= a + seq!['\''] + x);
    lemma_read_quoted(a, x);
    assert(x.skip(2) =~= q);
    assert(a + (seq!['\''] + rest) =~= s);
}

proof fn lemma_first_index_none(s: Seq<char>, c: char)
    requires
        first_index(s, c) is None,
    ensures
        forall|i: int| 0 <= i < s.len() ==> #[trigger] s[i] != c,
    decreases s.len(),
{
    if s.len() > 0 {
        lemma_first_index_none(s.drop_first(), c);
        assert forall|i: int| 0 <= i < s.len() implies #[trigger] s[i] != c by {
            if i > 0 {
                assert(s[i] == s.drop_first()[i - 1]);
            }
        }
    }
}

proof fn lemma_first_index_some(s: Seq<char>, c: char, i: int)
    requires
        first_index(s, c) == Some(i),
    ensures
        0 <= i < s.len(),
        s[i] == c,
        forall|k: int| 0 <= k < i ==> #[trigger] s[k] != c,
    decreases s.len(),
{
    if s[0] != c {
        lemma_first_index_some(s.drop_first(), c, i - 1);
        assert forall|k: int| 0 <= k < i implies #[trigger] s[k] != c by {
            if k > 0 {
                assert(s[k] == s.drop_first()[k - 1]);
            }
        }
    }
}

/// The quoted arguments, each preceded by a space.
pub open spec fn quoted_args(args: Seq<String>) -> Seq<char>
    decreases args.len(),
{
    if args.len() == 0 {
        Seq::empty()
    } else {
        quoted_args(args.drop_last()) + seq![' '] + shell_quoted(args.last()@)
    }
}

/// The line typed into a fresh terminal to run `command` with `args`
/// verbatim: every word single-quoted, separated by spaces, ended by a
/// carriage return.
pub fn acp_command_line(command: &str, args: &[String]) -> (r: String)
    ensures
        r@ == shell_quoted(command@) + quoted_args(args@) + seq!['\r'],
{
    let mut out = shell_quote(command);
    let ghost head = out@;
    let mut i: usize = 0;
    assert(args@.take(0) =~= Seq::<String>::empty());
    while i < args.len()
        invariant
            i <= args@.len(),
            out@ == head + quoted_args(args@.take(i as int)),
        decreases args@.len() - i,
    {
        push_char(&mut out, ' ');
        let q = shell_quote(args[i].as_str());
        out.append(q.as_str());
        proof {
            assert(args@.take(i + 1).drop_last() =~= args@.take(i as int));
            assert(args@.take(i + 1).last() == args@[i as int]);
        }
        i = i + 1;
        assert(out@ =~= head + quoted_args(args@.take(i as int)));
    }
    push_char(&mut out, '\r');
    assert(args@.take(args@.len() as int) =~= args@);
    out
}

/// Byte offset of character `k` of `s` in its UTF-8 encoding.
pub open spec fn byte_offset(s: Seq<char>, k: int) -> nat {
    encode_utf8(s.take(k)).len()
}

/// The UTF-8 byte range of characters `start_char..end_char` of `s`; an
/// end at or past the last character means the end of the string. `None`
/// for an empty or reversed span, or one starting past the last character.
pub open spec fn char_span_bytes(s: Seq<char>, start_char: nat, end_char: nat) -> Option<(nat, nat)> {
    if end_char <= start_char || start_char >= s.len() {
        None
    } else {
        Some(
            (
                byte_offset(s, start_char as int),
                if end_char < s.len() {
                    byte_offset(s, end_char as int)
                } else {
                    encode_utf8(s).len()
                },
            ),
        )
    }
}

/// The UTF-8 encoding of two strings one after the other is the two
/// encodings one after the other.
pub proof fn lemma_encode_concat(a: Seq<char>, b: Seq<char>)
    ensures
        encode_utf8(a + b) == encode_utf8(a) + encode_utf8(b),
    decreases a.len(),
{
    if a.len() == 0 {
        assert(a + b =~= b);
        assert(encode_utf8(a) =~= Seq::<u8>::empty());
        assert(encode_utf8(a) + encode_utf8(b) =~= encode_utf8(b));
    } else {
        assert((a + b).drop_first() =~= a.drop_first() + b);
        assert((a + b)[0] == a[0]);
        lemma_encode_concat(a.drop_first(), b);
        assert(encode_utf8(a + b) =~= encode_utf8(a) + encode_utf8(b));
    }
}

proof fn lemma_encode_single(c: char)
    ensures
        encode_utf8(seq![c]) == encode_scalar(c as u32),
        1 <= encode_scalar(c as u32).len() <= 4,
{
    assert(seq![c].drop_first() =~= Seq::<char>::empty());
    assert(encode_utf8(Seq::<char>::empty()) =~= Seq::<u8>::empty());
    assert(encode_scalar(c as u32) + Seq::<u8>::empty() =~= encode_scalar(c as u32));
}

proof fn lemma_byte_offset_step(s: Seq<char>, k: int)
    requires
        0 <= k < s.len(),
    ensures
        byte_offset(s, k + 1) == byte_offset(s, k) + encode_scalar(s[k] as u32).len(),
        byte_offset(s, k + 1) <= encode_utf8(s).len(),
{
    assert(s.take(k + 1) =~= s.take(k) + seq![s[k]]);
    lemma_encode_concat(s.take(k), seq![s[k]]);
    lemma_encode_single(s[k]);
    assert(s =~= s.take(k + 1) + s.skip(k + 1));
    lemma_encode_concat(s.take(k + 1), s.skip(k + 1));
}

/// The number of bytes `c` takes in UTF-8.
fn utf8_width(c: char) -> (r: usize)
    ensures
        r == encode_scalar(c as u32).len(),
{
    proof {
        char_is_scalar(c);
    }
    let v: u32 = c as u32;
    if v <= 0x7F {
        1
    } else if v <= 0x7FF {
        2
    } else if v <= 0xFFFF {
        3
    } else {
        4
    }
}

/// Map a character span of `display` to its UTF-8 byte range, or `None`
/// for a span that is empty, reversed or starts past the end.
pub fn char_range_to_byte_range(display: &str, start_char: usize, end_char: usize) -> (r: Option<(usize, usize)>)
    ensures
        match char_span_bytes(display@, start_char as nat, end_char as nat) {
            Some((a, b)) => r == Some((a as usize, b as usize)),
            None => r is None,
        },
{
    if end_char <= start_char {
        return None;
    }
    let ghost v = display@;
    let total = display.as_bytes().len();
    proof {
        assert(v.take(0) =~= Seq::<char>::empty());
        assert(v.skip(0) =~= v);
        assert(encode_utf8(Seq::<char>::empty()) =~= Seq::<u8>::empty());
        assert(v.take(v.len() as int) =~= v);
    }
    let mut start_byte: Option<usize> = None;
    let mut end_byte: Option<usize> = None;
    let mut it = display.chars();
    let mut i: usize = 0;
    let mut b: usize = 0;
    loop
        invariant
            i <= v.len(),
            it.remaining() == v.skip(i as int),
            b == byte_offset(v, i as int),
            i <= b <= total,
            total == encode_utf8(v).len(),
            start_char < end_char,
            start_byte == (if start_char < i { Some(byte_offset(v, start_char as int) as usize) } else { None::<usize> }),
            end_byte == (if end_char < i { Some(byte_offset(v, end_char as int) as usize) } else { None::<usize> }),
        ensures
            i == v.len(),
            start_byte == (if start_char < i { Some(byte_offset(v, start_char as int) as usize) } else { None::<usize> }),
            end_byte == (if end_char < i { Some(byte_offset(v, end_char as int) as usize) } else { None::<usize> }),
        decreases v.len() - i,
    {
        match it.next() {
            None => {
                proof {
                    if i < v.len() {
                        assert(v.skip(i as int).len() > 0);
                    }
                }
                break;
            },
            Some(c) => {
                proof {
                    assert(v.skip(i as int)[0] == v[i as int]);
                    assert(v.skip(i as int).drop_first() =~= v.skip(i + 1));
                    lemma_byte_offset_step(v, i as int);
                }
                if i == start_char {
                    start_byte = Some(b);
                }
                if i == end_char {
                    end_byte = Some(b);
                }
                let w = utf8_width(c);
                b = b + w;
                i = i + 1;
            },
        }
    }
    let start = match start_byte {
        Some(x) => x,
        None => {
            return None;
        },
    };
    let end = match end_byte {
        Some(x) => x,
        None => total,
    };
    proof {
        if end_char < v.len() {
            lemma_byte_offset_strict(v, start_char as int, end_char as int);
        } else {
            lemma_byte_offset_strict(v, start_char as int, v.len() as int);
        }
    }
    if start >= end {
        None
    } else {
        Some((start, end))
    }
}

/// The byte range of a character span holds exactly the encoding of those
/// characters: slicing there never cuts a character apart.
pub proof fn lemma_char_span_bytes(s: Seq<char>, start_char: nat, end_char: nat)
    requires
        start_char < end_char,
        start_char < s.len(),
    ensures
        ({
            let e = if end_char < s.len() { end_char } else { s.len() };
            char_span_bytes(s, start_char, end_char) matches Some((a, b)) && encode_utf8(s).subrange(
                a as int,
                b as int,
            ) == encode_utf8(s.subrange(start_char as int, e as int))
        }),
{
    let e: nat = if end_char < s.len() { end_char } else { s.len() };
    let pre = s.take(start_char as int);
    let mid = s.subrange(start_char as int, e as int);
    let post = s.skip(e as int);
    assert(s =~= pre + mid + post);
    assert(s.take(e as int) =~= pre + mid);
    lemma_encode_concat(pre, mid);
    lemma_encode_concat(pre + mid, post);
    assert(s.take(s.len() as int) =~= s);
    let ea = encode_utf8(pre);
    let em = encode_utf8(mid);
    assert(encode_utf8(s).subrange(ea.len() as int, (ea.len() + em.len()) as int) =~= em);
}

/// Byte offsets grow strictly with the character index.
proof fn lemma_byte_offset_strict(s: Seq<char>, j: int, k: int)
    requires
        0 <= j < k <= s.len(),
    ensures
        byte_offset(s, j) < byte_offset(s, k),
        byte_offset(s, k) <= encode_utf8(s).len(),
    decreases k - j,
{
    lemma_byte_offset_step(s, k - 1);
    if j < k - 1 {
        lemma_byte_offset_strict(s, j, k - 1);
    }
}

/// A string holds at most as many characters as bytes.
proof fn lemma_chars_le_bytes(s: Seq<char>, k: int)
    requires
        0 <= k <= s.len(),
    ensures
        k <= byte_offset(s, k),
        byte_offset(s, k) <= encode_utf8(s).len(),
    decreases k,
{
    if k == 0 {
        assert(s.take(0) =~= Seq::<char>::empty());
        assert(encode_utf8(Seq::<char>::empty()) =~= Seq::<u8>::empty());
        assert(s =~= s.take(0) + s);
        lemma_encode_concat(s.take(0), s);
    } else {
        lemma_chars_le_bytes(s, k - 1);
        lemma_byte_offset_step(s, k - 1);
    }
}

/// Index of the last `c` in `s`, or -1 when there is none.
pub open spec fn last_index_of(s: Seq<char>, c: char) -> int
    decreases s.len(),
{
    if s.len() == 0 {
        -1
    } else if s.last() == c {
        s.len() - 1
    } else {
        last_index_of(s.drop_last(), c)
    }
}

/// What follows the last `c` in `s`; all of `s` when it holds no `c`.
pub open spec fn after_last(s: Seq<char>, c: char) -> Seq<char> {
    s.subrange(last_index_of(s, c) + 1, s.len() as int)
}

proof fn lemma_last_index_bounds(s: Seq<char>, c: char)
    ensures
        -1 <= last_index_of(s, c) < s.len(),
    decreases s.len(),
{
    if s.len() > 0 && s.last() != c {
        lemma_last_index_bounds(s.drop_last(), c);
    }
}

fn after_last_str<'a>(s: &'a str, c: char) -> (r: &'a str)
    ensures
        r@ == after_last(s@, c),
{
    let ghost v = s@;
    let total = s.as_bytes().len();
    let mut it = s.chars();
    let mut i: usize = 0;
    let mut from: usize = 0;
    proof {
        assert(v.skip(0) =~= v);
        assert(v.take(0) =~= Seq::<char>::empty());
    }
    loop
        invariant
            i <= v.len(),
            it.remaining() == v.skip(i as int),
            total == encode_utf8(v).len(),
            from == last_index_of(v.take(i as int), c) + 1,
        ensures
            i == v.len(),
            from == last_index_of(v.take(i as int), c) + 1,
        decreases v.len() - i,
    {
        match it.next() {
            None => {
                proof {
                    if i < v.len() {
                        assert(v.skip(i as int).len() > 0);
                    }
                }
                break;
            },
            Some(ch) => {
                proof {
                    assert(v.skip(i as int)[0] == v[i as int]);
                    assert(v.skip(i as int).drop_first() =~= v.skip(i + 1));
                    assert(v.take(i + 1).drop_last() =~= v.take(i as int));
                    lemma_chars_le_bytes(v, v.len() as int);
                    assert(v.take(v.len() as int) =~= v);
                }
                i = i + 1;
                if ch == c {
                    from = i;
                }
            },
        }
    }
    proof {
        assert(v.take(v.len() as int) =~= v);
        lemma_last_index_bounds(v, c);
    }
    s.substring_char(from, i)
}

/// A `provider/model:tag` name cut down to its bare model name: what
/// follows the last `/`, then what follows the last `:` of that.
pub fn short_model_name(model: &str) -> (r: &str)
    ensures
        r@ == after_last(after_last(model@, '/'), ':'),
{
    let tail = after_last_str(model, '/');
    after_last_str(tail, ':')
}

/// Font size in pixels of a markdown heading of `level`.
pub fn heading_size(level: u8) -> (r: u32)
    ensures
        r == (if level == 1 { 20u32 } else if level == 2 { 17u32 } else { 15u32 }),
{
    match level {
        1 => 20,
        2 => 17,
        _ => 15,
    }
}

/// The name an inline rename editor commits for its `content`: the content
/// trimmed, or `None` (the rename is dropped) when nothing but white space
/// is left.
pub fn committed_name(content: &str) -> (r: Option<String>)
    ensures
        trim_spec(content@).len() == 0 ==> r is None,
        trim_spec(content@).len() > 0 ==> r is Some && r->0@ == trim_spec(content@),
{
    let t = crate::slash::trim(content);
    if t.as_str().unicode_len() == 0 {
        None
    } else {
        Some(t)
    }
}

} // verus!
