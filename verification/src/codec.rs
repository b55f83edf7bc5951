//! Byte/text display codec: hex dump rendering, ANSI-escape stripping and
//! hex-token parsing for the terminal display.

use vstd::prelude::*;
use vstd::std_specs::iter::IteratorSpec;
use vstd::string::StringExecFns;

verus! {

broadcast use vstd::string::group_string_axioms;

// ---------------------------------------------------------------------------
// Hex digits and numbers
// ---------------------------------------------------------------------------
/// The uppercase hex digit for a value in `0..16`.
pub open spec fn hex_digit_char(n: int) -> char {
    if n == 0 {
        '0'
    } else if n == 1 {
        '1'
    } else if n == 2 {
        '2'
    } else if n == 3 {
        '3'
    } else if n == 4 {
        '4'
    } else if n == 5 {
        '5'
    } else if n == 6 {
        '6'
    } else if n == 7 {
        '7'
    } else if n == 8 {
        '8'
    } else if n == 9 {
        '9'
    } else if n == 10 {
        'A'
    } else if n == 11 {
        'B'
    } else if n == 12 {
        'C'
    } else if n == 13 {
        'D'
    } else if n == 14 {
        'E'
    } else {
        'F'
    }
}

/// Shortest uppercase hex representation of `n` (one digit for zero).
pub open spec fn hex_rep(n: nat) -> Seq<char>
    decreases n,
{
    if n < 16 {
        seq![hex_digit_char(n as int)]
    } else {
        hex_rep(n / 16).push(hex_digit_char((n % 16) as int))
    }
}

/// `n` in uppercase hex, zero-padded on the left to at least four digits.
pub open spec fn hex_offset_chars(n: nat) -> Seq<char> {
    if n < 0x10 {
        seq!['0', '0', '0'] + hex_rep(n)
    } else if n < 0x100 {
        seq!['0', '0'] + hex_rep(n)
    } else if n < 0x1000 {
        seq!['0'] + hex_rep(n)
    } else {
        hex_rep(n)
    }
}

/// One byte as exactly two uppercase hex digits.
pub open spec fn hex_byte_chars(b: u8) -> Seq<char> {
    seq![hex_digit_char(b as int / 16), hex_digit_char(b as int % 16)]
}

fn hex_digit(n: u8) -> (c: char)
    requires
        n < 16,
    ensures
        c == hex_digit_char(n as int),
{
    if n == 0 {
        '0'
    } else if n == 1 {
        '1'
    } else if n == 2 {
        '2'
    } else if n == 3 {
        '3'
    } else if n == 4 {
        '4'
    } else if n == 5 {
        '5'
    } else if n == 6 {
        '6'
    } else if n == 7 {
        '7'
    } else if n == 8 {
        '8'
    } else if n == 9 {
        '9'
    } else if n == 10 {
        'A'
    } else if n == 11 {
        'B'
    } else if n == 12 {
        'C'
    } else if n == 13 {
        'D'
    } else if n == 14 {
        'E'
    } else {
        'F'
    }
}

fn push_hex_rep(out: &mut Vec<char>, n: usize)
    ensures
        final(out)@ == old(out)@ + hex_rep(n as nat),
    decreases n,
{
    if n < 16 {
        out.push(hex_digit(n as u8));
        assert(out@ =~= old(out)@ + hex_rep(n as nat));
    } else {
        push_hex_rep(out, n / 16);
        out.push(hex_digit((n % 16) as u8));
        assert(out@ =~= old(out)@ + hex_rep(n as nat));
    }
}

fn push_hex_offset(out: &mut Vec<char>, n: usize)
    ensures
        final(out)@ == old(out)@ + hex_offset_chars(n as nat),
{
    if n < 0x10 {
        out.push('0');
        out.push('0');
        out.push('0');
    } else if n < 0x100 {
        out.push('0');
        out.push('0');
    } else if n < 0x1000 {
        out.push('0');
    }
    push_hex_rep(out, n);
    assert(out@ =~= old(out)@ + hex_offset_chars(n as nat));
}

fn push_hex_byte(out: &mut Vec<char>, b: u8)
    ensures
        final(out)@ == old(out)@ + hex_byte_chars(b),
{
    out.push(hex_digit(b / 16));
    out.push(hex_digit(b % 16));
    assert(out@ =~= old(out)@ + hex_byte_chars(b));
}

// ---------------------------------------------------------------------------
// Hex dump lines
// ---------------------------------------------------------------------------
/// The character shown in the right-hand column for one byte: the byte itself
/// when it is a printable ASCII character or a space, `.` otherwise.
pub open spec fn ascii_cell(b: u8) -> char {
    if 0x20 <= b <= 0x7e {
        b as char
    } else {
        '.'
    }
}

/// The hex-byte cells of one dump line, for the first `k` bytes of `chunk`:
/// two digits and a space per byte, with one extra space after the eighth.
pub open spec fn hex_cells_upto(chunk: Seq<u8>, k: int) -> Seq<char>
    decreases k,
{
    if k <= 0 {
        Seq::empty()
    } else {
        hex_cells_upto(chunk, k - 1) + hex_byte_chars(chunk[k - 1]) + seq![' '] + (if k - 1 == 7 {
            seq![' ']
        } else {
            Seq::empty()
        })
    }
}

/// `n` spaces (empty when `n <= 0`).
pub open spec fn spaces(n: int) -> Seq<char> {
    Seq::new(
        if n >= 0 {
            n as nat
        } else {
            0
        },
        |i: int| ' ',
    )
}

/// Alignment padding after the hex cells of a line of `len` bytes: three
/// spaces per missing byte, plus the mid-line separator space when the line
/// never reached the ninth byte.
pub open spec fn hex_pad_cells(len: int) -> Seq<char> {
    if len < 16 {
        spaces(3 * (16 - len)) + (if len <= 8 {
            seq![' ']
        } else {
            Seq::empty()
        })
    } else {
        Seq::empty()
    }
}

/// The right-hand ASCII column for the first `k` bytes of `chunk`.
pub open spec fn ascii_cells_upto(chunk: Seq<u8>, k: int) -> Seq<char>
    decreases k,
{
    if k <= 0 {
        Seq::empty()
    } else {
        ascii_cells_upto(chunk, k - 1).push(ascii_cell(chunk[k - 1]))
    }
}

/// One full dump line: four-digit offset, two spaces, hex cells, padding,
/// two-space gutter, ASCII column, newline.
pub open spec fn hex_line_chars(offset: nat, chunk: Seq<u8>) -> Seq<char> {
    hex_offset_chars(offset) + seq![' ', ' '] + hex_cells_upto(chunk, chunk.len() as int)
        + hex_pad_cells(chunk.len() as int) + seq![' ', ' '] + ascii_cells_upto(
        chunk,
        chunk.len() as int,
    ) + seq!['\n']
}

/// The bytes shown on line `l`: bytes `16*l` up to `16*l + 16` (or the end).
pub open spec fn spec_line_chunk(data: Seq<u8>, l: int) -> Seq<u8> {
    data.subrange(
        16 * l,
        if 16 * l + 16 <= data.len() {
            16 * l + 16
        } else {
            data.len() as int
        },
    )
}

/// Number of dump lines for `data`: sixteen bytes per line, last line short.
pub open spec fn num_hex_lines(data: Seq<u8>) -> int {
    (data.len() as int + 15) / 16
}

/// The first `l` dump lines of `data`, concatenated.
pub open spec fn hex_lines_upto(data: Seq<u8>, l: int) -> Seq<char>
    decreases l,
{
    if l <= 0 {
        Seq::empty()
    } else {
        hex_lines_upto(data, l - 1) + hex_line_chars(
            (16 * (l - 1)) as nat,
            spec_line_chunk(data, l - 1),
        )
    }
}

/// The full hex dump of `data`.
pub open spec fn spec_format_hex(data: Seq<u8>) -> Seq<char> {
    hex_lines_upto(data, num_hex_lines(data))
}

fn ascii_for(b: u8) -> (c: char)
    ensures
        c == ascii_cell(b),
{
    if 0x20 <= b && b <= 0x7e {
        b as char
    } else {
        '.'
    }
}

fn push_hex_line(out: &mut Vec<char>, data: &[u8], start: usize, end: usize)
    requires
        start < end <= data@.len(),
        end - start <= 16,
    ensures
        final(out)@ == old(out)@ + hex_line_chars(
            start as nat,
            data@.subrange(start as int, end as int),
        ),
{
    let ghost chunk = data@.subrange(start as int, end as int);
    push_hex_offset(out, start);
    out.push(' ');
    out.push(' ');
    let ghost head = old(out)@ + hex_offset_chars(start as nat) + seq![' ', ' '];
    assert(out@ =~= head);
    let mut j: usize = start;
    while j < end
        invariant
            start <= j <= end,
            end <= data@.len(),
            end - start <= 16,
            chunk == data@.subrange(start as int, end as int),
            out@ == head + hex_cells_upto(chunk, j - start),
        decreases end - j,
    {
        push_hex_byte(out, *vstd::slice::slice_index_get(data, j));
        out.push(' ');
        if j - start == 7 {
            out.push(' ');
        }
        assert(chunk[j - start] == data@[j as int]);
        j = j + 1;
        assert(out@ =~= head + hex_cells_upto(chunk, j - start));
    }
    let len = end - start;
    let ghost with_cells = head + hex_cells_upto(chunk, chunk.len() as int);
    if len < 16 {
        let total = 3 * (16 - len);
        let mut p: usize = 0;
        while p < total
            invariant
                p <= total,
                total == 3 * (16 - len),
                out@ == with_cells + spaces(p as int),
            decreases total - p,
        {
            out.push(' ');
            p = p + 1;
            assert(out@ =~= with_cells + spaces(p as int));
        }
        if len <= 8 {
            out.push(' ');
        }
    }
    assert(out@ =~= with_cells + hex_pad_cells(chunk.len() as int));
    out.push(' ');
    out.push(' ');
    let ghost with_pad = with_cells + hex_pad_cells(chunk.len() as int) + seq![' ', ' '];
    assert(out@ =~= with_pad);
    let mut j2: usize = start;
    while j2 < end
        invariant
            start <= j2 <= end,
            end <= data@.len(),
            chunk == data@.subrange(start as int, end as int),
            out@ == with_pad + ascii_cells_upto(chunk, j2 - start),
        decreases end - j2,
    {
        let c = ascii_for(*vstd::slice::slice_index_get(data, j2));
        out.push(c);
        assert(chunk[j2 - start] == data@[j2 as int]);
        j2 = j2 + 1;
        assert(out@ =~= with_pad + ascii_cells_upto(chunk, j2 - start));
    }
    out.push('\n');
    assert(out@ =~= old(out)@ + hex_line_chars(start as nat, chunk));
}

/// The hex dump of `data` as characters: sixteen bytes per line, each line
/// holding a four-digit offset, the bytes in uppercase hex and an ASCII
/// column, short final lines padded to alignment.
pub fn format_hex_chars(data: &[u8]) -> (out: Vec<char>)
    ensures
        out@ == spec_format_hex(data@),
{
    let mut out: Vec<char> = Vec::new();
    let n = data.len();
    let mut pos: usize = 0;
    let mut line: usize = 0;
    while pos < n
        invariant
            n == data@.len(),
            pos <= n,
            pos == 16 * line || (pos == n && line == num_hex_lines(data@)),
            out@ == hex_lines_upto(data@, line as int),
        decreases n - pos,
    {
        assert(pos == 16 * line);
        let end = if n - pos <= 16 {
            n
        } else {
            pos + 16
        };
        push_hex_line(&mut out, data, pos, end);
        assert(data@.subrange(pos as int, end as int) =~= spec_line_chunk(data@, line as int));
        line = line + 1;
        assert(out@ =~= hex_lines_upto(data@, line as int));
        if end == n {
            assert(line == num_hex_lines(data@)) by {
                assert(n == 16 * (line - 1) + (n - pos));
            };
        }
        pos = end;
    }
    assert(line == num_hex_lines(data@));
    out
}

// ---------------------------------------------------------------------------
// Characters <-> strings
// ---------------------------------------------------------------------------
/// Relies on `String`'s `FromIterator<char>` impl: collecting characters
/// yields the string of exactly those characters, in order.
#[verifier::external_body]
pub(crate) fn chars_to_string(v: &Vec<char>) -> (s: String)
    ensures
        s@ == v@,
{
    v.iter().collect()
}

/// The characters of `s`, in order, as a vector.
pub fn str_to_chars(s: &str) -> (v: Vec<char>)
    ensures
        v@ == s@,
{
    let mut v: Vec<char> = Vec::new();
    let mut it = s.chars();
    assert(v@ + it.remaining() =~= s@);
    loop
        invariant_except_break
            it.obeys_prophetic_iter_laws(),
            it.decrease() is Some,
            v@ + it.remaining() == s@,
        ensures
            v@ == s@,
        decreases it.decrease()->0,
    {
        let ghost prev = it.remaining();
        match it.next() {
            Some(c) => {
                v.push(c);
                assert(v@ + it.remaining() =~= s@);
            },
            None => {
                assert(v@ + prev =~= v@);
                break ;
            },
        }
    }
    v
}

/// The full hex dump of `data` as a `String`.
pub fn format_hex(data: &[u8]) -> (s: String)
    ensures
        s@ == spec_format_hex(data@),
{
    let chars = format_hex_chars(data);
    chars_to_string(&chars)
}

// ---------------------------------------------------------------------------
// Hex byte tokens
// ---------------------------------------------------------------------------
/// `bytes` as space-separated two-digit uppercase hex tokens.
pub open spec fn spec_hex_tokens(bytes: Seq<u8>) -> Seq<char>
    decreases bytes.len(),
{
    if bytes.len() == 0 {
        Seq::empty()
    } else if bytes.len() == 1 {
        hex_byte_chars(bytes[0])
    } else {
        hex_byte_chars(bytes[0]) + seq![' '] + spec_hex_tokens(bytes.drop_first())
    }
}

/// Render `bytes` as space-separated two-digit uppercase hex tokens,
/// the format accepted back by `parse_hex_input`.
pub fn format_hex_tokens(bytes: &[u8]) -> (s: String)
    ensures
        s@ == spec_hex_tokens(bytes@),
{
    let mut out: Vec<char> = Vec::new();
    let n = bytes.len();
    let mut i: usize = 0;
    assert(bytes@.skip(0) =~= bytes@);
    while i < n
        invariant
            n == bytes@.len(),
            i <= n,
            out@ + spec_hex_tokens(bytes@.skip(i as int)) == spec_hex_tokens(bytes@),
        decreases n - i,
    {
        push_hex_byte(&mut out, *vstd::slice::slice_index_get(bytes, i));
        if i + 1 < n {
            out.push(' ');
        }
        proof {
            let rest = bytes@.skip(i as int);
            assert(rest.drop_first() =~= bytes@.skip(i as int + 1));
            assert(rest[0] == bytes@[i as int]);
            assert(out@ + spec_hex_tokens(bytes@.skip(i as int + 1)) =~= spec_hex_tokens(bytes@));
        }
        i = i + 1;
    }
    assert(out@ =~= spec_hex_tokens(bytes@));
    chars_to_string(&out)
}

// ---------------------------------------------------------------------------
// ANSI escape stripping
// ---------------------------------------------------------------------------
/// An ASCII letter, which ends a CSI escape sequence.
pub open spec fn is_csi_final(c: char) -> bool {
    (65 <= c as u32 <= 90) || (97 <= c as u32 <= 122)
}

/// `text` with CSI escape sequences removed: an ESC immediately followed by
/// `[` consumes everything up to and including the first ASCII letter, while
/// an ESC not followed by `[` is kept verbatim.
pub open spec fn spec_strip_ansi(s: Seq<char>) -> Seq<char>
    decreases s.len(), 1int,
{
    if s.len() == 0 {
        Seq::empty()
    } else if s[0] != '\x1b' {
        seq![s[0]] + spec_strip_ansi(s.drop_first())
    } else if s.len() == 1 || s[1] != '[' {
        seq!['\x1b'] + spec_strip_ansi(s.drop_first())
    } else {
        spec_strip_csi(s.skip(2))
    }
}

/// The tail of the text from inside a CSI sequence: everything up to and
/// including the first ASCII letter is consumed, and stripping resumes after
/// it; a sequence left open at the end of the text is consumed entirely.
pub open spec fn spec_strip_csi(s: Seq<char>) -> Seq<char>
    decreases s.len(), 0int,
{
    if s.len() == 0 {
        Seq::empty()
    } else if is_csi_final(s[0]) {
        spec_strip_ansi(s.drop_first())
    } else {
        spec_strip_csi(s.drop_first())
    }
}

fn csi_final(c: char) -> (r: bool)
    ensures
        r == is_csi_final(c),
{
    let u = c as u32;
    (65 <= u && u <= 90) || (97 <= u && u <= 122)
}

fn strip_ansi_chars(text: &Vec<char>) -> (out: Vec<char>)
    ensures
        out@ == spec_strip_ansi(text@),
{
    let n = text.len();
    let mut out: Vec<char> = Vec::new();
    let mut i: usize = 0;
    assert(text@.skip(0) =~= text@);
    while i < n
        invariant
            n == text@.len(),
            i <= n,
            out@ + spec_strip_ansi(text@.skip(i as int)) == spec_strip_ansi(text@),
        decreases n - i,
    {
        let c = text[i];
        if c != '\x1b' {
            out.push(c);
            proof {
                let rest = text@.skip(i as int);
                assert(rest.drop_first() =~= text@.skip(i as int + 1));
                assert(out@ + spec_strip_ansi(text@.skip(i as int + 1)) =~= spec_strip_ansi(
                    text@,
                ));
            }
            i = i + 1;
        } else if i + 1 == n || *vstd::std_specs::vec::vec_index(text, i + 1) != '[' {
            out.push('\x1b');
            proof {
                let rest = text@.skip(i as int);
                assert(rest.drop_first() =~= text@.skip(i as int + 1));
                assert(out@ + spec_strip_ansi(text@.skip(i as int + 1)) =~= spec_strip_ansi(
                    text@,
                ));
            }
            i = i + 1;
        } else {
            proof {
                let rest = text@.skip(i as int);
                assert(rest.skip(2) =~= text@.skip(i as int + 2));
            }
            i = i + 2;
            let ghost i0 = i;
            while i < n && !csi_final(*vstd::std_specs::vec::vec_index(text, i))
                invariant
                    n == text@.len(),
                    i0 <= i <= n,
                    out@ + spec_strip_csi(text@.skip(i as int)) == spec_strip_ansi(text@),
                decreases n - i,
            {
                proof {
                    let rest = text@.skip(i as int);
                    assert(rest.drop_first() =~= text@.skip(i as int + 1));
                }
                i = i + 1;
            }
            if i < n {
                proof {
                    let rest = text@.skip(i as int);
                    assert(rest.drop_first() =~= text@.skip(i as int + 1));
                }
                i = i + 1;
            }
        }
    }
    assert(text@.skip(n as int) =~= Seq::<char>::empty());
    assert(out@ =~= spec_strip_ansi(text@));
    out
}

/// Remove CSI escape sequences from `text`: an ESC immediately followed by
/// `[` and everything up to and including the next ASCII letter is dropped;
/// an ESC not followed by `[` is preserved verbatim.
pub fn strip_ansi_codes(text: &str) -> (out: String)
    ensures
        out@ == spec_strip_ansi(text@),
{
    let chars = str_to_chars(text);
    let stripped = strip_ansi_chars(&chars);
    chars_to_string(&stripped)
}

// ---------------------------------------------------------------------------
// Hex input parsing
// ---------------------------------------------------------------------------
/// Why a hex-input text was rejected.
#[derive(Debug, PartialEq, Eq)]
pub enum HexParseError {
    /// The input held no token at all.
    EmptyInput,
    /// The first token that is not a two-digit hex byte.
    InvalidToken(String),
}

/// ASCII whitespace, the separator between hex byte tokens.
pub open spec fn is_space_char(c: char) -> bool {
    c == ' ' || c == '\t' || c == '\n' || c == '\r' || c == '\x0b' || c == '\x0c'
}

/// A hex digit in either case.
pub open spec fn is_hex_digit_char(c: char) -> bool {
    (48 <= c as u32 <= 57) || (65 <= c as u32 <= 70) || (97 <= c as u32 <= 102)
}

/// The value of a hex digit.
pub open spec fn hex_char_val(c: char) -> int {
    if 48 <= c as u32 <= 57 {
        c as u32 - 48
    } else if 65 <= c as u32 <= 70 {
        c as u32 - 55
    } else {
        c as u32 - 87
    }
}

/// Length of the leading whitespace-free run of `s`.
pub open spec fn token_len(s: Seq<char>) -> int
    decreases s.len(),
{
    if s.len() == 0 || is_space_char(s[0]) {
        0
    } else {
        1 + token_len(s.drop_first())
    }
}

proof fn lemma_token_len_le(s: Seq<char>)
    ensures
        0 <= token_len(s) <= s.len(),
    decreases s.len(),
{
    if s.len() > 0 && !is_space_char(s[0]) {
        lemma_token_len_le(s.drop_first());
    }
}

/// The whitespace-separated tokens of `s`, in order.
pub open spec fn spec_tokens(s: Seq<char>) -> Seq<Seq<char>>
    decreases s.len(),
    via spec_tokens_decreases
{
    if s.len() == 0 {
        Seq::empty()
    } else if is_space_char(s[0]) {
        spec_tokens(s.drop_first())
    } else {
        seq![s.take(token_len(s))] + spec_tokens(s.skip(token_len(s)))
    }
}

#[via_fn]
proof fn spec_tokens_decreases(s: Seq<char>) {
    if s.len() > 0 && !is_space_char(s[0]) {
        lemma_token_len_le(s.drop_first());
        assert(token_len(s) == 1 + token_len(s.drop_first()));
    }
}

/// A whole token: one or two hex digits.
pub open spec fn token_valid(t: Seq<char>) -> bool {
    1 <= t.len() <= 2 && (forall|i: int| 0 <= i < t.len() ==> is_hex_digit_char(t[i]))
}

/// The byte a valid token stands for.
pub open spec fn token_value(t: Seq<char>) -> u8 {
    if t.len() == 1 {
        hex_char_val(t[0]) as u8
    } else {
        (hex_char_val(t[0]) * 16 + hex_char_val(t[1])) as u8
    }
}

pub open spec fn all_tokens_valid(toks: Seq<Seq<char>>) -> bool {
    forall|i: int| 0 <= i < toks.len() ==> token_valid(toks[i])
}

pub open spec fn spec_token_values(toks: Seq<Seq<char>>) -> Seq<u8> {
    toks.map_values(|t: Seq<char>| token_value(t))
}

/// Index of the first invalid token.
pub open spec fn first_invalid_token(toks: Seq<Seq<char>>) -> int
    decreases toks.len(),
{
    if toks.len() == 0 {
        0
    } else if !token_valid(toks[0]) {
        0
    } else {
        1 + first_invalid_token(toks.drop_first())
    }
}

proof fn lemma_first_invalid(toks: Seq<Seq<char>>, k: int)
    requires
        0 <= k < toks.len(),
        forall|i: int| 0 <= i < k ==> token_valid(toks[i]),
        !token_valid(toks[k]),
    ensures
        first_invalid_token(toks) == k,
    decreases k,
{
    if k > 0 {
        lemma_first_invalid(toks.drop_first(), k - 1);
    }
}

/// A run of `j` non-space characters ended by a space or the end of the
/// text is exactly the leading token.
proof fn lemma_token_len_run(s: Seq<char>, j: int)
    requires
        0 <= j <= s.len(),
        forall|k: int| 0 <= k < j ==> !is_space_char(s[k]),
        j == s.len() || is_space_char(s[j]),
    ensures
        token_len(s) == j,
    decreases j,
{
    if j > 0 {
        lemma_token_len_run(s.drop_first(), j - 1);
    }
}

fn is_space(c: char) -> (r: bool)
    ensures
        r == is_space_char(c),
{
    c == ' ' || c == '\t' || c == '\n' || c == '\r' || c == '\x0b' || c == '\x0c'
}

fn hex_char_value(c: char) -> (r: Option<u8>)
    ensures
        r is Some <==> is_hex_digit_char(c),
        r is Some ==> r->0 == hex_char_val(c) && r->0 < 16,
{
    let u = c as u32;
    if 48 <= u && u <= 57 {
        Some((u - 48) as u8)
    } else if 65 <= u && u <= 70 {
        Some((u - 55) as u8)
    } else if 97 <= u && u <= 102 {
        Some((u - 87) as u8)
    } else {
        None
    }
}

/// Parse whitespace-separated hex byte tokens (for example `AA BB 0D 0A`).
/// Input without any token is rejected as empty; otherwise every token must
/// be one or two hex digits, and the first token that is not is reported.
pub fn parse_hex_input(input: &str) -> (r: Result<Vec<u8>, HexParseError>)
    ensures
        ({
            let toks = spec_tokens(input@);
            &&& toks.len() == 0 ==> (r matches Err(e) && e is EmptyInput)
            &&& toks.len() > 0 && all_tokens_valid(toks) ==> (r matches Ok(v) && v@
                == spec_token_values(toks))
            &&& !all_tokens_valid(toks) ==> (r matches Err(e) && (e matches
            HexParseError::InvalidToken(t) && t@ == toks[first_invalid_token(toks)]))
        }),
{
    let chars = str_to_chars(input);
    let n = chars.len();
    let ghost toks = spec_tokens(input@);
    let mut bytes: Vec<u8> = Vec::new();
    let ghost mut tcount: int = 0;
    let mut i: usize = 0;
    assert(chars@.skip(0) =~= chars@);
    assert(toks.skip(0) =~= toks);
    assert(toks.take(0) =~= Seq::<Seq<char>>::empty());
    assert(bytes@ =~= spec_token_values(toks.take(0)));
    while i < n
        invariant
            n == chars@.len(),
            chars@ == input@,
            i <= n,
            toks == spec_tokens(input@),
            0 <= tcount <= toks.len(),
            spec_tokens(chars@.skip(i as int)) == toks.skip(tcount),
            bytes@ == spec_token_values(toks.take(tcount)),
            forall|k: int| 0 <= k < tcount ==> token_valid(toks[k]),
        decreases n - i,
    {
        let c = chars[i];
        if is_space(c) {
            proof {
                let rest = chars@.skip(i as int);
                assert(rest.drop_first() =~= chars@.skip(i as int + 1));
            }
            i = i + 1;
        } else {
            // scan the token
            let start = i;
            let mut j = i;
            while j < n && !is_space(*vstd::std_specs::vec::vec_index(&chars, j))
                invariant
                    n == chars@.len(),
                    start <= j <= n,
                    forall|k: int| start <= k < j ==> !is_space_char(chars@[k]),
                decreases n - j,
            {
                j = j + 1;
            }
            let ghost rest = chars@.skip(i as int);
            let ghost tok = chars@.subrange(start as int, j as int);
            proof {
                lemma_token_len_run(rest, j - start);
                assert(rest.take(token_len(rest)) =~= tok);
                assert(rest.skip(token_len(rest)) =~= chars@.skip(j as int));
                assert(toks.skip(tcount) =~= seq![tok] + spec_tokens(chars@.skip(j as int)));
                assert(toks.skip(tcount)[0] == toks[tcount]);
                assert(toks[tcount] == tok);
                assert(spec_tokens(chars@.skip(j as int)) =~= toks.skip(tcount).drop_first());
                assert(toks.skip(tcount).drop_first() =~= toks.skip(tcount + 1));
            }
            // check and convert the token
            let mut value: Option<u8> = None;
            if j - start <= 2 {
                let d0 = hex_char_value(chars[start]);
                if j - start == 1 {
                    value = d0;
                } else {
                    let d1 = hex_char_value(chars[start + 1]);
                    match (d0, d1) {
                        (Some(h), Some(l)) => {
                            value = Some(h * 16 + l);
                        },
                        _ => {
                            value = None;
                        },
                    }
                }
            }
            match value {
                Some(b) => {
                    proof {
                        assert(token_valid(tok)) by {
                            assert(forall|k: int|
                                0 <= k < tok.len() ==> is_hex_digit_char(#[trigger] tok[k]));
                        };
                        assert(b == token_value(tok));
                    }
                    bytes.push(b);
                    proof {
                        tcount = tcount + 1;
                        assert(toks.take(tcount) =~= toks.take(tcount - 1).push(tok));
                        assert(bytes@ =~= spec_token_values(toks.take(tcount)));
                    }
                    i = j;
                },
                None => {
                    proof {
                        assert(tok.len() == j - start);
                        if j - start <= 2 {
                            assert(tok[0] == chars@[start as int]);
                            if j - start == 2 {
                                assert(tok[1] == chars@[start as int + 1]);
                            }
                        }
                        assert(!token_valid(tok));
                        lemma_first_invalid(toks, tcount);
                    }
                    let mut tchars: Vec<char> = Vec::new();
                    let mut k = start;
                    while k < j
                        invariant
                            start <= k <= j <= n,
                            n == chars@.len(),
                            tchars@ == chars@.subrange(start as int, k as int),
                        decreases j - k,
                    {
                        tchars.push(chars[k]);
                        k = k + 1;
                        assert(tchars@ =~= chars@.subrange(start as int, k as int));
                    }
                    let t = chars_to_string(&tchars);
                    return Err(HexParseError::InvalidToken(t));
                },
            }
        }
    }
    assert(chars@.skip(n as int) =~= Seq::<char>::empty());
    assert(toks.skip(tcount).len() == 0);
    assert(tcount == toks.len());
    assert(toks.take(tcount) =~= toks);
    if bytes.len() == 0 {
        assert(toks.len() == 0);
        Err(HexParseError::EmptyInput)
    } else {
        Ok(bytes)
    }
}

// ---------------------------------------------------------------------------
// Hex round trip
// ---------------------------------------------------------------------------
proof fn lemma_hex_digit_facts(n: int)
    requires
        0 <= n < 16,
    ensures
        is_hex_digit_char(hex_digit_char(n)),
        hex_char_val(hex_digit_char(n)) == n,
        !is_space_char(hex_digit_char(n)),
{
}

/// Law: tokenizing the hex-token rendering of any byte sequence gives one
/// valid two-digit token per byte, whose values are exactly the original
/// bytes; so `parse_hex_input` applied to `format_hex_tokens(bytes)` returns
/// `Ok(bytes)` whenever `bytes` is not empty (an empty rendering parses as
/// empty input).
pub proof fn lemma_hex_tokens_round_trip(bytes: Seq<u8>)
    ensures
        ({
            let toks = spec_tokens(spec_hex_tokens(bytes));
            &&& toks.len() == bytes.len()
            &&& all_tokens_valid(toks)
            &&& spec_token_values(toks) == bytes
        }),
    decreases bytes.len(),
{
    let s = spec_hex_tokens(bytes);
    let toks = spec_tokens(s);
    if bytes.len() == 0 {
        assert(toks =~= Seq::<Seq<char>>::empty());
        assert(spec_token_values(toks) =~= bytes);
    } else {
        let b0 = bytes[0];
        let t0 = hex_byte_chars(b0);
        lemma_hex_digit_facts(b0 as int / 16);
        lemma_hex_digit_facts(b0 as int % 16);
        assert(token_valid(t0));
        assert(token_value(t0) == b0);
        if bytes.len() == 1 {
            assert(s == t0);
            assert(s[0] == hex_digit_char(b0 as int / 16) && s[1] == hex_digit_char(b0 as int % 16));
            lemma_token_len_run(s, 2);
            assert(token_len(s) == 2);
            assert(s.take(2) =~= t0);
            assert(s.skip(2) =~= Seq::<char>::empty());
            assert(spec_tokens(s.skip(2)) =~= Seq::<Seq<char>>::empty());
            assert(toks == seq![s.take(token_len(s))] + spec_tokens(s.skip(token_len(s))));
            assert(toks =~= seq![t0]);
            assert(spec_token_values(toks) =~= bytes);
        } else {
            let rest = spec_hex_tokens(bytes.drop_first());
            assert(s == t0 + seq![' '] + rest);
            assert(s[0] == t0[0] && s[1] == t0[1] && s[2] == ' ');
            lemma_token_len_run(s, 2);
            assert(s.take(2) =~= t0);
            assert(toks == seq![s.take(token_len(s))] + spec_tokens(s.skip(token_len(s))));
            let after = s.skip(2);
            assert(after[0] == ' ');
            assert(after.drop_first() =~= rest);
            assert(spec_tokens(after) == spec_tokens(rest));
            lemma_hex_tokens_round_trip(bytes.drop_first());
            let toks_rest = spec_tokens(rest);
            assert(toks =~= seq![t0] + toks_rest);
            assert(toks.len() == bytes.len());
            assert forall|i: int| 0 <= i < toks.len() implies token_valid(#[trigger] toks[i]) by {
                if i > 0 {
                    assert(toks[i] == toks_rest[i - 1]);
                }
            };
            assert forall|i: int| 0 <= i < toks.len() implies #[trigger] spec_token_values(toks)[i]
                == bytes[i] by {
                if i > 0 {
                    assert(toks[i] == toks_rest[i - 1]);
                    assert(spec_token_values(toks_rest)[i - 1] == bytes.drop_first()[i - 1]);
                }
            };
            assert(spec_token_values(toks) =~= bytes);
        }
    }
}

// ---------------------------------------------------------------------------
// Display rendering
// ---------------------------------------------------------------------------
/// How received bytes are shown.
#[derive(Debug, Clone, Copy, PartialEq, Eq, Structural)]
pub enum ViewMode {
    Ascii,
    Hex,
    Both,
}

/// What `String::from_utf8_lossy` returns for the given bytes.
pub uninterp spec fn lossy_decode(bytes: Seq<u8>) -> Seq<char>;

/// Relies on `String::from_utf8_lossy`: the result depends on the bytes
/// alone; valid UTF-8 decodes to itself, so pure-ASCII bytes decode to their
/// own characters, and empty input decodes to empty text.
#[verifier::external_body]
pub(crate) fn lossy_utf8(bytes: &[u8]) -> (s: String)
    ensures
        s@ == lossy_decode(bytes@),
        bytes@.len() == 0 ==> s@.len() == 0,
        (forall|i: int| 0 <= i < bytes@.len() ==> bytes@[i] < 0x80) ==> s@ == bytes@.map_values(
            |b: u8| b as char,
        ),
{
    String::from_utf8_lossy(bytes).into_owned()
}

/// The heading line above the hex half of the combined view.
pub open spec fn spec_both_header() -> Seq<char> {
    seq!['=', '=', '=', ' ', 'H', 'E', 'X', ' ', '=', '=', '=', '\n']
}

/// The separator between the hex half and the ASCII half.
pub open spec fn spec_both_mid() -> Seq<char> {
    seq!['\n', '\n', '=', '=', '=', ' ', 'A', 'S', 'C', 'I', 'I', ' ', '=', '=', '=', '\n']
}

/// The lossy text of `data`, ANSI-stripped when asked to.
pub open spec fn spec_render_ascii(data: Seq<u8>, strip: bool) -> Seq<char> {
    if strip {
        spec_strip_ansi(lossy_decode(data))
    } else {
        lossy_decode(data)
    }
}

/// The rendered display text for `data` under a view mode.
pub open spec fn spec_render(data: Seq<u8>, mode: ViewMode, strip: bool) -> Seq<char> {
    match mode {
        ViewMode::Ascii => spec_render_ascii(data, strip),
        ViewMode::Hex => spec_format_hex(data),
        ViewMode::Both => spec_both_header() + spec_format_hex(data) + spec_both_mid()
            + spec_render_ascii(data, strip),
    }
}

fn render_ascii(data: &[u8], strip: bool) -> (out: String)
    ensures
        out@ == spec_render_ascii(data@, strip),
{
    let text = lossy_utf8(data);
    if strip {
        strip_ansi_codes(text.as_str())
    } else {
        text
    }
}

/// Render `data` for display: the lossy (optionally ANSI-stripped) text, the
/// hex dump, or both with headings.
pub fn render(data: &[u8], mode: ViewMode, strip: bool) -> (out: String)
    ensures
        out@ == spec_render(data@, mode, strip),
{
    match mode {
        ViewMode::Ascii => render_ascii(data, strip),
        ViewMode::Hex => format_hex(data),
        ViewMode::Both => {
            let mut out = String::from_str("=== HEX ===\n");
            proof {
                reveal_strlit("=== HEX ===\n");
                assert(out@ =~= spec_both_header());
            }
            let hex = format_hex(data);
            out.append(hex.as_str());
            let mid: &str = "\n\n=== ASCII ===\n";
            proof {
                reveal_strlit("\n\n=== ASCII ===\n");
                assert(mid@ =~= spec_both_mid());
            }
            out.append(mid);
            let ascii = render_ascii(data, strip);
            out.append(ascii.as_str());
            assert(out@ =~= spec_render(data@, mode, strip));
            out
        },
    }
}

} // verus!
