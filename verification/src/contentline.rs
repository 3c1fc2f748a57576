//! The content lines that iCalendar and vCard share: escaping, line
//! folding, and the `NAME;PARAM=value:VALUE` grammar.

use vstd::prelude::*;
use vstd::string::*;
use vstd::slice::slice_subrange;
use crate::text::{
    byte_len, char_bytes, char_width, chars_of, concat_all, first_index, first_index_is, index_of,
    lower, split, split_chars, string_of, strip_both, strip_slice, upper_char,
};

verus! {

/// The parameters of a content line, in order.
pub type Params = Vec<(String, String)>;

pub type ParamsV = Seq<(Seq<char>, Seq<char>)>;

// ---------------------------------------------------------------------------
// Escaping
// ---------------------------------------------------------------------------

/// How a character is written in a TEXT value. A carriage return is left out.
pub open spec fn escape_char(c: char) -> Seq<char> {
    if c == '\\' || c == ';' || c == ',' {
        seq!['\\', c]
    } else if c == '\n' {
        seq!['\\', 'n']
    } else if c == '\r' {
        Seq::empty()
    } else {
        seq![c]
    }
}

/// How a text is written in a TEXT value.
pub open spec fn escaped(s: Seq<char>) -> Seq<char>
    decreases s.len(),
{
    if s.len() == 0 {
        Seq::empty()
    } else {
        escape_char(s[0]) + escaped(s.skip(1))
    }
}

/// What a TEXT value stands for: a backslash takes the next character as it is, but `n` and
/// `N` as a line feed; one at the end is dropped.
pub open spec fn unescaped(s: Seq<char>) -> Seq<char>
    decreases s.len(),
{
    if s.len() == 0 {
        Seq::empty()
    } else if s[0] == '\\' {
        if s.len() == 1 {
            Seq::empty()
        } else {
            seq![
                if s[1] == 'n' || s[1] == 'N' {
                    '\n'
                } else {
                    s[1]
                },
            ] + unescaped(s.skip(2))
        }
    } else {
        seq![s[0]] + unescaped(s.skip(1))
    }
}

/// The escaping of iCalendar's TEXT values: backslash, comma and semicolon are structural, and
/// a line feed has no literal form in a content line. vCard escapes the same
/// way.
pub fn escape_text(s: &str) -> (r: String)
    ensures
        r@ == escaped(s@),
{
    let v = chars_of(s);
    let mut out = String::new();
    let mut i: usize = 0;
    assert(v@.skip(0) =~= v@);
    assert(out@ + escaped(v@) =~= escaped(v@));
    while i < v.len()
        invariant
            0 <= i <= v@.len(),
            v@ == s@,
            out@ + escaped(v@.skip(i as int)) == escaped(s@),
        decreases v@.len() - i,
    {
        let ghost before = out@;
        let c: char = v[i];
        assert(v@.skip(i as int)[0] == c);
        assert(v@.skip(i as int).skip(1) =~= v@.skip(i + 1));
        match c {
            '\\' | ';' | ',' => {
                out.push('\\');
                out.push(c);
            },
            '\n' => {
                out.push('\\');
                out.push('n');
            },
            '\r' => {},
            _ => {
                out.push(c);
            },
        }
        assert(out@ =~= before + escape_char(c));
        assert(before + (escape_char(c) + escaped(v@.skip(i + 1))) =~= out@ + escaped(
            v@.skip(i + 1),
        ));
        i = i + 1;
    }
    assert(v@.skip(i as int) =~= Seq::empty());
    assert(out@ + Seq::empty() =~= out@);
    out
}

/// What a TEXT value stands for.
pub fn unescape_text(s: &str) -> (r: String)
    ensures
        r@ == unescaped(s@),
{
    let v = chars_of(s);
    let mut out = String::new();
    let mut i: usize = 0;
    assert(v@.skip(0) =~= v@);
    assert(out@ + unescaped(v@) =~= unescaped(v@));
    while i < v.len()
        invariant
            0 <= i <= v@.len(),
            v@ == s@,
            out@ + unescaped(v@.skip(i as int)) == unescaped(s@),
        decreases v@.len() - i,
    {
        let ghost before = out@;
        let ghost rest = v@.skip(i as int);
        let c: char = v[i];
        assert(rest[0] == c);
        if c == '\\' {
            if i + 1 == v.len() {
                assert(before + Seq::empty() =~= before);
                return out;
            }
            let d: char = v[i + 1];
            assert(rest[1] == d);
            if d == 'n' || d == 'N' {
                out.push('\n');
            } else {
                out.push(d);
            }
            assert(rest.skip(2) =~= v@.skip(i + 2));
            assert(before + (seq![out@.last()] + unescaped(v@.skip(i + 2))) =~= out@ + unescaped(
                v@.skip(i + 2),
            ));
            i = i + 2;
        } else {
            out.push(c);
            assert(rest.skip(1) =~= v@.skip(i + 1));
            assert(before + (seq![c] + unescaped(v@.skip(i + 1))) =~= out@ + unescaped(
                v@.skip(i + 1),
            ));
            i = i + 1;
        }
    }
    assert(v@.skip(i as int) =~= Seq::empty());
    assert(out@ + Seq::empty() =~= out@);
    out
}

/// What is escaped is a text without line feeds and carriage returns.
pub proof fn escaped_is_one_line(s: Seq<char>)
    ensures
        forall|i: int| 0 <= i < escaped(s).len() ==> escaped(s)[i] != '\n' && escaped(s)[i] != '\r',
    decreases s.len(),
{
    if s.len() > 0 {
        escaped_is_one_line(s.skip(1));
        let head = escape_char(s[0]);
        let tail = escaped(s.skip(1));
        assert forall|i: int| 0 <= i < escaped(s).len() implies escaped(s)[i] != '\n' && escaped(
            s,
        )[i] != '\r' by {
            if i >= head.len() {
                assert(escaped(s)[i] == tail[i - head.len()]);
            } else {
                assert(escaped(s)[i] == head[i]);
            }
        }
    }
}

/// Undoing the escaping of a text gives the text without its carriage returns.
pub proof fn unescape_undoes_escape(s: Seq<char>)
    ensures
        unescaped(escaped(s)) == s.filter(|c: char| c != '\r'),
        (forall|i: int| 0 <= i < s.len() ==> s[i] != '\r') ==> unescaped(escaped(s)) == s,
    decreases s.len(),
{
    let keep = |c: char| c != '\r';
    if s.len() == 0 {
        reveal(Seq::filter);
        assert(s.filter(keep) =~= Seq::empty());
        assert(s =~= Seq::empty());
    } else {
        let t = s.skip(1);
        unescape_undoes_escape(t);
        let head = escape_char(s[0]);
        let e = escaped(s);
        assert(e.skip(head.len() as int) =~= escaped(t));
        assert(s =~= seq![s[0]] + t);
        assert(s.filter(keep) =~= seq![s[0]].filter(keep) + t.filter(keep)) by {
            Seq::<char>::filter_distributes_over_add(seq![s[0]], t, keep);
        }
        assert(seq![s[0]].filter(keep) =~= if keep(s[0]) {
            seq![s[0]]
        } else {
            Seq::empty()
        }) by {
            reveal(Seq::filter);
            reveal_with_fuel(Seq::filter, 2);
            assert(seq![s[0]].drop_last() =~= Seq::empty());
        }
        if s[0] == '\r' {
            assert(head =~= Seq::empty());
            assert(e =~= escaped(t));
            assert(Seq::<char>::empty() + t.filter(keep) =~= t.filter(keep));
        } else if head.len() == 2 {
            assert(e[0] == '\\' && e[1] == head[1]);
            assert(unescaped(e) =~= seq![s[0]] + unescaped(escaped(t)));
        } else {
            assert(e[0] == s[0]);
            assert(unescaped(e) =~= seq![s[0]] + unescaped(escaped(t)));
        }
        if forall|i: int| 0 <= i < s.len() ==> s[i] != '\r' {
            assert forall|i: int| 0 <= i < t.len() implies t[i] != '\r' by {
                assert(t[i] == s[i + 1]);
            }
            assert(s[0] != '\r');
            assert(unescaped(e) =~= s);
        }
    }
}

// ---------------------------------------------------------------------------
// Folding
// ---------------------------------------------------------------------------

/// How many bytes a content line may have.
pub const LINE_LIMIT: usize = 75;

/// A line that is being folded: the text of the finished pieces, the piece that is being
/// filled, and whether that is the first one.
#[verifier::ext_equal]
pub struct FoldV {
    pub done: Seq<char>,
    pub piece: Seq<char>,
    pub first: bool,
}

/// The fold after one more character: it starts a new piece where it would take the current
/// one over the limit. A continuation's leading space counts.
pub open spec fn fold_char(f: FoldV, c: char) -> FoldV {
    let budget = if f.first {
        LINE_LIMIT as int
    } else {
        LINE_LIMIT - 1
    };
    if byte_len(f.piece) + char_bytes(c) > budget && f.piece.len() > 0 {
        FoldV { done: f.done + f.piece + seq!['\r', '\n', ' '], piece: seq![c], first: false }
    } else {
        FoldV { done: f.done, piece: f.piece.push(c), first: f.first }
    }
}

/// The fold of a line.
pub open spec fn fold_state(s: Seq<char>) -> FoldV
    decreases s.len(),
{
    if s.len() == 0 {
        FoldV { done: Seq::empty(), piece: Seq::empty(), first: true }
    } else {
        fold_char(fold_state(s.drop_last()), s.last())
    }
}

/// A line folded into pieces of at most `LINE_LIMIT` bytes, each but the first behind a line
/// break and a space, with a line break at the end.
pub open spec fn folded(s: Seq<char>) -> Seq<char> {
    fold_state(s).done + fold_state(s).piece + seq!['\r', '\n']
}

/// Folds a content line to the limit of 75 bytes: continuation lines are joined with CRLF
/// and a single leading space, which readers take out again.
pub fn fold_line(line: &str) -> (r: String)
    ensures
        r@ == folded(line@),
{
    let v = chars_of(line);
    let mut done = String::new();
    let mut piece = String::new();
    let mut piece_len: usize = 0;
    let mut first = true;
    let mut i: usize = 0;
    assert(v@.take(0) =~= Seq::empty());
    while i < v.len()
        invariant
            0 <= i <= v@.len(),
            v@ == line@,
            fold_state(v@.take(i as int)) == (FoldV { done: done@, piece: piece@, first }),
            piece_len == byte_len(piece@),
            piece_len == 0 <==> piece@.len() == 0,
            piece_len <= LINE_LIMIT + 4,
        decreases v@.len() - i,
    {
        let c: char = v[i];
        let w: usize = char_width(c);
        let budget: usize = if first {
            LINE_LIMIT
        } else {
            LINE_LIMIT - 1
        };
        proof {
            assert(v@.take(i + 1).drop_last() =~= v@.take(i as int));
            assert(v@.take(i + 1).last() == c);
        }
        let ghost old_done = done@;
        let ghost old_piece = piece@;
        if piece_len + w > budget && piece_len > 0 {
            done.append(piece.as_str());
            done.push('\r');
            done.push('\n');
            done.push(' ');
            assert(done@ =~= old_done + old_piece + seq!['\r', '\n', ' ']);
            piece = String::new();
            piece.push(c);
            assert(piece@ =~= seq![c]);
            assert(piece@.drop_last() =~= Seq::empty());
            reveal_with_fuel(byte_len, 2);
            piece_len = w;
            first = false;
        } else {
            piece.push(c);
            assert(piece@.drop_last() =~= old_piece);
            piece_len = piece_len + w;
        }
        i = i + 1;
    }
    assert(v@.take(i as int) =~= v@);
    done.append(piece.as_str());
    done.push('\r');
    done.push('\n');
    assert(done@ =~= folded(line@));
    done
}

/// `s` with every line break made a line feed.
pub open spec fn unix_breaks(s: Seq<char>) -> Seq<char>
    decreases s.len(),
{
    if s.len() == 0 {
        Seq::empty()
    } else if s[0] == '\r' && s.len() > 1 && s[1] == '\n' {
        seq!['\n'] + unix_breaks(s.skip(2))
    } else {
        seq![
            if s[0] == '\r' {
                '\n'
            } else {
                s[0]
            },
        ] + unix_breaks(s.skip(1))
    }
}

/// A line that continues the one before it.
pub open spec fn continues(l: Seq<char>) -> bool {
    l.len() > 0 && (l[0] == ' ' || l[0] == '\t')
}

/// The lines after one more raw line. Empty lines are dropped.
pub open spec fn unfold_line(lines: Seq<Seq<char>>, raw: Seq<char>) -> Seq<Seq<char>> {
    if continues(raw) && lines.len() > 0 {
        lines.drop_last().push(lines.last() + raw.skip(1))
    } else if raw.len() > 0 {
        lines.push(raw)
    } else {
        lines
    }
}

/// The content lines of raw lines.
pub open spec fn unfold_all(raws: Seq<Seq<char>>) -> Seq<Seq<char>>
    decreases raws.len(),
{
    if raws.len() == 0 {
        Seq::empty()
    } else {
        unfold_line(unfold_all(raws.drop_last()), raws.last())
    }
}

/// The content lines of a text.
pub open spec fn unfolded(s: Seq<char>) -> Seq<Seq<char>> {
    unfold_all(split(unix_breaks(s), '\n'))
}

fn normalize_breaks(s: &str) -> (r: Vec<char>)
    ensures
        r@ == unix_breaks(s@),
{
    let v = chars_of(s);
    let mut out: Vec<char> = Vec::new();
    let mut i: usize = 0;
    assert(v@.skip(0) =~= v@);
    assert(out@ + unix_breaks(v@) =~= unix_breaks(v@));
    while i < v.len()
        invariant
            0 <= i <= v@.len(),
            v@ == s@,
            out@ + unix_breaks(v@.skip(i as int)) == unix_breaks(s@),
        decreases v@.len() - i,
    {
        let ghost before = out@;
        let ghost rest = v@.skip(i as int);
        let c: char = v[i];
        assert(rest[0] == c);
        if c == '\r' && i + 1 < v.len() && v[i + 1] == '\n' {
            assert(rest[1] == '\n');
            out.push('\n');
            assert(rest.skip(2) =~= v@.skip(i + 2));
            assert(before + (seq!['\n'] + unix_breaks(v@.skip(i + 2))) =~= out@ + unix_breaks(
                v@.skip(i + 2),
            ));
            i = i + 2;
        } else {
            assert(i + 1 < v@.len() ==> rest[1] == v@[i + 1]);
            if c == '\r' {
                out.push('\n');
            } else {
                out.push(c);
            }
            assert(rest.skip(1) =~= v@.skip(i + 1));
            assert(before + (seq![out@.last()] + unix_breaks(v@.skip(i + 1))) =~= out@
                + unix_breaks(v@.skip(i + 1)));
            i = i + 1;
        }
    }
    assert(v@.skip(i as int) =~= Seq::empty());
    assert(out@ + Seq::empty() =~= out@);
    out
}

/// Takes line continuations out (a line that starts with a space or a tab continues the one
/// before it), whatever the line breaks.
pub fn unfold(text: &str) -> (r: Vec<String>)
    ensures
        r.deep_view() == unfolded(text@),
{
    let normal = normalize_breaks(text);
    let raws = split_chars(normal.as_slice(), '\n');
    let ghost rv = raws.deep_view();
    let mut lines: Vec<String> = Vec::new();
    let mut i: usize = 0;
    assert(rv.take(0) =~= Seq::empty());
    assert(lines.deep_view() =~= Seq::empty());
    while i < raws.len()
        invariant
            0 <= i <= raws@.len(),
            rv == raws.deep_view(),
            lines.deep_view() == unfold_all(rv.take(i as int)),
        decreases raws@.len() - i,
    {
        let raw = raws[i].as_slice();
        proof {
            assert(rv.take(i + 1).drop_last() =~= rv.take(i as int));
            assert(rv[i as int] =~= raws@[i as int]@);
            assert(rv.take(i + 1).last() == raw@);
        }
        let ghost before = lines.deep_view();
        if raw.len() > 0 && (raw[0] == ' ' || raw[0] == '\t') && lines.len() > 0 {
            let ghost lines_before = lines@;
            let mut last = match lines.pop() {
                Some(l) => l,
                None => String::new(),
            };
            let more = string_of(slice_subrange(raw, 1, raw.len()));
            assert(more@ =~= raw@.skip(1));
            assert(last@ == before.last());
            last.append(more.as_str());
            lines.push(last);
            assert(lines.deep_view() =~= before.drop_last().push(before.last() + raw@.skip(1)));
        } else if raw.len() > 0 {
            let l = string_of(raw);
            lines.push(l);
            assert(lines.deep_view() =~= before.push(raw@));
        }
        i = i + 1;
    }
    assert(rv.take(i as int) =~= rv);
    lines
}

// ---------------------------------------------------------------------------
// Content lines
// ---------------------------------------------------------------------------

/// What `str::to_uppercase` makes of a text that is not ASCII.
pub uninterp spec fn unicode_upper(s: Seq<char>) -> Seq<char>;

/// Every character is ASCII.
pub open spec fn is_ascii(s: Seq<char>) -> bool {
    forall|i: int| 0 <= i < s.len() ==> (#[trigger] s[i] as int) < 128
}

/// `s` in capitals.
pub open spec fn upper(s: Seq<char>) -> Seq<char> {
    if is_ascii(s) {
        s.map_values(|c: char| upper_char(c))
    } else {
        unicode_upper(s)
    }
}

/// `str::to_uppercase`: the text in capitals, by Unicode's rules. In an ASCII text the small
/// letters become capitals and nothing else changes.
#[verifier::external_body]
pub(crate) fn upper_str(s: &str) -> (r: String)
    ensures
        is_ascii(s@) ==> r@ == s@.map_values(|c: char| upper_char(c)),
        !is_ascii(s@) ==> r@ == unicode_upper(s@),
{
    s.to_uppercase()
}

/// What `str::to_lowercase` makes of a text that is not ASCII.
pub uninterp spec fn unicode_lower(s: Seq<char>) -> Seq<char>;

/// `s` in small letters.
pub open spec fn lowered(s: Seq<char>) -> Seq<char> {
    if is_ascii(s) {
        lower(s)
    } else {
        unicode_lower(s)
    }
}

/// `str::to_lowercase`: the text in small letters, by Unicode's rules. In an ASCII text the
/// capitals become small letters and nothing else changes.
#[verifier::external_body]
pub(crate) fn lowercase_str(s: &str) -> (r: String)
    ensures
        is_ascii(s@) ==> r@ == lower(s@),
        !is_ascii(s@) ==> r@ == unicode_lower(s@),
{
    s.to_lowercase()
}

/// Where the first colon outside quotes stands.
pub open spec fn value_colon(s: Seq<char>, quoted: bool) -> Option<int>
    decreases s.len(),
{
    if s.len() == 0 {
        None
    } else if s[0] == ':' && !quoted {
        Some(0)
    } else {
        match value_colon(
            s.skip(1),
            if s[0] == '"' {
                !quoted
            } else {
                quoted
            },
        ) {
            Some(i) => Some(i + 1),
            None => None,
        }
    }
}

/// A parameter's name in capitals, and its value without the quotes around it.
pub open spec fn param_of(p: Seq<char>) -> (Seq<char>, Seq<char>) {
    let i = first_index(p, '=');
    if i < p.len() {
        (upper(p.take(i)), strip_both(p.skip(i + 1), '"'))
    } else {
        (upper(p), Seq::empty())
    }
}

/// The name in capitals, the parameters and the value of a content line, where it has a
/// colon.
pub open spec fn line_parts(line: Seq<char>) -> Option<(Seq<char>, ParamsV, Seq<char>)> {
    match value_colon(line, false) {
        Some(i) => {
            let head = split(line.take(i), ';');
            Some(
                (
                    upper(head[0]),
                    Seq::new((head.len() - 1) as nat, |j: int| param_of(head[j + 1])),
                    line.skip(i + 1),
                ),
            )
        },
        None => None,
    }
}

fn find_value_colon(s: &[char]) -> (r: Option<usize>)
    ensures
        match r {
            Some(i) => value_colon(s@, false) == Some(i as int) && i < s@.len(),
            None => value_colon(s@, false) is None,
        },
{
    let mut quoted = false;
    let mut i: usize = 0;
    assert(s@.skip(0) =~= s@);
    while i < s.len()
        invariant
            0 <= i <= s@.len(),
            match value_colon(s@.skip(i as int), quoted) {
                Some(k) => value_colon(s@, false) == Some(i + k),
                None => value_colon(s@, false) is None,
            },
        decreases s@.len() - i,
    {
        let ghost rest = s@.skip(i as int);
        let c: char = s[i];
        assert(rest[0] == c);
        assert(rest.skip(1) =~= s@.skip(i + 1));
        if c == '"' {
            quoted = !quoted;
        } else if c == ':' && !quoted {
            return Some(i);
        }
        i = i + 1;
    }
    assert(s@.skip(i as int) =~= Seq::empty());
    None
}

fn parse_param(p: &[char]) -> (r: (String, String))
    ensures
        r.deep_view() == param_of(p@),
{
    let i: usize = index_of(p, '=');
    if i < p.len() {
        let k = string_of(slice_subrange(p, 0, i));
        assert(k@ =~= p@.take(i as int));
        let raw = slice_subrange(p, i + 1, p.len());
        assert(raw@ =~= p@.skip(i + 1));
        (upper_str(k.as_str()), string_of(strip_slice(raw, '"')))
    } else {
        let k = string_of(p);
        let v = String::new();
        assert(v@ =~= Seq::empty());
        (upper_str(k.as_str()), v)
    }
}

/// Takes a content line apart into name, parameters and value, so that
/// `DTSTART;VALUE=DATE:20260101` gives `DTSTART`, `VALUE` with `DATE`, and `20260101`.
pub fn parse_line(line: &str) -> (r: Option<(String, Params, String)>)
    ensures
        r.deep_view() == line_parts(line@),
{
    let v = chars_of(line);
    let all = v.as_slice();
    let n: usize = all.len();
    let i: usize = match find_value_colon(all) {
        Some(i) => i,
        None => {
            return None;
        },
    };
    let head = slice_subrange(all, 0, i);
    assert(head@ =~= line@.take(i as int));
    let parts = split_chars(head, ';');
    let ghost pv = parts.deep_view();
    let name_raw = string_of(parts[0].as_slice());
    assert(pv[0] =~= parts@[0]@);
    let name = upper_str(name_raw.as_str());
    let mut params: Params = Vec::new();
    let mut j: usize = 1;
    while j < parts.len()
        invariant
            1 <= j <= parts@.len(),
            pv == parts.deep_view(),
            params@.len() == j - 1,
            params.deep_view() =~= Seq::new((j - 1) as nat, |k: int| param_of(pv[k + 1])),
        decreases parts@.len() - j,
    {
        let ghost before = params.deep_view();
        let p = parse_param(parts[j].as_slice());
        assert(pv[j as int] =~= parts@[j as int]@);
        params.push(p);
        assert(params.deep_view() =~= before.push(param_of(pv[j as int])));
        j = j + 1;
    }
    let value = string_of(slice_subrange(all, i + 1, n));
    assert(value@ =~= line@.skip(i + 1));
    let r = Some((name, params, value));
    assert(params.deep_view() =~= Seq::new((pv.len() - 1) as nat, |k: int| param_of(pv[k + 1])));
    r
}

// ---------------------------------------------------------------------------
// What is folded unfolds
// ---------------------------------------------------------------------------

/// A text without line breaks.
pub open spec fn one_line(s: Seq<char>) -> bool {
    forall|i: int| 0 <= i < s.len() ==> #[trigger] s[i] != '\n' && s[i] != '\r'
}

/// Raw lines, each with CRLF behind it.
pub open spec fn crlf_lines(raws: Seq<Seq<char>>) -> Seq<char>
    decreases raws.len(),
{
    if raws.len() == 0 {
        Seq::empty()
    } else {
        raws[0] + seq!['\r', '\n'] + crlf_lines(raws.skip(1))
    }
}

/// Raw lines, each with a line feed behind it.
spec fn lf_lines(raws: Seq<Seq<char>>) -> Seq<char>
    decreases raws.len(),
{
    if raws.len() == 0 {
        Seq::empty()
    } else {
        raws[0] + seq!['\n'] + lf_lines(raws.skip(1))
    }
}

proof fn breaks_of_line(r: Seq<char>, rest: Seq<char>)
    requires
        one_line(r),
    ensures
        unix_breaks(r + seq!['\r', '\n'] + rest) == r + seq!['\n'] + unix_breaks(rest),
    decreases r.len(),
{
    let all = r + seq!['\r', '\n'] + rest;
    if r.len() == 0 {
        assert(all.skip(2) =~= rest);
        assert(unix_breaks(all) =~= seq!['\n'] + unix_breaks(rest));
        assert(r + seq!['\n'] + unix_breaks(rest) =~= seq!['\n'] + unix_breaks(rest));
    } else {
        let t = r.skip(1);
        assert forall|i: int| 0 <= i < t.len() implies #[trigger] t[i] != '\n' && t[i] != '\r' by {
            assert(t[i] == r[i + 1]);
        }
        breaks_of_line(t, rest);
        assert(r[0] != '\r');
        assert(all[0] == r[0]);
        assert(all.skip(1) =~= t + seq!['\r', '\n'] + rest);
        assert(unix_breaks(all) =~= seq![r[0]] + unix_breaks(all.skip(1)));
        assert(r + seq!['\n'] + unix_breaks(rest) =~= seq![r[0]] + (t + seq!['\n'] + unix_breaks(
            rest,
        )));
    }
}

proof fn breaks_of_lines(raws: Seq<Seq<char>>)
    requires
        forall|i: int| 0 <= i < raws.len() ==> one_line(#[trigger] raws[i]),
    ensures
        unix_breaks(crlf_lines(raws)) == lf_lines(raws),
    decreases raws.len(),
{
    if raws.len() > 0 {
        let t = raws.skip(1);
        assert forall|i: int| 0 <= i < t.len() implies one_line(#[trigger] t[i]) by {
            assert(t[i] == raws[i + 1]);
        }
        breaks_of_lines(t);
        breaks_of_line(raws[0], crlf_lines(t));
    }
}

/// Splitting behind a piece without the separator.
pub proof fn split_piece(a: Seq<char>, rest: Seq<char>, c: char)
    requires
        forall|i: int| 0 <= i < a.len() ==> a[i] != c,
    ensures
        split(a + seq![c] + rest, c) == seq![a] + split(rest, c),
{
    let all = a + seq![c] + rest;
    assert forall|i: int| 0 <= i < a.len() implies all[i] != c by {
        assert(all[i] == a[i]);
    }
    assert(all[a.len() as int] == c);
    first_index_is(all, c, a.len() as int);
    assert(all.take(a.len() as int) =~= a);
    assert(all.skip(a.len() as int + 1) =~= rest);
}

/// A piece without the separator is not split.
pub proof fn split_none(a: Seq<char>, c: char)
    requires
        forall|i: int| 0 <= i < a.len() ==> a[i] != c,
    ensures
        split(a, c) == seq![a],
{
    first_index_is(a, c, a.len() as int);
}

proof fn split_of_lines(raws: Seq<Seq<char>>)
    requires
        forall|i: int| 0 <= i < raws.len() ==> one_line(#[trigger] raws[i]),
    ensures
        split(lf_lines(raws), '\n') == raws.push(Seq::empty()),
    decreases raws.len(),
{
    if raws.len() == 0 {
        split_none(Seq::empty(), '\n');
        assert(lf_lines(raws) =~= Seq::empty());
        assert(seq![Seq::<char>::empty()] =~= raws.push(Seq::empty()));
    } else {
        let t = raws.skip(1);
        assert forall|i: int| 0 <= i < t.len() implies one_line(#[trigger] t[i]) by {
            assert(t[i] == raws[i + 1]);
        }
        split_of_lines(t);
        assert(one_line(raws[0]));
        split_piece(raws[0], lf_lines(t), '\n');
        assert(seq![raws[0]] + t.push(Seq::empty()) =~= raws.push(Seq::empty()));
    }
}

/// Raw lines behind CRLF line breaks are unfolded as they are.
pub proof fn unfold_of_lines(raws: Seq<Seq<char>>)
    requires
        forall|i: int| 0 <= i < raws.len() ==> one_line(#[trigger] raws[i]),
    ensures
        unfolded(crlf_lines(raws)) == unfold_all(raws),
{
    breaks_of_lines(raws);
    split_of_lines(raws);
    assert(raws.push(Seq::empty()).drop_last() =~= raws);
}

proof fn crlf_lines_concat(a: Seq<Seq<char>>, b: Seq<Seq<char>>)
    ensures
        crlf_lines(a + b) == crlf_lines(a) + crlf_lines(b),
    decreases a.len(),
{
    if a.len() == 0 {
        assert(a + b =~= b);
        assert(crlf_lines(a) + crlf_lines(b) =~= crlf_lines(b));
    } else {
        crlf_lines_concat(a.skip(1), b);
        assert((a + b).skip(1) =~= a.skip(1) + b);
        assert(crlf_lines(a + b) =~= crlf_lines(a) + crlf_lines(b));
    }
}

/// The raw lines that a line is folded into, without the last one.
pub open spec fn finished_raws(s: Seq<char>) -> Seq<Seq<char>>
    decreases s.len(),
{
    if s.len() == 0 {
        Seq::empty()
    } else {
        let f = fold_state(s.drop_last());
        if fold_char(f, s.last()).done == f.done {
            finished_raws(s.drop_last())
        } else {
            finished_raws(s.drop_last()).push(raw_of(f))
        }
    }
}

/// The raw line of the piece that is being filled.
pub open spec fn raw_of(f: FoldV) -> Seq<char> {
    if f.first {
        f.piece
    } else {
        seq![' '] + f.piece
    }
}

/// The raw lines that a line is folded into.
pub open spec fn fold_raws(s: Seq<char>) -> Seq<Seq<char>> {
    finished_raws(s).push(raw_of(fold_state(s)))
}

proof fn crlf_lines_push(a: Seq<Seq<char>>, r: Seq<char>)
    ensures
        crlf_lines(a.push(r)) == crlf_lines(a) + r + seq!['\r', '\n'],
{
    crlf_lines_concat(a, seq![r]);
    assert(a.push(r) =~= a + seq![r]);
    assert(crlf_lines(seq![r].skip(1)) =~= Seq::empty());
    assert(crlf_lines(seq![r]) =~= r + seq!['\r', '\n']);
}

proof fn fold_shape(s: Seq<char>)
    requires
        one_line(s),
    ensures
        ({
            let f = fold_state(s);
            let raws = finished_raws(s);
            &&& f.first ==> raws.len() == 0 && f.done == Seq::<char>::empty()
            &&& !f.first ==> raws.len() > 0 && f.done == crlf_lines(raws).push(' ')
            &&& s.len() > 0 ==> f.piece.len() > 0
            &&& one_line(f.piece)
            &&& forall|i: int| 0 <= i < raws.len() ==> one_line(#[trigger] raws[i])
            &&& forall|lines: Seq<Seq<char>>|
                #![trigger unfold_all(lines + raws)]
                s.len() > 0 && (unfold_all(lines).len() == 0 || !continues(s)) ==> unfold_line(
                    unfold_all(lines + raws),
                    raw_of(f),
                ) == unfold_all(lines).push(s)
        }),
    decreases s.len(),
{
    let f = fold_state(s);
    let raws = finished_raws(s);
    if s.len() > 0 {
        let t = s.drop_last();
        let c = s.last();
        assert(s[s.len() - 1] == c);
        assert forall|i: int| 0 <= i < t.len() implies #[trigger] t[i] != '\n' && t[i] != '\r' by {
            assert(t[i] == s[i]);
        }
        fold_shape(t);
        let g = fold_state(t);
        let old_raws = finished_raws(t);
        assert(s =~= t.push(c));
        assert(t.len() > 0 ==> continues(s) == continues(t));
        if f.done == g.done {
            assert(f.piece == g.piece.push(c) && f.first == g.first) by {
                if f.piece != g.piece.push(c) {
                    assert(f.done.len() == g.done.len() + g.piece.len() + 3);
                }
            }
            assert(raw_of(f) =~= raw_of(g).push(c));
            assert forall|lines: Seq<Seq<char>>|
                #![trigger unfold_all(lines + raws)]
                (unfold_all(lines).len() == 0 || !continues(s)) implies unfold_line(
                unfold_all(lines + raws),
                raw_of(f),
            ) == unfold_all(lines).push(s) by {
                let u = unfold_all(lines + raws);
                if t.len() > 0 {
                    assert(unfold_line(unfold_all(lines + old_raws), raw_of(g)) == unfold_all(
                        lines,
                    ).push(t));
                    let a = unfold_line(u, raw_of(g));
                    let b = unfold_line(u, raw_of(f));
                    assert(raw_of(g).len() > 0);
                    assert(raw_of(f)[0] == raw_of(g)[0]);
                    assert(raw_of(f).skip(1) =~= raw_of(g).skip(1).push(c));
                    assert(a.last() == t);
                    assert(b =~= unfold_all(lines).push(s)) by {
                        if continues(raw_of(f)) && u.len() > 0 {
                            assert(u.last() + raw_of(f).skip(1) =~= (u.last() + raw_of(g).skip(
                                1,
                            )).push(c));
                            assert(a =~= u.drop_last().push(u.last() + raw_of(g).skip(1)));
                            assert(a.drop_last() =~= unfold_all(lines));
                            assert(u.drop_last() =~= unfold_all(lines));
                        } else {
                            assert(a == u.push(raw_of(g)));
                            assert(a.drop_last() =~= unfold_all(lines));
                            assert(u =~= unfold_all(lines));
                            assert(raw_of(g) == t);
                        }
                    }
                } else {
                    assert(g.first);
                    assert(lines + raws =~= lines);
                    assert(raw_of(f) =~= s);
                }
            }
        } else {
            let r = raw_of(g);
            assert(raws == old_raws.push(r));
            assert(f.done == g.done + g.piece + seq!['\r', '\n', ' ']);
            crlf_lines_push(old_raws, r);
            assert(f.done =~= crlf_lines(raws).push(' ')) by {
                if g.first {
                    assert(old_raws =~= Seq::empty());
                    assert(crlf_lines(raws) =~= g.piece + seq!['\r', '\n']);
                } else {
                    assert(crlf_lines(raws) =~= g.done + g.piece + seq!['\r', '\n']);
                }
            }
            assert(one_line(r));
            assert forall|lines: Seq<Seq<char>>|
                #![trigger unfold_all(lines + raws)]
                (unfold_all(lines).len() == 0 || !continues(s)) implies unfold_line(
                unfold_all(lines + raws),
                raw_of(f),
            ) == unfold_all(lines).push(s) by {
                assert(t.len() > 0);
                assert(unfold_line(unfold_all(lines + old_raws), r) == unfold_all(lines).push(t));
                assert((lines + raws).drop_last() =~= lines + old_raws);
                assert((lines + raws).last() == r);
                assert(unfold_all(lines + raws) == unfold_all(lines).push(t));
                assert(raw_of(f) =~= seq![' ', c]);
                assert(raw_of(f).skip(1) =~= seq![c]);
                assert(unfold_all(lines).push(t).drop_last() =~= unfold_all(lines));
                assert(t + seq![c] =~= s);
            }
        }
    }
}

/// The text of folded lines.
pub open spec fn document(lines: Seq<Seq<char>>) -> Seq<char> {
    concat_all(Seq::new(lines.len(), |i: int| folded(lines[i])))
}

/// Lines that can be told apart when they are folded: none is empty or holds a line break,
/// and only the first may look like a continuation.
pub open spec fn document_lines(lines: Seq<Seq<char>>) -> bool {
    &&& forall|i: int| 0 <= i < lines.len() ==> (#[trigger] lines[i]).len() > 0 && one_line(lines[i])
    &&& forall|i: int| 1 <= i < lines.len() ==> !continues(#[trigger] lines[i])
}

spec fn document_raws(lines: Seq<Seq<char>>) -> Seq<Seq<char>>
    decreases lines.len(),
{
    if lines.len() == 0 {
        Seq::empty()
    } else {
        document_raws(lines.drop_last()) + fold_raws(lines.last())
    }
}

proof fn document_shape(lines: Seq<Seq<char>>)
    requires
        document_lines(lines),
    ensures
        document(lines) == crlf_lines(document_raws(lines)),
        unfold_all(document_raws(lines)) == lines,
        forall|i: int|
            0 <= i < document_raws(lines).len() ==> one_line(#[trigger] document_raws(lines)[i]),
    decreases lines.len(),
{
    if lines.len() == 0 {
        assert(unfold_all(document_raws(lines)) =~= lines);
        assert(document(lines) =~= Seq::empty());
    } else {
        let before = lines.drop_last();
        let l = lines.last();
        assert(lines[lines.len() - 1] == l);
        assert forall|i: int| 0 <= i < before.len() implies (#[trigger] before[i]).len() > 0
            && one_line(before[i]) by {
            assert(before[i] == lines[i]);
        }
        assert forall|i: int| 1 <= i < before.len() implies !continues(#[trigger] before[i]) by {
            assert(before[i] == lines[i]);
        }
        document_shape(before);
        fold_shape(l);
        let old_raws = document_raws(before);
        let raws = fold_raws(l);
        let f = fold_state(l);
        let fin = finished_raws(l);
        crlf_lines_concat(old_raws, raws);
        crlf_lines_push(fin, raw_of(f));
        assert(folded(l) =~= crlf_lines(raws)) by {
            if f.first {
                assert(fin =~= Seq::empty());
                assert(crlf_lines(fin) =~= Seq::empty());
            }
        }
        let texts = Seq::new(lines.len(), |i: int| folded(lines[i]));
        let before_texts = Seq::new(before.len(), |i: int| folded(before[i]));
        assert(texts.drop_last() =~= before_texts);
        assert(texts.last() == folded(l));
        assert(unfold_all(old_raws) == before);
        assert((old_raws + raws).drop_last() =~= old_raws + fin);
        assert((old_raws + raws).last() == raw_of(f));
        assert(lines =~= before.push(l));
        assert(unfold_line(unfold_all(old_raws + fin), raw_of(f)) == before.push(l));
        assert(one_line(raw_of(f)));
        assert forall|i: int| 0 <= i < document_raws(lines).len() implies one_line(
            #[trigger] document_raws(lines)[i],
        ) by {
            if i < old_raws.len() {
                assert(document_raws(lines)[i] == old_raws[i]);
            } else {
                assert(document_raws(lines)[i] == raws[i - old_raws.len()]);
                if i - old_raws.len() < fin.len() {
                    assert(raws[i - old_raws.len()] == fin[i - old_raws.len()]);
                }
            }
        }
    }
}

/// Unfolding a document of folded lines gives the lines.
pub proof fn unfold_undoes_fold(lines: Seq<Seq<char>>)
    requires
        document_lines(lines),
    ensures
        unfolded(document(lines)) == lines,
{
    document_shape(lines);
    unfold_of_lines(document_raws(lines));
}

/// Unfolding one folded line gives that line.
pub proof fn unfold_undoes_fold_line(line: Seq<char>)
    requires
        line.len() > 0,
        one_line(line),
    ensures
        unfolded(folded(line)) == seq![line],
{
    let lines = seq![line];
    unfold_undoes_fold(lines);
    let texts = Seq::new(lines.len(), |i: int| folded(lines[i]));
    assert(texts.drop_last() =~= Seq::empty());
    assert(concat_all(texts.drop_last()) =~= Seq::empty());
    assert(document(lines) =~= folded(line));
}

proof fn byte_len_concat(a: Seq<char>, b: Seq<char>)
    ensures
        byte_len(a + b) == byte_len(a) + byte_len(b),
    decreases b.len(),
{
    if b.len() == 0 {
        assert(a + b =~= a);
    } else {
        byte_len_concat(a, b.drop_last());
        assert((a + b).drop_last() =~= a + b.drop_last());
    }
}

proof fn pieces_keep_limit(s: Seq<char>)
    ensures
        byte_len(raw_of(fold_state(s))) <= LINE_LIMIT,
        forall|i: int|
            0 <= i < finished_raws(s).len() ==> byte_len(#[trigger] finished_raws(s)[i])
                <= LINE_LIMIT,
    decreases s.len(),
{
    reveal_with_fuel(byte_len, 2);
    if s.len() > 0 {
        let t = s.drop_last();
        pieces_keep_limit(t);
        let g = fold_state(t);
        let f = fold_state(s);
        let c = s.last();
        byte_len_concat(seq![' '], g.piece);
        byte_len_concat(seq![' '], f.piece);
        assert(byte_len(seq![' ']) == 1) by {
            assert(seq![' '].drop_last() =~= Seq::empty());
        }
        if f.piece == g.piece.push(c) {
            assert(g.piece.push(c).drop_last() =~= g.piece);
            if g.piece.len() == 0 {
                assert(g.piece =~= Seq::empty());
            }
        } else {
            assert(f.piece =~= seq![c]);
            assert(seq![c].drop_last() =~= Seq::empty());
        }
        assert forall|i: int| 0 <= i < finished_raws(s).len() implies byte_len(
            #[trigger] finished_raws(s)[i],
        ) <= LINE_LIMIT by {
            if i < finished_raws(t).len() {
                assert(finished_raws(s)[i] == finished_raws(t)[i]);
            } else {
                assert(finished_raws(s)[i] == raw_of(g));
            }
        }
    }
}

/// A folded line is raw lines of at most `LINE_LIMIT` bytes, each with CRLF behind it.
pub proof fn fold_keeps_limit(s: Seq<char>)
    requires
        one_line(s),
    ensures
        folded(s) == crlf_lines(fold_raws(s)),
        forall|i: int|
            0 <= i < fold_raws(s).len() ==> byte_len(#[trigger] fold_raws(s)[i]) <= LINE_LIMIT,
{
    fold_shape(s);
    pieces_keep_limit(s);
    let f = fold_state(s);
    let fin = finished_raws(s);
    crlf_lines_push(fin, raw_of(f));
    assert(folded(s) =~= crlf_lines(fold_raws(s))) by {
        if f.first {
            assert(fin =~= Seq::empty());
            assert(crlf_lines(fin) =~= Seq::empty());
        }
    }
    assert forall|i: int| 0 <= i < fold_raws(s).len() implies byte_len(#[trigger] fold_raws(s)[i])
        <= LINE_LIMIT by {
        if i < fin.len() {
            assert(fold_raws(s)[i] == fin[i]);
        }
    }
}

} // verus!
