//! Preparation of the kernel symbol text at build time: the symbols that
//! `nm -n` lists are filtered down to code and data, and the result is
//! escaped into a Rust string literal for embedding in the kernel.

use vstd::prelude::*;

use crate::text::{chars_of, find_char, find_from, hex_lower, push_char, push_hex, segments_from, split_all};

verus! {

/// The lines of `s`, as `str::lines` yields them: pieces between line
/// breaks, a `\r` before a line break dropped, and no line after a final
/// line break.
pub open spec fn lines_of(s: Seq<char>) -> Seq<Seq<char>> {
    let pieces = split_all(s, '\n');
    let full = pieces.drop_last().map_values(|p: Seq<char>| strip_cr(p));
    if pieces.last().len() == 0 {
        full
    } else {
        full.push(pieces.last())
    }
}

/// `p` without one trailing `\r`.
pub open spec fn strip_cr(p: Seq<char>) -> Seq<char> {
    if p.len() > 0 && p.last() == '\r' {
        p.drop_last()
    } else {
        p
    }
}

/// Whether `nm` reports a symbol of this type letter as text, data, BSS or
/// read-only data.
pub open spec fn kept_type(c: char) -> bool {
    c == 'T' || c == 't' || c == 'D' || c == 'd' || c == 'B' || c == 'b' || c == 'R' || c == 'r'
}

/// Whether an `nm` line names a symbol worth keeping: three space-separated
/// fields, a kept type letter, and a name that is neither a local label
/// (`.L…`) nor a mapping symbol (`$x`, `$d`).
pub open spec fn keep_nm_line(line: Seq<char>) -> bool {
    let i1 = find_from(line, ' ', 0);
    let i2 = find_from(line, ' ', i1 + 1);
    if i1 >= line.len() || i2 >= line.len() {
        false
    } else {
        let ty = line.subrange(i1 + 1, i2);
        let name = line.subrange(i2 + 1, line.len() as int);
        let t = if ty.len() == 0 {
            '?'
        } else {
            ty[0]
        };
        &&& kept_type(t)
        &&& !(name.len() >= 2 && name[0] == '.' && name[1] == 'L')
        &&& name != seq!['$', 'x']
        &&& name != seq!['$', 'd']
    }
}

/// The kept lines of `lines`, each followed by a line break.
pub open spec fn filtered_lines(lines: Seq<Seq<char>>) -> Seq<char>
    decreases lines.len(),
{
    if lines.len() == 0 {
        Seq::empty()
    } else {
        let rest = filtered_lines(lines.drop_last());
        if keep_nm_line(lines.last()) {
            rest + lines.last() + seq!['\n']
        } else {
            rest
        }
    }
}

/// Whether `c` is a control character (Unicode category `Cc`).
pub open spec fn is_control(c: char) -> bool {
    let v = c as u32;
    v <= 0x1f || (0x7f <= v && v <= 0x9f)
}

/// How one character is written inside a Rust string literal.
pub open spec fn escape_char(c: char) -> Seq<char> {
    if c == '\\' {
        seq!['\\', '\\']
    } else if c == '"' {
        seq!['\\', '"']
    } else if c == '\n' {
        seq!['\\', 'n']
    } else if c == '\r' {
        seq!['\\', 'r']
    } else if c == '\t' {
        seq!['\\', 't']
    } else if is_control(c) {
        seq!['\\', 'u', '{'] + hex_lower(c as u32 as nat, 4) + seq!['}']
    } else {
        seq![c]
    }
}

/// The escaped characters of `s`.
pub open spec fn escape_all(s: Seq<char>) -> Seq<char>
    decreases s.len(),
{
    if s.len() == 0 {
        Seq::empty()
    } else {
        escape_all(s.drop_last()) + escape_char(s.last())
    }
}

/// Whether the line `v[from..to]` is one to keep.
fn keep_line(v: &Vec<char>, from: usize, to: usize) -> (b: bool)
    requires
        from <= to <= v.len(),
    ensures
        b == keep_nm_line(v@.subrange(from as int, to as int)),
{
    let ghost line = v@.subrange(from as int, to as int);
    let mut line_chars: Vec<char> = Vec::new();
    let mut k = from;
    while k < to
        invariant
            from <= k <= to <= v.len(),
            line_chars@ == v@.subrange(from as int, k as int),
        decreases to - k,
    {
        line_chars.push(v[k]);
        k = k + 1;
        proof {
            assert(line_chars@ =~= v@.subrange(from as int, k as int));
        }
    }
    assert(line_chars@ == line);
    let n = line_chars.len();
    let i1 = find_char(&line_chars, ' ', 0);
    if i1 == n {
        return false;
    }
    let i2 = find_char(&line_chars, ' ', i1 + 1);
    if i2 == n {
        return false;
    }
    let t = if i1 + 1 == i2 {
        '?'
    } else {
        line_chars[i1 + 1]
    };
    proof {
        if i1 + 1 < i2 {
            assert(line.subrange(i1 + 1, i2 as int)[0] == line[i1 + 1]);
        }
    }
    if !(t == 'T' || t == 't' || t == 'D' || t == 'd' || t == 'B' || t == 'b' || t == 'R' || t
        == 'r') {
        return false;
    }
    let name_len = n - (i2 + 1);
    let ghost name = line.subrange(i2 + 1, n as int);
    proof {
        if name_len >= 2 {
            assert(name[0] == line_chars@[i2 + 1]);
            assert(name[1] == line_chars@[i2 + 2]);
        }
    }
    if name_len >= 2 && line_chars[i2 + 1] == '.' && line_chars[i2 + 2] == 'L' {
        return false;
    }
    if name_len == 2 && line_chars[i2 + 1] == '$' && (line_chars[i2 + 2] == 'x'
        || line_chars[i2 + 2] == 'd') {
        proof {
            if line_chars@[i2 + 2] == 'x' {
                assert(name =~= seq!['$', 'x']);
            } else {
                assert(name =~= seq!['$', 'd']);
            }
        }
        return false;
    }
    proof {
        if name_len == 2 {
            assert(name.len() == 2);
            assert(name[0] == line_chars@[i2 + 1]);
            assert(name[1] == line_chars@[i2 + 2]);
        }
        assert(name != seq!['$', 'x']) by {
            if name == seq!['$', 'x'] {
                assert(name[0] == '$' && name[1] == 'x');
            }
        }
        assert(name != seq!['$', 'd']) by {
            if name == seq!['$', 'd'] {
                assert(name[0] == '$' && name[1] == 'd');
            }
        }
    }
    true
}

/// Appends `v[from..to]` to `out`.
fn push_range(out: &mut String, v: &Vec<char>, from: usize, to: usize)
    requires
        from <= to <= v.len(),
    ensures
        final(out)@ == old(out)@ + v@.subrange(from as int, to as int),
{
    let mut k = from;
    while k < to
        invariant
            from <= k <= to <= v.len(),
            out@ == old(out)@ + v@.subrange(from as int, k as int),
        decreases to - k,
    {
        push_char(out, v[k]);
        k = k + 1;
        proof {
            assert(out@ =~= old(out)@ + v@.subrange(from as int, k as int));
        }
    }
}

/// The `nm -n` lines that describe text, data, BSS or read-only data
/// symbols, without local labels and mapping symbols, each ending in a line
/// break; the symbol text that the kernel embeds.
pub fn filter_nm_output(nm: &str) -> (out: String)
    ensures
        out@ == filtered_lines(lines_of(nm@)),
{
    let chars = chars_of(nm);
    let n = chars.len();
    let mut out = String::new();
    let ghost mut done: Seq<Seq<char>> = Seq::empty();
    let mut pos: usize = 0;
    proof {
        assert(done + segments_from(chars@, '\n', 0) =~= split_all(chars@, '\n'));
    }
    loop
        invariant_except_break
            pos <= n,
            done + segments_from(chars@, '\n', pos as int) == split_all(chars@, '\n'),
        invariant
            n == chars@.len(),
            chars@ == nm@,
            out@ == filtered_lines(done.map_values(|p: Seq<char>| strip_cr(p))),
        ensures
            pos <= n,
            done.push(chars@.subrange(pos as int, n as int)) == split_all(chars@, '\n'),
        decreases n - pos,
    {
        let e = find_char(&chars, '\n', pos);
        proof {
            crate::text::lemma_find_from(chars@, '\n', pos as int);
        }
        if e == n {
            proof {
                assert(segments_from(chars@, '\n', pos as int) == seq![chars@.subrange(
                    pos as int,
                    n as int,
                )]);
                assert(done + seq![chars@.subrange(pos as int, n as int)] =~= done.push(
                    chars@.subrange(pos as int, n as int),
                ));
            }
            break;
        }
        let ghost piece = chars@.subrange(pos as int, e as int);
        let end = if e > pos && chars[e - 1] == '\r' {
            e - 1
        } else {
            e
        };
        proof {
            if e > pos && chars@[e - 1] == '\r' {
                assert(piece.last() == '\r');
                assert(piece.drop_last() =~= chars@.subrange(pos as int, end as int));
            } else {
                assert(piece =~= chars@.subrange(pos as int, end as int));
            }
            assert(strip_cr(piece) == chars@.subrange(pos as int, end as int));
        }
        let keep = keep_line(&chars, pos, end);
        let ghost before = out@;
        if keep {
            push_range(&mut out, &chars, pos, end);
            push_char(&mut out, '\n');
        }
        proof {
            let mapped = done.map_values(|p: Seq<char>| strip_cr(p));
            let mapped2 = done.push(piece).map_values(|p: Seq<char>| strip_cr(p));
            assert(mapped2 =~= mapped.push(strip_cr(piece)));
            assert(mapped2.drop_last() =~= mapped);
            if keep {
                assert(out@ =~= before + strip_cr(piece) + seq!['\n']);
            }
            assert(segments_from(chars@, '\n', pos as int) == seq![piece] + segments_from(
                chars@,
                '\n',
                e + 1,
            ));
            assert(done.push(piece) + segments_from(chars@, '\n', e + 1) =~= done + (seq![piece]
                + segments_from(chars@, '\n', e + 1)));
            done = done.push(piece);
        }
        pos = e + 1;
    }
    proof {
        let pieces = split_all(chars@, '\n');
        let last = chars@.subrange(pos as int, n as int);
        assert(pieces.drop_last() =~= done);
        assert(pieces.last() == last);
        let full = pieces.drop_last().map_values(|p: Seq<char>| strip_cr(p));
        if last.len() > 0 {
            assert(full.push(last).drop_last() =~= full);
            assert(full.push(last).last() == last);
            assert(!keep_nm_line(last) ==> filtered_lines(full.push(last)) == filtered_lines(full));
        }
    }
    if pos < n {
        let keep = keep_line(&chars, pos, n);
        if keep {
            push_range(&mut out, &chars, pos, n);
            push_char(&mut out, '\n');
        }
    }
    out
}

/// Writes `s` as a Rust string literal: quotes around it, backslash escapes
/// for `\`, `"`, line feed, carriage return and tab, and `\u{…}` with four
/// hexadecimal digits for any other control character.
pub fn escaped_rust_string(s: &str) -> (out: String)
    ensures
        out@ == seq!['"'] + escape_all(s@) + seq!['"'],
{
    let cs = chars_of(s);
    let mut out = String::new();
    push_char(&mut out, '"');
    let mut i: usize = 0;
    while i < cs.len()
        invariant
            i <= cs@.len(),
            cs@ == s@,
            out@ == seq!['"'] + escape_all(s@.take(i as int)),
        decreases cs@.len() - i,
    {
        let c = cs[i];
        let ghost before = out@;
        let v = c as u32;
        if c == '\\' {
            push_char(&mut out, '\\');
            push_char(&mut out, '\\');
        } else if c == '"' {
            push_char(&mut out, '\\');
            push_char(&mut out, '"');
        } else if c == '\n' {
            push_char(&mut out, '\\');
            push_char(&mut out, 'n');
        } else if c == '\r' {
            push_char(&mut out, '\\');
            push_char(&mut out, 'r');
        } else if c == '\t' {
            push_char(&mut out, '\\');
            push_char(&mut out, 't');
        } else if v <= 0x1f || (0x7f <= v && v <= 0x9f) {
            push_char(&mut out, '\\');
            push_char(&mut out, 'u');
            push_char(&mut out, '{');
            push_hex(&mut out, v as u64, 4);
            push_char(&mut out, '}');
        } else {
            push_char(&mut out, c);
        }
        proof {
            assert(out@ =~= before + escape_char(c));
            assert(s@.take(i + 1).drop_last() =~= s@.take(i as int));
            assert(s@.take(i + 1).last() == c);
        }
        i = i + 1;
    }
    push_char(&mut out, '"');
    proof {
        assert(s@.take(i as int) =~= s@);
    }
    out
}

} // verus!
