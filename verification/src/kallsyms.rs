//! The kernel symbol table (`kallsyms`): parsing the `nm -n` style text that
//! the build embeds, address and name lookups, and the `/proc/kallsyms`
//! rendering.

use vstd::prelude::*;

use crate::text::{
    all_hex_digits, is_ws, lemma_find_from_at, lemma_segments_free_of_sep, lemma_trim_shape, lemma_hex_lower, lemma_split_append_line, pow16,
    skip_ws_from, trim_end_at,
    chars_of, find_char, find_from, hex_lower, lemma_find_from, parse_hex_range, parse_hex_u64,
    push_char, push_hex, push_str, same_chars, segments_from, skip_whitespace, split_all, string_from_chars,
    trim, trim_end_index, utf8_first_byte, utf8_lead_byte,
};

verus! {

/// A symbol as the specifications see it: address, type byte and name.
pub type SymbolView = (u64, u8, Seq<char>);

/// The symbol that one line of the symbol text describes: after trimming,
/// `<hex address> <type> <name>`, split at the first two spaces. The type
/// byte is the first byte of the type field, or `?` where that field is empty.
pub open spec fn parse_symbol_line(line: Seq<char>) -> Option<SymbolView> {
    let t = trim(line);
    let i1 = find_from(t, ' ', 0);
    let i2 = find_from(t, ' ', i1 + 1);
    if i1 >= t.len() || i2 >= t.len() {
        None
    } else {
        match parse_hex_u64(t.subrange(0, i1)) {
            None => None,
            Some(addr) => {
                let ty = t.subrange(i1 + 1, i2);
                let b: u8 = if ty.len() == 0 {
                    0x3fu8
                } else {
                    utf8_lead_byte(ty[0])
                };
                Some((addr, b, t.subrange(i2 + 1, t.len() as int)))
            },
        }
    }
}

/// The symbols that a sequence of lines describes, in line order.
pub open spec fn parse_symbol_lines(lines: Seq<Seq<char>>) -> Seq<SymbolView>
    decreases lines.len(),
{
    if lines.len() == 0 {
        Seq::empty()
    } else {
        let rest = parse_symbol_lines(lines.drop_last());
        match parse_symbol_line(lines.last()) {
            Some(e) => rest.push(e),
            None => rest,
        }
    }
}

/// The symbols of a symbol text, in the order of its lines.
pub open spec fn parse_symbols(data: Seq<char>) -> Seq<SymbolView> {
    parse_symbol_lines(split_all(data, '\n'))
}

/// Where a symbol at `addr` goes among the first `to` symbols of `s`: after
/// the last one whose address is not above `addr`.
pub open spec fn insert_point(s: Seq<SymbolView>, addr: u64, to: int) -> int
    decreases to,
{
    if to <= 0 {
        0
    } else if s[to - 1].0 <= addr {
        to
    } else {
        insert_point(s, addr, to - 1)
    }
}

/// `s` with `e` placed after every symbol whose address is not above its own.
pub open spec fn insert_by_addr(s: Seq<SymbolView>, e: SymbolView) -> Seq<SymbolView> {
    s.insert(insert_point(s, e.0, s.len() as int), e)
}

/// The stable sort of `s` by address (`sort_by_key(|e| e.addr)`).
pub open spec fn sort_by_addr(s: Seq<SymbolView>) -> Seq<SymbolView>
    decreases s.len(),
{
    if s.len() == 0 {
        s
    } else {
        insert_by_addr(sort_by_addr(s.drop_last()), s.last())
    }
}

/// Addresses never decrease along `s`.
pub open spec fn sorted_by_addr(s: Seq<SymbolView>) -> bool {
    forall|i: int, j: int| 0 <= i <= j < s.len() ==> s[i].0 <= s[j].0
}

/// Symbol `i` of `s` has the greatest address not above `addr`.
pub open spec fn closest_at_or_below(s: Seq<SymbolView>, i: int, addr: u64) -> bool {
    &&& 0 <= i < s.len()
    &&& s[i].0 <= addr
    &&& forall|j: int| 0 <= j < s.len() && s[j].0 <= addr ==> s[j].0 <= s[i].0
}

/// Symbol `i` is the first one of `s` called `name`.
pub open spec fn first_named(s: Seq<SymbolView>, i: int, name: Seq<char>) -> bool {
    &&& 0 <= i < s.len()
    &&& s[i].2 == name
    &&& forall|j: int| 0 <= j < i ==> s[j].2 != name
}

/// One line of the `/proc/kallsyms` rendering: `{:016x} {type} {name}\n`.
pub open spec fn symbol_line(e: SymbolView) -> Seq<char> {
    hex_lower(e.0 as nat, 16) + seq![' ', e.1 as char, ' '] + e.2 + seq!['\n']
}

/// The rendering of all symbols of `s`, one line each.
pub open spec fn format_symbols(s: Seq<SymbolView>) -> Seq<char>
    decreases s.len(),
{
    if s.len() == 0 {
        Seq::empty()
    } else {
        format_symbols(s.drop_last()) + symbol_line(s.last())
    }
}

proof fn lemma_insert_point(s: Seq<SymbolView>, addr: u64, to: int)
    requires
        0 <= to <= s.len(),
    ensures
        0 <= insert_point(s, addr, to) <= to,
        forall|k: int| insert_point(s, addr, to) <= k < to ==> s[k].0 > addr,
        insert_point(s, addr, to) > 0 ==> s[insert_point(s, addr, to) - 1].0 <= addr,
    decreases to,
{
    if to > 0 && s[to - 1].0 > addr {
        lemma_insert_point(s, addr, to - 1);
    }
}

proof fn lemma_insert_keeps_sorted(s: Seq<SymbolView>, e: SymbolView)
    requires
        sorted_by_addr(s),
    ensures
        sorted_by_addr(insert_by_addr(s, e)),
        insert_by_addr(s, e).len() == s.len() + 1,
{
    let p = insert_point(s, e.0, s.len() as int);
    lemma_insert_point(s, e.0, s.len() as int);
    s.insert_ensures(p, e);
    let r = insert_by_addr(s, e);
    assert forall|i: int, j: int| 0 <= i <= j < r.len() implies r[i].0 <= r[j].0 by {
        if i < p {
            assert(r[i] == s[i]);
            assert(s[i].0 <= s[p - 1].0);
        }
        if j > p {
            assert(r[j] == s[j - 1]);
        }
        if i > p {
            assert(r[i] == s[i - 1]);
        }
        if j < p {
            assert(r[j] == s[j]);
        }
    }
}

/// Sorting leaves the symbols ordered by address.
pub proof fn lemma_sort_by_addr_sorted(s: Seq<SymbolView>)
    ensures
        sorted_by_addr(sort_by_addr(s)),
        sort_by_addr(s).len() == s.len(),
    decreases s.len(),
{
    if s.len() > 0 {
        lemma_sort_by_addr_sorted(s.drop_last());
        lemma_insert_keeps_sorted(sort_by_addr(s.drop_last()), s.last());
    }
}

/// Sorting neither loses nor adds a symbol: the result is a permutation.
pub proof fn lemma_sort_by_addr_permutes(s: Seq<SymbolView>)
    ensures
        sort_by_addr(s).to_multiset() == s.to_multiset(),
    decreases s.len(),
{
    broadcast use vstd::seq_lib::group_to_multiset_ensures;
    broadcast use vstd::multiset::group_multiset_axioms;

    if s.len() > 0 {
        let t = sort_by_addr(s.drop_last());
        lemma_sort_by_addr_permutes(s.drop_last());
        lemma_sort_by_addr_sorted(s.drop_last());
        let p = insert_point(t, s.last().0, t.len() as int);
        lemma_insert_point(t, s.last().0, t.len() as int);
        let r = t.insert(p, s.last());
        assert(r.remove(p) =~= t);
        assert(r[p] == s.last());
        assert(r.remove(p).to_multiset() == r.to_multiset().remove(s.last()));
        assert(r.to_multiset().count(s.last()) > 0) by {
            assert(r.contains(s.last()));
        }
        assert(r.to_multiset() =~= t.to_multiset().insert(s.last()));
        assert(s =~= s.drop_last().push(s.last()));
    }
}

/// The text of one rendered line, without its line break.
pub open spec fn symbol_content(e: SymbolView) -> Seq<char> {
    hex_lower(e.0 as nat, 16) + seq![' ', e.1 as char, ' '] + e.2
}

/// The line contents of a rendering, one per symbol.
pub open spec fn symbol_contents(s: Seq<SymbolView>) -> Seq<Seq<char>> {
    s.map_values(|e: SymbolView| symbol_content(e))
}

/// A symbol whose rendered line reads back as the same symbol: an ASCII type
/// byte that is neither a space nor a line break, and a non-empty name
/// without line breaks that does not end in whitespace.
pub open spec fn printable(e: SymbolView) -> bool {
    &&& e.1 < 0x80
    &&& e.1 != 0x20
    &&& e.1 != 0x0a
    &&& e.2.len() > 0
    &&& !is_ws(e.2.last())
    &&& forall|k: int| 0 <= k < e.2.len() ==> e.2[k] != '\n'
}

proof fn lemma_parse_symbol_content(e: SymbolView)
    requires
        printable(e),
    ensures
        parse_symbol_line(symbol_content(e)) == Some(e),
{
    let h = hex_lower(e.0 as nat, 16);
    lemma_hex_lower(e.0 as nat, 16);
    assert(pow16(16) == 0x1_0000_0000_0000_0000) by {
        reveal_with_fuel(pow16, 17);
    }
    let c = e.1 as char;
    let line = symbol_content(e);
    let n = line.len() as int;
    assert(n == 19 + e.2.len());
    assert(line[0] == h[0]);
    assert(!is_ws(line[0]));
    assert(skip_ws_from(line, 0) == 0);
    assert(line[n - 1] == e.2.last());
    assert(trim_end_at(line, n) == n);
    assert(trim(line) =~= line);
    assert forall|k: int| 0 <= k < 16 implies line[k] != ' ' by {
        assert(line[k] == h[k]);
    }
    assert(line[16] == ' ');
    lemma_find_from_at(line, ' ', 0, 16);
    assert(line[17] == c);
    assert(c as u32 == e.1);
    assert(c != ' ');
    assert(line[18] == ' ');
    lemma_find_from_at(line, ' ', 17, 18);
    assert(line.subrange(0, 16) =~= h);
    assert(h[0] != '+');
    assert(all_hex_digits(h));
    assert(parse_hex_u64(h) == Some(e.0));
    assert(line.subrange(17, 18) =~= seq![c]);
    assert(utf8_lead_byte(c) == e.1);
    assert(line.subrange(19, n) =~= e.2);
}

/// A rendering is empty or ends with a line break.
pub proof fn lemma_format_ends_with_newline(s: Seq<SymbolView>)
    ensures
        format_symbols(s).len() == 0 || format_symbols(s).last() == '\n',
{
    if s.len() > 0 {
        let l = symbol_line(s.last());
        assert(l.last() == '\n');
        assert((format_symbols(s.drop_last()) + l).last() == l.last());
    }
}

/// Splitting a rendering at its line breaks gives one piece per symbol and
/// an empty last piece.
pub proof fn lemma_split_format(s: Seq<SymbolView>)
    requires
        forall|i: int| 0 <= i < s.len() ==> printable(#[trigger] s[i]),
    ensures
        split_all(format_symbols(s), '\n') == symbol_contents(s).push(Seq::<char>::empty()),
    decreases s.len(),
{
    if s.len() == 0 {
        let f = format_symbols(s);
        assert(f =~= Seq::<char>::empty());
        lemma_find_from_at(f, '\n', 0, 0);
        assert(split_all(f, '\n') == seq![f.subrange(0, 0)]);
        assert(symbol_contents(s).push(Seq::<char>::empty()) =~= seq![Seq::<char>::empty()]);
        assert(f.subrange(0, 0) =~= Seq::<char>::empty());
    } else {
        let rest = s.drop_last();
        let e = s.last();
        assert(printable(e)) by {
            assert(s[s.len() - 1] == e);
        }
        assert forall|i: int| 0 <= i < rest.len() implies printable(#[trigger] rest[i]) by {
            assert(rest[i] == s[i]);
        }
        lemma_split_format(rest);
        lemma_format_ends_with_newline(rest);
        let f = format_symbols(rest);
        let c = symbol_content(e);
        lemma_hex_lower(e.0 as nat, 16);
        assert forall|k: int| 0 <= k < c.len() implies c[k] != '\n' by {
            if k < 16 {
                assert(c[k] == hex_lower(e.0 as nat, 16)[k]);
            } else if k >= 19 {
                assert(c[k] == e.2[k - 19]);
            }
        }
        lemma_split_append_line(f, c, '\n');
        assert(symbol_line(e) =~= c + seq!['\n']);
        assert(format_symbols(s) == f + symbol_line(e));
        assert(symbol_contents(s) =~= symbol_contents(rest).push(c));
        assert(symbol_contents(rest).push(Seq::<char>::empty()).drop_last() =~= symbol_contents(
            rest,
        ));
        assert(symbol_contents(rest) + seq![c, Seq::<char>::empty()] =~= symbol_contents(
            rest,
        ).push(c).push(Seq::<char>::empty()));
    }
}

/// The contents of a rendering parse back to the symbols.
pub proof fn lemma_parse_contents(s: Seq<SymbolView>)
    requires
        forall|i: int| 0 <= i < s.len() ==> printable(#[trigger] s[i]),
    ensures
        parse_symbol_lines(symbol_contents(s)) == s,
    decreases s.len(),
{
    if s.len() > 0 {
        let rest = s.drop_last();
        assert forall|i: int| 0 <= i < rest.len() implies printable(#[trigger] rest[i]) by {
            assert(rest[i] == s[i]);
        }
        lemma_parse_contents(rest);
        assert(printable(s.last())) by {
            assert(s[s.len() - 1] == s.last());
        }
        lemma_parse_symbol_content(s.last());
        assert(symbol_contents(s).drop_last() =~= symbol_contents(rest));
        assert(symbol_contents(s).last() == symbol_content(s.last()));
        assert(rest.push(s.last()) =~= s);
    }
}

/// Sorting a sequence that is already ordered by address leaves it as it is.
pub proof fn lemma_sort_sorted_is_identity(s: Seq<SymbolView>)
    requires
        sorted_by_addr(s),
    ensures
        sort_by_addr(s) == s,
    decreases s.len(),
{
    if s.len() > 0 {
        let rest = s.drop_last();
        assert(sorted_by_addr(rest));
        lemma_sort_sorted_is_identity(rest);
        let n = rest.len() as int;
        if n > 0 {
            assert(rest[n - 1].0 <= s.last().0) by {
                assert(rest[n - 1] == s[n - 1]);
                assert(s[n - 1].0 <= s[n].0);
            }
        }
        assert(insert_point(rest, s.last().0, n) == n);
        assert(rest.insert(n, s.last()) =~= s);
    }
}

/// The `/proc/kallsyms` rendering of a table reads back as the same table,
/// when every symbol is printable: the type byte is ASCII and neither a
/// space nor a line break, and the name is non-empty, holds no line break
/// and does not end in whitespace.
pub proof fn lemma_format_parse_round_trip(s: Seq<SymbolView>)
    requires
        sorted_by_addr(s),
        forall|i: int| 0 <= i < s.len() ==> printable(#[trigger] s[i]),
    ensures
        sort_by_addr(parse_symbols(format_symbols(s))) == s,
{
    lemma_split_format(s);
    let contents = symbol_contents(s);
    assert(parse_symbol_lines(contents.push(Seq::<char>::empty())) == parse_symbol_lines(
        contents,
    )) by {
        assert(contents.push(Seq::<char>::empty()).drop_last() =~= contents);
        assert(trim(Seq::<char>::empty()) =~= Seq::<char>::empty());
    }
    lemma_parse_contents(s);
    lemma_sort_sorted_is_identity(s);
}

proof fn lemma_lead_byte_ascii(c: char)
    requires
        utf8_lead_byte(c) < 0x80,
    ensures
        (c as u32) < 0x80,
        utf8_lead_byte(c) == c as u32,
{
    let v = c as u32;
    if v >= 0x80 {
        if v < 0x800 {
            assert(v / 64 < 32);
            assert(((0xc0 + v / 64) as u8) == 0xc0 + v / 64);
        } else if v < 0x10000 {
            assert(v / 4096 < 16);
            assert(((0xe0 + v / 4096) as u8) == 0xe0 + v / 4096);
        } else {
            assert(v <= 0x10ffff);
            assert(v / 262144 <= 4);
            assert(((0xf0 + v / 262144) as u8) == 0xf0 + v / 262144);
        }
    }
}

/// A symbol read from a line without line breaks, with an ASCII type
/// byte, is printable: its type byte is neither a space nor a line break,
/// and its name is a non-empty rest of the trimmed line.
proof fn lemma_parsed_line_printable(line: Seq<char>)
    requires
        forall|j: int| 0 <= j < line.len() ==> line[j] != '\n',
        parse_symbol_line(line) matches Some(e) && e.1 < 0x80,
    ensures
        printable(parse_symbol_line(line)->0),
{
    let t = trim(line);
    lemma_trim_shape(line);
    lemma_find_from(t, ' ', 0);
    let i1 = find_from(t, ' ', 0);
    lemma_find_from(t, ' ', i1 + 1);
    let i2 = find_from(t, ' ', i1 + 1);
    let e = parse_symbol_line(line)->0;
    let ty = t.subrange(i1 + 1, i2);
    assert forall|j: int| 0 <= j < t.len() implies t[j] != '\n' by {
        let k = choose|k: int| 0 <= k < line.len() && t[j] == line[k];
    }
    if ty.len() > 0 {
        let c = ty[0];
        assert(c == t[i1 + 1]);
        assert(c != ' ');
        assert(c != '\n');
        assert(utf8_lead_byte(c) == e.1);
        lemma_lead_byte_ascii(c);
        vstd::utf8::char_u32_cast(c, c as u32);
        vstd::utf8::char_u32_cast(' ', ' ' as u32);
        vstd::utf8::char_u32_cast('\n', '\n' as u32);
        assert((c as u32) != (' ' as u32) && (c as u32) != ('\n' as u32));
        assert((' ' as u32) == 0x20 && ('\n' as u32) == 0x0a);
    } else {
        assert(e.1 == 0x3f);
    }
    assert(e.1 != 0x20 && e.1 != 0x0a);
    assert(t.len() > 0);
    assert(t[i2] == ' ');
    assert(is_ws(t[i2]));
    assert(i2 != t.len() - 1);
    let name = t.subrange(i2 + 1, t.len() as int);
    assert(e.2 == name);
    assert(name.last() == t.last());
    assert forall|k: int| 0 <= k < name.len() implies name[k] != '\n' by {
        assert(name[k] == t[i2 + 1 + k]);
    }
    assert(name.len() > 0);
    assert(!is_ws(name.last()));
}

proof fn lemma_parsed_lines_printable(lines: Seq<Seq<char>>)
    requires
        forall|k: int, j: int|
            0 <= k < lines.len() && 0 <= j < lines[k].len() ==> #[trigger] lines[k][j] != '\n',
    ensures
        forall|i: int|
            0 <= i < parse_symbol_lines(lines).len() && #[trigger] parse_symbol_lines(lines)[i].1
                < 0x80 ==> printable(parse_symbol_lines(lines)[i]),
    decreases lines.len(),
{
    if lines.len() > 0 {
        let init = lines.drop_last();
        assert forall|k: int, j: int|
            0 <= k < init.len() && 0 <= j < init[k].len() implies #[trigger] init[k][j] != '\n' by {
            assert(init[k] == lines[k]);
        }
        lemma_parsed_lines_printable(init);
        let rest = parse_symbol_lines(init);
        let last = lines.last();
        match parse_symbol_line(last) {
            Some(e) => {
                let ps = parse_symbol_lines(lines);
                assert(ps == rest.push(e));
                assert forall|i: int| 0 <= i < ps.len() && #[trigger] ps[i].1 < 0x80 implies printable(
                    ps[i],
                ) by {
                    if i == rest.len() {
                        assert forall|j: int| 0 <= j < last.len() implies last[j] != '\n' by {
                            assert(lines[lines.len() - 1][j] != '\n');
                        }
                        lemma_parsed_line_printable(last);
                    } else {
                        assert(ps[i] == rest[i]);
                    }
                }
            },
            None => {},
        }
    }
}

/// Every symbol read from a symbol text with an ASCII type byte is
/// printable, so its rendered line reads back as the same symbol.
pub proof fn lemma_parsed_symbols_printable(data: Seq<char>)
    ensures
        forall|i: int|
            0 <= i < parse_symbols(data).len() && #[trigger] parse_symbols(data)[i].1 < 0x80
                ==> printable(parse_symbols(data)[i]),
{
    lemma_segments_free_of_sep(data, '\n', 0);
    lemma_parsed_lines_printable(split_all(data, '\n'));
}

/// The `/proc/kallsyms` rendering of a table built from a symbol text reads
/// back as the same table, whenever every type byte of the table is ASCII.
pub proof fn lemma_parsed_table_round_trip(data: Seq<char>)
    requires
        forall|i: int|
            0 <= i < sort_by_addr(parse_symbols(data)).len() ==> #[trigger] sort_by_addr(
                parse_symbols(data),
            )[i].1 < 0x80,
    ensures
        sort_by_addr(parse_symbols(format_symbols(sort_by_addr(parse_symbols(data)))))
            == sort_by_addr(parse_symbols(data)),
{
    broadcast use vstd::seq_lib::group_to_multiset_ensures;

    let p = parse_symbols(data);
    let s = sort_by_addr(p);
    lemma_sort_by_addr_sorted(p);
    lemma_sort_by_addr_permutes(p);
    lemma_parsed_symbols_printable(data);
    assert forall|i: int| 0 <= i < s.len() implies printable(#[trigger] s[i]) by {
        assert(s[i].1 < 0x80);
        assert(s.contains(s[i]));
        assert(s.to_multiset().count(s[i]) > 0);
        assert(p.to_multiset().count(s[i]) > 0);
        assert(p.contains(s[i]));
        let j = choose|j: int| 0 <= j < p.len() && p[j] == s[i];
        assert(p[j].1 < 0x80);
    }
    lemma_format_parse_round_trip(s);
}

/// Looking up the address of a symbol finds a symbol at exactly that
/// address, at offset 0.
pub proof fn lemma_exact_address_offset_zero(s: Seq<SymbolView>, i: int, k: int, addr: u64)
    requires
        closest_at_or_below(s, i, addr),
        0 <= k < s.len(),
        s[k].0 == addr,
    ensures
        s[i].0 == addr,
        addr - s[i].0 == 0,
{
}

/// One entry of the symbol table.
pub struct KallsymEntry {
    pub addr: u64,
    pub sym_type: u8,
    pub name: String,
}

impl View for KallsymEntry {
    type V = SymbolView;

    open spec fn view(&self) -> SymbolView {
        (self.addr, self.sym_type, self.name@)
    }
}

/// The views of a sequence of entries.
pub open spec fn entries_view(v: Seq<KallsymEntry>) -> Seq<SymbolView> {
    v.map_values(|e: KallsymEntry| e@)
}

/// The kernel symbol table, ordered by address.
pub struct KallsymsTable {
    symbols: Vec<KallsymEntry>,
}

/// A copy of `v[from..to]`.
fn copy_chars(v: &Vec<char>, from: usize, to: usize) -> (r: Vec<char>)
    requires
        from <= to <= v.len(),
    ensures
        r@ == v@.subrange(from as int, to as int),
{
    let mut r: Vec<char> = Vec::new();
    let mut i = from;
    while i < to
        invariant
            from <= i <= to <= v.len(),
            r@ == v@.subrange(from as int, i as int),
        decreases to - i,
    {
        r.push(v[i]);
        i = i + 1;
        proof {
            assert(r@ =~= v@.subrange(from as int, i as int));
        }
    }
    r
}

/// Parses the symbol line `v[from..to]`.
fn parse_line_range(v: &Vec<char>, from: usize, to: usize) -> (r: Option<KallsymEntry>)
    requires
        from <= to <= v.len(),
    ensures
        match r {
            Some(e) => parse_symbol_line(v@.subrange(from as int, to as int)) == Some(e@),
            None => parse_symbol_line(v@.subrange(from as int, to as int)) is None,
        },
{
    let line = copy_chars(v, from, to);
    let a = skip_whitespace(&line, 0);
    let b = trim_end_index(&line, line.len());
    if a >= b {
        proof {
            assert(trim(line@).len() == 0);
        }
        return None;
    }
    let t = copy_chars(&line, a, b);
    assert(t@ == trim(line@));
    let i1 = find_char(&t, ' ', 0);
    if i1 == t.len() {
        return None;
    }
    let i2 = find_char(&t, ' ', i1 + 1);
    if i2 == t.len() {
        return None;
    }
    let addr = match parse_hex_range(&t, 0, i1) {
        Some(a) => a,
        None => {
            return None;
        },
    };
    let sym_type = if i1 + 1 == i2 {
        0x3fu8
    } else {
        utf8_first_byte(t[i1 + 1])
    };
    proof {
        if i1 + 1 < i2 {
            assert(t@.subrange(i1 + 1, i2 as int)[0] == t@[i1 + 1]);
        }
    }
    let name = string_from_chars(&t, i2 + 1, t.len());
    Some(KallsymEntry { addr, sym_type, name })
}

impl KallsymsTable {
    /// The symbols of the table, in address order.
    pub closed spec fn view(&self) -> Seq<SymbolView> {
        entries_view(self.symbols@)
    }

    #[verifier::type_invariant]
    closed spec fn inv(&self) -> bool {
        sorted_by_addr(self@)
    }

    /// The number of symbols in the table.
    pub fn len(&self) -> (n: usize)
        ensures
            n == self@.len(),
    {
        self.symbols.len()
    }

    /// Where a symbol at `addr` goes in the sorted vector `v`.
    fn insertion_point(v: &Vec<KallsymEntry>, addr: u64) -> (p: usize)
        ensures
            p as int == insert_point(entries_view(v@), addr, v.len() as int),
    {
        let ghost s = entries_view(v@);
        let mut j = v.len();
        while j > 0 && v[j - 1].addr > addr
            invariant
                j <= v.len(),
                s == entries_view(v@),
                insert_point(s, addr, j as int) == insert_point(s, addr, v.len() as int),
            decreases j,
        {
            assert(s[j - 1].0 == v@[j - 1].addr);
            j = j - 1;
        }
        proof {
            if j > 0 {
                assert(s[j - 1].0 == v@[j - 1].addr);
            }
        }
        j
    }

    /// Builds the table from the symbol text: one symbol per line that holds
    /// a hexadecimal address, a type and a name; other lines are skipped; the
    /// symbols are then sorted by address, keeping the order of equal ones.
    pub fn from_kallsyms_str(data: &str) -> (table: Self)
        ensures
            table@ == sort_by_addr(parse_symbols(data@)),
            sorted_by_addr(table@),
    {
        let chars = chars_of(data);
        let mut sorted: Vec<KallsymEntry> = Vec::new();
        let ghost mut done: Seq<Seq<char>> = Seq::empty();
        let mut pos: usize = 0;
        proof {
            assert(done + segments_from(chars@, '\n', 0) =~= split_all(chars@, '\n'));
        }
        loop
            invariant_except_break
                pos <= chars.len(),
                done + segments_from(chars@, '\n', pos as int) == split_all(chars@, '\n'),
            invariant
                chars@ == data@,
                entries_view(sorted@) == sort_by_addr(parse_symbol_lines(done)),
            ensures
                done == split_all(chars@, '\n'),
            decreases chars.len() - pos,
        {
            let e = find_char(&chars, '\n', pos);
            let ghost line = chars@.subrange(pos as int, e as int);
            proof {
                lemma_find_from(chars@, '\n', pos as int);
                let rest = segments_from(chars@, '\n', pos as int);
                if e < chars.len() {
                    assert(rest == seq![line] + segments_from(chars@, '\n', e + 1));
                } else {
                    assert(rest == seq![line]);
                }
                assert(done.push(line).drop_last() =~= done);
            }
            let parsed = parse_line_range(&chars, pos, e);
            match parsed {
                Some(entry) => {
                    let ghost before = entries_view(sorted@);
                    proof {
                        lemma_sort_by_addr_sorted(parse_symbol_lines(done));
                    }
                    let p = Self::insertion_point(&sorted, entry.addr);
                    let ghost ev = entry@;
                    proof {
                        lemma_insert_point(before, ev.0, before.len() as int);
                    }
                    sorted.insert(p, entry);
                    proof {
                        assert(entries_view(sorted@) =~= before.insert(p as int, ev));
                        let ps = parse_symbol_lines(done);
                        assert(parse_symbol_lines(done.push(line)) == ps.push(ev));
                        assert(ps.push(ev).drop_last() =~= ps);
                    }
                },
                None => {
                    assert(parse_symbol_lines(done.push(line)) == parse_symbol_lines(done));
                },
            }
            proof {
                done = done.push(line);
            }
            if e == chars.len() {
                proof {
                    let old_done = done.drop_last();
                    assert(old_done + seq![line] =~= done);
                }
                break;
            }
            pos = e + 1;
            proof {
                assert(done + segments_from(chars@, '\n', pos as int) =~= done.drop_last() + (
                seq![line] + segments_from(chars@, '\n', pos as int)));
            }
        }
        proof {
            lemma_sort_by_addr_sorted(parse_symbol_lines(done));
        }
        KallsymsTable { symbols: sorted }
    }

    /// The symbol that covers `addr`: one with the greatest address not above
    /// `addr`, and the offset of `addr` from it; `None` when every symbol lies
    /// above `addr`.
    pub fn lookup_address(&self, addr: u64) -> (r: Option<(&str, u64)>)
        ensures
            match r {
                None => forall|i: int| 0 <= i < self@.len() ==> self@[i].0 > addr,
                Some(found) => exists|i: int|
                    closest_at_or_below(self@, i, addr) && found.0@ == self@[i].2 && found.1 == addr
                        - self@[i].0,
            },
    {
        proof {
            use_type_invariant(self);
        }
        let ghost s = self@;
        let mut lo: usize = 0;
        let mut hi: usize = self.symbols.len();
        while lo < hi
            invariant
                s == self@,
                sorted_by_addr(s),
                0 <= lo <= hi <= s.len(),
                s.len() == self.symbols@.len(),
                forall|i: int| 0 <= i < lo ==> s[i].0 <= addr,
                forall|i: int| hi <= i < s.len() ==> s[i].0 > addr,
            decreases hi - lo,
        {
            let mid = lo + (hi - lo) / 2;
            assert(s[mid as int].0 == self.symbols@[mid as int].addr);
            if self.symbols[mid].addr <= addr {
                lo = mid + 1;
            } else {
                hi = mid;
            }
        }
        if lo == 0 {
            return None;
        }
        let i = lo - 1;
        let entry = &self.symbols[i];
        assert(s[i as int] == entry@);
        assert(closest_at_or_below(s, i as int, addr));
        Some((entry.name.as_str(), addr - entry.addr))
    }

    /// The address of the first symbol called `name`, if any.
    pub fn lookup_name(&self, name: &str) -> (r: Option<u64>)
        ensures
            match r {
                Some(a) => exists|i: int| #[trigger] first_named(self@, i, name@) && self@[i].0 == a,
                None => forall|i: int| 0 <= i < self@.len() ==> self@[i].2 != name@,
            },
    {
        let wanted = chars_of(name);
        let ghost s = self@;
        let mut i: usize = 0;
        while i < self.symbols.len()
            invariant
                s == self@,
                s.len() == self.symbols@.len(),
                wanted@ == name@,
                i <= s.len(),
                forall|j: int| 0 <= j < i ==> s[j].2 != name@,
            decreases self.symbols.len() - i,
        {
            let entry = &self.symbols[i];
            assert(s[i as int] == entry@);
            let have = chars_of(entry.name.as_str());
            if same_chars(&have, &wanted) {
                assert(first_named(s, i as int, name@));
                return Some(entry.addr);
            }
            i = i + 1;
        }
        None
    }

    /// The `/proc/kallsyms` text: one `{:016x} {type} {name}` line per symbol.
    pub fn format_all(&self) -> (out: String)
        ensures
            out@ == format_symbols(self@),
    {
        let ghost s = self@;
        let mut buf = String::new();
        let mut i: usize = 0;
        while i < self.symbols.len()
            invariant
                s == self@,
                s.len() == self.symbols@.len(),
                i <= s.len(),
                buf@ == format_symbols(s.take(i as int)),
            decreases self.symbols.len() - i,
        {
            let entry = &self.symbols[i];
            assert(s[i as int] == entry@);
            let ghost before = buf@;
            push_hex(&mut buf, entry.addr, 16);
            push_char(&mut buf, ' ');
            push_char(&mut buf, entry.sym_type as char);
            push_char(&mut buf, ' ');
            push_str(&mut buf, entry.name.as_str());
            push_char(&mut buf, '\n');
            proof {
                assert(s.take(i + 1).drop_last() =~= s.take(i as int));
                assert(s.take(i + 1).last() == s[i as int]);
                assert(buf@ =~= before + symbol_line(s[i as int]));
            }
            i = i + 1;
        }
        proof {
            assert(s.take(i as int) =~= s);
        }
        buf
    }
}

/// The kernel's symbol table service: empty until `kallsyms_init` installs
/// a table, after which lookups answer from it.
pub struct Kallsyms {
    table: Option<KallsymsTable>,
    ready: bool,
}

impl Kallsyms {
    /// The installed table, if any.
    pub closed spec fn table_view(&self) -> Option<Seq<SymbolView>> {
        match self.table {
            Some(t) => Some(t@),
            None => None,
        }
    }

    #[verifier::type_invariant]
    closed spec fn inv(&self) -> bool {
        self.ready == self.table is Some
    }

    /// A service with no table yet.
    pub fn new() -> (k: Self)
        ensures
            k.table_view() is None,
    {
        Kallsyms { table: None, ready: false }
    }
}

/// Installs the symbol table built from `data`; text that is empty or only
/// whitespace leaves the service as it was. A table can be installed once.
pub fn kallsyms_init(kallsyms: &mut Kallsyms, data: &str)
    requires
        trim(data@).len() > 0 ==> old(kallsyms).table_view() is None,
    ensures
        trim(data@).len() == 0 ==> final(kallsyms).table_view() == old(kallsyms).table_view(),
        trim(data@).len() > 0 ==> final(kallsyms).table_view() == Some(
            sort_by_addr(parse_symbols(data@)),
        ),
{
    let cs = chars_of(data);
    let a = skip_whitespace(&cs, 0);
    let b = trim_end_index(&cs, cs.len());
    if a >= b {
        return;
    }
    let table = KallsymsTable::from_kallsyms_str(data);
    *kallsyms = Kallsyms { table: Some(table), ready: true };
}

/// The symbol covering `addr` and the offset into it, once a table is installed.
pub fn kallsyms_lookup_address(kallsyms: &Kallsyms, addr: u64) -> (r: Option<(&str, u64)>)
    ensures
        match kallsyms.table_view() {
            None => r is None,
            Some(s) => match r {
                None => forall|i: int| 0 <= i < s.len() ==> s[i].0 > addr,
                Some(found) => exists|i: int|
                    closest_at_or_below(s, i, addr) && found.0@ == s[i].2 && found.1 == addr
                        - s[i].0,
            },
        },
{
    match &kallsyms.table {
        Some(t) => {
            assert(kallsyms.table_view() == Some(t@));
            t.lookup_address(addr)
        },
        None => None,
    }
}

/// The address of the first symbol called `name`, once a table is installed.
pub fn kallsyms_lookup_name(kallsyms: &Kallsyms, name: &str) -> (r: Option<u64>)
    ensures
        match kallsyms.table_view() {
            None => r is None,
            Some(s) => match r {
                Some(a) => exists|i: int| #[trigger] first_named(s, i, name@) && s[i].0 == a,
                None => forall|i: int| 0 <= i < s.len() ==> s[i].2 != name@,
            },
        },
{
    match &kallsyms.table {
        Some(t) => {
            let r = t.lookup_name(name);
            proof {
                if let Some(a) = r {
                    let i = choose|i: int| #[trigger] first_named(t@, i, name@) && t@[i].0 == a;
                    assert(first_named(kallsyms.table_view()->0, i, name@));
                }
            }
            r
        },
        None => None,
    }
}

/// The `/proc/kallsyms` text, once a table is installed.
pub fn kallsyms_format_all(kallsyms: &Kallsyms) -> (r: Option<String>)
    ensures
        match kallsyms.table_view() {
            None => r is None,
            Some(s) => r is Some && r->0@ == format_symbols(s),
        },
{
    match &kallsyms.table {
        Some(t) => Some(t.format_all()),
        None => None,
    }
}

/// Whether a symbol table has been installed.
pub fn is_kallsyms_ready(kallsyms: &Kallsyms) -> (r: bool)
    ensures
        r == kallsyms.table_view() is Some,
{
    proof {
        use_type_invariant(kallsyms);
    }
    kallsyms.ready
}

} // verus!
