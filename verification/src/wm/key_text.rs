//! Reading key descriptions: splitting text into words and pieces, the table of
//! known key names, and parsing a single key binding such as `"M-S-Return"`.
use vstd::prelude::*;
use vstd::string::StrSliceExecFns;

use crate::wm::bindings::{modifier_mask, modifier_named, KeyCode, ModifierKey};
use crate::Error;

verus! {

/// Whether `c` has the Unicode White_Space property (what `char::is_whitespace` tests).
pub open spec fn is_white_space(c: char) -> bool {
    let n = c as u32;
    ||| 0x9 <= n <= 0xD
    ||| n == 0x20
    ||| n == 0x85
    ||| n == 0xA0
    ||| n == 0x1680
    ||| 0x2000 <= n <= 0x200A
    ||| n == 0x2028
    ||| n == 0x2029
    ||| n == 0x202F
    ||| n == 0x205F
    ||| n == 0x3000
}

/// What separates the pieces of a text.
#[derive(Debug, Clone, Copy, PartialEq, Eq, Structural)]
pub enum Separator {
    /// Any white space character
    WhiteSpace,
    /// This one character
    Char(char),
}

/// Whether `c` is a separator.
pub open spec fn is_separator(c: char, sep: Separator) -> bool {
    match sep {
        Separator::WhiteSpace => is_white_space(c),
        Separator::Char(d) => c == d,
    }
}

/// The pieces of `s` between separators, empty pieces included (what `str::split`
/// gives for a single separator).
pub open spec fn pieces(s: Seq<char>, sep: Separator) -> Seq<Seq<char>>
    decreases s.len(),
{
    if s.len() == 0 {
        seq![Seq::empty()]
    } else {
        let rest = pieces(s.drop_last(), sep);
        if is_separator(s.last(), sep) {
            rest.push(Seq::empty())
        } else {
            rest.update(rest.len() - 1, rest.last().push(s.last()))
        }
    }
}

/// The words of `s`: its non-empty runs of characters between white space (what
/// `str::split_whitespace` gives).
pub open spec fn words(s: Seq<char>) -> Seq<Seq<char>> {
    pieces(s, Separator::WhiteSpace).filter(|w: Seq<char>| w.len() > 0)
}

/// The text of each string slice.
pub open spec fn texts(s: Seq<&str>) -> Seq<Seq<char>> {
    s.map_values(|p: &str| p@)
}

/// There is always at least one piece.
pub proof fn lemma_pieces_not_empty(s: Seq<char>, sep: Separator)
    ensures
        pieces(s, sep).len() >= 1,
    decreases s.len(),
{
    if s.len() > 0 {
        lemma_pieces_not_empty(s.drop_last(), sep);
    }
}

/// Whether `c` has the Unicode White_Space property.
pub fn white_space(c: char) -> (r: bool)
    ensures
        r == is_white_space(c),
{
    let n = c as u32;
    (0x9 <= n && n <= 0xD) || n == 0x20 || n == 0x85 || n == 0xA0 || n == 0x1680 || (0x2000 <= n
        && n <= 0x200A) || n == 0x2028 || n == 0x2029 || n == 0x202F || n == 0x205F || n == 0x3000
}

/// Split `s` at each separator, keeping empty pieces.
pub fn split_by(s: &str, sep: Separator) -> (r: Vec<&str>)
    ensures
        texts(r@) == pieces(s@, sep),
{
    let n = s.unicode_len();
    let mut out: Vec<&str> = Vec::new();
    let mut start: usize = 0;
    let mut i: usize = 0;
    proof {
        assert(s@.take(0) =~= Seq::<char>::empty());
        assert(texts(out@).push(s@.subrange(0, 0)) =~= seq![Seq::<char>::empty()]);
    }
    while i < n
        invariant
            n == s@.len(),
            start <= i <= n,
            texts(out@).push(s@.subrange(start as int, i as int)) == pieces(
                s@.take(i as int),
                sep,
            ),
        decreases n - i,
    {
        let c = s.get_char(i);
        proof {
            assert(s@.take(i + 1).drop_last() == s@.take(i as int));
            assert(s@.take(i + 1).last() == c);
            lemma_pieces_not_empty(s@.take(i as int), sep);
        }
        let at_separator = match sep {
            Separator::WhiteSpace => white_space(c),
            Separator::Char(d) => c == d,
        };
        if at_separator {
            let piece = s.substring_char(start, i);
            let ghost before = out@;
            out.push(piece);
            start = i + 1;
            proof {
                assert(texts(out@) =~= texts(before).push(piece@));
                assert(s@.subrange(start as int, i + 1) =~= Seq::<char>::empty());
            }
        } else {
            proof {
                assert(s@.subrange(start as int, i + 1) =~= s@.subrange(start as int, i as int).push(c));
            }
        }
        i = i + 1;
    }
    let last = s.substring_char(start, n);
    let ghost before = out@;
    out.push(last);
    proof {
        assert(s@.take(n as int) =~= s@);
        assert(texts(out@) =~= texts(before).push(last@));
    }
    out
}

/// The words of `s`, split at white space.
pub fn split_words(s: &str) -> (r: Vec<&str>)
    ensures
        texts(r@) == words(s@),
{
    let ps = split_by(s, Separator::WhiteSpace);
    let mut out: Vec<&str> = Vec::new();
    let ghost all = texts(ps@);
    let mut i: usize = 0;
    while i < ps.len()
        invariant
            i <= ps.len(),
            all == texts(ps@),
            all == pieces(s@, Separator::WhiteSpace),
            texts(out@) == all.take(i as int).filter(|w: Seq<char>| w.len() > 0),
        decreases ps.len() - i,
    {
        let p = ps[i];
        proof {
            reveal(Seq::filter);
            assert(all.take(i + 1).drop_last() == all.take(i as int));
            assert(all.take(i + 1).last() == p@);
        }
        let ghost before = out@;
        if p.unicode_len() > 0 {
            out.push(p);
            proof {
                assert(texts(out@) =~= texts(before).push(p@));
            }
        }
        i = i + 1;
    }
    assert(all.take(ps@.len() as int) == all);
    out
}

/// Whether two strings hold the same text.
pub fn same_text(a: &str, b: &str) -> (r: bool)
    ensures
        r == (a@ == b@),
{
    a.to_owned() == b.to_owned()
}

/// The code that `entries` gives the key `name`: the last entry with that name wins.
pub open spec fn code_of(entries: Seq<(String, u8)>, name: Seq<char>) -> Option<u8>
    decreases entries.len(),
{
    if entries.len() == 0 {
        None
    } else if entries.last().0@ == name {
        Some(entries.last().1)
    } else {
        code_of(entries.drop_last(), name)
    }
}

/// Key names and the X key codes they stand for.
///
/// Entries are kept in the order they were added, and a later entry for a name
/// replaces an earlier one.
#[derive(Debug, Clone)]
pub struct KeyCodeMap {
    /// The names and codes, in the order they were added
    pub entries: Vec<(String, u8)>,
}

impl KeyCodeMap {
    /// A map that knows no key names.
    pub fn new() -> (r: Self)
        ensures
            r.entries@.len() == 0,
    {
        KeyCodeMap { entries: Vec::new() }
    }

    /// Give `name` the code `code`.
    pub fn insert(&mut self, name: String, code: u8)
        ensures
            final(self).entries@ == old(self).entries@.push((name, code)),
    {
        self.entries.push((name, code));
    }

    /// The code of the key called `name`.
    pub fn get(&self, name: &str) -> (r: Option<u8>)
        ensures
            r == code_of(self.entries@, name@),
    {
        let mut i: usize = self.entries.len();
        assert(self.entries@.take(i as int) == self.entries@);
        while i > 0
            invariant
                i <= self.entries.len(),
                code_of(self.entries@, name@) == code_of(self.entries@.take(i as int), name@),
            decreases i,
        {
            proof {
                assert(self.entries@.take(i as int).drop_last() == self.entries@.take(i - 1));
                assert(self.entries@.take(i as int).last() == self.entries@[i - 1]);
            }
            i = i - 1;
            if same_text(self.entries[i].0.as_str(), name) {
                return Some(self.entries[i].1);
            }
        }
        assert(self.entries@.take(0) =~= Seq::<(String, u8)>::empty());
        None
    }
}

/// The modifier mask of a list of modifier names, or the first name that is not a
/// known modifier.
pub open spec fn modifiers_mask(names: Seq<Seq<char>>) -> Result<u16, Seq<char>>
    decreases names.len(),
{
    if names.len() == 0 {
        Ok(0)
    } else {
        match modifiers_mask(names.drop_last()) {
            Err(bad) => Err(bad),
            Ok(acc) => match modifier_named(names.last()) {
                Some(m) => Ok(acc | modifier_mask(m)),
                None => Err(names.last()),
            },
        }
    }
}

/// The modifier key that a one letter name stands for: "C", "A", "S" or "M".
pub fn modifier_from_name(name: &str) -> (r: Result<ModifierKey, Error>)
    ensures
        match modifier_named(name@) {
            Some(m) => r == Ok::<ModifierKey, Error>(m),
            None => r matches Err(Error::UnknownModifier { name: n }) && n@ == name@,
        },
{
    if name.unicode_len() == 1 {
        let c = name.get_char(0);
        proof {
            assert(name@ == seq![c]);
        }
        if c == 'C' {
            return Ok(ModifierKey::Ctrl);
        } else if c == 'A' {
            return Ok(ModifierKey::Alt);
        } else if c == 'S' {
            return Ok(ModifierKey::Shift);
        } else if c == 'M' {
            return Ok(ModifierKey::Meta);
        }
    }
    Err(Error::UnknownModifier { name: name.to_owned() })
}

/// What parsing the key binding `pattern` gives with the key code table `codes`: the
/// last dash-separated piece names the key, and the pieces before it its modifiers.
pub open spec fn binding_parse(pattern: Seq<char>, codes: Seq<(String, u8)>, r: Result<KeyCode, Error>) -> bool {
    let ps = pieces(pattern, Separator::Char('-'));
    match code_of(codes, ps.last()) {
        None => r matches Err(Error::UnknownKeyName { name: n }) && n@ == ps.last(),
        Some(code) => match modifiers_mask(ps.drop_last()) {
            Ok(mask) => r == Ok::<KeyCode, Error>(KeyCode { mask, code }),
            Err(bad) => r matches Err(Error::UnknownModifier { name: n }) && n@ == bad,
        },
    }
}

/// Parse a single key binding such as `"M-S-Return"`: modifiers separated by dashes,
/// then the name of a key that `known_codes` knows.
pub fn parse_binding(pattern: &str, known_codes: &KeyCodeMap) -> (r: Result<KeyCode, Error>)
    ensures
        binding_parse(pattern@, known_codes.entries@, r),
{
    let parts = split_by(pattern, Separator::Char('-'));
    proof {
        lemma_pieces_not_empty(pattern@, Separator::Char('-'));
    }
    let ghost ps = texts(parts@);
    let name = parts[parts.len() - 1];
    assert(ps.last() == name@);
    match known_codes.get(name) {
        None => Err(Error::UnknownKeyName { name: name.to_owned() }),
        Some(code) => {
            let mut mask: u16 = 0;
            let mut i: usize = 0;
            let n_mods = parts.len() - 1;
            assert(ps.drop_last().take(0) =~= Seq::<Seq<char>>::empty());
            while i < n_mods
                invariant
                    n_mods == parts.len() - 1,
                    ps == texts(parts@),
                    ps == pieces(pattern@, Separator::Char('-')),
                    ps.len() >= 1,
                    code_of(known_codes.entries@, ps.last()) == Some(code),
                    i <= n_mods,
                    modifiers_mask(ps.drop_last().take(i as int)) == Ok::<u16, Seq<char>>(mask),
                decreases n_mods - i,
            {
                proof {
                    assert(ps.drop_last().take(i + 1).drop_last() == ps.drop_last().take(i as int));
                    assert(ps.drop_last().take(i + 1).last() == parts@[i as int]@);
                }
                match modifier_from_name(parts[i]) {
                    Ok(m) => {
                        mask = mask | u16::from(m);
                    },
                    Err(e) => {
                        proof {
                            assert(modifier_named(parts@[i as int]@) is None);
                            assert(modifiers_mask(ps.drop_last().take(i + 1)) == Err::<u16, Seq<char>>(
                                parts@[i as int]@,
                            ));
                            lemma_mask_error_stays(ps.drop_last(), i + 1);
                        }
                        return Err(e);
                    },
                }
                i = i + 1;
            }
            assert(ps.drop_last().take(n_mods as int) == ps.drop_last());
            Ok(KeyCode { mask, code })
        },
    }
}

/// Once a prefix of the names holds an unknown modifier, so do the names.
pub proof fn lemma_mask_error_stays(names: Seq<Seq<char>>, n: int)
    requires
        0 <= n <= names.len(),
        modifiers_mask(names.take(n)) is Err,
    ensures
        modifiers_mask(names) == modifiers_mask(names.take(n)),
    decreases names.len() - n,
{
    if n < names.len() {
        assert(names.take(n + 1).drop_last() == names.take(n));
        lemma_mask_error_stays(names, n + 1);
    } else {
        assert(names.take(n) == names);
    }
}

/// Whether `c` is a decimal digit.
pub open spec fn is_digit(c: char) -> bool {
    '0' <= c <= '9'
}

/// The value of a run of decimal digits.
pub open spec fn decimal_value(ds: Seq<char>) -> int
    decreases ds.len(),
{
    if ds.len() == 0 {
        0
    } else {
        decimal_value(ds.drop_last()) * 10 + (ds.last() as int - '0' as int)
    }
}

/// The `u8` that `w` spells (what `str::parse::<u8>` accepts): an optional `+`, then
/// one or more decimal digits, with a value of at most 255.
pub open spec fn parse_u8(w: Seq<char>) -> Option<u8> {
    let ds = digits_part(w);
    if ds.len() > 0 && all_digits(ds) && decimal_value(ds) <= 255 {
        Some(decimal_value(ds) as u8)
    } else {
        None
    }
}

/// A number's text without its leading `+`, if it has one.
pub open spec fn digits_part(w: Seq<char>) -> Seq<char> {
    if w.len() > 0 && w[0] == '+' {
        w.drop_first()
    } else {
        w
    }
}

/// Every character of `ds` is a decimal digit.
pub open spec fn all_digits(ds: Seq<char>) -> bool {
    forall|i: int| 0 <= i < ds.len() ==> is_digit(#[trigger] ds[i])
}

/// The value of decimal digits only grows as digits are added.
proof fn lemma_decimal_grows(ds: Seq<char>, n: int)
    requires
        0 <= n <= ds.len(),
        forall|i: int| 0 <= i < ds.len() ==> is_digit(#[trigger] ds[i]),
    ensures
        decimal_value(ds.take(n)) <= decimal_value(ds),
        0 <= decimal_value(ds.take(n)),
    decreases ds.len() - n,
{
    if n < ds.len() {
        lemma_decimal_grows(ds, n + 1);
        assert(ds.take(n + 1).drop_last() == ds.take(n));
    } else {
        assert(ds.take(n) == ds);
        lemma_decimal_nonnegative(ds);
    }
}

/// The value of decimal digits is never negative.
proof fn lemma_decimal_nonnegative(ds: Seq<char>)
    requires
        forall|i: int| 0 <= i < ds.len() ==> is_digit(#[trigger] ds[i]),
    ensures
        0 <= decimal_value(ds),
    decreases ds.len(),
{
    if ds.len() > 0 {
        lemma_decimal_nonnegative(ds.drop_last());
    }
}

/// Read a `u8` written in decimal; see [parse_u8].
pub fn parse_u8_text(w: &str) -> (r: Option<u8>)
    ensures
        r == parse_u8(w@),
{
    let len = w.unicode_len();
    let mut start: usize = 0;
    if len > 0 && w.get_char(0) == '+' {
        start = 1;
    }
    let ghost ds = digits_part(w@);
    assert(ds == w@.subrange(start as int, len as int));
    if start == len {
        return None;
    }
    let mut value: u32 = 0;
    let mut i: usize = start;
    assert(ds.take(0) =~= Seq::<char>::empty());
    while i < len
        invariant
            start <= i <= len,
            len == w@.len(),
            ds == w@.subrange(start as int, len as int),
            ds == digits_part(w@),
            forall|j: int| 0 <= j < i - start ==> is_digit(#[trigger] ds[j]),
            value == decimal_value(ds.take(i - start)),
            value <= 255,
        decreases len - i,
    {
        let c = w.get_char(i);
        assert(ds[i - start] == c);
        if !('0' <= c && c <= '9') {
            assert(!is_digit(ds[i - start]));
            return None;
        }
        let d = (c as u32) - ('0' as u32);
        proof {
            assert(ds.take(i - start + 1).drop_last() == ds.take(i - start));
            assert(ds.take(i - start + 1).last() == c);
        }
        value = value * 10 + d;
        assert(value == decimal_value(ds.take(i - start + 1)));
        if value > 255 {
            proof {
                assert forall|j: int| 0 <= j < i - start + 1 implies is_digit(#[trigger] ds.take(i - start + 1)[j]) by {
                    if j < i - start {
                        assert(ds.take(i - start + 1)[j] == ds[j]);
                    }
                }
                if all_digits(ds) {
                    lemma_decimal_grows(ds, i - start + 1);
                }
            }
            return None;
        }
        i = i + 1;
    }
    assert(ds.take(len - start) == ds);
    Some(value as u8)
}

/// Piece `i` of the pieces of a text between newlines, as a line: a carriage return
/// that ends it, before the newline, is not part of the line.
pub open spec fn line_at(ps: Seq<Seq<char>>, i: int) -> Seq<char> {
    if i < ps.len() - 1 && ps[i].len() > 0 && ps[i].last() == '\r' {
        ps[i].drop_last()
    } else {
        ps[i]
    }
}

/// The lines of a text (what `str::lines` gives): split at each newline, without the
/// carriage return of a `\r\n` line ending, and without an empty last line.
pub open spec fn text_lines(s: Seq<char>) -> Seq<Seq<char>> {
    let ps = pieces(s, Separator::Char('\n'));
    let ls = Seq::new(ps.len(), |i: int| line_at(ps, i));
    if ps.last().len() == 0 {
        ls.drop_last()
    } else {
        ls
    }
}

/// A line of `xmodmap -pke` output reads `keycode <code> = <names ...>`: its second
/// word is a key code.
pub open spec fn keymap_line_valid(line: Seq<char>) -> bool {
    words(line).len() >= 2 && parse_u8(words(line)[1]) is Some
}

/// Every line of the output names a key code.
pub open spec fn keymap_valid(s: Seq<char>) -> bool {
    forall|i: int| 0 <= i < text_lines(s).len() ==> keymap_line_valid(#[trigger] text_lines(s)[i])
}

/// The key names of a line of `xmodmap -pke` output, each with the line's code.
pub open spec fn line_entries(line: Seq<char>) -> Seq<(Seq<char>, u8)> {
    let w = words(line);
    let code = parse_u8(w[1])->0;
    key_names(w).map_values(|name: Seq<char>| (name, code))
}

/// The words after `keycode <code> =` on a line of `xmodmap -pke` output.
pub open spec fn key_names(w: Seq<Seq<char>>) -> Seq<Seq<char>> {
    if w.len() >= 3 {
        w.skip(3)
    } else {
        Seq::empty()
    }
}

/// The key names of each line, in order.
pub open spec fn keymap_entries(lines: Seq<Seq<char>>) -> Seq<(Seq<char>, u8)>
    decreases lines.len(),
{
    if lines.len() == 0 {
        seq![]
    } else {
        keymap_entries(lines.drop_last()) + line_entries(lines.last())
    }
}

/// The names and codes held in a key code table, as text.
pub open spec fn entry_texts(entries: Seq<(String, u8)>) -> Seq<(Seq<char>, u8)> {
    entries.map_values(|e: (String, u8)| (e.0@, e.1))
}

/// The lines of `text`.
pub fn lines_of(text: &str) -> (r: Vec<&str>)
    ensures
        texts(r@) == text_lines(text@),
{
    let ps = split_by(text, Separator::Char('\n'));
    let ghost pv = texts(ps@);
    proof {
        lemma_pieces_not_empty(text@, Separator::Char('\n'));
    }
    let n = ps.len();
    let keep = if ps[n - 1].unicode_len() == 0 {
        n - 1
    } else {
        n
    };
    let mut out: Vec<&str> = Vec::new();
    let mut i: usize = 0;
    while i < keep
        invariant
            pv == texts(ps@),
            pv == pieces(text@, Separator::Char('\n')),
            n == ps@.len(),
            keep <= n,
            i <= keep,
            out@.len() == i,
            forall|j: int| 0 <= j < i ==> #[trigger] out@[j]@ == line_at(pv, j),
        decreases keep - i,
    {
        let p = ps[i];
        let len = p.unicode_len();
        let line = if i + 1 < n && len > 0 && p.get_char(len - 1) == '\r' {
            let l = p.substring_char(0, len - 1);
            assert(l@ =~= p@.drop_last());
            l
        } else {
            p
        };
        out.push(line);
        i = i + 1;
    }
    proof {
        let ls = Seq::new(pv.len(), |i: int| line_at(pv, i));
        if pv.last().len() == 0 {
            assert(texts(out@) =~= ls.drop_last());
        } else {
            assert(texts(out@) =~= ls);
        }
    }
    out
}

/// Whether `text` is `xmodmap -pke` output that names a key code on every line.
pub fn keymap_output_valid(text: &str) -> (r: bool)
    ensures
        r == keymap_valid(text@),
{
    let lines = lines_of(text);
    let mut i: usize = 0;
    while i < lines.len()
        invariant
            i <= lines.len(),
            texts(lines@) == text_lines(text@),
            forall|j: int| 0 <= j < i ==> keymap_line_valid(#[trigger] text_lines(text@)[j]),
        decreases lines.len() - i,
    {
        let ws = split_words(lines[i]);
        assert(text_lines(text@)[i as int] == lines@[i as int]@);
        if ws.len() < 2 {
            return false;
        }
        assert(words(lines@[i as int]@)[1] == ws@[1]@);
        match parse_u8_text(ws[1]) {
            Some(_) => {},
            None => {
                return false;
            },
        }
        i = i + 1;
    }
    true
}

/// The key code table of `xmodmap -pke` output: each key name of each line with the
/// line's code, in order (a later entry for a name replaces an earlier one).
pub fn keycodes_from_keymap(text: &str) -> (r: KeyCodeMap)
    requires
        keymap_valid(text@),
    ensures
        entry_texts(r.entries@) == keymap_entries(text_lines(text@)),
{
    let lines = lines_of(text);
    let ghost ls = text_lines(text@);
    let mut map = KeyCodeMap::new();
    let mut i: usize = 0;
    assert(ls.take(0) =~= Seq::<Seq<char>>::empty());
    assert(entry_texts(map.entries@) =~= Seq::<(Seq<char>, u8)>::empty());
    while i < lines.len()
        invariant
            i <= lines.len(),
            texts(lines@) == ls,
            keymap_valid(text@),
            ls == text_lines(text@),
            entry_texts(map.entries@) == keymap_entries(ls.take(i as int)),
        decreases lines.len() - i,
    {
        let line = lines[i];
        assert(ls[i as int] == line@);
        assert(keymap_line_valid(ls[i as int]));
        let ws = split_words(line);
        assert(words(line@)[1] == ws@[1]@);
        let code = match parse_u8_text(ws[1]) {
            Some(c) => c,
            None => {
                proof {
                    assert(false);
                }
                0
            },
        };
        let ghost start_entries = entry_texts(map.entries@);
        let mut k: usize = 3;
        let ghost names = key_names(words(line@));
        while k < ws.len()
            invariant
                3 <= k,
                k <= ws.len() || ws.len() < 3,
                ws.len() < 3 ==> k == 3,
                ws.len() >= 3 ==> k - 3 <= names.len(),
                texts(ws@) == words(line@),
                names == key_names(words(line@)),
                entry_texts(map.entries@) == start_entries + names.take(k - 3).map_values(
                    |name: Seq<char>| (name, code),
                ),
            decreases ws.len() - k,
        {
            let ghost before = map.entries@;
            map.insert(ws[k].to_owned(), code);
            proof {
                assert(names[k - 3] == ws@[k as int]@);
                assert(names.take(k - 2) == names.take(k - 3).push(ws@[k as int]@));
                assert(entry_texts(map.entries@) =~= entry_texts(before).push((ws@[k as int]@, code)));
                assert(names.take(k - 2).map_values(|name: Seq<char>| (name, code)) =~= names.take(
                    k - 3,
                ).map_values(|name: Seq<char>| (name, code)).push((ws@[k as int]@, code)));
            }
            k = k + 1;
        }
        proof {
            if ws.len() >= 3 {
                assert(names.take(ws.len() - 3) == names);
            } else {
                assert(names.take(k - 3) =~= names);
            }
            assert(ls.take(i + 1).drop_last() == ls.take(i as int));
            assert(ls.take(i + 1).last() == line@);
            assert(parse_u8(words(line@)[1])->0 == code);
            assert(line_entries(line@) =~= names.map_values(|name: Seq<char>| (name, code)));
        }
        i = i + 1;
    }
    assert(ls.take(lines@.len() as int) == ls);
    map
}

} // verus!
