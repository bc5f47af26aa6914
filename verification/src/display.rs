//! Pure display computations: label and bar rendering for sizes and ages,
//! path splitting, truncation, project-name extraction from manifest files,
//! and the dual progress bar's state.

use vstd::prelude::*;

use crate::analytics::spec_target_name;
use crate::state::App;
use crate::text::{
    chars_to_string, find_chars, push_char, push_repeat, sat_add_usize, spec_contains, spec_find,
    spec_repeat, spec_sat_add_usize, spec_split, spec_starts_with, spec_trim, spec_trim_matches,
    spec_trim_start, spec_u64_digits, split_chars, starts_with_str, str_chars, trim_chars,
    trim_matches_chars, u64_to_string,
};

verus! {

pub const MB: u64 = 1048576;

/// Sizes up to this many bytes count as small.
pub const SIZE_SMALL: u64 = 104857600;

/// Sizes up to this many bytes count as medium; anything larger is large.
pub const SIZE_MEDIUM: u64 = 629145600;

/// Ages below this many days count as recent.
pub const AGE_RECENT: u64 = 30;

/// Ages below this many days count as moderate; anything older is stale.
pub const AGE_MEDIUM: u64 = 90;

/// Shortens `s` to at most `max_len` characters, ending in `...` when it
/// had to cut.
pub open spec fn spec_truncated(s: Seq<char>, max_len: int) -> Seq<char> {
    if s.len() <= max_len {
        s
    } else {
        let keep = if max_len >= 3 {
            max_len - 3
        } else {
            0
        };
        s.take(keep) + "..."@
    }
}

/// Shortens a string to at most `max_len` characters, marking the cut.
pub fn truncate_str(s: &str, max_len: usize) -> (r: String)
    ensures
        r@ == spec_truncated(s@, max_len as int),
{
    let chars = str_chars(s);
    if chars.len() <= max_len {
        return chars_to_string(&chars);
    }
    let keep = if max_len >= 3 {
        max_len - 3
    } else {
        0
    };
    let mut r = String::new();
    let mut i: usize = 0;
    while i < keep
        invariant
            keep <= chars@.len(),
            chars@ == s@,
            i <= keep,
            r@ == s@.subrange(0, i as int),
        decreases keep - i,
    {
        push_char(&mut r, chars[i]);
        i = i + 1;
        proof {
            assert(r@ =~= s@.subrange(0, i as int));
        }
    }
    let r = r.concat("...");
    proof {
        assert(r@ =~= spec_truncated(s@, max_len as int));
    }
    r
}

/// Splits a path into its parent portion (with trailing separator) and its
/// leaf name; a path with an empty leaf is handed back whole.
pub fn split_path(path: &str) -> (r: (String, String))
    ensures
        spec_target_name(path@).len() == 0 ==> r.0@ == path@ && r.1@ == Seq::<char>::empty(),
        spec_target_name(path@).len() > 0 ==> {
            &&& r.0@ == path@.take(path@.len() - spec_target_name(path@).len())
            &&& r.1@ == spec_target_name(path@)
        },
{
    let chars = str_chars(path);
    let parts = split_chars(&chars, '/');
    proof {
        crate::text::lemma_split_nonempty(path@, '/');
        assert(parts.deep_view()[parts@.len() - 1] == parts@[parts@.len() - 1]@);
    }
    let name = &parts[parts.len() - 1];
    if name.len() == 0 {
        let full = chars_to_string(&chars);
        return (full, String::new());
    }
    proof {
        lemma_split_last_is_suffix(path@, '/');
    }
    let cut = chars.len() - name.len();
    let mut parent = String::new();
    let mut i: usize = 0;
    while i < cut
        invariant
            cut <= chars@.len(),
            chars@ == path@,
            i <= cut,
            parent@ == path@.subrange(0, i as int),
        decreases cut - i,
    {
        push_char(&mut parent, chars[i]);
        i = i + 1;
        proof {
            assert(parent@ =~= path@.subrange(0, i as int));
        }
    }
    let target = chars_to_string(name);
    (parent, target)
}

/// The last split component is no longer than the whole.
proof fn lemma_split_last_is_suffix(s: Seq<char>, sep: char)
    ensures
        spec_split(s, sep).last().len() <= s.len(),
    decreases s.len(),
{
    crate::text::lemma_split_nonempty(s, sep);
    if s.len() == 0 {
    } else {
        lemma_split_last_is_suffix(s.drop_first(), sep);
        crate::text::lemma_split_nonempty(s.drop_first(), sep);
        if s[0] == sep {
            assert(spec_split(s, sep).last() == spec_split(s.drop_first(), sep).last());
        } else {
            let rest = spec_split(s.drop_first(), sep);
            if rest.len() == 1 {
                assert(spec_split(s, sep).last() == seq![s[0]] + rest[0]);
            } else {
                assert(spec_split(s, sep).last() == rest.last());
            }
        }
    }
}

/// The size class of a byte count: small, medium or large.
pub fn size_to_label(size: u64) -> (r: &'static str)
    ensures
        size <= SIZE_SMALL ==> r@ == "small"@,
        SIZE_SMALL < size <= SIZE_MEDIUM ==> r@ == "medium"@,
        size > SIZE_MEDIUM ==> r@ == "large"@,
{
    if size <= SIZE_SMALL {
        "small"
    } else if size <= SIZE_MEDIUM {
        "medium"
    } else {
        "large"
    }
}

/// The age class of a last-modified age in days: recent, moderate or stale.
pub fn age_to_label(days: u64) -> (r: &'static str)
    ensures
        days < AGE_RECENT ==> r@ == "recent"@,
        AGE_RECENT <= days < AGE_MEDIUM ==> r@ == "moderate"@,
        days >= AGE_MEDIUM ==> r@ == "stale"@,
{
    if days < AGE_RECENT {
        "recent"
    } else if days < AGE_MEDIUM {
        "moderate"
    } else {
        "stale"
    }
}

/// How many cells of a bar of the given width a size fills, capped at one
/// gibibyte and rounded to the nearest cell.
pub open spec fn spec_bar_filled(size: u64, width: int) -> int {
    let max = 1024 * (MB as int);
    let cap = if size <= max {
        size as int
    } else {
        max
    };
    (cap * width + max / 2) / max
}

/// A proportional size bar: a space, then filled cells, then empty cells.
pub fn size_bar(size: u64, width: usize) -> (r: String)
    ensures
        r@ == seq![' '] + spec_repeat('\u{2588}', spec_bar_filled(size, width as int))
            + spec_repeat('\u{2591}', width - spec_bar_filled(size, width as int)),
{
    let max: u64 = 1024 * MB;
    let cap: u64 = if size <= max {
        size
    } else {
        max
    };
    proof {
        assert((cap as u128) as int * (width as u128) as int + ((max as u128) / 2) as int
            <= u128::MAX) by (nonlinear_arith)
            requires
                cap <= 1073741824u128,
                (width as u128) < 0x10000000000000000u128,
                max == 1073741824u64,
        ;
    }
    let filled_wide = ((cap as u128) * (width as u128) + (max as u128) / 2) / (max as u128);
    proof {
        assert(cap as int * width as int + (max as int) / 2 < (max as int) * (width as int + 1))
            by (nonlinear_arith)
            requires
                cap <= max,
                0 < max,
                width >= 0,
        ;
        assert((cap as int * width as int + (max as int) / 2) / (max as int) <= width as int)
            by (nonlinear_arith)
            requires
                cap as int * width as int + (max as int) / 2 < (max as int) * (width as int + 1),
                0 < max,
        ;
    }
    let filled = filled_wide as usize;
    let empty = width - filled;
    let mut r = String::new();
    push_char(&mut r, ' ');
    proof {
        assert(r@ =~= Seq::<char>::empty().push(' '));
        assert(r@ =~= seq![' ']);
    }
    push_repeat(&mut r, '\u{2588}', filled);
    push_repeat(&mut r, '\u{2591}', empty);
    r
}

/// A human file count: exact below a thousand, tenths of thousands or of
/// millions above, rounded to the nearest tenth.
pub open spec fn spec_file_count_label(count: u64) -> Seq<char> {
    if count >= 1000000 {
        let tenths = (count + 50000) / 100000;
        spec_u64_digits((tenths / 10) as nat) + seq!['.'] + spec_u64_digits((tenths % 10) as nat)
            + "M files"@
    } else if count >= 1000 {
        let tenths = (count + 50) / 100;
        spec_u64_digits((tenths / 10) as nat) + seq!['.'] + spec_u64_digits((tenths % 10) as nat)
            + "K files"@
    } else {
        spec_u64_digits(count as nat) + " files"@
    }
}

/// Formats a file count for display.
pub fn format_file_count(count: u64) -> (r: String)
    ensures
        r@ == spec_file_count_label(count),
{
    if count >= 1000000 {
        proof {
            assert(((count as u128) + 50000) / 100000 <= count as u128) by (nonlinear_arith)
                requires
                    count >= 1000000,
            ;
        }
        let tenths = (((count as u128) + 50000) / 100000) as u64;
        let mut r = u64_to_string(tenths / 10);
        push_char(&mut r, '.');
        let frac = u64_to_string(tenths % 10);
        let r = r.concat(frac.as_str()).concat("M files");
        proof {
            assert(r@ =~= spec_file_count_label(count));
        }
        r
    } else if count >= 1000 {
        proof {
            assert(((count as u128) + 50) / 100 <= count as u128) by (nonlinear_arith)
                requires
                    count >= 1000,
            ;
        }
        let tenths = (((count as u128) + 50) / 100) as u64;
        let mut r = u64_to_string(tenths / 10);
        push_char(&mut r, '.');
        let frac = u64_to_string(tenths % 10);
        let r = r.concat(frac.as_str()).concat("K files");
        proof {
            assert(r@ =~= spec_file_count_label(count));
        }
        r
    } else {
        let r = u64_to_string(count).concat(" files");
        proof {
            assert(r@ =~= spec_file_count_label(count));
        }
        r
    }
}

/// The quoted value of a JSON-like field: the text between the quotes that
/// follow the first `"field"` and its colon, if all of that is present.
pub open spec fn spec_extract_json_field(content: Seq<char>, field: Seq<char>) -> Option<
    Seq<char>,
> {
    let pattern = seq!['"'] + field + seq!['"'];
    match spec_find(content, pattern) {
        None => None,
        Some(idx) => {
            let rest = content.skip(idx + pattern.len());
            match spec_find(rest, seq![':']) {
                None => None,
                Some(colon) => {
                    let after = spec_trim_start(rest.skip(colon + 1));
                    if after.len() > 0 && after[0] == '"' {
                        match spec_find(after.skip(1), seq!['"']) {
                            None => None,
                            Some(end) => Some(after.skip(1).take(end)),
                        }
                    } else {
                        None
                    }
                },
            }
        },
    }
}

/// Pulls a field's quoted value out of JSON-like text, without a parser.
pub fn extract_json_field(content: &str, field: &str) -> (r: Option<String>)
    ensures
        match r {
            Some(v) => spec_extract_json_field(content@, field@) == Some(v@),
            None => spec_extract_json_field(content@, field@) is None,
        },
{
    let cs = str_chars(content);
    let mut pattern: Vec<char> = Vec::new();
    pattern.push('"');
    let fs = str_chars(field);
    let mut i: usize = 0;
    while i < fs.len()
        invariant
            fs@ == field@,
            i <= fs@.len(),
            pattern@ == seq!['"'] + field@.take(i as int),
        decreases fs@.len() - i,
    {
        pattern.push(fs[i]);
        i = i + 1;
        proof {
            assert(pattern@ =~= seq!['"'] + field@.take(i as int));
        }
    }
    pattern.push('"');
    proof {
        assert(field@.take(field@.len() as int) =~= field@);
        assert(pattern@ =~= seq!['"'] + field@ + seq!['"']);
    }
    let idx = match find_chars(&cs, &pattern) {
        Some(idx) => idx,
        None => {
            return None;
        },
    };
    proof {
        lemma_find_in_range(content@, pattern@, idx as int);
        assert(cs@.len() == content@.len());
    }
    let cs_len = cs.len();
    let rest = slice_from(&cs, idx + pattern.len());
    let colon_pat = str_chars(":");
    proof {
        reveal_strlit(":");
        assert(":"@ =~= seq![':']);
    }
    let colon = match find_chars(&rest, &colon_pat) {
        Some(c) => c,
        None => {
            return None;
        },
    };
    proof {
        lemma_find_in_range(rest@, colon_pat@, colon as int);
    }
    let rest_len = rest.len();
    let after_raw = slice_from(&rest, colon + 1);
    let after = trim_start_vec(&after_raw);
    if after.len() > 0 && after[0] == '"' {
        let tail = slice_from(&after, 1);
        let quote_pat = str_chars("\"");
        proof {
            reveal_strlit("\"");
            assert("\""@ =~= seq!['"']);
        }
        match find_chars(&tail, &quote_pat) {
            Some(end) => {
                proof {
                    lemma_find_in_range(tail@, quote_pat@, end as int);
                }
                let value = slice_to(&tail, end);
                Some(chars_to_string(&value))
            },
            None => None,
        }
    } else {
        None
    }
}

/// A found match lies within the sequence.
proof fn lemma_find_in_range(s: Seq<char>, sub: Seq<char>, i: int)
    requires
        spec_find(s, sub) == Some(i),
    ensures
        0 <= i && i + sub.len() <= s.len(),
{
    lemma_first_match_in_range(s, sub, 0, i);
}

proof fn lemma_first_match_in_range(s: Seq<char>, sub: Seq<char>, from: int, i: int)
    requires
        crate::text::spec_first_match_from(s, sub, from) == Some(i),
    ensures
        0 <= i && i + sub.len() <= s.len(),
    decreases s.len() + 1 - from,
{
    if !(from < 0 || from + sub.len() > s.len() || from > s.len()) {
        if !crate::text::spec_contains_at(s, sub, from) {
            lemma_first_match_in_range(s, sub, from + 1, i);
        }
    }
}

/// The characters of `v` from `from` on.
fn slice_from(v: &Vec<char>, from: usize) -> (r: Vec<char>)
    requires
        from <= v@.len(),
    ensures
        r@ == v@.skip(from as int),
{
    let mut r: Vec<char> = Vec::new();
    let mut i: usize = from;
    while i < v.len()
        invariant
            from <= i <= v@.len(),
            r@ == v@.subrange(from as int, i as int),
        decreases v@.len() - i,
    {
        r.push(v[i]);
        i = i + 1;
        proof {
            assert(r@ =~= v@.subrange(from as int, i as int));
        }
    }
    proof {
        assert(r@ =~= v@.skip(from as int));
    }
    r
}

/// The first `to` characters of `v`.
fn slice_to(v: &Vec<char>, to: usize) -> (r: Vec<char>)
    requires
        to <= v@.len(),
    ensures
        r@ == v@.take(to as int),
{
    let mut r: Vec<char> = Vec::new();
    let mut i: usize = 0;
    while i < to
        invariant
            to <= v@.len(),
            i <= to,
            r@ == v@.subrange(0, i as int),
        decreases to - i,
    {
        r.push(v[i]);
        i = i + 1;
        proof {
            assert(r@ =~= v@.subrange(0, i as int));
        }
    }
    proof {
        assert(r@ =~= v@.take(to as int));
    }
    r
}

/// Removes leading ASCII whitespace.
fn trim_start_vec(v: &Vec<char>) -> (r: Vec<char>)
    ensures
        r@ == spec_trim_start(v@),
{
    let mut lo: usize = 0;
    proof {
        assert(v@.skip(0) =~= v@);
    }
    while lo < v.len() && (v[lo] == ' ' || v[lo] == '\t' || v[lo] == '\n' || v[lo] == '\r')
        invariant
            lo <= v@.len(),
            spec_trim_start(v@) == spec_trim_start(v@.skip(lo as int)),
        decreases v@.len() - lo,
    {
        proof {
            assert(v@.skip(lo as int).drop_first() =~= v@.skip(lo + 1));
        }
        lo = lo + 1;
    }
    proof {
        if lo < v@.len() {
            assert(v@.skip(lo as int)[0] == v@[lo as int]);
        }
        assert(spec_trim_start(v@) == v@.skip(lo as int));
    }
    slice_from(v, lo)
}

/// What one manifest line contributes: a `name = value` line's unquoted
/// value, once trimmed, when it has one. A trailing carriage return is
/// stripped first, as line splitting does.
pub open spec fn spec_toml_line_name(line: Seq<char>) -> Option<Seq<char>> {
    let l0 = if line.len() > 0 && line.last() == '\r' {
        line.drop_last()
    } else {
        line
    };
    let t = spec_trim(l0);
    if spec_starts_with(t, "name"@) && spec_contains(t, seq!['=']) {
        match spec_find(t, seq!['=']) {
            Some(eq) => {
                let value = spec_trim_matches(
                    spec_trim_matches(spec_trim(t.skip(eq + 1)), '"'),
                    '\'',
                );
                if value.len() > 0 {
                    Some(value)
                } else {
                    None
                }
            },
            None => None,
        }
    } else {
        None
    }
}

/// The value of the first line that yields one, from line `i` on.
pub open spec fn spec_toml_name_from(lines: Seq<Seq<char>>, i: int) -> Option<Seq<char>>
    decreases lines.len() - i,
{
    if i < 0 || i >= lines.len() {
        None
    } else {
        match spec_toml_line_name(lines[i]) {
            Some(v) => Some(v),
            None => spec_toml_name_from(lines, i + 1),
        }
    }
}

/// The package name in TOML-like text: the value of the first
/// `name = value` line.
pub open spec fn spec_extract_toml_name(content: Seq<char>) -> Option<Seq<char>> {
    spec_toml_name_from(spec_split(content, '\n'), 0)
}

fn toml_line_name(line: &Vec<char>) -> (r: Option<String>)
    ensures
        match r {
            Some(v) => spec_toml_line_name(line@) == Some(v@),
            None => spec_toml_line_name(line@) is None,
        },
{
    let l0 = if line.len() > 0 && line[line.len() - 1] == '\r' {
        slice_to(line, line.len() - 1)
    } else {
        slice_to(line, line.len())
    };
    proof {
        if line@.len() > 0 && line@.last() == '\r' {
            assert(l0@ =~= line@.drop_last());
        } else {
            assert(l0@ =~= line@);
        }
    }
    let t = trim_chars(&l0);
    if !starts_with_str(&t, "name") {
        return None;
    }
    let eq_pat = str_chars("=");
    proof {
        reveal_strlit("=");
        assert("="@ =~= seq!['=']);
    }
    let eq = match find_chars(&t, &eq_pat) {
        Some(e) => e,
        None => {
            proof {
                if spec_contains(t@, seq!['=']) {
                    lemma_contains_has_first(t@, seq!['=']);
                }
            }
            return None;
        },
    };
    proof {
        lemma_find_in_range(t@, eq_pat@, eq as int);
        lemma_find_is_contained(t@, eq_pat@, eq as int);
    }
    let t_len = t.len();
    let value_raw = slice_from(&t, eq + 1);
    let value = trim_matches_chars(
        &trim_matches_chars(&trim_chars(&value_raw), '"'),
        '\'',
    );
    if value.len() > 0 {
        Some(chars_to_string(&value))
    } else {
        None
    }
}

/// A sequence with no first match holds no match at all.
proof fn lemma_contains_has_first(s: Seq<char>, sub: Seq<char>)
    requires
        spec_contains(s, sub),
    ensures
        spec_find(s, sub) is Some,
{
    let w = choose|i: int| crate::text::spec_contains_at(s, sub, i);
    lemma_first_match_finds(s, sub, 0, w);
}

proof fn lemma_first_match_finds(s: Seq<char>, sub: Seq<char>, from: int, w: int)
    requires
        from <= w,
        crate::text::spec_contains_at(s, sub, w),
        from >= 0,
    ensures
        crate::text::spec_first_match_from(s, sub, from) is Some,
    decreases s.len() + 1 - from,
{
    if !crate::text::spec_contains_at(s, sub, from) {
        lemma_first_match_finds(s, sub, from + 1, w);
    }
}

/// A found pattern is contained.
proof fn lemma_find_is_contained(s: Seq<char>, sub: Seq<char>, i: int)
    requires
        spec_find(s, sub) == Some(i),
    ensures
        spec_contains(s, sub),
{
    lemma_first_match_contained(s, sub, 0, i);
}

proof fn lemma_first_match_contained(s: Seq<char>, sub: Seq<char>, from: int, i: int)
    requires
        crate::text::spec_first_match_from(s, sub, from) == Some(i),
    ensures
        crate::text::spec_contains_at(s, sub, i),
    decreases s.len() + 1 - from,
{
    if !(from < 0 || from + sub.len() > s.len() || from > s.len()) {
        if !crate::text::spec_contains_at(s, sub, from) {
            lemma_first_match_contained(s, sub, from + 1, i);
        }
    }
}

/// Pulls the package name out of TOML-like text, without a parser.
pub fn extract_toml_name(content: &str) -> (r: Option<String>)
    ensures
        match r {
            Some(v) => spec_extract_toml_name(content@) == Some(v@),
            None => spec_extract_toml_name(content@) is None,
        },
{
    let cs = str_chars(content);
    let lines = split_chars(&cs, '\n');
    let ghost lseq = spec_split(content@, '\n');
    let mut i: usize = 0;
    while i < lines.len()
        invariant
            lines.deep_view() == lseq,
            lseq == spec_split(content@, '\n'),
            i <= lines@.len(),
            spec_toml_name_from(lseq, 0) == spec_toml_name_from(lseq, i as int),
        decreases lines@.len() - i,
    {
        proof {
            assert(lines.deep_view()[i as int] == lines@[i as int]@);
        }
        if let Some(v) = toml_line_name(&lines[i]) {
            return Some(v);
        }
        i = i + 1;
    }
    proof {
        assert(spec_toml_name_from(lseq, lseq.len() as int) is None);
    }
    None
}

/// Two side-by-side progress indicators: the scan on the left, sizing on
/// the right.
#[derive(Debug, Clone, Copy)]
pub struct DualProgressBar {
    pub scan_done: bool,
    pub found: usize,
    pub size_done: usize,
    pub size_total: usize,
    pub frame: usize,
}

impl DualProgressBar {
    pub fn new() -> (r: DualProgressBar)
        ensures
            !r.scan_done,
            r.found == 0,
            r.size_done == 0,
            r.size_total == 0,
            r.frame == 0,
    {
        DualProgressBar { scan_done: false, found: 0, size_done: 0, size_total: 0, frame: 0 }
    }

    pub fn scan_complete(self, complete: bool) -> (r: DualProgressBar)
        ensures
            r == (DualProgressBar { scan_done: complete, ..self }),
    {
        DualProgressBar { scan_done: complete, ..self }
    }

    pub fn scan_count(self, count: usize) -> (r: DualProgressBar)
        ensures
            r == (DualProgressBar { found: count, ..self }),
    {
        DualProgressBar { found: count, ..self }
    }

    pub fn size_progress(self, done: usize, total: usize) -> (r: DualProgressBar)
        ensures
            r == (DualProgressBar { size_done: done, size_total: total, ..self }),
    {
        DualProgressBar { size_done: done, size_total: total, ..self }
    }

    pub fn spinner_frame(self, frame: usize) -> (r: DualProgressBar)
        ensures
            r == (DualProgressBar { frame: frame, ..self }),
    {
        DualProgressBar { frame: frame, ..self }
    }

    /// The spinner glyph for the current frame.
    pub fn spinner_char(&self) -> (r: char)
        ensures
            r == crate::state::spec_spinner_char(self.frame),
    {
        let k = self.frame % 10;
        if k == 0 {
            '\u{280b}'
        } else if k == 1 {
            '\u{2819}'
        } else if k == 2 {
            '\u{2839}'
        } else if k == 3 {
            '\u{2838}'
        } else if k == 4 {
            '\u{283c}'
        } else if k == 5 {
            '\u{2834}'
        } else if k == 6 {
            '\u{2826}'
        } else if k == 7 {
            '\u{2827}'
        } else if k == 8 {
            '\u{2807}'
        } else {
            '\u{280f}'
        }
    }
}

/// How many lines the analytics panel has to scroll through: its fixed
/// chrome plus one line per target and per profile.
pub fn content_line_count(app: &App) -> (r: usize)
    ensures
        r == spec_sat_add_usize(
            spec_sat_add_usize(app.analytics.by_target@.len() as usize, app.analytics.by_profile@.len() as usize),
            33,
        ),
{
    sat_add_usize(sat_add_usize(app.analytics.by_target.len(), app.analytics.by_profile.len()), 33)
}

} // verus!
