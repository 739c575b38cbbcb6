//! Verified building blocks for the string work the proxy does: substring and
//! suffix tests for host matching, whitespace stripping for route targets, and
//! simple equality helpers.

use vstd::prelude::*;

verus! {

/// `n` occurs as a contiguous substring of `h`.
pub open spec fn has_substr(h: Seq<char>, n: Seq<char>) -> bool {
    exists|i: int|
        0 <= i && i + n.len() <= h.len() && #[trigger] h.subrange(i, i + n.len() as int) == n
}

/// `h` ends with the suffix `n`.
pub open spec fn has_suffix(h: Seq<char>, n: Seq<char>) -> bool {
    n.len() <= h.len() && h.subrange(h.len() - n.len(), h.len() as int) == n
}

/// `h` starts with the prefix `n`.
pub open spec fn has_prefix(h: Seq<char>, n: Seq<char>) -> bool {
    n.len() <= h.len() && h.subrange(0, n.len() as int) == n
}

/// Relies on String::push: appends the given character to the end of the string.
#[verifier::external_body]
pub(crate) fn push_char(s: &mut String, c: char)
    ensures
        final(s)@ == old(s)@.push(c),
{
    s.push(c);
}

/// Whether `n` occurs in `h` starting exactly at position `at`.
fn match_at(h: &str, n: &str, at: usize, h_len: usize, n_len: usize) -> (r: bool)
    requires
        h_len == h@.len(),
        n_len == n@.len(),
        at + n_len <= h_len,
    ensures
        r == (h@.subrange(at as int, at + n@.len()) == n@),
{
    let mut j: usize = 0;
    while j < n_len
        invariant
            h_len == h@.len(),
            n_len == n@.len(),
            at + n_len <= h_len,
            j <= n_len,
            forall|k: int| 0 <= k < j ==> h@[at + k] == n@[k],
        decreases n_len - j,
    {
        if h.get_char(at + j) != n.get_char(j) {
            assert(h@.subrange(at as int, at + n@.len())[j as int] == h@[at + j]);
            return false;
        }
        j += 1;
    }
    assert(h@.subrange(at as int, at + n@.len()) =~= n@);
    true
}

/// Substring search: does `n` occur anywhere in `h`?
pub fn contains_sub(h: &str, n: &str) -> (r: bool)
    ensures
        r == has_substr(h@, n@),
{
    let h_len = h.unicode_len();
    let n_len = n.unicode_len();
    if n_len > h_len {
        assert(!has_substr(h@, n@));
        return false;
    }
    if n_len == 0 {
        assert(h@.subrange(0, 0 + n@.len() as int) =~= n@);
        return true;
    }
    let mut i: usize = 0;
    while i <= h_len - n_len
        invariant
            h_len == h@.len(),
            n_len == n@.len(),
            1 <= n_len <= h_len,
            i <= h_len - n_len + 1,
            forall|k: int| 0 <= k < i ==> #[trigger] h@.subrange(k, k + n@.len()) != n@,
        decreases h_len - n_len - i + 1,
    {
        if match_at(h, n, i, h_len, n_len) {
            assert(has_substr(h@, n@));
            return true;
        }
        i += 1;
    }
    assert(forall|k: int| 0 <= k && k + n@.len() <= h@.len() ==> #[trigger] h@.subrange(k, k + n@.len()) != n@);
    false
}

/// Suffix test: does `h` end with `n`?
pub fn ends_with_str(h: &str, n: &str) -> (r: bool)
    ensures
        r == has_suffix(h@, n@),
{
    let h_len = h.unicode_len();
    let n_len = n.unicode_len();
    if n_len > h_len {
        return false;
    }
    match_at(h, n, h_len - n_len, h_len, n_len)
}

/// Prefix test: does `h` start with `n`?
pub fn starts_with_str(h: &str, n: &str) -> (r: bool)
    ensures
        r == has_prefix(h@, n@),
{
    let h_len = h.unicode_len();
    let n_len = n.unicode_len();
    if n_len > h_len {
        return false;
    }
    match_at(h, n, 0, h_len, n_len)
}

/// Equality of two string slices, stated over their views.
pub fn str_eq(a: &str, b: &str) -> (r: bool)
    ensures
        r == (a@ == b@),
{
    let a_len = a.unicode_len();
    let b_len = b.unicode_len();
    if a_len != b_len {
        return false;
    }
    let same = match_at(a, b, 0, a_len, b_len);
    assert(a@.subrange(0, a@.len() as int) =~= a@);
    if same {
        assert(a@ =~= b@);
    }
    same
}

/// An ASCII whitespace character.
pub open spec fn is_space_char(c: char) -> bool {
    c == ' ' || c == '\t' || c == '\n' || c == '\r' || c == '\u{b}' || c == '\u{c}'
}

/// The string with every whitespace character removed.
pub open spec fn strip_ws_s(s: Seq<char>) -> Seq<char>
    decreases s.len(),
{
    if s.len() == 0 {
        Seq::empty()
    } else if is_space_char(s.first()) {
        strip_ws_s(s.drop_first())
    } else {
        seq![s.first()] + strip_ws_s(s.drop_first())
    }
}

/// No whitespace character occurs in `s`.
pub open spec fn no_ws(s: Seq<char>) -> bool {
    forall|i: int| 0 <= i < s.len() ==> !is_space_char(#[trigger] s[i])
}

/// Stripping whitespace leaves a string without whitespace.
pub proof fn lemma_strip_ws_no_ws(s: Seq<char>)
    ensures
        no_ws(strip_ws_s(s)),
    decreases s.len(),
{
    if s.len() > 0 {
        lemma_strip_ws_no_ws(s.drop_first());
        if !is_space_char(s.first()) {
            assert forall|i: int| 0 <= i < strip_ws_s(s).len() implies !is_space_char(
                #[trigger] strip_ws_s(s)[i],
            ) by {
                if i > 0 {
                    assert(strip_ws_s(s)[i] == strip_ws_s(s.drop_first())[i - 1]);
                }
            }
        }
    }
}

/// A string without whitespace is unchanged by stripping.
pub proof fn lemma_strip_ws_identity(s: Seq<char>)
    requires
        no_ws(s),
    ensures
        strip_ws_s(s) == s,
    decreases s.len(),
{
    if s.len() > 0 {
        assert(!is_space_char(s[0]));
        assert(no_ws(s.drop_first())) by {
            assert(forall|i: int|
                0 <= i < s.drop_first().len() ==> s.drop_first()[i] == #[trigger] s[i + 1]);
        }
        lemma_strip_ws_identity(s.drop_first());
        assert(strip_ws_s(s) =~= s);
    }
}

/// Stripping whitespace twice is the same as stripping once.
pub proof fn lemma_strip_ws_idempotent(s: Seq<char>)
    ensures
        strip_ws_s(strip_ws_s(s)) == strip_ws_s(s),
{
    lemma_strip_ws_no_ws(s);
    lemma_strip_ws_identity(strip_ws_s(s));
}

/// Remove every whitespace character from `s`.
pub fn strip_ws(s: &str) -> (r: String)
    ensures
        r@ == strip_ws_s(s@),
{
    let len = s.unicode_len();
    let mut r = String::new();
    let mut i: usize = 0;
    assert(s@.skip(0) =~= s@);
    while i < len
        invariant
            len == s@.len(),
            i <= len,
            strip_ws_s(s@) =~= r@ + strip_ws_s(s@.skip(i as int)),
        decreases len - i,
    {
        let c = s.get_char(i);
        assert(s@.skip(i as int).first() == c);
        assert(s@.skip(i as int).drop_first() =~= s@.skip(i + 1));
        if !(c == ' ' || c == '\t' || c == '\n' || c == '\r' || c == '\u{b}' || c == '\u{c}') {
            assert(!is_space_char(c));
            push_char(&mut r, c);
        }
        i += 1;
    }
    assert(s@.skip(len as int) =~= Seq::<char>::empty());
    assert(r@ =~= strip_ws_s(s@));
    r
}

/// The string is blank: every character is whitespace (so trimming it leaves
/// nothing).
pub open spec fn spec_blank(s: Seq<char>) -> bool {
    forall|i: int| 0 <= i < s.len() ==> is_space_char(#[trigger] s[i])
}

/// Whether the string trims to nothing.
pub fn is_blank(s: &str) -> (r: bool)
    ensures
        r == spec_blank(s@),
{
    let len = s.unicode_len();
    let mut i: usize = 0;
    while i < len
        invariant
            len == s@.len(),
            i <= len,
            forall|k: int| 0 <= k < i ==> is_space_char(#[trigger] s@[k]),
        decreases len - i,
    {
        let c = s.get_char(i);
        if !(c == ' ' || c == '\t' || c == '\n' || c == '\r' || c == '\u{b}' || c == '\u{c}') {
            assert(!is_space_char(s@[i as int]));
            return false;
        }
        i += 1;
    }
    true
}

/// The character with an ASCII upper-case letter mapped to its lower-case
/// form; anything else is unchanged.
pub open spec fn spec_lower_char(c: char) -> char {
    match c {
        'A' => 'a',
        'B' => 'b',
        'C' => 'c',
        'D' => 'd',
        'E' => 'e',
        'F' => 'f',
        'G' => 'g',
        'H' => 'h',
        'I' => 'i',
        'J' => 'j',
        'K' => 'k',
        'L' => 'l',
        'M' => 'm',
        'N' => 'n',
        'O' => 'o',
        'P' => 'p',
        'Q' => 'q',
        'R' => 'r',
        'S' => 's',
        'T' => 't',
        'U' => 'u',
        'V' => 'v',
        'W' => 'w',
        'X' => 'x',
        'Y' => 'y',
        'Z' => 'z',
        _ => c,
    }
}

/// The string with ASCII upper-case letters lowered.
pub open spec fn spec_ascii_lower(s: Seq<char>) -> Seq<char> {
    s.map_values(|c: char| spec_lower_char(c))
}

/// Lower-case the ASCII letters of `s`.
pub fn ascii_lower(s: &str) -> (r: String)
    ensures
        r@ == spec_ascii_lower(s@),
{
    let len = s.unicode_len();
    let mut r = String::new();
    let mut i: usize = 0;
    while i < len
        invariant
            len == s@.len(),
            i <= len,
            r@.len() == i,
            forall|k: int| 0 <= k < i ==> r@[k] == spec_lower_char(#[trigger] s@[k]),
        decreases len - i,
    {
        let c = s.get_char(i);
        let lc: char = match c {
            'A' => 'a',
            'B' => 'b',
            'C' => 'c',
            'D' => 'd',
            'E' => 'e',
            'F' => 'f',
            'G' => 'g',
            'H' => 'h',
            'I' => 'i',
            'J' => 'j',
            'K' => 'k',
            'L' => 'l',
            'M' => 'm',
            'N' => 'n',
            'O' => 'o',
            'P' => 'p',
            'Q' => 'q',
            'R' => 'r',
            'S' => 's',
            'T' => 't',
            'U' => 'u',
            'V' => 'v',
            'W' => 'w',
            'X' => 'x',
            'Y' => 'y',
            'Z' => 'z',
            _ => c,
        };
        assert(lc == spec_lower_char(s@[i as int]));
        push_char(&mut r, lc);
        i += 1;
    }
    assert(r@ =~= spec_ascii_lower(s@));
    r
}

/// The portion of a path after its last slash — the whole path where it has
/// none. This is the library's model of a path's file name; a path with a
/// trailing slash has an empty name.
pub open spec fn spec_base_name(s: Seq<char>) -> Seq<char>
    decreases s.len(),
{
    if s.len() == 0 {
        s
    } else if s.last() == '/' {
        Seq::empty()
    } else {
        spec_base_name(s.drop_last()).push(s.last())
    }
}

/// Where `j` sits just after the last slash (or at the start of a slashless
/// path), the base name is the suffix from `j`.
proof fn lemma_base_name_suffix(s: Seq<char>, j: int)
    requires
        0 <= j <= s.len(),
        j > 0 ==> s[j - 1] == '/',
        forall|k: int| j <= k < s.len() ==> s[k] != '/',
    ensures
        spec_base_name(s) == s.subrange(j, s.len() as int),
    decreases s.len(),
{
    if s.len() == 0 {
        assert(spec_base_name(s) =~= s.subrange(j, s.len() as int));
    } else if j == s.len() {
        assert(s.last() == '/');
        assert(spec_base_name(s) =~= s.subrange(j, s.len() as int));
    } else {
        assert(s.last() != '/');
        lemma_base_name_suffix(s.drop_last(), j);
        assert(spec_base_name(s.drop_last()) == s.drop_last().subrange(
            j,
            s.drop_last().len() as int,
        ));
        assert(s.drop_last().subrange(j, s.len() - 1) =~= s.subrange(j, s.len() - 1));
        assert(spec_base_name(s) =~= s.subrange(j, s.len() as int));
    }
}

/// The file-name portion of a path: everything after the last slash, or the
/// path itself where it has no slash.
pub fn base_name(s: &str) -> (r: String)
    ensures
        r@ == spec_base_name(s@),
{
    let len = s.unicode_len();
    let mut cut: usize = 0;
    let mut i: usize = 0;
    while i < len
        invariant
            len == s@.len(),
            0 <= cut <= i <= len,
            cut > 0 ==> s@[cut - 1] == '/',
            forall|k: int| cut <= k < i ==> s@[k] != '/',
        decreases len - i,
    {
        if s.get_char(i) == '/' {
            cut = i + 1;
        }
        i += 1;
    }
    proof {
        lemma_base_name_suffix(s@, cut as int);
    }
    let tail = s.substring_char(cut, len);
    tail.to_owned()
}

/// The first position of `c` in `s` at or after `from` — the length where
/// there is none.
pub open spec fn spec_find_char(s: Seq<char>, from: int, c: char) -> int
    decreases s.len() - from,
{
    if from < 0 || from >= s.len() {
        s.len() as int
    } else if s[from] == c {
        from
    } else {
        spec_find_char(s, from + 1, c)
    }
}

/// The found position sits between `from` and the length, holds `c` where it
/// is inside, and nothing before it holds `c`.
pub proof fn lemma_find_char_range(s: Seq<char>, from: int, c: char)
    requires
        0 <= from <= s.len(),
    ensures
        from <= spec_find_char(s, from, c) <= s.len(),
        spec_find_char(s, from, c) < s.len() ==> s[spec_find_char(s, from, c)] == c,
        forall|k: int| from <= k < spec_find_char(s, from, c) ==> s[k] != c,
    decreases s.len() - from,
{
    if from < s.len() && s[from] != c {
        lemma_find_char_range(s, from + 1, c);
    }
}

/// Find the first `c` in `s` at or after `from`; the length means none.
pub fn find_char_from(s: &str, from: usize, c: char) -> (r: usize)
    requires
        from <= s@.len(),
    ensures
        r == spec_find_char(s@, from as int, c),
{
    let len = s.unicode_len();
    let mut j = from;
    while j < len
        invariant
            len == s@.len(),
            from <= j <= len,
            spec_find_char(s@, from as int, c) == spec_find_char(s@, j as int, c),
        decreases len - j,
    {
        if s.get_char(j) == c {
            return j;
        }
        j += 1;
    }
    j
}

/// A path extended by one component: a separator is added unless the path is
/// empty or already ends in one.
pub open spec fn spec_join(dir: Seq<char>, name: Seq<char>) -> Seq<char> {
    if dir.len() == 0 {
        name
    } else if dir.last() == '/' {
        dir + name
    } else {
        dir + "/"@ + name
    }
}

/// Join a path and a component.
pub fn path_join(dir: &str, name: &str) -> (r: String)
    ensures
        r@ == spec_join(dir@, name@),
{
    let len = dir.unicode_len();
    let mut r = dir.to_owned();
    if len > 0 && dir.get_char(len - 1) != '/' {
        r.append("/");
    }
    r.append(name);
    r
}

/// The first whitespace position in `s` at or after `from` — the length
/// where there is none.
pub open spec fn spec_find_ws(s: Seq<char>, from: int) -> int
    decreases s.len() - from,
{
    if from < 0 || from >= s.len() {
        s.len() as int
    } else if is_space_char(s[from]) {
        from
    } else {
        spec_find_ws(s, from + 1)
    }
}

/// The first non-whitespace position in `s` at or after `from` — the length
/// where there is none.
pub open spec fn spec_find_non_ws(s: Seq<char>, from: int) -> int
    decreases s.len() - from,
{
    if from < 0 || from >= s.len() {
        s.len() as int
    } else if !is_space_char(s[from]) {
        from
    } else {
        spec_find_non_ws(s, from + 1)
    }
}

/// The found positions sit between `from` and the length.
pub proof fn lemma_find_ws_range(s: Seq<char>, from: int)
    requires
        0 <= from <= s.len(),
    ensures
        from <= spec_find_ws(s, from) <= s.len(),
        from <= spec_find_non_ws(s, from) <= s.len(),
        spec_find_non_ws(s, from) <= spec_find_ws(s, spec_find_non_ws(s, from)),
    decreases s.len() - from,
{
    if from < s.len() {
        lemma_find_ws_range(s, from + 1);
    }
}

/// Find the first whitespace character at or after `from`.
pub fn find_ws_from(s: &str, from: usize) -> (r: usize)
    requires
        from <= s@.len(),
    ensures
        r == spec_find_ws(s@, from as int),
{
    let len = s.unicode_len();
    let mut j = from;
    while j < len
        invariant
            len == s@.len(),
            from <= j <= len,
            spec_find_ws(s@, from as int) == spec_find_ws(s@, j as int),
        decreases len - j,
    {
        let c = s.get_char(j);
        if c == ' ' || c == '\t' || c == '\n' || c == '\r' || c == '\u{b}' || c == '\u{c}' {
            return j;
        }
        j += 1;
    }
    j
}

/// Find the first non-whitespace character at or after `from`.
pub fn find_non_ws_from(s: &str, from: usize) -> (r: usize)
    requires
        from <= s@.len(),
    ensures
        r == spec_find_non_ws(s@, from as int),
{
    let len = s.unicode_len();
    let mut j = from;
    while j < len
        invariant
            len == s@.len(),
            from <= j <= len,
            spec_find_non_ws(s@, from as int) == spec_find_non_ws(s@, j as int),
        decreases len - j,
    {
        let c = s.get_char(j);
        if !(c == ' ' || c == '\t' || c == '\n' || c == '\r' || c == '\u{b}' || c == '\u{c}') {
            return j;
        }
        j += 1;
    }
    j
}

/// A path with a leading tilde component expanded under the given home —
/// unchanged where it has none, or where no home is known.
pub open spec fn spec_expand_home(path: Seq<char>, home: Option<Seq<char>>) -> Seq<char> {
    if has_prefix(path, "~/"@) && home is Some {
        spec_join(home.unwrap(), path.skip(2))
    } else {
        path
    }
}

/// Expand a leading `~/` to the given home directory.
pub fn expand_home(path: &str, home: Option<&str>) -> (r: String)
    ensures
        r@ == spec_expand_home(path@, match home {
            Some(h) => Some(h@),
            None => None,
        }),
{
    let len = path.unicode_len();
    if starts_with_str(path, "~/") {
        if let Some(h) = home {
            proof {
                reveal_strlit("~/");
            }
            let rest = path.substring_char(2, len);
            return path_join(h, rest);
        }
    }
    path.to_owned()
}

/// An ASCII decimal digit.
pub open spec fn spec_is_digit(c: char) -> bool {
    '0' <= c <= '9'
}

/// Every character is a decimal digit.
pub open spec fn spec_all_digits(s: Seq<char>) -> bool {
    forall|i: int| 0 <= i < s.len() ==> spec_is_digit(#[trigger] s[i])
}

/// The number a digit string denotes, most significant digit first.
pub open spec fn spec_dec_val(s: Seq<char>) -> int
    decreases s.len(),
{
    if s.len() == 0 {
        0
    } else {
        spec_dec_val(s.drop_last()) * 10 + (s.last() as int - 48)
    }
}

/// Over digits, the denoted number is nonnegative and every prefix denotes
/// no more than the whole.
pub proof fn lemma_dec_val_mono(s: Seq<char>, j: int)
    requires
        spec_all_digits(s),
        0 <= j <= s.len(),
    ensures
        0 <= spec_dec_val(s.take(j)) <= spec_dec_val(s),
    decreases s.len(),
{
    if s.len() == 0 {
        assert(s.take(j) =~= s);
    } else {
        assert(spec_all_digits(s.drop_last())) by {
            assert(forall|i: int|
                0 <= i < s.drop_last().len() ==> s.drop_last()[i] == #[trigger] s[i]);
        }
        if j == s.len() {
            assert(s.take(j) =~= s);
            lemma_dec_val_mono(s.drop_last(), s.len() - 1);
            assert(s.drop_last().take(s.len() - 1) =~= s.drop_last());
            assert(spec_is_digit(s.last()));
            assert(spec_dec_val(s) >= 0);
        } else {
            lemma_dec_val_mono(s.drop_last(), j);
            assert(s.drop_last().take(j) =~= s.take(j));
            assert(spec_is_digit(s.last()));
            assert(spec_dec_val(s) >= spec_dec_val(s.drop_last()));
        }
    }
}

/// What parsing a decimal number yields: the denoted value, where the string
/// is nonempty, all digits, and the value fits; nothing otherwise.
pub open spec fn spec_parse_u32(s: Seq<char>) -> Option<u32> {
    if s.len() > 0 && spec_all_digits(s) && spec_dec_val(s) <= u32::MAX {
        Some(spec_dec_val(s) as u32)
    } else {
        None
    }
}

/// Parse a nonnegative decimal number that fits a u32.
pub fn parse_u32(s: &str) -> (r: Option<u32>)
    ensures
        r == spec_parse_u32(s@),
{
    let len = s.unicode_len();
    if len == 0 {
        return None;
    }
    let mut acc: u32 = 0;
    let mut i: usize = 0;
    assert(s@.take(0) =~= Seq::<char>::empty());
    while i < len
        invariant
            len == s@.len(),
            0 < len,
            i <= len,
            spec_all_digits(s@.take(i as int)),
            acc == spec_dec_val(s@.take(i as int)),
        decreases len - i,
    {
        let c = s.get_char(i);
        if !('0' <= c && c <= '9') {
            assert(!spec_is_digit(s@[i as int]));
            return None;
        }
        let d: u32 = (c as u32) - 48;
        assert(s@.take(i + 1).drop_last() =~= s@.take(i as int));
        assert(s@.take(i + 1).last() == s@[i as int]);
        assert(spec_all_digits(s@.take(i + 1))) by {
            assert(forall|k: int|
                0 <= k < i ==> s@.take(i + 1)[k] == #[trigger] s@.take(i as int)[k]);
        }
        if acc > (u32::MAX - d) / 10 {
            proof {
                assert(acc * 10 + d > u32::MAX) by (nonlinear_arith)
                    requires
                        acc > (u32::MAX - d) / 10,
                        d <= 9,
                ;
                assert(spec_dec_val(s@.take(i + 1)) > u32::MAX);
                if spec_all_digits(s@) {
                    lemma_dec_val_mono(s@, i + 1);
                }
            }
            return None;
        }
        proof {
            assert(acc * 10 + d <= u32::MAX) by (nonlinear_arith)
                requires
                    acc <= (u32::MAX - d) / 10,
                    d <= 9,
            ;
        }
        acc = acc * 10 + d;
        i += 1;
    }
    assert(s@.take(len as int) =~= s@);
    Some(acc)
}

} // verus!
