//! Text as the store compares it: the order of two texts, and the pattern
//! match with `%` and `_` that searches use.

use vstd::prelude::*;
use vstd::string::*;

verus! {

/// Whether `a` sorts strictly before `b`, character by character, a proper
/// prefix before the longer text.
pub open spec fn text_lt(a: Seq<char>, b: Seq<char>) -> bool
    decreases a.len(),
{
    if b.len() == 0 {
        false
    } else if a.len() == 0 {
        true
    } else if a[0] != b[0] {
        (a[0] as u32) < (b[0] as u32)
    } else {
        text_lt(a.drop_first(), b.drop_first())
    }
}

/// No text sorts before itself.
pub proof fn lemma_text_lt_irreflexive(a: Seq<char>)
    ensures
        !text_lt(a, a),
    decreases a.len(),
{
    if a.len() > 0 {
        lemma_text_lt_irreflexive(a.drop_first());
    }
}

/// A text that sorts before a second, which sorts before a third, sorts
/// before the third.
pub proof fn lemma_text_lt_transitive(a: Seq<char>, b: Seq<char>, c: Seq<char>)
    requires
        text_lt(a, b),
        text_lt(b, c),
    ensures
        text_lt(a, c),
    decreases a.len(),
{
    if a.len() > 0 && b.len() > 0 && c.len() > 0 {
        if a[0] == b[0] && b[0] == c[0] {
            lemma_text_lt_transitive(a.drop_first(), b.drop_first(), c.drop_first());
        }
    }
}

/// The order of texts is an order: no text sorts before itself, and
/// sorting before carries over.
pub proof fn lemma_text_order()
    ensures
        forall|a: Seq<char>| !#[trigger] text_lt(a, a),
        forall|a: Seq<char>, b: Seq<char>, c: Seq<char>|
            #[trigger] text_lt(a, b) && #[trigger] text_lt(b, c) ==> text_lt(a, c),
{
    assert forall|a: Seq<char>| !#[trigger] text_lt(a, a) by {
        lemma_text_lt_irreflexive(a);
    }
    assert forall|a: Seq<char>, b: Seq<char>, c: Seq<char>|
        #[trigger] text_lt(a, b) && #[trigger] text_lt(b, c) implies text_lt(a, c) by {
        lemma_text_lt_transitive(a, b, c);
    }
}

/// The code of `c` with the letters `A` to `Z` taken as `a` to `z`.
pub open spec fn folded(c: char) -> u32 {
    if 'A' as u32 <= c as u32 <= 'Z' as u32 {
        (c as u32 + 32) as u32
    } else {
        c as u32
    }
}

/// Whether `text` matches `pattern`, in which `%` stands for any run of
/// characters, `_` for any one character, and every other character for
/// itself, the letters `A` to `Z` and `a` to `z` alike.
pub open spec fn like(pattern: Seq<char>, text: Seq<char>) -> bool
    decreases pattern.len() + text.len(),
{
    if pattern.len() == 0 {
        text.len() == 0
    } else if pattern[0] == '%' {
        like(pattern.drop_first(), text) || (text.len() > 0 && like(pattern, text.drop_first()))
    } else if text.len() == 0 {
        false
    } else if pattern[0] == '_' || folded(pattern[0]) == folded(text[0]) {
        like(pattern.drop_first(), text.drop_first())
    } else {
        false
    }
}

/// The pattern that matches every text holding `needle` somewhere.
pub open spec fn holding(needle: Seq<char>) -> Seq<char> {
    seq!['%'] + needle + seq!['%']
}

/// The pattern that matches every text starting with `prefix`.
pub open spec fn starting_with(prefix: Seq<char>) -> Seq<char> {
    prefix + seq!['%']
}

/// The characters of `s`.
pub fn chars_of(s: &str) -> (r: Vec<char>)
    ensures
        r@ == s@,
{
    let n = s.unicode_len();
    let mut out: Vec<char> = Vec::new();
    let mut i: usize = 0;
    while i < n
        invariant
            n == s@.len(),
            i <= n,
            out@ == s@.take(i as int),
        decreases n - i,
    {
        let c = s.get_char(i);
        out.push(c);
        proof {
            assert(out@ =~= s@.take(i as int + 1));
        }
        i += 1;
    }
    proof {
        assert(s@.take(n as int) =~= s@);
    }
    out
}

/// Whether `a` sorts strictly before `b`.
pub fn chars_before(a: &Vec<char>, b: &Vec<char>) -> (r: bool)
    ensures
        r == text_lt(a@, b@),
{
    let mut i: usize = 0;
    proof {
        assert(a@.skip(0) =~= a@);
        assert(b@.skip(0) =~= b@);
    }
    while i < a.len() && i < b.len()
        invariant
            i <= a.len(),
            i <= b.len(),
            text_lt(a@, b@) == text_lt(a@.skip(i as int), b@.skip(i as int)),
        decreases a.len() - i,
    {
        let ghost ra = a@.skip(i as int);
        let ghost rb = b@.skip(i as int);
        proof {
            assert(ra[0] == a@[i as int]);
            assert(rb[0] == b@[i as int]);
            assert(ra.drop_first() =~= a@.skip(i as int + 1));
            assert(rb.drop_first() =~= b@.skip(i as int + 1));
        }
        if a[i] != b[i] {
            return (a[i] as u32) < (b[i] as u32);
        }
        i += 1;
    }
    i < b.len()
}

/// Whether `a` sorts strictly before `b`.
pub fn text_before(a: &str, b: &str) -> (r: bool)
    ensures
        r == text_lt(a@, b@),
{
    let ca = chars_of(a);
    let cb = chars_of(b);
    chars_before(&ca, &cb)
}

/// Whether `a` and `b` are the same text.
pub fn text_eq(a: &str, b: &str) -> (r: bool)
    ensures
        r == (a@ == b@),
{
    a.to_owned() == b.to_owned()
}

/// Whether `a` is there and is the text `b`.
pub fn text_is(a: &Option<String>, b: &str) -> (r: bool)
    ensures
        r == (a.deep_view() == Some(b@)),
{
    match a {
        Some(s) => text_eq(s.as_str(), b),
        None => false,
    }
}

/// Whether no text occurs twice in `texts`.
pub fn texts_distinct(texts: &Vec<String>) -> (r: bool)
    ensures
        r == texts.deep_view().no_duplicates(),
{
    let mut j: usize = 0;
    while j < texts.len()
        invariant
            j <= texts.len(),
            forall|a: int, b: int|
                0 <= a < b < j ==> texts.deep_view()[a] != texts.deep_view()[b],
        decreases texts.len() - j,
    {
        let mut i: usize = 0;
        while i < j
            invariant
                i <= j,
                j < texts.len(),
                forall|a: int| 0 <= a < i ==> texts.deep_view()[a] != texts.deep_view()[j as int],
            decreases j - i,
        {
            if texts[i] == texts[j] {
                proof {
                    assert(texts.deep_view()[i as int] == texts.deep_view()[j as int]);
                }
                return false;
            }
            i += 1;
        }
        j += 1;
    }
    true
}

/// The code of `c` with the letters `A` to `Z` taken as `a` to `z`.
pub fn fold_char(c: char) -> (r: u32)
    ensures
        r == folded(c),
{
    let n = c as u32;
    if 'A' as u32 <= n && n <= 'Z' as u32 {
        n + 32
    } else {
        n
    }
}

/// Whether `text` matches `pattern`.
pub fn chars_like(pattern: &Vec<char>, text: &Vec<char>) -> (r: bool)
    ensures
        r == like(pattern@, text@),
{
    let m = pattern.len();
    let n = text.len();
    // `below[j]` says whether the text from `j` on matches the pattern from
    // `i + 1` on; `row[j]` is filled for the pattern from `i` on.
    let mut below: Vec<bool> = Vec::new();
    let mut j: usize = 0;
    while j < n
        invariant
            n == text.len(),
            m == pattern.len(),
            j <= n,
            below.len() == j,
            forall|k: int| 0 <= k < j ==> #[trigger] below@[k] == like(pattern@.skip(m as int), text@.skip(k)),
        decreases n - j,
    {
        proof {
            assert(pattern@.skip(m as int).len() == 0);
            assert(text@.skip(j as int).len() == n - j);
        }
        below.push(false);
        j += 1;
    }
    proof {
        assert(pattern@.skip(m as int).len() == 0);
        assert(text@.skip(n as int).len() == 0);
    }
    below.push(true);
    let mut i: usize = m;
    while i > 0
        invariant
            n == text.len(),
            m == pattern.len(),
            i <= m,
            below.len() == n + 1,
            forall|k: int| 0 <= k <= n ==> #[trigger] below@[k] == like(pattern@.skip(i as int), text@.skip(k)),
        decreases i,
    {
        i -= 1;
        let p = pattern[i];
        let ghost pat = pattern@.skip(i as int);
        proof {
            assert(pat[0] == p);
            assert(pat.drop_first() =~= pattern@.skip(i as int + 1));
        }
        let mut row: Vec<bool> = Vec::new();
        let mut t: usize = 0;
        while t < n
            invariant
                row.len() == t,
                t <= n,
            decreases n - t,
        {
            row.push(false);
            t += 1;
        }
        row.push(false);
        let end = if p == '%' { below[n] } else { false };
        row[n] = end;
        proof {
            assert(text@.skip(n as int).len() == 0);
        }
        let mut j: usize = n;
        while j > 0
            invariant
                n == text.len(),
                m == pattern.len(),
                i < m,
                p == pattern@[i as int],
                pat == pattern@.skip(i as int),
                pat.len() > 0,
                pat[0] == p,
                pat.drop_first() == pattern@.skip(i as int + 1),
                j <= n,
                row.len() == n + 1,
                below.len() == n + 1,
                forall|k: int| 0 <= k <= n ==> #[trigger] below@[k] == like(pattern@.skip(i as int + 1), text@.skip(k)),
                forall|k: int| j <= k <= n ==> #[trigger] row@[k] == like(pat, text@.skip(k)),
            decreases j,
        {
            j -= 1;
            let c = text[j];
            let ghost txt = text@.skip(j as int);
            proof {
                assert(txt[0] == c);
                assert(txt.drop_first() =~= text@.skip(j as int + 1));
            }
            let hit = if p == '%' {
                below[j] || row[j + 1]
            } else if p == '_' || fold_char(p) == fold_char(c) {
                below[j + 1]
            } else {
                false
            };
            row[j] = hit;
        }
        below = row;
    }
    proof {
        assert(pattern@.skip(0) =~= pattern@);
        assert(text@.skip(0) =~= text@);
    }
    below[0]
}

/// Whether `text` holds `needle` somewhere, read as a pattern.
pub fn text_holds(text: &str, needle: &str) -> (r: bool)
    ensures
        r == like(holding(needle@), text@),
{
    let mut pattern: Vec<char> = Vec::new();
    pattern.push('%');
    let mut inner = chars_of(needle);
    pattern.append(&mut inner);
    pattern.push('%');
    proof {
        assert(pattern@ =~= holding(needle@));
    }
    let t = chars_of(text);
    chars_like(&pattern, &t)
}

/// Whether `text` starts with `prefix`, read as a pattern.
pub fn text_starts_with(text: &str, prefix: &str) -> (r: bool)
    ensures
        r == like(starting_with(prefix@), text@),
{
    let mut pattern = chars_of(prefix);
    pattern.push('%');
    proof {
        assert(pattern@ =~= starting_with(prefix@));
    }
    let t = chars_of(text);
    chars_like(&pattern, &t)
}

/// Whether `c` is white space: a blank, a tab, a line break or any other
/// character that only makes room.
pub open spec fn blank(c: char) -> bool {
    let n = c as u32;
    ||| 0x09 <= n <= 0x0D
    ||| n == 0x20
    ||| n == 0x85
    ||| n == 0xA0
    ||| n == 0x1680
    ||| 0x2000 <= n <= 0x200A
    ||| n == 0x2028
    ||| n == 0x2029
    ||| n == 0x202F
    ||| n == 0x205F
    ||| n == 0x3000
}

/// Whether `c` is white space.
pub fn is_blank(c: char) -> (r: bool)
    ensures
        r == blank(c),
{
    let n = c as u32;
    (0x09 <= n && n <= 0x0D) || n == 0x20 || n == 0x85 || n == 0xA0 || n == 0x1680 || (0x2000 <= n
        && n <= 0x200A) || n == 0x2028 || n == 0x2029 || n == 0x202F || n == 0x205F || n == 0x3000
}

} // verus!
