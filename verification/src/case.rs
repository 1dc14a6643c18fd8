//! The identifier case converter: splits an input into words and renders
//! them in one of several case styles.  A word starts at the first
//! alphanumeric character, after any non-alphanumeric character, and at
//! every uppercase letter; rendering in the Pascal style is idempotent.

use vstd::prelude::*;

verus! {

use crate::text::string_from_chars;
use crate::text::chars_of;

/// The case styles the sanitizer can produce.
#[derive(Debug, Clone, Copy, PartialEq, Eq, Structural)]
pub enum Case {
    Pascal,
    Snake,
    ShoutySnake,
    Camel,
    Title,
    Kebab,
    Lowercase,
}

/// ASCII lowercase letters.
pub open spec fn is_low(c: char) -> bool {
    'a' <= c && c <= 'z'
}

/// ASCII uppercase letters.
pub open spec fn is_up(c: char) -> bool {
    'A' <= c && c <= 'Z'
}

/// ASCII decimal digits.
pub open spec fn is_digit(c: char) -> bool {
    '0' <= c && c <= '9'
}

/// Characters that belong to words: ASCII alphanumerics.
pub open spec fn is_word_char(c: char) -> bool {
    is_low(c) || is_up(c) || is_digit(c)
}

/// The ASCII uppercase counterpart of `c`; other characters unchanged.
pub open spec fn spec_upper(c: char) -> char {
    if c == 'a' { 'A' }
    else if c == 'b' { 'B' }
    else if c == 'c' { 'C' }
    else if c == 'd' { 'D' }
    else if c == 'e' { 'E' }
    else if c == 'f' { 'F' }
    else if c == 'g' { 'G' }
    else if c == 'h' { 'H' }
    else if c == 'i' { 'I' }
    else if c == 'j' { 'J' }
    else if c == 'k' { 'K' }
    else if c == 'l' { 'L' }
    else if c == 'm' { 'M' }
    else if c == 'n' { 'N' }
    else if c == 'o' { 'O' }
    else if c == 'p' { 'P' }
    else if c == 'q' { 'Q' }
    else if c == 'r' { 'R' }
    else if c == 's' { 'S' }
    else if c == 't' { 'T' }
    else if c == 'u' { 'U' }
    else if c == 'v' { 'V' }
    else if c == 'w' { 'W' }
    else if c == 'x' { 'X' }
    else if c == 'y' { 'Y' }
    else if c == 'z' { 'Z' }
    else { c }
}

/// The ASCII lowercase counterpart of `c`; other characters unchanged.
pub open spec fn spec_lower(c: char) -> char {
    if c == 'A' { 'a' }
    else if c == 'B' { 'b' }
    else if c == 'C' { 'c' }
    else if c == 'D' { 'd' }
    else if c == 'E' { 'e' }
    else if c == 'F' { 'f' }
    else if c == 'G' { 'g' }
    else if c == 'H' { 'h' }
    else if c == 'I' { 'i' }
    else if c == 'J' { 'j' }
    else if c == 'K' { 'k' }
    else if c == 'L' { 'l' }
    else if c == 'M' { 'm' }
    else if c == 'N' { 'n' }
    else if c == 'O' { 'o' }
    else if c == 'P' { 'p' }
    else if c == 'Q' { 'q' }
    else if c == 'R' { 'r' }
    else if c == 'S' { 's' }
    else if c == 'T' { 't' }
    else if c == 'U' { 'u' }
    else if c == 'V' { 'v' }
    else if c == 'W' { 'w' }
    else if c == 'X' { 'x' }
    else if c == 'Y' { 'y' }
    else if c == 'Z' { 'z' }
    else { c }
}

/// The ASCII uppercase counterpart of `c`.
pub fn upper_char(c: char) -> (r: char)
    ensures
        r == spec_upper(c),
{
    if 'a' <= c && c <= 'z' {
        if c == 'a' { 'A' }
    else if c == 'b' { 'B' }
    else if c == 'c' { 'C' }
    else if c == 'd' { 'D' }
    else if c == 'e' { 'E' }
    else if c == 'f' { 'F' }
    else if c == 'g' { 'G' }
    else if c == 'h' { 'H' }
    else if c == 'i' { 'I' }
    else if c == 'j' { 'J' }
    else if c == 'k' { 'K' }
    else if c == 'l' { 'L' }
    else if c == 'm' { 'M' }
    else if c == 'n' { 'N' }
    else if c == 'o' { 'O' }
    else if c == 'p' { 'P' }
    else if c == 'q' { 'Q' }
    else if c == 'r' { 'R' }
    else if c == 's' { 'S' }
    else if c == 't' { 'T' }
    else if c == 'u' { 'U' }
    else if c == 'v' { 'V' }
    else if c == 'w' { 'W' }
    else if c == 'x' { 'X' }
    else if c == 'y' { 'Y' }
    else if c == 'z' { 'Z' }
        else { c }
    } else {
        c
    }
}

/// The ASCII lowercase counterpart of `c`.
pub fn lower_char(c: char) -> (r: char)
    ensures
        r == spec_lower(c),
{
    if 'A' <= c && c <= 'Z' {
        if c == 'A' { 'a' }
    else if c == 'B' { 'b' }
    else if c == 'C' { 'c' }
    else if c == 'D' { 'd' }
    else if c == 'E' { 'e' }
    else if c == 'F' { 'f' }
    else if c == 'G' { 'g' }
    else if c == 'H' { 'h' }
    else if c == 'I' { 'i' }
    else if c == 'J' { 'j' }
    else if c == 'K' { 'k' }
    else if c == 'L' { 'l' }
    else if c == 'M' { 'm' }
    else if c == 'N' { 'n' }
    else if c == 'O' { 'o' }
    else if c == 'P' { 'p' }
    else if c == 'Q' { 'q' }
    else if c == 'R' { 'r' }
    else if c == 'S' { 's' }
    else if c == 'T' { 't' }
    else if c == 'U' { 'u' }
    else if c == 'V' { 'v' }
    else if c == 'W' { 'w' }
    else if c == 'X' { 'x' }
    else if c == 'Y' { 'y' }
    else if c == 'Z' { 'z' }
        else { c }
    } else {
        c
    }
}

fn is_word_char_exec(c: char) -> (r: bool)
    ensures
        r == is_word_char(c),
{
    ('a' <= c && c <= 'z') || ('A' <= c && c <= 'Z') || ('0' <= c && c <= '9')
}

fn is_up_exec(c: char) -> (r: bool)
    ensures
        r == is_up(c),
{
    'A' <= c && c <= 'Z'
}


/// Whether some word character occurs strictly before position `i`.
pub open spec fn has_word_before(s: Seq<char>, i: int) -> bool {
    exists|j: int| 0 <= j < i && is_word_char(s[j])
}

/// Whether a new word starts at position `i`: a word character that sits at
/// the front, follows a non-word character, or is an uppercase letter.
pub open spec fn starts_word(s: Seq<char>, i: int) -> bool {
    &&& is_word_char(s[i])
    &&& (i == 0 || !is_word_char(s[i - 1]) || is_up(s[i]))
}

/// What position `i` of `s` contributes to the output in the given style.
pub open spec fn spec_contrib(style: Case, s: Seq<char>, i: int) -> Seq<char> {
    let c = s[i];
    match style {
        Case::Lowercase => {
            if is_word_char(c) || c == '_' {
                seq![spec_lower(c)]
            } else {
                Seq::empty()
            }
        }
        _ => {
            if !is_word_char(c) {
                Seq::empty()
            } else {
                let start = starts_word(s, i);
                let later = has_word_before(s, i);
                match style {
                    Case::Pascal => if start { seq![spec_upper(c)] } else { seq![spec_lower(c)] },
                    Case::Camel => if start && later {
                        seq![spec_upper(c)]
                    } else {
                        seq![spec_lower(c)]
                    },
                    Case::Snake => if start && later {
                        seq!['_', spec_lower(c)]
                    } else {
                        seq![spec_lower(c)]
                    },
                    Case::ShoutySnake => if start && later {
                        seq!['_', spec_upper(c)]
                    } else {
                        seq![spec_upper(c)]
                    },
                    Case::Title => if start && later {
                        seq![' ', spec_upper(c)]
                    } else if start {
                        seq![spec_upper(c)]
                    } else {
                        seq![spec_lower(c)]
                    },
                    Case::Kebab => if start && later {
                        seq!['-', spec_lower(c)]
                    } else {
                        seq![spec_lower(c)]
                    },
                    Case::Lowercase => Seq::empty(),
                }
            }
        }
    }
}

/// The case conversion of the first `i` characters of `s`.
pub open spec fn spec_cased_prefix(style: Case, s: Seq<char>, i: int) -> Seq<char>
    decreases i,
{
    if i <= 0 {
        Seq::empty()
    } else {
        spec_cased_prefix(style, s, i - 1) + spec_contrib(style, s, i - 1)
    }
}

/// The case conversion of the whole of `s`, before underscore restoration.
pub open spec fn spec_cased(style: Case, s: Seq<char>) -> Seq<char> {
    spec_cased_prefix(style, s, s.len() as int)
}

/// The full sanitizer: case conversion with leading and trailing
/// underscores of the input restored.
pub open spec fn spec_sanitize(style: Case, s: Seq<char>) -> Seq<char> {
    if s.len() == 0 {
        Seq::empty()
    } else {
        let cased = spec_cased(style, s);
        let led = if s[0] == '_' && !(cased.len() > 0 && cased[0] == '_') {
            seq!['_'] + cased
        } else {
            cased
        };
        if s[s.len() - 1] == '_' && !(led.len() > 0 && led[led.len() - 1] == '_') {
            led.push('_')
        } else {
            led
        }
    }
}

impl Case {
    /// Convert `input` to this case style, keeping leading and trailing
    /// underscores of the input.
    pub fn sanitize(&self, input: &str) -> (r: String)
        ensures
            r@ == spec_sanitize(*self, input@),
    {
        let s = chars_of(input);
        if s.len() == 0 {
            return string_from_chars(&Vec::new());
        }
        let mut out: Vec<char> = Vec::new();
        let mut later: bool = false;
        let mut i: usize = 0;
        while i < s.len()
            invariant
                i <= s.len(),
                s@ == input@,
                later == has_word_before(s@, i as int),
                out@ == spec_cased_prefix(*self, s@, i as int),
            decreases s.len() - i,
        {
            let c = s[i];
            let word = is_word_char_exec(c);
            let start = word && (i == 0 || !is_word_char_exec(s[i - 1]) || is_up_exec(c));
            assert(word ==> start == starts_word(s@, i as int));
            match self {
                Case::Lowercase => {
                    if word || c == '_' {
                        out.push(lower_char(c));
                    }
                }
                Case::Pascal => {
                    if word {
                        if start {
                            out.push(upper_char(c));
                        } else {
                            out.push(lower_char(c));
                        }
                    }
                }
                Case::Camel => {
                    if word {
                        if start && later {
                            out.push(upper_char(c));
                        } else {
                            out.push(lower_char(c));
                        }
                    }
                }
                Case::Snake => {
                    if word {
                        if start && later {
                            out.push('_');
                        }
                        out.push(lower_char(c));
                    }
                }
                Case::ShoutySnake => {
                    if word {
                        if start && later {
                            out.push('_');
                        }
                        out.push(upper_char(c));
                    }
                }
                Case::Title => {
                    if word {
                        if start && later {
                            out.push(' ');
                        }
                        if start {
                            out.push(upper_char(c));
                        } else {
                            out.push(lower_char(c));
                        }
                    }
                }
                Case::Kebab => {
                    if word {
                        if start && later {
                            out.push('-');
                        }
                        out.push(lower_char(c));
                    }
                }
            }
            later = later || word;
            i = i + 1;
            assert(out@ =~= spec_cased_prefix(*self, s@, i as int));
            assert(later == has_word_before(s@, i as int));
        }
        if s[0] == '_' && !(out.len() > 0 && out[0] == '_') {
            out.insert(0, '_');
        }
        if s[s.len() - 1] == '_' && !(out.len() > 0 && out[out.len() - 1] == '_') {
            out.push('_');
        }
        assert(out@ =~= spec_sanitize(*self, input@));
        string_from_chars(&out)
    }
}


/// The shape of Pascal-converted text: only word characters, never opening
/// with a lowercase letter.
pub open spec fn pascal_formed(y: Seq<char>) -> bool {
    &&& forall|j: int| 0 <= j < y.len() ==> is_word_char(#[trigger] y[j])
    &&& (y.len() > 0 ==> !is_low(y[0]))
}

proof fn lemma_word_char_cases(c: char)
    ensures
        is_word_char(c) ==> is_word_char(spec_upper(c)),
        is_word_char(c) ==> is_word_char(spec_lower(c)),
        is_word_char(c) ==> !is_low(spec_upper(c)),
        is_word_char(c) ==> spec_upper(c) != '_' && spec_lower(c) != '_',
        is_up(c) ==> spec_upper(c) == c,
        is_word_char(c) && !is_low(c) ==> spec_upper(c) == c,
        is_word_char(c) && !is_up(c) ==> spec_lower(c) == c,
{
}

proof fn lemma_pascal_prefix_formed(s: Seq<char>, i: int)
    requires
        0 <= i <= s.len(),
    ensures
        pascal_formed(spec_cased_prefix(Case::Pascal, s, i)),
        spec_cased_prefix(Case::Pascal, s, i).len() > 0 <==> has_word_before(s, i),
    decreases i,
{
    if i > 0 {
        lemma_pascal_prefix_formed(s, i - 1);
        lemma_word_char_cases(s[i - 1]);
        if is_word_char(s[i - 1]) {
            if !has_word_before(s, i - 1) {
                if i - 1 > 0 {
                    assert(!is_word_char(s[i - 2]));
                }
                assert(starts_word(s, i - 1));
            }
            assert(has_word_before(s, i));
        } else {
            assert(has_word_before(s, i) ==> has_word_before(s, i - 1)) by {
                if has_word_before(s, i) {
                    let j = choose|j: int| 0 <= j < i && is_word_char(s[j]);
                    assert(j != i - 1);
                    assert(0 <= j < i - 1 && is_word_char(s[j]));
                }
            }
        }
    }
}

/// Pascal conversion of text already in Pascal shape, wrapped in optional
/// single underscores, recovers that text exactly.
proof fn lemma_pascal_cased_wrapped_prefix(y: Seq<char>, lead: bool, trail: bool, i: int)
    requires
        pascal_formed(y),
        0 <= i <= wrapped(y, lead, trail).len(),
    ensures
        spec_cased_prefix(Case::Pascal, wrapped(y, lead, trail), i) == y.subrange(
            0,
            clip(i - lead_len(lead), y.len() as int),
        ),
    decreases i,
{
    let l = lead_len(lead);
    let z = wrapped(y, lead, trail);
    if i > 0 {
        lemma_pascal_cased_wrapped_prefix(y, lead, trail, i - 1);
        let k = i - 1 - l;
        if 0 <= k < y.len() {
            assert(z[i - 1] == y[k]);
            lemma_word_char_cases(y[k]);
            if k > 0 {
                assert(z[i - 2] == y[k - 1]);
                assert(is_word_char(y[k - 1]));
            }
            if starts_word(z, i - 1) {
                assert(k == 0 || is_up(y[k]));
                assert(spec_upper(y[k]) == y[k]);
            } else {
                assert(!is_up(y[k]));
                assert(spec_lower(y[k]) == y[k]);
            }
            assert(spec_cased_prefix(Case::Pascal, z, i) =~= y.subrange(0, clip(i - l, y.len() as int)));
        } else {
            assert(z[i - 1] == '_');
            assert(spec_contrib(Case::Pascal, z, i - 1) =~= Seq::<char>::empty());
            assert(spec_cased_prefix(Case::Pascal, z, i) =~= y.subrange(0, clip(i - l, y.len() as int)));
        }
    }
}

/// `y` wrapped in an optional leading and trailing underscore.
pub open spec fn wrapped(y: Seq<char>, lead: bool, trail: bool) -> Seq<char> {
    (if lead { seq!['_'] } else { Seq::empty() }) + y + (if trail { seq!['_'] } else { Seq::empty() })
}

/// The length the optional leading underscore adds.
pub open spec fn lead_len(lead: bool) -> int {
    if lead { 1int } else { 0int }
}

/// `v` clamped into the range `0 ..= hi`.
pub open spec fn clip(v: int, hi: int) -> int {
    if v < 0 { 0 } else if v > hi { hi } else { v }
}

/// Law: converting to the Pascal style is idempotent.  Leading and
/// trailing underscores of the input are preserved by the first pass and
/// kept unchanged by the second.
pub proof fn lemma_pascal_sanitize_idempotent(s: Seq<char>)
    ensures
        spec_sanitize(Case::Pascal, spec_sanitize(Case::Pascal, s)) == spec_sanitize(
            Case::Pascal,
            s,
        ),
{
    if s.len() == 0 {
        assert(spec_sanitize(Case::Pascal, s) =~= Seq::<char>::empty());
    } else {
        let y = spec_cased(Case::Pascal, s);
        lemma_pascal_prefix_formed(s, s.len() as int);
        let lead = s[0] == '_';
        let trail0 = s[s.len() - 1] == '_';
        if y.len() > 0 {
            assert(is_word_char(y[0]) && is_word_char(y[y.len() - 1]));
            assert(y[0] != '_' && y[y.len() - 1] != '_');
        }
        let z = spec_sanitize(Case::Pascal, s);
        if y.len() == 0 && lead {
            // the restored leading underscore is also the last character
            assert(z =~= seq!['_']);
            lemma_pascal_cased_wrapped_prefix(y, true, false, 1);
            assert(spec_cased(Case::Pascal, z) =~= Seq::<char>::empty());
            assert(spec_sanitize(Case::Pascal, z) =~= z);
        } else {
            let trail = trail0;
            assert(z =~= wrapped(y, lead, trail));
            let zl = wrapped(y, lead, trail).len() as int;
            if z.len() == 0 {
                assert(spec_sanitize(Case::Pascal, z) =~= z);
            } else {
                lemma_pascal_cased_wrapped_prefix(y, lead, trail, zl);
                assert(spec_cased(Case::Pascal, z) =~= y);
                assert(spec_sanitize(Case::Pascal, z) =~= z);
            }
        }
    }
}

/// Law: the sanitizer preserves leading and trailing underscores of its
/// input, in every style.
pub proof fn lemma_sanitize_keeps_underscores(style: Case, s: Seq<char>)
    requires
        s.len() > 0,
    ensures
        s[0] == '_' ==> spec_sanitize(style, s).len() > 0 && spec_sanitize(style, s)[0] == '_',
        s[s.len() - 1] == '_' ==> spec_sanitize(style, s).len() > 0 && spec_sanitize(style, s)[
            spec_sanitize(style, s).len() - 1
        ] == '_',
{
    let cased = spec_cased(style, s);
    let led = if s[0] == '_' && !(cased.len() > 0 && cased[0] == '_') {
        seq!['_'] + cased
    } else {
        cased
    };
    if s[0] == '_' {
        assert(led.len() > 0 && led[0] == '_');
    }
    if s[s.len() - 1] == '_' {
        let fin = spec_sanitize(style, s);
        if !(led.len() > 0 && led[led.len() - 1] == '_') {
            assert(fin == led.push('_'));
            assert(fin[fin.len() - 1] == '_');
        }
        if s[0] == '_' {
            assert(fin[0] == '_');
        }
    }
}

} // verus!
