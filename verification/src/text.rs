//! Small text operations that the generators are built from, each with the
//! sequence of characters it produces.
use vstd::prelude::*;
use vstd::string::*;

verus! {

/// `String::push`: the character is added at the end and nothing else changes.
#[verifier::external_body]
pub(crate) fn push_char(s: &mut String, c: char)
    ensures
        final(s)@ == old(s)@.push(c),
{
    s.push(c)
}

/// Whether two texts hold the same characters.
pub fn same_text(a: &str, b: &str) -> (r: bool)
    ensures
        r == (a@ == b@),
{
    let x = String::from_str(a);
    let y = String::from_str(b);
    x == y
}

/// The decimal digit for a value below ten.
pub open spec fn digit_char(d: nat) -> char {
    if d == 0 {
        '0'
    } else if d == 1 {
        '1'
    } else if d == 2 {
        '2'
    } else if d == 3 {
        '3'
    } else if d == 4 {
        '4'
    } else if d == 5 {
        '5'
    } else if d == 6 {
        '6'
    } else if d == 7 {
        '7'
    } else if d == 8 {
        '8'
    } else {
        '9'
    }
}

/// The value of a decimal digit, zero for any other character.
pub open spec fn digit_value(c: char) -> nat {
    if c == '1' {
        1
    } else if c == '2' {
        2
    } else if c == '3' {
        3
    } else if c == '4' {
        4
    } else if c == '5' {
        5
    } else if c == '6' {
        6
    } else if c == '7' {
        7
    } else if c == '8' {
        8
    } else if c == '9' {
        9
    } else {
        0
    }
}

/// The decimal notation of a number, without leading zeros.
pub open spec fn decimal(n: nat) -> Seq<char>
    decreases n,
{
    if n < 10 {
        seq![digit_char(n)]
    } else {
        decimal(n / 10).push(digit_char(n % 10))
    }
}

/// The number that a sequence of decimal digits denotes.
pub open spec fn decimal_value(s: Seq<char>) -> nat
    decreases s.len(),
{
    if s.len() == 0 {
        0
    } else {
        decimal_value(s.drop_last()) * 10 + digit_value(s.last())
    }
}

/// Reading a decimal notation gives the number back, so two numbers with the
/// same notation are equal.
pub proof fn lemma_decimal_value(n: nat)
    ensures
        decimal_value(decimal(n)) == n,
        decimal(n).len() >= 1,
    decreases n,
{
    if n < 10 {
        assert(decimal(n).drop_last() =~= Seq::<char>::empty());
        assert(decimal_value(decimal(n).drop_last()) == 0);
    } else {
        lemma_decimal_value(n / 10);
        assert(decimal(n).drop_last() =~= decimal(n / 10));
    }
}

fn digit(d: usize) -> (c: char)
    requires
        d < 10,
    ensures
        c == digit_char(d as nat),
{
    if d == 0 {
        '0'
    } else if d == 1 {
        '1'
    } else if d == 2 {
        '2'
    } else if d == 3 {
        '3'
    } else if d == 4 {
        '4'
    } else if d == 5 {
        '5'
    } else if d == 6 {
        '6'
    } else if d == 7 {
        '7'
    } else if d == 8 {
        '8'
    } else {
        '9'
    }
}

/// Writes a number in decimal.
pub fn decimal_string(n: usize) -> (s: String)
    ensures
        s@ == decimal(n as nat),
    decreases n,
{
    if n < 10 {
        let mut s = String::new();
        push_char(&mut s, digit(n));
        assert(s@ =~= seq![digit_char(n as nat)]);
        s
    } else {
        let mut s = decimal_string(n / 10);
        push_char(&mut s, digit(n % 10));
        s
    }
}

/// The parts written one after another with the separator between neighbours.
pub open spec fn join_spec(parts: Seq<Seq<char>>, sep: Seq<char>) -> Seq<char>
    decreases parts.len(),
{
    if parts.len() == 0 {
        Seq::empty()
    } else if parts.len() == 1 {
        parts[0]
    } else {
        join_spec(parts.drop_last(), sep) + sep + parts.last()
    }
}

/// The character sequences that a vector of strings holds.
pub open spec fn texts(v: Seq<String>) -> Seq<Seq<char>> {
    Seq::new(v.len(), |i: int| v[i]@)
}

/// Joins strings with a separator.
pub fn join(parts: &Vec<String>, sep: &str) -> (s: String)
    ensures
        s@ == join_spec(texts(parts@), sep@),
{
    let ghost all = texts(parts@);
    let mut out = String::new();
    let mut i: usize = 0;
    while i < parts.len()
        invariant
            i <= parts.len(),
            all == texts(parts@),
            out@ == join_spec(all.take(i as int), sep@),
        decreases parts.len() - i,
    {
        if i > 0 {
            out.append(sep);
        }
        out.append(parts[i].as_str());
        proof {
            let next = all.take(i + 1);
            assert(next.drop_last() =~= all.take(i as int));
            assert(next.last() == parts[i as int]@);
            if i == 0 {
                assert(out@ =~= next[0]);
            }
        }
        i += 1;
    }
    assert(all.take(parts.len() as int) =~= all);
    out
}

/// A letter of the ASCII alphabet, a decimal digit or an underscore.
pub open spec fn is_word_char(c: char) -> bool {
    ('a' <= c && c <= 'z') || ('A' <= c && c <= 'Z') || ('0' <= c && c <= '9') || c == '_'
}

/// The characters of `s` for which `keep` holds, in their order.
pub open spec fn kept(s: Seq<char>, keep: spec_fn(char) -> bool) -> Seq<char>
    decreases s.len(),
{
    if s.len() == 0 {
        Seq::empty()
    } else if keep(s.last()) {
        kept(s.drop_last(), keep).push(s.last())
    } else {
        kept(s.drop_last(), keep)
    }
}

/// What is left of a name when everything but word characters is dropped.
pub open spec fn clean_name(s: Seq<char>) -> Seq<char> {
    kept(s, |c: char| is_word_char(c))
}

/// Turns a display name into an identifier: only ASCII letters, digits and
/// underscores stay.
pub fn clean_var_name(name: &str) -> (s: String)
    ensures
        s@ == clean_name(name@),
{
    let ghost keep = |c: char| is_word_char(c);
    let mut out = String::new();
    for c in it: name.chars()
        invariant
            it.seq() == name@,
            keep == (|c: char| is_word_char(c)),
            out@ == kept(name@.take(it.index() as int), keep),
    {
        proof {
            let next = name@.take(it.index() + 1);
            assert(next.drop_last() =~= name@.take(it.index() as int));
            assert(next.last() == c);
        }
        if (c >= 'a' && c <= 'z') || (c >= 'A' && c <= 'Z') || (c >= '0' && c <= '9') || c == '_' {
            push_char(&mut out, c);
        }
    }
    assert(name@.take(name@.len() as int) =~= name@);
    out
}

/// Whether a character marks a field access: a dot or a square bracket.
pub open spec fn is_field_mark(c: char) -> bool {
    c == '.' || c == '[' || c == ']'
}

/// A field path without its dots and square brackets.
pub open spec fn plain_field(s: Seq<char>) -> Seq<char> {
    kept(s, |c: char| !is_field_mark(c))
}

/// Drops the dots and square brackets of a field path.
pub fn strip_field_marks(field: &str) -> (s: String)
    ensures
        s@ == plain_field(field@),
{
    let ghost keep = |c: char| !is_field_mark(c);
    let mut out = String::new();
    for c in it: field.chars()
        invariant
            it.seq() == field@,
            keep == (|c: char| !is_field_mark(c)),
            out@ == kept(field@.take(it.index() as int), keep),
    {
        proof {
            let next = field@.take(it.index() + 1);
            assert(next.drop_last() =~= field@.take(it.index() as int));
            assert(next.last() == c);
        }
        if !(c == '.' || c == '[' || c == ']') {
            push_char(&mut out, c);
        }
    }
    assert(field@.take(field@.len() as int) =~= field@);
    out
}

/// The upper-case form of an ASCII lower-case letter; any other character is itself.
pub open spec fn upper_char(c: char) -> char {
    if 'a' <= c && c <= 'z' {
        ((c as u8) - 32) as char
    } else {
        c
    }
}

/// The text with its first character in upper case.
pub open spec fn capitalized(s: Seq<char>) -> Seq<char> {
    if s.len() == 0 {
        s
    } else {
        seq![upper_char(s[0])] + s.skip(1)
    }
}

/// Puts the first letter in upper case, where it is an ASCII lower-case letter.
pub fn capitalize_first_letter(s: &str) -> (r: String)
    ensures
        r@ == capitalized(s@),
{
    let n = s.unicode_len();
    if n == 0 {
        let r = String::from_str(s);
        r
    } else {
        let c = s.get_char(0);
        let up = if c >= 'a' && c <= 'z' {
            let b: u8 = c as u8;
            (b - 32) as char
        } else {
            c
        };
        let mut r = String::new();
        push_char(&mut r, up);
        r.append(s.substring_char(1, n));
        assert(r@ =~= capitalized(s@));
        r
    }
}

/// A path pattern with the braces of its parameters turned into square brackets.
pub open spec fn bracketed(s: Seq<char>) -> Seq<char> {
    Seq::new(s.len(), |i: int| if s[i] == '{' { '[' } else if s[i] == '}' { ']' } else { s[i] })
}

/// Replaces `{` by `[` and `}` by `]`.
pub fn replace_braces(path: &str) -> (s: String)
    ensures
        s@ == bracketed(path@),
{
    let mut out = String::new();
    for c in it: path.chars()
        invariant
            it.seq() == path@,
            out@ == bracketed(path@.take(it.index() as int)),
    {
        let d = if c == '{' { '[' } else if c == '}' { ']' } else { c };
        push_char(&mut out, d);
        assert(out@ =~= bracketed(path@.take(it.index() + 1)));
    }
    assert(path@.take(path@.len() as int) =~= path@);
    out
}

/// Whether `s` begins with `prefix`.
pub open spec fn starts_with(s: Seq<char>, prefix: Seq<char>) -> bool {
    prefix.len() <= s.len() && s.take(prefix.len() as int) == prefix
}

/// Whether `s` ends with `suffix`.
pub open spec fn ends_with(s: Seq<char>, suffix: Seq<char>) -> bool {
    suffix.len() <= s.len() && s.skip(s.len() - suffix.len()) == suffix
}

/// `s` without `prefix` where it begins with it, else `s`.
pub open spec fn without_prefix(s: Seq<char>, prefix: Seq<char>) -> Seq<char> {
    if starts_with(s, prefix) {
        s.skip(prefix.len() as int)
    } else {
        s
    }
}

/// `s` without `suffix` where it ends with it, else `s`.
pub open spec fn without_suffix(s: Seq<char>, suffix: Seq<char>) -> Seq<char> {
    if ends_with(s, suffix) {
        s.take(s.len() - suffix.len())
    } else {
        s
    }
}

/// Removes a prefix, if the text has it.
pub fn strip_prefix(s: &str, prefix: &str) -> (r: String)
    ensures
        r@ == without_prefix(s@, prefix@),
{
    let n = s.unicode_len();
    let m = prefix.unicode_len();
    if m <= n && same_text(s.substring_char(0, m), prefix) {
        String::from_str(s.substring_char(m, n))
    } else {
        String::from_str(s)
    }
}

/// Removes a suffix, if the text has it.
pub fn strip_suffix(s: &str, suffix: &str) -> (r: String)
    ensures
        r@ == without_suffix(s@, suffix@),
{
    let n = s.unicode_len();
    let m = suffix.unicode_len();
    if m <= n && same_text(s.substring_char(n - m, n), suffix) {
        String::from_str(s.substring_char(0, n - m))
    } else {
        String::from_str(s)
    }
}

/// White space as Unicode defines it.
pub open spec fn is_space(c: char) -> bool {
    ('\u{9}' <= c && c <= '\u{d}') || c == ' ' || c == '\u{85}' || c == '\u{a0}' || c == '\u{1680}'
        || ('\u{2000}' <= c && c <= '\u{200a}') || c == '\u{2028}' || c == '\u{2029}' || c
        == '\u{202f}' || c == '\u{205f}' || c == '\u{3000}'
}

/// Whether a text holds nothing but white space.
pub open spec fn blank(s: Seq<char>) -> bool {
    forall|i: int| 0 <= i < s.len() ==> is_space(#[trigger] s[i])
}

/// Whether a text holds nothing but white space.
pub fn is_blank(s: &str) -> (r: bool)
    ensures
        r == blank(s@),
{
    let mut all = true;
    for c in it: s.chars()
        invariant
            it.seq() == s@,
            all == blank(s@.take(it.index() as int)),
    {
        let space = (c >= '\u{9}' && c <= '\u{d}') || c == ' ' || c == '\u{85}' || c == '\u{a0}'
            || c == '\u{1680}' || (c >= '\u{2000}' && c <= '\u{200a}') || c == '\u{2028}' || c
            == '\u{2029}' || c == '\u{202f}' || c == '\u{205f}' || c == '\u{3000}';
        proof {
            let before = s@.take(it.index() as int);
            let next = s@.take(it.index() + 1);
            assert(next[it.index() as int] == c);
            assert(forall|j: int| 0 <= j < before.len() ==> before[j] == next[j]);
            if blank(next) {
                assert(forall|j: int| 0 <= j < before.len() ==> is_space(#[trigger] before[j])) by {
                    assert(forall|j: int| 0 <= j < before.len() ==> is_space(#[trigger] next[j]));
                }
            }
        }
        all = all && space;
    }
    assert(s@.take(s@.len() as int) =~= s@);
    all
}

/// The state of a scan for path segments after `i` characters: the segments
/// that are complete and the one that is being read.
pub open spec fn segments_from(s: Seq<char>, i: int, current: Seq<char>, done: Seq<Seq<char>>) -> Seq<
    Seq<char>,
>
    decreases s.len() - i,
{
    if i < 0 || i >= s.len() {
        close_segment(current, done)
    } else if s[i] == '/' {
        segments_from(s, i + 1, Seq::empty(), close_segment(current, done))
    } else {
        segments_from(s, i + 1, current.push(s[i]), done)
    }
}

/// Adds the segment that was being read to the complete ones, unless it is empty.
pub open spec fn close_segment(current: Seq<char>, done: Seq<Seq<char>>) -> Seq<Seq<char>> {
    if current.len() > 0 {
        done.push(current)
    } else {
        done
    }
}

/// The non-empty pieces of a path between its slashes, in order.
pub open spec fn segments(s: Seq<char>) -> Seq<Seq<char>> {
    segments_from(s, 0, Seq::empty(), Seq::empty())
}

/// Splits a path at its slashes and drops the empty pieces.
pub fn split_segments(path: &str) -> (parts: Vec<String>)
    ensures
        texts(parts@) == segments(path@),
{
    let mut parts: Vec<String> = Vec::new();
    let mut current = String::new();
    let mut filled = false;
    assert(texts(parts@) =~= Seq::<Seq<char>>::empty());
    for c in it: path.chars()
        invariant
            it.seq() == path@,
            filled == (current@.len() > 0),
            segments(path@) == segments_from(path@, it.index() as int, current@, texts(parts@)),
    {
        if c == '/' {
            if filled {
                let ghost before = texts(parts@);
                parts.push(current);
                assert(texts(parts@) =~= before.push(current@));
                current = String::new();
                filled = false;
            }
            assert(current@ =~= Seq::<char>::empty());
        } else {
            push_char(&mut current, c);
            filled = true;
        }
    }
    if filled {
        let ghost before = texts(parts@);
        parts.push(current);
        assert(texts(parts@) =~= before.push(current@));
    }
    parts
}

} // verus!
