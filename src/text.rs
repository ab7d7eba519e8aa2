//! Characters, character classes and the line model shared by the editor.
use vstd::prelude::*;

verus! {

/// Whether `char::is_alphanumeric` holds of a character.
pub uninterp spec fn alphanumeric(c: char) -> bool;

/// Whether `char::is_whitespace` holds of a character.
pub uninterp spec fn whitespace(c: char) -> bool;

/// Relies on `char::is_alphanumeric`: the Unicode Alphabetic or Numeric property
/// of the character, which depends on the character alone.
#[verifier::external_body]
pub(crate) fn is_alphanumeric(c: char) -> (r: bool)
    ensures
        r == alphanumeric(c),
{
    c.is_alphanumeric()
}

/// Relies on `char::is_whitespace`: the Unicode White_Space property of the
/// character, which depends on the character alone.
#[verifier::external_body]
pub(crate) fn is_whitespace(c: char) -> (r: bool)
    ensures
        r == whitespace(c),
{
    c.is_whitespace()
}

/// Relies on `String::push`: the character is appended at the end.
#[verifier::external_body]
pub(crate) fn push_char(s: &mut String, c: char)
    ensures
        final(s)@ == old(s)@.push(c),
{
    s.push(c);
}

/// The class of a character for word motions.
#[derive(Clone, Copy, Debug, PartialEq, Eq, Structural)]
pub enum CharClass {
    /// Letters, digits and the underscore.
    Word,
    /// Any other character that is not whitespace.
    Punct,
    /// Whitespace.
    Space,
}

/// Class of a character for "word" motions: three classes.
pub open spec fn class_of(c: char) -> CharClass {
    if whitespace(c) {
        CharClass::Space
    } else if alphanumeric(c) || c == '_' {
        CharClass::Word
    } else {
        CharClass::Punct
    }
}

/// Class of a character for "WORD" motions: whitespace or not.
pub open spec fn big_class_of(c: char) -> CharClass {
    if whitespace(c) {
        CharClass::Space
    } else {
        CharClass::Word
    }
}

/// The classes of the characters of a line.
pub open spec fn classes(line: Seq<char>, big: bool) -> Seq<CharClass> {
    line.map_values(|c: char| if big { big_class_of(c) } else { class_of(c) })
}

/// The class of one character.
pub fn classify(c: char, big: bool) -> (r: CharClass)
    ensures
        r == (if big { big_class_of(c) } else { class_of(c) }),
{
    if is_whitespace(c) {
        CharClass::Space
    } else if big || c == '_' || is_alphanumeric(c) {
        CharClass::Word
    } else {
        CharClass::Punct
    }
}

/// The classes of a sequence of characters.
pub fn classes_of(chars: &Vec<char>, big: bool) -> (r: Vec<CharClass>)
    ensures
        r@ == classes(chars@, big),
{
    let mut r: Vec<CharClass> = Vec::new();
    let mut i: usize = 0;
    while i < chars.len()
        invariant
            i <= chars.len(),
            r@ == classes(chars@.subrange(0, i as int), big),
        decreases chars.len() - i,
    {
        r.push(classify(chars[i], big));
        i += 1;
        assert(classes(chars@.subrange(0, i as int), big) =~= r@);
    }
    assert(chars@.subrange(0, i as int) =~= chars@);
    r
}

/// The characters of a string, in order.
pub fn chars_of(s: &str) -> (r: Vec<char>)
    ensures
        r@ == s@,
{
    let mut r: Vec<char> = Vec::new();
    for c in it: s.chars()
        invariant
            r@ == it.seq().subrange(0, it.index() as int),
            it.seq() == s@,
    {
        r.push(c);
    }
    r
}

/// The number of characters of a string.
pub fn char_count(s: &str) -> (r: usize)
    ensures
        r == s@.len(),
{
    s.unicode_len()
}

/// A string made of `chars[from..to]`.
pub fn string_of(chars: &Vec<char>, from: usize, to: usize) -> (r: String)
    requires
        from <= to <= chars.len(),
    ensures
        r@ == chars@.subrange(from as int, to as int),
{
    let mut r = String::new();
    let mut i: usize = from;
    while i < to
        invariant
            from <= i <= to <= chars.len(),
            r@ == chars@.subrange(from as int, i as int),
        decreases to - i,
    {
        push_char(&mut r, chars[i]);
        i += 1;
        assert(r@ =~= chars@.subrange(from as int, i as int));
    }
    r
}

/// `s` with `c` inserted before the character at `at`.
pub fn with_inserted(s: &String, at: usize, c: char) -> (r: String)
    requires
        at <= s@.len(),
    ensures
        r@ == s@.insert(at as int, c),
{
    let n = char_count(s.as_str());
    let mut r = String::from_str(s.as_str().substring_char(0, at));
    push_char(&mut r, c);
    r.append(s.as_str().substring_char(at, n));
    assert(r@ =~= s@.insert(at as int, c));
    r
}

/// `s` without the character at `at`.
pub fn with_removed(s: &String, at: usize) -> (r: String)
    requires
        at < s@.len(),
    ensures
        r@ == s@.remove(at as int),
{
    let n = char_count(s.as_str());
    let mut r = String::from_str(s.as_str().substring_char(0, at));
    r.append(s.as_str().substring_char(at + 1, n));
    assert(r@ =~= s@.remove(at as int));
    r
}

/// The characters of `s` from `from` up to `to`.
pub fn substring(s: &String, from: usize, to: usize) -> (r: String)
    requires
        from <= to <= s@.len(),
    ensures
        r@ == s@.subrange(from as int, to as int),
{
    String::from_str(s.as_str().substring_char(from, to))
}

/// The view of each line of a sequence of strings.
pub open spec fn lines_view(v: Seq<String>) -> Seq<Seq<char>> {
    v.map_values(|s: String| s@)
}

/// No line holds a line break.
pub open spec fn no_line_breaks(lines: Seq<Seq<char>>) -> bool {
    forall|i: int, j: int| 0 <= i < lines.len() && 0 <= j < lines[i].len() ==> lines[i][j] != '\n'
}

/// Lines joined with a line break between each two.
pub open spec fn join_lines(lines: Seq<Seq<char>>) -> Seq<char>
    decreases lines.len(),
{
    if lines.len() == 0 {
        Seq::empty()
    } else if lines.len() == 1 {
        lines[0]
    } else {
        join_lines(lines.drop_last()) + seq!['\n'] + lines.last()
    }
}

/// A text cut at each line break: one more line than there are line breaks.
pub open spec fn split_lines(s: Seq<char>) -> Seq<Seq<char>>
    decreases s.len(),
{
    if s.len() == 0 {
        seq![Seq::empty()]
    } else {
        let p = split_lines(s.drop_last());
        if s.last() == '\n' {
            p.push(Seq::empty())
        } else {
            p.update(p.len() - 1, p.last().push(s.last()))
        }
    }
}

/// A text cuts into at least one line.
pub proof fn lemma_split_lines_len(s: Seq<char>)
    ensures
        split_lines(s).len() >= 1,
    decreases s.len(),
{
    if s.len() > 0 {
        lemma_split_lines_len(s.drop_last());
    }
}

/// A text without line breaks is one line.
proof fn lemma_split_single(s: Seq<char>)
    requires
        forall|j: int| 0 <= j < s.len() ==> s[j] != '\n',
    ensures
        split_lines(s) == seq![s],
    decreases s.len(),
{
    if s.len() > 0 {
        assert(s.last() == s[s.len() - 1]);
        assert(s.last() != '\n');
        lemma_split_single(s.drop_last());
        assert(split_lines(s.drop_last()) == seq![s.drop_last()]);
        let p = split_lines(s.drop_last());
        assert(split_lines(s) == p.update(p.len() - 1, p.last().push(s.last())));
        assert(s.drop_last().push(s.last()) =~= s);
        assert(p.update(p.len() - 1, p.last().push(s.last())) =~= seq![s]);
    } else {
        assert(s =~= Seq::<char>::empty());
    }
}

/// Cutting `a`, a line break and a line `b` gives the lines of `a`, then `b`.
proof fn lemma_split_after_break(a: Seq<char>, b: Seq<char>)
    requires
        forall|j: int| 0 <= j < b.len() ==> b[j] != '\n',
    ensures
        split_lines(a + seq!['\n'] + b) == split_lines(a).push(b),
    decreases b.len(),
{
    let s = a + seq!['\n'] + b;
    if b.len() == 0 {
        assert(b =~= Seq::<char>::empty());
        assert(s.drop_last() =~= a);
        assert(s.last() == '\n');
    } else {
        let b0 = b.drop_last();
        lemma_split_after_break(a, b0);
        assert(s.drop_last() =~= a + seq!['\n'] + b0);
        assert(s.last() == b[b.len() - 1]);
        assert(s.last() != '\n');
        assert(b0.push(b.last()) =~= b);
        let p = split_lines(a).push(b0);
        assert(p.update(p.len() - 1, p.last().push(s.last())) =~= split_lines(a).push(b));
    }
}

/// Joining lines that hold no line break and cutting the result at each line
/// break gives back the same lines.
pub proof fn lemma_split_join(lines: Seq<Seq<char>>)
    requires
        lines.len() >= 1,
        no_line_breaks(lines),
    ensures
        split_lines(join_lines(lines)) == lines,
    decreases lines.len(),
{
    if lines.len() == 1 {
        assert(forall|j: int| 0 <= j < lines[0].len() ==> lines[0][j] != '\n');
        lemma_split_single(lines[0]);
        assert(seq![lines[0]] =~= lines);
    } else {
        let init = lines.drop_last();
        assert(no_line_breaks(init));
        lemma_split_join(init);
        assert(forall|j: int| 0 <= j < lines.last().len() ==> lines.last()[j] != '\n');
        lemma_split_after_break(join_lines(init), lines.last());
        assert(init.push(lines.last()) =~= lines);
    }
}

/// Cuts a text into lines at each `'\n'`.
pub fn split_text(text: &str) -> (r: Vec<String>)
    ensures
        lines_view(r@) == split_lines(text@),
{
    let chars = chars_of(text);
    let mut lines: Vec<String> = Vec::new();
    let mut cur = String::new();
    let mut i: usize = 0;
    assert(chars@.subrange(0, 0) =~= Seq::<char>::empty());
    assert(lines_view(lines@).push(cur@) =~= seq![Seq::<char>::empty()]);
    while i < chars.len()
        invariant
            i <= chars.len(),
            chars@ == text@,
            lines_view(lines@).push(cur@) == split_lines(chars@.subrange(0, i as int)),
        decreases chars.len() - i,
    {
        let c = chars[i];
        let ghost before = chars@.subrange(0, i as int);
        assert(chars@.subrange(0, i + 1).drop_last() =~= before);
        if c == '\n' {
            lines.push(cur);
            cur = String::new();
            assert(lines_view(lines@).push(cur@) =~= split_lines(before).push(Seq::empty()));
        } else {
            push_char(&mut cur, c);
            let ghost p = split_lines(before);
            assert(lines_view(lines@).push(cur@) =~= p.update(p.len() - 1, p.last().push(c)));
        }
        i += 1;
    }
    lines.push(cur);
    assert(chars@.subrange(0, i as int) =~= chars@);
    assert(lines_view(lines@) =~= split_lines(text@));
    lines
}

/// Joins lines with a `'\n'` between each two.
pub fn join_text(lines: &Vec<String>) -> (r: String)
    ensures
        r@ == join_lines(lines_view(lines@)),
{
    let mut r = String::new();
    let mut i: usize = 0;
    while i < lines.len()
        invariant
            i <= lines.len(),
            r@ == join_lines(lines_view(lines@.subrange(0, i as int))),
        decreases lines.len() - i,
    {
        let ghost prev = lines_view(lines@.subrange(0, i as int));
        let ghost next = lines_view(lines@.subrange(0, i + 1));
        assert(next.drop_last() =~= prev);
        if i > 0 {
            push_char(&mut r, '\n');
        }
        r.append(lines[i].as_str());
        i += 1;
        assert(r@ =~= join_lines(next));
    }
    assert(lines@.subrange(0, i as int) =~= lines@);
    r
}

/// Relies on `String::pop`: removes and returns the last character, if any.
#[verifier::external_body]
pub(crate) fn pop_char(s: &mut String) -> (r: Option<char>)
    ensures
        old(s)@.len() > 0 ==> r == Some(old(s)@.last()) && final(s)@ == old(s)@.drop_last(),
        old(s)@.len() == 0 ==> r is None && final(s)@ == old(s)@,
{
    s.pop()
}

/// `s` without leading whitespace.
pub open spec fn trim_start(s: Seq<char>) -> Seq<char>
    decreases s.len(),
{
    if s.len() > 0 && whitespace(s[0]) {
        trim_start(s.drop_first())
    } else {
        s
    }
}

/// `s` without trailing whitespace.
pub open spec fn trim_end(s: Seq<char>) -> Seq<char>
    decreases s.len(),
{
    if s.len() > 0 && whitespace(s.last()) {
        trim_end(s.drop_last())
    } else {
        s
    }
}

/// `s` without leading and trailing whitespace.
pub open spec fn trimmed(s: Seq<char>) -> Seq<char> {
    trim_end(trim_start(s))
}

/// `p` is a prefix of `s`.
pub open spec fn starts_with(s: Seq<char>, p: Seq<char>) -> bool {
    p.len() <= s.len() && s.subrange(0, p.len() as int) == p
}

/// Whether each character is whitespace.
pub open spec fn space_flags(s: Seq<char>) -> Seq<bool> {
    s.map_values(|c: char| whitespace(c))
}

/// Steps forward from `p`, up to `to`, while the flag at `p` is set.
pub open spec fn skip_set(flags: Seq<bool>, p: int, to: int) -> int
    decreases to - p,
{
    if 0 <= p < to && p < flags.len() && flags[p] {
        skip_set(flags, p + 1, to)
    } else {
        p
    }
}

/// Steps back from `q`, down to `p`, while the flag before `q` is set.
pub open spec fn back_set(flags: Seq<bool>, p: int, q: int) -> int
    decreases q - p,
{
    if p < q && 0 < q <= flags.len() && flags[q - 1] {
        back_set(flags, p, q - 1)
    } else {
        q
    }
}

/// The bounds of `flags[from..to]` without its leading and trailing set flags.
pub fn trim_range(flags: &Vec<bool>, from: usize, to: usize) -> (r: (usize, usize))
    requires
        from <= to <= flags.len(),
    ensures
        r.0 == skip_set(flags@, from as int, to as int),
        r.1 == back_set(flags@, r.0 as int, to as int),
        from <= r.0 <= r.1 <= to,
{
    let mut i = from;
    while i < to && flags[i]
        invariant
            from <= i <= to <= flags.len(),
            skip_set(flags@, i as int, to as int) == skip_set(flags@, from as int, to as int),
        decreases to - i,
    {
        i += 1;
    }
    let mut j = to;
    while j > i && flags[j - 1]
        invariant
            from <= i <= j <= to <= flags.len(),
            back_set(flags@, i as int, j as int) == back_set(flags@, i as int, to as int),
        decreases j,
    {
        j -= 1;
    }
    (i, j)
}

proof fn lemma_trim_start(s: Seq<char>, i: int, to: int)
    requires
        0 <= i <= to <= s.len(),
    ensures
        i <= skip_set(space_flags(s), i, to) <= to,
        trim_start(s.subrange(i, to)) == s.subrange(skip_set(space_flags(s), i, to), to),
    decreases to - i,
{
    if i < to && whitespace(s[i]) {
        assert(s.subrange(i, to).drop_first() =~= s.subrange(i + 1, to));
        lemma_trim_start(s, i + 1, to);
    }
}

proof fn lemma_trim_end(s: Seq<char>, i: int, j: int)
    requires
        0 <= i <= j <= s.len(),
    ensures
        i <= back_set(space_flags(s), i, j) <= j,
        trim_end(s.subrange(i, j)) == s.subrange(i, back_set(space_flags(s), i, j)),
    decreases j - i,
{
    if i < j && whitespace(s[j - 1]) {
        assert(s.subrange(i, j).drop_last() =~= s.subrange(i, j - 1));
        lemma_trim_end(s, i, j - 1);
    }
}

/// The whitespace flags of a sequence of characters.
pub fn space_flags_of(chars: &Vec<char>) -> (r: Vec<bool>)
    ensures
        r@ == space_flags(chars@),
{
    let mut r: Vec<bool> = Vec::new();
    let mut i: usize = 0;
    while i < chars.len()
        invariant
            i <= chars.len(),
            r@ == space_flags(chars@.subrange(0, i as int)),
        decreases chars.len() - i,
    {
        r.push(is_whitespace(chars[i]));
        i += 1;
        assert(r@ =~= space_flags(chars@.subrange(0, i as int)));
    }
    assert(chars@.subrange(0, i as int) =~= chars@);
    r
}

/// The bounds of `chars[from..to]` without leading and trailing whitespace.
pub fn trim_bounds(chars: &Vec<char>, from: usize, to: usize) -> (r: (usize, usize))
    requires
        from <= to <= chars.len(),
    ensures
        from <= r.0 <= r.1 <= to,
        chars@.subrange(r.0 as int, r.1 as int) == trimmed(chars@.subrange(from as int, to as int)),
{
    let flags = space_flags_of(chars);
    let (i, j) = trim_range(&flags, from, to);
    proof {
        lemma_trim_start(chars@, from as int, to as int);
        lemma_trim_end(chars@, i as int, to as int);
    }
    (i, j)
}

/// Whether `chars[from..to]` is the text of `lit`.
pub fn equals_literal(chars: &Vec<char>, from: usize, to: usize, lit: &str) -> (r: bool)
    requires
        from <= to <= chars.len(),
    ensures
        r == (chars@.subrange(from as int, to as int) == lit@),
{
    let n = lit.unicode_len();
    if to - from != n {
        return false;
    }
    let mut k: usize = 0;
    while k < n
        invariant
            k <= n,
            n == lit@.len(),
            to - from == n,
            from <= to <= chars.len(),
            forall|j: int| 0 <= j < k ==> chars@[from + j] == lit@[j],
        decreases n - k,
    {
        if chars[from + k] != lit.get_char(k) {
            assert(chars@.subrange(from as int, to as int)[k as int] != lit@[k as int]);
            return false;
        }
        k += 1;
    }
    assert(chars@.subrange(from as int, to as int) =~= lit@);
    true
}

/// Whether `chars[from..to]` starts with the text of `lit`.
pub fn has_literal_prefix(chars: &Vec<char>, from: usize, to: usize, lit: &str) -> (r: bool)
    requires
        from <= to <= chars.len(),
    ensures
        r == starts_with(chars@.subrange(from as int, to as int), lit@),
{
    let n = lit.unicode_len();
    if to - from < n {
        return false;
    }
    let r = equals_literal(chars, from, from + n, lit);
    assert(chars@.subrange(from as int, to as int).subrange(0, n as int) =~= chars@.subrange(
        from as int,
        from + n,
    ));
    r
}

} // verus!
