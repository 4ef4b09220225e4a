//! Character-level text primitives.
//!
//! Text is modelled as `Seq<char>`, the view of `str` and `String`. The
//! executable functions work on slices of `char`, which give constant-time
//! indexing; `chars_of` and `string_of` move between the two forms.
//!
//! Everything here is built on one idea: a *run* is a maximal stretch of
//! characters that all lie inside (or all lie outside) a `CharClass`.
//! Trimming, splitting at a delimiter, splitting into lines and picking a
//! whitespace-separated word are all stated as runs.
use vstd::prelude::*;
use vstd::string::*;

verus! {

/// `String::push` of the standard library: the character is appended at the
/// end of the string and nothing else changes.
pub assume_specification[ String::push ](s: &mut String, ch: char)
    ensures
        final(s)@ == old(s)@.push(ch),
;

/// Whether `c` has the Unicode property `White_Space`.
pub open spec fn is_whitespace(c: char) -> bool {
    ||| '\u{9}' <= c <= '\u{d}'
    ||| c == ' '
    ||| c == '\u{85}'
    ||| c == '\u{a0}'
    ||| c == '\u{1680}'
    ||| '\u{2000}' <= c <= '\u{200a}'
    ||| c == '\u{2028}'
    ||| c == '\u{2029}'
    ||| c == '\u{202f}'
    ||| c == '\u{205f}'
    ||| c == '\u{3000}'
}

/// Executable test for the Unicode property `White_Space`.
pub fn whitespace(c: char) -> (b: bool)
    ensures
        b == is_whitespace(c),
{
    (c >= '\u{9}' && c <= '\u{d}') || c == ' ' || c == '\u{85}' || c == '\u{a0}' || c == '\u{1680}'
        || (c >= '\u{2000}' && c <= '\u{200a}') || c == '\u{2028}' || c == '\u{2029}' || c
        == '\u{202f}' || c == '\u{205f}' || c == '\u{3000}'
}

/// A set of characters that a scan tests each character against.
#[derive(Clone, Copy, Debug)]
pub enum CharClass {
    /// Every character with the Unicode property `White_Space`.
    Whitespace,
    /// Exactly one character.
    Only(char),
}

impl CharClass {
    /// Whether `c` belongs to the class.
    pub open spec fn has(self, c: char) -> bool {
        match self {
            CharClass::Whitespace => is_whitespace(c),
            CharClass::Only(d) => c == d,
        }
    }

    /// Executable membership test.
    pub fn contains(&self, c: char) -> (b: bool)
        ensures
            b == self.has(c),
    {
        match self {
            CharClass::Whitespace => whitespace(c),
            CharClass::Only(d) => c == *d,
        }
    }
}

/// The end of the run that starts at `from`: the first index at or after
/// `from` whose character's membership in `class` differs from `inside`, or
/// the length of `s` if there is none.
pub open spec fn run_end(s: Seq<char>, class: CharClass, inside: bool, from: int) -> int
    decreases s.len() - from,
{
    if 0 <= from < s.len() && class.has(s[from]) == inside {
        run_end(s, class, inside, from + 1)
    } else {
        from
    }
}

/// The start of the run of `class` characters that ends just before `upto`.
pub open spec fn run_start(s: Seq<char>, class: CharClass, upto: int) -> int
    decreases upto,
{
    if 0 < upto <= s.len() && class.has(s[upto - 1]) {
        run_start(s, class, upto - 1)
    } else {
        upto
    }
}

/// `run_end` is the end of a maximal run: everything in between has the
/// wanted membership, and the character at the end, if any, does not.
pub proof fn lemma_run_end(s: Seq<char>, class: CharClass, inside: bool, from: int)
    requires
        0 <= from <= s.len(),
    ensures
        from <= run_end(s, class, inside, from) <= s.len(),
        forall|j: int|
            from <= j < run_end(s, class, inside, from) ==> class.has(#[trigger] s[j]) == inside,
        run_end(s, class, inside, from) < s.len() ==> class.has(
            s[run_end(s, class, inside, from)],
        ) != inside,
    decreases s.len() - from,
{
    if from < s.len() && class.has(s[from]) == inside {
        lemma_run_end(s, class, inside, from + 1);
    }
}

/// An index with the properties of `lemma_run_end` is the run's end.
pub proof fn lemma_run_end_unique(s: Seq<char>, class: CharClass, inside: bool, from: int, k: int)
    requires
        0 <= from <= k <= s.len(),
        forall|j: int| from <= j < k ==> class.has(#[trigger] s[j]) == inside,
        k < s.len() ==> class.has(s[k]) != inside,
    ensures
        run_end(s, class, inside, from) == k,
    decreases k - from,
{
    if from < k {
        assert(class.has(s[from]) == inside);
        lemma_run_end_unique(s, class, inside, from + 1, k);
    }
}

/// A run depends only on the characters from its start on.
pub proof fn lemma_run_end_skip(s: Seq<char>, class: CharClass, inside: bool, base: int, from: int)
    requires
        0 <= base <= from <= s.len(),
    ensures
        run_end(s.skip(base), class, inside, from - base) == run_end(s, class, inside, from) - base,
    decreases s.len() - from,
{
    if from < s.len() && class.has(s[from]) == inside {
        assert(s.skip(base)[from - base] == s[from]);
        lemma_run_end_skip(s, class, inside, base, from + 1);
    }
}

/// `run_start` is the start of a maximal run that ends at `upto`.
pub proof fn lemma_run_start(s: Seq<char>, class: CharClass, upto: int)
    requires
        0 <= upto <= s.len(),
    ensures
        0 <= run_start(s, class, upto) <= upto,
        forall|j: int| run_start(s, class, upto) <= j < upto ==> class.has(#[trigger] s[j]),
        run_start(s, class, upto) > 0 ==> !class.has(s[run_start(s, class, upto) - 1]),
    decreases upto,
{
    if 0 < upto && class.has(s[upto - 1]) {
        lemma_run_start(s, class, upto - 1);
    }
}

/// `s` without its leading characters of `class`.
pub open spec fn strip_start(s: Seq<char>, class: CharClass) -> Seq<char> {
    s.skip(run_end(s, class, true, 0))
}

/// `s` without its trailing characters of `class`.
pub open spec fn strip_end(s: Seq<char>, class: CharClass) -> Seq<char> {
    s.take(run_start(s, class, s.len() as int))
}

/// `s` without its leading and trailing characters of `class`.
pub open spec fn strip(s: Seq<char>, class: CharClass) -> Seq<char> {
    strip_end(strip_start(s, class), class)
}

/// `s` without leading whitespace.
pub open spec fn trim_start(s: Seq<char>) -> Seq<char> {
    strip_start(s, CharClass::Whitespace)
}

/// `s` without leading and trailing whitespace.
pub open spec fn trim(s: Seq<char>) -> Seq<char> {
    strip(s, CharClass::Whitespace)
}

/// The parts before and after the first occurrence of `delimiter`, if it
/// occurs at all.
pub open spec fn split_once(s: Seq<char>, delimiter: char) -> Option<(Seq<char>, Seq<char>)> {
    let at = run_end(s, CharClass::Only(delimiter), false, 0);
    if at < s.len() {
        Some((s.take(at), s.skip(at + 1)))
    } else {
        None
    }
}

/// `line` without one trailing carriage return.
pub open spec fn without_carriage_return(line: Seq<char>) -> Seq<char> {
    if line.len() > 0 && line.last() == '\r' {
        line.drop_last()
    } else {
        line
    }
}

/// The lines of `s`. A line ends at a line feed, or at the end of the text;
/// the line feed, and a carriage return directly before it, are not part of
/// the line. Text that ends with a line feed has no empty last line.
pub open spec fn lines(s: Seq<char>) -> Seq<Seq<char>>
    decreases s.len(),
{
    let at = run_end(s, CharClass::Only('\n'), false, 0);
    if s.len() == 0 {
        Seq::empty()
    } else if 0 <= at < s.len() {
        seq![without_carriage_return(s.take(at))] + lines(s.skip(at + 1))
    } else {
        seq![s]
    }
}

/// The second of the words of `s`, where words are the maximal stretches of
/// characters that are not whitespace.
pub open spec fn second_word(s: Seq<char>) -> Option<Seq<char>> {
    let first = run_end(s, CharClass::Whitespace, true, 0);
    let gap = run_end(s, CharClass::Whitespace, false, first);
    let second = run_end(s, CharClass::Whitespace, true, gap);
    let end = run_end(s, CharClass::Whitespace, false, second);
    if second < s.len() {
        Some(s.subrange(second, end))
    } else {
        None
    }
}

/// Whether `a` comes before `b` in lexicographic order by code point,
/// looking only at the characters from index `from` on.
pub open spec fn precedes_from(a: Seq<char>, b: Seq<char>, from: int) -> bool
    decreases a.len() - from,
{
    if from < 0 || from >= b.len() {
        false
    } else if from >= a.len() {
        true
    } else if a[from] == b[from] {
        precedes_from(a, b, from + 1)
    } else {
        a[from] < b[from]
    }
}

/// Whether `a` comes strictly before `b` in lexicographic order by code
/// point.
pub open spec fn precedes(a: Seq<char>, b: Seq<char>) -> bool {
    precedes_from(a, b, 0)
}

/// No text precedes itself.
pub proof fn lemma_precedes_irreflexive(a: Seq<char>, from: int)
    ensures
        !precedes_from(a, a, from),
    decreases a.len() - from,
{
    if 0 <= from < a.len() {
        lemma_precedes_irreflexive(a, from + 1);
    }
}

/// The order is transitive.
pub proof fn lemma_precedes_transitive(a: Seq<char>, b: Seq<char>, c: Seq<char>, from: int)
    requires
        precedes_from(a, b, from),
        precedes_from(b, c, from),
    ensures
        precedes_from(a, c, from),
    decreases a.len() - from,
{
    if from < a.len() && a[from] == b[from] && b[from] == c[from] {
        lemma_precedes_transitive(a, b, c, from + 1);
    }
}

/// Two texts that agree before `from` and of which neither precedes the
/// other are equal.
pub proof fn lemma_precedes_total(a: Seq<char>, b: Seq<char>, from: int)
    requires
        0 <= from <= a.len(),
        from <= b.len(),
        a.take(from) == b.take(from),
        !precedes_from(a, b, from),
        !precedes_from(b, a, from),
    ensures
        a == b,
    decreases a.len() - from,
{
    if from < a.len() && from < b.len() {
        assert(a[from] == b[from]);
        assert(a.take(from + 1) =~= a.take(from).push(a[from]));
        assert(b.take(from + 1) =~= b.take(from).push(b[from]));
        lemma_precedes_total(a, b, from + 1);
    } else {
        assert(a.take(from) =~= a);
        assert(b.take(from) =~= b);
    }
}

/// The characters of a string, in order.
pub fn chars_of(s: &str) -> (v: Vec<char>)
    ensures
        v@ == s@,
{
    let mut v: Vec<char> = Vec::new();
    for c in it: s.chars()
        invariant
            v@ == s@.take(it.index() as int),
            it.seq() == s@,
    {
        v.push(c);
    }
    v
}

/// The string made of the characters of `v`, in order.
pub fn string_of(v: &[char]) -> (s: String)
    ensures
        s@ == v@,
{
    let mut s = String::new();
    let mut i: usize = 0;
    while i < v.len()
        invariant
            i <= v.len(),
            s@ == v@.take(i as int),
        decreases v.len() - i,
    {
        s.push(v[i]);
        i += 1;
    }
    s
}

/// The characters of `s` from index `from` up to, not including, `to`.
pub fn copy_range(s: &[char], from: usize, to: usize) -> (v: Vec<char>)
    requires
        from <= to <= s.len(),
    ensures
        v@ == s@.subrange(from as int, to as int),
{
    let mut v: Vec<char> = Vec::new();
    let mut i: usize = from;
    while i < to
        invariant
            from <= i <= to <= s.len(),
            v@ == s@.subrange(from as int, i as int),
        decreases to - i,
    {
        v.push(s[i]);
        i += 1;
    }
    v
}

/// Finds the end of the run that starts at `from`.
pub fn scan(s: &[char], class: CharClass, inside: bool, from: usize) -> (r: usize)
    requires
        from <= s.len(),
    ensures
        r == run_end(s@, class, inside, from as int),
        from <= r <= s.len(),
{
    let mut i: usize = from;
    while i < s.len() && class.contains(s[i]) == inside
        invariant
            from <= i <= s.len(),
            run_end(s@, class, inside, i as int) == run_end(s@, class, inside, from as int),
        decreases s.len() - i,
    {
        i += 1;
    }
    i
}

/// Finds the start of the run of `class` characters that ends before `upto`.
pub fn scan_back(s: &[char], class: CharClass, upto: usize) -> (r: usize)
    requires
        upto <= s.len(),
    ensures
        r == run_start(s@, class, upto as int),
        r <= upto,
{
    let mut i: usize = upto;
    while i > 0 && class.contains(s[i - 1])
        invariant
            i <= upto <= s.len(),
            run_start(s@, class, i as int) == run_start(s@, class, upto as int),
        decreases i,
    {
        i -= 1;
    }
    i
}

/// Removes the leading characters of `class`.
pub fn strip_start_of(s: &[char], class: CharClass) -> (v: Vec<char>)
    ensures
        v@ == strip_start(s@, class),
{
    let from = scan(s, class, true, 0);
    copy_range(s, from, s.len())
}

/// Removes the trailing characters of `class`.
pub fn strip_end_of(s: &[char], class: CharClass) -> (v: Vec<char>)
    ensures
        v@ == strip_end(s@, class),
{
    let to = scan_back(s, class, s.len());
    copy_range(s, 0, to)
}

/// Removes the leading and trailing characters of `class`.
pub fn strip_of(s: &[char], class: CharClass) -> (v: Vec<char>)
    ensures
        v@ == strip(s@, class),
{
    let head = strip_start_of(s, class);
    strip_end_of(head.as_slice(), class)
}

/// Whether `s` begins with `prefix`.
pub fn starts_with(s: &[char], prefix: &[char]) -> (b: bool)
    ensures
        b == prefix@.is_prefix_of(s@),
{
    if prefix.len() > s.len() {
        return false;
    }
    let mut i: usize = 0;
    while i < prefix.len()
        invariant
            i <= prefix.len() <= s.len(),
            forall|j: int| 0 <= j < i ==> s@[j] == prefix@[j],
        decreases prefix.len() - i,
    {
        if s[i] != prefix[i] {
            assert(s@.subrange(0, prefix@.len() as int)[i as int] != prefix@[i as int]);
            return false;
        }
        i += 1;
    }
    assert(prefix@ =~= s@.subrange(0, prefix@.len() as int));
    true
}

/// Whether `s` ends with `suffix`.
pub fn ends_with(s: &[char], suffix: &[char]) -> (b: bool)
    ensures
        b == suffix@.is_suffix_of(s@),
{
    if suffix.len() > s.len() {
        return false;
    }
    let shift: usize = s.len() - suffix.len();
    let mut i: usize = 0;
    while i < suffix.len()
        invariant
            i <= suffix.len() <= s.len(),
            shift == s.len() - suffix.len(),
            forall|j: int| 0 <= j < i ==> s@[shift + j] == suffix@[j],
        decreases suffix.len() - i,
    {
        if s[shift + i] != suffix[i] {
            assert(s@.subrange(shift as int, s@.len() as int)[i as int] != suffix@[i as int]);
            return false;
        }
        i += 1;
    }
    assert(suffix@ =~= s@.subrange(shift as int, s@.len() as int));
    true
}

/// Splits `s` at the first occurrence of `delimiter`.
pub fn split_once_of(s: &[char], delimiter: char) -> (r: Option<(Vec<char>, Vec<char>)>)
    ensures
        match r {
            Some((left, right)) => split_once(s@, delimiter) == Some((left@, right@)),
            None => split_once(s@, delimiter) is None,
        },
{
    let at = scan(s, CharClass::Only(delimiter), false, 0);
    if at < s.len() {
        let left = copy_range(s, 0, at);
        let right = copy_range(s, at + 1, s.len());
        Some((left, right))
    } else {
        None
    }
}

/// The characters of each string of a list.
pub open spec fn texts(v: Seq<String>) -> Seq<Seq<char>> {
    v.map_values(|s: String| s@)
}

/// The view of each line of a list of lines.
pub open spec fn views(v: Seq<Vec<char>>) -> Seq<Seq<char>> {
    v.map_values(|line: Vec<char>| line@)
}

/// Splits `s` into its lines.
pub fn lines_of(s: &[char]) -> (out: Vec<Vec<char>>)
    ensures
        views(out@) == lines(s@),
{
    let mut out: Vec<Vec<char>> = Vec::new();
    let mut start: usize = 0;
    proof {
        assert(s@.skip(0) =~= s@);
        assert(views(out@) + lines(s@) =~= lines(s@));
    }
    while start < s.len()
        invariant
            start <= s.len(),
            lines(s@) == views(out@) + lines(s@.skip(start as int)),
        decreases s.len() - start,
    {
        let at = scan(s, CharClass::Only('\n'), false, start);
        let ghost rest = s@.skip(start as int);
        proof {
            lemma_run_end_skip(s@, CharClass::Only('\n'), false, start as int, start as int);
            assert(run_end(rest, CharClass::Only('\n'), false, 0) == at - start);
        }
        if at < s.len() {
            let end = if at > start && s[at - 1] == '\r' {
                at - 1
            } else {
                at
            };
            let line = copy_range(s, start, end);
            proof {
                assert(rest.take(at - start) =~= s@.subrange(start as int, at as int));
                assert(line@ =~= without_carriage_return(rest.take(at - start)));
                assert(rest.skip(at - start + 1) =~= s@.skip(at + 1));
                assert(views(out@.push(line)) =~= views(out@).push(line@));
                assert(lines(rest) =~= seq![line@] + lines(s@.skip(at + 1)));
            }
            out.push(line);
            start = at + 1;
        } else {
            let line = copy_range(s, start, s.len());
            proof {
                assert(line@ =~= rest);
                assert(views(out@.push(line)) =~= views(out@).push(line@));
                assert(lines(rest) =~= seq![line@]);
                assert(lines(s@.skip(s@.len() as int)) =~= Seq::<Seq<char>>::empty());
            }
            out.push(line);
            start = s.len();
        }
    }
    proof {
        assert(lines(s@.skip(start as int)) =~= Seq::<Seq<char>>::empty());
    }
    out
}

/// Picks the second whitespace-separated word of `s`.
pub fn second_word_of(s: &[char]) -> (r: Option<Vec<char>>)
    ensures
        match r {
            Some(w) => second_word(s@) == Some(w@),
            None => second_word(s@) is None,
        },
{
    let first = scan(s, CharClass::Whitespace, true, 0);
    let gap = scan(s, CharClass::Whitespace, false, first);
    let second = scan(s, CharClass::Whitespace, true, gap);
    let end = scan(s, CharClass::Whitespace, false, second);
    if second < s.len() {
        Some(copy_range(s, second, end))
    } else {
        None
    }
}

/// Whether `a` and `b` hold the same characters.
pub fn same_text(a: &[char], b: &[char]) -> (r: bool)
    ensures
        r == (a@ == b@),
{
    if a.len() != b.len() {
        return false;
    }
    let mut i: usize = 0;
    while i < a.len()
        invariant
            i <= a.len() == b.len(),
            forall|j: int| 0 <= j < i ==> a@[j] == b@[j],
        decreases a.len() - i,
    {
        if a[i] != b[i] {
            return false;
        }
        i += 1;
    }
    assert(a@ =~= b@);
    true
}

/// Whether `a` comes strictly before `b` in lexicographic order by code
/// point.
pub fn comes_before(a: &[char], b: &[char]) -> (r: bool)
    ensures
        r == precedes(a@, b@),
{
    let mut i: usize = 0;
    while i < a.len() && i < b.len() && a[i] == b[i]
        invariant
            i <= a.len(),
            i <= b.len(),
            precedes_from(a@, b@, i as int) == precedes(a@, b@),
        decreases a.len() - i,
    {
        i += 1;
    }
    if i >= b.len() {
        false
    } else if i >= a.len() {
        true
    } else {
        a[i] < b[i]
    }
}

} // verus!
