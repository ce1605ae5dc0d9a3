//! Line-oriented recognition of test declarations in Python source text.
//!
//! A line is a maximal run of characters without a line feed; a final line
//! feed does not open an empty last line. A carriage return before a line
//! feed stays in its line, after anything either pattern reads. On each line:
//! - `class TestX:` at indentation zero makes `TestX` the current class;
//!   at a deeper indentation it changes nothing.
//! - `def test_x(` at indentation zero clears the current class and yields
//!   `test_x`; at a deeper indentation it yields `C::test_x` when a current
//!   class `C` is set, and nothing otherwise.
//!
//! Indentation is the count of leading spaces and tabs; names are runs of
//! Unicode word characters, as `\w` reads them in the `regex` crate.
use crate::chars::{chars_of, push_range};
use vstd::prelude::*;

verus! {

pub open spec fn is_blank(c: char) -> bool {
    c == ' ' || c == '\t'
}

/// Whether `regex_syntax::is_word_character` holds of `c`: the class that
/// `\w` stands for in a Unicode regex.
pub uninterp spec fn unicode_word_char(c: char) -> bool;

pub open spec fn is_word_char(c: char) -> bool {
    unicode_word_char(c)
}

/// Relies on `regex_syntax::is_word_character`: whether `c` is a Unicode word
/// character (Alphabetic, Join_Control, Decimal_Number, Mark or
/// Connector_Punctuation). It panics only without the `unicode-perl` feature,
/// which the crate's default features enable.
#[verifier::external_body]
fn is_word_character(c: char) -> (r: bool)
    ensures
        r == unicode_word_char(c),
{
    regex_syntax::is_word_character(c)
}

/// Count of leading spaces and tabs.
pub open spec fn blank_len(s: Seq<char>) -> nat
    decreases s.len(),
{
    if s.len() > 0 && is_blank(s[0]) {
        1 + blank_len(s.skip(1))
    } else {
        0
    }
}

/// Count of leading word characters.
pub open spec fn word_len(s: Seq<char>) -> nat
    decreases s.len(),
{
    if s.len() > 0 && is_word_char(s[0]) {
        1 + word_len(s.skip(1))
    } else {
        0
    }
}

pub open spec fn class_keyword() -> Seq<char> {
    seq!['c', 'l', 'a', 's', 's', ' ']
}

pub open spec fn class_prefix() -> Seq<char> {
    seq!['T', 'e', 's', 't']
}

pub open spec fn def_keyword() -> Seq<char> {
    seq!['d', 'e', 'f', ' ']
}

pub open spec fn def_prefix() -> Seq<char> {
    seq!['t', 'e', 's', 't', '_']
}

/// The indentation of a line.
pub open spec fn indent_of(line: Seq<char>) -> nat {
    blank_len(line)
}

/// The class name that `line` declares: blanks, `class `, then `Test` and at
/// least one more word character, then directly a colon.
pub open spec fn class_decl(line: Seq<char>) -> Option<Seq<char>> {
    let rest = line.skip(indent_of(line) as int);
    let after = rest.skip(6);
    let n = word_len(after);
    if rest.len() >= 6 && rest.take(6) == class_keyword() && n >= 5 && after.take(4)
        == class_prefix() && n < after.len() && after[n as int] == ':' {
        Some(after.take(n as int))
    } else {
        None
    }
}

/// The function name that `line` declares: blanks, `def `, then `test_` and
/// at least one more word character, then blanks and an opening parenthesis.
pub open spec fn def_decl(line: Seq<char>) -> Option<Seq<char>> {
    let rest = line.skip(indent_of(line) as int);
    let after = rest.skip(4);
    let n = word_len(after);
    let tail = after.skip(n as int);
    let m = blank_len(tail);
    if rest.len() >= 4 && rest.take(4) == def_keyword() && n >= 6 && after.take(5)
        == def_prefix() && m < tail.len() && tail[m as int] == '(' {
        Some(after.take(n as int))
    } else {
        None
    }
}

/// `class::name`.
pub open spec fn qualified_id(class: Seq<char>, name: Seq<char>) -> Seq<char> {
    class + seq![':', ':'] + name
}

/// One line's effect: the next current class, and the identifier it yields.
pub open spec fn scan_step(class: Option<Seq<char>>, line: Seq<char>) -> (
    Option<Seq<char>>,
    Option<Seq<char>>,
) {
    if class_decl(line) is Some {
        if indent_of(line) == 0 {
            (class_decl(line), None)
        } else {
            (class, None)
        }
    } else if def_decl(line) is Some {
        let name = def_decl(line)->Some_0;
        if indent_of(line) == 0 {
            (None, Some(name))
        } else if class is Some {
            (class, Some(qualified_id(class->Some_0, name)))
        } else {
            (class, None)
        }
    } else {
        (class, None)
    }
}

/// The current class and the identifiers after scanning `lines` in order.
pub open spec fn scan_lines(lines: Seq<Seq<char>>) -> (Option<Seq<char>>, Seq<Seq<char>>)
    decreases lines.len(),
{
    if lines.len() == 0 {
        (None, Seq::empty())
    } else {
        let before = scan_lines(lines.drop_last());
        let step = scan_step(before.0, lines.last());
        (
            step.0,
            match step.1 {
                Some(id) => before.1.push(id),
                None => before.1,
            },
        )
    }
}

/// Position of the first line feed at or after `p`, or the length of `s`.
pub open spec fn line_end(s: Seq<char>, p: int) -> int
    decreases s.len() - p,
{
    if p >= s.len() {
        s.len() as int
    } else if s[p] == '\n' {
        p
    } else {
        line_end(s, p + 1)
    }
}

/// The lines of `s` from position `p` on.
pub open spec fn lines_from(s: Seq<char>, p: int) -> Seq<Seq<char>>
    decreases s.len() - p,
{
    if p < 0 || p >= s.len() {
        Seq::empty()
    } else {
        let e = line_end(s, p);
        if p <= e < s.len() {
            seq![s.subrange(p, e)] + lines_from(s, e + 1)
        } else {
            seq![s.subrange(p, s.len() as int)]
        }
    }
}

/// The lines of `s`.
pub open spec fn lines_of(s: Seq<char>) -> Seq<Seq<char>> {
    lines_from(s, 0)
}

/// The test identifiers in `source`, in order of appearance.
pub open spec fn tests_in(source: Seq<char>) -> Seq<Seq<char>> {
    scan_lines(lines_of(source)).1
}

/// A class declared below indentation zero leaves the current class as it
/// was and yields no identifier.
pub proof fn law_nested_class_keeps_current(class: Option<Seq<char>>, line: Seq<char>)
    requires
        class_decl(line) is Some,
        indent_of(line) > 0,
    ensures
        scan_step(class, line) == (class, None::<Seq<char>>),
{
}

/// A method under a nested class is attributed to the enclosing class
/// declared at indentation zero.
pub proof fn law_nested_method_goes_to_outer_class(
    outer: Seq<char>,
    nested: Seq<char>,
    method: Seq<char>,
)
    requires
        class_decl(outer) is Some,
        indent_of(outer) == 0,
        class_decl(nested) is Some,
        indent_of(nested) > 0,
        class_decl(method) is None,
        def_decl(method) is Some,
        indent_of(method) > 0,
    ensures
        scan_lines(seq![outer, nested, method]).1 == seq![
            qualified_id(class_decl(outer)->Some_0, def_decl(method)->Some_0),
        ],
{
    let l = seq![outer, nested, method];
    let l2 = seq![outer, nested];
    let l1 = seq![outer];
    assert(l.drop_last() =~= l2);
    assert(l2.drop_last() =~= l1);
    assert(l1.drop_last() =~= Seq::<Seq<char>>::empty());
    assert(l1.last() == outer && l2.last() == nested && l.last() == method);
    assert(scan_lines(Seq::<Seq<char>>::empty()).0 is None);
    assert(scan_lines(l1) == (class_decl(outer), Seq::<Seq<char>>::empty()));
    assert(scan_lines(l2) == (class_decl(outer), Seq::<Seq<char>>::empty()));
    assert(scan_lines(l).1 =~= seq![
        qualified_id(class_decl(outer)->Some_0, def_decl(method)->Some_0),
    ]);
}

/// Inserting a nested class declaration anywhere among the lines changes
/// neither the identifiers nor the current class.
pub proof fn law_nested_class_insertion(a: Seq<Seq<char>>, nested: Seq<char>, b: Seq<Seq<char>>)
    requires
        class_decl(nested) is Some,
        indent_of(nested) > 0,
    ensures
        scan_lines(a.push(nested) + b) == scan_lines(a + b),
    decreases b.len(),
{
    if b.len() == 0 {
        assert(a.push(nested) + b =~= a.push(nested));
        assert(a + b =~= a);
        assert(a.push(nested).drop_last() =~= a);
    } else {
        law_nested_class_insertion(a, nested, b.drop_last());
        assert((a.push(nested) + b).drop_last() =~= a.push(nested) + b.drop_last());
        assert((a + b).drop_last() =~= a + b.drop_last());
        assert((a.push(nested) + b).last() == b.last());
        assert((a + b).last() == b.last());
    }
}

/// A declaration at indentation zero that opens `b` cuts the scan in two:
/// what precedes it does not reach past it.
pub proof fn law_top_level_split(a: Seq<Seq<char>>, b: Seq<Seq<char>>)
    requires
        b.len() > 0,
        indent_of(b[0]) == 0,
        class_decl(b[0]) is Some || def_decl(b[0]) is Some,
    ensures
        scan_lines(a + b).0 == scan_lines(b).0,
        scan_lines(a + b).1 == scan_lines(a).1 + scan_lines(b).1,
    decreases b.len(),
{
    if b.len() == 1 {
        assert((a + b).drop_last() =~= a);
        assert(b.drop_last() =~= Seq::<Seq<char>>::empty());
        assert((a + b).last() == b[0] && b.last() == b[0]);
        assert(scan_lines(b.drop_last()) == (None::<Seq<char>>, Seq::<Seq<char>>::empty()));
        assert(scan_step(scan_lines(a).0, b[0]) == scan_step(None, b[0]));
        let id = scan_step(None, b[0]).1;
        if id is Some {
            assert(scan_lines(b).1 =~= seq![id->Some_0]);
            assert(scan_lines(a + b).1 =~= scan_lines(a).1 + scan_lines(b).1);
        } else {
            assert(scan_lines(b).1 =~= Seq::<Seq<char>>::empty());
            assert(scan_lines(a + b).1 =~= scan_lines(a).1 + scan_lines(b).1);
        }
    } else {
        let bd = b.drop_last();
        assert(bd[0] == b[0]);
        law_top_level_split(a, bd);
        assert((a + b).drop_last() =~= a + bd);
        assert((a + b).last() == b.last());
        let before = scan_lines(a + bd);
        let step = scan_step(before.0, b.last());
        if step.1 is Some {
            assert(scan_lines(a + b).1 =~= scan_lines(a).1 + scan_lines(b).1);
        }
    }
}

/// Lines that declare nothing yield no identifiers; empty text has no lines.
pub proof fn law_no_declarations_no_tests(source: Seq<char>)
    requires
        forall|i: int|
            0 <= i < lines_of(source).len() ==> class_decl(#[trigger] lines_of(source)[i]) is None
                && def_decl(lines_of(source)[i]) is None,
    ensures
        tests_in(source) == Seq::<Seq<char>>::empty(),
{
    lemma_scan_without_declarations(lines_of(source));
}

proof fn lemma_scan_without_declarations(lines: Seq<Seq<char>>)
    requires
        forall|i: int|
            0 <= i < lines.len() ==> class_decl(#[trigger] lines[i]) is None && def_decl(lines[i])
                is None,
    ensures
        scan_lines(lines).1 == Seq::<Seq<char>>::empty(),
    decreases lines.len(),
{
    if lines.len() > 0 {
        let d = lines.drop_last();
        assert forall|i: int| 0 <= i < d.len() implies class_decl(#[trigger] d[i]) is None
            && def_decl(d[i]) is None by {
            assert(d[i] == lines[i]);
        }
        lemma_scan_without_declarations(d);
        assert(class_decl(lines[lines.len() - 1]) is None);
    }
}

/// Empty text yields no identifiers.
pub proof fn law_empty_text_no_tests()
    ensures
        tests_in(Seq::<char>::empty()) == Seq::<Seq<char>>::empty(),
{
}

proof fn lemma_line_end_bounds(s: Seq<char>, p: int)
    requires
        0 <= p <= s.len(),
    ensures
        p <= line_end(s, p) <= s.len(),
        line_end(s, p) < s.len() ==> s[line_end(s, p)] == '\n',
    decreases s.len() - p,
{
    if p < s.len() && s[p] != '\n' {
        lemma_line_end_bounds(s, p + 1);
    }
}

/// End of the run of blanks in `v[from..to]` that starts at `from`.
fn blank_end(v: &Vec<char>, from: usize, to: usize) -> (r: usize)
    requires
        from <= to <= v@.len(),
    ensures
        from <= r <= to,
        r - from == blank_len(v@.subrange(from as int, to as int)),
{
    let mut j = from;
    while j < to && (v[j] == ' ' || v[j] == '\t')
        invariant
            from <= j <= to <= v@.len(),
            blank_len(v@.subrange(from as int, to as int)) == (j - from) + blank_len(
                v@.subrange(j as int, to as int),
            ),
        decreases to - j,
    {
        assert(v@.subrange(j as int, to as int).skip(1) =~= v@.subrange(j + 1, to as int));
        j = j + 1;
    }
    j
}

/// End of the run of word characters in `v[from..to]` that starts at `from`.
fn word_end(v: &Vec<char>, from: usize, to: usize) -> (r: usize)
    requires
        from <= to <= v@.len(),
    ensures
        from <= r <= to,
        r - from == word_len(v@.subrange(from as int, to as int)),
{
    let mut j = from;
    while j < to && is_word_character(v[j])
        invariant
            from <= j <= to <= v@.len(),
            word_len(v@.subrange(from as int, to as int)) == (j - from) + word_len(
                v@.subrange(j as int, to as int),
            ),
        decreases to - j,
    {
        assert(v@.subrange(j as int, to as int).skip(1) =~= v@.subrange(j + 1, to as int));
        j = j + 1;
    }
    j
}

/// Whether `v[from..to]` starts with `p`.
fn starts_with_at(v: &Vec<char>, from: usize, to: usize, p: &Vec<char>) -> (r: bool)
    requires
        from <= to <= v@.len(),
    ensures
        r == (p@.len() <= to - from && v@.subrange(from as int, to as int).take(p@.len() as int)
            == p@),
{
    if p.len() > to - from {
        return false;
    }
    let mut i: usize = 0;
    while i < p.len()
        invariant
            i <= p@.len() <= to - from,
            from <= to <= v@.len(),
            forall|k: int| 0 <= k < i ==> v@[from + k] == p@[k],
        decreases p.len() - i,
    {
        if v[from + i] != p[i] {
            assert(v@.subrange(from as int, to as int).take(p@.len() as int)[i as int] != p@[i as int]);
            return false;
        }
        i = i + 1;
    }
    assert(v@.subrange(from as int, to as int).take(p@.len() as int) =~= p@);
    true
}

/// The characters of the keywords and prefixes of the declaration grammar.
struct Words {
    class_keyword: Vec<char>,
    class_prefix: Vec<char>,
    def_keyword: Vec<char>,
    def_prefix: Vec<char>,
}

impl Words {
    spec fn wf(&self) -> bool {
        &&& self.class_keyword@ == class_keyword()
        &&& self.class_prefix@ == class_prefix()
        &&& self.def_keyword@ == def_keyword()
        &&& self.def_prefix@ == def_prefix()
    }

    fn new() -> (r: Words)
        ensures
            r.wf(),
    {
        let w = Words {
            class_keyword: chars_of("class "),
            class_prefix: chars_of("Test"),
            def_keyword: chars_of("def "),
            def_prefix: chars_of("test_"),
        };
        proof {
            reveal_strlit("class ");
            reveal_strlit("Test");
            reveal_strlit("def ");
            reveal_strlit("test_");
            assert(w.class_keyword@ =~= class_keyword());
            assert(w.class_prefix@ =~= class_prefix());
            assert(w.def_keyword@ =~= def_keyword());
            assert(w.def_prefix@ =~= def_prefix());
        }
        w
    }
}

/// The characters of `v` that a range names.
pub open spec fn range_text(v: Seq<char>, r: Option<(usize, usize)>) -> Option<Seq<char>> {
    match r {
        Some((a, b)) => Some(v.subrange(a as int, b as int)),
        None => None,
    }
}

pub open spec fn range_within(r: Option<(usize, usize)>, from: int, to: int) -> bool {
    r matches Some((a, b)) ==> from <= a <= b <= to
}

/// Where the class name that `v[start..end]` declares stands in `v`.
fn class_decl_at(w: &Words, v: &Vec<char>, start: usize, end: usize, ind: usize) -> (r: Option<
    (usize, usize),
>)
    requires
        w.wf(),
        start <= ind <= end <= v@.len(),
        ind - start == indent_of(v@.subrange(start as int, end as int)),
    ensures
        range_within(r, start as int, end as int),
        range_text(v@, r) == class_decl(v@.subrange(start as int, end as int)),
{
    let ghost line = v@.subrange(start as int, end as int);
    let ghost rest = line.skip(ind - start);
    assert(rest =~= v@.subrange(ind as int, end as int));
    if !starts_with_at(v, ind, end, &w.class_keyword) {
        return None;
    }
    let a = ind + 6;
    let b = word_end(v, a, end);
    let ghost after = rest.skip(6);
    assert(after =~= v@.subrange(a as int, end as int));
    if b - a >= 5 && starts_with_at(v, a, end, &w.class_prefix) && b < end && v[b] == ':' {
        assert(after[b - a] == v@[b as int]);
        assert(after.take(b - a) =~= v@.subrange(a as int, b as int));
        Some((a, b))
    } else {
        if b < end {
            assert(after[b - a] == v@[b as int]);
        }
        None
    }
}

/// Where the function name that `v[start..end]` declares stands in `v`.
fn def_decl_at(w: &Words, v: &Vec<char>, start: usize, end: usize, ind: usize) -> (r: Option<
    (usize, usize),
>)
    requires
        w.wf(),
        start <= ind <= end <= v@.len(),
        ind - start == indent_of(v@.subrange(start as int, end as int)),
    ensures
        range_within(r, start as int, end as int),
        range_text(v@, r) == def_decl(v@.subrange(start as int, end as int)),
{
    let ghost line = v@.subrange(start as int, end as int);
    let ghost rest = line.skip(ind - start);
    assert(rest =~= v@.subrange(ind as int, end as int));
    if !starts_with_at(v, ind, end, &w.def_keyword) {
        return None;
    }
    let a = ind + 4;
    let b = word_end(v, a, end);
    let ghost after = rest.skip(4);
    assert(after =~= v@.subrange(a as int, end as int));
    let ghost tail = after.skip(b - a);
    assert(tail =~= v@.subrange(b as int, end as int));
    let c = blank_end(v, b, end);
    if b - a >= 6 && starts_with_at(v, a, end, &w.def_prefix) && c < end && v[c] == '(' {
        assert(tail[c - b] == v@[c as int]);
        assert(after.take(b - a) =~= v@.subrange(a as int, b as int));
        Some((a, b))
    } else {
        if c < end {
            assert(tail[c - b] == v@[c as int]);
        }
        None
    }
}

/// `v[a..b]`, as a string.
fn text_of(v: &Vec<char>, a: usize, b: usize) -> (r: String)
    requires
        a <= b <= v@.len(),
    ensures
        r@ == v@.subrange(a as int, b as int),
{
    let mut s = String::new();
    push_range(&mut s, v, a, b);
    s
}

/// Position of the first line feed in `v` at or after `p`, or the length.
fn line_end_at(v: &Vec<char>, p: usize) -> (r: usize)
    requires
        p <= v@.len(),
    ensures
        r == line_end(v@, p as int),
{
    let mut e = p;
    while e < v.len() && v[e] != '\n'
        invariant
            p <= e <= v@.len(),
            line_end(v@, p as int) == line_end(v@, e as int),
        decreases v.len() - e,
    {
        e = e + 1;
    }
    e
}

/// The test identifiers declared in `source`, in order of appearance.
pub fn extract_tests_from_source(source: &str) -> (r: Vec<String>)
    ensures
        r.deep_view() == tests_in(source@),
{
    let w = Words::new();
    let v = chars_of(source);
    let mut tests: Vec<String> = Vec::new();
    let mut class: Option<(usize, usize)> = None;
    let ghost mut done: Seq<Seq<char>> = Seq::empty();
    let mut p: usize = 0;
    while p < v.len()
        invariant
            w.wf(),
            v@ == source@,
            p <= v@.len(),
            done + lines_from(v@, p as int) == lines_of(v@),
            range_within(class, 0, v@.len() as int),
            scan_lines(done).0 == range_text(v@, class),
            scan_lines(done).1 == tests.deep_view(),
        decreases v.len() - p,
    {
        let e = line_end_at(&v, p);
        proof {
            lemma_line_end_bounds(v@, p as int);
        }
        let ghost line = v@.subrange(p as int, e as int);
        let ghost before = scan_lines(done);
        let ind = blank_end(&v, p, e);
        let cd = class_decl_at(&w, &v, p, e, ind);
        let ghost step = scan_step(before.0, line);
        if let Some(_) = cd {
            if ind == p {
                class = cd;
            }
            assert(step.1 is None);
        } else {
            let dd = def_decl_at(&w, &v, p, e, ind);
            match dd {
                Some((a, b)) => {
                    if ind == p {
                        class = None;
                        let id = text_of(&v, a, b);
                        tests.push(id);
                        assert(tests.deep_view() =~= before.1.push(step.1->Some_0));
                    } else {
                        match class {
                            Some((ca, cb)) => {
                                let mut id = text_of(&v, ca, cb);
                                id.push(':');
                                id.push(':');
                                push_range(&mut id, &v, a, b);
                                assert(id@ =~= qualified_id(
                                    v@.subrange(ca as int, cb as int),
                                    v@.subrange(a as int, b as int),
                                ));
                                tests.push(id);
                                assert(tests.deep_view() =~= before.1.push(step.1->Some_0));
                            },
                            None => {},
                        }
                    }
                },
                None => {},
            }
        }
        proof {
            let next = if e < v.len() {
                e + 1
            } else {
                e as int
            };
            assert(lines_from(v@, p as int) == seq![line] + lines_from(v@, next));
            assert(done.push(line) + lines_from(v@, next) =~= done + lines_from(v@, p as int));
            assert(done.push(line).drop_last() =~= done);
            done = done.push(line);
        }
        p = if e < v.len() {
            e + 1
        } else {
            e
        };
    }
    proof {
        assert(done =~= lines_of(v@));
    }
    tests
}

} // verus!
