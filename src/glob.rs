//! File-name globs: `*` stands for any run of characters, `?` for one
//! character, everything else for itself. A glob is translated to an anchored
//! regular expression and matched with the `regex` crate.
use vstd::prelude::*;

verus! {

#[verifier::external_type_specification]
#[verifier::external_body]
pub struct ExRegex(regex::Regex);

#[verifier::external_type_specification]
#[verifier::external_body]
pub struct ExRegexError(regex::Error);

/// ASCII letters and digits.
pub open spec fn is_ascii_alnum(c: char) -> bool {
    ('0' <= c <= '9') || ('A' <= c <= 'Z') || ('a' <= c <= 'z')
}

/// Characters that stand for themselves, unescaped, in the translated regex.
pub open spec fn is_plain(c: char) -> bool {
    is_ascii_alnum(c) || c == '_' || c == '-'
}

/// Characters that a backslash turns into a literal in the `regex` syntax:
/// all of ASCII except letters, digits, `<` and `>`.
pub open spec fn is_escapable(c: char) -> bool {
    (c as u32) < 128 && !is_ascii_alnum(c) && c != '<' && c != '>'
}

/// Characters that are literals unescaped and are not escapable: letters,
/// digits, `_`, `-`, `<`, `>` and everything beyond ASCII.
pub open spec fn is_bare_literal(c: char) -> bool {
    is_plain(c) || (c as u32) >= 128 || c == '<' || c == '>'
}

/// No line feed in `s`.
pub open spec fn no_newline(s: Seq<char>) -> bool {
    forall|i: int| 0 <= i < s.len() ==> s[i] != '\n'
}

/// A regex body made only of `.*`, `.`, bare literals and escaped ASCII
/// punctuation.
pub open spec fn is_simple_body(b: Seq<char>) -> bool
    decreases b.len(),
{
    if b.len() == 0 {
        true
    } else if b[0] == '.' && b.len() >= 2 && b[1] == '*' {
        is_simple_body(b.skip(2))
    } else if b[0] == '.' {
        is_simple_body(b.skip(1))
    } else if b[0] == '\\' {
        b.len() >= 2 && is_escapable(b[1]) && is_simple_body(b.skip(2))
    } else {
        is_bare_literal(b[0]) && is_simple_body(b.skip(1))
    }
}

/// Whether a simple regex body matches the whole of `t`: `.` is any character
/// but a line feed, `.*` any run of such characters, `\c` the character `c`.
pub open spec fn body_matches(b: Seq<char>, t: Seq<char>) -> bool
    decreases b.len(), t.len(),
{
    if b.len() == 0 {
        t.len() == 0
    } else if b[0] == '.' && b.len() >= 2 && b[1] == '*' {
        body_matches(b.skip(2), t) || (t.len() > 0 && t[0] != '\n' && body_matches(b, t.skip(1)))
    } else if b[0] == '.' {
        t.len() > 0 && t[0] != '\n' && body_matches(b.skip(1), t.skip(1))
    } else if b[0] == '\\' && b.len() >= 2 {
        t.len() > 0 && t[0] == b[1] && body_matches(b.skip(2), t.skip(1))
    } else {
        t.len() > 0 && t[0] == b[0] && body_matches(b.skip(1), t.skip(1))
    }
}

/// `^`, a simple body, `$`.
pub open spec fn is_simple_regex(src: Seq<char>) -> bool {
    &&& src.len() >= 2
    &&& src[0] == '^'
    &&& src.last() == '$'
    &&& is_simple_body(src.subrange(1, src.len() - 1))
}

/// Whether the `regex` crate accepts `source` as a regex.
pub uninterp spec fn regex_compiles(source: Seq<char>) -> bool;

/// Length up to which a simple regex always compiles: far below the
/// default limit on the size of the compiled automaton.
pub open spec fn simple_regex_len_bound() -> nat {
    256
}

/// The regex text for one glob character.
pub open spec fn char_regex(c: char) -> Seq<char> {
    if c == '.' {
        seq!['\\', '.']
    } else if c == '*' {
        seq!['.', '*']
    } else if c == '?' {
        seq!['.']
    } else if is_plain(c) || !is_escapable(c) {
        seq![c]
    } else {
        seq!['\\', c]
    }
}

/// The regex text for a glob, without anchors.
pub open spec fn glob_regex_body(g: Seq<char>) -> Seq<char>
    decreases g.len(),
{
    if g.len() == 0 {
        Seq::empty()
    } else {
        char_regex(g[0]) + glob_regex_body(g.skip(1))
    }
}

/// The anchored regex text for a glob.
pub open spec fn glob_regex_source(g: Seq<char>) -> Seq<char> {
    seq!['^'] + glob_regex_body(g) + seq!['$']
}

/// Whether the glob `g` accepts the whole of `t`. A wildcard does not stand
/// for a line feed.
pub open spec fn glob_matches(g: Seq<char>, t: Seq<char>) -> bool
    decreases g.len(), t.len(),
{
    if g.len() == 0 {
        t.len() == 0
    } else if g[0] == '*' {
        glob_matches(g.skip(1), t) || (t.len() > 0 && t[0] != '\n' && glob_matches(g, t.skip(1)))
    } else if g[0] == '?' {
        t.len() > 0 && t[0] != '\n' && glob_matches(g.skip(1), t.skip(1))
    } else {
        t.len() > 0 && t[0] == g[0] && glob_matches(g.skip(1), t.skip(1))
    }
}

proof fn lemma_body_len(g: Seq<char>)
    ensures
        glob_regex_body(g).len() <= 2 * g.len(),
    decreases g.len(),
{
    if g.len() > 0 {
        lemma_body_len(g.skip(1));
    }
}

/// The anchored text of every glob is a simple regex of at most twice the
/// glob's length plus two.
proof fn lemma_source_is_simple(g: Seq<char>)
    ensures
        is_simple_regex(glob_regex_source(g)),
        glob_regex_source(g).len() <= 2 * g.len() + 2,
{
    lemma_translation(g);
    lemma_body_len(g);
    let src = glob_regex_source(g);
    assert(src.subrange(1, src.len() - 1) =~= glob_regex_body(g));
}

/// Globs without wildcards.
pub open spec fn is_literal_glob(g: Seq<char>) -> bool {
    forall|i: int| 0 <= i < g.len() ==> g[i] != '*' && g[i] != '?'
}

proof fn lemma_body_push(g: Seq<char>, c: char)
    ensures
        glob_regex_body(g.push(c)) == glob_regex_body(g) + char_regex(c),
    decreases g.len(),
{
    if g.len() == 0 {
        assert(g.push(c).skip(1) =~= Seq::<char>::empty());
        assert(glob_regex_body(g.push(c).skip(1)) == Seq::<char>::empty());
        assert(glob_regex_body(g.push(c)) =~= char_regex(c));
    } else {
        assert(g.push(c).skip(1) =~= g.skip(1).push(c));
        lemma_body_push(g.skip(1), c);
        assert(glob_regex_body(g.push(c)) =~= glob_regex_body(g) + char_regex(c));
    }
}

proof fn lemma_body_first(g: Seq<char>)
    ensures
        glob_regex_body(g).len() > 0 ==> glob_regex_body(g)[0] != '*',
{
    if g.len() > 0 {
        assert(glob_regex_body(g)[0] == char_regex(g[0])[0]);
    }
}

/// The translation of a supported glob is a simple regex body that accepts
/// exactly what the glob accepts.
proof fn lemma_translation(g: Seq<char>)
    ensures
        is_simple_body(glob_regex_body(g)),
        forall|t: Seq<char>| body_matches(glob_regex_body(g), t) == glob_matches(g, t),
    decreases g.len(),
{
    if g.len() > 0 {
        let rest = g.skip(1);
        lemma_translation(rest);
        lemma_body_first(rest);
        let b = glob_regex_body(g);
        let c = g[0];
        let cr = char_regex(c);
        assert(b == cr + glob_regex_body(rest));
        assert(b.skip(cr.len() as int) =~= glob_regex_body(rest));
        if c == '*' {
            assert(b.len() >= 2 && b[0] == '.' && b[1] == '*');
            assert forall|t: Seq<char>| body_matches(b, t) == glob_matches(g, t) by {
                lemma_star_step(b, g, t);
            }
        } else {
            if cr.len() == 1 && b.len() >= 2 {
                assert(b[1] == glob_regex_body(rest)[0]);
            }
            assert forall|t: Seq<char>| body_matches(b, t) == glob_matches(g, t) by {
                if t.len() > 0 {
                    assert(body_matches(b.skip(cr.len() as int), t.skip(1)) == glob_matches(
                        rest,
                        t.skip(1),
                    ));
                }
            }
        }
    }
}

proof fn lemma_star_step(b: Seq<char>, g: Seq<char>, t: Seq<char>)
    requires
        b.len() >= 2,
        b[0] == '.',
        b[1] == '*',
        g.len() > 0,
        g[0] == '*',
        forall|u: Seq<char>| body_matches(b.skip(2), u) == glob_matches(g.skip(1), u),
    ensures
        body_matches(b, t) == glob_matches(g, t),
    decreases t.len(),
{
    assert(body_matches(b.skip(2), t) == glob_matches(g.skip(1), t));
    if t.len() > 0 {
        lemma_star_step(b, g, t.skip(1));
    }
}

/// A glob without wildcards accepts exactly the name equal to it.
pub proof fn law_literal_glob_accepts_only_itself(g: Seq<char>, t: Seq<char>)
    requires
        is_literal_glob(g),
    ensures
        glob_matches(g, t) == (t == g),
    decreases g.len(),
{
    if g.len() == 0 {
        if t.len() == 0 {
            assert(t =~= g);
        }
    } else {
        assert(is_literal_glob(g.skip(1)));
        if t.len() > 0 {
            law_literal_glob_accepts_only_itself(g.skip(1), t.skip(1));
            if t == g {
                assert(t.skip(1) == g.skip(1));
            }
            if t[0] == g[0] && t.skip(1) == g.skip(1) {
                assert(t =~= seq![t[0]] + t.skip(1));
                assert(g =~= seq![g[0]] + g.skip(1));
            }
        }
    }
}

/// `*` followed by a literal accepts exactly the names that end in that
/// literal, with no line feed before it.
pub proof fn law_star_then_literal(l: Seq<char>, t: Seq<char>)
    requires
        is_literal_glob(l),
    ensures
        glob_matches(seq!['*'] + l, t) == (l.len() <= t.len() && t.skip(t.len() - l.len()) == l
            && no_newline(t.take(t.len() - l.len()))),
    decreases t.len(),
{
    let g = seq!['*'] + l;
    assert(g.skip(1) =~= l);
    assert(g[0] == '*');
    law_literal_glob_accepts_only_itself(l, t);
    let n = t.len() - l.len();
    if t.len() > 0 {
        law_star_then_literal(l, t.skip(1));
    }
    if t.len() == l.len() {
        assert(t.take(0) =~= Seq::<char>::empty());
        assert(t.skip(0) =~= t);
    } else if t.len() > l.len() {
        assert(t.skip(1).skip(n - 1) =~= t.skip(n));
        assert(t.skip(1).take(n - 1) =~= t.take(n).skip(1));
        if no_newline(t.take(n)) {
            assert(t.take(n)[0] == t[0]);
        }
        if t[0] != '\n' && no_newline(t.skip(1).take(n - 1)) {
            assert forall|i: int| 0 <= i < n implies t.take(n)[i] != '\n' by {
                if i > 0 {
                    assert(t.take(n)[i] == t.skip(1).take(n - 1)[i - 1]);
                }
            }
        }
    }
}

/// The anchored regex text for `glob`.
pub fn glob_regex_text(glob: &str) -> (r: String)
    ensures
        r@ == glob_regex_source(glob@),
{
    let g = crate::chars::chars_of(glob);
    let mut out = String::new();
    out.push('^');
    let mut i: usize = 0;
    while i < g.len()
        invariant
            0 <= i <= g@.len(),
            g@ == glob@,
            out@ == seq!['^'] + glob_regex_body(g@.take(i as int)),
        decreases g.len() - i,
    {
        let c = g[i];
        proof {
            assert(g@.take(i + 1) =~= g@.take(i as int).push(c));
            lemma_body_push(g@.take(i as int), c);
        }
        if c == '.' {
            out.push('\\');
            out.push('.');
        } else if c == '*' {
            out.push('.');
            out.push('*');
        } else if c == '?' {
            out.push('.');
        } else if (c as u32) < 128 && !(('0' <= c && c <= '9') || ('A' <= c && c <= 'Z') || ('a'
            <= c && c <= 'z')) && c != '<' && c != '>' && c != '_' && c != '-' {
            out.push('\\');
            out.push(c);
        } else {
            out.push(c);
        }
        assert(out@ =~= seq!['^'] + glob_regex_body(g@.take(i + 1)));
        i = i + 1;
    }
    out.push('$');
    assert(g@.take(g@.len() as int) =~= g@);
    assert(out@ =~= glob_regex_source(glob@));
    out
}

/// Why a glob could not be turned into a matcher.
#[derive(Debug, Clone, PartialEq, Eq)]
pub enum GlobError {
    /// The `regex` crate refused the translated text, which is kept here.
    InvalidPattern { source: String },
}

/// A compiled glob.
pub struct GlobPattern {
    glob: String,
    source: String,
    regex: regex::Regex,
}

impl View for GlobPattern {
    type V = Seq<char>;

    /// The glob this matcher was built from.
    closed spec fn view(&self) -> Seq<char> {
        self.glob@
    }
}

impl GlobPattern {
    /// The compiled regex was built from the translation of the glob.
    #[verifier::type_invariant]
    spec fn inv(&self) -> bool {
        self.source@ == glob_regex_source(self.glob@)
    }

    /// The glob this matcher was built from.
    pub fn glob(&self) -> (r: &str)
        ensures
            r@ == self@,
    {
        self.glob.as_str()
    }

    /// Whether the whole of `name` is accepted by the glob.
    pub fn is_match(&self, name: &str) -> (r: bool)
        ensures
            r == glob_matches(self@, name@),
    {
        proof {
            use_type_invariant(self);
            lemma_source_is_simple(self@);
            lemma_translation(self@);
            let src = glob_regex_source(self@);
            assert(src.subrange(1, src.len() - 1) =~= glob_regex_body(self@));
        }
        regex_matches(self, name)
    }
}

/// Relies on `regex::Regex::new`, which compiles the regex text or reports
/// why it cannot. The outcome depends on the text alone. Text of `^`, then
/// `.*`, `.`, literals and escaped ASCII punctuation, then `$`, parses; when
/// it is short its automaton stays far below the default 10 MiB size limit.
#[verifier::external_body]
fn compile_regex(source: &str) -> (r: Result<regex::Regex, regex::Error>)
    ensures
        r is Ok <==> regex_compiles(source@),
        is_simple_regex(source@) && source@.len() <= simple_regex_len_bound() ==> r is Ok,
{
    regex::Regex::new(source)
}

/// Relies on `regex::Regex::is_match` on the regex that `glob_to_regex`
/// compiled from `p.source`: `^` and `$` anchor at the ends of the haystack,
/// `.` is any character but a line feed, `x*` repeats `x` zero or more times,
/// a backslash before ASCII other than letters, digits, `<` and `>` makes
/// that character a literal, and letters, digits, `_`, `-`, `<`, `>` and
/// characters beyond ASCII are literals as they stand.
#[verifier::external_body]
fn regex_matches(p: &GlobPattern, haystack: &str) -> (r: bool)
    ensures
        is_simple_regex(p.source@) ==> r == body_matches(
            p.source@.subrange(1, p.source@.len() - 1),
            haystack@,
        ),
{
    p.regex.is_match(haystack)
}

/// Compiles `glob` into a matcher; fails exactly when the `regex` crate
/// refuses the translated text, which it never does for a glob of at most
/// 127 characters.
pub fn glob_to_regex(glob: &str) -> (r: Result<GlobPattern, GlobError>)
    ensures
        r is Ok <==> regex_compiles(glob_regex_source(glob@)),
        glob@.len() <= 127 ==> r is Ok,
        r matches Ok(p) ==> p@ == glob@,
        r matches Err(GlobError::InvalidPattern { source }) ==> source@ == glob_regex_source(
            glob@,
        ),
{
    let source = glob_regex_text(glob);
    proof {
        lemma_source_is_simple(glob@);
    }
    match compile_regex(source.as_str()) {
        Ok(regex) => Ok(GlobPattern { glob: glob.to_owned(), source, regex }),
        Err(_) => Err(GlobError::InvalidPattern { source }),
    }
}

} // verus!
