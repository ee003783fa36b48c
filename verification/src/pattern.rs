//! Matching one pattern of a parser against a candidate path: the glob decides
//! whether the path belongs to the system, the regular expression names the
//! ROM.
//!
//! Globs are compiled by `wax` and regular expressions by `regex`. What those
//! crates decide is named here by functions without a body; the rules around
//! their answers are proved.
//!
//! Not every text is handed to `wax`, which does not return on every
//! expression. A glob is compiled only if its expression is [`admitted`];
//! anything else is an invalid glob here.

use vstd::prelude::*;
use crate::library::{ParserPattern, ParserPatternView};
use crate::admission::{admitted, is_admitted, lemma_plain_admitted, LENGTH_LIMIT};
use crate::text::{
    chars_of, concat_chars, has_prefix, optional_text, replace, replace_char, slice_chars,
    string_of,
};

verus! {

/// Whether `wax` builds a glob from `expression`.
pub uninterp spec fn glob_compiles(expression: Seq<char>) -> bool;

/// Whether the glob that `wax` builds from `expression` matches `candidate`.
/// Meaningful where `glob_compiles(expression)` holds.
pub uninterp spec fn glob_accepts(expression: Seq<char>, candidate: Seq<char>) -> bool;

/// Whether `regex` builds a regular expression from `pattern`, with letter case
/// ignored if `case_insensitive` is set.
pub uninterp spec fn regex_compiles(pattern: Seq<char>, case_insensitive: bool) -> bool;

/// What the group named `group` holds in the first match of `pattern` in
/// `text`: `None` where nothing matches, where the pattern has no such group,
/// or where the group took no part in the match. Meaningful where
/// `regex_compiles(pattern, case_insensitive)` holds.
pub uninterp spec fn regex_capture(
    pattern: Seq<char>,
    case_insensitive: bool,
    group: Seq<char>,
    text: Seq<char>,
) -> Option<Seq<char>>;

/// The flag that makes the literal text in the rest of a glob expression
/// ignore letter case.
pub open spec fn case_flag() -> Seq<char> {
    seq!['(', '?', 'i', ')']
}

/// The wildcard that stands for any number of directories.
pub open spec fn tree_wildcard() -> Seq<char> {
    seq!['*', '*']
}

/// Whether a case flag stands before all literal text of a glob expression: the
/// expression is empty, or begins with the flag, or begins with a tree
/// wildcard after which it ends or goes on with something other than a slash.
/// In an expression that `wax` accepts, that can only be a flag.
pub open spec fn case_settled(expression: Seq<char>) -> bool {
    ||| expression.len() == 0
    ||| has_prefix(expression, case_flag())
    ||| (has_prefix(expression, tree_wildcard()) && (expression.len() == 2 || expression[2] != '/'))
}

/// Name of the capture group that holds a ROM's title.
pub open spec fn title_group() -> Seq<char> {
    seq!['t', 'i', 't', 'l', 'e']
}

/// Calls `wax::Glob::new` and, on the glob it built, `wax::Pattern::is_match`
/// with `candidate`. `Err` stands for the build error.
///
/// The expression has to be admitted. `wax` does not return on every
/// expression: it stops the program where the bounds of a repetition are
/// beyond what it can multiply or what `regex` takes as a count, and where
/// groups nest deeper than `regex` parses. In an admitted expression the
/// bounds are small enough for both, and nothing nests that deep. Its weight
/// is bounded because `wax` rejects text beyond a size that it measures by
/// the platform's case rules.
///
/// The case of the expression has to be settled: where an expression leaves
/// it open, `wax` follows the case rules of the platform it was built for.
/// And the candidate must hold no backslash, which `wax` reads as a separator
/// on some platforms only.
#[verifier::external_body]
fn glob_is_match(expression: &str, candidate: &str) -> (r: Result<bool, ()>)
    requires
        admitted(expression@),
        case_settled(expression@),
        !candidate@.contains('\\'),
    ensures
        r is Ok <==> glob_compiles(expression@),
        r is Ok ==> r->Ok_0 == glob_accepts(expression@, candidate@),
{
    match wax::Glob::new(expression) {
        Ok(glob) => Ok(wax::Pattern::is_match(&glob, candidate)),
        Err(_) => Err(()),
    }
}

/// Builds a regular expression from `pattern` with
/// `regex::RegexBuilder::build`, calls `regex::Regex::captures` with `text` on
/// it, and `regex::Captures::name` with `group` on what that found. `Err`
/// stands for the build error.
#[verifier::external_body]
fn regex_captures(pattern: &str, case_insensitive: bool, group: &str, text: &str) -> (r: Result<
    Option<String>,
    (),
>)
    ensures
        r is Ok <==> regex_compiles(pattern@, case_insensitive),
        r is Ok ==> optional_text(r->Ok_0) == regex_capture(
            pattern@,
            case_insensitive,
            group@,
            text@,
        ),
{
    match regex::RegexBuilder::new(pattern).case_insensitive(case_insensitive).build() {
        Ok(re) => Ok(
            re.captures(text).and_then(|found| found.name(group)).map(|m| m.as_str().to_owned()),
        ),
        Err(_) => Err(()),
    }
}

/// Why a pattern could not be applied.
#[derive(Debug, PartialEq, Eq, Structural, Clone, Copy)]
pub enum PatternError {
    /// The glob expression is not admitted or does not compile.
    InvalidGlob,
    /// The regular expression does not compile.
    InvalidRegex,
}

/// The outcome of matching one pattern against one path.
#[derive(Debug, PartialEq, Eq)]
pub struct MatchResult {
    /// Whether the glob matched the path.
    pub matched: bool,
    /// The title that the regular expression captured, if the glob matched and
    /// the expression captured one.
    pub title: Option<String>,
}

/// What a [`MatchResult`] holds, as mathematical values.
pub struct MatchView {
    pub matched: bool,
    pub title: Option<Seq<char>>,
}

impl View for MatchResult {
    type V = MatchView;

    open spec fn view(&self) -> MatchView {
        MatchView { matched: self.matched, title: optional_text(self.title) }
    }
}

/// The expression that is compiled for the glob `glob`: the glob with the case
/// flag before its first letter. The flag goes to the front, or, where the
/// glob begins with a tree wildcard and a slash, between the two: `wax` takes
/// no flag before a leading tree wildcard. An empty glob and one that begins
/// with a tree wildcard without a slash stay as they are.
pub open spec fn glob_expression(glob: Seq<char>) -> Seq<char> {
    if glob.len() == 0 {
        glob
    } else if has_prefix(glob, tree_wildcard()) {
        if glob.len() > 2 && glob[2] == '/' {
            tree_wildcard() + case_flag() + glob.skip(2)
        } else {
            glob
        }
    } else {
        case_flag() + glob
    }
}

/// `path` with every backslash turned into a slash.
pub open spec fn normalized(path: Seq<char>) -> Seq<char> {
    replace(path, '\\', '/')
}

/// Whether `glob` is a glob that compiles: its expression is admitted, and
/// `wax` builds a glob from it.
pub open spec fn valid_glob(glob: Seq<char>) -> bool {
    admitted(glob_expression(glob)) && glob_compiles(glob_expression(glob))
}

/// Whether `regex` is a regular expression that compiles.
pub open spec fn valid_regex(regex: Seq<char>) -> bool {
    regex_compiles(regex, true)
}

/// Whether `glob` matches `candidate`. Meaningful where `valid_glob(glob)`
/// holds.
///
/// Letter case is ignored in the literal text of the glob. A bracket class
/// ignores it only where literal text stands before the class, outside every
/// alternative that has closed by then: `x[a-c].sfc` takes both `xa.sfc` and
/// `XA.sfc`. A class with no such text before it is matched by the case it is
/// written in: `[a-c]*.sfc` takes `a.sfc` and not `A.sfc`, and `{x,y}[a-c]`
/// takes `xa` and not `xA`.
pub open spec fn glob_hit(glob: Seq<char>, candidate: Seq<char>) -> bool {
    glob_accepts(glob_expression(glob), normalized(candidate))
}

/// The title that `regex` captures from the candidate path `candidate`,
/// letter case ignored.
pub open spec fn captured_title(regex: Seq<char>, candidate: Seq<char>) -> Option<Seq<char>> {
    regex_capture(regex, true, title_group(), normalized(candidate))
}

/// The title of the ROM at `path`: what was captured from its candidate path,
/// or else the full path itself.
pub open spec fn title_of(path: Seq<char>, capture: Option<Seq<char>>) -> Seq<char> {
    match capture {
        Some(title) => title,
        None => path,
    }
}

/// The outcome for a path that the glob did or did not match and from which
/// the regular expression captured `capture`.
pub open spec fn outcome(hit: bool, capture: Option<Seq<char>>) -> MatchView {
    MatchView {
        matched: hit,
        title: if hit {
            capture
        } else {
            None
        },
    }
}

/// What matching `pattern` against the candidate path `candidate` gives.
pub open spec fn match_of(pattern: ParserPatternView, candidate: Seq<char>) -> Result<
    MatchView,
    PatternError,
> {
    if !valid_glob(pattern.glob) {
        Err(PatternError::InvalidGlob)
    } else if !valid_regex(pattern.regex) {
        Err(PatternError::InvalidRegex)
    } else {
        Ok(outcome(glob_hit(pattern.glob, candidate), captured_title(pattern.regex, candidate)))
    }
}

/// The case of every expression that is compiled for a glob is settled.
pub proof fn lemma_expression_settled(glob: Seq<char>)
    ensures
        case_settled(glob_expression(glob)),
{
    let e = glob_expression(glob);
    if glob.len() == 0 {
    } else if has_prefix(glob, tree_wildcard()) {
        if glob.len() > 2 && glob[2] == '/' {
            assert(e.take(2) =~= tree_wildcard());
            assert(e[2] == '(');
        }
    } else {
        assert(e.take(case_flag().len() as int) =~= case_flag());
    }
}

/// A glob of literal text, wildcards and bracket classes is valid exactly
/// where `wax` builds its expression: what is not admitted holds a brace, an
/// angle bracket or a colon, or is very long.
pub proof fn lemma_plain_glob_valid(glob: Seq<char>)
    requires
        glob.len() + case_flag().len() < LENGTH_LIMIT,
        !glob.contains('{'),
        !glob.contains('<'),
        !glob.contains(':'),
    ensures
        valid_glob(glob) == glob_compiles(glob_expression(glob)),
{
    let e = glob_expression(glob);
    assert forall|i: int| 0 <= i < e.len() implies e[i] != '{' && e[i] != '<' && e[i] != ':' by {
        if glob.len() == 0 {
        } else if has_prefix(glob, tree_wildcard()) {
            assert(glob.take(2)[0] == '*' && glob.take(2)[1] == '*');
            if glob.len() > 2 && glob[2] == '/' {
                if i >= 6 {
                    assert(e[i] == glob[i - 4]);
                    assert(glob.contains(glob[i - 4]));
                } else if i < 2 {
                    assert(e[i] == '*');
                }
            } else {
                assert(glob.contains(glob[i]));
            }
        } else {
            if i >= 4 {
                assert(e[i] == glob[i - 4]);
                assert(glob.contains(glob[i - 4]));
            }
        }
    }
    lemma_plain_admitted(e);
}

/// `path` with every backslash turned into a slash.
pub fn normalize_separators(path: &str) -> (r: String)
    ensures
        r@ == normalized(path@),
        !r@.contains('\\'),
{
    let chars = chars_of(path);
    let replaced = replace_char(&chars, '\\', '/');
    string_of(&replaced)
}

/// The expression that is compiled for `glob`.
pub fn case_insensitive_glob(glob: &str) -> (r: String)
    ensures
        r@ == glob_expression(glob@),
        case_settled(r@),
{
    let chars = chars_of(glob);
    let flag = chars_of("(?i)");
    proof {
        reveal_strlit("(?i)");
        assert(flag@ =~= case_flag());
    }
    if chars.len() == 0 {
        return glob.to_owned();
    }
    if chars.len() >= 2 && chars[0] == '*' && chars[1] == '*' {
        assert(chars@.take(2) =~= tree_wildcard());
        if chars.len() > 2 && chars[2] == '/' {
            let head = slice_chars(&chars, 0, 2);
            let tail = slice_chars(&chars, 2, chars.len());
            let front = concat_chars(&head, &flag);
            let whole = concat_chars(&front, &tail);
            assert(tail@ =~= chars@.skip(2));
            assert(head@ =~= tree_wildcard());
            assert(whole@.take(2) =~= tree_wildcard());
            assert(whole@[2] == '(');
            return string_of(&whole);
        }
        return glob.to_owned();
    }
    assert(!has_prefix(chars@, tree_wildcard())) by {
        if has_prefix(chars@, tree_wildcard()) {
            assert(chars@.take(2)[0] == '*');
            assert(chars@.take(2)[1] == '*');
        }
    }
    let whole = concat_chars(&flag, &chars);
    assert(whole@.take(case_flag().len() as int) =~= case_flag());
    string_of(&whole)
}

/// Whether `glob` is a glob that compiles. An admitted expression is compiled
/// for a match against the empty path, whose outcome does not matter.
pub fn is_valid_glob(glob: &str) -> (ok: bool)
    ensures
        ok == valid_glob(glob@),
{
    let expression = case_insensitive_glob(glob);
    if !is_admitted(expression.as_str()) {
        return false;
    }
    let nothing = String::new();
    assert(!nothing@.contains('\\'));
    glob_is_match(expression.as_str(), nothing.as_str()).is_ok()
}

/// Whether `regex` is a regular expression that compiles: it is compiled for
/// a search in the empty text, whose outcome does not matter.
pub fn is_valid_regex(regex: &str) -> (ok: bool)
    ensures
        ok == valid_regex(regex@),
{
    let nothing = String::new();
    regex_captures(regex, true, "title", nothing.as_str()).is_ok()
}

/// Whether `glob` matches `candidate`, the letter case of the glob's literal
/// text ignored and backslashes in the candidate read as slashes. A glob whose
/// expression is not admitted, or does not compile, is an invalid glob.
pub fn glob_matches(glob: &str, candidate: &str) -> (r: Result<bool, PatternError>)
    ensures
        r is Ok <==> valid_glob(glob@),
        r is Ok ==> r->Ok_0 == glob_hit(glob@, candidate@),
        r is Err ==> r->Err_0 == PatternError::InvalidGlob,
{
    let expression = case_insensitive_glob(glob);
    if !is_admitted(expression.as_str()) {
        return Err(PatternError::InvalidGlob);
    }
    let plain = normalize_separators(candidate);
    match glob_is_match(expression.as_str(), plain.as_str()) {
        Ok(hit) => Ok(hit),
        Err(_) => Err(PatternError::InvalidGlob),
    }
}

/// The title that `regex` captures from the candidate path `candidate`,
/// letter case ignored and backslashes in the path read as slashes.
pub fn capture_title(regex: &str, candidate: &str) -> (r: Result<Option<String>, PatternError>)
    ensures
        r is Ok <==> valid_regex(regex@),
        r is Ok ==> optional_text(r->Ok_0) == captured_title(regex@, candidate@),
        r is Err ==> r->Err_0 == PatternError::InvalidRegex,
{
    let plain = normalize_separators(candidate);
    proof {
        reveal_strlit("title");
        assert("title"@ =~= title_group());
    }
    match regex_captures(regex, true, "title", plain.as_str()) {
        Ok(capture) => Ok(capture),
        Err(_) => Err(PatternError::InvalidRegex),
    }
}

/// The title of the ROM at `path`, given what the regular expression captured:
/// the capture where there is one, the path itself otherwise.
pub fn resolve_title(path: &str, capture: Option<String>) -> (title: String)
    ensures
        title@ == title_of(path@, optional_text(capture)),
{
    match capture {
        Some(captured) => captured,
        None => path.to_owned(),
    }
}

/// The outcome for a path, given whether the glob matched it and what the
/// regular expression captured from it.
pub fn match_outcome(hit: bool, capture: Option<String>) -> (m: MatchResult)
    ensures
        m@ == outcome(hit, optional_text(capture)),
{
    if hit {
        MatchResult { matched: true, title: capture }
    } else {
        MatchResult { matched: false, title: None }
    }
}

/// Matches `pattern` against one candidate path: the glob decides whether the
/// path matches, and the regular expression reads the title from it. Both
/// read backslashes in the path as slashes. The regular expression ignores
/// letter case; the glob does so as [`glob_hit`] says.
pub fn match_pattern(pattern: &ParserPattern, candidate: &str) -> (r: Result<
    MatchResult,
    PatternError,
>)
    ensures
        match (r, match_of(pattern@, candidate@)) {
            (Ok(m), Ok(v)) => m@ == v,
            (Err(e), Err(f)) => e == f,
            _ => false,
        },
{
    let hit = match glob_matches(pattern.glob.as_str(), candidate) {
        Ok(hit) => hit,
        Err(e) => {
            return Err(e);
        },
    };
    let capture = match capture_title(pattern.regex.as_str(), candidate) {
        Ok(capture) => capture,
        Err(e) => {
            return Err(e);
        },
    };
    Ok(match_outcome(hit, capture))
}

} // verus!
