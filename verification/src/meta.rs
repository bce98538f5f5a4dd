//! The document's meta front matter: a leading `---meta` block, closed by a
//! `---` line, whose `key: value` lines set the window title and the
//! fullscreen flag; the rest of the text is the markup body. The block is
//! optional; without it the whole text is the body and the defaults hold.

use vstd::prelude::*;

use crate::strutil::{eq_at, find_first, match_at};

verus! {

pub const META_PREFIX: &'static str = "---meta\n";

pub const META_END: &'static str = "---\n";

pub const FULLSCREEN_KEY: &'static str = "fullscreen";

pub const TITLE_KEY: &'static str = "title";

pub const TRUE_WORD: &'static str = "true";

pub const DEFAULT_TITLE: &'static str = "OpMark Egui";

/// ASCII whitespace, as trimming understands it.
pub open spec fn spec_is_space(c: char) -> bool {
    c == ' ' || c == '\t' || c == '\n' || c == '\r' || c == '\u{000b}' || c == '\u{000c}'
}

/// `s` without its leading whitespace.
pub open spec fn spec_trim_start(s: Seq<char>) -> Seq<char>
    decreases s.len(),
{
    if s.len() > 0 && spec_is_space(s[0]) {
        spec_trim_start(s.skip(1))
    } else {
        s
    }
}

/// `s` without its trailing whitespace.
pub open spec fn spec_trim_end(s: Seq<char>) -> Seq<char>
    decreases s.len(),
{
    if s.len() > 0 && spec_is_space(s.last()) {
        spec_trim_end(s.drop_last())
    } else {
        s
    }
}

/// `s` without leading and trailing whitespace.
pub open spec fn spec_trim(s: Seq<char>) -> Seq<char> {
    spec_trim_end(spec_trim_start(s))
}

/// The index of the first occurrence of `c` in `s`, `-1` if there is none.
pub open spec fn spec_first_sep(s: Seq<char>, c: char) -> int
    decreases s.len(),
{
    if s.len() == 0 {
        -1
    } else if s[0] == c {
        0
    } else {
        let r = spec_first_sep(s.skip(1), c);
        if r == -1 {
            -1
        } else {
            r + 1
        }
    }
}

/// The index of the first occurrence of `pat` in `s`, `-1` if there is
/// none.
pub open spec fn spec_first_match(s: Seq<char>, pat: Seq<char>) -> int
    decreases s.len(),
{
    if pat.len() <= 0 {
        0
    } else if s.len() < pat.len() {
        -1
    } else if s.take(pat.len() as int) == pat {
        0
    } else {
        let r = spec_first_match(s.skip(1), pat);
        if r == -1 {
            -1
        } else {
            r + 1
        }
    }
}

proof fn lemma_match_at_shift(s: Seq<char>, pat: Seq<char>, j: int)
    requires
        j >= 0,
    ensures
        match_at(s, pat, j + 1) == (s.len() >= 1 && match_at(s.skip(1), pat, j)),
{
    if s.len() >= 1 && j + 1 + pat.len() <= s.len() {
        assert(s.skip(1).subrange(j, j + pat.len() as int) =~= s.subrange(
            j + 1,
            j + 1 + pat.len() as int,
        ));
    }
}

/// Where a first occurrence exists, `spec_first_match` is exactly it.
proof fn lemma_first_match_is_first(s: Seq<char>, pat: Seq<char>, i: int)
    requires
        pat.len() > 0,
        match_at(s, pat, i),
        forall|j: int| 0 <= j < i ==> !match_at(s, pat, j),
    ensures
        spec_first_match(s, pat) == i,
    decreases s.len(),
{
    assert(s.len() >= pat.len());
    if i == 0 {
        assert(s.subrange(0, pat.len() as int) =~= s.take(pat.len() as int));
    } else {
        assert(!match_at(s, pat, 0));
        assert(s.take(pat.len() as int) =~= s.subrange(0, pat.len() as int));
        lemma_match_at_shift(s, pat, i - 1);
        assert(match_at(s.skip(1), pat, i - 1));
        assert forall|j: int| 0 <= j < i - 1 implies !match_at(s.skip(1), pat, j) by {
            lemma_match_at_shift(s, pat, j);
        }
        lemma_first_match_is_first(s.skip(1), pat, i - 1);
    }
}

/// Where no occurrence exists, `spec_first_match` is `-1`.
proof fn lemma_first_match_none(s: Seq<char>, pat: Seq<char>)
    requires
        pat.len() > 0,
        forall|j: int| !match_at(s, pat, j),
    ensures
        spec_first_match(s, pat) == -1,
    decreases s.len(),
{
    if s.len() >= pat.len() {
        assert(!match_at(s, pat, 0));
        assert(s.take(pat.len() as int) =~= s.subrange(0, pat.len() as int));
        assert forall|j: int| !match_at(s.skip(1), pat, j) by {
            if j >= 0 {
                lemma_match_at_shift(s, pat, j);
            }
        }
        lemma_first_match_none(s.skip(1), pat);
    }
}

/// Find the first occurrence of `pat`, as `spec_first_match` names it.
fn find_sub(s: &str, pat: &str) -> (r: Option<usize>)
    requires
        pat@.len() > 0,
    ensures
        match r {
            Some(i) => spec_first_match(s@, pat@) == i && i + pat@.len() <= s@.len(),
            None => spec_first_match(s@, pat@) == -1,
        },
{
    let r = find_first(s, pat);
    proof {
        match r {
            Some(i) => {
                lemma_first_match_is_first(s@, pat@, i as int);
            },
            None => {
                lemma_first_match_none(s@, pat@);
            },
        }
    }
    r
}

/// Whether `s` begins with `pat`.
fn starts_with(s: &str, pat: &str) -> (b: bool)
    ensures
        b == (s@.len() >= pat@.len() && s@.take(pat@.len() as int) == pat@),
{
    let n = s.unicode_len();
    let m = pat.unicode_len();
    if m > n {
        return false;
    }
    let b = eq_at(s, 0, pat);
    proof {
        assert(s@.subrange(0, pat@.len() as int) =~= s@.take(pat@.len() as int));
    }
    b
}

/// Whether two strings hold the same characters.
fn str_eq(a: &str, b: &str) -> (r: bool)
    ensures
        r == (a@ == b@),
{
    let n = a.unicode_len();
    let m = b.unicode_len();
    if n != m {
        return false;
    }
    let r = eq_at(a, 0, b);
    proof {
        assert(a@.subrange(0, b@.len() as int) =~= a@);
    }
    r
}

fn is_space(c: char) -> (b: bool)
    ensures
        b == spec_is_space(c),
{
    c == ' ' || c == '\t' || c == '\n' || c == '\r' || c == '\u{000b}' || c == '\u{000c}'
}

/// Trim leading whitespace.
fn trim_start(s: &str) -> (r: String)
    ensures
        r@ == spec_trim_start(s@),
    decreases s@.len(),
{
    let n = s.unicode_len();
    if n > 0 && is_space(s.get_char(0)) {
        let rest = s.substring_char(1, n);
        proof {
            assert(rest@ =~= s@.skip(1));
        }
        trim_start(rest)
    } else {
        String::from_str(s)
    }
}

/// Trim trailing whitespace.
fn trim_end(s: &str) -> (r: String)
    ensures
        r@ == spec_trim_end(s@),
    decreases s@.len(),
{
    let n = s.unicode_len();
    if n > 0 && is_space(s.get_char(n - 1)) {
        let rest = s.substring_char(0, n - 1);
        proof {
            assert(rest@ =~= s@.drop_last());
        }
        trim_end(rest)
    } else {
        String::from_str(s)
    }
}

/// Trim leading and trailing whitespace.
pub fn trim(s: &str) -> (r: String)
    ensures
        r@ == spec_trim(s@),
{
    let a = trim_start(s);
    trim_end(a.as_str())
}

/// Find the first occurrence of `c`, as `spec_first_sep` names it.
fn find_char(s: &str, c: char) -> (r: Option<usize>)
    ensures
        match r {
            Some(i) => spec_first_sep(s@, c) == i && i < s@.len(),
            None => spec_first_sep(s@, c) == -1,
        },
    decreases s@.len(),
{
    let n = s.unicode_len();
    if n == 0 {
        None
    } else if s.get_char(0) == c {
        Some(0)
    } else {
        let rest = s.substring_char(1, n);
        proof {
            assert(rest@ =~= s@.skip(1));
        }
        match find_char(rest, c) {
            Some(j) => Some(j + 1),
            None => None,
        }
    }
}

/// The lines of `s`, split at `\n`: one more line than there are
/// separators; an empty text is one empty line.
pub open spec fn spec_split_lines(s: Seq<char>) -> Seq<Seq<char>>
    decreases s.len(),
    via spec_split_lines_dec
{
    let i = spec_first_sep(s, '\n');
    if i == -1 {
        seq![s]
    } else {
        seq![s.take(i)] + spec_split_lines(s.skip(i + 1))
    }
}

#[via_fn]
proof fn spec_split_lines_dec(s: Seq<char>) {
    lemma_first_sep_in_range(s, '\n');
}

proof fn lemma_first_sep_in_range(s: Seq<char>, c: char)
    ensures
        spec_first_sep(s, c) == -1 || (0 <= spec_first_sep(s, c) < s.len()),
    decreases s.len(),
{
    if s.len() > 0 && s[0] != c {
        lemma_first_sep_in_range(s.skip(1), c);
    }
}

/// The views of a list of owned lines.
pub open spec fn line_views(v: Seq<String>) -> Seq<Seq<char>> {
    v.map_values(|x: String| x@)
}

/// Split into lines at `\n`.
fn split_lines(s: &str) -> (r: Vec<String>)
    ensures
        line_views(r@) == spec_split_lines(s@),
    decreases s@.len(),
{
    let n = s.unicode_len();
    match find_char(s, '\n') {
        Some(i) => {
            let head = s.substring_char(0, i);
            let rest = s.substring_char(i + 1, n);
            proof {
                assert(rest@ =~= s@.skip(i + 1));
                assert(head@ =~= s@.take(i as int));
            }
            let mut v = split_lines(rest);
            let ghost tailv = line_views(v@);
            v.insert(0, String::from_str(head));
            proof {
                assert(line_views(v@) =~= seq![s@.take(spec_first_sep(s@, '\n'))] + tailv);
            }
            v
        },
        None => {
            let mut v: Vec<String> = Vec::new();
            v.push(String::from_str(s));
            proof {
                assert(line_views(v@) =~= seq![s@]);
            }
            v
        },
    }
}

/// A meta line's key: the text before the first `:`, or the whole line.
pub open spec fn spec_line_key(line: Seq<char>) -> Seq<char> {
    let i = spec_first_sep(line, ':');
    if i == -1 {
        line
    } else {
        line.take(i)
    }
}

/// A meta line's value: the text after the first `:`, if the line has one.
pub open spec fn spec_line_val(line: Seq<char>) -> Option<Seq<char>> {
    let i = spec_first_sep(line, ':');
    if i == -1 {
        Option::None
    } else {
        Option::Some(line.skip(i + 1))
    }
}

/// Apply one meta line to the accumulated settings: `fullscreen: true` sets
/// the flag; `title: <text>` sets the title (trimmed); any other line is
/// ignored. Later lines win.
pub open spec fn spec_apply_line(line: Seq<char>, fs: bool, title: Option<Seq<char>>) -> (
    bool,
    Option<Seq<char>>,
) {
    match spec_line_val(line) {
        Option::Some(v) => if spec_line_key(line) == FULLSCREEN_KEY@ && spec_trim(v)
            == TRUE_WORD@ {
            (true, title)
        } else if spec_line_key(line) == TITLE_KEY@ {
            (fs, Option::Some(spec_trim(v)))
        } else {
            (fs, title)
        },
        Option::None => (fs, title),
    }
}

/// Fold all meta lines, in order, over the defaults.
pub open spec fn spec_fold_lines(lines: Seq<Seq<char>>) -> (bool, Option<Seq<char>>)
    decreases lines.len(),
{
    if lines.len() == 0 {
        (false, Option::None)
    } else {
        let acc = spec_fold_lines(lines.drop_last());
        spec_apply_line(lines.last(), acc.0, acc.1)
    }
}

/// What parsing the front matter of a whole document text yields.
#[verifier::ext_equal]
pub ghost struct MetaView {
    pub fullscreen: bool,
    pub title: Seq<char>,
    pub body: Seq<char>,
}

/// The meta settings and body of a document text. The block applies only
/// when the text starts with the `---meta` line and a closing `---` line
/// follows; otherwise the whole text is the body. The body keeps the
/// newline of the closing line.
pub open spec fn spec_parse_meta(s: Seq<char>) -> MetaView {
    if s.len() >= META_PREFIX@.len() && s.take(META_PREFIX@.len() as int) == META_PREFIX@ {
        let rest = s.skip(META_PREFIX@.len() as int);
        let i = spec_first_match(rest, META_END@);
        if i == -1 {
            MetaView { fullscreen: false, title: DEFAULT_TITLE@, body: s }
        } else {
            let folded = spec_fold_lines(spec_split_lines(rest.take(i)));
            MetaView {
                fullscreen: folded.0,
                title: match folded.1 {
                    Option::Some(t) => t,
                    Option::None => DEFAULT_TITLE@,
                },
                body: rest.skip(i + 3),
            }
        }
    } else {
        MetaView { fullscreen: false, title: DEFAULT_TITLE@, body: s }
    }
}

/// A parsed document text: its meta settings and its markup body.
#[derive(Debug, Clone, PartialEq)]
pub struct Parser {
    pub fullscreen: bool,
    pub title: String,
    pub body: String,
}

impl View for Parser {
    type V = MetaView;

    open spec fn view(&self) -> MetaView {
        MetaView { fullscreen: self.fullscreen, title: self.title@, body: self.body@ }
    }
}

impl Parser {
    /// Parse a document text's front matter.
    pub fn new(s: String) -> (p: Parser)
        ensures
            p@ == spec_parse_meta(s@),
    {
        proof {
            reveal_strlit("---meta\n");
            reveal_strlit("---\n");
        }
        let n = s.as_str().unicode_len();
        if !starts_with(s.as_str(), META_PREFIX) {
            let p = Parser {
                fullscreen: false,
                title: String::from_str(DEFAULT_TITLE),
                body: s,
            };
            proof {
                assert(p@ =~= spec_parse_meta(p.body@));
            }
            return p;
        }
        let plen = META_PREFIX.unicode_len();
        let rest = s.as_str().substring_char(plen, n);
        proof {
            assert(rest@ =~= s@.skip(META_PREFIX@.len() as int));
        }
        match find_sub(rest, META_END) {
            Some(i) => {
                let meta = rest.substring_char(0, i);
                proof {
                    assert(meta@ =~= rest@.take(i as int));
                }
                let lines = split_lines(meta);
                let mut fullscreen = false;
                let mut title: Option<String> = None;
                let ghost lv = line_views(lines@);
                let mut k: usize = 0;
                proof {
                    assert(lv.take(0).len() == 0);
                }
                while k < lines.len()
                    invariant
                        k <= lv.len(),
                        lv == line_views(lines@),
                        fullscreen == spec_fold_lines(lv.take(k as int)).0,
                        match title {
                            Some(t) => spec_fold_lines(lv.take(k as int)).1
                                == Option::Some(t@),
                            None => spec_fold_lines(lv.take(k as int)).1
                                is None,
                        },
                    decreases lv.len() - k,
                {
                    let line = &lines[k];
                    proof {
                        assert(lv.take(k + 1).drop_last() =~= lv.take(k as int));
                        assert(lv.take(k + 1).last() == line@);
                    }
                    match find_char(line.as_str(), ':') {
                        Some(ci) => {
                            let key = line.as_str().substring_char(0, ci);
                            let lm = line.as_str().unicode_len();
                            let val = line.as_str().substring_char(ci + 1, lm);
                            proof {
                                assert(key@ =~= line@.take(ci as int));
                                assert(val@ =~= line@.skip(ci + 1));
                            }
                            let tv = trim(val);
                            if str_eq(key, FULLSCREEN_KEY) && str_eq(
                                tv.as_str(),
                                TRUE_WORD,
                            ) {
                                fullscreen = true;
                            } else if str_eq(key, TITLE_KEY) {
                                title = Some(tv);
                            }
                        },
                        None => {},
                    }
                    k = k + 1;
                }
                proof {
                    assert(lv.take(lv.len() as int) =~= lv);
                }
                let rlen = rest.unicode_len();
                let body = rest.substring_char(i + 3, rlen);
                proof {
                    assert(body@ =~= rest@.skip(i + 3));
                }
                let p = Parser {
                    fullscreen,
                    title: match title {
                        Some(t) => t,
                        None => String::from_str(DEFAULT_TITLE),
                    },
                    body: String::from_str(body),
                };
                proof {
                    assert(p@ =~= spec_parse_meta(s@));
                }
                p
            },
            None => {
                let p = Parser {
                    fullscreen: false,
                    title: String::from_str(DEFAULT_TITLE),
                    body: s,
                };
                proof {
                    assert(p@ =~= spec_parse_meta(p.body@));
                }
                p
            },
        }
    }
}

} // verus!
