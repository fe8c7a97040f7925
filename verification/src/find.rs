use crate::text::{chars_of, same_text};
use vstd::prelude::*;

verus! {

broadcast use vstd::seq_lib::group_to_multiset_ensures;

/// Makes `regex::Regex` known to Verus as an opaque type: a compiled regular
/// expression is only carried, never looked into.
#[verifier::external_type_specification]
#[verifier::external_body]
pub struct ExRegex(regex::Regex);

/// Makes `regex::Error` known to Verus as an opaque type: the reason a
/// pattern does not compile is only carried to the caller.
#[verifier::external_type_specification]
#[verifier::external_body]
pub struct ExRegexError(regex::Error);

/// Whether `regex::Regex::new` accepts `pattern`.
pub uninterp spec fn regex_compiles(pattern: Seq<char>) -> bool;

/// Whether the regular expression `pattern` matches somewhere in `text`, as
/// `regex::Regex::is_match` decides it.
pub uninterp spec fn regex_matches(pattern: Seq<char>, text: Seq<char>) -> bool;

/// `regex::Regex::new`: compiles `pattern`, or reports why it cannot. The
/// contract claims that success depends on the pattern alone; which patterns
/// compile (the regex syntax and size limits) is not stated.
#[verifier::external_body]
fn regex_new(pattern: &str) -> (r: Result<regex::Regex, regex::Error>)
    ensures
        r is Ok == regex_compiles(pattern@),
{
    regex::Regex::new(pattern)
}

/// Which entries a search reports.
#[derive(Clone, Copy, Debug, PartialEq, Eq, Structural)]
pub enum Optional {
    /// Directories only.
    D,
    /// Regular files only.
    F,
    /// Every entry.
    N,
}

/// Reads the optional third argument of the finder: `-d` selects
/// directories, `-f` files, no argument everything; any other argument is
/// refused with `None`.
pub fn option_from_arg(arg: Option<&str>) -> (r: Option<Optional>)
    ensures
        r == (match arg {
            None => Some(Optional::N),
            Some(a) => if a@ == "-d"@ {
                Some(Optional::D)
            } else if a@ == "-f"@ {
                Some(Optional::F)
            } else {
                None
            },
        }),
{
    match arg {
        None => Some(Optional::N),
        Some(a) => {
            if same_text(a, "-d") {
                Some(Optional::D)
            } else if same_text(a, "-f") {
                Some(Optional::F)
            } else {
                None
            }
        },
    }
}

/// Why a search pattern was refused.
pub enum PatternError {
    /// The regular expression does not compile.
    Invalid(regex::Error),
}

/// A compiled regular expression that file names are matched against.
pub struct NamePattern {
    source: String,
    regex: regex::Regex,
}

impl View for NamePattern {
    type V = Seq<char>;

    /// The regular expression the pattern was compiled from.
    closed spec fn view(&self) -> Seq<char> {
        self.source@
    }
}

/// `regex::Regex::is_match` on the compiled form of `p`. The contract
/// claims that the answer is a function of the pattern's source text (its
/// view) and of `text`; this holds because the only constructor,
/// [`NamePattern::new`], compiles the regex from that source and neither
/// field changes afterwards. What the answer is on given values (the regex
/// semantics) is not stated.
#[verifier::external_body]
fn regex_is_match(p: &NamePattern, text: &str) -> (r: bool)
    ensures
        r == regex_matches(p@, text@),
{
    p.regex.is_match(text)
}

impl NamePattern {

    /// Compiles `pattern`.
    pub fn new(pattern: &str) -> (r: Result<NamePattern, PatternError>)
        ensures
            r is Ok == regex_compiles(pattern@),
            r matches Ok(p) ==> p@ == pattern@,
    {
        match regex_new(pattern) {
            Ok(regex) => Ok(NamePattern { source: String::from_str(pattern), regex }),
            Err(e) => Err(PatternError::Invalid(e)),
        }
    }

    /// Whether the pattern matches somewhere in `text`.
    pub fn is_match(&self, text: &str) -> (r: bool)
        ensures
            r == regex_matches(self@, text@),
    {
        regex_is_match(self, text)
    }
}

/// Whether an entry of the given kind is reported under `opt`.
pub open spec fn kind_selected(opt: Optional, is_dir: bool, is_file: bool) -> bool {
    match opt {
        Optional::D => is_dir,
        Optional::F => is_file,
        Optional::N => true,
    }
}

/// Whether a directory entry is reported: it has a file name that is valid
/// text (`None` otherwise), the pattern matches in that name, and its kind
/// is selected.
pub fn selects(
    pattern: &NamePattern,
    opt: Optional,
    file_name: Option<&str>,
    is_dir: bool,
    is_file: bool,
) -> (r: bool)
    ensures
        r == (file_name matches Some(n) && regex_matches(pattern@, n@) && kind_selected(
            opt,
            is_dir,
            is_file,
        )),
{
    match file_name {
        None => false,
        Some(n) => {
            if pattern.is_match(n) {
                match opt {
                    Optional::D => is_dir,
                    Optional::F => is_file,
                    Optional::N => true,
                }
            } else {
                false
            }
        },
    }
}

/// `a` comes before `b` or equals it, comparing character by character: the
/// order in which `sort` puts strings (UTF-8 byte order and character order
/// agree).
pub open spec fn lex_le(a: Seq<char>, b: Seq<char>) -> bool
    decreases a.len(),
{
    if a.len() == 0 {
        true
    } else if b.len() == 0 {
        false
    } else if (a[0] as int) < (b[0] as int) {
        true
    } else if (a[0] as int) > (b[0] as int) {
        false
    } else {
        lex_le(a.drop_first(), b.drop_first())
    }
}

/// Of two strings, one comes before the other.
pub proof fn lemma_lex_total(a: Seq<char>, b: Seq<char>)
    ensures
        lex_le(a, b) || lex_le(b, a),
    decreases a.len(),
{
    if a.len() > 0 && b.len() > 0 && a[0] == b[0] {
        lemma_lex_total(a.drop_first(), b.drop_first());
    }
}

/// The order is transitive.
pub proof fn lemma_lex_transitive(a: Seq<char>, b: Seq<char>, c: Seq<char>)
    requires
        lex_le(a, b),
        lex_le(b, c),
    ensures
        lex_le(a, c),
    decreases a.len(),
{
    if a.len() > 0 && b.len() > 0 && c.len() > 0 && a[0] == b[0] && b[0] == c[0] {
        lemma_lex_transitive(a.drop_first(), b.drop_first(), c.drop_first());
    }
}

/// Whether `a` comes before `b` or equals it.
fn lex_le_exec(a: &String, b: &String) -> (r: bool)
    ensures
        r == lex_le(a@, b@),
{
    let x = chars_of(a.as_str());
    let y = chars_of(b.as_str());
    let mut i: usize = 0;
    proof {
        assert(a@.skip(0) =~= a@);
        assert(b@.skip(0) =~= b@);
    }
    while i < x.len() && i < y.len() && x[i] == y[i]
        invariant
            x@ == a@,
            y@ == b@,
            i <= x.len(),
            i <= y.len(),
            lex_le(a@, b@) == lex_le(a@.skip(i as int), b@.skip(i as int)),
        decreases x.len() - i,
    {
        proof {
            let s = a@.skip(i as int);
            let t = b@.skip(i as int);
            assert(s.drop_first() =~= a@.skip(i + 1));
            assert(t.drop_first() =~= b@.skip(i + 1));
        }
        i = i + 1;
    }
    proof {
        assert(a@.skip(i as int).len() == x.len() - i);
        assert(b@.skip(i as int).len() == y.len() - i);
        if i < x.len() && i < y.len() {
            assert(a@.skip(i as int)[0] == x@[i as int]);
            assert(b@.skip(i as int)[0] == y@[i as int]);
        }
    }
    if i == x.len() {
        true
    } else if i == y.len() {
        false
    } else {
        x[i] < y[i]
    }
}

/// Every string of `s` comes before or equals every later one.
pub open spec fn lex_sorted(s: Seq<String>) -> bool {
    forall|i: int, j: int| 0 <= i < j < s.len() ==> lex_le(#[trigger] s[i]@, #[trigger] s[j]@)
}

/// The paths in ascending order, as the finder reports them.
pub fn sort_paths(v: Vec<String>) -> (r: Vec<String>)
    ensures
        lex_sorted(r@),
        r@.to_multiset() == v@.to_multiset(),
{
    let mut out: Vec<String> = Vec::new();
    let mut i: usize = 0;
    while i < v.len()
        invariant
            i <= v.len(),
            lex_sorted(out@),
            out@.to_multiset() == v@.take(i as int).to_multiset(),
        decreases v.len() - i,
    {
        let x = v[i].clone();
        let mut p: usize = 0;
        while p < out.len() && lex_le_exec(&out[p], &x)
            invariant
                p <= out.len(),
                forall|k: int| 0 <= k < p ==> lex_le(#[trigger] out@[k]@, x@),
            decreases out.len() - p,
        {
            p = p + 1;
        }
        let ghost before = out@;
        proof {
            if p < out.len() {
                lemma_lex_total(out@[p as int]@, x@);
            }
        }
        out.insert(p, x);
        proof {
            assert forall|a: int, b: int| 0 <= a < b < out@.len() implies lex_le(
                #[trigger] out@[a]@,
                #[trigger] out@[b]@,
            ) by {
                if b < p {
                    assert(out@[a] == before[a] && out@[b] == before[b]);
                } else if b == p {
                    assert(out@[a] == before[a]);
                } else if a < p {
                    assert(out@[a] == before[a] && out@[b] == before[b - 1]);
                    assert(lex_le(before[a]@, x@));
                    assert(lex_le(x@, before[p as int]@));
                    if p < b - 1 {
                        lemma_lex_transitive(x@, before[p as int]@, before[b - 1]@);
                    }
                    lemma_lex_transitive(before[a]@, x@, before[b - 1]@);
                } else if a == p {
                    assert(out@[b] == before[b - 1]);
                    if p < b - 1 {
                        lemma_lex_transitive(x@, before[p as int]@, before[b - 1]@);
                    }
                } else {
                    assert(out@[a] == before[a - 1] && out@[b] == before[b - 1]);
                }
            }
            assert(v@.take(i + 1) =~= v@.take(i as int).push(v@[i as int]));
        }
        i = i + 1;
    }
    proof {
        assert(v@.take(v.len() as int) =~= v@);
    }
    out
}

} // verus!

verus! {

/// Without an option every entry whose name matches is reported, whatever
/// its kind; `-d` reports matching directories only and `-f` matching files
/// only (so with no option [`selects`] reports exactly the entries whose
/// names match).
pub proof fn law_option_kinds(is_dir: bool, is_file: bool)
    ensures
        kind_selected(Optional::N, is_dir, is_file),
        kind_selected(Optional::D, is_dir, is_file) == is_dir,
        kind_selected(Optional::F, is_dir, is_file) == is_file,
{
}

} // verus!
