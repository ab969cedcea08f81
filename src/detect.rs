//! Rules that find a path-like literal in one line of text.
use vstd::prelude::*;

verus! {

/// A quoted Unix absolute path, such as `"/usr/local/bin"`.
pub const UNIX_PATH: &'static str = r#"[\"']\/(?:[^\/'"]+\/)*[^\/'"]+[\"']"#;

/// A quoted Windows path with a drive letter, such as `"C:\Program Files\App"`.
pub const WINDOWS_DRIVE_PATH: &'static str = r#"[\"'][A-Za-z]:[\\/][^'"]+[\"']"#;

/// A quoted Windows UNC path, such as `"\\server\share\folder"`.
pub const WINDOWS_UNC_PATH: &'static str = r#"[\"'](?:\\\\|//)[^\\/]+[\\/][^'"]+[\"']"#;

/// The leftmost match of the regular expression `pattern` in `text`, as the
/// `regex` crate finds it; `None` where there is no match, or where `pattern`
/// is no valid regular expression.
pub uninterp spec fn regex_leftmost(pattern: Seq<char>, text: Seq<char>) -> Option<Seq<char>>;

/// Relies on `regex::Regex::new`, which compiles `pattern` or fails, and on
/// `regex::Regex::find`, which gives the leftmost-first match in `text`
/// (`Match::as_str`). The expression is compiled at each call.
#[verifier::external_body]
fn leftmost_match(pattern: &str, text: &str) -> (r: Option<String>)
    ensures
        r matches Some(m) ==> regex_leftmost(pattern@, text@) == Some(m@),
        r is None ==> regex_leftmost(pattern@, text@) is None,
{
    match regex::Regex::new(pattern) {
        Ok(re) => re.find(text).map(|m| m.as_str().to_string()),
        Err(_) => None,
    }
}

/// Finds a path in a line of text.
pub trait PathDetection {
    /// The path found in `line`; empty where there is none.
    spec fn detected(&self, line: Seq<char>) -> Seq<char>;

    /// Returns the path found in `line`, or an empty string.
    fn path_exist(&self, line: &str) -> (r: String)
        ensures
            r@ == self.detected(line@),
    ;
}

/// What a regular expression finds: its leftmost match, or nothing.
pub open spec fn regex_detected(pattern: Seq<char>, line: Seq<char>) -> Seq<char> {
    match regex_leftmost(pattern, line) {
        Some(m) => m,
        None => Seq::empty(),
    }
}

/// Turns the outcome of a search into the text that was found: the match
/// itself, or the empty string where there was none.
pub fn match_text(found: Option<String>) -> (r: String)
    ensures
        r@ == match found {
            Some(m) => m@,
            None => Seq::<char>::empty(),
        },
{
    match found {
        Some(m) => m,
        None => String::new(),
    }
}

/// A rule given by a regular expression.
pub struct RegExForPath {
    pub pattern: String,
}

impl RegExForPath {
    /// The regular expression of this rule.
    pub open spec fn pattern_view(&self) -> Seq<char> {
        self.pattern@
    }

    /// A rule for the regular expression `pattern`.
    pub fn new(pattern: &str) -> (r: RegExForPath)
        ensures
            r.pattern_view() == pattern@,
    {
        RegExForPath { pattern: pattern.to_string() }
    }

    /// The regular expression of this rule.
    pub fn pattern(&self) -> (r: &str)
        ensures
            r@ == self.pattern_view(),
    {
        self.pattern.as_str()
    }
}

impl PathDetection for RegExForPath {
    open spec fn detected(&self, line: Seq<char>) -> Seq<char> {
        regex_detected(self.pattern@, line)
    }

    fn path_exist(&self, line: &str) -> (r: String) {
        match_text(leftmost_match(self.pattern.as_str(), line))
    }
}

/// What the first rule of `rules` that finds anything in `line` finds.
pub open spec fn first_detected(rules: Seq<RegExForPath>, line: Seq<char>) -> Seq<char>
    decreases rules.len(),
{
    if rules.len() == 0 {
        Seq::empty()
    } else if rules[0].detected(line).len() > 0 {
        rules[0].detected(line)
    } else {
        first_detected(rules.drop_first(), line)
    }
}

/// Rules tried in order: the first that finds a path in a line decides.
pub struct RegExSetForPath {
    pub regex_set: Vec<RegExForPath>,
}

impl RegExSetForPath {
    /// The rules, in the order they are tried.
    pub open spec fn rules(&self) -> Seq<RegExForPath> {
        self.regex_set@
    }

    /// A set of the rules in `regex_set`, tried in that order.
    pub fn new(regex_set: Vec<RegExForPath>) -> (r: RegExSetForPath)
        ensures
            r.rules() == regex_set@,
    {
        RegExSetForPath { regex_set }
    }
}

impl PathDetection for RegExSetForPath {
    open spec fn detected(&self, line: Seq<char>) -> Seq<char> {
        first_detected(self.regex_set@, line)
    }

    fn path_exist(&self, line: &str) -> (r: String) {
        let n = self.regex_set.len();
        let mut i: usize = 0;
        assert(self.regex_set@.subrange(0, n as int) =~= self.regex_set@);
        while i < n
            invariant
                i <= n,
                n == self.regex_set@.len(),
                first_detected(self.regex_set@, line@) == first_detected(
                    self.regex_set@.subrange(i as int, n as int),
                    line@,
                ),
            decreases n - i,
        {
            let res = self.regex_set[i].path_exist(line);
            if res.as_str().unicode_len() > 0 {
                return res;
            }
            assert(self.regex_set@.subrange(i as int, n as int).drop_first() =~= self.regex_set@.subrange(
                i + 1,
                n as int,
            ));
            i = i + 1;
        }
        String::new()
    }
}

/// The three rules for absolute paths, in this order: Unix, Windows drive
/// letter, Windows UNC.
pub open spec fn abs_path_patterns() -> Seq<Seq<char>> {
    seq![UNIX_PATH@, WINDOWS_DRIVE_PATH@, WINDOWS_UNC_PATH@]
}

/// The set of rules for absolute paths.
pub fn create_regexes_for_abs_paths() -> (r: RegExSetForPath)
    ensures
        r.rules().map_values(|x: RegExForPath| x.pattern_view()) == abs_path_patterns(),
{
    let r = RegExSetForPath {
        regex_set: vec![
            RegExForPath::new(UNIX_PATH),
            RegExForPath::new(WINDOWS_DRIVE_PATH),
            RegExForPath::new(WINDOWS_UNC_PATH),
        ],
    };
    assert(r.rules().map_values(|x: RegExForPath| x.pattern_view()) =~= abs_path_patterns());
    r
}

} // verus!
