use vstd::prelude::*;

verus! {

#[verifier::external_type_specification]
#[verifier::external_body]
pub struct ExRegex(regex::Regex);

#[verifier::external_type_specification]
#[verifier::external_body]
pub struct ExRegexError(regex::Error);

/// Whether `c` is a digit or an upper-case letter from `A` to `F`.
pub open spec fn is_upper_hex(c: char) -> bool {
    ('0' <= c && c <= '9') || ('A' <= c && c <= 'F')
}

/// The extension of a replay file, with its dot.
pub open spec fn replay_extension() -> Seq<char> {
    seq!['.', 'r', 'e', 'p', 'l', 'a', 'y']
}

/// Whether `name` is a run of one or more upper-case hexadecimal digits
/// followed by the replay extension and nothing else: the shape of a replay
/// that has not been renamed yet.
pub open spec fn is_raw_replay_name(name: Seq<char>) -> bool {
    &&& name.len() >= 8
    &&& name.subrange(name.len() - 7, name.len() as int) == replay_extension()
    &&& forall|i: int| 0 <= i < name.len() - 7 ==> is_upper_hex(#[trigger] name[i])
}

/// The regular expression of a raw replay name, as the regex crate reads it.
pub open spec fn raw_name_pattern() -> Seq<char> {
    seq![
        '^',
        '[',
        'A',
        '-',
        'F',
        '0',
        '-',
        '9',
        ']',
        '+',
        '\\',
        '.',
        'r',
        'e',
        'p',
        'l',
        'a',
        'y',
        '$',
    ]
}

/// Relies on regex::Regex::new: the pattern of a raw replay name is valid
/// syntax and far under the default size limit, so it compiles.
#[verifier::external_body]
fn compile_regex(pattern: &str) -> (r: Result<regex::Regex, regex::Error>)
    requires
        pattern@ == raw_name_pattern(),
    ensures
        r is Ok,
{
    regex::Regex::new(pattern)
}

/// Decides whether a file name is that of a replay not yet renamed. It holds
/// the compiled pattern of such names, built once and reused.
pub struct ReplayNameFilter {
    re: regex::Regex,
}

/// Relies on regex::Regex::is_match, which is true exactly when the pattern
/// matches somewhere in the haystack. The only regex a filter holds is the one
/// that `ReplayNameFilter::new` compiles from `raw_name_pattern`; anchored at
/// both ends, it matches a whole name of digits and letters `A`-`F` followed by
/// `.replay`.
#[verifier::external_body]
fn regex_is_match(filter: &ReplayNameFilter, name: &str) -> (r: bool)
    ensures
        r == is_raw_replay_name(name@),
{
    filter.re.is_match(name)
}

impl ReplayNameFilter {
    /// Compiles the pattern of a raw replay name.
    pub fn new() -> (r: ReplayNameFilter) {
        let pattern = "^[A-F0-9]+\\.replay$";
        proof {
            reveal_strlit("^[A-F0-9]+\\.replay$");
            assert(pattern@ =~= raw_name_pattern());
        }
        let re = compile_regex(pattern).unwrap();
        ReplayNameFilter { re }
    }

    /// Whether `name`, a bare file name, is that of a replay not yet renamed.
    pub fn is_eligible(&self, name: &str) -> (r: bool)
        ensures
            r == is_raw_replay_name(name@),
    {
        regex_is_match(self, name)
    }
}

} // verus!
