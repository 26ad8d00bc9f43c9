use vstd::prelude::*;
use vstd::utf8::is_char_boundary;
use vstd::string::*;

verus! {

/// The byte spans of the requested groups, in the order asked, in each match that the
/// regular expression `pattern` finds in `haystack`, matches in order; `None` when `pattern`
/// is not a valid regular expression.
pub uninterp spec fn regex_capture_spans(
    pattern: Seq<char>,
    haystack: Seq<char>,
    groups: Seq<Seq<char>>,
) -> Option<Seq<Seq<Option<(usize, usize)>>>>;

/// Whether the regular expression `pattern` matches somewhere in `haystack`; `None` when
/// `pattern` is not a valid regular expression.
pub uninterp spec fn regex_is_match(pattern: Seq<char>, haystack: Seq<char>) -> Option<bool>;

/// The message of the error that compiling `pattern` as a regular expression gives; `None`
/// when it compiles.
pub uninterp spec fn regex_compile_error(pattern: Seq<char>) -> Option<Seq<char>>;

/// The views of a list of group names.
pub open spec fn names_view(v: Seq<String>) -> Seq<Seq<char>> {
    v.map_values(|s: String| s@)
}

/// The views of the spans that the regex wrapper returns.
pub open spec fn spans_view(v: Seq<Vec<Option<(usize, usize)>>>) -> Seq<Seq<Option<(usize, usize)>>> {
    v.map_values(|m: Vec<Option<(usize, usize)>>| m@)
}

/// True when every span lies inside `bytes`, from a character boundary to a character boundary.
pub open spec fn spans_in_text(spans: Seq<Seq<Option<(usize, usize)>>>, bytes: Seq<u8>, n: nat) -> bool {
    forall|m: int, k: int|
        0 <= m < spans.len() && 0 <= k < spans[m].len() ==> (spans[m].len() == n && (
        #[trigger] spans[m][k] matches Some((s, e)) ==> s <= e <= bytes.len() && is_char_boundary(
            bytes,
            s as int,
        ) && is_char_boundary(bytes, e as int)))
}

/// `regex`'s `Regex::new` followed by `captures_iter`: for each match, in order, the byte span
/// of each group named in `groups` (`None` for a group that took no part in the match or does
/// not exist). The crate documents match offsets as lying on UTF-8 boundaries of `haystack`.
#[verifier::external_body]
pub(crate) fn capture_spans(pattern: &str, haystack: &str, groups: &Vec<String>) -> (r: Option<
    Vec<Vec<Option<(usize, usize)>>>,
>)
    ensures
        r is Some <==> regex_capture_spans(pattern@, haystack@, names_view(groups@)) is Some,
        r matches Some(v) ==> {
            &&& Some(spans_view(v@)) == regex_capture_spans(pattern@, haystack@, names_view(groups@))
            &&& spans_in_text(spans_view(v@), haystack.spec_bytes(), groups@.len())
        },
        r is None <==> regex_compile_error(pattern@) is Some,
{
    let re = regex::Regex::new(pattern).ok()?;
    Some(re.captures_iter(haystack).map(|caps| groups.iter().map(|g| caps.name(g).map(|m| (m.start(), m.end()))).collect()).collect())
}

/// `regex`'s `Regex::new` followed by `is_match`.
#[verifier::external_body]
pub(crate) fn is_match(pattern: &str, haystack: &str) -> (r: Option<bool>)
    ensures
        r == regex_is_match(pattern@, haystack@),
        r is None <==> regex_compile_error(pattern@) is Some,
{
    let re = regex::Regex::new(pattern).ok()?;
    Some(re.is_match(haystack))
}

/// `regex`'s `Regex::new`: the message of its error, or `None` when `pattern` compiles.
#[verifier::external_body]
pub(crate) fn regex_error_message(pattern: &str) -> (r: Option<String>)
    ensures
        r is Some <==> regex_compile_error(pattern@) is Some,
        r matches Some(m) ==> Some(m@) == regex_compile_error(pattern@),
{
    match regex::Regex::new(pattern) {
        Ok(_) => None,
        Err(e) => Some(e.to_string()),
    }
}

/// A regular expression from the configuration, held by its pattern, which is known to compile.
#[derive(Debug, Clone)]
pub struct ConfigRegex {
    pub pattern: String,
}

impl ConfigRegex {
    /// The pattern.
    pub open spec fn pattern_view(&self) -> Seq<char> {
        self.pattern@
    }

    /// Validity: the pattern compiles.
    pub open spec fn wf(&self) -> bool {
        regex_compile_error(self.pattern@) is None
    }

    /// Compiles `pattern`: the regular expression, or the compiler's message.
    pub fn new(pattern: &str) -> (r: Result<ConfigRegex, String>)
        ensures
            r matches Ok(re) ==> re.pattern_view() == pattern@ && re.wf(),
            r is Err <==> regex_compile_error(pattern@) is Some,
            r matches Err(m) ==> Some(m@) == regex_compile_error(pattern@),
    {
        match regex_error_message(pattern) {
            Some(m) => Err(m),
            None => Ok(ConfigRegex { pattern: String::from_str(pattern) }),
        }
    }

    /// The pattern.
    pub fn as_str(&self) -> (s: &str)
        ensures
            s@ == self.pattern_view(),
    {
        self.pattern.as_str()
    }

    /// A copy of this regular expression.
    pub fn duplicate(&self) -> (r: ConfigRegex)
        ensures
            r.pattern_view() == self.pattern_view(),
            r.wf() == self.wf(),
    {
        ConfigRegex { pattern: self.pattern.clone() }
    }
}

/// The regular expressions with which notes are searched for links and task items.
#[derive(Debug, Clone)]
pub struct SurfParsing {
    pub url_regex: ConfigRegex,
    pub markdown_reference_link_regex: ConfigRegex,
    pub task_item_regex: ConfigRegex,
    pub has_line_regex: ConfigRegex,
}

impl SurfParsing {
    /// Validity: every pattern compiles.
    pub open spec fn wf(&self) -> bool {
        &&& self.url_regex.wf()
        &&& self.markdown_reference_link_regex.wf()
        &&& self.task_item_regex.wf()
        &&& self.has_line_regex.wf()
    }
}

} // verus!
