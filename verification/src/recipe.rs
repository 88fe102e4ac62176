//! Reading a recipe out of what the model wrote: its instructions and its list of activities,
//! from JSON where the model wrote JSON, and else from plain text.
use vstd::prelude::*;
use crate::ids::id_views;
use crate::json::{
    is_json, json_text_member, json_texts_member, text_member, texts_member, view_of, JsonText,
    JsonTextView, JsonTexts, JsonTextsView,
};

verus! {

/// The pattern of a fenced block: the fence with what follows it on its line, the lines of the
/// block, and the closing fence.
pub const FENCE_PATTERN: &'static str = "(?s)```[^\\n]*\\n(.*?)\\n```";

/// The pattern of what marks an item of a list at the start of a line: bullets or digits, a
/// dot, and white space.
pub const BULLET_PATTERN: &'static str = "^[\u{2022}\\-\\*\\d]+\\.?\\s*";

/// What stands before the instructions in plain text.
pub const INSTRUCTIONS_MARKER: &'static str = "instructions:";

/// What stands before the activities in plain text.
pub const ACTIVITIES_MARKER: &'static str = "activities:";

/// What the group `group` of the first match of the regular expression `pattern` in
/// `haystack` holds; `None` where the pattern is no regular expression, nothing matches, or
/// the group took no part in the match.
pub uninterp spec fn regex_capture(pattern: Seq<char>, haystack: Seq<char>, group: nat) -> Option<
    Seq<char>,
>;

/// `haystack` with the first match of the regular expression `pattern` replaced by
/// `replacement`; `haystack` itself where the pattern is no regular expression.
pub uninterp spec fn regex_replace(
    pattern: Seq<char>,
    haystack: Seq<char>,
    replacement: Seq<char>,
) -> Seq<char>;

/// The lines of `text`, without their line endings.
pub uninterp spec fn lines_of(text: Seq<char>) -> Seq<Seq<char>>;

/// Whether `c` is white space.
pub uninterp spec fn whitespace(c: char) -> bool;

/// `text` without the white space at its start.
pub open spec fn without_leading_whitespace(text: Seq<char>) -> Seq<char>
    decreases text.len(),
{
    if text.len() > 0 && whitespace(text.first()) {
        without_leading_whitespace(text.drop_first())
    } else {
        text
    }
}

/// `text` without the white space at its end.
pub open spec fn without_trailing_whitespace(text: Seq<char>) -> Seq<char>
    decreases text.len(),
{
    if text.len() > 0 && whitespace(text.last()) {
        without_trailing_whitespace(text.drop_last())
    } else {
        text
    }
}

/// `text` without the white space at its start and at its end.
pub open spec fn trimmed(text: Seq<char>) -> Seq<char> {
    without_trailing_whitespace(without_leading_whitespace(text))
}

/// Whether `delimiter` stands in `text` at the position `at`.
pub open spec fn occurs_at(text: Seq<char>, delimiter: Seq<char>, at: int) -> bool {
    0 <= at && at + delimiter.len() <= text.len() && text.subrange(at, at + delimiter.len())
        == delimiter
}

/// The first position from `from` on at which `delimiter` stands in `text`.
pub open spec fn first_occurrence(text: Seq<char>, delimiter: Seq<char>, from: int) -> Option<int>
    decreases text.len() - from + 1,
{
    if from < 0 || from + delimiter.len() > text.len() {
        None
    } else if occurs_at(text, delimiter, from) {
        Some(from)
    } else {
        first_occurrence(text, delimiter, from + 1)
    }
}

/// What stands before and after the first occurrence of `delimiter` in `text`; `None` where
/// it does not occur.
pub open spec fn split_at_first(text: Seq<char>, delimiter: Seq<char>) -> Option<
    (Seq<char>, Seq<char>),
> {
    match first_occurrence(text, delimiter, 0) {
        Some(at) => Some((text.take(at), text.skip(at + delimiter.len()))),
        None => None,
    }
}

/// Trusted: `regex::Regex::new` on `pattern`, `Regex::captures` on `haystack`, and
/// `Captures::get` with `group`. The contract only gives the outcome its name,
/// `regex_capture`.
#[verifier::external_body]
fn capture(pattern: &str, haystack: &str, group: usize) -> (found: Option<String>)
    ensures
        view_of(found) == regex_capture(pattern@, haystack@, group as nat),
{
    match regex::Regex::new(pattern) {
        Ok(re) => match re.captures(haystack) {
            Some(captures) => match captures.get(group) {
                Some(m) => Some(m.as_str().to_string()),
                None => None,
            },
            None => None,
        },
        Err(_) => None,
    }
}

/// Trusted: `regex::Regex::new` on `pattern` and `Regex::replace` on `haystack`. The contract
/// only gives the outcome its name, `regex_replace`.
#[verifier::external_body]
fn replace_first(pattern: &str, haystack: &str, replacement: &str) -> (out: String)
    ensures
        out@ == regex_replace(pattern@, haystack@, replacement@),
{
    match regex::Regex::new(pattern) {
        Ok(re) => re.replace(haystack, replacement).into_owned(),
        Err(_) => haystack.to_string(),
    }
}

/// Trusted: `str::trim` of std. The contract says what std documents: the white space at the
/// start and at the end is taken away, where white space is what `char::is_whitespace` says.
#[verifier::external_body]
fn trim(text: &str) -> (out: String)
    ensures
        out@ == trimmed(text@),
{
    text.trim().to_string()
}

/// The views of an optional pair of strings.
pub open spec fn pair_view(pair: Option<(String, String)>) -> Option<(Seq<char>, Seq<char>)> {
    match pair {
        Some(p) => Some((p.0@, p.1@)),
        None => None,
    }
}

/// Trusted: `str::split_once` of std. The contract says what std documents: the text is split
/// at the first occurrence of the delimiter, into what stands before it and what stands after
/// it, and there is no outcome where the delimiter does not occur.
#[verifier::external_body]
fn split_once(text: &str, delimiter: &str) -> (parts: Option<(String, String)>)
    ensures
        pair_view(parts) == split_at_first(text@, delimiter@),
{
    match text.split_once(delimiter) {
        Some((before, after)) => Some((before.to_string(), after.to_string())),
        None => None,
    }
}

/// Trusted: `str::lines` of std. The contract only gives the outcome its name, `lines_of`.
#[verifier::external_body]
fn lines(text: &str) -> (out: Vec<String>)
    ensures
        id_views(out@) == lines_of(text@),
{
    text.lines().map(String::from).collect()
}

/// Trusted: `char::is_whitespace` of std. The contract only gives the outcome its name,
/// `whitespace`.
#[verifier::external_body]
fn is_whitespace(c: char) -> (white: bool)
    ensures
        white == whitespace(c),
{
    c.is_whitespace()
}

/// What may trail the instructions in plain text: white space and the marks of a heading.
pub open spec fn is_filler(c: char) -> bool {
    whitespace(c) || c == '#'
}

/// Whether `c` may trail the instructions in plain text.
pub fn filler(c: char) -> (yes: bool)
    ensures
        yes == is_filler(c),
{
    is_whitespace(c) || c == '#'
}

/// `text` without the filler at its end.
pub open spec fn without_trailing_filler(text: Seq<char>) -> Seq<char>
    decreases text.len(),
{
    if text.len() > 0 && is_filler(text.last()) {
        without_trailing_filler(text.drop_last())
    } else {
        text
    }
}

/// Trusted: `str::trim_end_matches` of std, with `filler` as its pattern. The contract says
/// what std documents: every character at the end that the pattern matches is taken away, and
/// nothing else.
#[verifier::external_body]
fn trim_end_filler(text: &str) -> (out: String)
    ensures
        out@ == without_trailing_filler(text@),
{
    text.trim_end_matches(|c: char| filler(c)).to_string()
}

/// Why what the model wrote as JSON is no recipe.
#[derive(Clone, Copy, Debug, PartialEq, Eq, Structural)]
pub enum RecipeError {
    MissingInstructions,
    InstructionsNotString,
    MissingActivities,
    ActivitiesNotArray,
    ActivityNotString,
}

impl RecipeError {
    /// The text of the error.
    pub open spec fn spec_message(self) -> Seq<char> {
        match self {
            RecipeError::MissingInstructions => "Missing 'instructions' in json response"@,
            RecipeError::InstructionsNotString => "instructions' is not a string"@,
            RecipeError::MissingActivities => "Missing 'activities' in json response"@,
            RecipeError::ActivitiesNotArray => "'activities' is not an array'"@,
            RecipeError::ActivityNotString => "'activities' array element is not a string"@,
        }
    }

    pub fn message(&self) -> (text: String)
        ensures
            text@ == self.spec_message(),
    {
        match self {
            RecipeError::MissingInstructions => String::from_str(
                "Missing 'instructions' in json response",
            ),
            RecipeError::InstructionsNotString => String::from_str("instructions' is not a string"),
            RecipeError::MissingActivities => String::from_str(
                "Missing 'activities' in json response",
            ),
            RecipeError::ActivitiesNotArray => String::from_str("'activities' is not an array'"),
            RecipeError::ActivityNotString => String::from_str(
                "'activities' array element is not a string",
            ),
        }
    }
}

/// What a recipe is made from.
#[derive(Debug, PartialEq, Eq)]
pub struct RecipeText {
    pub instructions: String,
    pub activities: Vec<String>,
}

pub struct RecipeTextView {
    pub instructions: Seq<char>,
    pub activities: Seq<Seq<char>>,
}

impl View for RecipeText {
    type V = RecipeTextView;

    open spec fn view(&self) -> RecipeTextView {
        RecipeTextView { instructions: self.instructions@, activities: id_views(self.activities@) }
    }
}

/// The view of an outcome.
pub open spec fn outcome_view(outcome: Result<RecipeText, RecipeError>) -> Result<
    RecipeTextView,
    RecipeError,
> {
    match outcome {
        Ok(r) => Ok(r@),
        Err(e) => Err(e),
    }
}

/// The recipe in a JSON value, from its two members: the instructions have to be a string and
/// the activities a list of strings. What is wrong with the instructions is reported first.
pub open spec fn recipe_of_members(instructions: JsonTextView, activities: JsonTextsView) -> Result<
    RecipeTextView,
    RecipeError,
> {
    match instructions {
        JsonTextView::Missing => Err(RecipeError::MissingInstructions),
        JsonTextView::NotString => Err(RecipeError::InstructionsNotString),
        JsonTextView::Text(text) => match activities {
            JsonTextsView::Missing => Err(RecipeError::MissingActivities),
            JsonTextsView::NotArray => Err(RecipeError::ActivitiesNotArray),
            JsonTextsView::NotStrings => Err(RecipeError::ActivityNotString),
            JsonTextsView::Texts(items) => Ok(
                RecipeTextView { instructions: text, activities: items },
            ),
        },
    }
}

/// Makes the recipe from the two members of a JSON value.
pub fn recipe_from_json(instructions: JsonText, activities: JsonTexts) -> (outcome: Result<
    RecipeText,
    RecipeError,
>)
    ensures
        outcome_view(outcome) == recipe_of_members(instructions@, activities@),
{
    match instructions {
        JsonText::Missing => Err(RecipeError::MissingInstructions),
        JsonText::NotString => Err(RecipeError::InstructionsNotString),
        JsonText::Text(text) => match activities {
            JsonTexts::Missing => Err(RecipeError::MissingActivities),
            JsonTexts::NotArray => Err(RecipeError::ActivitiesNotArray),
            JsonTexts::NotStrings => Err(RecipeError::ActivityNotString),
            JsonTexts::Texts(items) => Ok(RecipeText { instructions: text, activities: items }),
        },
    }
}

/// The activities in a list of lines that were freed of their list marks and trimmed: the
/// lines that are not empty, in their order.
pub open spec fn nonempty_lines(lines: Seq<Seq<char>>) -> Seq<Seq<char>>
    decreases lines.len(),
{
    if lines.len() == 0 {
        Seq::empty()
    } else if lines.last().len() == 0 {
        nonempty_lines(lines.drop_last())
    } else {
        nonempty_lines(lines.drop_last()).push(lines.last())
    }
}

/// Each line without the list mark at its start and without white space around it.
pub open spec fn stripped_lines(lines: Seq<Seq<char>>) -> Seq<Seq<char>> {
    Seq::new(lines.len(), |i: int| trimmed(regex_replace(BULLET_PATTERN@, lines[i], Seq::empty())))
}

/// Keeps the lines that are not empty.
pub fn keep_nonempty(lines: Vec<String>) -> (kept: Vec<String>)
    ensures
        id_views(kept@) == nonempty_lines(id_views(lines@)),
{
    let ghost all = id_views(lines@);
    let mut kept: Vec<String> = Vec::new();
    let mut i: usize = 0;
    assert(all.take(0) =~= Seq::empty());
    assert(id_views(kept@) =~= Seq::empty());
    while i < lines.len()
        invariant
            0 <= i <= lines.len(),
            all == id_views(lines@),
            id_views(kept@) == nonempty_lines(all.take(i as int)),
        decreases lines.len() - i,
    {
        assert(all.take(i + 1).drop_last() =~= all.take(i as int));
        assert(all.take(i + 1).last() == lines@[i as int]@);
        if !lines[i].as_str().is_empty() {
            let ghost before = id_views(kept@);
            kept.push(lines[i].clone());
            assert(id_views(kept@) =~= before.push(lines@[i as int]@));
        }
        i += 1;
    }
    assert(all.take(i as int) =~= all);
    kept
}

/// Frees each line of the list mark at its start and of the white space around it.
pub fn strip_lines(lines: &Vec<String>) -> (stripped: Vec<String>)
    ensures
        id_views(stripped@) == stripped_lines(id_views(lines@)),
{
    let mut stripped: Vec<String> = Vec::new();
    let mut i: usize = 0;
    while i < lines.len()
        invariant
            0 <= i <= lines.len(),
            stripped@.len() == i,
            forall|j: int|
                0 <= j < i ==> (#[trigger] stripped@[j])@ == trimmed(
                    regex_replace(BULLET_PATTERN@, lines@[j]@, Seq::empty()),
                ),
        decreases lines.len() - i,
    {
        let bare = replace_first(BULLET_PATTERN, lines[i].as_str(), "");
        proof {
            reveal_strlit("");
            assert(""@ =~= Seq::<char>::empty());
        }
        stripped.push(trim(bare.as_str()));
        i += 1;
    }
    assert(id_views(stripped@) =~= stripped_lines(id_views(lines@)));
    stripped
}

/// What stands behind the first `marker` in `text`, or all of `text` where there is none.
pub open spec fn after_marker(text: Seq<char>, marker: Seq<char>) -> Seq<char> {
    match split_at_first(text, marker) {
        Some(parts) => parts.1,
        None => text,
    }
}

/// The recipe in plain text: the instructions stand behind the first `instructions:` and
/// before the next `activities:`, without the filler at their end; the activities are the
/// lines behind `activities:`, each without its list mark, as far as they are not empty.
pub open spec fn recipe_of_text(content: Seq<char>) -> RecipeTextView {
    let rest = after_marker(content, INSTRUCTIONS_MARKER@);
    let (instructions, activities) = match split_at_first(rest, ACTIVITIES_MARKER@) {
        Some(parts) => parts,
        None => (rest, Seq::empty()),
    };
    RecipeTextView {
        instructions: trimmed(without_trailing_filler(instructions)),
        activities: nonempty_lines(stripped_lines(lines_of(trimmed(activities)))),
    }
}

/// Reads the recipe out of plain text.
pub fn recipe_from_text(content: &str) -> (recipe: RecipeText)
    ensures
        recipe@ == recipe_of_text(content@),
{
    let rest = match split_once(content, INSTRUCTIONS_MARKER) {
        Some(parts) => parts.1,
        None => String::from_str(content),
    };
    let (instructions, activities) = match split_once(rest.as_str(), ACTIVITIES_MARKER) {
        Some(parts) => parts,
        None => (rest, String::new()),
    };
    let bare = trim_end_filler(instructions.as_str());
    let instructions = trim(bare.as_str());
    let activities_text = trim(activities.as_str());
    let all = lines(activities_text.as_str());
    let activities = keep_nonempty(strip_lines(&all));
    RecipeText { instructions, activities }
}

/// What the model wrote without the fence around it, where it stands in a fenced block, and
/// without white space around it.
pub open spec fn clean_content(content: Seq<char>) -> Seq<char> {
    trimmed(
        match regex_capture(FENCE_PATTERN@, content, 1) {
            Some(block) => block,
            None => content,
        },
    )
}

/// The recipe in what the model wrote: where the cleaned content is JSON, the recipe is read
/// from its members, and anything wrong with them is an error; where it is not, the recipe is
/// read from the content as plain text, which always gives one.
pub open spec fn recipe_of(content: Seq<char>) -> Result<RecipeTextView, RecipeError> {
    let clean = clean_content(content);
    match (json_text_member(clean, "instructions"@), json_texts_member(clean, "activities"@)) {
        (Some(instructions), Some(activities)) => recipe_of_members(instructions, activities),
        _ => Ok(recipe_of_text(content)),
    }
}

/// Reads the recipe out of what the model wrote.
pub fn parse_recipe(content: &str) -> (outcome: Result<RecipeText, RecipeError>)
    ensures
        outcome_view(outcome) == recipe_of(content@),
        !is_json(clean_content(content@)) ==> outcome is Ok,
{
    let inner = match capture(FENCE_PATTERN, content, 1) {
        Some(block) => block,
        None => String::from_str(content),
    };
    let clean = trim(inner.as_str());
    let instructions = text_member(clean.as_str(), "instructions");
    let activities = texts_member(clean.as_str(), "activities");
    match (instructions, activities) {
        (Some(instructions), Some(activities)) => recipe_from_json(instructions, activities),
        _ => Ok(recipe_from_text(content)),
    }
}

} // verus!
