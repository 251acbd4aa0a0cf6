//! Shared pieces: the form of an error report, the metadata container of a
//! node and the scope chain.

use vstd::prelude::*;
use vstd::string::{StringExecFns, StringSliceAdditionalSpecFns};
use vstd::utf8::encode_utf8;
use self::colors::{plain, red, red_code, shows, yellow, yellow_code};
use self::text::{decimal, repeat, repeated, to_decimal, trim, trimmed};

pub mod colors;
pub mod metacontainer;
pub mod scope;
pub mod text;

verus! {

/// What an error of one of the stages tells: the stage, what went wrong,
/// and where in the source.
pub struct ErrorFacts {
    /// Name of the stage.
    pub stage: Seq<char>,
    /// What went wrong, in a sentence.
    pub description: Seq<char>,
    /// Line of the offending lexeme.
    pub line: nat,
    /// Byte offset at which the offending lexeme starts.
    pub column: nat,
    /// The offending lexeme.
    pub lexeme: Seq<char>,
}

/// Whether `report` is the first line of a report of `facts`, each piece
/// coloured or not. The stage and the description hold no escape character.
pub open spec fn reports(report: Seq<char>, facts: ErrorFacts) -> bool {
    &&& plain(facts.stage)
    &&& plain(facts.description)
    &&& exists|shown: Shown|
        #![auto]
        pieces_of(
            shown,
            facts.stage,
            facts.description,
            facts.line,
            facts.column,
            encode_utf8(facts.lexeme).len(),
        ) && report == headline_text(shown)
}

/// An error of one of the stages, as it is reported.
pub trait HastyError {
    /// What the error tells.
    spec fn facts(&self) -> ErrorFacts;

    /// Name of the stage that the error comes from.
    fn stage(&self) -> (stage: &'static str)
        ensures
            stage@ == self.facts().stage,
    ;

    /// Line of the offending lexeme.
    fn line(&self) -> (line: usize)
        ensures
            line == self.facts().line,
    ;

    /// Byte offset at which the offending lexeme starts.
    fn column(&self) -> (column: usize)
        ensures
            column == self.facts().column,
    ;

    /// The offending lexeme.
    fn lexeme(&self) -> (lexeme: &str)
        ensures
            lexeme@ == self.facts().lexeme,
    ;

    /// The report of the error: its stage, its place and its description,
    /// without a preview of the line.
    fn as_hasty_error_string(&self) -> (report: String)
        ensures
            reports(report@, self.facts()),
    ;

    /// What went wrong, in a sentence.
    fn get_error_description(&self) -> (description: String)
        ensures
            description@ == self.facts().description,
    ;
}

/// The coloured pieces of a report, each as it is shown.
pub struct Shown {
    pub part: Seq<char>,
    pub label: Seq<char>,
    pub line: Seq<char>,
    pub dot: Seq<char>,
    pub start: Seq<char>,
    pub colon: Seq<char>,
    pub error: Seq<char>,
    pub indicator: Seq<char>,
    pub here: Seq<char>,
}

/// Whether `shown` holds the pieces of the report of `error` in the stage
/// `part`, at offset `start` of line `line`, for a lexeme of `width` bytes:
/// the stage, the indicator and its label in yellow, the rest in red. Of a
/// stage or an error that holds an escape character nothing is said.
pub open spec fn pieces_of(
    shown: Shown,
    part: Seq<char>,
    error: Seq<char>,
    line: nat,
    start: nat,
    width: nat,
) -> bool {
    &&& plain(part) ==> shows(shown.part, part, yellow_code())
    &&& shows(shown.label, "Error"@, red_code())
    &&& shows(shown.line, decimal(line), red_code())
    &&& shows(shown.dot, "."@, red_code())
    &&& shows(shown.start, decimal(start), red_code())
    &&& shows(shown.colon, ":"@, red_code())
    &&& plain(error) ==> shows(shown.error, error, red_code())
    &&& shows(shown.indicator, repeated("^"@, width), yellow_code())
    &&& shows(shown.here, "Here"@, yellow_code())
}

/// The first line of a report: `[stage] Error line.start: error`.
pub open spec fn headline_text(shown: Shown) -> Seq<char> {
    "["@ + shown.part + "] "@ + shown.label + " "@ + shown.line + shown.dot + shown.start
        + shown.colon + " "@ + shown.error + "\n"@
}

/// What follows the first line where the line of the source is at hand:
/// that line without the white space around it, and under it the
/// indicator, `start` columns in.
pub open spec fn preview_text(shown: Shown, line_str: Seq<char>, start: nat) -> Seq<char> {
    trimmed(line_str) + "\n"@ + repeated(" "@, start) + shown.indicator + " "@ + shown.here
}

/// A report: the first line alone where `line_str` is empty, else the
/// first line and the preview.
pub open spec fn report_text(shown: Shown, line_str: Seq<char>, start: nat) -> Seq<char> {
    if line_str.len() == 0 {
        headline_text(shown)
    } else {
        headline_text(shown) + preview_text(shown, line_str, start)
    }
}

/// A number in decimal holds no escape character.
pub proof fn lemma_decimal_plain(n: nat)
    ensures
        plain(decimal(n)),
    decreases n,
{
    if n >= 10 {
        lemma_decimal_plain(n / 10);
    }
}

/// Copies of a text without escape character hold none.
pub proof fn lemma_repeated_plain(unit: Seq<char>, count: nat)
    requires
        plain(unit),
    ensures
        plain(repeated(unit, count)),
    decreases count,
{
    if count > 0 {
        lemma_repeated_plain(unit, (count - 1) as nat);
    }
}

/// The first line of a report from its pieces as they are shown.
pub fn headline(
    part: &str,
    label: &str,
    line: &str,
    dot: &str,
    start: &str,
    colon: &str,
    error: &str,
) -> (text: String)
    ensures
        text@ == "["@ + part@ + "] "@ + label@ + " "@ + line@ + dot@ + start@ + colon@ + " "@
            + error@ + "\n"@,
{
    let mut text = String::new();
    text.append("[");
    text.append(part);
    text.append("] ");
    text.append(label);
    text.append(" ");
    text.append(line);
    text.append(dot);
    text.append(start);
    text.append(colon);
    text.append(" ");
    text.append(error);
    text.append("\n");
    text
}

/// The preview of a report from the line of the source and the pieces as
/// they are shown.
pub fn preview(line_str: &str, start: usize, indicator: &str, here: &str) -> (text: String)
    ensures
        text@ == trimmed(line_str@) + "\n"@ + repeated(" "@, start as nat) + indicator@ + " "@
            + here@,
{
    let mut text = String::new();
    text.append(trim(line_str));
    text.append("\n");
    text.append(repeat(" ", start).as_str());
    text.append(indicator);
    text.append(" ");
    text.append(here);
    text
}

/// Shows an error in the form that all stages share:
///
/// ```text
/// [stage] Error line.start: error
/// the line of the source
///     ^^^^^ Here
/// ```
///
/// The last two lines are left out where `line_str` is empty. Each piece
/// is coloured or not, as the terminal has it.
pub fn unified_error(
    pipeline_part: &str,
    error: &str,
    line: usize,
    start: usize,
    lexeme: &str,
    line_str: &str,
) -> (report: String)
    ensures
        exists|shown: Shown|
            #![auto]
            pieces_of(
                shown,
                pipeline_part@,
                error@,
                line as nat,
                start as nat,
                lexeme.spec_bytes().len(),
            ) && report@ == report_text(shown, line_str@, start as nat),
{
    proof {
        reveal_strlit("Error");
        reveal_strlit(".");
        reveal_strlit(":");
        reveal_strlit("Here");
        reveal_strlit("^");
        lemma_decimal_plain(line as nat);
        lemma_decimal_plain(start as nat);
        lemma_repeated_plain("^"@, lexeme.spec_bytes().len());
    }
    let part = yellow(pipeline_part);
    let label = red("Error");
    let line_shown = red(to_decimal(line).as_str());
    let dot = red(".");
    let start_shown = red(to_decimal(start).as_str());
    let colon = red(":");
    let error_shown = red(error);
    let mut report = headline(
        part.as_str(),
        label.as_str(),
        line_shown.as_str(),
        dot.as_str(),
        start_shown.as_str(),
        colon.as_str(),
        error_shown.as_str(),
    );
    if line_str.is_empty() {
        proof {
            let shown = Shown {
                part: part@,
                label: label@,
                line: line_shown@,
                dot: dot@,
                start: start_shown@,
                colon: colon@,
                error: error_shown@,
                indicator: repeated("^"@, lexeme.spec_bytes().len()),
                here: "Here"@,
            };
            assert(pieces_of(
                shown,
                pipeline_part@,
                error@,
                line as nat,
                start as nat,
                lexeme.spec_bytes().len(),
            ) && report@ == report_text(shown, line_str@, start as nat));
        }
        return report;
    }
    let indicator = yellow(repeat("^", lexeme.as_bytes().len()).as_str());
    let here = yellow("Here");
    let ghost first = report@;
    report.append(preview(line_str, start, indicator.as_str(), here.as_str()).as_str());
    proof {
        let shown = Shown {
            part: part@,
            label: label@,
            line: line_shown@,
            dot: dot@,
            start: start_shown@,
            colon: colon@,
            error: error_shown@,
            indicator: indicator@,
            here: here@,
        };
        assert(pieces_of(
            shown,
            pipeline_part@,
            error@,
            line as nat,
            start as nat,
            lexeme.spec_bytes().len(),
        ) && report@ == report_text(shown, line_str@, start as nat));
    }
    report
}

} // verus!
