//! The output formats.
use crate::text;
use vstd::prelude::*;
use vstd::string::*;

verus! {

/// A format in which results are rendered.
#[derive(Clone, Copy, Debug, PartialEq, Eq, Structural)]
pub enum OutputFormat {
    /// Machine-readable JSON.
    Json,
    /// Text for a terminal.
    Human,
    /// Token-oriented object notation.
    Toon,
}

/// The format that a name stands for.
pub open spec fn named_format(name: Seq<char>) -> Option<OutputFormat> {
    if name == "json"@ {
        Some(OutputFormat::Json)
    } else if name == "human"@ {
        Some(OutputFormat::Human)
    } else if name == "toon"@ {
        Some(OutputFormat::Toon)
    } else {
        None
    }
}

/// Reads the name of a format.
pub fn parse_output_format(name: &str) -> (r: Option<OutputFormat>)
    ensures
        r == named_format(name@),
{
    if text::str_eq(name, "json") {
        Some(OutputFormat::Json)
    } else if text::str_eq(name, "human") {
        Some(OutputFormat::Human)
    } else if text::str_eq(name, "toon") {
        Some(OutputFormat::Toon)
    } else {
        None
    }
}

/// Tells whether a name stands for a format.
pub fn is_valid_output_format(name: &str) -> (r: bool)
    ensures
        r == (named_format(name@) is Some),
{
    match parse_output_format(name) {
        Some(_) => true,
        None => false,
    }
}

/// The format that a name stands for, JSON where it stands for none.
pub open spec fn format_or_json(name: Seq<char>) -> OutputFormat {
    match named_format(name) {
        Some(f) => f,
        None => OutputFormat::Json,
    }
}

/// Reads the name of a format; an unknown one counts as JSON.
pub fn parse_format_or_json(name: &str) -> (r: OutputFormat)
    ensures
        r == format_or_json(name@),
{
    match parse_output_format(name) {
        Some(f) => f,
        None => OutputFormat::Json,
    }
}

/// Each format goes by its own name and by no other; an unknown name counts as
/// JSON where a format is needed.
pub proof fn law_formats_go_by_their_names(name: Seq<char>)
    ensures
        named_format("json"@) == Some(OutputFormat::Json),
        named_format("human"@) == Some(OutputFormat::Human),
        named_format("toon"@) == Some(OutputFormat::Toon),
        named_format(name) is Some <==> name == "json"@ || name == "human"@ || name == "toon"@,
        named_format(name) matches Some(f) ==> format_or_json(name) == f,
        named_format(name) is None ==> format_or_json(name) == OutputFormat::Json,
{
    reveal_strlit("json");
    reveal_strlit("human");
    reveal_strlit("toon");
    assert("json"@[0] == 'j' && "human"@[0] == 'h' && "toon"@[0] == 't');
}

} // verus!
