//! The toolbox's commands and their options, and the checks run on option
//! values as they are read.
use vstd::prelude::*;

use crate::chars::{chars_of, extend_str, lowercase_of, str_is, string_of, to_lowercase};

verus! {

/// The two base64 alphabets the toolbox offers.
#[derive(Clone, Copy, Debug, PartialEq, Eq, Structural)]
pub enum Base64Format {
    Standard,
    UrlSafeNoPad,
}

/// `base64 encode` / `base64 decode`: `input` is a file name or `-` for the
/// standard input.
#[derive(Debug)]
pub enum Base64Cmd {
    Encode { input: String, format: Base64Format },
    Decode { input: String, format: Base64Format },
}

/// What a CSV file can be converted to.
#[derive(Clone, Copy, Debug, PartialEq, Eq, Structural)]
pub enum OutputFormat {
    Json,
    Toml,
    Yaml,
}

/// `csv`: convert a CSV file of players.
#[derive(Debug)]
pub struct CsvCmd {
    pub input: String,
    pub output: String,
    pub format: OutputFormat,
    pub delimiter: char,
    pub header: bool,
}

/// `genpass`: generate a random password.
#[derive(Debug)]
pub struct GenPassCmd {
    pub length: usize,
    pub include_upper: bool,
    pub include_lower: bool,
    pub include_digit: bool,
    pub include_symbol: bool,
}

/// `http serve`: serve a directory.
#[derive(Debug)]
pub enum HttpCmd {
    Serve { dir: String, port: u16 },
}

/// The key kinds text can be signed with.
#[derive(Clone, Copy, Debug, PartialEq, Eq, Structural)]
pub enum TextSignFormat {
    Blake3,
    Ed25519,
}

/// `text generate` / `text sign` / `text verify`.
#[derive(Debug)]
pub enum TextCmd {
    Generate { format: TextSignFormat, output: String },
    Sign { input: String, key: String, format: TextSignFormat },
    Verify { input: String, key: String, sig: String, format: TextSignFormat },
}

/// The toolbox's sub-commands.
#[derive(Debug)]
pub enum SubCommand {
    Csv(CsvCmd),
    GenPass(GenPassCmd),
    Base64(Base64Cmd),
    Text(TextCmd),
    Http(HttpCmd),
}

/// The toolbox's command line.
#[derive(Debug)]
pub struct Args {
    pub cmd: SubCommand,
}

/// A row of the players CSV file.
#[derive(Debug)]
pub struct Player {
    pub name: String,
    pub position: String,
    pub dob: String,
    pub nationality: String,
    pub kit_number: String,
}

/// What checking an input file name gives: the name itself when it is `-`
/// or names an existing file, else a "not found" message.
pub open spec fn verify_file_spec(input: Seq<char>, exists: bool) -> Result<Seq<char>, Seq<char>> {
    if input == "-"@ || exists {
        Ok(input)
    } else {
        Err("Input File not found: "@ + input)
    }
}

/// `Path::exists`: whether a file or directory exists at `path`. Nothing is
/// stated of the answer: it depends on the file system at the time of the call.
#[verifier::external_body]
fn path_exists(path: &str) -> bool {
    std::path::Path::new(path).exists()
}

/// Checks an input file name, given whether a file of that name exists.
pub fn verify_file_with(input: &str, exists: bool) -> (r: Result<String, String>)
    ensures
        match (r, verify_file_spec(input@, exists)) {
            (Ok(s), Ok(t)) => s@ == t,
            (Err(e), Err(t)) => e@ == t,
            _ => false,
        },
{
    proof {
        reveal_strlit("-");
    }
    if str_is(input, "-") || exists {
        Ok(String::from_str(input))
    } else {
        let mut v = chars_of("Input File not found: ");
        extend_str(&mut v, input);
        proof {
            reveal_strlit("Input File not found: ");
        }
        Err(string_of(v.as_slice()))
    }
}

/// Checks an input file name: `-` (standard input) and names of existing
/// files are kept; other names are refused with a "not found" message. The
/// file system is only consulted for names other than `-`.
pub fn verify_file(input: &str) -> (r: Result<String, String>)
    ensures
        input@ == "-"@ ==> (r matches Ok(s) && s@ == input@),
        r matches Ok(s) ==> s@ == input@,
        r matches Err(e) ==> input@ != "-"@ && e@ == "Input File not found: "@ + input@,
{
    if str_is(input, "-") {
        verify_file_with(input, true)
    } else {
        let exists = path_exists(input);
        verify_file_with(input, exists)
    }
}

/// Reads a base64 alphabet name: `standard` or `urlsafe`.
pub fn parse_base64_format(format: &str) -> (r: Result<Base64Format, String>)
    ensures
        format@ == "standard"@ ==> r == Ok::<Base64Format, String>(Base64Format::Standard),
        format@ == "urlsafe"@ ==> r == Ok::<Base64Format, String>(Base64Format::UrlSafeNoPad),
        format@ != "standard"@ && format@ != "urlsafe"@ ==> (r matches Err(e) && e@
            == "Unknown base64 format: "@ + format@),
{
    proof {
        reveal_strlit("standard");
        reveal_strlit("urlsafe");
        assert("standard"@.len() != "urlsafe"@.len());
    }
    if str_is(format, "standard") {
        Ok(Base64Format::Standard)
    } else if str_is(format, "urlsafe") {
        Ok(Base64Format::UrlSafeNoPad)
    } else {
        let mut v = chars_of("Unknown base64 format: ");
        extend_str(&mut v, format);
        Err(string_of(v.as_slice()))
    }
}

/// The key kind named by `lower`, the lower-case form of the option text
/// `format`: `blake3` or `ed25519`; any other text is refused, naming
/// `format` as given.
pub fn format_from_lowercase(lower: &str, format: &str) -> (r: Result<TextSignFormat, String>)
    ensures
        lower@ == "blake3"@ ==> r == Ok::<TextSignFormat, String>(TextSignFormat::Blake3),
        lower@ == "ed25519"@ ==> r == Ok::<TextSignFormat, String>(TextSignFormat::Ed25519),
        lower@ != "blake3"@ && lower@ != "ed25519"@ ==> (r matches Err(e) && e@
            == "Unsupported format: "@ + format@),
{
    proof {
        reveal_strlit("blake3");
        reveal_strlit("ed25519");
        assert("blake3"@.len() != "ed25519"@.len());
    }
    if str_is(lower, "blake3") {
        Ok(TextSignFormat::Blake3)
    } else if str_is(lower, "ed25519") {
        Ok(TextSignFormat::Ed25519)
    } else {
        let mut v = chars_of("Unsupported format: ");
        extend_str(&mut v, format);
        Err(string_of(v.as_slice()))
    }
}

/// Reads a signing key kind, without regard to case: the text folded with
/// `str::to_lowercase` must be `blake3` or `ed25519`.
pub fn parse_format(format: &str) -> (r: Result<TextSignFormat, String>)
    ensures
        lowercase_of(format@) == "blake3"@ ==> r == Ok::<TextSignFormat, String>(
            TextSignFormat::Blake3,
        ),
        lowercase_of(format@) == "ed25519"@ ==> r == Ok::<TextSignFormat, String>(
            TextSignFormat::Ed25519,
        ),
        lowercase_of(format@) != "blake3"@ && lowercase_of(format@) != "ed25519"@ ==> (r matches Err(
            e,
        ) && e@ == "Unsupported format: "@ + format@),
{
    let lower = to_lowercase(format);
    format_from_lowercase(lower.as_str(), format)
}

/// The files a generated key is written to, each with the position of the
/// key part it holds: one `blake3.key` for BLAKE3, the signing and verifying
/// halves for Ed25519.
pub fn key_file_plan(format: TextSignFormat) -> (plan: Vec<(String, usize)>)
    ensures
        format == TextSignFormat::Blake3 ==> plan@.len() == 1 && plan@[0].0@ == "blake3.key"@
            && plan@[0].1 == 0,
        format == TextSignFormat::Ed25519 ==> plan@.len() == 2 && plan@[0].0@
            == "ed25519_signing.key"@ && plan@[0].1 == 0 && plan@[1].0@ == "ed25519_verifying.key"@
            && plan@[1].1 == 1,
{
    let mut plan: Vec<(String, usize)> = Vec::new();
    match format {
        TextSignFormat::Blake3 => {
            plan.push((String::from_str("blake3.key"), 0));
        },
        TextSignFormat::Ed25519 => {
            plan.push((String::from_str("ed25519_signing.key"), 0));
            plan.push((String::from_str("ed25519_verifying.key"), 1));
        },
    }
    plan
}

} // verus!
