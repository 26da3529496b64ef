//! What the command line asks for: the input text, how it is written, and
//! the output format.
use crate::text::{push_char, same_text};
use crate::ucd::{code_point_from_chars, parse_code_point};
use vstd::prelude::*;
use vstd::string::StringExecFns;

verus! {

pub const OPTION_VALUE_INPUT_TYPE_STRING: &'static str = "string";

pub const OPTION_VALUE_INPUT_TYPE_CODE_POINTS: &'static str = "code-points";

pub const OPTION_VALUE_OUTPUT_FORMAT_TEXT: &'static str = "text";

pub const OPTION_VALUE_OUTPUT_FORMAT_JSON: &'static str = "json";

#[derive(Debug, PartialEq, Eq)]
pub enum Error {
    UnrecognizedInputType(String),
    UnrecognizedOutputFormat(String),
    MissingInput,
}

/// The text to describe.
#[derive(Debug, PartialEq, Eq)]
pub enum Input {
    String(String),
    Characters(Vec<char>),
    GenerateFlamegraph,
}

/// The pieces of `s` between commas, in order; one piece when there is no comma.
pub open spec fn split_commas(s: Seq<char>) -> Seq<Seq<char>>
    decreases s.len(),
{
    if s.len() == 0 {
        seq![Seq::empty()]
    } else {
        let p = split_commas(s.drop_last());
        if s.last() == ',' {
            p.push(Seq::empty())
        } else {
            p.update(p.len() - 1, p.last().push(s.last()))
        }
    }
}

/// The code points that the pieces name, skipping pieces that name none.
pub open spec fn parsed_code_points(pieces: Seq<Seq<char>>) -> Seq<nat>
    decreases pieces.len(),
{
    if pieces.len() == 0 {
        Seq::empty()
    } else {
        let init = parsed_code_points(pieces.drop_last());
        match parse_code_point(pieces.last()) {
            Some(v) => init.push(v),
            None => init,
        }
    }
}

pub open spec fn code_point_values(cs: Seq<char>) -> Seq<nat> {
    cs.map_values(|c: char| c as u32 as nat)
}

proof fn lemma_split_commas_nonempty(s: Seq<char>)
    ensures
        split_commas(s).len() > 0,
    decreases s.len(),
{
    if s.len() > 0 {
        lemma_split_commas_nonempty(s.drop_last());
    }
}

fn push_code_point(out: &mut Vec<char>, piece: &Vec<char>)
    ensures
        code_point_values(final(out)@) == (match parse_code_point(piece@) {
            Some(v) => code_point_values(old(out)@).push(v),
            None => code_point_values(old(out)@),
        }),
{
    match code_point_from_chars(piece) {
        Some(c) => {
            out.push(c);
            proof {
                assert(code_point_values(final(out)@) =~= code_point_values(old(out)@).push(
                    c as u32 as nat,
                ));
            }
        },
        None => {},
    }
}

/// The code points named by the comma-separated pieces of `input_string`
/// (each written `U+hhhh`), skipping pieces that name none.
pub fn characters_from_input_string(input_string: &str) -> (r: Vec<char>)
    ensures
        code_point_values(r@) == parsed_code_points(split_commas(input_string@)),
{
    let s = crate::text::chars_of(input_string);
    let mut out: Vec<char> = Vec::new();
    let mut cur: Vec<char> = Vec::new();
    let ghost mut done: Seq<Seq<char>> = Seq::empty();
    let mut i: usize = 0;
    proof {
        assert(s@.take(0) =~= Seq::<char>::empty());
        assert(split_commas(Seq::<char>::empty()) =~= done.push(cur@));
    }
    while i < s.len()
        invariant
            0 <= i <= s@.len(),
            s@ == input_string@,
            split_commas(s@.take(i as int)) == done.push(cur@),
            code_point_values(out@) == parsed_code_points(done),
        decreases s@.len() - i,
    {
        let c = s[i];
        proof {
            assert(s@.take(i + 1).drop_last() =~= s@.take(i as int));
            assert(s@.take(i + 1).last() == c);
        }
        if c == ',' {
            push_code_point(&mut out, &cur);
            proof {
                assert(done.push(cur@).drop_last() =~= done);
                done = done.push(cur@);
            }
            cur = Vec::new();
            proof {
                assert(split_commas(s@.take(i + 1)) =~= done.push(cur@));
            }
        } else {
            cur.push(c);
            proof {
                assert(split_commas(s@.take(i + 1)) =~= done.push(cur@));
            }
        }
        i = i + 1;
    }
    push_code_point(&mut out, &cur);
    proof {
        assert(s@.take(s@.len() as int) =~= s@);
        assert(done.push(cur@).drop_last() =~= done);
    }
    out
}

/// The text of `cs`, one character after another.
pub fn string_from_chars(cs: &Vec<char>) -> (r: String)
    ensures
        r@ == cs@,
{
    let mut r = String::new();
    let mut i: usize = 0;
    while i < cs.len()
        invariant
            0 <= i <= cs@.len(),
            r@ == cs@.take(i as int),
        decreases cs@.len() - i,
    {
        push_char(&mut r, cs[i]);
        proof {
            assert(cs@.take(i + 1) =~= cs@.take(i as int).push(cs@[i as int]));
        }
        i = i + 1;
    }
    proof {
        assert(cs@.take(cs@.len() as int) =~= cs@);
    }
    r
}

impl Input {
    /// The text to describe; empty for a request to generate a flame graph.
    pub fn to_string(&self) -> (r: String)
        ensures
            match self {
                Input::String(s) => r@ == s@,
                Input::Characters(cs) => r@ == cs@,
                Input::GenerateFlamegraph => r@.len() == 0,
            },
    {
        match self {
            Input::String(s) => s.clone(),
            Input::Characters(cs) => string_from_chars(cs),
            Input::GenerateFlamegraph => String::new(),
        }
    }
}

/// What was given on the command line about the input.
#[derive(Debug)]
pub struct InputArguments {
    pub generate_flamegraph: bool,
    pub tui_mode: bool,
    pub code_point_input_mode: bool,
    pub input: Option<String>,
    pub input_type: Option<String>,
}

/// The input as code points when `as_code_points`, else as text.
pub open spec fn input_as(text: Seq<char>, as_code_points: bool, r: Input) -> bool {
    if as_code_points {
        r matches Input::Characters(cs) && code_point_values(cs@) == parsed_code_points(
            split_commas(text),
        )
    } else {
        r matches Input::String(s) && s@ == text
    }
}

/// Decides what the input is: a flame graph request wins; a missing input is
/// empty text in the terminal interface and an error otherwise; an input type
/// of `string` or `code-points` decides how the text is read, any other type
/// is an error; without one, the code point flag decides.
pub fn parse_input(args: &InputArguments) -> (r: Result<Input, Error>)
    ensures
        args.generate_flamegraph ==> r == Ok::<Input, Error>(Input::GenerateFlamegraph),
        !args.generate_flamegraph && args.input.is_none() && !args.tui_mode ==> r == Err::<
            Input,
            Error,
        >(Error::MissingInput),
        !args.generate_flamegraph && (args.input.is_some() || args.tui_mode) ==> {
            let text = match args.input {
                Some(s) => s@,
                None => Seq::<char>::empty(),
            };
            match args.input_type {
                Some(t) => if t@ == OPTION_VALUE_INPUT_TYPE_STRING@ {
                    r matches Ok(i) && input_as(text, false, i)
                } else if t@ == OPTION_VALUE_INPUT_TYPE_CODE_POINTS@ {
                    r matches Ok(i) && input_as(text, true, i)
                } else {
                    r matches Err(Error::UnrecognizedInputType(u)) && u@ == t@
                },
                None => r matches Ok(i) && input_as(text, args.code_point_input_mode, i),
            }
        },
{
    if args.generate_flamegraph {
        return Ok(Input::GenerateFlamegraph);
    }
    let text: String = match &args.input {
        Some(s) => s.clone(),
        None => {
            if args.tui_mode {
                String::new()
            } else {
                return Err(Error::MissingInput);
            }
        },
    };
    let as_code_points = match &args.input_type {
        Some(t) => {
            if same_text(t.as_str(), OPTION_VALUE_INPUT_TYPE_STRING) {
                false
            } else if same_text(t.as_str(), OPTION_VALUE_INPUT_TYPE_CODE_POINTS) {
                true
            } else {
                return Err(Error::UnrecognizedInputType(t.clone()));
            }
        },
        None => args.code_point_input_mode,
    };
    if as_code_points {
        Ok(Input::Characters(characters_from_input_string(text.as_str())))
    } else {
        Ok(Input::String(text))
    }
}

/// How descriptions are written.
#[derive(Debug, Clone, Copy, PartialEq, Eq)]
pub enum OutputFormat {
    Text,
    Json,
}

/// The output format that the command line names: text when none is named.
pub fn output_format(name: Option<&str>) -> (r: Result<OutputFormat, Error>)
    ensures
        match name {
            None => r == Ok::<OutputFormat, Error>(OutputFormat::Text),
            Some(n) => if n@ == OPTION_VALUE_OUTPUT_FORMAT_TEXT@ {
                r == Ok::<OutputFormat, Error>(OutputFormat::Text)
            } else if n@ == OPTION_VALUE_OUTPUT_FORMAT_JSON@ {
                r == Ok::<OutputFormat, Error>(OutputFormat::Json)
            } else {
                r matches Err(Error::UnrecognizedOutputFormat(u)) && u@ == n@
            },
        },
{
    match name {
        None => Ok(OutputFormat::Text),
        Some(n) => {
            if same_text(n, OPTION_VALUE_OUTPUT_FORMAT_TEXT) {
                Ok(OutputFormat::Text)
            } else if same_text(n, OPTION_VALUE_OUTPUT_FORMAT_JSON) {
                Ok(OutputFormat::Json)
            } else {
                Err(Error::UnrecognizedOutputFormat(n.to_owned()))
            }
        },
    }
}

} // verus!
