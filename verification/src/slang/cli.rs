//! The command line of the shader compiler tool: options that take one
//! argument each, and input files.

use vstd::prelude::*;
use crate::slang::compiler::SlangShaderStage;
use crate::text::str_eq;

verus! {

/// What the tool writes out.
#[derive(Clone, Copy, Debug, Eq, PartialEq, Structural)]
pub enum OutputArg {
    Debug,
    Layout,
    Spirv,
}

/// One option of the command line.
#[derive(Debug)]
pub enum Arg {
    /// `-I dir`: a search path.
    Include(String),
    /// `-a _`: every entry point of the first module.
    AllEntrypoints,
    /// `-s stage`: every entry point of a stage.
    AllStageEntrypoints(SlangShaderStage),
    /// `-v name`, `-f name`, `-c name`: one entry point.
    Entrypoint(SlangShaderStage, String),
    /// `-o kind`: what to write out.
    Output(OutputArg),
}

/// An option as plain values.
pub enum ArgView {
    Include(Seq<char>),
    AllEntrypoints,
    AllStageEntrypoints(SlangShaderStage),
    Entrypoint(SlangShaderStage, Seq<char>),
    Output(OutputArg),
}

impl View for Arg {
    type V = ArgView;

    open spec fn view(&self) -> ArgView {
        match self {
            Arg::Include(p) => ArgView::Include(p@),
            Arg::AllEntrypoints => ArgView::AllEntrypoints,
            Arg::AllStageEntrypoints(s) => ArgView::AllStageEntrypoints(*s),
            Arg::Entrypoint(s, n) => ArgView::Entrypoint(*s, n@),
            Arg::Output(o) => ArgView::Output(*o),
        }
    }
}

/// A parsed command line: the options in order, and the input files.
#[derive(Debug)]
pub struct Cli {
    pub args: Vec<Arg>,
    pub inputs: Vec<String>,
}

/// Why a command line was refused.
#[derive(Debug, Clone, PartialEq, Eq)]
pub enum CliError {
    /// An option was followed by another option instead of its argument.
    MissingOptionArgument(String),
    /// `-s` named no known stage.
    UnknownStage(String),
    /// `-o` named no known output.
    UnknownOutput(String),
    /// The option is not known.
    UnknownOption(String),
    /// No input file was given.
    NoInputFiles,
    /// More than one `-o` was given.
    MultipleOutputs,
}

/// A refusal as plain values.
pub enum CliErrorView {
    MissingOptionArgument(Seq<char>),
    UnknownStage(Seq<char>),
    UnknownOutput(Seq<char>),
    UnknownOption(Seq<char>),
    NoInputFiles,
    MultipleOutputs,
}

impl View for CliError {
    type V = CliErrorView;

    open spec fn view(&self) -> CliErrorView {
        match self {
            CliError::MissingOptionArgument(s) => CliErrorView::MissingOptionArgument(s@),
            CliError::UnknownStage(s) => CliErrorView::UnknownStage(s@),
            CliError::UnknownOutput(s) => CliErrorView::UnknownOutput(s@),
            CliError::UnknownOption(s) => CliErrorView::UnknownOption(s@),
            CliError::NoInputFiles => CliErrorView::NoInputFiles,
            CliError::MultipleOutputs => CliErrorView::MultipleOutputs,
        }
    }
}

/// Whether a word is an option: it starts with a hyphen.
pub open spec fn is_option(word: Seq<char>) -> bool {
    word.len() > 0 && word[0] == '-'
}

/// Whether `s` starts with a hyphen.
pub fn starts_with_dash(s: &str) -> (r: bool)
    ensures
        r == is_option(s@),
{
    broadcast use vstd::string::axiom_spec_iter, vstd::string::next_postcondition;

    let mut chars = s.chars();
    match chars.next() {
        Some(c) => c == '-',
        None => false,
    }
}

/// How far parsing got: the options and inputs so far, and an option still
/// waiting for its argument.
pub struct ParseProgress {
    pub args: Seq<ArgView>,
    pub inputs: Seq<Seq<char>>,
    pub pending: Option<Seq<char>>,
}

/// The option `option` applied to its argument `word`.
pub open spec fn option_arg(option: Seq<char>, word: Seq<char>) -> Result<ArgView, CliErrorView> {
    if option == "-I"@ {
        Ok(ArgView::Include(word))
    } else if option == "-a"@ {
        Ok(ArgView::AllEntrypoints)
    } else if option == "-s"@ {
        if word == "vertex"@ {
            Ok(ArgView::AllStageEntrypoints(SlangShaderStage::Vertex))
        } else if word == "fragment"@ {
            Ok(ArgView::AllStageEntrypoints(SlangShaderStage::Fragment))
        } else if word == "compute"@ {
            Ok(ArgView::AllStageEntrypoints(SlangShaderStage::Compute))
        } else {
            Err(CliErrorView::UnknownStage(word))
        }
    } else if option == "-v"@ {
        Ok(ArgView::Entrypoint(SlangShaderStage::Vertex, word))
    } else if option == "-f"@ {
        Ok(ArgView::Entrypoint(SlangShaderStage::Fragment, word))
    } else if option == "-c"@ {
        Ok(ArgView::Entrypoint(SlangShaderStage::Compute, word))
    } else if option == "-o"@ {
        if word == "debug"@ {
            Ok(ArgView::Output(OutputArg::Debug))
        } else if word == "layout"@ {
            Ok(ArgView::Output(OutputArg::Layout))
        } else if word == "spirv"@ {
            Ok(ArgView::Output(OutputArg::Spirv))
        } else {
            Err(CliErrorView::UnknownOutput(word))
        }
    } else {
        Err(CliErrorView::UnknownOption(option))
    }
}

/// Parsing one more word: the argument of a pending option (which must not
/// itself be an option), else a new option, else an input file.
pub open spec fn parse_step(p: ParseProgress, word: Seq<char>) -> Result<ParseProgress, CliErrorView> {
    match p.pending {
        Some(option) => if is_option(word) {
            Err(CliErrorView::MissingOptionArgument(option))
        } else {
            match option_arg(option, word) {
                Err(e) => Err(e),
                Ok(arg) => Ok(ParseProgress { args: p.args.push(arg), inputs: p.inputs, pending: None }),
            }
        },
        None => if is_option(word) {
            Ok(ParseProgress { args: p.args, inputs: p.inputs, pending: Some(word) })
        } else {
            Ok(ParseProgress { args: p.args, inputs: p.inputs.push(word), pending: None })
        },
    }
}

/// Parsing the words in order from nothing; the first refusal stops it.
pub open spec fn parse_words(words: Seq<Seq<char>>) -> Result<ParseProgress, CliErrorView>
    decreases words.len(),
{
    if words.len() == 0 {
        Ok(ParseProgress { args: Seq::empty(), inputs: Seq::empty(), pending: None })
    } else {
        match parse_words(words.drop_last()) {
            Err(e) => Err(e),
            Ok(p) => parse_step(p, words.last()),
        }
    }
}

/// The command line that the words make: at least one input file is needed;
/// an option left without an argument at the end is dropped.
pub open spec fn cli_outcome(words: Seq<Seq<char>>) -> Result<
    (Seq<ArgView>, Seq<Seq<char>>),
    CliErrorView,
> {
    match parse_words(words) {
        Err(e) => Err(e),
        Ok(p) => if p.inputs.len() == 0 {
            Err(CliErrorView::NoInputFiles)
        } else {
            Ok((p.args, p.inputs))
        },
    }
}

/// The words as character sequences.
pub open spec fn words_of(raw: Seq<String>) -> Seq<Seq<char>> {
    raw.map_values(|s: String| s@)
}

/// The options in `args` as plain values.
pub open spec fn args_view(args: Seq<Arg>) -> Seq<ArgView> {
    args.map_values(|a: Arg| a@)
}

/// The inputs as character sequences.
pub open spec fn inputs_view(inputs: Seq<String>) -> Seq<Seq<char>> {
    inputs.map_values(|s: String| s@)
}

/// The word that names a stage on the command line.
pub open spec fn stage_word(stage: SlangShaderStage) -> Seq<char> {
    match stage {
        SlangShaderStage::Vertex => "vertex"@,
        SlangShaderStage::Fragment => "fragment"@,
        SlangShaderStage::Compute => "compute"@,
    }
}

/// `-s` takes the name of a stage: the command line `-s w input` selects
/// every entry point of stage `s`, and reads `input` as the input file,
/// exactly when `w` is the name of `s`; a word that names no stage is
/// refused as an unknown stage.
pub proof fn lemma_stage_option_reads_stage_name(w: Seq<char>, input: Seq<char>)
    requires
        !is_option(w),
        !is_option(input),
    ensures
        forall|s: SlangShaderStage|
            #![trigger stage_word(s)]
            cli_outcome(seq!["-s"@, w, input]) == Ok::<(Seq<ArgView>, Seq<Seq<char>>), CliErrorView>(
                (seq![ArgView::AllStageEntrypoints(s)], seq![input]),
            ) <==> w == stage_word(s),
        (forall|s: SlangShaderStage| #[trigger] stage_word(s) != w) ==> cli_outcome(
            seq!["-s"@, w, input],
        ) == Err::<(Seq<ArgView>, Seq<Seq<char>>), CliErrorView>(CliErrorView::UnknownStage(w)),
{
    reveal_strlit("-s");
    reveal_strlit("-I");
    reveal_strlit("-a");
    reveal_strlit("vertex");
    reveal_strlit("fragment");
    reveal_strlit("compute");
    let words = seq!["-s"@, w, input];
    assert(words.drop_last() =~= seq!["-s"@, w]);
    assert(words.drop_last().drop_last() =~= seq!["-s"@]);
    assert(words.drop_last().drop_last().drop_last() =~= Seq::<Seq<char>>::empty());
    assert(is_option("-s"@));
    assert("-s"@[1] != "-I"@[1]);
    assert("-s"@ != "-I"@);
    assert("-s"@[1] != "-a"@[1]);
    assert("-s"@ != "-a"@);
    assert("vertex"@[0] != "fragment"@[0]);
    assert("vertex"@ != "fragment"@);
    assert("vertex"@[0] != "compute"@[0]);
    assert("vertex"@ != "compute"@);
    assert("fragment"@[0] != "compute"@[0]);
    assert("fragment"@ != "compute"@);
    let one = seq!["-s"@];
    let two = seq!["-s"@, w];
    assert(one.drop_last() =~= Seq::<Seq<char>>::empty());
    assert(one.last() == "-s"@);
    assert(two.drop_last() =~= one);
    assert(two.last() == w);
    assert(words.drop_last() =~= two);
    assert(words.last() == input);
    let p0 = ParseProgress { args: Seq::empty(), inputs: Seq::empty(), pending: None };
    let p1 = ParseProgress { args: Seq::empty(), inputs: Seq::empty(), pending: Some("-s"@) };
    assert(parse_words(Seq::<Seq<char>>::empty()) == Ok::<ParseProgress, CliErrorView>(p0));
    assert(parse_words(one) == parse_step(p0, "-s"@));
    assert(parse_step(p0, "-s"@) == Ok::<ParseProgress, CliErrorView>(p1));
    assert(parse_words(two) == parse_step(p1, w));
    assert(parse_step(p1, w) == match option_arg("-s"@, w) {
        Err(e) => Err(e),
        Ok(arg) => Ok::<ParseProgress, CliErrorView>(
            ParseProgress { args: Seq::<ArgView>::empty().push(arg), inputs: Seq::empty(), pending: None },
        ),
    });
    match option_arg("-s"@, w) {
        Ok(arg) => {
            let p2 = ParseProgress { args: seq![arg], inputs: Seq::empty(), pending: None };
            assert(Seq::<ArgView>::empty().push(arg) =~= seq![arg]);
            assert(parse_words(two) == Ok::<ParseProgress, CliErrorView>(p2));
            assert(Seq::<Seq<char>>::empty().push(input) =~= seq![input]);
            let p3 = ParseProgress { args: seq![arg], inputs: seq![input], pending: None };
            assert(parse_words(words) == Ok::<ParseProgress, CliErrorView>(p3));
            assert(cli_outcome(words) == Ok::<(Seq<ArgView>, Seq<Seq<char>>), CliErrorView>(
                (seq![arg], seq![input]),
            ));
        },
        Err(e) => {
            assert(parse_words(two) == Err::<ParseProgress, CliErrorView>(e));
            assert(cli_outcome(words) == Err::<(Seq<ArgView>, Seq<Seq<char>>), CliErrorView>(e));
        },
    }
    assert forall|s: SlangShaderStage|
        #![trigger stage_word(s)]
        cli_outcome(words) == Ok::<(Seq<ArgView>, Seq<Seq<char>>), CliErrorView>(
            (seq![ArgView::AllStageEntrypoints(s)], seq![input]),
        ) <==> w == stage_word(s) by {
        if cli_outcome(words) == Ok::<(Seq<ArgView>, Seq<Seq<char>>), CliErrorView>(
            (seq![ArgView::AllStageEntrypoints(s)], seq![input]),
        ) {
            let arg = option_arg("-s"@, w)->Ok_0;
            assert(seq![arg][0] == arg);
            assert(seq![ArgView::AllStageEntrypoints(s)][0] == ArgView::AllStageEntrypoints(s));
            assert(arg == ArgView::AllStageEntrypoints(s));
            match s {
                SlangShaderStage::Vertex => {},
                SlangShaderStage::Fragment => {},
                SlangShaderStage::Compute => {},
            }
        }
        if w == stage_word(s) {
            match s {
                SlangShaderStage::Vertex => {},
                SlangShaderStage::Fragment => {},
                SlangShaderStage::Compute => {},
            }
        }
    }
    if forall|s: SlangShaderStage| #[trigger] stage_word(s) != w {
        assert(stage_word(SlangShaderStage::Vertex) != w);
        assert(stage_word(SlangShaderStage::Fragment) != w);
        assert(stage_word(SlangShaderStage::Compute) != w);
    }
}

proof fn lemma_parse_err_stays(words: Seq<Seq<char>>, k: int)
    requires
        0 <= k <= words.len(),
        parse_words(words.take(k)) is Err,
    ensures
        parse_words(words) == parse_words(words.take(k)),
    decreases words.len() - k,
{
    if k < words.len() {
        assert(words.take(k + 1).drop_last() =~= words.take(k));
        lemma_parse_err_stays(words, k + 1);
    } else {
        assert(words.take(k) =~= words);
    }
}

/// The option `option` applied to its argument `word`.
fn apply_option(option: &String, word: String) -> (r: Result<Arg, CliError>)
    ensures
        match option_arg(option@, word@) {
            Ok(a) => r matches Ok(arg) && arg@ == a,
            Err(e) => r matches Err(err) && err@ == e,
        },
{
    let o = option.as_str();
    if str_eq(o, "-I") {
        Ok(Arg::Include(word))
    } else if str_eq(o, "-a") {
        Ok(Arg::AllEntrypoints)
    } else if str_eq(o, "-s") {
        let w = word.as_str();
        if str_eq(w, "vertex") {
            Ok(Arg::AllStageEntrypoints(SlangShaderStage::Vertex))
        } else if str_eq(w, "fragment") {
            Ok(Arg::AllStageEntrypoints(SlangShaderStage::Fragment))
        } else if str_eq(w, "compute") {
            Ok(Arg::AllStageEntrypoints(SlangShaderStage::Compute))
        } else {
            Err(CliError::UnknownStage(word))
        }
    } else if str_eq(o, "-v") {
        Ok(Arg::Entrypoint(SlangShaderStage::Vertex, word))
    } else if str_eq(o, "-f") {
        Ok(Arg::Entrypoint(SlangShaderStage::Fragment, word))
    } else if str_eq(o, "-c") {
        Ok(Arg::Entrypoint(SlangShaderStage::Compute, word))
    } else if str_eq(o, "-o") {
        let w = word.as_str();
        if str_eq(w, "debug") {
            Ok(Arg::Output(OutputArg::Debug))
        } else if str_eq(w, "layout") {
            Ok(Arg::Output(OutputArg::Layout))
        } else if str_eq(w, "spirv") {
            Ok(Arg::Output(OutputArg::Spirv))
        } else {
            Err(CliError::UnknownOutput(word))
        }
    } else {
        Err(CliError::UnknownOption(option.clone()))
    }
}

/// Parses the words of a command line, the program's name left out.
pub fn parse_args(raw_args: Vec<String>) -> (r: Result<Cli, CliError>)
    ensures
        match cli_outcome(words_of(raw_args@)) {
            Ok((args, inputs)) => r matches Ok(cli) && args_view(cli.args@) == args
                && inputs_view(cli.inputs@) == inputs,
            Err(e) => r matches Err(err) && err@ == e,
        },
{
    let ghost words = words_of(raw_args@);
    let mut rest = raw_args;
    let ghost all = rest@;
    let mut args: Vec<Arg> = Vec::new();
    let mut inputs: Vec<String> = Vec::new();
    let mut option: Option<String> = None;
    let mut done: usize = 0;
    proof {
        assert(words.take(0) =~= Seq::<Seq<char>>::empty());
        assert(all.skip(0) =~= all);
        assert(all.len() == rest.len());
    }
    while rest.len() > 0
        invariant
            all.len() <= usize::MAX,
            words == words_of(all),
            words == words_of(raw_args@),
            done + rest@.len() == all.len(),
            rest@ == all.skip(done as int),
            parse_words(words.take(done as int)) matches Ok(p) && p.args == args_view(args@)
                && p.inputs == inputs_view(inputs@) && p.pending == match option {
                Some(o) => Some(o@),
                None => None::<Seq<char>>,
            },
        decreases rest@.len(),
    {
        let word = rest.remove(0);
        let ghost prev = parse_words(words.take(done as int))->Ok_0;
        proof {
            assert(word == all[done as int]);
            assert(words.take(done as int + 1).drop_last() =~= words.take(done as int));
            assert(words.take(done as int + 1).last() == word@);
            assert(rest@ =~= all.skip(done as int + 1));
        }
        let is_opt = starts_with_dash(word.as_str());
        match option.take() {
            Some(opt) => {
                if is_opt {
                    proof {
                        lemma_parse_err_stays(words, done as int + 1);

                    }
                    return Err(CliError::MissingOptionArgument(opt));
                }
                match apply_option(&opt, word) {
                    Err(e) => {
                        proof {
                            lemma_parse_err_stays(words, done as int + 1);
                        }
                        return Err(e);
                    },
                    Ok(arg) => {
                        args.push(arg);
                        proof {
                            assert(args_view(args@) =~= prev.args.push(arg@));
                        }
                    },
                }
            },
            None => {
                if is_opt {
                    option = Some(word);
                } else {
                    inputs.push(word);
                    proof {
                        assert(inputs_view(inputs@) =~= prev.inputs.push(word@));
                    }
                }
            },
        }
        done = done + 1;
    }
    proof {
        assert(words.take(done as int) =~= words);
    }
    if inputs.len() == 0 {
        return Err(CliError::NoInputFiles);
    }
    Ok(Cli { args, inputs })
}

/// What the tool writes out: what the one `-o` option asks for, else the
/// debug output; a second `-o` is refused.
pub fn select_output(args: &Vec<Arg>) -> (r: Result<OutputArg, CliError>)
    ensures
        match r {
            Ok(out) => {
                ||| (forall|i: int| 0 <= i < args@.len() ==> !((#[trigger] args@[i]) is Output))
                    && out == OutputArg::Debug
                ||| exists|i: int|
                    0 <= i < args@.len() && args@[i] == Arg::Output(out) && forall|j: int|
                        0 <= j < args@.len() && j != i ==> !((#[trigger] args@[j]) is Output)
            },
            Err(e) => e == CliError::MultipleOutputs && exists|i: int, j: int|
                0 <= i < j < args@.len() && (#[trigger] args@[i]) is Output && (#[trigger] args@[j]) is Output,
        },
{
    let mut output: Option<OutputArg> = None;
    let mut at: usize = 0;
    let mut i: usize = 0;
    while i < args.len()
        invariant
            i <= args@.len(),
            match output {
                None => forall|j: int| 0 <= j < i ==> !((#[trigger] args@[j]) is Output),
                Some(out) => at < i && args@[at as int] == Arg::Output(out) && forall|j: int|
                    0 <= j < i && j != at ==> !((#[trigger] args@[j]) is Output),
            },
        decreases args.len() - i,
    {
        match &args[i] {
            Arg::Output(out) => {
                if output.is_some() {
                    return Err(CliError::MultipleOutputs);
                }
                output = Some(*out);
                at = i;
            },
            _ => {},
        }
        i = i + 1;
    }
    match output {
        Some(out) => Ok(out),
        None => Ok(OutputArg::Debug),
    }
}

} // verus!
