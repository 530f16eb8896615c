use vulka::slang::cli::{parse_args, select_output, starts_with_dash, Arg, CliError, OutputArg};
use vulka::slang::compiler::SlangShaderStage;

fn words(list: &[&str]) -> Vec<String> {
    list.iter().map(|w| w.to_string()).collect()
}

#[test]
fn options_and_inputs() {
    let cli = parse_args(words(&[
        "-I", "include", "shader.slang", "-v", "vsMain", "-s", "compute", "-o", "spirv", "other.slang",
    ]))
    .unwrap();
    assert_eq!(cli.inputs, words(&["shader.slang", "other.slang"]));
    assert_eq!(cli.args.len(), 4);
    assert!(matches!(&cli.args[0], Arg::Include(p) if p == "include"));
    assert!(matches!(&cli.args[1], Arg::Entrypoint(SlangShaderStage::Vertex, n) if n == "vsMain"));
    assert!(matches!(&cli.args[2], Arg::AllStageEntrypoints(SlangShaderStage::Compute)));
    assert!(matches!(&cli.args[3], Arg::Output(OutputArg::Spirv)));
}

#[test]
fn all_entrypoints_takes_an_argument() {
    let cli = parse_args(words(&["-a", "x", "in.slang", "-f", "fsMain", "-c", "csMain"])).unwrap();
    assert_eq!(cli.inputs, words(&["in.slang"]));
    assert!(matches!(&cli.args[0], Arg::AllEntrypoints));
    assert!(matches!(&cli.args[1], Arg::Entrypoint(SlangShaderStage::Fragment, n) if n == "fsMain"));
    assert!(matches!(&cli.args[2], Arg::Entrypoint(SlangShaderStage::Compute, n) if n == "csMain"));
}

#[test]
fn trailing_option_is_dropped() {
    let cli = parse_args(words(&["in.slang", "-o"])).unwrap();
    assert!(cli.args.is_empty());
}

#[test]
fn refused_command_lines() {
    assert_eq!(
        parse_args(words(&["-I", "-v", "x"])).unwrap_err(),
        CliError::MissingOptionArgument("-I".to_string())
    );
    assert_eq!(
        parse_args(words(&["-s", "geometry", "a"])).unwrap_err(),
        CliError::UnknownStage("geometry".to_string())
    );
    assert_eq!(
        parse_args(words(&["-o", "text", "a"])).unwrap_err(),
        CliError::UnknownOutput("text".to_string())
    );
    assert_eq!(
        parse_args(words(&["-x", "y", "a"])).unwrap_err(),
        CliError::UnknownOption("-x".to_string())
    );
    assert_eq!(parse_args(words(&["-v", "main"])).unwrap_err(), CliError::NoInputFiles);
    assert_eq!(parse_args(Vec::new()).unwrap_err(), CliError::NoInputFiles);
}

#[test]
fn output_selection() {
    let none = parse_args(words(&["a"])).unwrap();
    assert_eq!(select_output(&none.args), Ok(OutputArg::Debug));
    let one = parse_args(words(&["a", "-o", "layout"])).unwrap();
    assert_eq!(select_output(&one.args), Ok(OutputArg::Layout));
    let two = parse_args(words(&["a", "-o", "layout", "-o", "debug"])).unwrap();
    assert_eq!(select_output(&two.args), Err(CliError::MultipleOutputs));
}

#[test]
fn dash_detection() {
    assert!(starts_with_dash("-o"));
    assert!(starts_with_dash("-"));
    assert!(!starts_with_dash("a-b"));
    assert!(!starts_with_dash(""));
}
