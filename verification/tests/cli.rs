use kern::{CliBuilder, Command};

#[test]
fn command() {
    // define possible options and arguments
    let options = ["option1", "option2", "option3"];
    let paramopts = ["paramopt1", "paramopt2"];
    let arguments = generate_arguments(true);
    let arguments_wo = generate_arguments(false);

    // parse commands
    let builder = CliBuilder::new();
    let command = builder
        .clone()
        .options(&options)
        .paramopt(&paramopts)
        .build(&arguments);
    let command_wo = builder.build(&arguments_wo);

    // check both commands
    check_command(&command);
    check_command(&command_wo);

    // check specific for command
    assert_eq!(command.param("short-param2", "falsch"), "short-value2");
    assert_eq!(command.option("option1"), true);
    assert_eq!(command.option("option2"), true);
    assert_eq!(command.option("m"), true);
    assert_eq!(command.option("s"), true);
    assert_eq!(command.option("o"), true);
    assert_eq!(command.parameters().len(), 9);
    assert_eq!(command.options().len(), 6);
    assert_eq!(command.arguments().len(), 5);

    // check specific for command_wo
    assert_eq!(command_wo.param("short-param2", "falsch"), "falsch");
    assert_eq!(command_wo.option("option1"), false);
    assert_eq!(command_wo.option("option2"), false);
    assert_eq!(command_wo.option("m"), false);
    assert_eq!(command_wo.option("s"), false);
    assert_eq!(command_wo.option("o"), false);
    assert_eq!(command_wo.parameters().len(), 9);
    assert_eq!(command_wo.options().len(), 0);
    assert_eq!(command_wo.arguments().len(), 5);
}

fn generate_arguments(paramopts: bool) -> Vec<String> {
    // initialize arguments list and add arguments
    let mut arguments = Vec::new();
    arguments.push("command".into());
    arguments.push("--param1=value1".into());
    arguments.push("--param2=value2".into());
    arguments.push("-short-param1=short-value1".into());
    arguments.push("--option1".into());
    arguments.push("-short-param2=short-value2".into());
    arguments.push("--option2".into());
    arguments.push("-mso".into());
    arguments.push("--param3".into());
    arguments.push("value3".into());
    if paramopts {
        arguments.push("--paramopt1".into());
    }
    arguments.push("--param4".into());
    arguments.push("value4".into());
    if paramopts {
        arguments.push("--paramopt2".into());
        arguments.push("value2".into());
    }
    arguments.push("some".into());
    arguments.push("more".into());
    arguments.push("arguments".into());
    arguments.push("--param-int=544".into());
    arguments.push("--param-bool=true".into());
    arguments.push("545".into());
    arguments.push("true".into());
    arguments
}

fn check_command(command: &Command) {
    // check command name
    assert_eq!(command.command(), "command");

    // check param
    assert_eq!(command.param("param1", "falsch"), "value1");
    assert_eq!(command.param("param2", "falsch"), "value2");
    assert_eq!(command.param("param3", "falsch"), "value3");
    assert_eq!(command.param("param4", "falsch"), "value4");
    assert_eq!(command.param("short-param1", "falsch"), "short-value1");

    // check parameter
    assert_eq!(command.parameter("param-int", 0), 544);
    assert_eq!(command.parameter("param-bool", false), true);

    // check option
    assert_eq!(command.option("option3"), false);

    // check arg
    assert_eq!(command.arg(0, "falsch"), "some");
    assert_eq!(command.arg(1, "falsch"), "more");
    assert_eq!(command.arg(2, "falsch"), "arguments");

    // check argument
    assert_eq!(command.argument(3, 0), 545);
    assert_eq!(command.argument(4, false), true);
}

fn args(list: &[&str]) -> Vec<String> {
    list.iter().map(|s| s.to_string()).collect()
}

#[test]
fn command_without_arguments() {
    let raw: Vec<String> = Vec::new();
    let command = CliBuilder::new().build(&raw);
    assert_eq!(command.command(), "");
    assert_eq!(command.parameters().len(), 0);
    assert_eq!(command.options().len(), 0);
    assert_eq!(command.arguments().len(), 0);
}

#[test]
fn last_parameter_without_value_is_option() {
    let raw = args(&["prog", "--verbose"]);
    let command = CliBuilder::new().build(&raw);
    assert_eq!(command.option("verbose"), true);
    assert_eq!(command.parameters().len(), 0);
    assert_eq!(command.options(), &vec!["verbose".to_string()]);
}

#[test]
fn paramopt_depends_on_next_argument() {
    let paramopts = ["level"];
    let raw = args(&["prog", "--level", "-x", "--level", "3"]);
    let command = CliBuilder::new().paramopt(&paramopts).build(&raw);
    assert_eq!(command.option("level"), true);
    // "-x" is a one-letter name and no listed option, so it takes the next
    // argument as its value
    assert_eq!(command.param("x", "none"), "--level");
    assert_eq!(command.param("level", "none"), "none");
    assert_eq!(command.parameters().len(), 1);
    assert_eq!(command.arg(0, "none"), "3");

    let raw = args(&["prog", "--level", "3"]);
    let command = CliBuilder::new().paramopt(&paramopts).build(&raw);
    assert_eq!(command.option("level"), false);
    assert_eq!(command.param("level", "none"), "3");
}

#[test]
fn letter_groups_skip_non_ascii() {
    let raw = args(&["prog", "-aäb", "-ä", "-é=1"]);
    let command = CliBuilder::new().build(&raw);
    assert_eq!(
        command.options(),
        &vec!["a".to_string(), "b".to_string()]
    );
    assert_eq!(command.param("é", "none"), "1");
}

#[test]
fn deprecated_constructors() {
    let raw = args(&["prog", "--flag", "file"]);
    let options = ["flag"];
    let with = Command::from(&raw, &options);
    assert_eq!(with.option("flag"), true);
    assert_eq!(with.arg(0, ""), "file");
    let without = Command::without_options(&raw);
    assert_eq!(without.option("flag"), false);
    assert_eq!(without.param("flag", ""), "file");
    assert_eq!(without.arg(0, "none"), "none");
    assert_eq!(without.argument(0, 7), 7);
    assert_eq!(without.parameter("flag", 7), 7);
}
