use mber::help::help_text;
use mber::new_command::validate_application_name;

#[test]
fn help_command_works() {
    let stdout = help_text("0.1.7");

    assert_eq!(stdout.contains("unknown command. Available options are:"), false);

    [
        "Usage: mber <command (Default: help)>",
        "mber init | new                    # Sets up the initial ember folder structure",
        "mber serve | server                # Starts your ember development server [alias: \"mber s\"]",
        "mber build | b                     # Builds your ember application and outputs to /dist folder",
        "mber console | c                   # Boots your ember application with DOM in a node.js repl",
        "mber test | t                      # Runs your ember tests (--server to run them in browser)",
        "mber generate | g [type] [name]    # Generate ember files for certain abstraction type",
        "mber delete | d [type] [name]      # Remove ember files for certain abstraction type",
    ]
    .iter()
    .for_each(|string| {
        assert_eq!(stdout.contains(string), true);
    })
}

#[test]
fn new_command_errors_when_no_application_name() {
    let result = validate_application_name(None);

    assert_eq!(result.is_ok(), false);
    assert_eq!(
        result
            .unwrap_err()
            .contains("You forgot to include an application name! Example: mber init example-app"),
        true
    );

    assert_eq!(validate_application_name(Some("example-app")), Ok("example-app"));
}
