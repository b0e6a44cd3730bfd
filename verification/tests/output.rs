use env_swap::output::generate_powershell_command;

#[test]
fn test_generate_powershell_command_simple() {
    let command = generate_powershell_command("MY_VAR", "hello_world");
    assert_eq!(command, "$Env:MY_VAR = 'hello_world'");
}

#[test]
fn test_generate_powershell_command_with_single_quote() {
    let command = generate_powershell_command("API_SECRET", "it's_a_secret");
    assert_eq!(command, "$Env:API_SECRET = 'it''s_a_secret'");
}

#[test]
fn test_generate_powershell_command_with_multiple_quotes() {
    let command = generate_powershell_command("MESSAGE", "Here's Johnny's car!");
    assert_eq!(command, "$Env:MESSAGE = 'Here''s Johnny''s car!'");
}

#[test]
fn test_generate_powershell_command_empty_value() {
    let command = generate_powershell_command("EMPTY_VAR", "");
    assert_eq!(command, "$Env:EMPTY_VAR = ''");
}

#[test]
fn test_generate_powershell_command_no_value_change() {
    let command = generate_powershell_command("NO_SPECIAL_CHARS", "azAZ09-_. /");
    assert_eq!(command, "$Env:NO_SPECIAL_CHARS = 'azAZ09-_. /'");
}
