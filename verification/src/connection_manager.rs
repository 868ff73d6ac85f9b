//! The command line that starts the feed's connector program and logs it in.
//!
//! The library says which program is run with which arguments; running it is
//! left to the caller.

use vstd::prelude::*;
use vstd::string::StringExecFns;

verus! {

/// The kind of system that the connector is started on.
#[derive(Clone, Copy, Debug, PartialEq, Eq, Structural)]
pub enum Platform {
    Windows,
    Unix,
    Other,
}

/// A program and the arguments it is run with.
#[derive(Clone, Debug, PartialEq, Eq)]
pub struct Launch {
    pub program: String,
    pub arguments: Vec<String>,
}

/// The text of each argument.
pub open spec fn arguments_of(arguments: Seq<String>) -> Seq<Seq<char>> {
    Seq::new(arguments.len(), |i: int| arguments[i]@)
}

/// The arguments that log the connector in.
pub open spec fn login_arguments(
    product_id: Seq<char>,
    version: Seq<char>,
    username: Seq<char>,
    password: Seq<char>,
) -> Seq<Seq<char>> {
    seq![
        "-product"@,
        product_id,
        "-version"@,
        version,
        "-login"@,
        username,
        "-password"@,
        password,
        "-autoconnect"@,
        "-saveloginingo"@,
    ]
}

/// The arguments that the virtual display is run with, before the path of the
/// connector.
pub open spec fn display_arguments() -> Seq<Seq<char>> {
    seq!["-s"@, "-noreset"@, "a"@]
}

fn push_text(arguments: &mut Vec<String>, text: &str)
    ensures
        arguments_of(final(arguments)@) == arguments_of(old(arguments)@).push(text@),
{
    arguments.push(String::from_str(text));
}

fn push_login(
    arguments: &mut Vec<String>,
    product_id: &str,
    version: &str,
    username: &str,
    password: &str,
)
    ensures
        arguments_of(final(arguments)@) == arguments_of(old(arguments)@) + login_arguments(
            product_id@,
            version@,
            username@,
            password@,
        ),
{
    push_text(arguments, "-product");
    push_text(arguments, product_id);
    push_text(arguments, "-version");
    push_text(arguments, version);
    push_text(arguments, "-login");
    push_text(arguments, username);
    push_text(arguments, "-password");
    push_text(arguments, password);
    push_text(arguments, "-autoconnect");
    push_text(arguments, "-saveloginingo");
}

/// The command that starts the connector at `path` on Windows.
pub fn windows(
    product_id: &str,
    version: &str,
    path: &str,
    username: &str,
    password: &str,
) -> (command: Launch)
    ensures
        command.program@ == path@,
        arguments_of(command.arguments@) == login_arguments(
            product_id@,
            version@,
            username@,
            password@,
        ),
{
    let mut arguments: Vec<String> = Vec::new();
    push_login(&mut arguments, product_id, version, username, password);
    Launch { program: String::from_str(path), arguments }
}

/// The command that starts the connector at `path` on Unix, under a virtual
/// display.
pub fn unix(
    product_id: &str,
    version: &str,
    path: &str,
    username: &str,
    password: &str,
) -> (command: Launch)
    ensures
        command.program@ == "xvfb-run"@,
        arguments_of(command.arguments@) == display_arguments().push(path@) + login_arguments(
            product_id@,
            version@,
            username@,
            password@,
        ),
{
    let mut arguments: Vec<String> = Vec::new();
    push_text(&mut arguments, "-s");
    push_text(&mut arguments, "-noreset");
    push_text(&mut arguments, "a");
    push_text(&mut arguments, path);
    push_login(&mut arguments, product_id, version, username, password);
    Launch { program: String::from_str("xvfb-run"), arguments }
}

/// The command that starts the connector on `platform`; none on a platform
/// that is neither Windows nor Unix.
pub fn launch(
    platform: Platform,
    product_id: &str,
    version: &str,
    path: &str,
    username: &str,
    password: &str,
) -> (command: Option<Launch>)
    ensures
        match platform {
            Platform::Windows => command matches Some(command) && command.program@ == path@
                && arguments_of(command.arguments@) == login_arguments(
                product_id@,
                version@,
                username@,
                password@,
            ),
            Platform::Unix => command matches Some(command) && command.program@ == "xvfb-run"@
                && arguments_of(command.arguments@) == display_arguments().push(path@)
                + login_arguments(product_id@, version@, username@, password@),
            Platform::Other => command is None,
        },
{
    match platform {
        Platform::Windows => Some(windows(product_id, version, path, username, password)),
        Platform::Unix => Some(unix(product_id, version, path, username, password)),
        Platform::Other => None,
    }
}

} // verus!
