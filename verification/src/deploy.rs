//! What the deployment tool runs: the programs and arguments that build the
//! controller for the board, copy it there and start or stop it.

use vstd::prelude::*;
use vstd::string::*;

verus! {

/// What the tool is asked to do.
#[derive(Clone, Copy, Debug, PartialEq, Eq, Structural)]
pub enum SubCommand {
    /// Build the binary for the board
    Build,
    /// Upload the binary to the board
    Upload,
    /// Run the binary on the board
    Run,
    /// Kill the binary on the board
    Kill,
    /// Build, upload, enable execution, and run the binary on the board
    Dev,
    /// Upload and run the binary on the board
    Deploy,
}

/// The tool's arguments.
#[derive(Debug)]
pub struct Args {
    pub command: SubCommand,
    pub target: String,
    pub pi_url: String,
    pub pi_user: String,
    pub bin_name: String,
    pub release: bool,
}

/// One step of the tool.
#[derive(Clone, Copy, Debug, PartialEq, Eq, Structural)]
pub enum Actions {
    Build,
    Upload,
    EnableExecution,
    Run,
    Kill,
}

/// A program to start and the arguments to start it with.
#[derive(Debug)]
pub struct Invocation {
    pub program: String,
    pub args: Vec<String>,
}

impl Invocation {
    /// The program's name and its arguments as texts.
    pub open spec fn texts(self) -> (Seq<char>, Seq<Seq<char>>) {
        (self.program@, self.args@.map_values(|arg: String| arg@))
    }
}

/// The steps that a subcommand stands for, in the order in which they run.
pub open spec fn plan(command: SubCommand) -> Seq<Actions> {
    match command {
        SubCommand::Build => seq![Actions::Build],
        SubCommand::Upload => seq![Actions::Upload],
        SubCommand::Run => seq![Actions::EnableExecution, Actions::Run],
        SubCommand::Kill => seq![Actions::Kill],
        SubCommand::Dev => seq![
            Actions::Build,
            Actions::Kill,
            Actions::Upload,
            Actions::EnableExecution,
            Actions::Run,
        ],
        SubCommand::Deploy => seq![Actions::Upload, Actions::EnableExecution, Actions::Run],
    }
}

/// The steps that a subcommand stands for.
pub fn actions(command: SubCommand) -> (steps: Vec<Actions>)
    ensures
        steps@ == plan(command),
{
    let mut steps = Vec::new();
    match command {
        SubCommand::Build => {
            steps.push(Actions::Build);
        },
        SubCommand::Upload => {
            steps.push(Actions::Upload);
        },
        SubCommand::Run => {
            steps.push(Actions::EnableExecution);
            steps.push(Actions::Run);
        },
        SubCommand::Kill => {
            steps.push(Actions::Kill);
        },
        SubCommand::Dev => {
            steps.push(Actions::Build);
            steps.push(Actions::Kill);
            steps.push(Actions::Upload);
            steps.push(Actions::EnableExecution);
            steps.push(Actions::Run);
        },
        SubCommand::Deploy => {
            steps.push(Actions::Upload);
            steps.push(Actions::EnableExecution);
            steps.push(Actions::Run);
        },
    }
    assert(steps@ =~= plan(command));
    steps
}

/// The name of the build profile.
pub open spec fn profile(release: bool) -> Seq<char> {
    if release {
        "release"@
    } else {
        "debug"@
    }
}

/// The account on the board: the user, an at sign, the address.
pub fn ssh_address(pi_address: &str, pi_user: &str) -> (address: String)
    ensures
        address@ == pi_user@ + "@"@ + pi_address@,
{
    let mut address = String::from_str(pi_user);
    address.append("@");
    address.append(pi_address);
    address
}

/// Where the build leaves the binary: below `target/`, the target's
/// directory, then the profile's, then the binary's name.
pub fn file_name(target: &str, bin_name: &str, release: bool) -> (path: String)
    ensures
        path@ == "target/"@ + target@ + "/"@ + profile(release) + "/"@ + bin_name@,
{
    let mut path = String::from_str("target/");
    path.append(target);
    path.append("/");
    path.append(
        if release {
            "release"
        } else {
            "debug"
        },
    );
    path.append("/");
    path.append(bin_name);
    path
}

/// Where the binary lies on the board: in `/tmp/`.
pub fn pi_bin_path(bin_name: &str) -> (path: String)
    ensures
        path@ == "/tmp/"@ + bin_name@,
{
    let mut path = String::from_str("/tmp/");
    path.append(bin_name);
    path
}

/// The last argument of a build: the flag for release builds, an empty
/// argument otherwise.
pub open spec fn profile_flag(release: bool) -> Seq<char> {
    if release {
        "--release"@
    } else {
        ""@
    }
}

/// Collects a program and its arguments.
fn invocation(program: &str, words: Vec<String>) -> (invocation: Invocation)
    ensures
        invocation.texts() == (program@, words@.map_values(|arg: String| arg@)),
{
    Invocation { program: String::from_str(program), args: words }
}

/// The cross build of the binary for `target`.
pub fn build(target: &str, bin_name: &str, release: bool) -> (invocation: Invocation)
    ensures
        invocation.texts() == (
            "cross"@,
            seq!["build"@, "--target"@, target@, "-p"@, bin_name@, profile_flag(release)],
        ),
{
    let mut words = Vec::new();
    words.push(String::from_str("build"));
    words.push(String::from_str("--target"));
    words.push(String::from_str(target));
    words.push(String::from_str("-p"));
    words.push(String::from_str(bin_name));
    words.push(
        String::from_str(
            if release {
                "--release"
            } else {
                ""
            },
        ),
    );
    assert(words@.map_values(|arg: String| arg@) =~= seq![
        "build"@,
        "--target"@,
        target@,
        "-p"@,
        bin_name@,
        profile_flag(release),
    ]);
    invocation("cross", words)
}

/// The copy of the built binary to its place on the board.
pub fn upload(target: &str, pi_address: &str, bin_name: &str, release: bool) -> (invocation:
    Invocation)
    ensures
        invocation.texts() == (
            "scp"@,
            seq![
                "target/"@ + target@ + "/"@ + profile(release) + "/"@ + bin_name@,
                pi_address@ + ":"@ + ("/tmp/"@ + bin_name@),
            ],
        ),
{
    let file_path = file_name(target, bin_name, release);
    let bin_path = pi_bin_path(bin_name);
    let mut target_path = String::from_str(pi_address);
    target_path.append(":");
    target_path.append(bin_path.as_str());

    let mut words = Vec::new();
    words.push(file_path);
    words.push(target_path);
    assert(words@.map_values(|arg: String| arg@) =~= seq![
        "target/"@ + target@ + "/"@ + profile(release) + "/"@ + bin_name@,
        pi_address@ + ":"@ + ("/tmp/"@ + bin_name@),
    ]);
    invocation("scp", words)
}

/// The remote command that makes the binary executable.
pub fn enable_execution(pi_address: &str, pi_bin_path: &str) -> (invocation: Invocation)
    ensures
        invocation.texts() == ("ssh"@, seq![pi_address@, "chmod"@, "+x"@, pi_bin_path@]),
{
    let mut words = Vec::new();
    words.push(String::from_str(pi_address));
    words.push(String::from_str("chmod"));
    words.push(String::from_str("+x"));
    words.push(String::from_str(pi_bin_path));
    assert(words@.map_values(|arg: String| arg@) =~= seq![
        pi_address@,
        "chmod"@,
        "+x"@,
        pi_bin_path@,
    ]);
    invocation("ssh", words)
}

/// The remote command that starts the binary.
pub fn run(pi_address: &str, pi_bin_path: &str) -> (invocation: Invocation)
    ensures
        invocation.texts() == ("ssh"@, seq![pi_address@, pi_bin_path@]),
{
    let mut words = Vec::new();
    words.push(String::from_str(pi_address));
    words.push(String::from_str(pi_bin_path));
    assert(words@.map_values(|arg: String| arg@) =~= seq![pi_address@, pi_bin_path@]);
    invocation("ssh", words)
}

/// The remote command that stops the binary.
pub fn kill(pi_address: &str, pi_bin_path: &str) -> (invocation: Invocation)
    ensures
        invocation.texts() == ("ssh"@, seq![pi_address@, "killall"@, pi_bin_path@]),
{
    let mut words = Vec::new();
    words.push(String::from_str(pi_address));
    words.push(String::from_str("killall"));
    words.push(String::from_str(pi_bin_path));
    assert(words@.map_values(|arg: String| arg@) =~= seq![pi_address@, "killall"@, pi_bin_path@]);
    invocation("ssh", words)
}

impl Args {
    /// The account on the board that these arguments name.
    pub open spec fn account(self) -> Seq<char> {
        self.pi_user@ + "@"@ + self.pi_url@
    }

    /// The place of the binary on the board that these arguments name.
    pub open spec fn remote_path(self) -> Seq<char> {
        "/tmp/"@ + self.bin_name@
    }

    /// What one step runs under these arguments.
    pub open spec fn step(self, action: Actions) -> (Seq<char>, Seq<Seq<char>>) {
        match action {
            Actions::Build => (
                "cross"@,
                seq![
                    "build"@,
                    "--target"@,
                    self.target@,
                    "-p"@,
                    self.bin_name@,
                    profile_flag(self.release),
                ],
            ),
            Actions::Upload => (
                "scp"@,
                seq![
                    "target/"@ + self.target@ + "/"@ + profile(self.release) + "/"@
                        + self.bin_name@,
                    self.account() + ":"@ + self.remote_path(),
                ],
            ),
            Actions::EnableExecution => (
                "ssh"@,
                seq![self.account(), "chmod"@, "+x"@, self.remote_path()],
            ),
            Actions::Run => ("ssh"@, seq![self.account(), self.remote_path()]),
            Actions::Kill => ("ssh"@, seq![self.account(), "killall"@, self.remote_path()]),
        }
    }

    /// The program and arguments of one step.
    pub fn invocation(&self, action: Actions) -> (invocation: Invocation)
        ensures
            invocation.texts() == self.step(action),
    {
        match action {
            Actions::Build => build(self.target.as_str(), self.bin_name.as_str(), self.release),
            Actions::Upload => upload(
                self.target.as_str(),
                ssh_address(self.pi_url.as_str(), self.pi_user.as_str()).as_str(),
                self.bin_name.as_str(),
                self.release,
            ),
            Actions::EnableExecution => enable_execution(
                ssh_address(self.pi_url.as_str(), self.pi_user.as_str()).as_str(),
                pi_bin_path(self.bin_name.as_str()).as_str(),
            ),
            Actions::Run => run(
                ssh_address(self.pi_url.as_str(), self.pi_user.as_str()).as_str(),
                pi_bin_path(self.bin_name.as_str()).as_str(),
            ),
            Actions::Kill => kill(
                ssh_address(self.pi_url.as_str(), self.pi_user.as_str()).as_str(),
                pi_bin_path(self.bin_name.as_str()).as_str(),
            ),
        }
    }
}

} // verus!
