use pi_grow::deploy::{
    actions, build, enable_execution, file_name, kill, pi_bin_path, run, ssh_address, upload,
    Actions, Args, SubCommand,
};

fn args(command: SubCommand, release: bool) -> Args {
    Args {
        command,
        target: "aarch64-unknown-linux-gnu".to_string(),
        pi_url: "pi-grow.local".to_string(),
        pi_user: "shaun".to_string(),
        bin_name: "pi".to_string(),
        release,
    }
}

#[test]
fn subcommands_expand_to_their_steps() {
    assert_eq!(actions(SubCommand::Build), vec![Actions::Build]);
    assert_eq!(actions(SubCommand::Upload), vec![Actions::Upload]);
    assert_eq!(actions(SubCommand::Run), vec![Actions::EnableExecution, Actions::Run]);
    assert_eq!(actions(SubCommand::Kill), vec![Actions::Kill]);
    assert_eq!(
        actions(SubCommand::Dev),
        vec![Actions::Build, Actions::Kill, Actions::Upload, Actions::EnableExecution, Actions::Run]
    );
    assert_eq!(
        actions(SubCommand::Deploy),
        vec![Actions::Upload, Actions::EnableExecution, Actions::Run]
    );
}

#[test]
fn ssh_address_joins_user_and_host() {
    assert_eq!(ssh_address("pi-grow.local", "shaun"), "shaun@pi-grow.local");
    assert_eq!(ssh_address("", ""), "@");
}

#[test]
fn file_name_depends_on_the_profile() {
    assert_eq!(
        file_name("aarch64-unknown-linux-gnu", "pi", false),
        "target/aarch64-unknown-linux-gnu/debug/pi"
    );
    assert_eq!(
        file_name("aarch64-unknown-linux-gnu", "pi", true),
        "target/aarch64-unknown-linux-gnu/release/pi"
    );
}

#[test]
fn pi_bin_path_is_below_tmp() {
    assert_eq!(pi_bin_path("pi"), "/tmp/pi");
}

#[test]
fn build_invocation() {
    let debug = build("aarch64-unknown-linux-gnu", "pi", false);
    assert_eq!(debug.program, "cross");
    assert_eq!(debug.args, vec!["build", "--target", "aarch64-unknown-linux-gnu", "-p", "pi", ""]);
    let release = build("aarch64-unknown-linux-gnu", "pi", true);
    assert_eq!(
        release.args,
        vec!["build", "--target", "aarch64-unknown-linux-gnu", "-p", "pi", "--release"]
    );
}

#[test]
fn upload_invocation() {
    let copy = upload("aarch64-unknown-linux-gnu", "shaun@pi-grow.local", "pi", true);
    assert_eq!(copy.program, "scp");
    assert_eq!(
        copy.args,
        vec!["target/aarch64-unknown-linux-gnu/release/pi", "shaun@pi-grow.local:/tmp/pi"]
    );
}

#[test]
fn remote_invocations() {
    let chmod = enable_execution("shaun@pi-grow.local", "/tmp/pi");
    assert_eq!(chmod.program, "ssh");
    assert_eq!(chmod.args, vec!["shaun@pi-grow.local", "chmod", "+x", "/tmp/pi"]);
    let start = run("shaun@pi-grow.local", "/tmp/pi");
    assert_eq!(start.program, "ssh");
    assert_eq!(start.args, vec!["shaun@pi-grow.local", "/tmp/pi"]);
    let stop = kill("shaun@pi-grow.local", "/tmp/pi");
    assert_eq!(stop.program, "ssh");
    assert_eq!(stop.args, vec!["shaun@pi-grow.local", "killall", "/tmp/pi"]);
}

#[test]
fn steps_use_the_arguments() {
    let args = args(SubCommand::Dev, false);
    let planned: Vec<(String, Vec<String>)> = actions(args.command)
        .into_iter()
        .map(|action| {
            let invocation = args.invocation(action);
            (invocation.program, invocation.args)
        })
        .collect();
    let words = |words: &[&str]| words.iter().map(|word| word.to_string()).collect::<Vec<_>>();
    assert_eq!(
        planned,
        vec![
            (
                "cross".to_string(),
                words(&["build", "--target", "aarch64-unknown-linux-gnu", "-p", "pi", ""])
            ),
            ("ssh".to_string(), words(&["shaun@pi-grow.local", "killall", "/tmp/pi"])),
            (
                "scp".to_string(),
                words(&["target/aarch64-unknown-linux-gnu/debug/pi", "shaun@pi-grow.local:/tmp/pi"])
            ),
            ("ssh".to_string(), words(&["shaun@pi-grow.local", "chmod", "+x", "/tmp/pi"])),
            ("ssh".to_string(), words(&["shaun@pi-grow.local", "/tmp/pi"])),
        ]
    );
}
