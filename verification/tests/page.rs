use clap_show::{
    anchor, build_cmd, extract_subcommands, fmt_cmd, help_command, ArgumentNode, CommandNode,
    FmtArg, FmtCmd, FmtCommands,
};

fn arg(id: &str) -> ArgumentNode {
    ArgumentNode {
        id: id.to_string(),
        short: None,
        long: None,
        value_names: None,
        takes_values: false,
        positional: false,
        required: false,
        max_values: None,
        help: None,
        long_help: None,
        hidden: false,
    }
}

fn command(name: &str) -> CommandNode {
    CommandNode {
        name: name.to_string(),
        about: None,
        long_about: None,
        usage: format!("Usage: {}", name),
        hidden: false,
        before_help: None,
        after_help: None,
        arguments: Vec::new(),
        subcommands: Vec::new(),
    }
}

fn chains(records: &[FmtCommands]) -> Vec<String> {
    records.iter().map(|r| r.cmd_chain.clone()).collect()
}

fn app_with_build() -> CommandNode {
    let mut target = arg("target");
    target.positional = true;
    target.takes_values = true;
    target.required = true;
    target.help = Some("What to build".to_string());

    let mut verbose = arg("verbose");
    verbose.short = Some('v');
    verbose.long = Some("verbose".to_string());
    verbose.help = Some("Say more".to_string());

    let mut build = command("build");
    build.about = Some("Builds a target".to_string());
    build.usage = "Usage: app build [OPTIONS] <TARGET>".to_string();
    build.arguments = vec![target, verbose];

    let mut app = command("app");
    app.about = Some("An application".to_string());
    app.usage = "Usage: app <COMMAND>".to_string();
    app.subcommands = vec![build];
    app
}

#[test]
fn description_prefers_the_long_text() {
    let mut cmd = command("app");
    assert_eq!(fmt_cmd(&cmd, Vec::new()).description, "");
    cmd.about = Some("short".to_string());
    assert_eq!(fmt_cmd(&cmd, Vec::new()).description, "short");
    cmd.long_about = Some("long".to_string());
    assert_eq!(fmt_cmd(&cmd, Vec::new()).description, "long");
}

#[test]
fn help_text_prefers_the_long_help() {
    let mut a = arg("a");
    a.short = Some('a');
    let mut cmd = command("app");
    cmd.arguments = vec![a.clone()];
    assert_eq!(fmt_cmd(&cmd, Vec::new()).options[0].description, "");
    a.help = Some("short".to_string());
    cmd.arguments = vec![a.clone()];
    assert_eq!(fmt_cmd(&cmd, Vec::new()).options[0].description, "short");
    a.long_help = Some("long".to_string());
    cmd.arguments = vec![a];
    assert_eq!(fmt_cmd(&cmd, Vec::new()).options[0].description, "long");
}

#[test]
fn record_holds_title_usage_and_chain() {
    let mut cmd = command("build");
    cmd.usage = "Usage: app build [OPTIONS]".to_string();
    let record = fmt_cmd(&cmd, vec!["app".to_string()]);
    assert_eq!(record.title, "build");
    assert_eq!(record.usage, "build [OPTIONS]");
    assert_eq!(record.cmd_chain, "app build");
    assert!(record.commands.is_empty());
    assert!(record.arguments.is_empty());
    assert!(record.options.is_empty());
}

#[test]
fn arguments_are_parted_by_position_and_hidden_ones_dropped() {
    let mut first = arg("first");
    first.positional = true;
    first.takes_values = true;
    first.required = true;
    let mut opt = arg("opt");
    opt.long = Some("opt".to_string());
    let mut secret = arg("secret");
    secret.long = Some("secret".to_string());
    secret.hidden = true;
    let mut secret_pos = arg("hush");
    secret_pos.positional = true;
    secret_pos.takes_values = true;
    secret_pos.hidden = true;
    let mut second = arg("second");
    second.positional = true;
    second.takes_values = true;

    let mut cmd = command("app");
    cmd.arguments = vec![first, opt, secret, secret_pos, second];
    let record = fmt_cmd(&cmd, Vec::new());
    assert_eq!(
        record.arguments,
        vec![
            FmtArg { flags: "   <FIRST>".to_string(), description: String::new() },
            FmtArg { flags: "   [SECOND]".to_string(), description: String::new() },
        ]
    );
    assert_eq!(
        record.options,
        vec![FmtArg { flags: "    --opt".to_string(), description: String::new() }]
    );
}

#[test]
fn hidden_argument_may_be_malformed() {
    let mut odd = arg("odd");
    odd.takes_values = true;
    odd.value_names = Some(Vec::new());
    odd.hidden = true;
    let mut cmd = command("app");
    cmd.arguments = vec![odd.clone()];
    assert!(cmd.is_supported());
    assert!(fmt_cmd(&cmd, Vec::new()).options.is_empty());
    odd.hidden = false;
    cmd.arguments = vec![odd];
    assert!(!cmd.is_supported());
    assert!(!cmd.is_supported_throughout());
}

#[test]
fn free_text_around_the_help_is_not_supported() {
    let mut cmd = command("app");
    assert!(cmd.is_supported());
    cmd.before_help = Some("before".to_string());
    assert!(!cmd.is_supported());
    cmd.before_help = None;
    cmd.after_help = Some("after".to_string());
    assert!(!cmd.is_supported());
}

#[test]
fn support_is_asked_of_visible_commands_only() {
    let mut bad = command("bad");
    bad.after_help = Some("after".to_string());
    let mut mid = command("mid");
    mid.subcommands = vec![bad];
    let mut root = command("root");
    root.subcommands = vec![mid];
    assert!(root.is_supported());
    assert!(!root.is_supported_throughout());
    root.subcommands[0].hidden = true;
    assert!(root.is_supported_throughout());
    root.subcommands[0].hidden = false;
    root.subcommands[0].subcommands[0].hidden = true;
    assert!(root.is_supported_throughout());
}

#[test]
fn summaries_list_visible_subcommands_with_short_descriptions() {
    let mut one = command("one");
    one.about = Some("first".to_string());
    one.long_about = Some("the first of them".to_string());
    let two = command("two");
    let mut three = command("three");
    three.hidden = true;
    let mut root = command("root");
    root.subcommands = vec![one, two, three];
    assert_eq!(
        fmt_cmd(&root, Vec::new()).commands,
        vec![
            FmtCmd { name: "one".to_string(), description: "first".to_string() },
            FmtCmd { name: "two".to_string(), description: String::new() },
        ]
    );
}

#[test]
fn grandchild_chain_and_anchor() {
    let b = command("B");
    let mut a = command("A");
    a.subcommands = vec![b];
    let mut root = command("root");
    root.subcommands = vec![a];
    let page = build_cmd(&root);
    assert_eq!(chains(&page.subcommands), vec!["root A", "root A B"]);
    assert_eq!(page.main.cmd_chain, "root");
    assert_eq!(anchor(&page.subcommands[1].cmd_chain), "root-A-B");
}

#[test]
fn descendants_come_parents_first_in_declaration_order() {
    let mut a = command("a");
    a.subcommands = vec![command("a1"), command("a2")];
    let mut b = command("b");
    b.subcommands = vec![command("b1")];
    let mut root = command("r");
    root.subcommands = vec![a, b, command("c")];
    let page = help_command(&root);
    assert_eq!(
        chains(&page.subcommands),
        vec!["r a", "r a a1", "r a a2", "r b", "r b b1", "r c"]
    );
}

#[test]
fn each_chain_extends_the_chain_of_the_parent() {
    let mut a = command("a");
    a.subcommands = vec![command("a1")];
    let mut root = command("r");
    root.subcommands = vec![a];
    let page = build_cmd(&root);
    let parent = &page.subcommands[0];
    let child = &page.subcommands[1];
    assert_eq!(parent.cmd_chain, format!("{} {}", page.main.cmd_chain, parent.title));
    assert_eq!(child.cmd_chain, format!("{} {}", parent.cmd_chain, child.title));
}

#[test]
fn app_with_build_subcommand() {
    let page = help_command(&app_with_build());
    let mut toc = vec![page.main.cmd_chain.clone()];
    toc.extend(chains(&page.subcommands));
    assert_eq!(toc, vec!["app", "app build"]);

    assert_eq!(page.main.title, "app");
    assert_eq!(page.main.usage, "<COMMAND>");
    assert_eq!(page.main.description, "An application");
    assert_eq!(
        page.main.commands,
        vec![FmtCmd { name: "build".to_string(), description: "Builds a target".to_string() }]
    );

    let build = &page.subcommands[0];
    assert_eq!(build.title, "build");
    assert_eq!(build.usage, "build [OPTIONS] <TARGET>");
    assert_eq!(build.arguments.len(), 1);
    assert!(build.arguments[0].flags.contains("<TARGET>"));
    assert_eq!(build.arguments[0].flags, "   <TARGET>");
    assert_eq!(build.arguments[0].description, "What to build");
    assert_eq!(
        build.options,
        vec![FmtArg { flags: "-v, --verbose".to_string(), description: "Say more".to_string() }]
    );
}

#[test]
fn hidden_subcommand_appears_nowhere() {
    let mut deep = command("deep");
    deep.subcommands = vec![command("deeper")];
    let mut internal = command("internal");
    internal.hidden = true;
    internal.subcommands = vec![deep];
    let mut root = command("root");
    root.subcommands = vec![command("shown"), internal, command("also")];

    let page = help_command(&root);
    assert_eq!(chains(&page.subcommands), vec!["root shown", "root also"]);
    assert!(page.subcommands.iter().all(|r| !r.cmd_chain.contains("internal")));
    assert!(page.subcommands.iter().all(|r| !r.cmd_chain.contains("deep")));
    let listed: Vec<String> = page.main.commands.iter().map(|c| c.name.clone()).collect();
    assert_eq!(listed, vec!["shown", "also"]);
}

#[test]
fn hidden_root_is_still_shown() {
    let mut root = command("root");
    root.hidden = true;
    root.subcommands = vec![command("a")];
    let page = build_cmd(&root);
    assert_eq!(page.main.title, "root");
    assert_eq!(chains(&page.subcommands), vec!["root a"]);
}

#[test]
fn siblings_of_one_name_are_both_shown() {
    let mut root = command("root");
    let mut twin = command("twin");
    twin.about = Some("second".to_string());
    root.subcommands = vec![command("twin"), twin];
    let page = build_cmd(&root);
    assert_eq!(chains(&page.subcommands), vec!["root twin", "root twin"]);
    assert_eq!(page.subcommands[1].description, "second");
}

#[test]
fn command_without_subcommands_has_an_empty_list() {
    let page = build_cmd(&command("solo"));
    assert!(page.subcommands.is_empty());
    assert_eq!(page.main.cmd_chain, "solo");
}

#[test]
fn extract_appends_behind_what_is_there() {
    let mut root = command("root");
    root.subcommands = vec![command("a")];
    let mut out = vec![fmt_cmd(&command("kept"), Vec::new())];
    extract_subcommands(&root, &mut out, vec!["top".to_string()]);
    assert_eq!(chains(&out), vec!["kept", "top root a"]);
}

#[test]
fn building_twice_gives_the_same_page() {
    let tree = app_with_build();
    assert_eq!(help_command(&tree), help_command(&tree));
    assert_eq!(build_cmd(&tree), help_command(&tree));
}

#[test]
fn names_with_spaces_are_kept_in_the_chain() {
    let mut root = command("my app");
    root.subcommands = vec![command("do it")];
    let page = build_cmd(&root);
    assert_eq!(page.subcommands[0].cmd_chain, "my app do it");
    assert_eq!(anchor(&page.subcommands[0].cmd_chain), "my-app-do-it");
}
