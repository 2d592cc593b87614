use clap::{App, AppSettings, Arg, ArgGroup, Shell, SubCommand};

#[test]
fn builder_fields() {
    let app = App::new("one")
        .name("two")
        .author("me")
        .about("does things")
        .long_about("does many things")
        .version("1.0")
        .long_version("1.0.0")
        .before_help("before")
        .after_help("after")
        .help_template("{usage}")
        .set_term_width(80)
        .max_term_width(100)
        .display_order(3);
    assert_eq!(app.get_name(), "two");
    assert_eq!(app.author, Some("me".to_string()));
    assert_eq!(app.about, Some("does things".to_string()));
    assert_eq!(app.long_about, Some("does many things".to_string()));
    assert_eq!(app.version, Some("1.0".to_string()));
    assert_eq!(app.long_version, Some("1.0.0".to_string()));
    assert_eq!(app.before_help, Some("before".to_string()));
    assert_eq!(app.after_help, Some("after".to_string()));
    assert_eq!(app.help_template, Some("{usage}".to_string()));
    assert_eq!(app.term_width, Some(80));
    assert_eq!(app.max_term_width, Some(100));
    assert_eq!(app.display_order, 3);
}

#[test]
fn deprecated_aliases_set_the_same_fields() {
    let app = App::new("p").help("text").usage("p [x]").template("t").help_message("hm").version_message("vm");
    assert_eq!(app.override_help, Some("text".to_string()));
    assert_eq!(app.override_usage, Some("p [x]".to_string()));
    assert_eq!(app.help_template, Some("t".to_string()));
    assert_eq!(app.help_message, Some("hm".to_string()));
    assert_eq!(app.version_message, Some("vm".to_string()));
    assert_eq!(App::new("p").help_short("--x").help_short, Some('x'));
    assert_eq!(App::new("p").help_short("--").help_short, Some('h'));
    assert_eq!(App::new("p").version_short("-v").version_short, Some('v'));
    assert_eq!(App::new("p").version_short("").version_short, Some('V'));
}

#[test]
fn settings_on_and_off() {
    let app = App::new("p")
        .setting(AppSettings::WaitOnError)
        .settings(&[AppSettings::NoBinaryName, AppSettings::WaitOnError])
        .global_setting(AppSettings::GlobalVersion);
    assert!(app.is_set(AppSettings::NoBinaryName));
    assert!(app.is_set(AppSettings::GlobalVersion));
    assert!(!app.is_set(AppSettings::SubcommandRequired));
    assert_eq!(
        app.settings,
        vec![AppSettings::WaitOnError, AppSettings::NoBinaryName, AppSettings::WaitOnError, AppSettings::GlobalVersion]
    );
    let app = app.unset_setting(AppSettings::WaitOnError);
    assert_eq!(app.settings, vec![AppSettings::WaitOnError, AppSettings::NoBinaryName, AppSettings::GlobalVersion]);
    let app = app.unset_settings(&[AppSettings::WaitOnError, AppSettings::NoBinaryName]);
    assert_eq!(app.settings, vec![AppSettings::GlobalVersion]);
    assert!(app.is_set(AppSettings::GlobalVersion));
    let mut app = App::new("q").global_settings(&[AppSettings::DisableVersion]);
    app.setb(AppSettings::DisableHelpFlags);
    assert_eq!(app.global_settings, vec![AppSettings::DisableVersion]);
    assert_eq!(app.settings, vec![AppSettings::DisableVersion, AppSettings::DisableHelpFlags]);
}

#[test]
fn args_groups_aliases_and_subcommands() {
    let mut app = App::new("p")
        .arg(Arg::new("a"))
        .args(&[Arg::new("b").long("bee"), Arg::new("c")])
        .alias("x")
        .aliases(&["y", "z"])
        .visible_alias("v")
        .visible_aliases(&["w"])
        .group(ArgGroup::new("g1"))
        .groups(vec![ArgGroup::new("g2"), ArgGroup::new("g3")])
        .subcommand(SubCommand::new("s1"))
        .subcommands(vec![SubCommand::with_name("s2")]);
    app._argb(Arg::new("d"));
    let names: Vec<&str> = app.args.iter().map(|a| a.name.as_str()).collect();
    assert_eq!(names, vec!["a", "b", "c", "d"]);
    assert_eq!(app.args[1].long, Some("bee".to_string()));
    assert_eq!(app.aliases, vec!["x", "y", "z"]);
    assert_eq!(app.visible_aliases, vec!["v", "w"]);
    assert_eq!(app.groups.len(), 3);
    assert_eq!(app.subcommands[1].get_name(), "s2");
}

#[test]
fn build_adds_help_subcommand_and_spreads_settings() {
    let mut app = App::new("p")
        .version("2.0")
        .setting(AppSettings::GlobalVersion)
        .setting(AppSettings::VersionlessSubcommands)
        .subcommand(App::new("run"));
    app._build();
    assert_eq!(app.subcommands.len(), 2);
    assert_eq!(app.subcommands[0].version, Some("2.0".to_string()));
    assert_eq!(app.subcommands[0].settings, vec![AppSettings::DisableVersion]);
    assert_eq!(app.subcommands[1].get_name(), "help");
    let mut bare = App::new("p");
    bare._build();
    assert!(bare.subcommands.is_empty());
}

#[test]
fn arg_builders() {
    let a = Arg::new("x")
        .short('x')
        .long("ex")
        .takes_value(true)
        .min_values(2)
        .max_values(4)
        .value_delimiter(':')
        .required(true)
        .multiple(true)
        .global(true)
        .conflicts_with("y")
        .requires_arg("z")
        .default_value("d");
    assert_eq!(a.short, Some('x'));
    assert_eq!(a.long, Some("ex".to_string()));
    assert_eq!((a.min_values, a.max_values), (2, Some(4)));
    assert_eq!(a.delimiter, Some(':'));
    assert!(a.required && a.multiple && a.global && a.takes_value);
    assert_eq!(a.conflicts, vec!["y"]);
    assert_eq!(a.requires, vec!["z"]);
    assert_eq!(a.default_value, Some("d".to_string()));
    let b = Arg::new("n").index(1).number_of_values(2);
    assert_eq!((b.index, b.min_values, b.max_values), (Some(1), 2, Some(2)));
    assert_eq!(Arg::new("g").multiple_values(true).max_values, None);
    let s = Shell::Zsh;
    assert_eq!(s, Shell::Zsh);
}

#[test]
fn mut_helpers_replace_first_match() {
    let app = App::new("p")
        .arg(Arg::new("a"))
        .arg(Arg::new("b"))
        .mut_arg("b", |a| a.long("bee"))
        .mut_arg("zzz", |a| a.long("never"));
    assert_eq!(app.args[0].long, None);
    assert_eq!(app.args[1].long, Some("bee".to_string()));
    let app = app
        .group(ArgGroup::new("g"))
        .mut_group("g", |g| g.required(true))
        .subcommand(App::new("s"))
        .mut_subcommand("s", |s| s.about("sub"));
    assert!(app.groups[0].required);
    assert_eq!(app.subcommands[0].about, Some("sub".to_string()));
}

#[test]
fn settings_by_name() {
    assert_eq!(AppSettings::from_name("WaitOnError"), Some(AppSettings::WaitOnError));
    assert_eq!(
        AppSettings::from_name("PropagateGlobalValuesDown"),
        Some(AppSettings::PropagateGlobalValuesDown)
    );
    assert_eq!(AppSettings::from_name("waitonerror"), None);
}

#[test]
fn well_formed_trees() {
    let good = App::new("p")
        .arg(Arg::new("v").long("verbose").global(true))
        .arg(Arg::new("first").index(1))
        .arg(Arg::new("rest").index(2).multiple_values(true))
        .group(ArgGroup::new("g").arg("v").arg("first"))
        .subcommand(App::new("s").arg(Arg::new("v").short('v')).arg(Arg::new("x").index(1)));
    assert!(good.is_well_formed());
    assert!(!App::new("p").arg(Arg::new("a")).arg(Arg::new("a")).is_well_formed());
    assert!(!App::new("p").arg(Arg::new("a").index(1)).arg(Arg::new("b").index(3)).is_well_formed());
    assert!(!App::new("p")
        .arg(Arg::new("a").index(1).multiple_values(true))
        .arg(Arg::new("b").index(2))
        .is_well_formed());
    assert!(!App::new("p").group(ArgGroup::new("g").arg("missing")).is_well_formed());
    let bad_child = App::new("p").subcommand(App::new("s").arg(Arg::new("a").index(2)));
    assert!(!bad_child.is_well_formed());
}
