use clap::{App, AppSettings, Arg, ArgGroup, ErrorKind};

fn toks(v: &[&str]) -> Vec<String> {
    v.iter().map(|s| s.to_string()).collect()
}

fn strs(v: &[&str]) -> Vec<String> {
    toks(v)
}

fn abc_app() -> App {
    App::new("myprog")
        .arg(Arg::new("a").short('a'))
        .arg(Arg::new("b").short('b'))
        .arg(Arg::new("c").short('c').number_of_values(1))
}

#[test]
fn short_flag_occurs_once_without_values() {
    let app = App::new("myprog").arg(Arg::new("debug").short('d'));
    let m = app.get_matches_from_safe(toks(&["myprog", "-d"])).unwrap();
    assert!(m.is_present("debug"));
    assert_eq!(m.occurrences_of("debug"), 1);
    assert_eq!(m.values_of("debug"), Some(Vec::new()));
    assert_eq!(m.value_of("debug"), None);
}

#[test]
fn long_option_with_attached_value() {
    let app = App::new("myprog").arg(Arg::new("config").long("config").takes_value(true));
    let m = app.get_matches_from_safe(toks(&["myprog", "--config=file.txt"])).unwrap();
    assert_eq!(m.values_of("config"), Some(strs(&["file.txt"])));
    assert_eq!(m.occurrences_of("config"), 1);
}

#[test]
fn cluster_value_from_next_token() {
    let m = abc_app().get_matches_from_safe(toks(&["myprog", "-abc", "42"])).unwrap();
    assert_eq!(m.occurrences_of("a"), 1);
    assert_eq!(m.occurrences_of("b"), 1);
    assert_eq!(m.values_of("c"), Some(strs(&["42"])));
}

#[test]
fn cluster_value_attached() {
    let m = abc_app().get_matches_from_safe(toks(&["myprog", "-ac42"])).unwrap();
    assert_eq!(m.values_of("c"), Some(strs(&["42"])));
    let m = abc_app().get_matches_from_safe(toks(&["myprog", "-c=7"])).unwrap();
    assert_eq!(m.values_of("c"), Some(strs(&["7"])));
}

#[test]
fn cluster_with_empty_attached_value_fails() {
    let e = abc_app().get_matches_from_safe(toks(&["myprog", "-c="])).unwrap_err();
    assert_eq!(e.kind, ErrorKind::TooFewValues);
    assert_eq!(e.info, strs(&["c"]));
}

fn group_app() -> App {
    App::new("myprog")
        .arg(Arg::new("A").long("a"))
        .arg(Arg::new("B").long("b"))
        .arg(Arg::new("C").long("c"))
        .arg(Arg::new("D").long("d"))
        .group(ArgGroup::new("mode").arg("A").arg("B").arg("C").arg("D").required(true))
}

#[test]
fn required_group_with_one_member_succeeds() {
    for flag in ["--a", "--b", "--c", "--d"] {
        assert!(group_app().get_matches_from_safe(toks(&["myprog", flag])).is_ok());
    }
}

#[test]
fn required_group_with_no_member_names_the_group() {
    let e = group_app().get_matches_from_safe(toks(&["myprog"])).unwrap_err();
    assert_eq!(e.kind, ErrorKind::MissingRequiredArgument);
    assert_eq!(e.info, strs(&["mode"]));
    assert!(e.use_stderr());
}

#[test]
fn required_group_with_two_members_conflicts() {
    let e = group_app().get_matches_from_safe(toks(&["myprog", "--c", "--a"])).unwrap_err();
    assert_eq!(e.kind, ErrorKind::ArgumentConflict);
    assert_eq!(e.info, strs(&["A", "C"]));
}

#[test]
fn required_group_permitting_several() {
    let app = App::new("myprog")
        .arg(Arg::new("A").long("a"))
        .arg(Arg::new("B").long("b"))
        .group(ArgGroup::new("g").arg("A").arg("B").required(true).multiple(true));
    assert!(app.get_matches_from_safe(toks(&["p", "--a", "--b"])).is_ok());
}

fn arity_app() -> App {
    App::new("myprog")
        .arg(Arg::new("opt").long("opt").min_values(1).max_values(3))
        .arg(Arg::new("flag").long("flag"))
}

#[test]
fn arity_accepts_one_two_or_three() {
    let m = arity_app().get_matches_from_safe(toks(&["p", "--opt", "x"])).unwrap();
    assert_eq!(m.values_of("opt"), Some(strs(&["x"])));
    let m = arity_app().get_matches_from_safe(toks(&["p", "--opt", "x", "y"])).unwrap();
    assert_eq!(m.values_of("opt"), Some(strs(&["x", "y"])));
    let m = arity_app().get_matches_from_safe(toks(&["p", "--opt", "x", "y", "z"])).unwrap();
    assert_eq!(m.values_of("opt"), Some(strs(&["x", "y", "z"])));
}

#[test]
fn arity_rejects_zero_values() {
    let e = arity_app().get_matches_from_safe(toks(&["p", "--opt"])).unwrap_err();
    assert_eq!(e.kind, ErrorKind::TooFewValues);
    assert_eq!(e.info, strs(&["opt"]));
    let e = arity_app().get_matches_from_safe(toks(&["p", "--opt", "--flag"])).unwrap_err();
    assert_eq!(e.kind, ErrorKind::TooFewValues);
}

#[test]
fn arity_rejects_four_values() {
    let e = arity_app().get_matches_from_safe(toks(&["p", "--opt", "w", "x", "y", "z"])).unwrap_err();
    assert_eq!(e.kind, ErrorKind::TooManyValues);
    assert_eq!(e.info, strs(&["opt"]));
    let app = App::new("p").arg(Arg::new("opt").long("opt").max_values(3).value_delimiter(','));
    let e = app.get_matches_from_safe(toks(&["p", "--opt=a,b,c,d"])).unwrap_err();
    assert_eq!(e.kind, ErrorKind::TooManyValues);
}

#[test]
fn delimited_token_equals_separate_tokens() {
    let mk = || {
        App::new("p").arg(Arg::new("list").long("list").multiple_values(true).value_delimiter(','))
    };
    let joined = mk().get_matches_from_safe(toks(&["p", "--list", "a,b,c"])).unwrap();
    let separate = mk().get_matches_from_safe(toks(&["p", "--list", "a", "b", "c"])).unwrap();
    assert_eq!(joined.values_of("list"), Some(strs(&["a", "b", "c"])));
    assert_eq!(joined.values_of("list"), separate.values_of("list"));
    let attached = mk().get_matches_from_safe(toks(&["p", "--list=a,b,c"])).unwrap();
    assert_eq!(attached.values_of("list"), Some(strs(&["a", "b", "c"])));
}

#[test]
fn terminator_makes_flags_positional() {
    let app = App::new("p")
        .arg(Arg::new("verbose").long("verbose"))
        .arg(Arg::new("file").index(1));
    let m = app.get_matches_from_safe(toks(&["p", "--", "--verbose"])).unwrap();
    assert!(!m.is_present("verbose"));
    assert_eq!(m.values_of("file"), Some(strs(&["--verbose"])));
}

fn global_app(propagate: bool) -> App {
    let app = App::new("myprog")
        .arg(Arg::new("verbose").long("verbose").global(true))
        .subcommand(App::new("sub"));
    if propagate {
        app.setting(AppSettings::PropagateGlobalValuesDown)
    } else {
        app
    }
}

#[test]
fn global_value_propagates_down() {
    let m = global_app(true).get_matches_from_safe(toks(&["myprog", "--verbose", "sub"])).unwrap();
    assert!(m.is_present("verbose"));
    assert_eq!(m.subcommand_name(), Some("sub".to_string()));
    let sub = m.subcommand_matches("sub").unwrap();
    assert!(sub.is_present("verbose"));
    assert_eq!(sub.occurrences_of("verbose"), 1);
}

#[test]
fn global_value_stays_up_without_propagation() {
    let m = global_app(false).get_matches_from_safe(toks(&["myprog", "--verbose", "sub"])).unwrap();
    assert!(m.is_present("verbose"));
    let sub = m.subcommand_matches("sub").unwrap();
    assert!(!sub.is_present("verbose"));
}

#[test]
fn global_argument_is_accepted_in_subcommand() {
    let m = global_app(false).get_matches_from_safe(toks(&["myprog", "sub", "--verbose"])).unwrap();
    assert!(!m.is_present("verbose"));
    assert!(m.subcommand_matches("sub").unwrap().is_present("verbose"));
}

#[test]
fn nested_subcommand_chain() {
    let app = App::new("myprog").subcommand(
        App::new("config")
            .subcommand(App::new("show").arg(Arg::new("verbose").long("verbose"))),
    );
    let m = app.get_matches_from_safe(toks(&["myprog", "config", "show", "--verbose"])).unwrap();
    assert_eq!(m.subcommand_name(), Some("config".to_string()));
    let config = m.subcommand_matches("config").unwrap();
    assert_eq!(config.subcommand_name(), Some("show".to_string()));
    let show = config.subcommand_matches("show").unwrap();
    assert!(show.is_present("verbose"));
    assert!(show.subcommand_name().is_none());
}

#[test]
fn matching_twice_gives_equal_results() {
    let mk = || {
        App::new("p")
            .arg(Arg::new("x").short('x').multiple(true))
            .arg(Arg::new("in").index(1))
            .subcommand(App::new("s").arg(Arg::new("y").long("y").takes_value(true)))
    };
    let args = toks(&["p", "-xx", "file", "s", "--y", "v"]);
    let first = mk().get_matches_from_safe(args.clone());
    let second = mk().get_matches_from_safe(args);
    assert_eq!(first, second);
    let bad = toks(&["p", "--nope"]);
    assert_eq!(mk().get_matches_from_safe(bad.clone()), mk().get_matches_from_safe(bad));
}

#[test]
fn unknown_long_flag() {
    let e = App::new("p").get_matches_from_safe(toks(&["p", "--nope"])).unwrap_err();
    assert_eq!(e.kind, ErrorKind::UnknownArgument);
    assert_eq!(e.info, strs(&["--nope"]));
}

#[test]
fn unknown_short_flag_and_stray_value() {
    let e = App::new("p").get_matches_from_safe(toks(&["p", "-z"])).unwrap_err();
    assert_eq!(e.kind, ErrorKind::UnknownArgument);
    assert_eq!(e.info, strs(&["-z"]));
    let e = App::new("p").get_matches_from_safe(toks(&["p", "stray"])).unwrap_err();
    assert_eq!(e.kind, ErrorKind::UnknownArgument);
    assert_eq!(e.info, strs(&["stray"]));
}

#[test]
fn missing_required_argument() {
    let app = App::new("p").arg(Arg::new("cfg").long("cfg").required(true));
    let e = app.get_matches_from_safe(toks(&["p"])).unwrap_err();
    assert_eq!(e.kind, ErrorKind::MissingRequiredArgument);
    assert_eq!(e.info, strs(&["cfg"]));
}

#[test]
fn required_unless_excuses() {
    let mk = || {
        App::new("p")
            .arg(Arg::new("cfg").long("cfg").required(true).required_unless("dry"))
            .arg(Arg::new("mode").long("mode").takes_value(true))
            .arg(Arg::new("x").long("x").required(true).required_unless_eq("mode", "fast"))
            .arg(Arg::new("dry").long("dry"))
    };
    assert!(mk().get_matches_from_safe(toks(&["p", "--dry", "--mode", "fast"])).is_ok());
    let e = mk().get_matches_from_safe(toks(&["p", "--dry", "--mode", "slow"])).unwrap_err();
    assert_eq!(e.kind, ErrorKind::MissingRequiredArgument);
    assert_eq!(e.info, strs(&["x"]));
}

#[test]
fn conflicting_arguments() {
    let app = App::new("p")
        .arg(Arg::new("a").long("a").conflicts_with("b"))
        .arg(Arg::new("b").long("b"));
    let e = app.get_matches_from_safe(toks(&["p", "--b", "--a"])).unwrap_err();
    assert_eq!(e.kind, ErrorKind::ArgumentConflict);
    assert_eq!(e.info, strs(&["a", "b"]));
}

#[test]
fn conflicts_are_directional() {
    let app = App::new("p")
        .arg(Arg::new("a").long("a"))
        .arg(Arg::new("b").long("b").conflicts_with("c"))
        .arg(Arg::new("c").long("c"));
    assert!(app.get_matches_from_safe(toks(&["p", "--a", "--c"])).is_ok());
}

#[test]
fn requirement_missing_names_both() {
    let app = App::new("p")
        .arg(Arg::new("out").long("out").requires_arg("fmt"))
        .arg(Arg::new("fmt").long("fmt"));
    let e = app.get_matches_from_safe(toks(&["p", "--out"])).unwrap_err();
    assert_eq!(e.kind, ErrorKind::MissingRequiredArgument);
    assert_eq!(e.info, strs(&["fmt", "out"]));
}

#[test]
fn value_outside_closed_set() {
    let app = App::new("p").arg(
        Arg::new("color").long("color").takes_value(true).possible_values(&["red", "blue"]),
    );
    let e = app.get_matches_from_safe(toks(&["p", "--color", "green"])).unwrap_err();
    assert_eq!(e.kind, ErrorKind::InvalidValue);
    assert_eq!(e.info, strs(&["green", "red", "blue"]));
}

#[test]
fn missing_subcommand() {
    let app = App::new("p").setting(AppSettings::SubcommandRequired).subcommand(App::new("run"));
    let e = app.get_matches_from_safe(toks(&["p"])).unwrap_err();
    assert_eq!(e.kind, ErrorKind::MissingSubcommand);
}

#[test]
fn help_and_version_requests() {
    let e = App::new("p").get_matches_from_safe(toks(&["p", "--help"])).unwrap_err();
    assert_eq!(e.kind, ErrorKind::HelpRequested);
    assert!(!e.use_stderr());
    let e = App::new("p").get_matches_from_safe(toks(&["p", "-h"])).unwrap_err();
    assert_eq!(e.kind, ErrorKind::HelpRequested);
    let e = App::new("p").get_matches_from_safe(toks(&["p", "-V"])).unwrap_err();
    assert_eq!(e.kind, ErrorKind::VersionRequested);
    assert!(!e.use_stderr());
    let app = App::new("p").subcommand(App::new("run"));
    let e = app.get_matches_from_safe(toks(&["p", "help"])).unwrap_err();
    assert_eq!(e.kind, ErrorKind::HelpRequested);
}

#[test]
fn help_flags_can_be_disabled() {
    let app = App::new("p").setting(AppSettings::DisableHelpFlags);
    let e = app.get_matches_from_safe(toks(&["p", "--help"])).unwrap_err();
    assert_eq!(e.kind, ErrorKind::UnknownArgument);
}

#[test]
fn repeated_flag_conflicts_unless_overridden() {
    let e = App::new("p")
        .arg(Arg::new("v").short('v'))
        .get_matches_from_safe(toks(&["p", "-v", "-v"]))
        .unwrap_err();
    assert_eq!(e.kind, ErrorKind::ArgumentConflict);
    assert_eq!(e.info, strs(&["v", "v"]));
    let m = App::new("p")
        .arg(Arg::new("o").long("o").takes_value(true))
        .setting(AppSettings::AllArgsOverrideSelf)
        .get_matches_from_safe(toks(&["p", "--o", "1", "--o", "2"]))
        .unwrap();
    assert_eq!(m.values_of("o"), Some(strs(&["2"])));
    assert_eq!(m.occurrences_of("o"), 1);
    let m = App::new("p")
        .arg(Arg::new("v").short('v').multiple(true))
        .get_matches_from_safe(toks(&["p", "-vvv"]))
        .unwrap();
    assert_eq!(m.occurrences_of("v"), 3);
}

#[test]
fn positionals_fill_in_index_order() {
    let app = App::new("p")
        .arg(Arg::new("second").index(2))
        .arg(Arg::new("rest").index(3).multiple_values(true))
        .arg(Arg::new("first").index(1));
    let m = app.get_matches_from_safe(toks(&["p", "a", "b", "c", "d"])).unwrap();
    assert_eq!(m.values_of("first"), Some(strs(&["a"])));
    assert_eq!(m.values_of("second"), Some(strs(&["b"])));
    assert_eq!(m.values_of("rest"), Some(strs(&["c", "d"])));
    assert_eq!(m.occurrences_of("rest"), 2);
}

#[test]
fn default_value_fills_absent_argument() {
    let mk = || App::new("p").arg(Arg::new("out").long("out").takes_value(true).default_value("a.out"));
    let m = mk().get_matches_from_safe(toks(&["p"])).unwrap();
    assert_eq!(m.value_of("out"), Some("a.out".to_string()));
    assert_eq!(m.occurrences_of("out"), 0);
    let m = mk().get_matches_from_safe(toks(&["p", "--out", "x"])).unwrap();
    assert_eq!(m.value_of("out"), Some("x".to_string()));
}

#[test]
fn subcommand_alias_and_no_binary_name() {
    let app = App::new("p")
        .setting(AppSettings::NoBinaryName)
        .subcommand(App::new("remove").alias("rm").visible_alias("del"));
    let m = app.get_matches_from_safe(toks(&["rm"])).unwrap();
    assert_eq!(m.subcommand_name(), Some("remove".to_string()));
}

#[test]
fn value_positions_are_recorded() {
    let app = App::new("p").arg(Arg::new("o").long("o").takes_value(true).multiple(true));
    let m = app.get_matches_from_safe(toks(&["p", "--o", "x", "--o=y"])).unwrap();
    let rec = &m.args[0];
    assert_eq!(rec.positions, vec![2, 4]);
    assert_eq!(rec.values, strs(&["x", "y"]));
    assert_eq!(rec.value_occ, vec![0, 1]);
}

#[test]
fn usage_line_lists_required_optional_positional_and_subcommand() {
    let app = App::new("myprog")
        .arg(Arg::new("config").long("config").takes_value(true).required(true))
        .arg(Arg::new("d").short('d'))
        .arg(Arg::new("input").index(1).required(true))
        .arg(Arg::new("more").index(2).multiple_values(true))
        .subcommand(App::new("run"));
    let e = app.get_matches_from_safe(toks(&["/usr/bin/myprog", "--bogus"])).unwrap_err();
    assert_eq!(
        e.usage,
        "myprog --config <config> [-d] [--help] [--version] <input> [more]... [SUBCOMMAND]"
    );
}

#[test]
fn usage_line_in_subcommand_and_override() {
    let app = App::new("p")
        .bin_name("tool")
        .setting(AppSettings::NoBinaryName)
        .subcommand(App::new("run").setting(AppSettings::DisableVersion));
    let e = app.get_matches_from_safe(toks(&["run", "-q"])).unwrap_err();
    assert_eq!(e.usage, "tool run [--help]");
    let app = App::new("p").override_usage("p [stuff]");
    let e = app.get_matches_from_safe(toks(&["p", "-q"])).unwrap_err();
    assert_eq!(e.usage, "p [stuff]");
}

#[test]
fn bin_name_recorded_by_mut_matching() {
    let mut app = App::new("p");
    let r = app.get_matches_from_safe_mut(toks(&["/opt/tools/prog", "x"]));
    assert!(r.is_err());
    assert_eq!(app.bin_name, Some("prog".to_string()));
    let mut app = App::new("p");
    assert!(app.get_matches_from_safe_borrow(toks(&["prog"])).is_ok());
}

#[test]
fn custom_help_short() {
    let app = App::new("p").help_short("-H").arg(Arg::new("host").short('h'));
    let m = app.get_matches_from_safe(toks(&["p", "-h"])).unwrap();
    assert!(m.is_present("host"));
    let app = App::new("p").help_short("-H");
    let e = app.get_matches_from_safe(toks(&["p", "-H"])).unwrap_err();
    assert_eq!(e.kind, ErrorKind::HelpRequested);
}

#[test]
fn subcommand_name_fills_open_required_positional() {
    let mk = || {
        App::new("p")
            .arg(Arg::new("target").index(1).required(true))
            .subcommand(App::new("run"))
    };
    let m = mk().get_matches_from_safe(toks(&["p", "run"])).unwrap();
    assert_eq!(m.values_of("target"), Some(strs(&["run"])));
    assert!(m.subcommand_name().is_none());
    let m = mk().get_matches_from_safe(toks(&["p", "x", "run"])).unwrap();
    assert_eq!(m.values_of("target"), Some(strs(&["x"])));
    assert_eq!(m.subcommand_name(), Some("run".to_string()));
}

#[test]
fn render_usage_of_top_node() {
    let app = App::new("tool")
        .arg(Arg::new("name").long("name").takes_value(true).required(true))
        .setting(AppSettings::DisableVersion);
    assert_eq!(app.render_usage(), "tool --name <name> [--help]");
}
