use vstd::prelude::*;
use crate::arg::{Arg, ArgGroup, args_view, copy_opt, opt_view};
use crate::error::Error;
use crate::matched::ArgMatches;
use crate::parser::{
    get_matches_spec, parse_node, res_view, resolve_settings, resolved, skips_bin, visible,
    visible_exec,
};
use crate::usage::{build_usage, usage_line};
use crate::settings::{AppSettings, contains_setting, has_setting};
use crate::validate::{find_arg, find_arg_from};
use crate::text::{base_name, base_name_spec, char_at, char_count, strs_view};

verus! {

/// One node of the definition tree: a program or one of its subcommands, with its
/// arguments, groups, settings and child nodes.
#[derive(Debug, PartialEq, Eq)]
pub struct App {
    pub name: String,
    pub bin_name: Option<String>,
    pub author: Option<String>,
    pub version: Option<String>,
    pub about: Option<String>,
    pub long_about: Option<String>,
    pub after_help: Option<String>,
    pub before_help: Option<String>,
    pub override_usage: Option<String>,
    pub override_help: Option<String>,
    pub aliases: Vec<String>,
    pub visible_aliases: Vec<String>,
    pub display_order: usize,
    pub term_width: Option<usize>,
    pub max_term_width: Option<usize>,
    pub help_template: Option<String>,
    pub args: Vec<Arg>,
    pub subcommands: Vec<App>,
    pub groups: Vec<ArgGroup>,
    pub settings: Vec<AppSettings>,
    pub global_settings: Vec<AppSettings>,
    pub help_short: Option<char>,
    pub version_short: Option<char>,
    pub help_message: Option<String>,
    pub version_message: Option<String>,
    pub long_version: Option<String>,
}

impl App {
    /// A node named `n` with nothing defined in it.
    pub fn new(n: &str) -> (r: App)
        ensures
            r.name@ == n@,
            r.bin_name is None,
            r.author is None,
            r.version is None,
            r.about is None,
            r.long_about is None,
            r.after_help is None,
            r.before_help is None,
            r.override_usage is None,
            r.override_help is None,
            r.term_width is None,
            r.max_term_width is None,
            r.help_template is None,
            r.help_short is None,
            r.version_short is None,
            r.help_message is None,
            r.version_message is None,
            r.long_version is None,
            r.aliases@.len() == 0,
            r.visible_aliases@.len() == 0,
            r.display_order == 999,
            r.args@.len() == 0,
            r.subcommands@.len() == 0,
            r.groups@.len() == 0,
            r.settings@.len() == 0,
            r.global_settings@.len() == 0,
    {
        App {
            name: n.to_owned(),
            bin_name: None,
            author: None,
            version: None,
            about: None,
            long_about: None,
            after_help: None,
            before_help: None,
            override_usage: None,
            override_help: None,
            aliases: Vec::new(),
            visible_aliases: Vec::new(),
            display_order: 999,
            term_width: None,
            max_term_width: None,
            help_template: None,
            args: Vec::new(),
            subcommands: Vec::new(),
            groups: Vec::new(),
            settings: Vec::new(),
            global_settings: Vec::new(),
            help_short: None,
            version_short: None,
            help_message: None,
            version_message: None,
            long_version: None,
        }
    }
}

/// The first group from `k` on named `name`.
pub open spec fn find_group_from(gs: Seq<ArgGroup>, name: Seq<char>, k: int) -> Option<usize>
    decreases gs.len() - k,
{
    if k < 0 || k >= gs.len() {
        None
    } else if gs[k].name@ == name {
        Some(k as usize)
    } else {
        find_group_from(gs, name, k + 1)
    }
}

/// The first subcommand from `k` on named `name`.
pub open spec fn find_named_sub_from(subs: Seq<App>, name: Seq<char>, k: int) -> Option<usize>
    decreases subs.len() - k,
{
    if k < 0 || k >= subs.len() {
        None
    } else if subs[k].name@ == name {
        Some(k as usize)
    } else {
        find_named_sub_from(subs, name, k + 1)
    }
}

/// The position of the last `x` among the first `k` settings.
pub open spec fn last_index_from(s: Seq<AppSettings>, x: AppSettings, k: int) -> Option<int>
    decreases k,
{
    if k <= 0 {
        None
    } else if s[k - 1] == x {
        Some(k - 1)
    } else {
        last_index_from(s, x, k - 1)
    }
}

/// The settings with the last `x` removed, the last setting taking its place.
pub open spec fn unset_spec(s: Seq<AppSettings>, x: AppSettings) -> Seq<AppSettings> {
    match last_index_from(s, x, s.len() as int) {
        Some(i) => s.update(i, s.last()).drop_last(),
        None => s,
    }
}

/// The settings with each of `xs` removed in turn.
pub open spec fn unset_all(s: Seq<AppSettings>, xs: Seq<AppSettings>) -> Seq<AppSettings>
    decreases xs.len(),
{
    if xs.len() == 0 {
        s
    } else {
        unset_spec(unset_all(s, xs.drop_last()), xs.last())
    }
}

/// The first character of `s` from `k` on that is not a dash.
pub open spec fn first_non_dash_from(s: Seq<char>, k: int) -> Option<char>
    decreases s.len() - k,
{
    if k < 0 || k >= s.len() {
        None
    } else if s[k] != '-' {
        Some(s[k])
    } else {
        first_non_dash_from(s, k + 1)
    }
}

/// The character that a flag spelt `s` stands for: its first after leading dashes, or
/// `dflt` where there is none.
pub open spec fn short_of(s: Seq<char>, dflt: char) -> char {
    match first_non_dash_from(s, 0) {
        Some(c) => c,
        None => dflt,
    }
}

fn unset_in(v: &mut Vec<AppSettings>, x: AppSettings)
    ensures
        final(v)@ == unset_spec(old(v)@, x),
{
    let mut i: usize = v.len();
    while i > 0
        invariant
            i <= v.len(),
            v@ == old(v)@,
            last_index_from(v@, x, v@.len() as int) == last_index_from(v@, x, i as int),
        decreases i,
    {
        i -= 1;
        if v[i] == x {
            let _ = v.swap_remove(i);
            return;
        }
    }
}

fn short_from(s: &str, dflt: char) -> (r: char)
    ensures
        r == short_of(s@, dflt),
{
    let t = s.to_owned();
    let n = char_count(&t);
    let mut k: usize = 0;
    while k < n
        invariant
            k <= n,
            n == s@.len(),
            t@ == s@,
            first_non_dash_from(s@, 0) == first_non_dash_from(s@, k as int),
        decreases n - k,
    {
        let c = char_at(&t, k);
        if c != '-' {
            return c;
        }
        k += 1;
    }
    dflt
}

impl App {
    /// Matches `itr` against this definition tree; unless `NoBinaryName` is set, its first
    /// item names the program.
    pub fn get_matches_from_safe(self, itr: Vec<String>) -> (r: Result<ArgMatches, Error>)
        ensures
            res_view(r) == get_matches_spec(self, itr@),
    {
        self.do_match(&itr)
    }

    /// Matches `itr` against this definition tree, keeping it; the program's name is
    /// recorded as the last part of the first item's path.
    pub fn get_matches_from_safe_mut(&mut self, itr: Vec<String>) -> (r: Result<ArgMatches, Error>)
        ensures
            res_view(r) == get_matches_spec(*old(self), itr@),
            skips_bin(*old(self), itr@) ==> opt_view(final(self).bin_name) == Some(
                base_name_spec(itr@[0]@),
            ),
            *final(self) == (App { bin_name: final(self).bin_name, ..*old(self) }),
            !skips_bin(*old(self), itr@) ==> *final(self) == *old(self),
    {
        let r = self.do_match(&itr);
        if !contains_setting(&self.settings, AppSettings::NoBinaryName) && itr.len() > 0 {
            self.bin_name = Some(base_name(&itr[0]));
        }
        r
    }

    /// The same as [`App::get_matches_from_safe_mut`].
    pub fn get_matches_from_safe_borrow(&mut self, itr: Vec<String>) -> (r: Result<
        ArgMatches,
        Error,
    >)
        ensures
            res_view(r) == get_matches_spec(*old(self), itr@),
            skips_bin(*old(self), itr@) ==> opt_view(final(self).bin_name) == Some(
                base_name_spec(itr@[0]@),
            ),
            *final(self) == (App { bin_name: final(self).bin_name, ..*old(self) }),
            !skips_bin(*old(self), itr@) ==> *final(self) == *old(self),
    {
        self.get_matches_from_safe_mut(itr)
    }

    fn do_match(&self, itr: &Vec<String>) -> (r: Result<ArgMatches, Error>)
        ensures
            res_view(r) == get_matches_spec(*self, itr@),
    {
        let skip = !contains_setting(&self.settings, AppSettings::NoBinaryName) && itr.len() > 0;
        let path = if skip {
            base_name(&itr[0])
        } else {
            match &self.bin_name {
                Some(b) => b.clone(),
                None => self.name.clone(),
            }
        };
        self._do_parse(itr, if skip {
            1
        } else {
            0
        }, &path)
    }

    /// Matches the items of `toks` from `start` on against this node, called by `path`.
    pub fn _do_parse(&self, toks: &Vec<String>, start: usize, path: &String) -> (r: Result<
        ArgMatches,
        Error,
    >)
        requires
            start <= toks.len(),
        ensures
            res_view(r) == crate::parser::parse_node_spec(
                *self,
                Seq::empty(),
                Seq::empty(),
                path@,
                toks@,
                start as int,
                Seq::empty(),
                false,
            ),
    {
        let pvis: Vec<Arg> = Vec::new();
        let gset: Vec<AppSettings> = Vec::new();
        let handed: Vec<crate::matched::MatchedArg> = Vec::new();
        proof {
            assert(args_view(pvis@) =~= Seq::<crate::arg::ArgView>::empty());
            assert(gset@ =~= Seq::<AppSettings>::empty());
            assert(crate::matched::recs_view(handed@) =~= Seq::<crate::matched::MatchedView>::empty());
        }
        parse_node(self, &pvis, &gset, path, toks, start, handed, false)
    }

    /// Prepares the tree for matching and help: subcommands inherit the version string
    /// under `GlobalVersion`, lose their version flag under `VersionlessSubcommands`, and a
    /// node with subcommands gets a `help` subcommand unless `DisableHelpSubcommand` is set.
    pub fn _build(&mut self)
        ensures
            ({
                let o = *old(self);
                let f = *final(self);
                let gv = has_setting(o.settings@, AppSettings::GlobalVersion) || has_setting(
                    o.global_settings@,
                    AppSettings::GlobalVersion,
                );
                let vl = has_setting(o.settings@, AppSettings::VersionlessSubcommands)
                    || has_setting(o.global_settings@, AppSettings::VersionlessSubcommands);
                let n = o.subcommands@.len();
                let add = n > 0 && !(has_setting(o.settings@, AppSettings::DisableHelpSubcommand)
                    || has_setting(o.global_settings@, AppSettings::DisableHelpSubcommand));
                &&& f == (App { subcommands: f.subcommands, ..o })
                &&& f.subcommands@.len() == n + if add {
                    1int
                } else {
                    0int
                }
                &&& forall|i: int|
                    0 <= i < n ==> {
                        let s = #[trigger] f.subcommands@[i];
                        let t = o.subcommands@[i];
                        &&& s == (App {
                            version: if gv {
                                o.version
                            } else {
                                t.version
                            },
                            settings: s.settings,
                            ..t
                        })
                        &&& s.settings@ == if vl {
                            t.settings@.push(AppSettings::DisableVersion)
                        } else {
                            t.settings@
                        }
                    }
                &&& add ==> f.subcommands@[n as int].name@ == "help"@
                    && f.subcommands@[n as int].args@.len() == 0
                    && f.subcommands@[n as int].subcommands@.len() == 0
            }),
    {
        let gv = self.is_set(AppSettings::GlobalVersion);
        let vl = self.is_set(AppSettings::VersionlessSubcommands);
        let n = self.subcommands.len();
        let ghost o = *self;
        let mut i: usize = 0;
        while i < n
            invariant
                i <= n,
                n == o.subcommands@.len(),
                self.subcommands@.len() == n,
                *self == (App { subcommands: self.subcommands, ..o }),
                forall|q: int|
                    i <= q < n ==> #[trigger] self.subcommands@[q] == o.subcommands@[q],
                forall|q: int|
                    0 <= q < i ==> {
                        let s = #[trigger] self.subcommands@[q];
                        let t = o.subcommands@[q];
                        &&& s == (App {
                            version: if gv {
                                o.version
                            } else {
                                t.version
                            },
                            settings: s.settings,
                            ..t
                        })
                        &&& s.settings@ == if vl {
                            t.settings@.push(AppSettings::DisableVersion)
                        } else {
                            t.settings@
                        }
                    },
            decreases n - i,
        {
            let mut s = self.subcommands.remove(i);
            if gv {
                s.version = copy_opt(&self.version);
            }
            if vl {
                s.settings.push(AppSettings::DisableVersion);
            }
            self.subcommands.insert(i, s);
            i += 1;
        }
        if n > 0 && !self.is_set(AppSettings::DisableHelpSubcommand) {
            let h = App::new("help").about("Prints this message or the help of the given subcommand(s)");
            self.subcommands.push(h);
        }
    }

    /// The usage line of this node as the top of a program: its program name, then its
    /// required flags, its optional flags, its positional arguments in index order, and a
    /// subcommand placeholder where it has subcommands.
    pub fn render_usage(&self) -> (r: String)
        ensures
            r@ == usage_line(
                *self,
                visible(*self, Seq::empty(), resolved(*self, Seq::empty())),
                match self.bin_name {
                    Some(b) => b@,
                    None => self.name@,
                },
            ),
    {
        let gset: Vec<AppSettings> = Vec::new();
        let pvis: Vec<Arg> = Vec::new();
        proof {
            assert(gset@ =~= Seq::<AppSettings>::empty());
            assert(args_view(pvis@) =~= Seq::<crate::arg::ArgView>::empty());
        }
        let rs = resolve_settings(self, &gset);
        let vis = visible_exec(self, &pvis, &rs);
        let path = match &self.bin_name {
            Some(b) => b.clone(),
            None => self.name.clone(),
        };
        build_usage(self, &vis, &path)
    }

    /// Renames the node.
    pub fn name(self, name: &str) -> (r: App)
        ensures
            r.name@ == name@,
            r == (App { name: r.name, ..self }),
    {
        App { name: name.to_owned(), ..self }
    }

    /// The node's name.
    pub fn get_name(&self) -> (r: &str)
        ensures
            r@ == self.name@,
    {
        self.name.as_str()
    }

    /// Sets the author shown in help.
    pub fn author(self, author: &str) -> (r: App)
        ensures
            opt_view(r.author) == Some(author@),
            r == (App { author: r.author, ..self }),
    {
        App { author: Some(author.to_owned()), ..self }
    }

    /// Sets the name by which the program is called in usage lines.
    pub fn bin_name(self, name: &str) -> (r: App)
        ensures
            opt_view(r.bin_name) == Some(name@),
            r == (App { bin_name: r.bin_name, ..self }),
    {
        App { bin_name: Some(name.to_owned()), ..self }
    }

    /// Sets the short description shown in help.
    pub fn about(self, about: &str) -> (r: App)
        ensures
            opt_view(r.about) == Some(about@),
            r == (App { about: r.about, ..self }),
    {
        App { about: Some(about.to_owned()), ..self }
    }

    /// Sets the long description shown in long help.
    pub fn long_about(self, about: &str) -> (r: App)
        ensures
            opt_view(r.long_about) == Some(about@),
            r == (App { long_about: r.long_about, ..self }),
    {
        App { long_about: Some(about.to_owned()), ..self }
    }

    /// Sets the text shown after help.
    pub fn after_help(self, help: &str) -> (r: App)
        ensures
            opt_view(r.after_help) == Some(help@),
            r == (App { after_help: r.after_help, ..self }),
    {
        App { after_help: Some(help.to_owned()), ..self }
    }

    /// Sets the text shown before help.
    pub fn before_help(self, help: &str) -> (r: App)
        ensures
            opt_view(r.before_help) == Some(help@),
            r == (App { before_help: r.before_help, ..self }),
    {
        App { before_help: Some(help.to_owned()), ..self }
    }

    /// Sets the version string.
    pub fn version(self, ver: &str) -> (r: App)
        ensures
            opt_view(r.version) == Some(ver@),
            r == (App { version: r.version, ..self }),
    {
        App { version: Some(ver.to_owned()), ..self }
    }

    /// Sets the long version string.
    pub fn long_version(self, ver: &str) -> (r: App)
        ensures
            opt_view(r.long_version) == Some(ver@),
            r == (App { long_version: r.long_version, ..self }),
    {
        App { long_version: Some(ver.to_owned()), ..self }
    }

    /// Replaces the generated usage line.
    pub fn override_usage(self, usage: &str) -> (r: App)
        ensures
            opt_view(r.override_usage) == Some(usage@),
            r == (App { override_usage: r.override_usage, ..self }),
    {
        App { override_usage: Some(usage.to_owned()), ..self }
    }

    /// Replaces the generated help text.
    pub fn override_help(self, help: &str) -> (r: App)
        ensures
            opt_view(r.override_help) == Some(help@),
            r == (App { override_help: r.override_help, ..self }),
    {
        App { override_help: Some(help.to_owned()), ..self }
    }

    /// Sets the template of the help text.
    pub fn help_template(self, s: &str) -> (r: App)
        ensures
            opt_view(r.help_template) == Some(s@),
            r == (App { help_template: r.help_template, ..self }),
    {
        App { help_template: Some(s.to_owned()), ..self }
    }

    /// Turns a setting on for this node.
    pub fn setting(self, setting: AppSettings) -> (r: App)
        ensures
            r.settings@ == self.settings@.push(setting),
            r == (App { settings: r.settings, ..self }),
    {
        let mut me = self;
        me.settings.push(setting);
        me
    }

    /// Turns a setting on for this node, in place.
    pub fn setb(&mut self, setting: AppSettings)
        ensures
            final(self).settings@ == old(self).settings@.push(setting),
            *final(self) == (App { settings: final(self).settings, ..*old(self) }),
    {
        self.settings.push(setting);
    }

    /// Turns several settings on for this node.
    pub fn settings(self, settings: &[AppSettings]) -> (r: App)
        ensures
            r.settings@ == self.settings@ + settings@,
            r == (App { settings: r.settings, ..self }),
    {
        let mut me = self;
        let mut k: usize = 0;
        while k < settings.len()
            invariant
                k <= settings.len(),
                me.settings@ == self.settings@ + settings@.take(k as int),
                me == (App { settings: me.settings, ..self }),
            decreases settings.len() - k,
        {
            me.settings.push(settings[k]);
            proof {
                assert(settings@.take(k + 1) =~= settings@.take(k as int).push(settings@[k as int]));
                assert(me.settings@ =~= self.settings@ + settings@.take(k + 1));
            }
            k += 1;
        }
        proof {
            assert(settings@.take(settings.len() as int) =~= settings@);
        }
        me
    }

    /// Turns a setting on for this node and every node below it.
    pub fn global_setting(self, setting: AppSettings) -> (r: App)
        ensures
            r.global_settings@ == self.global_settings@.push(setting),
            r.settings@ == self.settings@.push(setting),
            r == (App { settings: r.settings, global_settings: r.global_settings, ..self }),
    {
        let mut me = self;
        me.global_settings.push(setting);
        me.setting(setting)
    }

    /// Turns several settings on for this node and every node below it.
    pub fn global_settings(self, settings: &[AppSettings]) -> (r: App)
        ensures
            r.global_settings@ == self.global_settings@ + settings@,
            r.settings@ == self.settings@ + settings@,
            r == (App { settings: r.settings, global_settings: r.global_settings, ..self }),
    {
        let mut me = self;
        let mut k: usize = 0;
        while k < settings.len()
            invariant
                k <= settings.len(),
                me.global_settings@ == self.global_settings@ + settings@.take(k as int),
                me == (App { global_settings: me.global_settings, ..self }),
            decreases settings.len() - k,
        {
            me.global_settings.push(settings[k]);
            proof {
                assert(settings@.take(k + 1) =~= settings@.take(k as int).push(settings@[k as int]));
                assert(me.global_settings@ =~= self.global_settings@ + settings@.take(k + 1));
            }
            k += 1;
        }
        proof {
            assert(settings@.take(settings.len() as int) =~= settings@);
        }
        me.settings(settings)
    }

    /// Turns a setting off: its last occurrence in the node's own settings is removed.
    pub fn unset_setting(self, setting: AppSettings) -> (r: App)
        ensures
            r.settings@ == unset_spec(self.settings@, setting),
            r == (App { settings: r.settings, ..self }),
    {
        let mut me = self;
        unset_in(&mut me.settings, setting);
        me
    }

    /// Turns several settings off, one after another.
    pub fn unset_settings(self, settings: &[AppSettings]) -> (r: App)
        ensures
            r.settings@ == unset_all(self.settings@, settings@),
            r == (App { settings: r.settings, ..self }),
    {
        let mut me = self;
        let mut k: usize = 0;
        proof {
            assert(settings@.take(0) =~= Seq::<AppSettings>::empty());
        }
        while k < settings.len()
            invariant
                k <= settings.len(),
                me.settings@ == unset_all(self.settings@, settings@.take(k as int)),
                me == (App { settings: me.settings, ..self }),
            decreases settings.len() - k,
        {
            unset_in(&mut me.settings, settings[k]);
            proof {
                assert(settings@.take(k + 1).drop_last() =~= settings@.take(k as int));
            }
            k += 1;
        }
        proof {
            assert(settings@.take(settings.len() as int) =~= settings@);
        }
        me
    }

    /// Whether a setting is on for this node, as its own or as a global setting.
    pub fn is_set(&self, setting: AppSettings) -> (r: bool)
        ensures
            r == (has_setting(self.settings@, setting) || has_setting(
                self.global_settings@,
                setting,
            )),
    {
        contains_setting(&self.settings, setting) || contains_setting(&self.global_settings, setting)
    }

    /// Sets the terminal width used for help.
    pub fn set_term_width(self, width: usize) -> (r: App)
        ensures
            r == (App { term_width: Some(width), ..self }),
    {
        App { term_width: Some(width), ..self }
    }

    /// Sets the largest terminal width used for help.
    pub fn max_term_width(self, w: usize) -> (r: App)
        ensures
            r == (App { max_term_width: Some(w), ..self }),
    {
        App { max_term_width: Some(w), ..self }
    }

    /// Adds an argument.
    pub fn arg(self, a: Arg) -> (r: App)
        ensures
            r.args@ == self.args@.push(a),
            r == (App { args: r.args, ..self }),
    {
        let mut me = self;
        me.args.push(a);
        me
    }

    /// Adds an argument, in place.
    pub fn _argb(&mut self, a: Arg)
        ensures
            final(self).args@ == old(self).args@.push(a),
            *final(self) == (App { args: final(self).args, ..*old(self) }),
    {
        self.args.push(a);
    }

    /// Adds copies of several arguments.
    pub fn args(self, args: &[Arg]) -> (r: App)
        ensures
            args_view(r.args@) == args_view(self.args@) + args_view(args@),
            r == (App { args: r.args, ..self }),
    {
        let mut me = self;
        let mut k: usize = 0;
        while k < args.len()
            invariant
                k <= args.len(),
                args_view(me.args@) == args_view(self.args@) + args_view(args@).take(k as int),
                me == (App { args: me.args, ..self }),
            decreases args.len() - k,
        {
            let ghost before = me.args@;
            me.args.push(args[k].copy());
            proof {
                assert(args_view(me.args@) =~= args_view(before).push(args@[k as int]@));
                assert(args_view(args@).take(k + 1) =~= args_view(args@).take(k as int).push(
                    args@[k as int]@,
                ));
                assert(args_view(me.args@) =~= args_view(self.args@) + args_view(args@).take(
                    k + 1,
                ));
            }
            k += 1;
        }
        proof {
            assert(args_view(args@).take(args.len() as int) =~= args_view(args@));
        }
        me
    }

    /// Replaces the first argument named `arg` with what `f` makes of it.
    pub fn mut_arg<F: Fn(Arg) -> Arg>(self, arg: &str, f: F) -> (r: App)
        requires
            forall|a: Arg| call_requires(f, (a,)),
        ensures
            match find_arg_from(args_view(self.args@), arg@, 0) {
                None => r == self,
                Some(k) => {
                    &&& r == (App { args: r.args, ..self })
                    &&& r.args@.len() == self.args@.len()
                    &&& r.args@ == self.args@.update(k as int, r.args@[k as int])
                    &&& call_ensures(f, (self.args@[k as int],), r.args@[k as int])
                },
            },
    {
        let n = arg.to_owned();
        match find_arg(&self.args, &n) {
            None => self,
            Some(k) => {
                let mut me = self;
                let a = me.args.remove(k);
                let b = f(a);
                me.args.insert(k, b);
                proof {
                    assert(me.args@ =~= self.args@.update(k as int, me.args@[k as int]));
                }
                me
            },
        }
    }

    /// Replaces the first group named `group` with what `f` makes of it.
    pub fn mut_group<F: Fn(ArgGroup) -> ArgGroup>(self, group: &str, f: F) -> (r: App)
        requires
            forall|g: ArgGroup| call_requires(f, (g,)),
        ensures
            match find_group_from(self.groups@, group@, 0) {
                None => r == self,
                Some(k) => {
                    &&& r == (App { groups: r.groups, ..self })
                    &&& r.groups@.len() == self.groups@.len()
                    &&& r.groups@ == self.groups@.update(k as int, r.groups@[k as int])
                    &&& call_ensures(f, (self.groups@[k as int],), r.groups@[k as int])
                },
            },
    {
        let n = group.to_owned();
        let mut k: usize = 0;
        while k < self.groups.len()
            invariant
                k <= self.groups.len(),
                n@ == group@,
                forall|g: ArgGroup| call_requires(f, (g,)),
                find_group_from(self.groups@, group@, 0) == find_group_from(
                    self.groups@,
                    group@,
                    k as int,
                ),
            decreases self.groups.len() - k,
        {
            if self.groups[k].name == n {
                let mut me = self;
                let g = me.groups.remove(k);
                let h = f(g);
                me.groups.insert(k, h);
                proof {
                    assert(me.groups@ =~= self.groups@.update(k as int, me.groups@[k as int]));
                }
                return me;
            }
            k += 1;
        }
        self
    }

    /// Replaces the first subcommand named `subcommand` with what `f` makes of it.
    pub fn mut_subcommand<F: Fn(App) -> App>(self, subcommand: &str, f: F) -> (r: App)
        requires
            forall|s: App| call_requires(f, (s,)),
        ensures
            match find_named_sub_from(self.subcommands@, subcommand@, 0) {
                None => r == self,
                Some(k) => {
                    &&& r == (App { subcommands: r.subcommands, ..self })
                    &&& r.subcommands@.len() == self.subcommands@.len()
                    &&& r.subcommands@ == self.subcommands@.update(
                        k as int,
                        r.subcommands@[k as int],
                    )
                    &&& call_ensures(f, (self.subcommands@[k as int],), r.subcommands@[k as int])
                },
            },
    {
        let n = subcommand.to_owned();
        let mut k: usize = 0;
        while k < self.subcommands.len()
            invariant
                k <= self.subcommands.len(),
                n@ == subcommand@,
                forall|s: App| call_requires(f, (s,)),
                find_named_sub_from(self.subcommands@, subcommand@, 0) == find_named_sub_from(
                    self.subcommands@,
                    subcommand@,
                    k as int,
                ),
            decreases self.subcommands.len() - k,
        {
            if self.subcommands[k].name == n {
                let mut me = self;
                let s = me.subcommands.remove(k);
                let t = f(s);
                me.subcommands.insert(k, t);
                proof {
                    assert(me.subcommands@ =~= self.subcommands@.update(
                        k as int,
                        me.subcommands@[k as int],
                    ));
                }
                return me;
            }
            k += 1;
        }
        self
    }

    /// Adds a hidden alias by which the node can be called as a subcommand.
    pub fn alias(self, name: &str) -> (r: App)
        ensures
            strs_view(r.aliases@) == strs_view(self.aliases@).push(name@),
            r == (App { aliases: r.aliases, ..self }),
    {
        let mut me = self;
        me.aliases.push(name.to_owned());
        proof {
            assert(strs_view(me.aliases@) =~= strs_view(self.aliases@).push(name@));
        }
        me
    }

    /// Adds several hidden aliases.
    pub fn aliases(self, names: &[&str]) -> (r: App)
        ensures
            strs_view(r.aliases@) == strs_view(self.aliases@) + names@.map_values(|n: &str| n@),
            r == (App { aliases: r.aliases, ..self }),
    {
        let mut me = self;
        let mut k: usize = 0;
        while k < names.len()
            invariant
                k <= names.len(),
                strs_view(me.aliases@) == strs_view(self.aliases@) + names@.map_values(
                    |n: &str| n@,
                ).take(k as int),
                me == (App { aliases: me.aliases, ..self }),
            decreases names.len() - k,
        {
            let ghost before = me.aliases@;
            me.aliases.push(names[k].to_owned());
            proof {
                let nv = names@.map_values(|n: &str| n@);
                assert(strs_view(me.aliases@) =~= strs_view(before).push(nv[k as int]));
                assert(nv.take(k + 1) =~= nv.take(k as int).push(nv[k as int]));
                assert(strs_view(me.aliases@) =~= strs_view(self.aliases@) + nv.take(k + 1));
            }
            k += 1;
        }
        proof {
            let nv = names@.map_values(|n: &str| n@);
            assert(nv.take(names.len() as int) =~= nv);
        }
        me
    }

    /// Adds an alias shown in help.
    pub fn visible_alias(self, name: &str) -> (r: App)
        ensures
            strs_view(r.visible_aliases@) == strs_view(self.visible_aliases@).push(name@),
            r == (App { visible_aliases: r.visible_aliases, ..self }),
    {
        let mut me = self;
        me.visible_aliases.push(name.to_owned());
        proof {
            assert(strs_view(me.visible_aliases@) =~= strs_view(self.visible_aliases@).push(name@));
        }
        me
    }

    /// Adds several aliases shown in help.
    pub fn visible_aliases(self, names: &[&str]) -> (r: App)
        ensures
            strs_view(r.visible_aliases@) == strs_view(self.visible_aliases@) + names@.map_values(
                |n: &str| n@,
            ),
            r == (App { visible_aliases: r.visible_aliases, ..self }),
    {
        let mut me = self;
        let mut k: usize = 0;
        while k < names.len()
            invariant
                k <= names.len(),
                strs_view(me.visible_aliases@) == strs_view(self.visible_aliases@)
                    + names@.map_values(|n: &str| n@).take(k as int),
                me == (App { visible_aliases: me.visible_aliases, ..self }),
            decreases names.len() - k,
        {
            let ghost before = me.visible_aliases@;
            me.visible_aliases.push(names[k].to_owned());
            proof {
                let nv = names@.map_values(|n: &str| n@);
                assert(strs_view(me.visible_aliases@) =~= strs_view(before).push(nv[k as int]));
                assert(nv.take(k + 1) =~= nv.take(k as int).push(nv[k as int]));
                assert(strs_view(me.visible_aliases@) =~= strs_view(self.visible_aliases@)
                    + nv.take(k + 1));
            }
            k += 1;
        }
        proof {
            let nv = names@.map_values(|n: &str| n@);
            assert(nv.take(names.len() as int) =~= nv);
        }
        me
    }

    /// Adds a group of arguments.
    pub fn group(self, group: ArgGroup) -> (r: App)
        ensures
            r.groups@ == self.groups@.push(group),
            r == (App { groups: r.groups, ..self }),
    {
        let mut me = self;
        me.groups.push(group);
        me
    }

    /// Adds several groups.
    pub fn groups(self, groups: Vec<ArgGroup>) -> (r: App)
        ensures
            r.groups@ == self.groups@ + groups@,
            r == (App { groups: r.groups, ..self }),
    {
        let mut me = self;
        let mut gs = groups;
        me.groups.append(&mut gs);
        me
    }

    /// Adds a subcommand.
    pub fn subcommand(self, subcmd: App) -> (r: App)
        ensures
            r.subcommands@ == self.subcommands@.push(subcmd),
            r == (App { subcommands: r.subcommands, ..self }),
    {
        let mut me = self;
        me.subcommands.push(subcmd);
        me
    }

    /// Adds several subcommands.
    pub fn subcommands(self, subcmds: Vec<App>) -> (r: App)
        ensures
            r.subcommands@ == self.subcommands@ + subcmds@,
            r == (App { subcommands: r.subcommands, ..self }),
    {
        let mut me = self;
        let mut ss = subcmds;
        me.subcommands.append(&mut ss);
        me
    }

    /// Sets where the node is listed among its siblings in help.
    pub fn display_order(self, ord: usize) -> (r: App)
        ensures
            r == (App { display_order: ord, ..self }),
    {
        App { display_order: ord, ..self }
    }

    /// Replaces the generated help text.
    pub fn help(self, help: &str) -> (r: App)
        ensures
            opt_view(r.override_help) == Some(help@),
            r == (App { override_help: r.override_help, ..self }),
    {
        self.override_help(help)
    }

    /// Sets the short form of the help flag: the first character after leading dashes,
    /// `h` where there is none.
    pub fn help_short(self, s: &str) -> (r: App)
        ensures
            r == (App { help_short: Some(short_of(s@, 'h')), ..self }),
    {
        let c = short_from(s, 'h');
        App { help_short: Some(c), ..self }
    }

    /// Sets the short form of the version flag: the first character after leading dashes,
    /// `V` where there is none.
    pub fn version_short(self, s: &str) -> (r: App)
        ensures
            r == (App { version_short: Some(short_of(s@, 'V')), ..self }),
    {
        let c = short_from(s, 'V');
        App { version_short: Some(c), ..self }
    }

    /// Sets the help text of the help flag.
    pub fn help_message(self, s: &str) -> (r: App)
        ensures
            opt_view(r.help_message) == Some(s@),
            r == (App { help_message: r.help_message, ..self }),
    {
        App { help_message: Some(s.to_owned()), ..self }
    }

    /// Sets the help text of the version flag.
    pub fn version_message(self, s: &str) -> (r: App)
        ensures
            opt_view(r.version_message) == Some(s@),
            r == (App { version_message: r.version_message, ..self }),
    {
        App { version_message: Some(s.to_owned()), ..self }
    }

    /// Replaces the generated usage line.
    pub fn usage(self, usage: &str) -> (r: App)
        ensures
            opt_view(r.override_usage) == Some(usage@),
            r == (App { override_usage: r.override_usage, ..self }),
    {
        self.override_usage(usage)
    }

    /// Sets the template of the help text.
    pub fn template(self, s: &str) -> (r: App)
        ensures
            opt_view(r.help_template) == Some(s@),
            r == (App { help_template: r.help_template, ..self }),
    {
        self.help_template(s)
    }
}

} // verus!
