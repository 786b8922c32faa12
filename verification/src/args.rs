//! The validated input of one invocation: the package identifier, the
//! flags, the rules that reject contradictory flag combinations, and the
//! messages those rejections print.

use vstd::prelude::*;
use vstd::string::StringExecFns;
use crate::strutil::{spec_find_char, lemma_find_char, find_char, spec_decimal, decimal};
use crate::theme::YankStatus;

verus! {

/// A rejected flag combination or package identifier.
pub enum ArgsError {
    /// The identifier must name a remote package, not a local path.
    PkgIdIsLocal,
    /// The flag requires the package to be remote.
    FlagRequiresRemote {
        /// The flag's short spelling.
        provided_short: String,
        /// The flag's long spelling.
        provided_long: String,
    },
    /// A package name must be supplied.
    NameRequired,
    /// The listed flags cannot be used together.
    Exclusive {
        /// The conflicting flags, each with its spellings.
        bad: Vec<Vec<String>>,
    },
    /// The given flag cannot be used with any of the listed ones.
    ExclusiveWith {
        /// The flags the given one conflicts with.
        bad: Vec<Vec<String>>,
        /// The given flag's short spelling.
        provided_short: String,
        /// The given flag's long spelling.
        provided_long: String,
    },
    /// The given flag must be used with one of the listed ones.
    Inclusive {
        /// The flags one of which is required.
        bad: Vec<Vec<String>>,
        /// The given flag's short spelling.
        provided_short: String,
        /// The given flag's long spelling.
        provided_long: String,
    },
    /// No crate name was provided.
    NoCrateName,
    /// Neither a crate name nor an identifier was provided.
    NoCrateOrPkgId,
    /// More crate names than the single allowed one were provided.
    TooManyCrates {
        /// How many names were provided.
        n: usize,
    },
    /// An option value outside the allowed set.
    UnknownOption {
        /// The value that was given.
        option: String,
        /// The values that would have been accepted.
        allowed: Vec<String>,
    },
}

use crate::strutil::string_view;

/// A group of spellings seen as character sequences.
pub open spec fn group_view() -> spec_fn(Vec<String>) -> Seq<Seq<char>> {
    |g: Vec<String>| g@.map_values(string_view())
}

/// The flag groups, each group's spellings seen as character sequences.
pub open spec fn flag_groups_view(v: Seq<Vec<String>>) -> Seq<Seq<Seq<char>>> {
    v.map_values(group_view())
}

impl ArgsError {
    /// Flags that cannot be used at the same time.
    pub fn exclusive(bad: Vec<Vec<String>>) -> (r: ArgsError)
        ensures
            r matches ArgsError::Exclusive { bad: b } && b == bad,
    {
        ArgsError::Exclusive { bad }
    }

    /// A flag that must be accompanied by one of the listed ones.
    pub fn inclusive_with(bad: Vec<Vec<String>>, short: &str, long: &str) -> (r: ArgsError)
        ensures
            r matches ArgsError::Inclusive { bad: b, provided_short: s, provided_long: l } && b == bad
                && s@ == short@ && l@ == long@,
    {
        ArgsError::Inclusive {
            bad,
            provided_short: String::from_str(short),
            provided_long: String::from_str(long),
        }
    }

    /// A flag that conflicts with each of the listed ones.
    pub fn exclusive_with(bad: Vec<Vec<String>>, short: &str, long: &str) -> (r: ArgsError)
        ensures
            r matches ArgsError::ExclusiveWith { bad: b, provided_short: s, provided_long: l } && b
                == bad && s@ == short@ && l@ == long@,
    {
        ArgsError::ExclusiveWith {
            bad,
            provided_short: String::from_str(short),
            provided_long: String::from_str(long),
        }
    }
}

/// The spellings of a group joined with ", ".
pub open spec fn spec_comma_join(g: Seq<String>) -> Seq<char> {
    crate::strutil::spec_comma_views(g.map_values(string_view()))
}

/// One flag group as the message prints it: a single spelling between
/// backticks, several spellings bracketed.
pub open spec fn spec_flag_group(g: Vec<String>) -> Seq<char> {
    if g@.len() == 1 {
        "`"@ + g@[0]@ + "`"@
    } else {
        "`["@ + spec_comma_join(g@) + "]`"@
    }
}

/// The flag groups joined with the given separator.
pub open spec fn spec_join_groups(items: Seq<Vec<String>>, sep: Seq<char>) -> Seq<char>
    decreases items.len(),
{
    if items.len() == 0 {
        Seq::empty()
    } else if items.len() == 1 {
        spec_flag_group(items[0])
    } else {
        spec_join_groups(items.drop_last(), sep) + sep + spec_flag_group(items.last())
    }
}

/// Joins the spellings of one group with ", ".
pub fn comma_join(g: &Vec<String>) -> (r: String)
    ensures
        r@ == spec_comma_join(g@),
{
    let ghost views = g@.map_values(string_view());
    let mut out = String::new();
    let mut i: usize = 0;
    proof {
        assert(views.take(0) =~= Seq::<Seq<char>>::empty());
    }
    while i < g.len()
        invariant
            views == g@.map_values(string_view()),
            views.len() == g@.len(),
            0 <= i <= g@.len(),
            out@ == crate::strutil::spec_comma_views(views.take(i as int)),
        decreases g@.len() - i,
    {
        proof {
            assert(views.take(i + 1).drop_last() =~= views.take(i as int));
            assert(views.take(i + 1).last() == views[i as int]);
            assert(views[i as int] == g@[i as int]@);
        }
        if i > 0 {
            out.append(", ");
        }
        out.append(g[i].as_str());
        proof {
            if i == 0 {
                assert(out@ =~= crate::strutil::spec_comma_views(views.take(1)));
            }
        }
        i = i + 1;
    }
    proof {
        assert(views.take(views.len() as int) =~= views);
    }
    out
}

/// Renders one flag group for a message.
fn flag_group(g: &Vec<String>) -> (r: String)
    ensures
        r@ == spec_flag_group(*g),
{
    let mut out = String::new();
    if g.len() == 1 {
        out.append("`");
        out.append(g[0].as_str());
        out.append("`");
        proof {
            assert(out@ =~= spec_flag_group(*g));
        }
    } else {
        out.append("`[");
        let joined = comma_join(g);
        out.append(joined.as_str());
        out.append("]`");
        proof {
            assert(out@ =~= spec_flag_group(*g));
        }
    }
    out
}

/// Joins flag groups with a separator, as the conflict messages print
/// them.
pub fn join_iter(items: &Vec<Vec<String>>, sep: &str) -> (r: String)
    ensures
        r@ == spec_join_groups(items@, sep@),
{
    let mut out = String::new();
    let mut i: usize = 0;
    proof {
        assert(items@.take(0) =~= Seq::<Vec<String>>::empty());
    }
    while i < items.len()
        invariant
            0 <= i <= items@.len(),
            out@ == spec_join_groups(items@.take(i as int), sep@),
        decreases items@.len() - i,
    {
        proof {
            assert(items@.take(i + 1).drop_last() =~= items@.take(i as int));
            assert(items@.take(i + 1).last() == items@[i as int]);
        }
        if i > 0 {
            out.append(sep);
        }
        let group = flag_group(&items[i]);
        out.append(group.as_str());
        proof {
            if i == 0 {
                assert(out@ =~= spec_join_groups(items@.take(1), sep@));
            }
        }
        i = i + 1;
    }
    proof {
        assert(items@.take(items@.len() as int) =~= items@);
    }
    out
}

/// The allowed option values joined as `'a', 'b'`.
pub open spec fn spec_quoted_join(g: Seq<String>) -> Seq<char>
    decreases g.len(),
{
    if g.len() == 0 {
        Seq::empty()
    } else if g.len() == 1 {
        "'"@ + g[0]@ + "'"@
    } else {
        spec_quoted_join(g.drop_last()) + ", '"@ + g.last()@ + "'"@
    }
}

fn quoted_join(g: &Vec<String>) -> (r: String)
    ensures
        r@ == spec_quoted_join(g@),
{
    let mut out = String::new();
    let mut i: usize = 0;
    proof {
        assert(g@.take(0) =~= Seq::<String>::empty());
    }
    while i < g.len()
        invariant
            0 <= i <= g@.len(),
            out@ == spec_quoted_join(g@.take(i as int)),
        decreases g@.len() - i,
    {
        proof {
            assert(g@.take(i + 1).drop_last() =~= g@.take(i as int));
            assert(g@.take(i + 1).last() == g@[i as int]);
        }
        if i > 0 {
            out.append(", '");
        } else {
            out.append("'");
        }
        out.append(g[i].as_str());
        out.append("'");
        proof {
            if i == 0 {
                assert(out@ =~= spec_quoted_join(g@.take(1)));
            }
        }
        i = i + 1;
    }
    proof {
        assert(g@.take(g@.len() as int) =~= g@);
    }
    out
}

/// The message each rejection prints.
pub open spec fn spec_args_error_message(e: ArgsError) -> Seq<char> {
    match e {
        ArgsError::PkgIdIsLocal => "pkgid must be a `name:semver` pair, not a local path."@,
        ArgsError::FlagRequiresRemote { provided_short, provided_long } => "flag ["@ + provided_short@
            + ", "@ + provided_long@ + "] requires that the crate be remote"@,
        ArgsError::NameRequired => "A package name must be supplied"@,
        ArgsError::Exclusive { bad } => "the flags "@ + spec_join_groups(bad@, " and "@)
            + " cannot be used at the same time"@,
        ArgsError::ExclusiveWith { bad, provided_short, provided_long } => "`["@ + provided_short@
            + ", "@ + provided_long@ + "]` cannot be used with: "@ + spec_join_groups(
            bad@,
            " or "@,
        ),
        ArgsError::Inclusive { bad, provided_short, provided_long } => "`["@ + provided_short@ + ", "@
            + provided_long@ + "]` must be used with one of "@ + spec_join_groups(bad@, " or "@),
        ArgsError::NoCrateName => "a crate name must be provided"@,
        ArgsError::NoCrateOrPkgId => "no crate name, or pkgid spec provided."@,
        ArgsError::TooManyCrates { n } => "too many crate names ("@ + spec_decimal(n as int)
            + ") were provided. only 1 is allowed"@,
        ArgsError::UnknownOption { option, allowed } => "unknown option '"@ + option@
            + "'. only one of ["@ + spec_quoted_join(allowed@) + "] is allowed."@,
    }
}

impl ArgsError {
    /// The message this rejection prints.
    pub fn message(&self) -> (r: String)
        ensures
            r@ == spec_args_error_message(*self),
    {
        let mut out = String::new();
        match self {
            ArgsError::PkgIdIsLocal => {
                out.append("pkgid must be a `name:semver` pair, not a local path.");
            },
            ArgsError::FlagRequiresRemote { provided_short, provided_long } => {
                out.append("flag [");
                out.append(provided_short.as_str());
                out.append(", ");
                out.append(provided_long.as_str());
                out.append("] requires that the crate be remote");
            },
            ArgsError::NameRequired => {
                out.append("A package name must be supplied");
            },
            ArgsError::Exclusive { bad } => {
                out.append("the flags ");
                let joined = join_iter(bad, " and ");
                out.append(joined.as_str());
                out.append(" cannot be used at the same time");
            },
            ArgsError::ExclusiveWith { bad, provided_short, provided_long } => {
                out.append("`[");
                out.append(provided_short.as_str());
                out.append(", ");
                out.append(provided_long.as_str());
                out.append("]` cannot be used with: ");
                let joined = join_iter(bad, " or ");
                out.append(joined.as_str());
            },
            ArgsError::Inclusive { bad, provided_short, provided_long } => {
                out.append("`[");
                out.append(provided_short.as_str());
                out.append(", ");
                out.append(provided_long.as_str());
                out.append("]` must be used with one of ");
                let joined = join_iter(bad, " or ");
                out.append(joined.as_str());
            },
            ArgsError::NoCrateName => {
                out.append("a crate name must be provided");
            },
            ArgsError::NoCrateOrPkgId => {
                out.append("no crate name, or pkgid spec provided.");
            },
            ArgsError::TooManyCrates { n } => {
                out.append("too many crate names (");
                let num = decimal(*n as u64);
                out.append(num.as_str());
                out.append(") were provided. only 1 is allowed");
            },
            ArgsError::UnknownOption { option, allowed } => {
                out.append("unknown option '");
                out.append(option.as_str());
                out.append("'. only one of [");
                let joined = quoted_join(allowed);
                out.append(joined.as_str());
                out.append("] is allowed.");
            },
        }
        proof {
            assert(out@ =~= spec_args_error_message(*self));
        }
        out
    }
}

/// A package identifier: a remote name with an optional exact version, or
/// a local path.
pub enum PkgId {
    /// A package to look up in the remote index.
    Remote {
        /// The package name.
        name: String,
        /// The exact version requested, if one was.
        semver: Option<String>,
    },
    /// A local directory or manifest file.
    Local(String),
}

impl PkgId {
    /// The name of the package: the remote name, or the local path.
    pub fn name(&self) -> (r: &str)
        ensures
            match self {
                PkgId::Remote { name, .. } => r@ == name@,
                PkgId::Local(p) => r@ == p@,
            },
    {
        match self {
            PkgId::Remote { name, .. } => name.as_str(),
            PkgId::Local(p) => p.as_str(),
        }
    }

    /// Whether the identifier names a local path.
    pub fn is_local(&self) -> (r: bool)
        ensures
            r == (self is Local),
    {
        match self {
            PkgId::Local(_) => true,
            PkgId::Remote { .. } => false,
        }
    }

    /// How the identifier is written: the name, with ":{version}" after
    /// it when an exact version was requested, or the local path.
    pub open spec fn spec_render(id: PkgId) -> Seq<char> {
        match id {
            PkgId::Remote { name, semver } => match semver {
                Some(v) => name@ + ":"@ + v@,
                None => name@,
            },
            PkgId::Local(p) => p@,
        }
    }

    /// Writes the identifier out as the user gave it.
    pub fn render(&self) -> (r: String)
        ensures
            r@ == PkgId::spec_render(*self),
    {
        let mut out = String::new();
        match self {
            PkgId::Remote { name, semver } => {
                out.append(name.as_str());
                match semver {
                    Some(v) => {
                        out.append(":");
                        out.append(v.as_str());
                    },
                    None => {},
                }
            },
            PkgId::Local(p) => {
                out.append(p.as_str());
            },
        }
        proof {
            assert(out@ =~= PkgId::spec_render(*self));
        }
        out
    }
}

/// Splits a remote identifier at the first colon: the name before it and,
/// when a colon occurs, the version after it.
pub fn split_pkgid(input: &str) -> (r: (String, Option<String>))
    ensures
        r.0@ == input@.take(spec_find_char(input@, ':')),
        match r.1 {
            Some(v) => spec_find_char(input@, ':') < input@.len() && v@ == input@.skip(
                spec_find_char(input@, ':') + 1,
            ),
            None => spec_find_char(input@, ':') == input@.len(),
        },
{
    let len = input.unicode_len();
    let at = find_char(input, ':');
    proof {
        lemma_find_char(input@, ':');
    }
    let name = input.substring_char(0, at);
    if at < len {
        let semver = input.substring_char(at + 1, len);
        proof {
            assert(semver@ =~= input@.skip(at + 1));
        }
        (String::from_str(name), Some(String::from_str(semver)))
    } else {
        (String::from_str(name), None)
    }
}

/// The validated input of one invocation.
pub struct Args {
    /// List implied features and optional dependencies as well.
    pub verbose: bool,
    /// Include packages that may not be published.
    pub show_private: bool,
    /// List every version of the package instead of one report.
    pub list: bool,
    /// Leave the features out of the report.
    pub no_features: bool,
    /// List the dependencies in the report.
    pub show_deps: bool,
    /// How to treat withdrawn versions in a listing, where given.
    pub show_yanked: Option<YankStatus>,
    /// Print only the name and version.
    pub name_only: bool,
    /// What to look up.
    pub pkgid: PkgId,
    /// Never touch the network.
    pub offline: bool,
}

/// The conflicts the list flag has, in the order the message names them.
pub open spec fn spec_list_conflicts(a: Args) -> Seq<Seq<Seq<char>>> {
    (if a.no_features {
        seq![seq!["-n"@, "--no-features"@]]
    } else {
        Seq::empty()
    }) + (if a.show_deps {
        seq![seq!["-d"@, "--deps"@]]
    } else {
        Seq::empty()
    }) + (if a.show_private {
        seq![seq!["-r"@, "--restricted"@]]
    } else {
        Seq::empty()
    }) + (if a.pkgid is Local {
        seq![seq!["<crate>"@]]
    } else {
        Seq::empty()
    })
}

/// Which rejection, if any, the flag combination earns; the checks apply
/// in this order.
pub open spec fn spec_flags_error(a: Args, e: ArgsError) -> bool {
    if a.list && (a.no_features || a.show_deps || a.show_private || a.pkgid is Local) {
        &&& e matches ArgsError::ExclusiveWith { bad, provided_short, provided_long }
        &&& flag_groups_view(bad@) == spec_list_conflicts(a)
        &&& provided_short@ == "-l"@
        &&& provided_long@ == "--list"@
    } else if a.show_yanked is Some && a.pkgid is Local {
        &&& e matches ArgsError::FlagRequiresRemote { provided_short, provided_long }
        &&& provided_short@ == "-y"@
        &&& provided_long@ == "--show-yanked"@
    } else if a.name_only && a.show_deps {
        &&& e matches ArgsError::ExclusiveWith { bad, provided_short, provided_long }
        &&& flag_groups_view(bad@) == seq![seq!["-d"@, "--deps"@]]
        &&& provided_short@ == "-s"@
        &&& provided_long@ == "--short"@
    } else if a.no_features && !a.show_deps && !a.name_only {
        &&& e matches ArgsError::Inclusive { bad, provided_short, provided_long }
        &&& flag_groups_view(bad@) == seq![seq!["-d"@, "--deps"@], seq!["-s"@, "--short"@]]
        &&& provided_short@ == "-n"@
        &&& provided_long@ == "--no-features"@
    } else if !(a.pkgid is Local) && a.show_private {
        &&& e matches ArgsError::Inclusive { bad, provided_short, provided_long }
        &&& flag_groups_view(bad@) == seq![seq!["--manifest-path"@, "or implicit <crate>"@]]
        &&& provided_short@ == "-r"@
        &&& provided_long@ == "--restricted"@
    } else {
        false
    }
}

/// Whether the flag combination passes every check.
pub open spec fn spec_flags_ok(a: Args) -> bool {
    &&& !(a.list && (a.no_features || a.show_deps || a.show_private || a.pkgid is Local))
    &&& !(a.show_yanked is Some && a.pkgid is Local)
    &&& !(a.name_only && a.show_deps)
    &&& !(a.no_features && !a.show_deps && !a.name_only)
    &&& !(!(a.pkgid is Local) && a.show_private)
}

fn flag_pair(short: &str, long: &str) -> (r: Vec<String>)
    ensures
        r@.map_values(string_view()) == seq![short@, long@],
{
    let mut g: Vec<String> = Vec::new();
    g.push(String::from_str(short));
    g.push(String::from_str(long));
    proof {
        assert(g@.map_values(string_view()) =~= seq![short@, long@]);
    }
    g
}

fn flag_single(text: &str) -> (r: Vec<String>)
    ensures
        r@.map_values(string_view()) == seq![text@],
{
    let mut g: Vec<String> = Vec::new();
    g.push(String::from_str(text));
    proof {
        assert(g@.map_values(string_view()) =~= seq![text@]);
    }
    g
}

impl Args {
    /// Rejects contradictory flag combinations: listing conflicts with
    /// report-shaping flags and local identifiers, withdrawal filtering
    /// requires a remote identifier, the short form conflicts with the
    /// dependency listing, leaving features out requires something else to
    /// print, and private packages only exist locally. An input that
    /// passes every check is returned unchanged.
    pub fn verify_flags(this: Args) -> (r: Result<Args, ArgsError>)
        ensures
            match r {
                Ok(a) => a == this && spec_flags_ok(this),
                Err(e) => spec_flags_error(this, e),
            },
    {
        if this.list && (this.no_features || this.show_deps || this.show_private
            || this.pkgid.is_local()) {
            let mut bad: Vec<Vec<String>> = Vec::new();
            let ghost mut view: Seq<Seq<Seq<char>>> = Seq::empty();
            proof {
                assert(flag_groups_view(bad@) =~= view);
            }
            if this.no_features {
                let ghost pre = bad@;
                bad.push(flag_pair("-n", "--no-features"));
                proof {
                    view = view + seq![seq!["-n"@, "--no-features"@]];
                    assert(flag_groups_view(bad@) =~= view);
                }
            }
            if this.show_deps {
                bad.push(flag_pair("-d", "--deps"));
                proof {
                    view = view + seq![seq!["-d"@, "--deps"@]];
                    assert(flag_groups_view(bad@) =~= view);
                }
            }
            if this.show_private {
                bad.push(flag_pair("-r", "--restricted"));
                proof {
                    view = view + seq![seq!["-r"@, "--restricted"@]];
                    assert(flag_groups_view(bad@) =~= view);
                }
            }
            if this.pkgid.is_local() {
                bad.push(flag_single("<crate>"));
                proof {
                    view = view + seq![seq!["<crate>"@]];
                    assert(flag_groups_view(bad@) =~= view);
                }
            }
            proof {
                assert(view =~= spec_list_conflicts(this));
            }
            return Err(ArgsError::exclusive_with(bad, "-l", "--list"));
        }
        if this.show_yanked.is_some() && this.pkgid.is_local() {
            return Err(ArgsError::FlagRequiresRemote {
                provided_short: String::from_str("-y"),
                provided_long: String::from_str("--show-yanked"),
            });
        }
        if this.name_only && this.show_deps {
            let mut bad: Vec<Vec<String>> = Vec::new();
            bad.push(flag_pair("-d", "--deps"));
            proof {
                assert(flag_groups_view(bad@) =~= seq![seq!["-d"@, "--deps"@]]);
            }
            return Err(ArgsError::exclusive_with(bad, "-s", "--short"));
        }
        if this.no_features && (!this.show_deps && !this.name_only) {
            let mut bad: Vec<Vec<String>> = Vec::new();
            bad.push(flag_pair("-d", "--deps"));
            bad.push(flag_pair("-s", "--short"));
            proof {
                assert(flag_groups_view(bad@) =~= seq![
                    seq!["-d"@, "--deps"@],
                    seq!["-s"@, "--short"@],
                ]);
            }
            return Err(ArgsError::inclusive_with(bad, "-n", "--no-features"));
        }
        if !this.pkgid.is_local() && this.show_private {
            let mut bad: Vec<Vec<String>> = Vec::new();
            let g = flag_pair("--manifest-path", "or implicit <crate>");
            bad.push(g);
            proof {
                assert(flag_groups_view(bad@) =~= seq![
                    seq!["--manifest-path"@, "or implicit <crate>"@],
                ]);
            }
            return Err(ArgsError::inclusive_with(bad, "-r", "--restricted"));
        }
        Ok(this)
    }
}

/// Which of the help texts to print.
pub enum Help {
    /// The detailed help.
    Long,
    /// The one-line-per-flag help.
    Short,
    /// The help shown when run outside the expected subcommand.
    Cargo,
}

/// The help text each form prints.
pub open spec fn spec_help_text(h: Help) -> Seq<char> {
    match h {
        Help::Cargo => "USAGE:\n    cargo <SUBCOMMAND>\n\nFLAGS:\n    -h, --help       Prints help information\n    -V, --version    Prints version information\n\nSUBCOMMANDS:\n    help             Prints this message or the help of the given subcommand(s)\n    whatfeatures     the `whatfeatures` command"@,
        Help::Short => "the `whatfeatures` command\n\nUSAGE:\n    cargo whatfeatures [FLAGS] [OPTIONS] <crate>\n\nFLAGS:\n    -h, --help                  Prints help information\n    -V, --version               Displays the program name and version\n    -d, --deps                  Display dependencies for the crate\n    -n, --no-features           Disable listing the features for the crate\n    -r, --restricted            When used on a local workspace, also included private packages\n    -l, --list                  List all versions for the crate\n    -s, --short                 Display only the name and latest version\n    -v, --verbose               Print all leaf nodes and optional deps\n    -o, --offline               Don't connect to the internet, limits the availities of this.\n    --print-cache-dir           Prints out the path to the cache directory\n    --purge                     Purges the local cache\n\nOPTIONS:\n    -c, --color <WHEN>          Attempts to use colors when printing as text [default: auto]\n    -p, --pkgid <SPEC>          A `pkgid` spec. e.g. cargo:1.43.0\n    --manifest-path <PATH>      A path to the Cargo.toml you want to read, locally.\n    -y, --show-yanked <yanked>  Shows any yanked versions when using `--list`. [default: exclude].\n\nARGS:\n    <crate>                     The name of a remote crate to retrieve information for.\n"@,
        Help::Long => "the `whatfeatures` command\n\nUSAGE:\n    cargo whatfeatures [FLAGS] [OPTIONS] <crate>\n\nFLAGS:\n    -h, --help\n        Prints help information\n\n    -V, --version\n        Displays the program name and version\n\n    -d, --deps\n        Display dependencies for the crate\n        This will list the required dependencies\n\n    -n, --no-features\n        Disable listing the features for the crate\n\n    -r, --restricted\n        When used on a local workspace, also included private packages\n\n    -l, --list\n        List all versions for the crate.\n        When using the `-y` option, yanked crates can be filtered.\n\n    -s, --short\n        Display only the name and latest version, such as foo = 0.1.2\n\n    -v, --verbose\n        When this is enabled, all 'implied' features will be listed.\n        Also, optional dependencies will be listed. Optional deps are technically features.\n\n    -o, --offline\n        Don't connect to the internet, limits the availities of this.\n\n    --print-cache-dir\n        Prints out the path to the cache directory\n\n    --purge\n        Purges the local cache.\n\nOPTIONS:\n    -c, --color [always, auto, never]\n        Attempts to use colors when printing as text [default: auto]\n\n    -p, --pkgid <semver>\n        A specific version to lookup. e.g. foo:0.7.1\n\n    --manifest-path <PATH>\n        A path to the Cargo.toml you want to read, locally.\n\n    -y, --show-yanked <exclude, include, only>\n        Shows any yanked versions when using `--list`. [default: exclude].\n\nARGS:\n    <crate>  The name of the crate to retrieve information for.\n"@,
    }
}

impl Help {
    /// The text this form prints.
    pub fn text(&self) -> (r: String)
        ensures
            r@ == spec_help_text(*self),
    {
        let mut out = String::new();
        match self {
            Help::Cargo => {
                out.append(
                    "USAGE:\n    cargo <SUBCOMMAND>\n\nFLAGS:\n    -h, --help       Prints help information\n    -V, --version    Prints version information\n\nSUBCOMMANDS:\n    help             Prints this message or the help of the given subcommand(s)\n    whatfeatures     the `whatfeatures` command",
                );
            },
            Help::Short => {
                out.append(
                    "the `whatfeatures` command\n\nUSAGE:\n    cargo whatfeatures [FLAGS] [OPTIONS] <crate>\n\nFLAGS:\n    -h, --help                  Prints help information\n    -V, --version               Displays the program name and version\n    -d, --deps                  Display dependencies for the crate\n    -n, --no-features           Disable listing the features for the crate\n    -r, --restricted            When used on a local workspace, also included private packages\n    -l, --list                  List all versions for the crate\n    -s, --short                 Display only the name and latest version\n    -v, --verbose               Print all leaf nodes and optional deps\n    -o, --offline               Don't connect to the internet, limits the availities of this.\n    --print-cache-dir           Prints out the path to the cache directory\n    --purge                     Purges the local cache\n\nOPTIONS:\n    -c, --color <WHEN>          Attempts to use colors when printing as text [default: auto]\n    -p, --pkgid <SPEC>          A `pkgid` spec. e.g. cargo:1.43.0\n    --manifest-path <PATH>      A path to the Cargo.toml you want to read, locally.\n    -y, --show-yanked <yanked>  Shows any yanked versions when using `--list`. [default: exclude].\n\nARGS:\n    <crate>                     The name of a remote crate to retrieve information for.\n",
                );
            },
            Help::Long => {
                out.append(
                    "the `whatfeatures` command\n\nUSAGE:\n    cargo whatfeatures [FLAGS] [OPTIONS] <crate>\n\nFLAGS:\n    -h, --help\n        Prints help information\n\n    -V, --version\n        Displays the program name and version\n\n    -d, --deps\n        Display dependencies for the crate\n        This will list the required dependencies\n\n    -n, --no-features\n        Disable listing the features for the crate\n\n    -r, --restricted\n        When used on a local workspace, also included private packages\n\n    -l, --list\n        List all versions for the crate.\n        When using the `-y` option, yanked crates can be filtered.\n\n    -s, --short\n        Display only the name and latest version, such as foo = 0.1.2\n\n    -v, --verbose\n        When this is enabled, all 'implied' features will be listed.\n        Also, optional dependencies will be listed. Optional deps are technically features.\n\n    -o, --offline\n        Don't connect to the internet, limits the availities of this.\n\n    --print-cache-dir\n        Prints out the path to the cache directory\n\n    --purge\n        Purges the local cache.\n\nOPTIONS:\n    -c, --color [always, auto, never]\n        Attempts to use colors when printing as text [default: auto]\n\n    -p, --pkgid <semver>\n        A specific version to lookup. e.g. foo:0.7.1\n\n    --manifest-path <PATH>\n        A path to the Cargo.toml you want to read, locally.\n\n    -y, --show-yanked <exclude, include, only>\n        Shows any yanked versions when using `--list`. [default: exclude].\n\nARGS:\n    <crate>  The name of the crate to retrieve information for.\n",
                );
            },
        }
        proof {
            assert(out@ =~= spec_help_text(*self));
        }
        out
    }
}

} // verus!
