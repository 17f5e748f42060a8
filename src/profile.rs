use crate::protocol::command::{CommandView, ShellCommand};
use crate::text::{lemma_text_lt_total, lemma_text_lt_transitive, text_less, text_lt};
use vstd::prelude::*;
use vstd::string::*;

verus! {

/// The cache key under which the last selected profile is kept.
pub const CURRENT_PROFILE_KEY: &'static str = "current_profile";

/// The cloud providers, in the order in which they are asked for profiles.
#[derive(Debug, Clone, Copy, PartialEq, Eq, Structural)]
pub enum Provider {
    Aws,
    Gcp,
    Azure,
}

/// A profile that the user can select.
#[derive(Debug)]
pub struct Profile {
    pub provider: String,
    pub name: String,
    pub display: String,
}

/// What a selection among the listed profiles comes to.
pub enum SelectionPlan {
    /// No provider listed a profile: nothing is sent and nothing cached.
    NoProfiles,
    /// The user selected nothing: every provider's keys are unset, nothing is cached.
    CleanAll { commands: Vec<ShellCommand> },
    /// The user selected profile `name` of `provider`.
    Activate { provider: Provider, name: String },
    /// The selected profile names a provider that is not known.
    UnknownProvider { tag: String },
}

/// The tag that names a provider in profiles and in the cache.
pub open spec fn provider_tag(p: Provider) -> Seq<char> {
    match p {
        Provider::Aws => "aws"@,
        Provider::Gcp => "gcp"@,
        Provider::Azure => "azure"@,
    }
}

/// The provider that a tag names, if any.
pub open spec fn provider_named(tag: Seq<char>) -> Option<Provider> {
    if tag == "aws"@ {
        Some(Provider::Aws)
    } else if tag == "gcp"@ {
        Some(Provider::Gcp)
    } else if tag == "azure"@ {
        Some(Provider::Azure)
    } else {
        None
    }
}

/// The environment keys of each provider, unset together when the user
/// selects nothing: AWS, then GCP, then Azure.
pub open spec fn known_keys() -> Seq<Seq<char>> {
    seq![
        "AWS_PROFILE"@,
        "AWS_DEFAULT_PROFILE"@,
        "AWS_ACCESS_KEY_ID"@,
        "AWS_SECRET_ACCESS_KEY"@,
        "AWS_SESSION_TOKEN"@,
        "AWS_REGION"@,
        "AWS_DEFAULT_REGION"@,
        "GOOGLE_APPLICATION_CREDENTIALS"@,
        "GCLOUD_PROJECT"@,
        "GOOGLE_CLOUD_PROJECT"@,
        "AZURE_SUBSCRIPTION_ID"@,
        "AZURE_TENANT_ID"@,
        "AZURE_CLIENT_ID"@,
        "AZURE_CLIENT_SECRET"@,
    ]
}

/// One unset command for each key, in the same order.
pub open spec fn unset_all(keys: Seq<Seq<char>>) -> Seq<CommandView> {
    keys.map_values(|k: Seq<char>| CommandView::UnsetEnv { key: k })
}

/// The views of a vector of commands.
pub open spec fn command_views(v: Seq<ShellCommand>) -> Seq<CommandView> {
    v.map_values(|c: ShellCommand| c@)
}

/// The commands that activate a profile. `detail` is what the provider's
/// own tool reported: the region of an AWS profile, the project of a GCP
/// configuration, the subscription id of an Azure subscription.
pub open spec fn activation(p: Provider, name: Seq<char>, detail: Option<Seq<char>>) -> Seq<
    CommandView,
> {
    match p {
        Provider::Aws => {
            let head = seq![
                CommandView::SetEnv { key: "AWS_PROFILE"@, value: name },
                CommandView::SetEnv { key: "AWS_DEFAULT_PROFILE"@, value: name },
                CommandView::UnsetEnv { key: "AWS_ACCESS_KEY_ID"@ },
                CommandView::UnsetEnv { key: "AWS_SECRET_ACCESS_KEY"@ },
                CommandView::UnsetEnv { key: "AWS_SESSION_TOKEN"@ },
            ];
            match detail {
                Some(region) => head + seq![
                    CommandView::SetEnv { key: "AWS_REGION"@, value: region },
                    CommandView::SetEnv { key: "AWS_DEFAULT_REGION"@, value: region },
                ],
                None => head,
            }
        },
        Provider::Gcp => match detail {
            Some(project) => seq![
                CommandView::SetEnv { key: "GOOGLE_CLOUD_PROJECT"@, value: project },
                CommandView::SetEnv { key: "GCLOUD_PROJECT"@, value: project },
            ],
            None => Seq::empty(),
        },
        Provider::Azure => match detail {
            Some(id) => seq![CommandView::SetEnv { key: "AZURE_SUBSCRIPTION_ID"@, value: id }],
            None => Seq::empty(),
        },
    }
}

/// The cached value that records a selected profile: `provider:name`.
pub open spec fn profile_entry(p: Provider, name: Seq<char>) -> Seq<char> {
    provider_tag(p) + ":"@ + name
}

impl Profile {
    /// A profile of `provider` named `name`, shown as `icon provider:name`.
    pub fn new(provider: &str, name: &str, icon: &str) -> (r: Self)
        ensures
            r.provider@ == provider@,
            r.name@ == name@,
            r.display@ == icon@ + " "@ + provider@ + ":"@ + name@,
    {
        let mut display = String::from_str(icon);
        display.append(" ");
        display.append(provider);
        display.append(":");
        display.append(name);
        Profile { provider: String::from_str(provider), name: String::from_str(name), display }
    }
}

impl Provider {
    /// The tag of this provider.
    pub fn tag(&self) -> (r: &'static str)
        ensures
            r@ == provider_tag(*self),
    {
        match self {
            Provider::Aws => "aws",
            Provider::Gcp => "gcp",
            Provider::Azure => "azure",
        }
    }

    /// The provider that `tag` names.
    pub fn from_tag(tag: &str) -> (r: Option<Provider>)
        ensures
            r == provider_named(tag@),
    {
        let t = String::from_str(tag);
        if t == String::from_str("aws") {
            Some(Provider::Aws)
        } else if t == String::from_str("gcp") {
            Some(Provider::Gcp)
        } else if t == String::from_str("azure") {
            Some(Provider::Azure)
        } else {
            None
        }
    }
}

/// The commands that clear every provider's keys from the shell.
pub fn clean_all_profiles() -> (r: Vec<ShellCommand>)
    ensures
        command_views(r@) == unset_all(known_keys()),
{
    let mut r: Vec<ShellCommand> = Vec::new();
    proof {
        reveal_strlit("AWS_PROFILE");
        reveal_strlit("AWS_DEFAULT_PROFILE");
        reveal_strlit("AWS_ACCESS_KEY_ID");
        reveal_strlit("AWS_SECRET_ACCESS_KEY");
        reveal_strlit("AWS_SESSION_TOKEN");
        reveal_strlit("AWS_REGION");
        reveal_strlit("AWS_DEFAULT_REGION");
        reveal_strlit("GOOGLE_APPLICATION_CREDENTIALS");
        reveal_strlit("GCLOUD_PROJECT");
        reveal_strlit("GOOGLE_CLOUD_PROJECT");
        reveal_strlit("AZURE_SUBSCRIPTION_ID");
        reveal_strlit("AZURE_TENANT_ID");
        reveal_strlit("AZURE_CLIENT_ID");
        reveal_strlit("AZURE_CLIENT_SECRET");
    }
    r.push(ShellCommand::unset_env("AWS_PROFILE"));
    r.push(ShellCommand::unset_env("AWS_DEFAULT_PROFILE"));
    r.push(ShellCommand::unset_env("AWS_ACCESS_KEY_ID"));
    r.push(ShellCommand::unset_env("AWS_SECRET_ACCESS_KEY"));
    r.push(ShellCommand::unset_env("AWS_SESSION_TOKEN"));
    r.push(ShellCommand::unset_env("AWS_REGION"));
    r.push(ShellCommand::unset_env("AWS_DEFAULT_REGION"));
    r.push(ShellCommand::unset_env("GOOGLE_APPLICATION_CREDENTIALS"));
    r.push(ShellCommand::unset_env("GCLOUD_PROJECT"));
    r.push(ShellCommand::unset_env("GOOGLE_CLOUD_PROJECT"));
    r.push(ShellCommand::unset_env("AZURE_SUBSCRIPTION_ID"));
    r.push(ShellCommand::unset_env("AZURE_TENANT_ID"));
    r.push(ShellCommand::unset_env("AZURE_CLIENT_ID"));
    r.push(ShellCommand::unset_env("AZURE_CLIENT_SECRET"));
    assert(command_views(r@) =~= unset_all(known_keys()));
    r
}

/// The commands that activate profile `name` of `provider`, given what the
/// provider's tool reported for it.
pub fn activation_commands(provider: Provider, name: &str, detail: Option<&str>) -> (r: Vec<
    ShellCommand,
>)
    ensures
        command_views(r@) == activation(
            provider,
            name@,
            match detail {
                Some(d) => Some(d@),
                None => None,
            },
        ),
{
    let mut r: Vec<ShellCommand> = Vec::new();
    proof {
        reveal_strlit("AWS_PROFILE");
        reveal_strlit("AWS_DEFAULT_PROFILE");
        reveal_strlit("AWS_ACCESS_KEY_ID");
        reveal_strlit("AWS_SECRET_ACCESS_KEY");
        reveal_strlit("AWS_SESSION_TOKEN");
        reveal_strlit("AWS_REGION");
        reveal_strlit("AWS_DEFAULT_REGION");
        reveal_strlit("GOOGLE_CLOUD_PROJECT");
        reveal_strlit("GCLOUD_PROJECT");
        reveal_strlit("AZURE_SUBSCRIPTION_ID");
    }
    match provider {
        Provider::Aws => {
            r.push(ShellCommand::set_env("AWS_PROFILE", name));
            r.push(ShellCommand::set_env("AWS_DEFAULT_PROFILE", name));
            r.push(ShellCommand::unset_env("AWS_ACCESS_KEY_ID"));
            r.push(ShellCommand::unset_env("AWS_SECRET_ACCESS_KEY"));
            r.push(ShellCommand::unset_env("AWS_SESSION_TOKEN"));
            if let Some(region) = detail {
                r.push(ShellCommand::set_env("AWS_REGION", region));
                r.push(ShellCommand::set_env("AWS_DEFAULT_REGION", region));
            }
        },
        Provider::Gcp => {
            if let Some(project) = detail {
                r.push(ShellCommand::set_env("GOOGLE_CLOUD_PROJECT", project));
                r.push(ShellCommand::set_env("GCLOUD_PROJECT", project));
            }
        },
        Provider::Azure => {
            if let Some(id) = detail {
                r.push(ShellCommand::set_env("AZURE_SUBSCRIPTION_ID", id));
            }
        },
    }
    assert(command_views(r@) =~= activation(
        provider,
        name@,
        match detail {
            Some(d) => Some(d@),
            None => None,
        },
    ));
    r
}

/// Decides what a selection comes to: `selection` is the index the user
/// picked among `profiles`, or `None` where the user cancelled.
pub fn plan_selection(profiles: &Vec<Profile>, selection: Option<usize>) -> (r: SelectionPlan)
    requires
        selection matches Some(i) ==> i < profiles.len(),
    ensures
        profiles.len() == 0 ==> r is NoProfiles,
        profiles.len() > 0 && selection is None ==> (r matches SelectionPlan::CleanAll { commands }
            && command_views(commands@) == unset_all(known_keys())),
        forall|i: usize|
            profiles.len() > 0 && selection == Some(i) ==> match provider_named(
                #[trigger] profiles@[i as int].provider@,
            ) {
                Some(p) => (r matches SelectionPlan::Activate { provider, name } && provider == p
                    && name@ == profiles@[i as int].name@),
                None => (r matches SelectionPlan::UnknownProvider { tag }
                    && tag@ == profiles@[i as int].provider@),
            },
{
    if profiles.len() == 0 {
        return SelectionPlan::NoProfiles;
    }
    match selection {
        None => SelectionPlan::CleanAll { commands: clean_all_profiles() },
        Some(i) => {
            let chosen = &profiles[i];
            match Provider::from_tag(chosen.provider.as_str()) {
                Some(provider) => SelectionPlan::Activate {
                    provider,
                    name: String::from_str(chosen.name.as_str()),
                },
                None => SelectionPlan::UnknownProvider {
                    tag: String::from_str(chosen.provider.as_str()),
                },
            }
        },
    }
}

/// The value cached for a selected profile: `provider:name`.
pub fn profile_entry_value(provider: Provider, name: &str) -> (r: String)
    ensures
        r@ == profile_entry(provider, name@),
{
    let mut r = String::from_str(provider.tag());
    r.append(":");
    r.append(name);
    r
}

/// What `str::trim` leaves of a text.
pub uninterp spec fn trimmed(s: Seq<char>) -> Seq<char>;

/// Relies on `str::trim`: the text without its leading and trailing whitespace.
#[verifier::external_body]
fn trim(s: &str) -> (r: &str)
    ensures
        r@ == trimmed(s@),
{
    s.trim()
}

/// The profile that a section header of the AWS config file names:
/// `[name]` or `[profile name]`, with blanks allowed around each part.
pub open spec fn header_name(line: Seq<char>) -> Option<Seq<char>> {
    let t = trimmed(line);
    if t.len() < 2 || t[0] != '[' || t[t.len() - 1] != ']' {
        None
    } else {
        let inner = trimmed(t.subrange(1, t.len() - 1));
        if inner.len() == 0 {
            None
        } else if inner.len() >= 8 && inner.take(8) == "profile "@ {
            Some(trimmed(inner.skip(8)))
        } else {
            Some(inner)
        }
    }
}

/// The profile named by a section header of the AWS config file, if the line is one.
pub fn parse_profile_header(line: &str) -> (r: Option<String>)
    ensures
        r matches Some(s) ==> header_name(line@) == Some(s@),
        r is None ==> header_name(line@) is None,
{
    let t = trim(line);
    let n = t.unicode_len();
    if n < 2 || t.get_char(0) != '[' || t.get_char(n - 1) != ']' {
        return None;
    }
    let inner = trim(t.substring_char(1, n - 1));
    let m = inner.unicode_len();
    if m == 0 {
        return None;
    }
    if m >= 8 && String::from_str(inner.substring_char(0, 8)) == String::from_str("profile ") {
        let rest = trim(inner.substring_char(8, m));
        proof {
            assert(inner@.skip(8) =~= inner@.subrange(8, m as int));
        }
        Some(String::from_str(rest))
    } else {
        Some(String::from_str(inner))
    }
}

/// What `str::lines` makes of a text: its lines, without their line endings.
pub uninterp spec fn lines_of(s: Seq<char>) -> Seq<Seq<char>>;

/// The views of a vector of strings.
pub open spec fn text_views(v: Seq<String>) -> Seq<Seq<char>> {
    v.map_values(|s: String| s@)
}

/// Each text comes before every later one.
pub open spec fn strictly_sorted(s: Seq<Seq<char>>) -> bool {
    forall|i: int, j: int| 0 <= i < j < s.len() ==> text_lt(#[trigger] s[i], #[trigger] s[j])
}

/// The lines that are not blank, trimmed, in order.
pub open spec fn nonblank(ls: Seq<Seq<char>>) -> Seq<Seq<char>>
    decreases ls.len(),
{
    if ls.len() == 0 {
        Seq::empty()
    } else {
        let rest = nonblank(ls.drop_last());
        let t = trimmed(ls.last());
        if t.len() > 0 {
            rest.push(t)
        } else {
            rest
        }
    }
}

/// `n` is the profile named by one of the lines.
pub open spec fn names_a_header(lines: Seq<Seq<char>>, n: Seq<char>) -> bool {
    exists|j: int| 0 <= j < lines.len() && header_name(#[trigger] lines[j]) == Some(n)
}

/// Relies on `str::lines`: the text split at each newline, a `\r` before it dropped.
#[verifier::external_body]
fn split_lines(s: &str) -> (r: Vec<String>)
    ensures
        text_views(r@) == lines_of(s@),
{
    s.lines().map(|l| l.to_string()).collect()
}

/// The names that a provider's tool prints, one per line; blank lines are skipped.
pub fn listed_names(output: &str) -> (r: Vec<String>)
    ensures
        text_views(r@) == nonblank(lines_of(output@)),
{
    let lines = split_lines(output);
    let ghost ls = lines_of(output@);
    let mut r: Vec<String> = Vec::new();
    let mut i: usize = 0;
    assert(ls.take(0) =~= Seq::<Seq<char>>::empty());
    assert(text_views(r@) =~= Seq::<Seq<char>>::empty());
    while i < lines.len()
        invariant
            text_views(lines@) == ls,
            i <= lines.len(),
            text_views(r@) == nonblank(ls.take(i as int)),
        decreases lines.len() - i,
    {
        let t = trim(lines[i].as_str());
        assert(ls.take(i + 1).drop_last() =~= ls.take(i as int));
        assert(ls.take(i + 1).last() == ls[i as int]);
        if t.unicode_len() > 0 {
            let ghost before = r@;
            r.push(String::from_str(t));
            assert(text_views(r@) =~= text_views(before).push(t@));
        }
        i = i + 1;
    }
    assert(ls.take(lines.len() as int) =~= ls);
    r
}

/// The value that a provider's tool prints: its output trimmed, `None` where that is empty.
pub fn reported_value(output: &str) -> (r: Option<String>)
    ensures
        trimmed(output@).len() == 0 ==> r is None,
        trimmed(output@).len() > 0 ==> (r matches Some(s) && s@ == trimmed(output@)),
{
    let t = trim(output);
    if t.unicode_len() == 0 {
        None
    } else {
        Some(String::from_str(t))
    }
}

/// Adds `x` to a strictly sorted vector, where it is not there yet.
fn insert_sorted(v: &mut Vec<String>, x: String)
    requires
        strictly_sorted(text_views(old(v)@)),
    ensures
        strictly_sorted(text_views(final(v)@)),
        forall|k: Seq<char>|
            text_views(final(v)@).contains(k) <==> (text_views(old(v)@).contains(k) || k == x@),
{
    let ghost old_views = text_views(v@);
    let mut p: usize = 0;
    while p < v.len()
        invariant_except_break
            p <= v.len(),
            text_views(v@) == old_views,
            forall|i: int| 0 <= i < p ==> text_lt(#[trigger] old_views[i], x@),
        ensures
            p <= v.len(),
            text_views(v@) == old_views,
            forall|i: int| 0 <= i < p ==> text_lt(#[trigger] old_views[i], x@),
            p < v.len() ==> !text_lt(old_views[p as int], x@),
        decreases v.len() - p,
    {
        assert(old_views[p as int] == v@[p as int]@);
        if !text_less(v[p].as_str(), x.as_str()) {
            break;
        }
        p = p + 1;
    }
    if p < v.len() {
        assert(old_views[p as int] == v@[p as int]@);
        if v[p] == x {
            assert forall|k: Seq<char>| old_views.contains(k) || k == x@ implies old_views.contains(
                k,
            ) by {
                if k == x@ {
                    assert(old_views[p as int] == k);
                }
            }
            return;
        }
        proof {
            lemma_text_lt_total(old_views[p as int], x@);
        }
    }
    v.insert(p, x);
    let ghost nv = text_views(v@);
    assert(nv =~= old_views.insert(p as int, x@));
    assert forall|i: int, j: int| 0 <= i < j < nv.len() implies text_lt(
        #[trigger] nv[i],
        #[trigger] nv[j],
    ) by {
        if j < p {
            assert(nv[i] == old_views[i] && nv[j] == old_views[j]);
        } else if j == p {
            assert(nv[i] == old_views[i]);
        } else if i == p {
            assert(nv[j] == old_views[j - 1]);
            if j - 1 > p {
                lemma_text_lt_transitive(x@, old_views[p as int], old_views[j - 1]);
            }
        } else if i < p {
            assert(nv[i] == old_views[i] && nv[j] == old_views[j - 1]);
        } else {
            assert(nv[i] == old_views[i - 1] && nv[j] == old_views[j - 1]);
        }
    }
    assert forall|k: Seq<char>| nv.contains(k) <==> (old_views.contains(k) || k == x@) by {
        if nv.contains(k) {
            let i = choose|i: int| 0 <= i < nv.len() && nv[i] == k;
            if i < p {
                assert(old_views[i] == k);
            } else if i > p {
                assert(old_views[i - 1] == k);
            }
        }
        if old_views.contains(k) {
            let i = choose|i: int| 0 <= i < old_views.len() && old_views[i] == k;
            if i < p {
                assert(nv[i] == k);
            } else {
                assert(nv[i + 1] == k);
            }
        }
        if k == x@ {
            assert(nv[p as int] == k);
        }
    }
}

/// The AWS profiles that the lines of the config file name: each once, in order.
pub fn aws_profile_names(lines: &Vec<String>) -> (r: Vec<String>)
    ensures
        strictly_sorted(text_views(r@)),
        forall|n: Seq<char>|
            text_views(r@).contains(n) <==> names_a_header(text_views(lines@), n),
{
    let ghost ls = text_views(lines@);
    let mut r: Vec<String> = Vec::new();
    let mut i: usize = 0;
    assert(text_views(r@) =~= Seq::<Seq<char>>::empty());
    while i < lines.len()
        invariant
            ls == text_views(lines@),
            i <= lines.len(),
            strictly_sorted(text_views(r@)),
            forall|n: Seq<char>|
                text_views(r@).contains(n) <==> names_a_header(ls.take(i as int), n),
        decreases lines.len() - i,
    {
        assert(ls[i as int] == lines@[i as int]@);
        let ghost before = text_views(r@);
        let header = parse_profile_header(lines[i].as_str());
        assert forall|n: Seq<char>|
            names_a_header(ls.take(i + 1), n) <==> (names_a_header(ls.take(i as int), n) || header_name(
                ls[i as int],
            ) == Some(n)) by {
            if names_a_header(ls.take(i + 1), n) {
                let j = choose|j: int|
                    0 <= j < ls.take(i + 1).len() && header_name(#[trigger] ls.take(i + 1)[j])
                        == Some(n);
                if j < i {
                    assert(ls.take(i as int)[j] == ls[j]);
                }
            }
            if names_a_header(ls.take(i as int), n) {
                let j = choose|j: int|
                    0 <= j < ls.take(i as int).len() && header_name(#[trigger] ls.take(
                        i as int,
                    )[j]) == Some(n);
                assert(ls.take(i + 1)[j] == ls[j]);
            }
            if header_name(ls[i as int]) == Some(n) {
                assert(ls.take(i + 1)[i as int] == ls[i as int]);
            }
        }
        match header {
            Some(name) => {
                assert(header_name(ls[i as int]) == Some(name@));
                insert_sorted(&mut r, name);
                assert forall|n: Seq<char>|
                    text_views(r@).contains(n) <==> names_a_header(ls.take(i + 1), n) by {
                    assert(names_a_header(ls.take(i + 1), n) <==> (names_a_header(
                        ls.take(i as int),
                        n,
                    ) || header_name(ls[i as int]) == Some(n)));
                    assert(before.contains(n) <==> names_a_header(ls.take(i as int), n));
                    if n == name@ {
                        assert(header_name(ls[i as int]) == Some(n));
                    }
                }
            },
            None => {
                assert(header_name(ls[i as int]) is None);
            },
        }
        i = i + 1;
    }
    assert(ls.take(lines.len() as int) =~= ls);
    r
}

} // verus!
