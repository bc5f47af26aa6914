//! The path-sensitivity classifier: decides whether a matched directory is
//! part of a system installation, an application, a tool's own cache, or a
//! user configuration area, and therefore risky to delete.

use vstd::prelude::*;

use crate::text::{
    chars_to_string, contains_str, lower_chars, spec_contains, spec_lower, spec_split,
    spec_starts_with, spec_strip_prefix, spec_trim_leading_dots, split_chars, starts_with_str,
    str_chars, strip_prefix_chars, trim_leading_dots,
};

verus! {

/// The outcome of classifying one path.
#[derive(Debug)]
pub struct RiskAnalysis {
    pub is_sensitive: bool,
    pub reason: Option<String>,
}

impl Clone for RiskAnalysis {
    fn clone(&self) -> (res: Self)
        ensures
            res == *self,
    {
        RiskAnalysis {
            is_sensitive: self.is_sensitive,
            reason: match &self.reason {
                Some(s) => Some(s.clone()),
                None => None,
            },
        }
    }
}

/// The mathematical model of a `RiskAnalysis`.
#[verifier::ext_equal]
pub ghost struct RiskView {
    pub is_sensitive: bool,
    pub reason: Option<Seq<char>>,
}

impl View for RiskAnalysis {
    type V = RiskView;

    open spec fn view(&self) -> RiskView {
        RiskView {
            is_sensitive: self.is_sensitive,
            reason: match self.reason {
                Some(ref r) => Some(r@),
                None => None,
            },
        }
    }
}

/// The views of a sequence of string pairs.
pub open spec fn pair_views(v: Seq<(String, String)>) -> Seq<(Seq<char>, Seq<char>)> {
    v.map_values(|p: (String, String)| (p.0@, p.1@))
}

/// Root-level Unix system directories and why each is protected.
pub open spec fn spec_unix_table() -> Seq<(Seq<char>, Seq<char>)> {
    seq![
        ("/bin/"@, "System binaries directory"@),
        ("/sbin/"@, "System administration binaries"@),
        ("/lib/"@, "System libraries"@),
        ("/lib64/"@, "System libraries (64-bit)"@),
        ("/etc/"@, "System configuration directory"@),
        ("/boot/"@, "Boot loader directory"@),
        ("/root/"@, "Root user home directory"@),
        ("/opt/"@, "Optional packages directory"@),
        ("/srv/"@, "Service data directory"@),
        ("/proc/"@, "Process filesystem (virtual)"@),
        ("/sys/"@, "System filesystem (virtual)"@),
        ("/dev/"@, "Device files (virtual)"@),
        ("/run/"@, "Runtime data"@),
        ("/snap/"@, "Snap packages (system)"@),
    ]
}

/// Path fragments of known applications and tool directories, with the
/// application each belongs to.
pub open spec fn spec_app_table() -> Seq<(Seq<char>, Seq<char>)> {
    seq![
        ("/visual studio code/"@, "Visual Studio Code"@),
        ("/vscode/"@, "Visual Studio Code"@),
        ("/code.app/"@, "Visual Studio Code"@),
        ("/discord/"@, "Discord"@),
        ("/discord.app/"@, "Discord"@),
        ("/slack/"@, "Slack"@),
        ("/slack.app/"@, "Slack"@),
        ("/atom/"@, "Atom"@),
        ("/postman/"@, "Postman"@),
        ("/figma/"@, "Figma"@),
        ("/notion/"@, "Notion"@),
        ("/obsidian/"@, "Obsidian"@),
        ("/spotify/"@, "Spotify"@),
        ("/microsoft teams/"@, "Microsoft Teams"@),
        ("/1password/"@, "1Password"@),
        ("/bitwarden/"@, "Bitwarden"@),
        ("/.asdf/"@, "asdf version manager"@),
        ("/.nvm/"@, "Node Version Manager"@),
        ("/.pyenv/"@, "pyenv"@),
        ("/.rbenv/"@, "rbenv"@),
        ("/.volta/"@, "Volta"@),
        ("/.sdkman/"@, "SDKMAN"@),
        ("/.rustup/"@, "rustup"@),
        ("/.goenv/"@, "goenv"@),
        ("/.jabba/"@, "Jabba JDK manager"@),
        ("/.bun/"@, "Bun"@),
        ("/.cargo/"@, "Cargo"@),
        ("/.npm/"@, "npm"@),
        ("/.yarn/"@, "Yarn"@),
        ("/.pnpm/"@, "pnpm"@),
        ("/.composer/"@, "Composer"@),
        ("/.gem/"@, "RubyGems"@),
        ("/.gradle/"@, "Gradle"@),
        ("/.m2/"@, "Maven"@),
        ("/.nuget/"@, "NuGet"@),
        ("/.mix/"@, "Mix (Elixir)"@),
        ("/.hex/"@, "Hex (Elixir)"@),
        ("/.stack/"@, "Stack (Haskell)"@),
        ("/.cabal/"@, "Cabal (Haskell)"@),
        ("/.vscode/"@, "Visual Studio Code"@),
        ("/.vscode-server/"@, "Visual Studio Code Server"@),
        ("/.windsurf/"@, "Windsurf"@),
        ("/.cursor/"@, "Cursor"@),
        ("/.idea/"@, "JetBrains IDE"@),
        ("/.jetbrains/"@, "JetBrains"@),
        ("/.atom/"@, "Atom"@),
        ("/.sublime-text/"@, "Sublime Text"@),
        ("/.zed/"@, "Zed"@),
        ("/.docker/"@, "Docker"@),
        ("/.kube/"@, "Kubernetes"@),
        ("/.aws/"@, "AWS CLI"@),
        ("/.azure/"@, "Azure CLI"@),
        ("/.gcloud/"@, "Google Cloud CLI"@),
        ("/.terraform.d/"@, "Terraform"@),
        ("/.pulumi/"@, "Pulumi"@),
    ]
}

/// The first entry of the Unix table whose path is a prefix of `l`, from `i` on.
pub open spec fn spec_first_prefix_match(l: Seq<char>, i: int) -> Option<int>
    decreases spec_unix_table().len() - i,
{
    if i < 0 || i >= spec_unix_table().len() {
        None
    } else if spec_starts_with(l, spec_unix_table()[i].0) {
        Some(i)
    } else {
        spec_first_prefix_match(l, i + 1)
    }
}

/// The first entry of the application table contained in `l`, from `i` on.
pub open spec fn spec_first_app_match(l: Seq<char>, i: int) -> Option<int>
    decreases spec_app_table().len() - i,
{
    if i < 0 || i >= spec_app_table().len() {
        None
    } else if spec_contains(l, spec_app_table()[i].0) {
        Some(i)
    } else {
        spec_first_app_match(l, i + 1)
    }
}

/// Why an already-lowercased path is an OS-level system path, if it is one.
pub open spec fn spec_system_path_reason(l: Seq<char>) -> Option<Seq<char>> {
    if spec_starts_with(l, "/system/"@) || (spec_starts_with(l, "/system"@) && l.len() == 7) {
        Some("macOS system directory (SIP protected)"@)
    } else if spec_starts_with(l, "/private/"@) {
        Some("macOS private system directory"@)
    } else if spec_first_prefix_match(l, 0) is Some {
        Some(spec_unix_table()[spec_first_prefix_match(l, 0)->0].1 + " (system critical)"@)
    } else if spec_starts_with(l, "/usr/"@) {
        Some("System directory under /usr (protected)"@)
    } else if spec_starts_with(l, "/var/"@) {
        Some("System variable data directory"@)
    } else if spec_contains(l, "/applications/"@) {
        Some("macOS Applications directory"@)
    } else if spec_starts_with(l, "/library/"@) {
        Some("macOS system Library directory"@)
    } else if spec_contains(l, "\\windows\\"@) || spec_contains(l, "/windows/"@) {
        Some("Windows system directory"@)
    } else if spec_contains(l, "\\system32"@) || spec_contains(l, "/system32"@) {
        Some("Windows System32 directory"@)
    } else if spec_contains(l, "\\syswow64"@) || spec_contains(l, "/syswow64"@) {
        Some("Windows SysWOW64 directory"@)
    } else if spec_contains(l, "program files"@) {
        Some("Windows Program Files directory"@)
    } else if spec_contains(l, "\\programdata"@) || spec_contains(l, "/programdata"@) {
        Some("Windows ProgramData directory"@)
    } else if spec_contains(l, "\\appdata\\"@) || spec_contains(l, "/appdata/"@) {
        Some("Windows AppData directory"@)
    } else if (spec_contains(l, "\\recovery"@) || spec_contains(l, "/recovery"@)) && (
    spec_starts_with(l, "c:\\recovery"@) || spec_starts_with(l, "d:\\recovery"@) || spec_contains(
        l,
        ":\\recovery"@,
    )) {
        Some("Windows Recovery partition"@)
    } else if spec_contains(l, "$recycle.bin"@) {
        Some("Windows Recycle Bin"@)
    } else if spec_contains(l, "system volume information"@) {
        Some("Windows System Volume Information"@)
    } else if spec_starts_with(l, "/snap/"@) {
        Some("Snap packages directory"@)
    } else if spec_starts_with(l, "/flatpak/"@) {
        Some("Flatpak system directory"@)
    } else {
        None
    }
}

/// An already-lowercased path lies inside a user's `Library` directory:
/// some `library` component is two components after `users` or `home`.
pub open spec fn spec_is_user_library(l: Seq<char>) -> bool {
    exists|i: int|
        {
            &&& 0 <= i < spec_split(l, '/').len()
            &&& #[trigger] spec_split(l, '/')[i] == "library"@
            &&& i >= 2
            &&& (spec_split(l, '/')[i - 2] == "users"@ || spec_split(l, '/')[i - 2] == "home"@)
        }
}

/// Why a path falls under the dot-folder rule: it lies under the home
/// directory, directly inside a component that begins with a dot, and is not
/// in the allowed `.local/bin` area.
pub open spec fn spec_dotfolder_reason(path: Seq<char>, home: Seq<char>) -> Option<Seq<char>> {
    let home_l = spec_lower(home);
    let path_l = spec_lower(path);
    match spec_strip_prefix(path_l, home_l) {
        None => None,
        Some(relative) => {
            let parts = spec_split(relative, '/');
            if parts.len() >= 2 && parts[1].len() > 0 && parts[1][0] == '.' {
                if spec_contains(relative, ".local/bin"@) {
                    None
                } else {
                    Some(
                        "Inside ~/."@ + spec_trim_leading_dots(parts[1])
                            + " (tool/config directory)"@,
                    )
                }
            } else {
                None
            }
        },
    }
}

/// The classification of `path` given the home directory, as a whole:
/// system paths first, then the user `Library` rule, then known application
/// fragments, then the dot-folder rule, then common configuration areas.
pub open spec fn spec_analyze_risk(path: Seq<char>, home: Option<Seq<char>>) -> RiskView {
    let l = spec_lower(path);
    if spec_system_path_reason(l) is Some {
        RiskView { is_sensitive: true, reason: spec_system_path_reason(l) }
    } else if spec_is_user_library(l) {
        RiskView { is_sensitive: true, reason: Some("macOS user Library folder"@) }
    } else if spec_first_app_match(l, 0) is Some {
        RiskView {
            is_sensitive: true,
            reason: Some("Part of "@ + spec_app_table()[spec_first_app_match(l, 0)->0].1),
        }
    } else if home is Some && spec_dotfolder_reason(path, home->0) is Some {
        RiskView { is_sensitive: true, reason: spec_dotfolder_reason(path, home->0) }
    } else if spec_contains(l, "/.config/"@) || spec_contains(l, "/.local/share/"@) {
        RiskView { is_sensitive: true, reason: Some("User configuration or application data"@) }
    } else {
        RiskView { is_sensitive: false, reason: None }
    }
}

fn push_pair(t: &mut Vec<(String, String)>, a: &str, b: &str)
    ensures
        pair_views(final(t)@) == pair_views(old(t)@).push((a@, b@)),
{
    t.push((a.to_owned(), b.to_owned()));
    proof {
        assert(pair_views(t@) =~~= pair_views(old(t)@).push((a@, b@)));
    }
}

fn unix_table() -> (t: Vec<(String, String)>)
    ensures
        pair_views(t@) == spec_unix_table(),
{
    let mut t: Vec<(String, String)> = Vec::new();
    push_pair(&mut t, "/bin/", "System binaries directory");
    push_pair(&mut t, "/sbin/", "System administration binaries");
    push_pair(&mut t, "/lib/", "System libraries");
    push_pair(&mut t, "/lib64/", "System libraries (64-bit)");
    push_pair(&mut t, "/etc/", "System configuration directory");
    push_pair(&mut t, "/boot/", "Boot loader directory");
    push_pair(&mut t, "/root/", "Root user home directory");
    push_pair(&mut t, "/opt/", "Optional packages directory");
    push_pair(&mut t, "/srv/", "Service data directory");
    push_pair(&mut t, "/proc/", "Process filesystem (virtual)");
    push_pair(&mut t, "/sys/", "System filesystem (virtual)");
    push_pair(&mut t, "/dev/", "Device files (virtual)");
    push_pair(&mut t, "/run/", "Runtime data");
    push_pair(&mut t, "/snap/", "Snap packages (system)");
    proof {
        assert(pair_views(t@) =~~= spec_unix_table());
    }
    t
}

fn app_table() -> (t: Vec<(String, String)>)
    ensures
        pair_views(t@) == spec_app_table(),
{
    let mut t: Vec<(String, String)> = Vec::new();
    push_pair(&mut t, "/visual studio code/", "Visual Studio Code");
    push_pair(&mut t, "/vscode/", "Visual Studio Code");
    push_pair(&mut t, "/code.app/", "Visual Studio Code");
    push_pair(&mut t, "/discord/", "Discord");
    push_pair(&mut t, "/discord.app/", "Discord");
    push_pair(&mut t, "/slack/", "Slack");
    push_pair(&mut t, "/slack.app/", "Slack");
    push_pair(&mut t, "/atom/", "Atom");
    push_pair(&mut t, "/postman/", "Postman");
    push_pair(&mut t, "/figma/", "Figma");
    push_pair(&mut t, "/notion/", "Notion");
    push_pair(&mut t, "/obsidian/", "Obsidian");
    push_pair(&mut t, "/spotify/", "Spotify");
    push_pair(&mut t, "/microsoft teams/", "Microsoft Teams");
    push_pair(&mut t, "/1password/", "1Password");
    push_pair(&mut t, "/bitwarden/", "Bitwarden");
    push_pair(&mut t, "/.asdf/", "asdf version manager");
    push_pair(&mut t, "/.nvm/", "Node Version Manager");
    push_pair(&mut t, "/.pyenv/", "pyenv");
    push_pair(&mut t, "/.rbenv/", "rbenv");
    push_pair(&mut t, "/.volta/", "Volta");
    push_pair(&mut t, "/.sdkman/", "SDKMAN");
    push_pair(&mut t, "/.rustup/", "rustup");
    push_pair(&mut t, "/.goenv/", "goenv");
    push_pair(&mut t, "/.jabba/", "Jabba JDK manager");
    push_pair(&mut t, "/.bun/", "Bun");
    push_pair(&mut t, "/.cargo/", "Cargo");
    push_pair(&mut t, "/.npm/", "npm");
    push_pair(&mut t, "/.yarn/", "Yarn");
    push_pair(&mut t, "/.pnpm/", "pnpm");
    push_pair(&mut t, "/.composer/", "Composer");
    push_pair(&mut t, "/.gem/", "RubyGems");
    push_pair(&mut t, "/.gradle/", "Gradle");
    push_pair(&mut t, "/.m2/", "Maven");
    push_pair(&mut t, "/.nuget/", "NuGet");
    push_pair(&mut t, "/.mix/", "Mix (Elixir)");
    push_pair(&mut t, "/.hex/", "Hex (Elixir)");
    push_pair(&mut t, "/.stack/", "Stack (Haskell)");
    push_pair(&mut t, "/.cabal/", "Cabal (Haskell)");
    push_pair(&mut t, "/.vscode/", "Visual Studio Code");
    push_pair(&mut t, "/.vscode-server/", "Visual Studio Code Server");
    push_pair(&mut t, "/.windsurf/", "Windsurf");
    push_pair(&mut t, "/.cursor/", "Cursor");
    push_pair(&mut t, "/.idea/", "JetBrains IDE");
    push_pair(&mut t, "/.jetbrains/", "JetBrains");
    push_pair(&mut t, "/.atom/", "Atom");
    push_pair(&mut t, "/.sublime-text/", "Sublime Text");
    push_pair(&mut t, "/.zed/", "Zed");
    push_pair(&mut t, "/.docker/", "Docker");
    push_pair(&mut t, "/.kube/", "Kubernetes");
    push_pair(&mut t, "/.aws/", "AWS CLI");
    push_pair(&mut t, "/.azure/", "Azure CLI");
    push_pair(&mut t, "/.gcloud/", "Google Cloud CLI");
    push_pair(&mut t, "/.terraform.d/", "Terraform");
    push_pair(&mut t, "/.pulumi/", "Pulumi");
    proof {
        assert(pair_views(t@) =~~= spec_app_table());
    }
    t
}

/// Why an already-lowercased path is an OS-level system path that must never
/// be swept, or `None` when it is not one.
#[verifier::loop_isolation(false)]
pub fn check_system_paths(path_str: &str) -> (r: Option<String>)
    ensures
        match r {
            Some(reason) => spec_system_path_reason(path_str@) == Some(reason@),
            None => spec_system_path_reason(path_str@) is None,
        },
{
    let l = str_chars(path_str);
    if starts_with_str(&l, "/system/") || (starts_with_str(&l, "/system") && l.len() == 7) {
        return Some("macOS system directory (SIP protected)".to_owned());
    }
    if starts_with_str(&l, "/private/") {
        return Some("macOS private system directory".to_owned());
    }
    let unix = unix_table();
    let mut i: usize = 0;
    while i < unix.len()
        invariant
            pair_views(unix@) == spec_unix_table(),
            i <= unix@.len(),
            spec_first_prefix_match(path_str@, 0) == spec_first_prefix_match(path_str@, i as int),
            l@ == path_str@,
        decreases unix@.len() - i,
    {
        let prefix: &String = &unix[i].0;
        proof {
            assert(pair_views(unix@)[i as int] == (unix@[i as int].0@, unix@[i as int].1@));
        }
        if starts_with_str(&l, prefix.as_str()) {
            let reason = String::from_str(unix[i].1.as_str());
            return Some(reason.concat(" (system critical)"));
        }
        i = i + 1;
    }
    proof {
        assert(spec_first_prefix_match(path_str@, unix@.len() as int) is None);
    }
    if starts_with_str(&l, "/usr/") {
        return Some("System directory under /usr (protected)".to_owned());
    }
    if starts_with_str(&l, "/var/") {
        return Some("System variable data directory".to_owned());
    }
    if contains_str(&l, "/applications/") {
        return Some("macOS Applications directory".to_owned());
    }
    if starts_with_str(&l, "/library/") {
        return Some("macOS system Library directory".to_owned());
    }
    if contains_str(&l, "\\windows\\") || contains_str(&l, "/windows/") {
        return Some("Windows system directory".to_owned());
    }
    if contains_str(&l, "\\system32") || contains_str(&l, "/system32") {
        return Some("Windows System32 directory".to_owned());
    }
    if contains_str(&l, "\\syswow64") || contains_str(&l, "/syswow64") {
        return Some("Windows SysWOW64 directory".to_owned());
    }
    if contains_str(&l, "program files") {
        return Some("Windows Program Files directory".to_owned());
    }
    if contains_str(&l, "\\programdata") || contains_str(&l, "/programdata") {
        return Some("Windows ProgramData directory".to_owned());
    }
    if contains_str(&l, "\\appdata\\") || contains_str(&l, "/appdata/") {
        return Some("Windows AppData directory".to_owned());
    }
    if contains_str(&l, "\\recovery") || contains_str(&l, "/recovery") {
        if starts_with_str(&l, "c:\\recovery") || starts_with_str(&l, "d:\\recovery")
            || contains_str(&l, ":\\recovery") {
            return Some("Windows Recovery partition".to_owned());
        }
    }
    if contains_str(&l, "$recycle.bin") {
        return Some("Windows Recycle Bin".to_owned());
    }
    if contains_str(&l, "system volume information") {
        return Some("Windows System Volume Information".to_owned());
    }
    if starts_with_str(&l, "/snap/") {
        return Some("Snap packages directory".to_owned());
    }
    if starts_with_str(&l, "/flatpak/") {
        return Some("Flatpak system directory".to_owned());
    }
    None
}

/// Whether an already-lowercased path lies inside a user's `Library`
/// directory, such as `/users/<name>/library` or `/home/<name>/library`.
pub fn is_user_library_path(path_str: &str) -> (r: bool)
    ensures
        r == spec_is_user_library(path_str@),
{
    let l = str_chars(path_str);
    let parts = split_chars(&l, '/');
    let library = str_chars("library");
    let users = str_chars("users");
    let home = str_chars("home");
    let mut i: usize = 0;
    while i < parts.len()
        invariant
            parts.deep_view() == spec_split(path_str@, '/'),
            library@ == "library"@,
            users@ == "users"@,
            home@ == "home"@,
            i <= parts@.len(),
            forall|j: int|
                0 <= j < i ==> !{
                    &&& #[trigger] spec_split(path_str@, '/')[j] == "library"@
                    &&& j >= 2
                    &&& (spec_split(path_str@, '/')[j - 2] == "users"@ || spec_split(
                        path_str@,
                        '/',
                    )[j - 2] == "home"@)
                },
        decreases parts@.len() - i,
    {
        proof {
            assert(parts.deep_view()[i as int] == parts@[i as int]@);
        }
        if crate::text::chars_eq(&parts[i], &library) && i >= 2 {
            proof {
                assert(parts.deep_view()[i - 2] == parts@[i - 2]@);
            }
            if crate::text::chars_eq(&parts[i - 2], &users) || crate::text::chars_eq(
                &parts[i - 2],
                &home,
            ) {
                return true;
            }
        }
        i = i + 1;
    }
    false
}

/// Why `path` falls under the dot-folder rule given the home directory, or
/// `None` when it does not.
pub fn check_dotfolder_rule(path: &str, home: &str) -> (r: Option<String>)
    ensures
        match r {
            Some(reason) => spec_dotfolder_reason(path@, home@) == Some(reason@),
            None => spec_dotfolder_reason(path@, home@) is None,
        },
{
    let home_l = lower_chars(&str_chars(home));
    let path_l = lower_chars(&str_chars(path));
    let relative = match strip_prefix_chars(&path_l, &home_l) {
        Some(rel) => rel,
        None => {
            return None;
        },
    };
    let parts = split_chars(&relative, '/');
    proof {
        assert(parts.deep_view().len() == parts@.len());
        if parts@.len() >= 2 {
            assert(parts.deep_view()[1] == parts@[1]@);
        }
    }
    if parts.len() >= 2 {
        let first = &parts[1];
        if first.len() > 0 && first[0] == '.' {
            if contains_str(&relative, ".local/bin") {
                return None;
            }
            let trimmed = trim_leading_dots(first);
            let mut reason = String::from_str("Inside ~/.");
            reason.append(chars_to_string(&trimmed).as_str());
            reason.append(" (tool/config directory)");
            return Some(reason);
        }
    }
    None
}

/// Classifies `path`, with the home directory handed in explicitly.
#[verifier::loop_isolation(false)]
pub fn analyze_risk_with_home(path: &str, home: Option<&str>) -> (r: RiskAnalysis)
    ensures
        r@ == spec_analyze_risk(
            path@,
            match home {
                Some(h) => Some(h@),
                None => None,
            },
        ),
{
    let pl = lower_chars(&str_chars(path));
    let pl_str = chars_to_string(&pl);
    if let Some(reason) = check_system_paths(pl_str.as_str()) {
        return RiskAnalysis { is_sensitive: true, reason: Some(reason) };
    }
    if is_user_library_path(pl_str.as_str()) {
        return RiskAnalysis { is_sensitive: true, reason: Some("macOS user Library folder".to_owned()) };
    }
    let apps = app_table();
    let mut i: usize = 0;
    while i < apps.len()
        invariant
            pair_views(apps@) == spec_app_table(),
            i <= apps@.len(),
            pl@ == spec_lower(path@),
            spec_first_app_match(pl@, 0) == spec_first_app_match(pl@, i as int),
        decreases apps@.len() - i,
    {
        proof {
            assert(pair_views(apps@)[i as int] == (apps@[i as int].0@, apps@[i as int].1@));
        }
        if contains_str(&pl, apps[i].0.as_str()) {
            let reason = String::from_str("Part of ").concat(apps[i].1.as_str());
            return RiskAnalysis { is_sensitive: true, reason: Some(reason) };
        }
        i = i + 1;
    }
    proof {
        assert(spec_first_app_match(pl@, apps@.len() as int) is None);
    }
    if let Some(h) = home {
        if let Some(reason) = check_dotfolder_rule(path, h) {
            return RiskAnalysis { is_sensitive: true, reason: Some(reason) };
        }
    }
    if contains_str(&pl, "/.config/") || contains_str(&pl, "/.local/share/") {
        return RiskAnalysis {
            is_sensitive: true,
            reason: Some("User configuration or application data".to_owned()),
        };
    }
    RiskAnalysis { is_sensitive: false, reason: None }
}

/// The home directory of the current user, as a plain string.
///
/// Relies on `dirs::home_dir`: the result depends on the environment, so
/// nothing more is promised of it.
#[verifier::external_body]
pub(crate) fn home_dir_string() -> (r: Option<String>)
{
    dirs::home_dir().map(|p| p.to_string_lossy().to_string())
}

/// Classifies `path` against the environment's own home directory.
pub fn analyze_risk(path: &str) -> (r: RiskAnalysis)
    ensures
        exists|h: Option<Seq<char>>| r@ == spec_analyze_risk(path@, h),
{
    let home = home_dir_string();
    match home {
        Some(h) => {
            let r = analyze_risk_with_home(path, Some(h.as_str()));
            proof {
                assert(r@ == spec_analyze_risk(path@, Some(h@)));
            }
            r
        },
        None => {
            let r = analyze_risk_with_home(path, None);
            proof {
                assert(r@ == spec_analyze_risk(path@, None::<Seq<char>>));
            }
            r
        },
    }
}

} // verus!
