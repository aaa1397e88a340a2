//! Starting the game: the placeholders of version arguments, the command
//! lines of both ways of launching, the classpath, and the settings file
//! edits made before a launch.
use vstd::prelude::*;
use crate::auth::{pair_views, MinecraftSession, CLIENT_ID};
use crate::paths::{join_path, join_path_str, library_path_from_name, maven_path};
use crate::text::{
    chars_of, concat2, contains, contains_str, decimal, join, join_strings, lines, push_decimal,
    push_str, replace_all, replace_str, starts_with, starts_with_chars, to_string, views,
};
use crate::version_manager::TargetOs;

verus! {

// ---------------------------------------------------------------------------
// Placeholders
// ---------------------------------------------------------------------------

/// What an installation wrote about a prepared version.
#[derive(Clone, Debug)]
pub struct InstanceDescriptor {
    pub version: String,
    pub version_json: String,
    pub client_jar: String,
    pub asset_index: String,
    pub game_directory: String,
    pub state: String,
    pub loader_version: Option<String>,
    pub java_path: Option<String>,
}

/// The separator between classpath entries on an operating system.
pub open spec fn classpath_separator(os: TargetOs) -> Seq<char> {
    match os {
        TargetOs::Windows => ";"@,
        _ => ":"@,
    }
}

/// The placeholders of version arguments and their values, in the order in
/// which they are replaced.
pub open spec fn launch_tokens(
    d: InstanceDescriptor,
    minecraft: Seq<char>,
    s: MinecraftSession,
    os: TargetOs,
) -> Seq<(Seq<char>, Seq<char>)> {
    seq![
        ("${auth_player_name}"@, s.username@),
        ("${version_name}"@, d.version@),
        ("${game_directory}"@, d.game_directory@),
        ("${assets_root}"@, join_path(minecraft, "assets"@)),
        ("${assets_index_name}"@, d.asset_index@),
        ("${auth_uuid}"@, s.uuid@),
        ("${auth_access_token}"@, s.access_token@),
        ("${user_type}"@, "msa"@),
        ("${version_type}"@, "release"@),
        ("${user_properties}"@, "{}"@),
        ("${auth_session}"@, "token:"@ + s.access_token@ + ":"@ + s.uuid@),
        ("${game_assets}"@, join_path(join_path(minecraft, "assets/virtual"@), d.asset_index@)),
        ("${clientid}"@, CLIENT_ID@),
        ("${auth_xuid}"@, seq![]),
        ("${launcher_name}"@, "Aureus"@),
        ("${launcher_version}"@, "0.3.0"@),
        ("${library_directory}"@, join_path(minecraft, "libraries"@)),
        ("${classpath_separator}"@, classpath_separator(os)),
    ]
}

/// The text after replacing each placeholder of the table in turn (an
/// empty placeholder changes nothing).
pub open spec fn replace_each(text: Seq<char>, table: Seq<(Seq<char>, Seq<char>)>) -> Seq<char>
    decreases table.len(),
{
    if table.len() == 0 {
        text
    } else {
        replace_all(replace_each(text, table.drop_last()), table.last().0, table.last().1)
    }
}

fn token(key: &str, value: String) -> (r: (String, String))
    ensures
        r.0@ == key@,
        r.1@ == value@,
{
    (to_string(key), value)
}

fn launch_token_table(
    d: &InstanceDescriptor,
    minecraft: &str,
    s: &MinecraftSession,
    os: TargetOs,
) -> (r: Vec<(String, String)>)
    ensures
        pair_views(r@) == launch_tokens(*d, minecraft@, *s, os),
{
    let mut session = concat2("token:", s.access_token.as_str());
    push_str(&mut session, ":");
    push_str(&mut session, s.uuid.as_str());
    let separator = match os {
        TargetOs::Windows => ";",
        _ => ":",
    };
    let mut t: Vec<(String, String)> = Vec::new();
    t.push(token("${auth_player_name}", s.username.clone()));
    t.push(token("${version_name}", d.version.clone()));
    t.push(token("${game_directory}", d.game_directory.clone()));
    t.push(token("${assets_root}", join_path_str(minecraft, "assets")));
    t.push(token("${assets_index_name}", d.asset_index.clone()));
    t.push(token("${auth_uuid}", s.uuid.clone()));
    t.push(token("${auth_access_token}", s.access_token.clone()));
    t.push(token("${user_type}", to_string("msa")));
    t.push(token("${version_type}", to_string("release")));
    t.push(token("${user_properties}", to_string("{}")));
    t.push(token("${auth_session}", session));
    t.push(
        token(
            "${game_assets}",
            join_path_str(
                join_path_str(minecraft, "assets/virtual").as_str(),
                d.asset_index.as_str(),
            ),
        ),
    );
    t.push(token("${clientid}", to_string(CLIENT_ID)));
    t.push(token("${auth_xuid}", String::new()));
    t.push(token("${launcher_name}", to_string("Aureus")));
    t.push(token("${launcher_version}", to_string("0.3.0")));
    t.push(token("${library_directory}", join_path_str(minecraft, "libraries")));
    t.push(token("${classpath_separator}", to_string(separator)));
    assert(pair_views(t@) =~= launch_tokens(*d, minecraft@, *s, os));
    t
}

/// Applies a table of replacements in order. An entry with an empty
/// placeholder changes nothing (unlike `str::replace` with an empty
/// pattern); the launch tables hold none.
pub fn replace_in_order(value: &str, table: &Vec<(String, String)>) -> (r: String)
    ensures
        r@ == replace_each(value@, pair_views(table@)),
{
    let ghost all = pair_views(table@);
    let mut text = to_string(value);
    let mut i: usize = 0;
    while i < table.len()
        invariant
            0 <= i <= table.len(),
            all == pair_views(table@),
            text@ == replace_each(value@, all.take(i as int)),
        decreases table.len() - i,
    {
        assert(all.take(i + 1).drop_last() =~= all.take(i as int));
        if !table[i].0.as_str().is_empty() {
            text = replace_str(text.as_str(), table[i].0.as_str(), table[i].1.as_str());
        }
        i += 1;
    }
    assert(all.take(table.len() as int) =~= all);
    text
}

/// Fills in the placeholders of a version argument.
pub fn replace_launch_tokens(
    value: &str,
    descriptor: &InstanceDescriptor,
    minecraft: &str,
    session: &MinecraftSession,
    os: TargetOs,
) -> (r: String)
    ensures
        r@ == replace_each(value@, launch_tokens(*descriptor, minecraft@, *session, os)),
{
    let table = launch_token_table(descriptor, minecraft, session, os);
    replace_in_order(value, &table)
}

// ---------------------------------------------------------------------------
// Launching a prepared version
// ---------------------------------------------------------------------------

/// Version JVM arguments that the launcher replaces with its own: the
/// classpath and the native library path.
pub open spec fn skipped_jvm_argument(a: Seq<char>) -> bool {
    a == "-cp"@ || contains(a, "${classpath}"@) || contains(a, "${natives_directory}"@)
        || starts_with(a, "-Djava.library.path"@)
}

/// The version's JVM arguments that are kept, with placeholders filled in.
pub open spec fn kept_jvm_arguments(
    args: Seq<Seq<char>>,
    table: Seq<(Seq<char>, Seq<char>)>,
) -> Seq<Seq<char>>
    decreases args.len(),
{
    if args.len() == 0 {
        seq![]
    } else {
        kept_jvm_arguments(args.drop_last(), table) + if skipped_jvm_argument(args.last()) {
            seq![]
        } else {
            seq![replace_each(args.last(), table)]
        }
    }
}

/// Arguments with placeholders filled in.
pub open spec fn replaced_arguments(
    args: Seq<Seq<char>>,
    table: Seq<(Seq<char>, Seq<char>)>,
) -> Seq<Seq<char>> {
    args.map_values(|a: Seq<char>| replace_each(a, table))
}

/// Main classes that accept a window size.
pub open spec fn supports_resolution(main_class: Seq<char>) -> bool {
    contains(main_class, "KnotClient"@) || contains(main_class, "client.main.Main"@)
}

/// What a launch of a prepared version needs besides the descriptor.
#[derive(Clone, Debug)]
pub struct PreparedLaunch {
    pub memory_mb: u32,
    pub width: u32,
    pub height: u32,
    pub custom_jvm: Vec<String>,
    pub version_jvm_args: Vec<String>,
    pub game_args: Vec<String>,
    pub main_class: String,
    pub natives: String,
    pub classpath: String,
}

/// The arguments given to Java for a prepared version: heap sizes, the
/// instance's own JVM arguments, the first-thread flag on macOS when the
/// version has no JVM arguments, the version's kept JVM arguments, the
/// native path, classpath and main class, the game arguments, and the
/// window size where the main class accepts one.
pub open spec fn prepared_arguments(
    l: PreparedLaunch,
    table: Seq<(Seq<char>, Seq<char>)>,
    os: TargetOs,
) -> Seq<Seq<char>> {
    seq!["-Xms512M"@, "-Xmx"@ + decimal(l.memory_mb as nat) + "M"@] + views(l.custom_jvm@) + (if os
        == TargetOs::MacOs && l.version_jvm_args@.len() == 0 {
        seq!["-XstartOnFirstThread"@]
    } else {
        seq![]
    }) + kept_jvm_arguments(views(l.version_jvm_args@), table) + seq![
        "-Djava.library.path="@ + l.natives@,
        "-cp"@,
        l.classpath@,
        l.main_class@,
    ] + replaced_arguments(views(l.game_args@), table) + if supports_resolution(l.main_class@) {
        seq!["--width"@, decimal(l.width as nat), "--height"@, decimal(l.height as nat)]
    } else {
        seq![]
    }
}

/// The window size goes to the game exactly for main classes that accept
/// one (Fabric's `KnotClient` and the vanilla `client.main.Main`): the
/// command line then ends with `--width <width> --height <height>`;
/// otherwise it ends with the game arguments, placeholders filled in.
pub proof fn window_size_follows_the_main_class(
    l: PreparedLaunch,
    table: Seq<(Seq<char>, Seq<char>)>,
    os: TargetOs,
)
    ensures
        ({
            let args = prepared_arguments(l, table, os);
            let n = args.len() as int;
            let g = l.game_args@.len() as int;
            &&& (contains(l.main_class@, "KnotClient"@) || contains(
                l.main_class@,
                "client.main.Main"@,
            )) ==> n >= 4 && args.subrange(n - 4, n) == seq![
                "--width"@,
                decimal(l.width as nat),
                "--height"@,
                decimal(l.height as nat),
            ]
            &&& !(contains(l.main_class@, "KnotClient"@) || contains(
                l.main_class@,
                "client.main.Main"@,
            )) ==> n >= g && forall|i: int|
                0 <= i < g ==> #[trigger] args[n - g + i] == replace_each(l.game_args@[i]@, table)
        }),
{
    let args = prepared_arguments(l, table, os);
    let game = replaced_arguments(views(l.game_args@), table);
    let sizes = seq!["--width"@, decimal(l.width as nat), "--height"@, decimal(l.height as nat)];
    let pre = seq!["-Xms512M"@, "-Xmx"@ + decimal(l.memory_mb as nat) + "M"@] + views(l.custom_jvm@)
        + (if os == TargetOs::MacOs && l.version_jvm_args@.len() == 0 {
        seq!["-XstartOnFirstThread"@]
    } else {
        seq![]
    }) + kept_jvm_arguments(views(l.version_jvm_args@), table) + seq![
        "-Djava.library.path="@ + l.natives@,
        "-cp"@,
        l.classpath@,
        l.main_class@,
    ];
    if supports_resolution(l.main_class@) {
        assert(args == pre + game + sizes);
        let n = args.len() as int;
        assert(args.subrange(n - 4, n) =~= sizes);
    } else {
        assert(args =~= pre + game);
        let n = args.len() as int;
        let g = l.game_args@.len() as int;
        assert(game.len() == g);
        assert forall|i: int| 0 <= i < g implies #[trigger] args[n - g + i] == replace_each(
            l.game_args@[i]@,
            table,
        ) by {
            assert(args[n - g + i] == game[i]);
        }
    }
}

/// Whether a version JVM argument is replaced by the launcher's own.
pub fn is_skipped_jvm_argument(a: &str) -> (r: bool)
    ensures
        r == skipped_jvm_argument(a@),
{
    let v = chars_of(a);
    let cp = chars_of("-cp");
    crate::text::chars_equal(&v, &cp) || contains_str(a, "${classpath}") || contains_str(
        a,
        "${natives_directory}",
    ) || starts_with_chars(&v, &chars_of("-Djava.library.path"))
}

fn push_string(out: &mut Vec<String>, s: String)
    ensures
        views(final(out)@) == views(old(out)@).push(s@),
{
    let ghost before = out@;
    out.push(s);
    assert(views(out@) =~= views(before).push(s@));
}

fn push_all(out: &mut Vec<String>, items: &Vec<String>)
    ensures
        views(final(out)@) == views(old(out)@) + views(items@),
{
    let ghost start = views(out@);
    let mut i: usize = 0;
    while i < items.len()
        invariant
            0 <= i <= items.len(),
            views(out@) == start + views(items@).take(i as int),
        decreases items.len() - i,
    {
        push_string(out, items[i].clone());
        assert(views(items@).take(i + 1) =~= views(items@).take(i as int).push(items@[i as int]@));
        i += 1;
    }
    assert(views(items@).take(items.len() as int) =~= views(items@));
}

fn push_size(out: &mut Vec<String>, flag: &str, n: u32)
    ensures
        views(final(out)@) == views(old(out)@).push(flag@).push(decimal(n as nat)),
{
    push_string(out, to_string(flag));
    let mut text = String::new();
    push_decimal(&mut text, n as u64);
    push_string(out, text);
}

/// The arguments given to Java to start a prepared version.
pub fn prepared_launch_arguments(
    launch: &PreparedLaunch,
    descriptor: &InstanceDescriptor,
    minecraft: &str,
    session: &MinecraftSession,
    os: TargetOs,
) -> (r: Vec<String>)
    ensures
        views(r@) == prepared_arguments(
            *launch,
            launch_tokens(*descriptor, minecraft@, *session, os),
            os,
        ),
{
    let table = launch_token_table(descriptor, minecraft, session, os);
    let ghost t = pair_views(table@);
    let mut out: Vec<String> = Vec::new();
    push_string(&mut out, to_string("-Xms512M"));
    let mut heap = to_string("-Xmx");
    push_decimal(&mut heap, launch.memory_mb as u64);
    push_str(&mut heap, "M");
    push_string(&mut out, heap);
    push_all(&mut out, &launch.custom_jvm);
    let is_mac = match os {
        TargetOs::MacOs => true,
        _ => false,
    };
    if is_mac && launch.version_jvm_args.len() == 0 {
        push_string(&mut out, to_string("-XstartOnFirstThread"));
    }
    let ghost before_jvm = views(out@);
    let jvm = &launch.version_jvm_args;
    let mut i: usize = 0;
    while i < jvm.len()
        invariant
            0 <= i <= jvm.len(),
            t == pair_views(table@),
            views(out@) == before_jvm + kept_jvm_arguments(views(jvm@).take(i as int), t),
        decreases jvm.len() - i,
    {
        assert(views(jvm@).take(i + 1).drop_last() =~= views(jvm@).take(i as int));
        if !is_skipped_jvm_argument(jvm[i].as_str()) {
            let a = replace_in_order(jvm[i].as_str(), &table);
            push_string(&mut out, a);
        }
        i += 1;
    }
    assert(views(jvm@).take(jvm.len() as int) =~= views(jvm@));
    push_string(&mut out, concat2("-Djava.library.path=", launch.natives.as_str()));
    push_string(&mut out, to_string("-cp"));
    push_string(&mut out, launch.classpath.clone());
    push_string(&mut out, launch.main_class.clone());
    let ghost before_game = views(out@);
    let game = &launch.game_args;
    let mut j: usize = 0;
    while j < game.len()
        invariant
            0 <= j <= game.len(),
            t == pair_views(table@),
            views(out@) == before_game + replaced_arguments(views(game@).take(j as int), t),
        decreases game.len() - j,
    {
        let a = replace_in_order(game[j].as_str(), &table);
        push_string(&mut out, a);
        assert(replaced_arguments(views(game@).take(j + 1), t) =~= replaced_arguments(
            views(game@).take(j as int),
            t,
        ).push(replace_each(game@[j as int]@, t)));
        j += 1;
    }
    assert(views(game@).take(game.len() as int) =~= views(game@));
    let main = launch.main_class.as_str();
    if contains_str(main, "KnotClient") || contains_str(main, "client.main.Main") {
        push_size(&mut out, "--width", launch.width);
        push_size(&mut out, "--height", launch.height);
    }
    assert(views(out@) =~= prepared_arguments(*launch, t, os));
    out
}

// ---------------------------------------------------------------------------
// Classpath and Fabric profiles
// ---------------------------------------------------------------------------

/// The library files that Fabric profile libraries name below `root`, in
/// order; names that are not Maven coordinates give none.
pub open spec fn profile_library_paths(root: Seq<char>, names: Seq<Seq<char>>) -> Seq<Seq<char>>
    decreases names.len(),
{
    if names.len() == 0 {
        seq![]
    } else {
        profile_library_paths(root, names.drop_last()) + match maven_path(root, names.last()) {
            Some(p) => seq![p],
            None => seq![],
        }
    }
}

/// The library files that a Fabric profile's libraries name, below
/// `<minecraft>/libraries`; the launch keeps those that exist.
pub fn profile_library_candidates(minecraft: &str, names: &Vec<String>) -> (r: Vec<String>)
    ensures
        views(r@) == profile_library_paths(join_path(minecraft@, "libraries"@), views(names@)),
{
    let root = join_path_str(minecraft, "libraries");
    let ghost all = views(names@);
    let mut out: Vec<String> = Vec::new();
    let mut i: usize = 0;
    while i < names.len()
        invariant
            0 <= i <= names.len(),
            all == views(names@),
            root@ == join_path(minecraft@, "libraries"@),
            views(out@) == profile_library_paths(root@, all.take(i as int)),
        decreases names.len() - i,
    {
        assert(all.take(i + 1).drop_last() =~= all.take(i as int));
        match library_path_from_name(root.as_str(), names[i].as_str()) {
            Some(p) => push_string(&mut out, p),
            None => {},
        }
        i += 1;
    }
    assert(all.take(names.len() as int) =~= all);
    out
}

/// The name of a Fabric profile for a loader and a game version.
pub open spec fn fabric_profile(loader: Seq<char>, version: Seq<char>) -> Seq<char> {
    "fabric-loader-"@ + loader + "-"@ + version
}

/// `fabric-loader-<loader>-<version>`.
pub fn fabric_profile_name(loader: &str, version: &str) -> (r: String)
    ensures
        r@ == fabric_profile(loader@, version@),
{
    let mut r = concat2("fabric-loader-", loader);
    push_str(&mut r, "-");
    push_str(&mut r, version);
    r
}

/// The loader of a prepared version that is started through Fabric: set
/// only when the installation ended in the Fabric state.
pub open spec fn fabric_loader(d: InstanceDescriptor) -> Option<Seq<char>> {
    if d.state@ == "fabric-ready"@ {
        match d.loader_version {
            Some(l) => Some(l@),
            None => None,
        }
    } else {
        None
    }
}

/// The Fabric loader to start a prepared version with, if any.
pub fn fabric_loader_of(d: &InstanceDescriptor) -> (r: Option<String>)
    ensures
        crate::auth::opt_string_view(r) == fabric_loader(*d),
{
    if crate::text::str_equal(d.state.as_str(), "fabric-ready") {
        match &d.loader_version {
            Some(l) => Some(l.clone()),
            None => None,
        }
    } else {
        None
    }
}

/// The main class a Fabric profile names, or Fabric's client launcher.
pub fn profile_main_class(main_class: Option<String>) -> (r: String)
    ensures
        main_class matches Some(m) ==> r@ == m@,
        main_class is None ==> r@ == "net.fabricmc.loader.impl.launch.knot.KnotClient"@,
{
    match main_class {
        Some(m) => m,
        None => to_string("net.fabricmc.loader.impl.launch.knot.KnotClient"),
    }
}

/// The classpath with its last entry, the game jar, replaced by the Fabric
/// profile's jar (on an empty classpath the jar is added).
pub fn with_profile_jar(classpath: Vec<String>, jar: String) -> (r: Vec<String>)
    ensures
        classpath@.len() > 0 ==> views(r@) == views(classpath@).drop_last().push(jar@),
        classpath@.len() == 0 ==> views(r@) == seq![jar@],
{
    let mut cp = classpath;
    let ghost before = views(cp@);
    cp.pop();
    proof {
        if before.len() > 0 {
            assert(views(cp@) =~= before.drop_last());
        } else {
            assert(views(cp@) =~= Seq::<Seq<char>>::empty());
        }
    }
    push_string(&mut cp, jar);
    cp
}

/// The classpath as one argument, entries separated as the system wants.
pub fn classpath_text(entries: &Vec<String>, os: TargetOs) -> (r: String)
    ensures
        r@ == join(views(entries@), classpath_separator(os)),
{
    let separator = match os {
        TargetOs::Windows => ";",
        _ => ":",
    };
    join_strings(entries, separator)
}

/// The Java runtime an installation prepared for the instance.
pub fn java_path_of(d: &InstanceDescriptor) -> (r: Result<String, String>)
    ensures
        d.java_path matches Some(j) ==> (r matches Ok(s) && s@ == j@),
        d.java_path is None ==> (r matches Err(e) && e@
            == "La instancia no tiene un runtime Java preparado"@),
{
    match &d.java_path {
        Some(j) => Ok(j.clone()),
        None => Err(to_string("La instancia no tiene un runtime Java preparado")),
    }
}

// ---------------------------------------------------------------------------
// Launching the bundled Fabric profile
// ---------------------------------------------------------------------------

/// The Fabric profile that the bundled client uses.
pub const FABRIC_PROFILE: &'static str = "fabric-loader-0.19.3-1.21.11";

/// Library files of the base version that the bundled profile leaves out:
/// natives and files for Linux or Windows.
pub open spec fn legacy_library_kept(path: Seq<char>) -> bool {
    !(contains(path, "natives-linux"@) || contains(path, "natives-windows"@) || contains(
        path,
        "linux-"@,
    ) || contains(path, "windows-"@))
}

/// The candidate classpath entries for the base version's libraries: the
/// artifact paths that are given and kept, below the libraries directory.
pub open spec fn legacy_library_paths(root: Seq<char>, paths: Seq<Option<Seq<char>>>) -> Seq<
    Seq<char>,
>
    decreases paths.len(),
{
    if paths.len() == 0 {
        seq![]
    } else {
        legacy_library_paths(root, paths.drop_last()) + match paths.last() {
            Some(p) => if legacy_library_kept(p) {
                seq![join_path(root, p)]
            } else {
                seq![]
            },
            None => seq![],
        }
    }
}

pub open spec fn opt_views(v: Seq<Option<String>>) -> Seq<Option<Seq<char>>> {
    v.map_values(|o: Option<String>| crate::auth::opt_string_view(o))
}

/// Whether a base library is kept on the bundled profile's classpath.
pub fn is_legacy_library_kept(path: &str) -> (r: bool)
    ensures
        r == legacy_library_kept(path@),
{
    !(contains_str(path, "natives-linux") || contains_str(path, "natives-windows")
        || contains_str(path, "linux-") || contains_str(path, "windows-"))
}

/// The candidate classpath entries for the base version's libraries, from
/// their artifact paths (absent where a library has none).
pub fn legacy_library_candidates(libraries_root: &str, paths: &Vec<Option<String>>) -> (r: Vec<
    String,
>)
    ensures
        views(r@) == legacy_library_paths(libraries_root@, opt_views(paths@)),
{
    let ghost all = opt_views(paths@);
    let mut out: Vec<String> = Vec::new();
    let mut i: usize = 0;
    while i < paths.len()
        invariant
            0 <= i <= paths.len(),
            all == opt_views(paths@),
            views(out@) == legacy_library_paths(libraries_root@, all.take(i as int)),
        decreases paths.len() - i,
    {
        assert(all.take(i + 1).drop_last() =~= all.take(i as int));
        match &paths[i] {
            Some(p) => {
                if is_legacy_library_kept(p.as_str()) {
                    push_string(&mut out, join_path_str(libraries_root, p.as_str()));
                }
            },
            None => {},
        }
        i += 1;
    }
    assert(all.take(paths.len() as int) =~= all);
    out
}

/// The heap the bundled profile gets: the instance's memory, kept between
/// 2 and 16 GB.
pub open spec fn legacy_memory(memory_mb: u32) -> u32 {
    crate::professional::clamp(memory_mb, 2048, 16384)
}

/// The heap, in megabytes, for the bundled profile.
pub fn legacy_memory_mb(memory_mb: u32) -> (r: u32)
    ensures
        r == legacy_memory(memory_mb),
{
    crate::professional::clamp_u32(memory_mb, 2048, 16384)
}

/// What a launch of the bundled profile needs besides the session.
#[derive(Clone, Debug)]
pub struct BundledLaunch {
    pub instance_memory_mb: u32,
    pub natives: String,
    pub log_config: Option<String>,
    pub classpath: String,
    pub minecraft: String,
    pub asset_index: Option<String>,
}

/// The arguments given to Java for the bundled profile.
pub open spec fn bundled_arguments(l: BundledLaunch, s: MinecraftSession) -> Seq<Seq<char>> {
    let natives = l.natives@;
    seq![
        "-XstartOnFirstThread"@,
        "-Xss1M"@,
        "-Xms512M"@,
        "-Xmx"@ + decimal(legacy_memory(l.instance_memory_mb) as nat) + "M"@,
        "-XX:+UseG1GC"@,
        "-XX:+ParallelRefProcEnabled"@,
        "-XX:+UseStringDeduplication"@,
        "-XX:MinHeapFreeRatio=10"@,
        "-XX:MaxHeapFreeRatio=30"@,
        "-Djava.library.path="@ + natives,
        "-Djna.tmpdir="@ + natives,
        "-Dorg.lwjgl.system.SharedLibraryExtractPath="@ + natives,
        "-Dio.netty.native.workdir="@ + natives,
        "-Dminecraft.launcher.brand=aureus-launcher"@,
        "-Dminecraft.launcher.version=0.3.0"@,
    ] + match l.log_config {
        Some(c) => seq!["-Dlog4j.configurationFile="@ + c@],
        None => seq![],
    } + seq![
        "-cp"@,
        l.classpath@,
        "-DFabricMcEmu= net.minecraft.client.main.Main "@,
        "net.fabricmc.loader.impl.launch.knot.KnotClient"@,
        "--username"@,
        s.username@,
        "--version"@,
        FABRIC_PROFILE@,
        "--gameDir"@,
        l.minecraft@,
        "--assetsDir"@,
        join_path(l.minecraft@, "assets"@),
        "--assetIndex"@,
        match l.asset_index {
            Some(a) => a@,
            None => "29"@,
        },
        "--uuid"@,
        s.uuid@,
        "--accessToken"@,
        s.access_token@,
        "--clientId"@,
        CLIENT_ID@,
        "--xuid"@,
        seq![],
        "--versionType"@,
        "release"@,
    ]
}

/// The arguments given to Java to start the bundled profile.
pub fn bundled_launch_arguments(launch: &BundledLaunch, session: &MinecraftSession) -> (r: Vec<
    String,
>)
    ensures
        views(r@) == bundled_arguments(*launch, *session),
{
    let natives = launch.natives.as_str();
    let mut out: Vec<String> = Vec::new();
    push_string(&mut out, to_string("-XstartOnFirstThread"));
    push_string(&mut out, to_string("-Xss1M"));
    push_string(&mut out, to_string("-Xms512M"));
    let mut heap = to_string("-Xmx");
    push_decimal(&mut heap, legacy_memory_mb(launch.instance_memory_mb) as u64);
    push_str(&mut heap, "M");
    push_string(&mut out, heap);
    push_string(&mut out, to_string("-XX:+UseG1GC"));
    push_string(&mut out, to_string("-XX:+ParallelRefProcEnabled"));
    push_string(&mut out, to_string("-XX:+UseStringDeduplication"));
    push_string(&mut out, to_string("-XX:MinHeapFreeRatio=10"));
    push_string(&mut out, to_string("-XX:MaxHeapFreeRatio=30"));
    push_string(&mut out, concat2("-Djava.library.path=", natives));
    push_string(&mut out, concat2("-Djna.tmpdir=", natives));
    push_string(&mut out, concat2("-Dorg.lwjgl.system.SharedLibraryExtractPath=", natives));
    push_string(&mut out, concat2("-Dio.netty.native.workdir=", natives));
    push_string(&mut out, to_string("-Dminecraft.launcher.brand=aureus-launcher"));
    push_string(&mut out, to_string("-Dminecraft.launcher.version=0.3.0"));
    match &launch.log_config {
        Some(c) => push_string(&mut out, concat2("-Dlog4j.configurationFile=", c.as_str())),
        None => {},
    }
    push_string(&mut out, to_string("-cp"));
    push_string(&mut out, launch.classpath.clone());
    push_string(&mut out, to_string("-DFabricMcEmu= net.minecraft.client.main.Main "));
    push_string(&mut out, to_string("net.fabricmc.loader.impl.launch.knot.KnotClient"));
    push_string(&mut out, to_string("--username"));
    push_string(&mut out, session.username.clone());
    push_string(&mut out, to_string("--version"));
    push_string(&mut out, to_string(FABRIC_PROFILE));
    push_string(&mut out, to_string("--gameDir"));
    push_string(&mut out, launch.minecraft.clone());
    push_string(&mut out, to_string("--assetsDir"));
    push_string(&mut out, join_path_str(launch.minecraft.as_str(), "assets"));
    push_string(&mut out, to_string("--assetIndex"));
    match &launch.asset_index {
        Some(a) => push_string(&mut out, a.clone()),
        None => push_string(&mut out, to_string("29")),
    }
    push_string(&mut out, to_string("--uuid"));
    push_string(&mut out, session.uuid.clone());
    push_string(&mut out, to_string("--accessToken"));
    push_string(&mut out, session.access_token.clone());
    push_string(&mut out, to_string("--clientId"));
    push_string(&mut out, to_string(CLIENT_ID));
    push_string(&mut out, to_string("--xuid"));
    push_string(&mut out, String::new());
    push_string(&mut out, to_string("--versionType"));
    push_string(&mut out, to_string("release"));
    assert(views(out@) =~= bundled_arguments(*launch, *session));
    out
}

/// The Java runtime that the official launcher installs for the bundled
/// profile, below the Minecraft directory.
pub open spec fn bundled_java(minecraft: Seq<char>, os: TargetOs) -> Seq<char> {
    join_path(
        minecraft,
        match os {
            TargetOs::MacOs => "runtime/java-runtime-delta/mac-os/java-runtime-delta/jre.bundle/Contents/Home/bin/java"@,
            TargetOs::Windows => "runtime/java-runtime-delta/windows-x64/java-runtime-delta/bin/javaw.exe"@,
            TargetOs::Linux => "runtime/java-runtime-delta/linux/java-runtime-delta/bin/java"@,
        },
    )
}

/// The path of the official launcher's Java runtime; the launch uses it
/// where it exists, and `java` from the path otherwise.
pub fn bundled_java_path(minecraft: &str, os: TargetOs) -> (r: String)
    ensures
        r@ == bundled_java(minecraft@, os),
{
    let part = match os {
        TargetOs::MacOs => "runtime/java-runtime-delta/mac-os/java-runtime-delta/jre.bundle/Contents/Home/bin/java",
        TargetOs::Windows => "runtime/java-runtime-delta/windows-x64/java-runtime-delta/bin/javaw.exe",
        TargetOs::Linux => "runtime/java-runtime-delta/linux/java-runtime-delta/bin/java",
    };
    join_path_str(minecraft, part)
}

/// The progress line that shows the heap and the performance profile.
pub fn bundled_memory_message(instance_memory_mb: u32, profile: &str) -> (r: String)
    ensures
        r@ == "Memoria: "@ + decimal((legacy_memory(instance_memory_mb) / 1024) as nat)
            + " GB · Perfil: "@ + profile@,
{
    let memory = legacy_memory_mb(instance_memory_mb);
    let mut r = to_string("Memoria: ");
    push_decimal(&mut r, (memory / 1024) as u64);
    push_str(&mut r, " GB · Perfil: ");
    push_str(&mut r, profile);
    r
}

/// Whether the performance profile asks for the memory-saving settings.
pub fn uses_memory_saver(profile: Option<&str>) -> (r: bool)
    ensures
        r == (profile matches Some(p) && (p@ == "MEMORY_SAVER"@ || p@ == "CUSTOM"@)),
{
    match profile {
        Some(p) => crate::text::str_equal(p, "MEMORY_SAVER") || crate::text::str_equal(p, "CUSTOM"),
        None => false,
    }
}

// ---------------------------------------------------------------------------
// Game settings file
// ---------------------------------------------------------------------------

/// The settings line that selects the bundled resource pack.
pub open spec fn resource_pack_line() -> Seq<char> {
    "resourcePacks:[\"file/The Better Default Pack\"]"@
}

pub open spec fn is_resource_pack_setting(line: Seq<char>) -> bool {
    starts_with(line, "resourcePacks:"@)
}

/// The settings text with the bundled resource pack selected: a line that
/// sets resource packs is replaced, or the setting is added at the end;
/// the lines are written back each ending with a line feed.
pub open spec fn with_resource_pack(contents: Seq<char>) -> Seq<char> {
    let ls = lines(contents);
    let mapped = ls.map_values(
        |l: Seq<char>|
            if is_resource_pack_setting(l) {
                resource_pack_line()
            } else {
                l
            },
    );
    let out = if exists|i: int| 0 <= i < ls.len() && is_resource_pack_setting(#[trigger] ls[i]) {
        mapped
    } else {
        mapped.push(resource_pack_line())
    };
    join(out, "\n"@) + "\n"@
}

/// Selects the bundled resource pack in the game's settings text.
pub fn select_resource_pack(contents: &str) -> (r: String)
    ensures
        r@ == with_resource_pack(contents@),
{
    let ls = crate::text::split_lines(&chars_of(contents));
    let ghost all = views(ls@);
    let desired = "resourcePacks:[\"file/The Better Default Pack\"]";
    let prefix = chars_of("resourcePacks:");
    let mut out: Vec<String> = Vec::new();
    let mut found = false;
    let mut i: usize = 0;
    while i < ls.len()
        invariant
            0 <= i <= ls.len(),
            all == views(ls@),
            all == lines(contents@),
            prefix@ == "resourcePacks:"@,
            desired@ == resource_pack_line(),
            views(out@) == all.take(i as int).map_values(
                |l: Seq<char>|
                    if is_resource_pack_setting(l) {
                        resource_pack_line()
                    } else {
                        l
                    },
            ),
            found <==> exists|j: int| 0 <= j < i && is_resource_pack_setting(#[trigger] all[j]),
        decreases ls.len() - i,
    {
        let line = &ls[i];
        if starts_with_chars(&chars_of(line.as_str()), &prefix) {
            found = true;
            push_string(&mut out, to_string(desired));
        } else {
            push_string(&mut out, line.clone());
        }
        proof {
            let f = |l: Seq<char>|
                if is_resource_pack_setting(l) {
                    resource_pack_line()
                } else {
                    l
                };
            assert(all.take(i + 1).map_values(f) =~= all.take(i as int).map_values(f).push(
                f(all[i as int]),
            ));
        }
        i += 1;
    }
    assert(all.take(ls.len() as int) =~= all);
    if !found {
        push_string(&mut out, to_string(desired));
    }
    let mut r = join_strings(&out, "\n");
    push_str(&mut r, "\n");
    r
}

/// Selecting the bundled resource pack a second time changes nothing, for
/// settings whose lines do not end with a carriage return.
pub proof fn resource_pack_selection_is_idempotent(contents: Seq<char>)
    requires
        forall|k: int|
            0 <= k < lines(contents).len() ==> crate::text::no_trailing_cr(
                #[trigger] lines(contents)[k],
            ),
    ensures
        with_resource_pack(with_resource_pack(contents)) == with_resource_pack(contents),
{
    reveal_strlit("resourcePacks:[\"file/The Better Default Pack\"]");
    reveal_strlit("resourcePacks:");
    let d = resource_pack_line();
    assert(is_resource_pack_setting(d)) by {
        assert(d.subrange(0, 14) =~= "resourcePacks:"@);
    }
    assert(crate::text::no_newline(d));
    assert(crate::text::no_trailing_cr(d));
    let ls = lines(contents);
    crate::text::lemma_lines_no_newline(contents);
    let f = |l: Seq<char>|
        if is_resource_pack_setting(l) {
            d
        } else {
            l
        };
    let mapped = ls.map_values(f);
    let found = exists|i: int| 0 <= i < ls.len() && is_resource_pack_setting(#[trigger] ls[i]);
    let out = if found {
        mapped
    } else {
        mapped.push(d)
    };
    assert(with_resource_pack(contents) == crate::text::join(out, "\n"@) + "\n"@);
    assert forall|k: int| 0 <= k < out.len() implies crate::text::no_newline(#[trigger] out[k])
        && crate::text::no_trailing_cr(out[k]) by {
        if k < ls.len() {
            assert(out[k] == f(ls[k]));
        }
    }
    if found {
        let i = choose|i: int| 0 <= i < ls.len() && is_resource_pack_setting(#[trigger] ls[i]);
        assert(out[i] == d);
        assert(out.len() > 0);
    } else {
        assert(out[out.len() - 1] == d);
    }
    crate::text::lemma_lines_of_written(out);
    let again = lines(with_resource_pack(contents));
    assert(again == out);
    assert(again.map_values(f) =~= out) by {
        assert forall|k: int| 0 <= k < out.len() implies f(out[k]) == out[k] by {
            if k < ls.len() {
                assert(out[k] == f(ls[k]));
            }
        }
    }
    let found2 = exists|i: int| 0 <= i < again.len() && is_resource_pack_setting(#[trigger] again[i]);
    if found {
        let i = choose|i: int| 0 <= i < ls.len() && is_resource_pack_setting(#[trigger] ls[i]);
        assert(is_resource_pack_setting(again[i]));
    } else {
        assert(is_resource_pack_setting(again[out.len() - 1]));
    }
    assert(found2);
}

/// The settings that save memory, in the order in which missing ones are
/// added.
pub open spec fn memory_saver_settings() -> Seq<(Seq<char>, Seq<char>)> {
    seq![
        ("ao"@, "false"@),
        ("enableVsync"@, "false"@),
        ("entityDistanceScaling"@, "0.5"@),
        ("entityShadows"@, "false"@),
        ("graphicsPreset"@, "\"fast\""@),
        ("maxFps"@, "90"@),
        ("mipmapLevels"@, "0"@),
        ("particles"@, "2"@),
        ("renderClouds"@, "\"false\""@),
        ("renderDistance"@, "12"@),
        ("simulationDistance"@, "8"@),
        ("biomeBlendRadius"@, "0"@),
        ("menuBackgroundBlurriness"@, "0"@),
        ("improvedTransparency"@, "false"@),
    ]
}

/// The key of a settings line: the text before its first colon.
pub open spec fn line_key(line: Seq<char>) -> Option<Seq<char>> {
    if crate::text::find_char(line, ':') < line.len() {
        Some(line.take(crate::text::find_char(line, ':') as int))
    } else {
        None
    }
}

/// The value of the first setting with the key.
pub open spec fn setting_for(settings: Seq<(Seq<char>, Seq<char>)>, key: Seq<char>) -> Option<
    Seq<char>,
>
    decreases settings.len(),
{
    if settings.len() == 0 {
        None
    } else if settings[0].0 == key {
        Some(settings[0].1)
    } else {
        setting_for(settings.drop_first(), key)
    }
}

/// A settings line after the memory saver: a line whose key is one of its
/// settings gets that setting's value.
pub open spec fn saver_line(line: Seq<char>) -> Seq<char> {
    match line_key(line) {
        Some(k) => match setting_for(memory_saver_settings(), k) {
            Some(v) => k + ":"@ + v,
            None => line,
        },
        None => line,
    }
}

/// Whether some line has the key.
pub open spec fn has_key(ls: Seq<Seq<char>>, key: Seq<char>) -> bool {
    exists|i: int| 0 <= i < ls.len() && line_key(#[trigger] ls[i]) == Some(key)
}

/// The lines for the settings that no line sets, in order.
pub open spec fn missing_settings(settings: Seq<(Seq<char>, Seq<char>)>, ls: Seq<Seq<char>>) -> Seq<
    Seq<char>,
>
    decreases settings.len(),
{
    if settings.len() == 0 {
        seq![]
    } else {
        missing_settings(settings.drop_last(), ls) + if has_key(ls, settings.last().0) {
            seq![]
        } else {
            seq![settings.last().0 + ":"@ + settings.last().1]
        }
    }
}

/// The settings text with the memory saver applied: lines that set one of
/// its settings get its value, the settings that no line sets are added in
/// order, and the lines are written back each ending with a line feed.
pub open spec fn with_memory_saver(contents: Seq<char>) -> Seq<char> {
    let ls = lines(contents);
    join(
        ls.map_values(|l: Seq<char>| saver_line(l)) + missing_settings(memory_saver_settings(), ls),
        "\n"@,
    ) + "\n"@
}

/// A text without colons.
pub open spec fn no_colon(s: Seq<char>) -> bool {
    forall|i: int| 0 <= i < s.len() ==> s[i] != ':'
}

/// The settings line of a setting: its key, a colon and its value.
pub open spec fn setting_line(setting: (Seq<char>, Seq<char>)) -> Seq<char> {
    setting.0 + ":"@ + setting.1
}

/// What the memory saver relies on for one of its settings: a key
/// without colons or line feeds, a value without line feeds that ends in
/// something other than a carriage return, and the key found first at
/// this setting.
pub open spec fn setting_facts(s: Seq<(Seq<char>, Seq<char>)>, j: int) -> bool {
    &&& no_colon(s[j].0)
    &&& crate::text::no_newline(s[j].0)
    &&& crate::text::no_newline(s[j].1)
    &&& s[j].1.len() > 0
    &&& crate::text::no_trailing_cr(s[j].1)
    &&& setting_for(s, s[j].0) == Some(s[j].1)
}

proof fn lemma_saver_settings()
    ensures
        forall|j: int|
            0 <= j < memory_saver_settings().len() ==> #[trigger] setting_facts(
                memory_saver_settings(),
                j,
            ),
        memory_saver_settings().len() == 14,
{
    reveal_strlit("ao");
    reveal_strlit("false");
    reveal_strlit("enableVsync");
    reveal_strlit("entityDistanceScaling");
    reveal_strlit("0.5");
    reveal_strlit("entityShadows");
    reveal_strlit("graphicsPreset");
    reveal_strlit("\"fast\"");
    reveal_strlit("maxFps");
    reveal_strlit("90");
    reveal_strlit("mipmapLevels");
    reveal_strlit("0");
    reveal_strlit("particles");
    reveal_strlit("2");
    reveal_strlit("renderClouds");
    reveal_strlit("\"false\"");
    reveal_strlit("renderDistance");
    reveal_strlit("12");
    reveal_strlit("simulationDistance");
    reveal_strlit("8");
    reveal_strlit("biomeBlendRadius");
    reveal_strlit("menuBackgroundBlurriness");
    reveal_strlit("improvedTransparency");
    let s = memory_saver_settings();
    assert(s[0].0.len() != s[1].0.len());
    assert(s[0].0.len() != s[2].0.len());
    assert(s[1].0.len() != s[2].0.len());
    assert(s[0].0.len() != s[3].0.len());
    assert(s[1].0.len() != s[3].0.len());
    assert(s[2].0.len() != s[3].0.len());
    assert(s[0].0.len() != s[4].0.len());
    assert(s[1].0.len() != s[4].0.len());
    assert(s[2].0.len() != s[4].0.len());
    assert(s[3].0.len() != s[4].0.len());
    assert(s[0].0.len() != s[5].0.len());
    assert(s[1].0.len() != s[5].0.len());
    assert(s[2].0.len() != s[5].0.len());
    assert(s[3].0.len() != s[5].0.len());
    assert(s[4].0.len() != s[5].0.len());
    assert(s[0].0.len() != s[6].0.len());
    assert(s[1].0.len() != s[6].0.len());
    assert(s[2].0.len() != s[6].0.len());
    assert(s[3].0.len() != s[6].0.len());
    assert(s[4].0.len() != s[6].0.len());
    assert(s[5].0.len() != s[6].0.len());
    assert(s[0].0.len() != s[7].0.len());
    assert(s[1].0.len() != s[7].0.len());
    assert(s[2].0.len() != s[7].0.len());
    assert(s[3].0.len() != s[7].0.len());
    assert(s[4].0.len() != s[7].0.len());
    assert(s[5].0.len() != s[7].0.len());
    assert(s[6].0.len() != s[7].0.len());
    assert(s[0].0.len() != s[8].0.len());
    assert(s[1].0.len() != s[8].0.len());
    assert(s[2].0.len() != s[8].0.len());
    assert(s[3].0.len() != s[8].0.len());
    assert(s[4].0.len() != s[8].0.len());
    assert(s[5].0.len() != s[8].0.len());
    assert(s[6].0[0] != s[8].0[0]);
    assert(s[7].0.len() != s[8].0.len());
    assert(s[0].0.len() != s[9].0.len());
    assert(s[1].0.len() != s[9].0.len());
    assert(s[2].0.len() != s[9].0.len());
    assert(s[3].0.len() != s[9].0.len());
    assert(s[4].0[0] != s[9].0[0]);
    assert(s[5].0.len() != s[9].0.len());
    assert(s[6].0.len() != s[9].0.len());
    assert(s[7].0.len() != s[9].0.len());
    assert(s[8].0.len() != s[9].0.len());
    assert(s[0].0.len() != s[10].0.len());
    assert(s[1].0.len() != s[10].0.len());
    assert(s[2].0.len() != s[10].0.len());
    assert(s[3].0.len() != s[10].0.len());
    assert(s[4].0.len() != s[10].0.len());
    assert(s[5].0.len() != s[10].0.len());
    assert(s[6].0.len() != s[10].0.len());
    assert(s[7].0.len() != s[10].0.len());
    assert(s[8].0.len() != s[10].0.len());
    assert(s[9].0.len() != s[10].0.len());
    assert(s[0].0.len() != s[11].0.len());
    assert(s[1].0.len() != s[11].0.len());
    assert(s[2].0.len() != s[11].0.len());
    assert(s[3].0.len() != s[11].0.len());
    assert(s[4].0.len() != s[11].0.len());
    assert(s[5].0.len() != s[11].0.len());
    assert(s[6].0.len() != s[11].0.len());
    assert(s[7].0.len() != s[11].0.len());
    assert(s[8].0.len() != s[11].0.len());
    assert(s[9].0.len() != s[11].0.len());
    assert(s[10].0.len() != s[11].0.len());
    assert(s[0].0.len() != s[12].0.len());
    assert(s[1].0.len() != s[12].0.len());
    assert(s[2].0.len() != s[12].0.len());
    assert(s[3].0.len() != s[12].0.len());
    assert(s[4].0.len() != s[12].0.len());
    assert(s[5].0.len() != s[12].0.len());
    assert(s[6].0.len() != s[12].0.len());
    assert(s[7].0.len() != s[12].0.len());
    assert(s[8].0.len() != s[12].0.len());
    assert(s[9].0.len() != s[12].0.len());
    assert(s[10].0.len() != s[12].0.len());
    assert(s[11].0.len() != s[12].0.len());
    assert(s[0].0.len() != s[13].0.len());
    assert(s[1].0.len() != s[13].0.len());
    assert(s[2].0.len() != s[13].0.len());
    assert(s[3].0.len() != s[13].0.len());
    assert(s[4].0.len() != s[13].0.len());
    assert(s[5].0.len() != s[13].0.len());
    assert(s[6].0.len() != s[13].0.len());
    assert(s[7].0.len() != s[13].0.len());
    assert(s[8].0.len() != s[13].0.len());
    assert(s[9].0.len() != s[13].0.len());
    assert(s[10].0.len() != s[13].0.len());
    assert(s[11].0.len() != s[13].0.len());
    assert(s[12].0.len() != s[13].0.len());
    assert forall|j: int| 0 <= j < s.len() implies no_colon(#[trigger] s[j].0) && crate::text::no_newline(s[j].0)
        && crate::text::no_newline(s[j].1) && s[j].1.len() > 0 && crate::text::no_trailing_cr(s[j].1) by {
        assert(0 <= j < 14);
    }
    assert forall|j: int| 0 <= j < s.len() implies forall|i: int| 0 <= i < j ==> s[i].0 != #[trigger] s[j].0 by {
        assert(0 <= j < 14);
    }
    assert forall|j: int| 0 <= j < s.len() implies #[trigger] setting_facts(s, j) by {
        lemma_setting_for_at(s, j);
    }
}

/// The first setting with a key is found for it.
proof fn lemma_setting_for_at(settings: Seq<(Seq<char>, Seq<char>)>, j: int)
    requires
        0 <= j < settings.len(),
        forall|i: int| 0 <= i < j ==> #[trigger] settings[i].0 != settings[j].0,
    ensures
        setting_for(settings, settings[j].0) == Some(settings[j].1),
    decreases j,
{
    if j > 0 {
        let rest = settings.drop_first();
        assert forall|i: int| 0 <= i < j - 1 implies #[trigger] rest[i].0 != rest[j - 1].0 by {
            assert(rest[i] == settings[i + 1]);
        }
        lemma_setting_for_at(rest, j - 1);
    }
}

proof fn lemma_setting_for_some(settings: Seq<(Seq<char>, Seq<char>)>, key: Seq<char>)
    ensures
        setting_for(settings, key) matches Some(v) ==> exists|j: int|
            0 <= j < settings.len() && settings[j].0 == key && #[trigger] settings[j].1 == v,
    decreases settings.len(),
{
    if settings.len() > 0 && settings[0].0 != key {
        lemma_setting_for_some(settings.drop_first(), key);
        if let Some(v) = setting_for(settings, key) {
            let j = choose|j: int|
                0 <= j < settings.drop_first().len() && settings.drop_first()[j].0 == key
                    && #[trigger] settings.drop_first()[j].1 == v;
            assert(settings[j + 1].1 == v);
        }
    } else if settings.len() > 0 {
        assert(settings[0].1 == settings[0].1);
    }
}

proof fn lemma_line_key_of_setting(k: Seq<char>, v: Seq<char>)
    requires
        no_colon(k),
    ensures
        line_key(k + ":"@ + v) == Some(k),
{
    reveal_strlit(":");
    let l = k + ":"@ + v;
    crate::text::lemma_find_char_is(l, ':', k.len() as int);
    assert(l.take(k.len() as int) =~= k);
}

proof fn lemma_line_key_parts(l: Seq<char>)
    ensures
        line_key(l) matches Some(k) ==> no_colon(k) && k == l.take(k.len() as int) && k.len()
            <= l.len(),
{
    crate::text::lemma_find_char(l, ':');
}

/// A line the memory saver wrote is left as it is by a second pass.
proof fn lemma_saver_line_stable(l: Seq<char>)
    ensures
        saver_line(saver_line(l)) == saver_line(l),
{
    lemma_line_key_parts(l);
    if let Some(k) = line_key(l) {
        if let Some(v) = setting_for(memory_saver_settings(), k) {
            lemma_line_key_of_setting(k, v);
        }
    }
}

/// The missing settings' lines name every setting that no line sets.
proof fn lemma_missing_has(settings: Seq<(Seq<char>, Seq<char>)>, ls: Seq<Seq<char>>, j: int)
    requires
        0 <= j < settings.len(),
        !has_key(ls, settings[j].0),
    ensures
        exists|p: int|
            0 <= p < missing_settings(settings, ls).len() && #[trigger] missing_settings(
                settings,
                ls,
            )[p] == setting_line(settings[j]),
    decreases settings.len(),
{
    reveal_strlit(":");
    let m = missing_settings(settings, ls);
    if j == settings.len() - 1 {
        let p = m.len() - 1;
        assert(m[p] == setting_line(settings[j]));
    } else {
        lemma_missing_has(settings.drop_last(), ls, j);
        let mm = missing_settings(settings.drop_last(), ls);
        let p = choose|p: int| 0 <= p < mm.len() && #[trigger] mm[p] == setting_line(
            settings.drop_last()[j],
        );
        assert(m[p] == mm[p]);
    }
}

/// With every setting set by some line, none is missing.
proof fn lemma_missing_none(settings: Seq<(Seq<char>, Seq<char>)>, ls: Seq<Seq<char>>)
    requires
        forall|j: int| 0 <= j < settings.len() ==> has_key(ls, #[trigger] settings[j].0),
    ensures
        missing_settings(settings, ls) == Seq::<Seq<char>>::empty(),
    decreases settings.len(),
{
    if settings.len() > 0 {
        assert(has_key(ls, settings[settings.len() - 1].0));
        assert forall|j: int| 0 <= j < settings.drop_last().len() implies has_key(
            ls,
            #[trigger] settings.drop_last()[j].0,
        ) by {
            assert(settings.drop_last()[j] == settings[j]);
        }
        lemma_missing_none(settings.drop_last(), ls);
        assert(missing_settings(settings, ls) =~= Seq::<Seq<char>>::empty());
    }
}

/// A line that is the line of one of the settings.
pub open spec fn is_setting_line(settings: Seq<(Seq<char>, Seq<char>)>, line: Seq<char>) -> bool {
    exists|j: int| 0 <= j < settings.len() && line == #[trigger] setting_line(settings[j])
}

/// Each missing line is the line of one of the settings.
proof fn lemma_missing_lines(settings: Seq<(Seq<char>, Seq<char>)>, ls: Seq<Seq<char>>)
    ensures
        forall|p: int|
            0 <= p < missing_settings(settings, ls).len() ==> is_setting_line(
                settings,
                #[trigger] missing_settings(settings, ls)[p],
            ),
    decreases settings.len(),
{
    reveal_strlit(":");
    if settings.len() > 0 {
        lemma_missing_lines(settings.drop_last(), ls);
        let m = missing_settings(settings, ls);
        let mm = missing_settings(settings.drop_last(), ls);
        assert forall|p: int| 0 <= p < m.len() implies is_setting_line(settings, #[trigger] m[p]) by {
            if p < mm.len() {
                assert(m[p] == mm[p]);
                assert(is_setting_line(settings.drop_last(), mm[p]));
                let j = choose|j: int|
                    0 <= j < settings.drop_last().len() && mm[p] == #[trigger] setting_line(
                        settings.drop_last()[j],
                    );
                assert(settings.drop_last()[j] == settings[j]);
                assert(m[p] == setting_line(settings[j]));
            } else {
                assert(m[p] == setting_line(settings[settings.len() - 1]));
            }
        }
    } else {
        assert(missing_settings(settings, ls).len() == 0);
    }
}

/// Applying the memory saver a second time changes nothing, for settings
/// whose lines do not end with a carriage return.
pub proof fn memory_saver_is_idempotent(contents: Seq<char>)
    requires
        forall|k: int|
            0 <= k < lines(contents).len() ==> crate::text::no_trailing_cr(
                #[trigger] lines(contents)[k],
            ),
    ensures
        with_memory_saver(with_memory_saver(contents)) == with_memory_saver(contents),
{
    reveal_strlit(":");
    let s = memory_saver_settings();
    let ls = lines(contents);
    lemma_saver_settings();
    crate::text::lemma_lines_no_newline(contents);
    lemma_missing_lines(s, ls);
    let mapped = ls.map_values(|l: Seq<char>| saver_line(l));
    let miss = missing_settings(s, ls);
    let out = mapped + miss;
    assert(with_memory_saver(contents) == crate::text::join(out, "\n"@) + "\n"@);
    // Every written line is a single line, as it is read back.
    assert forall|k: int| 0 <= k < out.len() implies crate::text::no_newline(#[trigger] out[k])
        && crate::text::no_trailing_cr(out[k]) && saver_line(out[k]) == out[k] by {
        if k < ls.len() {
            let l = ls[k];
            assert(out[k] == saver_line(l));
            lemma_saver_line_stable(l);
            lemma_line_key_parts(l);
            assert(crate::text::no_newline(l));
            if let Some(key) = line_key(l) {
                if let Some(v) = setting_for(s, key) {
                    lemma_setting_for_some(s, key);
                    let j = choose|j: int| 0 <= j < s.len() && s[j].0 == key && #[trigger] s[j].1 == v;
                    assert(setting_facts(s, j));
                    assert(out[k] == key + ":"@ + v);
                    assert forall|i: int| 0 <= i < key.len() implies key[i] != '\n' by {
                        assert(key[i] == l[i]);
                    }
                    assert(crate::text::no_newline(out[k]));
                }
            }
        } else {
            let p = k - ls.len();
            assert(out[k] == miss[p]);
            assert(is_setting_line(s, miss[p]));
            let j = choose|j: int| 0 <= j < s.len() && miss[p] == #[trigger] setting_line(s[j]);
            assert(setting_facts(s, j));
            lemma_line_key_of_setting(s[j].0, s[j].1);
            assert(saver_line(out[k]) == out[k]);
            assert(crate::text::no_newline(out[k]));
        }
    }
    // Something is always written: a line of the settings, or the first
    // missing setting.
    if ls.len() == 0 {
        assert(!has_key(ls, s[0].0));
        lemma_missing_has(s, ls, 0);
    }
    assert(out.len() > 0);
    crate::text::lemma_lines_of_written(out);
    let again = lines(with_memory_saver(contents));
    assert(again == out);
    assert(again.map_values(|l: Seq<char>| saver_line(l)) =~= out);
    // Every setting is now set by some line.
    assert forall|j: int| 0 <= j < s.len() implies has_key(out, #[trigger] s[j].0) by {
        assert(setting_facts(s, j));
        lemma_line_key_of_setting(s[j].0, s[j].1);
        if has_key(ls, s[j].0) {
            let i = choose|i: int| 0 <= i < ls.len() && line_key(#[trigger] ls[i]) == Some(s[j].0);
            assert(out[i] == saver_line(ls[i]));
            assert(out[i] == s[j].0 + ":"@ + s[j].1);
            assert(line_key(out[i]) == Some(s[j].0));
        } else {
            lemma_missing_has(s, ls, j);
            let p = choose|p: int| 0 <= p < miss.len() && #[trigger] miss[p] == setting_line(s[j]);
            assert(out[ls.len() + p] == miss[p]);
            assert(line_key(out[ls.len() + p]) == Some(s[j].0));
        }
    }
    lemma_missing_none(s, out);
    assert(again.map_values(|l: Seq<char>| saver_line(l)) + missing_settings(s, again) =~= out);
}

fn memory_saver_table() -> (r: Vec<(String, String)>)
    ensures
        pair_views(r@) == memory_saver_settings(),
{
    let mut t: Vec<(String, String)> = Vec::new();
    t.push(token("ao", to_string("false")));
    t.push(token("enableVsync", to_string("false")));
    t.push(token("entityDistanceScaling", to_string("0.5")));
    t.push(token("entityShadows", to_string("false")));
    t.push(token("graphicsPreset", to_string("\"fast\"")));
    t.push(token("maxFps", to_string("90")));
    t.push(token("mipmapLevels", to_string("0")));
    t.push(token("particles", to_string("2")));
    t.push(token("renderClouds", to_string("\"false\"")));
    t.push(token("renderDistance", to_string("12")));
    t.push(token("simulationDistance", to_string("8")));
    t.push(token("biomeBlendRadius", to_string("0")));
    t.push(token("menuBackgroundBlurriness", to_string("0")));
    t.push(token("improvedTransparency", to_string("false")));
    assert(pair_views(t@) =~= memory_saver_settings());
    t
}

/// The key of a settings line.
pub fn line_key_of(line: &str) -> (r: Option<String>)
    ensures
        crate::auth::opt_string_view(r) == line_key(line@),
{
    let v = chars_of(line);
    let mut i: usize = 0;
    while i < v.len()
        invariant
            0 <= i <= v.len(),
            v@ == line@,
            forall|j: int| 0 <= j < i ==> v@[j] != ':',
        decreases v.len() - i,
    {
        if v[i] == ':' {
            proof {
                crate::text::lemma_find_char_is(v@, ':', i as int);
            }
            return Some(crate::text::string_of_range(&v, 0, i));
        }
        i += 1;
    }
    proof {
        crate::text::lemma_find_char_is(v@, ':', v@.len() as int);
    }
    None
}

fn setting_value(table: &Vec<(String, String)>, key: &str) -> (r: Option<String>)
    ensures
        crate::auth::opt_string_view(r) == setting_for(pair_views(table@), key@),
{
    let ghost all = pair_views(table@);
    let mut i: usize = 0;
    assert(all.skip(0) =~= all);
    while i < table.len()
        invariant
            0 <= i <= table.len(),
            all == pair_views(table@),
            setting_for(all, key@) == setting_for(all.skip(i as int), key@),
        decreases table.len() - i,
    {
        assert(all.skip(i as int).drop_first() =~= all.skip(i + 1));
        if crate::text::str_equal(table[i].0.as_str(), key) {
            return Some(table[i].1.clone());
        }
        i += 1;
    }
    None
}

fn saver_line_of(table: &Vec<(String, String)>, line: &str) -> (r: String)
    requires
        pair_views(table@) == memory_saver_settings(),
    ensures
        r@ == saver_line(line@),
{
    match line_key_of(line) {
        Some(k) => match setting_value(table, k.as_str()) {
            Some(v) => {
                let mut r = concat2(k.as_str(), ":");
                push_str(&mut r, v.as_str());
                r
            },
            None => to_string(line),
        },
        None => to_string(line),
    }
}

fn has_key_in(ls: &Vec<String>, key: &str) -> (r: bool)
    ensures
        r == has_key(views(ls@), key@),
{
    let ghost all = views(ls@);
    let mut i: usize = 0;
    while i < ls.len()
        invariant
            0 <= i <= ls.len(),
            all == views(ls@),
            forall|j: int| 0 <= j < i ==> line_key(#[trigger] all[j]) != Some(key@),
        decreases ls.len() - i,
    {
        let k = line_key_of(ls[i].as_str());
        let same = match &k {
            Some(k) => crate::text::str_equal(k.as_str(), key),
            None => false,
        };
        if same {
            assert(line_key(all[i as int]) == Some(key@));
            return true;
        }
        i += 1;
    }
    false
}

/// Applies the memory-saving settings to the game's settings text.
pub fn apply_memory_saver(contents: &str) -> (r: String)
    ensures
        r@ == with_memory_saver(contents@),
{
    let table = memory_saver_table();
    let ghost settings = memory_saver_settings();
    let ls = crate::text::split_lines(&chars_of(contents));
    let ghost all = views(ls@);
    let mut out: Vec<String> = Vec::new();
    let mut i: usize = 0;
    while i < ls.len()
        invariant
            0 <= i <= ls.len(),
            all == views(ls@),
            pair_views(table@) == settings,
            settings == memory_saver_settings(),
            views(out@) == all.take(i as int).map_values(|l: Seq<char>| saver_line(l)),
        decreases ls.len() - i,
    {
        let line = saver_line_of(&table, ls[i].as_str());
        push_string(&mut out, line);
        assert(all.take(i + 1).map_values(|l: Seq<char>| saver_line(l)) =~= all.take(
            i as int,
        ).map_values(|l: Seq<char>| saver_line(l)).push(saver_line(all[i as int])));
        i += 1;
    }
    assert(all.take(ls.len() as int) =~= all);
    let ghost mapped = views(out@);
    let mut j: usize = 0;
    while j < table.len()
        invariant
            0 <= j <= table.len(),
            all == views(ls@),
            pair_views(table@) == settings,
            views(out@) == mapped + missing_settings(settings.take(j as int), all),
        decreases table.len() - j,
    {
        assert(settings.take(j + 1).drop_last() =~= settings.take(j as int));
        if !has_key_in(&ls, table[j].0.as_str()) {
            let mut line = concat2(table[j].0.as_str(), ":");
            push_str(&mut line, table[j].1.as_str());
            push_string(&mut out, line);
        }
        j += 1;
    }
    assert(settings.take(table.len() as int) =~= settings);
    let mut r = join_strings(&out, "\n");
    push_str(&mut r, "\n");
    r
}

// ---------------------------------------------------------------------------
// Natives and the running game
// ---------------------------------------------------------------------------

/// An entry of the official launcher's `bin` directory.
#[derive(Clone, Debug)]
pub struct DirectoryStamp {
    pub path: String,
    pub is_dir: bool,
    /// Modification time; `None` when it could not be read.
    pub modified: Option<u128>,
}

/// The directory kept after looking at the entries in order, as
/// `Iterator::max_by_key` keeps it: a directory replaces the one kept when
/// none is kept yet or its time is not older (`None` is oldest).
pub open spec fn newest_dir(entries: Seq<DirectoryStamp>, kept: Option<DirectoryStamp>) -> Option<
    DirectoryStamp,
>
    decreases entries.len(),
{
    if entries.len() == 0 {
        kept
    } else {
        let e = entries[0];
        let next = if e.is_dir && match kept {
            None => true,
            Some(k) => !crate::professional::stamp_newer(k.modified, e.modified),
        } {
            Some(e)
        } else {
            kept
        };
        newest_dir(entries.drop_first(), next)
    }
}

fn not_older(a: Option<u128>, b: Option<u128>) -> (r: bool)
    ensures
        r == !crate::professional::stamp_newer(b, a),
{
    match (b, a) {
        (Some(x), Some(y)) => !(x > y),
        (Some(_), None) => false,
        _ => true,
    }
}

/// The newest natives directory that the official launcher unpacked.
pub fn newest_natives_directory(entries: &Vec<DirectoryStamp>) -> (r: Result<String, String>)
    ensures
        match newest_dir(entries@, None) {
            Some(d) => r matches Ok(p) && p@ == d.path@,
            None => r matches Err(e) && e@
                == "No se encontraron los componentes nativos. Inicia Minecraft una vez desde el launcher oficial."@,
        },
{
    let mut best: Option<usize> = None;
    let mut i: usize = 0;
    assert(entries@.skip(0) =~= entries@);
    while i < entries.len()
        invariant
            0 <= i <= entries.len(),
            best matches Some(b) ==> b < i,
            newest_dir(entries@, None) == newest_dir(
                entries@.skip(i as int),
                match best {
                    Some(b) => Some(entries@[b as int]),
                    None => None,
                },
            ),
        decreases entries.len() - i,
    {
        assert(entries@.skip(i as int).drop_first() =~= entries@.skip(i + 1));
        let e = &entries[i];
        let replace = e.is_dir && match best {
            None => true,
            Some(b) => not_older(e.modified, entries[b].modified),
        };
        if replace {
            best = Some(i);
        }
        i += 1;
    }
    assert(entries@.skip(entries.len() as int) =~= Seq::<DirectoryStamp>::empty());
    match best {
        Some(b) => Ok(entries[b].path.clone()),
        None => Err(
            to_string(
                "No se encontraron los componentes nativos. Inicia Minecraft una vez desde el launcher oficial.",
            ),
        ),
    }
}

/// The command that asks the system to stop the game's process.
pub open spec fn kill_command(os: TargetOs, pid: u32) -> Seq<Seq<char>> {
    match os {
        TargetOs::Windows => seq!["taskkill"@, "/PID"@, decimal(pid as nat), "/T"@, "/F"@],
        _ => seq!["kill"@, "-TERM"@, decimal(pid as nat)],
    }
}

/// The program and arguments that stop the game's process.
pub fn kill_command_for(os: TargetOs, pid: u32) -> (r: Vec<String>)
    ensures
        views(r@) == kill_command(os, pid),
{
    let mut out: Vec<String> = Vec::new();
    let mut id = String::new();
    push_decimal(&mut id, pid as u64);
    match os {
        TargetOs::Windows => {
            push_string(&mut out, to_string("taskkill"));
            push_string(&mut out, to_string("/PID"));
            push_string(&mut out, id);
            push_string(&mut out, to_string("/T"));
            push_string(&mut out, to_string("/F"));
        },
        _ => {
            push_string(&mut out, to_string("kill"));
            push_string(&mut out, to_string("-TERM"));
            push_string(&mut out, id);
        },
    }
    assert(views(out@) =~= kill_command(os, pid));
    out
}

/// The game process to stop, or the message that none runs.
pub fn running_pid(pid: Option<u32>) -> (r: Result<u32, String>)
    ensures
        pid matches Some(p) ==> r == Ok::<u32, String>(p),
        pid is None ==> (r matches Err(e) && e@
            == "No hay una instancia de Minecraft ejecutándose"@),
{
    match pid {
        Some(p) => Ok(p),
        None => Err(to_string("No hay una instancia de Minecraft ejecutándose")),
    }
}

/// The answer when the system accepted the request to stop the game.
pub fn kill_requested_message(pid: u32) -> (r: String)
    ensures
        r@ == "Se solicitó cerrar Minecraft (PID "@ + decimal(pid as nat) + ")"@,
{
    let mut r = to_string("Se solicitó cerrar Minecraft (PID ");
    push_decimal(&mut r, pid as u64);
    push_str(&mut r, ")");
    r
}

/// A launch is refused while the game already runs.
pub fn ensure_not_running(pid: Option<u32>) -> (r: Result<(), String>)
    ensures
        r is Ok <==> pid is None,
        r matches Err(e) ==> e@ == "Minecraft ya está ejecutándose"@,
{
    match pid {
        Some(_) => Err(to_string("Minecraft ya está ejecutándose")),
        None => Ok(()),
    }
}

/// A launch stops where the user cancelled it.
pub fn ensure_not_cancelled(cancel_requested: bool) -> (r: Result<(), String>)
    ensures
        r is Ok <==> !cancel_requested,
        r matches Err(e) ==> e@ == "Inicio cancelado por el usuario"@,
{
    if cancel_requested {
        Err(to_string("Inicio cancelado por el usuario"))
    } else {
        Ok(())
    }
}

/// What happens to the cancellation of a start: the user asks to cancel,
/// a new start clears the request, or a step checks it.
pub enum CancelEvent {
    Request,
    Reset,
    Check,
}

/// Whether cancellation is requested after a series of events, starting
/// from `requested`.
pub open spec fn requested_after(requested: bool, events: Seq<CancelEvent>) -> bool
    decreases events.len(),
{
    if events.len() == 0 {
        requested
    } else {
        let before = requested_after(requested, events.drop_last());
        match events.last() {
            CancelEvent::Request => true,
            CancelEvent::Reset => false,
            CancelEvent::Check => before,
        }
    }
}

/// The cancellation request of the start in progress.
pub struct CancelFlag {
    requested: bool,
}

impl View for CancelFlag {
    type V = bool;

    closed spec fn view(&self) -> bool {
        self.requested
    }
}

impl CancelFlag {
    /// No cancellation requested.
    pub fn new() -> (r: CancelFlag)
        ensures
            !r@,
    {
        CancelFlag { requested: false }
    }

    /// The user asks to cancel.
    pub fn request(&mut self)
        ensures
            final(self)@ == requested_after(old(self)@, seq![CancelEvent::Request]),
    {
        self.requested = true;
    }

    /// A new start clears the request.
    pub fn reset(&mut self)
        ensures
            final(self)@ == requested_after(old(self)@, seq![CancelEvent::Reset]),
    {
        self.requested = false;
    }

    /// A step of the start stops when cancellation is requested; checking
    /// changes nothing.
    pub fn check(&self) -> (r: Result<(), String>)
        ensures
            r is Ok <==> !self@,
            r matches Err(e) ==> e@ == "Inicio cancelado por el usuario"@,
            requested_after(self@, seq![CancelEvent::Check]) == self@,
    {
        proof {
            assert(seq![CancelEvent::Check].drop_last() =~= Seq::<CancelEvent>::empty());
            assert(requested_after(self@, Seq::<CancelEvent>::empty()) == self@);
        }
        ensure_not_cancelled(self.requested)
    }
}

/// A cancellation holds until a new start clears it: after a request, any
/// number of checks and further requests leave it requested, so every
/// later check fails.
pub proof fn cancellation_holds_until_reset(events: Seq<CancelEvent>)
    ensures
        (forall|i: int| 0 <= i < events.len() ==> !(#[trigger] events[i] is Reset))
            ==> requested_after(true, events),
    decreases events.len(),
{
    if events.len() > 0 {
        cancellation_holds_until_reset(events.drop_last());
        if forall|i: int| 0 <= i < events.len() ==> !(#[trigger] events[i] is Reset) {
            assert forall|i: int| 0 <= i < events.drop_last().len() implies !(
            #[trigger] events.drop_last()[i] is Reset) by {
                assert(events.drop_last()[i] == events[i]);
            }
            assert(!(events[events.len() - 1] is Reset));
        }
    }
}

/// The answer to a cancellation.
pub fn cancel_message() -> (r: String)
    ensures
        r@ == "Inicio cancelado"@,
{
    to_string("Inicio cancelado")
}

/// Whether the game runs, its process and when it started.
#[derive(Clone, Debug)]
pub struct RuntimeStatus {
    pub running: bool,
    pub pid: Option<u32>,
    pub started_at: Option<u64>,
}

/// The status of the game process.
pub fn runtime_status_of(pid: Option<u32>, started_at: Option<u64>) -> (r: RuntimeStatus)
    ensures
        r.running == pid is Some,
        r.pid == pid,
        r.started_at == started_at,
{
    RuntimeStatus { running: pid.is_some(), pid, started_at }
}

/// The answer once the prepared version's process started.
pub fn prepared_started_message(version: &str, pid: u32) -> (r: String)
    ensures
        r@ == "Minecraft "@ + version@ + " iniciado (PID "@ + decimal(pid as nat) + ")"@,
{
    let mut r = concat2("Minecraft ", version);
    push_str(&mut r, " iniciado (PID ");
    push_decimal(&mut r, pid as u64);
    push_str(&mut r, ")");
    r
}

/// The answer once the bundled profile's process started.
pub fn bundled_started_message(username: &str, pid: u32) -> (r: String)
    ensures
        r@ == "Minecraft iniciado directamente como "@ + username@ + " (PID "@ + decimal(
            pid as nat,
        ) + ")"@,
{
    let mut r = concat2("Minecraft iniciado directamente como ", username);
    push_str(&mut r, " (PID ");
    push_decimal(&mut r, pid as u64);
    push_str(&mut r, ")");
    r
}

} // verus!
