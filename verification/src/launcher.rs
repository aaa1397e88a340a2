//! The launcher's own state: the game instance list, the selected version
//! and instance, the status shown for them, update checks, diagnostics and
//! the installation of the bundled client.
use vstd::prelude::*;
use crate::auth::opt_string_view;
use crate::paths::{is_name_char, join_path, join_path_str, valid_id};
use crate::professional::{find_instance, instance_views, ManagedInstance};
use crate::text::{
    chars_of, concat2, decimal, join, join_strings, lines, push_decimal, push_str, split_lines,
    str_equal, to_string, trim, trim_str, views,
};
use crate::version_manager::{version_directory_of, version_json_path, TargetOs};

verus! {

/// The Minecraft version this release of the launcher is built for.
pub const MINECRAFT_VERSION: &'static str = "1.21.11";

/// The file name of the bundled client mod.
pub const MOD_FILE_NAME: &'static str = "aureus-client-0.3.0-minecraft-1.21.11.jar";

/// The file name of the bundled Fabric API.
pub const FABRIC_API_FILE_NAME: &'static str = "fabric-api-0.141.6+1.21.11.jar";

// ---------------------------------------------------------------------------
// Game instances
// ---------------------------------------------------------------------------

/// An instance of the bundled client.
#[derive(Clone, Debug)]
pub struct GameInstance {
    pub id: String,
    pub name: String,
    pub minecraft_version: String,
    pub loader_version: String,
    pub memory_mb: u32,
    pub jvm_args: Vec<String>,
    pub game_directory: String,
    pub performance_profile: String,
}

/// A game instance by its values.
pub struct GameView {
    pub id: Seq<char>,
    pub name: Seq<char>,
    pub minecraft_version: Seq<char>,
    pub loader_version: Seq<char>,
    pub memory_mb: u32,
    pub jvm_args: Seq<Seq<char>>,
    pub game_directory: Seq<char>,
    pub performance_profile: Seq<char>,
}

impl View for GameInstance {
    type V = GameView;

    open spec fn view(&self) -> GameView {
        GameView {
            id: self.id@,
            name: self.name@,
            minecraft_version: self.minecraft_version@,
            loader_version: self.loader_version@,
            memory_mb: self.memory_mb,
            jvm_args: views(self.jvm_args@),
            game_directory: self.game_directory@,
            performance_profile: self.performance_profile@,
        }
    }
}

pub open spec fn game_views(v: Seq<GameInstance>) -> Seq<GameView> {
    v.map_values(|g: GameInstance| g@)
}

impl GameInstance {
    /// A copy with the same values.
    pub fn duplicate(&self) -> (r: GameInstance)
        ensures
            r@ == self@,
    {
        let jvm = crate::professional::clone_strings(&self.jvm_args);
        GameInstance {
            id: self.id.clone(),
            name: self.name.clone(),
            minecraft_version: self.minecraft_version.clone(),
            loader_version: self.loader_version.clone(),
            memory_mb: self.memory_mb,
            jvm_args: jvm,
            game_directory: self.game_directory.clone(),
            performance_profile: self.performance_profile.clone(),
        }
    }
}

/// The instance the launcher starts with, in the given game directory.
pub open spec fn default_game(game_directory: Seq<char>) -> GameView {
    GameView {
        id: "aureus-1-21-11"@,
        name: "Aureus 1.21.11"@,
        minecraft_version: MINECRAFT_VERSION@,
        loader_version: "0.19.3"@,
        memory_mb: 5120,
        jvm_args: seq!["-XX:+UseG1GC"@, "-XX:+ParallelRefProcEnabled"@],
        game_directory: game_directory,
        performance_profile: "CUSTOM"@,
    }
}

/// The default instance, in the Minecraft directory when one was found.
pub fn default_instance(game_directory: Option<String>) -> (r: Result<GameInstance, String>)
    ensures
        game_directory matches Some(d) ==> (r matches Ok(g) && g@ == default_game(d@)),
        game_directory is None ==> (r matches Err(e) && e@ == "No se pudo localizar Minecraft"@),
{
    let dir = match game_directory {
        Some(d) => d,
        None => return Err(to_string("No se pudo localizar Minecraft")),
    };
    let mut jvm: Vec<String> = Vec::new();
    jvm.push(to_string("-XX:+UseG1GC"));
    jvm.push(to_string("-XX:+ParallelRefProcEnabled"));
    let g = GameInstance {
        id: to_string("aureus-1-21-11"),
        name: to_string("Aureus 1.21.11"),
        minecraft_version: to_string(MINECRAFT_VERSION),
        loader_version: to_string("0.19.3"),
        memory_mb: 5120,
        jvm_args: jvm,
        game_directory: dir,
        performance_profile: to_string("CUSTOM"),
    };
    assert(views(g.jvm_args@) =~= seq!["-XX:+UseG1GC"@, "-XX:+ParallelRefProcEnabled"@]);
    Ok(g)
}

/// The instances as stored, or the default one when none is stored.
pub fn instances_or_default(stored: Vec<GameInstance>, default: GameInstance) -> (r: Vec<
    GameInstance,
>)
    ensures
        stored@.len() > 0 ==> game_views(r@) == game_views(stored@),
        stored@.len() == 0 ==> game_views(r@) == seq![default@],
{
    if stored.len() > 0 {
        stored
    } else {
        let mut r: Vec<GameInstance> = Vec::new();
        r.push(default);
        assert(game_views(r@) =~= seq![default@]);
        r
    }
}

/// The position of the first instance with the given id.
pub open spec fn find_game(items: Seq<GameView>, id: Seq<char>) -> Option<int>
    decreases items.len(),
{
    if items.len() == 0 {
        None
    } else if items[0].id == id {
        Some(0)
    } else {
        match find_game(items.drop_first(), id) {
            Some(i) => Some(i + 1),
            None => None,
        }
    }
}

pub proof fn lemma_find_game(items: Seq<GameView>, id: Seq<char>)
    ensures
        find_game(items, id) matches Some(i) ==> 0 <= i < items.len() && items[i].id == id
            && forall|j: int| 0 <= j < i ==> items[j].id != id,
        find_game(items, id) is None ==> forall|j: int|
            0 <= j < items.len() ==> items[j].id != id,
    decreases items.len(),
{
    if items.len() > 0 {
        lemma_find_game(items.drop_first(), id);
        assert forall|j: int| 0 < j < items.len() implies items[j] == items.drop_first()[j - 1] by {}
    }
}

/// The list after saving an instance: it replaces the first one with its
/// id, or is appended.
pub open spec fn saved_games(items: Seq<GameView>, g: GameView) -> Seq<GameView> {
    match find_game(items, g.id) {
        Some(k) => items.update(k, g),
        None => items.push(g),
    }
}

/// A JVM setting is an option: it starts with `-`.
pub open spec fn jvm_option(a: Seq<char>) -> bool {
    a.len() > 0 && a[0] == '-'
}

/// Every JVM setting of a list is an option.
pub open spec fn jvm_options(args: Seq<Seq<char>>) -> bool {
    forall|i: int| 0 <= i < args.len() ==> jvm_option(#[trigger] args[i])
}

/// Whether every JVM setting starts with `-`.
pub fn all_jvm_options(args: &Vec<String>) -> (r: bool)
    ensures
        r == jvm_options(views(args@)),
{
    let mut i: usize = 0;
    while i < args.len()
        invariant
            0 <= i <= args.len(),
            forall|j: int| 0 <= j < i ==> jvm_option(#[trigger] views(args@)[j]),
        decreases args.len() - i,
    {
        let v = chars_of(args[i].as_str());
        assert(views(args@)[i as int] == args@[i as int]@);
        if v.len() == 0 || v[0] != '-' {
            return false;
        }
        i += 1;
    }
    true
}

/// An instance is accepted with a name that is not blank, between 2 and
/// 16 GB of memory, the supported game version, and JVM settings that are
/// all options.
pub open spec fn game_acceptable(g: GameView) -> bool {
    trim(g.name).len() > 0 && 2048 <= g.memory_mb <= 16384 && g.minecraft_version
        == MINECRAFT_VERSION@ && jvm_options(g.jvm_args)
}

/// Checks and saves an instance; the checks come in the order name,
/// memory, game version, JVM settings.
pub fn save_instance(instances: Vec<GameInstance>, instance: GameInstance) -> (r: Result<
    (Vec<GameInstance>, GameInstance),
    String,
>)
    ensures
        r is Ok <==> game_acceptable(instance@),
        trim(instance@.name).len() == 0 ==> (r matches Err(e) && e@
            == "La instancia necesita un nombre"@),
        trim(instance@.name).len() > 0 && !(2048 <= instance.memory_mb <= 16384) ==> (r matches Err(
            e,
        ) && e@ == "La memoria debe estar entre 2 y 16 GB"@),
        trim(instance@.name).len() > 0 && 2048 <= instance.memory_mb <= 16384
            && instance@.minecraft_version != MINECRAFT_VERSION@ ==> (r matches Err(e) && e@
            == "Esta versión de Aureus solo admite Minecraft 1.21.11"@),
        trim(instance@.name).len() > 0 && 2048 <= instance.memory_mb <= 16384
            && instance@.minecraft_version == MINECRAFT_VERSION@ && !jvm_options(instance@.jvm_args)
            ==> (r matches Err(e) && e@ == "Los argumentos de Java deben empezar por -"@),
        r matches Ok((list, saved)) ==> saved@ == instance@ && game_views(list@) == saved_games(
            game_views(instances@),
            instance@,
        ),
{
    if trim_str(instance.name.as_str()).as_str().is_empty() {
        return Err(to_string("La instancia necesita un nombre"));
    }
    if instance.memory_mb < 2048 || instance.memory_mb > 16384 {
        return Err(to_string("La memoria debe estar entre 2 y 16 GB"));
    }
    if !str_equal(instance.minecraft_version.as_str(), MINECRAFT_VERSION) {
        return Err(to_string("Esta versión de Aureus solo admite Minecraft 1.21.11"));
    }
    if !all_jvm_options(&instance.jvm_args) {
        return Err(to_string("Los argumentos de Java deben empezar por -"));
    }
    let ghost all = game_views(instances@);
    let mut list = instances;
    let mut i: usize = 0;
    assert(all.skip(0) =~= all);
    while i < list.len()
        invariant
            0 <= i <= list.len(),
            all == game_views(list@),
            all == game_views(instances@),
            game_acceptable(instance@),
            find_game(all, instance@.id) == match find_game(all.skip(i as int), instance@.id) {
                Some(k) => Some(k + i),
                None => None,
            },
        decreases list.len() - i,
    {
        assert(all.skip(i as int).drop_first() =~= all.skip(i + 1));
        assert(all.skip(i as int)[0] == list@[i as int]@);
        if str_equal(list[i].id.as_str(), instance.id.as_str()) {
            let copy = instance.duplicate();
            list.set(i, copy);
            assert(game_views(list@) =~= saved_games(all, instance@));
            return Ok((list, instance));
        }
        i += 1;
    }
    assert(all.skip(list.len() as int) =~= Seq::<GameView>::empty());
    let copy = instance.duplicate();
    list.push(copy);
    assert(game_views(list@) =~= saved_games(all, instance@));
    Ok((list, instance))
}

/// After a save, looking the id up gives the saved instance, every other
/// id gives what it gave before, and nothing else changed.
pub proof fn save_then_lookup(items: Seq<GameView>, g: GameView, other: Seq<char>)
    ensures
        find_game(saved_games(items, g), g.id) matches Some(k) && saved_games(items, g)[k] == g,
        other != g.id ==> match (find_game(items, other), find_game(saved_games(items, g), other)) {
            (Some(a), Some(b)) => a == b && items[a] == saved_games(items, g)[b],
            (None, None) => true,
            _ => false,
        },
{
    lemma_find_game(items, g.id);
    lemma_find_game(items, other);
    let u = saved_games(items, g);
    lemma_find_game(u, g.id);
    lemma_find_game(u, other);
    match find_game(items, g.id) {
        Some(k) => {
            assert(u[k].id == g.id);
        },
        None => {
            assert(u[items.len() as int].id == g.id);
        },
    }
    if other != g.id {
        match find_game(items, other) {
            Some(a) => {
                assert(u[a].id == other);
            },
            None => {},
        }
        match find_game(u, other) {
            Some(b) => {
                assert(items[b].id == other);
            },
            None => {},
        }
    }
}

// ---------------------------------------------------------------------------
// Selected version and instance
// ---------------------------------------------------------------------------

/// A version name is accepted with 1 to 64 characters that are ASCII
/// letters, digits, `.`, `-` or `_`.
pub open spec fn valid_version_name(v: Seq<char>) -> bool {
    valid_id(v) && v.len() <= 64
}

/// Checks the name of a version to select.
pub fn validate_version_name(version: &str) -> (r: Result<(), String>)
    ensures
        r is Ok <==> valid_version_name(version@),
        r matches Err(e) ==> e@ == "Versión de Minecraft no válida"@,
{
    let v = chars_of(version);
    if v.len() == 0 || v.len() > 64 || !crate::paths::all_name_chars(&v) {
        return Err(to_string("Versión de Minecraft no válida"));
    }
    Ok(())
}

/// The value stored in a selection file: its text without surrounding
/// whitespace, unless that is empty or the file could not be read.
pub open spec fn stored_selection(contents: Option<Seq<char>>) -> Option<Seq<char>> {
    match contents {
        Some(c) => if trim(c).len() > 0 {
            Some(trim(c))
        } else {
            None
        },
        None => None,
    }
}

/// The value stored in a selection file, if any.
pub fn stored_selection_of(contents: Option<&str>) -> (r: Option<String>)
    ensures
        opt_string_view(r) == stored_selection(
            match contents {
                Some(c) => Some(c@),
                None => None,
            },
        ),
{
    match contents {
        Some(c) => {
            let t = trim_str(c);
            if t.as_str().is_empty() {
                None
            } else {
                Some(t)
            }
        },
        None => None,
    }
}

/// A version name that passes the check is read back unchanged from the
/// selection files it is written to.
pub proof fn selection_reads_back(version: Seq<char>)
    requires
        valid_version_name(version),
    ensures
        stored_selection(Some(version)) == Some(version),
{
    assert(is_name_char(version[0]));
    assert(is_name_char(version.last()));
    assert(crate::text::trim_start(version) == version);
}

/// The selected version: the stored one, or the supported version.
pub fn selected_version_of(contents: Option<&str>) -> (r: String)
    ensures
        r@ == match stored_selection(
            match contents {
                Some(c) => Some(c@),
                None => None,
            },
        ) {
            Some(v) => v,
            None => MINECRAFT_VERSION@,
        },
{
    match stored_selection_of(contents) {
        Some(v) => v,
        None => to_string(MINECRAFT_VERSION),
    }
}

/// The selected instance: the stored one, or the selected version.
pub fn selected_instance_of(contents: Option<&str>, selected_version: &str) -> (r: String)
    ensures
        r@ == match stored_selection(
            match contents {
                Some(c) => Some(c@),
                None => None,
            },
        ) {
            Some(v) => v,
            None => selected_version@,
        },
{
    match stored_selection_of(contents) {
        Some(v) => v,
        None => to_string(selected_version),
    }
}

/// Selecting a managed instance: it must exist; its id and game version
/// become the selection.
pub fn select_managed_instance(items: &Vec<ManagedInstance>, id: &str) -> (r: Result<
    (String, String),
    String,
>)
    ensures
        match find_instance(instance_views(items@), id@) {
            Some(k) => r matches Ok((i, v)) && i@ == items@[k].id@ && v@
                == items@[k].minecraft_version@,
            None => r matches Err(e) && e@ == "No existe esa instancia"@,
        },
{
    match crate::professional::position_of(items, id) {
        Some(k) => {
            proof {
                crate::professional::lemma_find_instance(instance_views(items@), id@);
            }
            Ok((items[k].id.clone(), items[k].minecraft_version.clone()))
        },
        None => Err(to_string("No existe esa instancia")),
    }
}

/// The state of the selected version.
#[derive(Clone, Debug)]
pub struct SelectedVersionStatus {
    pub version: String,
    pub prepared: bool,
    pub mode: String,
    pub mod_count: usize,
}

/// What the selected instance's descriptor says: its state, when that is
/// text, and its mod count, when that is a non-negative integer.
pub struct DescriptorSummary {
    pub state: Option<String>,
    pub mod_count: Option<u64>,
}

/// The state of the selected version: pending without a descriptor, else
/// prepared, in Fabric mode when the descriptor says so, with its mods.
pub fn selected_version_status(version: String, descriptor: Option<DescriptorSummary>) -> (r:
    SelectedVersionStatus)
    ensures
        r.version@ == version@,
        descriptor is None ==> !r.prepared && r.mode@ == "pending"@ && r.mod_count == 0,
        descriptor matches Some(d) ==> {
            &&& r.prepared
            &&& r.mode@ == if d.state matches Some(s) && s@ == "fabric-ready"@ {
                "fabric"@
            } else {
                "vanilla"@
            }
            &&& r.mod_count == match d.mod_count {
                Some(n) => n as usize,
                None => 0usize,
            }
        },
{
    match descriptor {
        None => SelectedVersionStatus {
            version,
            prepared: false,
            mode: to_string("pending"),
            mod_count: 0,
        },
        Some(d) => {
            let fabric = match &d.state {
                Some(s) => str_equal(s.as_str(), "fabric-ready"),
                None => false,
            };
            let count: usize = match d.mod_count {
                Some(n) => n as usize,
                None => 0,
            };
            SelectedVersionStatus {
                version,
                prepared: true,
                mode: if fabric {
                    to_string("fabric")
                } else {
                    to_string("vanilla")
                },
                mod_count: count,
            }
        },
    }
}

// ---------------------------------------------------------------------------
// Update check
// ---------------------------------------------------------------------------

/// Text without the leading `v`s of a release tag.
pub open spec fn without_leading_v(s: Seq<char>) -> Seq<char>
    decreases s.len(),
{
    if s.len() > 0 && s[0] == 'v' {
        without_leading_v(s.drop_first())
    } else {
        s
    }
}

/// What the launcher knows about its newest release.
#[derive(Clone, Debug)]
pub struct UpdateStatus {
    pub current_version: String,
    pub latest_version: String,
    pub available: bool,
    pub release_url: String,
    pub signed_install_required: bool,
}

/// The update status from the latest release's tag and page: the tag
/// without leading `v`s (the current release when there is none), an
/// update whenever it differs from the running version.
pub fn update_status(tag_name: Option<&str>, html_url: Option<&str>, current: &str) -> (r:
    UpdateStatus)
    ensures
        r.latest_version@ == without_leading_v(
            match tag_name {
                Some(t) => t@,
                None => "0.3.0"@,
            },
        ),
        r.current_version@ == current@,
        r.available == (r.latest_version@ != current@),
        r.release_url@ == match html_url {
            Some(u) => u@,
            None => "https://github.com/jjfrancoms/aureus-client/releases"@,
        },
        r.signed_install_required,
{
    let tag = match tag_name {
        Some(t) => t,
        None => "0.3.0",
    };
    let v = chars_of(tag);
    let mut i: usize = 0;
    assert(v@.skip(0) =~= v@);
    while i < v.len() && v[i] == 'v'
        invariant
            0 <= i <= v.len(),
            v@ == tag@,
            without_leading_v(tag@) == without_leading_v(v@.skip(i as int)),
        decreases v.len() - i,
    {
        assert(v@.skip(i as int).drop_first() =~= v@.skip(i + 1));
        i += 1;
    }
    let latest = crate::text::string_of_range(&v, i, v.len());
    proof {
        assert(v@.subrange(i as int, v@.len() as int) =~= v@.skip(i as int));
    }
    let available = !str_equal(latest.as_str(), current);
    UpdateStatus {
        current_version: to_string(current),
        latest_version: latest,
        available,
        release_url: match html_url {
            Some(u) => to_string(u),
            None => to_string("https://github.com/jjfrancoms/aureus-client/releases"),
        },
        signed_install_required: true,
    }
}

// ---------------------------------------------------------------------------
// Directories and diagnostics
// ---------------------------------------------------------------------------

/// Where the game keeps its files, below the user's home directory.
pub open spec fn minecraft_directory_in(home: Seq<char>, os: TargetOs) -> Seq<char> {
    join_path(
        home,
        match os {
            TargetOs::MacOs => "Library/Application Support/minecraft"@,
            TargetOs::Windows => "AppData/Roaming/.minecraft"@,
            TargetOs::Linux => ".minecraft"@,
        },
    )
}

/// The game's directory, when the home directory is known.
pub fn minecraft_directory(home: Option<String>, os: TargetOs) -> (r: Option<String>)
    ensures
        home matches Some(h) ==> (r matches Some(d) && d@ == minecraft_directory_in(h@, os)),
        home is None ==> r is None,
{
    match home {
        Some(h) => {
            let part = match os {
                TargetOs::MacOs => "Library/Application Support/minecraft",
                TargetOs::Windows => "AppData/Roaming/.minecraft",
                TargetOs::Linux => ".minecraft",
            };
            Some(join_path_str(h.as_str(), part))
        },
        None => None,
    }
}

/// `<minecraft>/mods/<file>`.
pub fn mods_file_path(minecraft: &str, file: &str) -> (r: String)
    ensures
        r@ == join_path(join_path(minecraft@, "mods"@), file@),
{
    join_path_str(join_path_str(minecraft, "mods").as_str(), file)
}

/// The bundled Fabric profile's description below the game's directory.
pub fn bundled_profile_json(minecraft: &str) -> (r: String)
    ensures
        r@ == join_path(
            version_directory_of(minecraft@, crate::launch::FABRIC_PROFILE@),
            crate::launch::FABRIC_PROFILE@ + ".json"@,
        ),
{
    version_json_path(minecraft, crate::launch::FABRIC_PROFILE)
}

/// The line that names the Java runtime: the first line Java wrote, or a
/// fallback when it wrote nothing or could not be run.
pub open spec fn java_version_line(stderr: Option<Seq<char>>) -> Seq<char> {
    match stderr {
        Some(t) => if lines(t).len() > 0 {
            lines(t)[0]
        } else {
            "Java detectado"@
        },
        None => "Java no detectado"@,
    }
}

/// The Java runtime line of the diagnostics, from what `java -version`
/// wrote to its error stream (`None` when it could not be run).
pub fn java_version_summary(stderr: Option<&str>) -> (r: String)
    ensures
        r@ == java_version_line(
            match stderr {
                Some(t) => Some(t@),
                None => None,
            },
        ),
{
    match stderr {
        Some(t) => {
            let ls = split_lines(&chars_of(t));
            if ls.len() > 0 {
                ls[0].clone()
            } else {
                to_string("Java detectado")
            }
        },
        None => to_string("Java no detectado"),
    }
}

/// The last lines of a log: at most 120, joined by line feeds.
pub open spec fn log_tail(text: Seq<char>) -> Seq<char> {
    let ls = lines(text);
    join(
        if ls.len() > 120 {
            ls.skip(ls.len() - 120)
        } else {
            ls
        },
        "\n"@,
    )
}

/// The end of the latest game log for the diagnostics (`None` when there
/// is no log to read).
pub fn latest_log_tail(text: Option<&str>) -> (r: String)
    ensures
        text matches Some(t) ==> r@ == log_tail(t@),
        text is None ==> r@ == "No existe un registro reciente"@,
{
    match text {
        Some(t) => {
            let ls = split_lines(&chars_of(t));
            let start: usize = if ls.len() > 120 {
                ls.len() - 120
            } else {
                0
            };
            let mut tail: Vec<String> = Vec::new();
            let mut i: usize = start;
            while i < ls.len()
                invariant
                    start <= i <= ls.len(),
                    views(tail@) == views(ls@).subrange(start as int, i as int),
                decreases ls.len() - i,
            {
                let ghost before = tail@;
                tail.push(ls[i].clone());
                assert(views(tail@) =~= views(before).push(ls@[i as int]@));
                assert(views(tail@) =~= views(ls@).subrange(start as int, i + 1));
                i += 1;
            }
            proof {
                let all = views(ls@);
                if all.len() > 120 {
                    assert(all.subrange(start as int, all.len() as int) =~= all.skip(
                        all.len() - 120,
                    ));
                } else {
                    assert(all.subrange(0, all.len() as int) =~= all);
                }
            }
            join_strings(&tail, "\n")
        },
        None => to_string("No existe un registro reciente"),
    }
}

// ---------------------------------------------------------------------------
// Installation
// ---------------------------------------------------------------------------

/// The command line of the Fabric installer for a game version.
pub open spec fn fabric_installer_args(
    installer: Seq<char>,
    minecraft: Seq<char>,
    version: Seq<char>,
    loader: Seq<char>,
) -> Seq<Seq<char>> {
    seq![
        "-jar"@,
        installer,
        "client"@,
        "-dir"@,
        minecraft,
        "-mcversion"@,
        version,
        "-loader"@,
        loader,
    ]
}

/// The arguments given to Java to run the Fabric installer.
pub fn fabric_installer_arguments(installer: &str, minecraft: &str, version: &str, loader: &str) -> (r:
    Vec<String>)
    ensures
        views(r@) == fabric_installer_args(installer@, minecraft@, version@, loader@),
{
    let mut r: Vec<String> = Vec::new();
    r.push(to_string("-jar"));
    r.push(to_string(installer));
    r.push(to_string("client"));
    r.push(to_string("-dir"));
    r.push(to_string(minecraft));
    r.push(to_string("-mcversion"));
    r.push(to_string(version));
    r.push(to_string("-loader"));
    r.push(to_string(loader));
    assert(views(r@) =~= fabric_installer_args(installer@, minecraft@, version@, loader@));
    r
}

/// How an installation ended: the state written to the descriptor, the
/// number of mods installed, and whether the bundled client was added.
#[derive(Clone, Debug)]
pub struct InstallOutcome {
    pub state: String,
    pub mod_count: u64,
    pub bundled_client: bool,
}

/// The outcome of an installation: Fabric mode when its installer ran
/// successfully, with the mods resolved for the version, and the bundled
/// client on top for the supported version; Vanilla mode otherwise.
pub fn install_outcome(version: &str, fabric_installed: bool, resolved_mods: u64) -> (r:
    InstallOutcome)
    requires
        resolved_mods < u64::MAX,
    ensures
        fabric_installed ==> r.state@ == "fabric-ready"@ && r.bundled_client == (version@
            == MINECRAFT_VERSION@) && r.mod_count == resolved_mods + if r.bundled_client {
            1int
        } else {
            0int
        },
        !fabric_installed ==> r.state@ == "vanilla-ready"@ && !r.bundled_client && r.mod_count == 0,
{
    if !fabric_installed {
        return InstallOutcome { state: to_string("vanilla-ready"), mod_count: 0, bundled_client: false };
    }
    let bundled = str_equal(version, MINECRAFT_VERSION);
    InstallOutcome {
        state: to_string("fabric-ready"),
        mod_count: if bundled {
            resolved_mods + 1
        } else {
            resolved_mods
        },
        bundled_client: bundled,
    }
}

/// The answer of an installation.
pub fn install_message(version: &str, fabric_ready: bool, mod_count: u64) -> (r: String)
    ensures
        fabric_ready ==> r@ == "Minecraft "@ + version@ + " preparado con Fabric y "@ + decimal(
            mod_count as nat,
        ) + " mods compatibles"@,
        !fabric_ready ==> r@ == "Minecraft "@ + version@
            + " preparado en modo Vanilla; Fabric no está disponible"@,
{
    let mut r = concat2("Minecraft ", version);
    if fabric_ready {
        push_str(&mut r, " preparado con Fabric y ");
        push_decimal(&mut r, mod_count);
        push_str(&mut r, " mods compatibles");
    } else {
        push_str(&mut r, " preparado en modo Vanilla; Fabric no está disponible");
    }
    r
}

/// The last progress line of an installation.
pub fn install_ready_detail(version: &str, fabric_ready: bool, mod_count: u64) -> (r: String)
    ensures
        fabric_ready ==> r@ == "Minecraft "@ + version@ + " · Fabric · "@ + decimal(mod_count as nat)
            + " mods"@,
        !fabric_ready ==> r@ == "Minecraft "@ + version@ + " · Vanilla"@,
{
    let mut r = concat2("Minecraft ", version);
    if fabric_ready {
        push_str(&mut r, " · Fabric · ");
        push_decimal(&mut r, mod_count);
        push_str(&mut r, " mods");
    } else {
        push_str(&mut r, " · Vanilla");
    }
    r
}

/// The performance mods installed with the bundled client: file name and
/// download address, in order.
pub open spec fn performance_mod_list() -> Seq<(Seq<char>, Seq<char>)> {
    seq![
        ("sodium-fabric-0.8.14-beta.2+mc1.21.11.jar"@, "https://cdn.modrinth.com/data/AANobbMI/versions/vqUoGREs/sodium-fabric-0.8.14-beta.2%2Bmc1.21.11.jar"@),
        ("lithium-fabric-0.21.4+mc1.21.11.jar"@, "https://cdn.modrinth.com/data/gvQqBUqZ/versions/Ow7wA0kG/lithium-fabric-0.21.4%2Bmc1.21.11.jar"@),
        ("ImmediatelyFast-Fabric-1.14.3+1.21.11.jar"@, "https://cdn.modrinth.com/data/5ZwdcRci/versions/4EwhsTu7/ImmediatelyFast-Fabric-1.14.3%2B1.21.11.jar"@),
        ("ferritecore-8.2.0-fabric.jar"@, "https://cdn.modrinth.com/data/uXXizFIs/versions/Ii0gP3D8/ferritecore-8.2.0-fabric.jar"@),
        ("entityculling-fabric-1.10.5-mc1.21.11.jar"@, "https://cdn.modrinth.com/data/NNAgCjsB/versions/sP0vNbeN/entityculling-fabric-1.10.5-mc1.21.11.jar"@),
        ("moreculling-fabric-1.21.11-1.6.2.jar"@, "https://cdn.modrinth.com/data/51shyZVL/versions/wOzykoLV/moreculling-fabric-1.21.11-1.6.2.jar"@),
        ("cloth-config-21.11.153-fabric.jar"@, "https://cdn.modrinth.com/data/9s6osm5g/versions/xuX40TN5/cloth-config-21.11.153-fabric.jar"@),
        ("krypton-0.2.10.jar"@, "https://cdn.modrinth.com/data/fQEb0iXm/versions/O9LmWYR7/krypton-0.2.10.jar"@),
        ("BadOptimizations-2.4.1-1.21.11.jar"@, "https://cdn.modrinth.com/data/g96Z4WVZ/versions/Q3Dusz2j/BadOptimizations-2.4.1-1.21.11.jar"@),
        ("dynamic-fps-3.11.6+minecraft-1.21.11-fabric.jar"@, "https://cdn.modrinth.com/data/LQ3K71Q1/versions/Fab7e5Th/dynamic-fps-3.11.6%2Bminecraft-1.21.11-fabric.jar"@),
        ("sodium-extra-fabric-0.9.3+mc1.21.11.jar"@, "https://cdn.modrinth.com/data/PtjYWJkn/versions/taHK5pw1/sodium-extra-fabric-0.9.3%2Bmc1.21.11.jar"@),
        ("reeses-sodium-options-fabric-2.2.3+mc1.21.11.jar"@, "https://cdn.modrinth.com/data/Bh37bMuy/versions/P0MH4cn0/reeses-sodium-options-fabric-2.2.3%2Bmc1.21.11.jar"@),
        ("fabric-language-kotlin-1.13.13+kotlin.2.4.10.jar"@, "https://cdn.modrinth.com/data/Ha28R6CL/versions/bdhiINYC/fabric-language-kotlin-1.13.13%2Bkotlin.2.4.10.jar"@),
        ("yet_another_config_lib_v3-3.8.2+1.21.11-fabric.jar"@, "https://cdn.modrinth.com/data/1eAoo2KR/versions/pHWDw3Vc/yet_another_config_lib_v3-3.8.2%2B1.21.11-fabric.jar"@),
        ("zoomify-2.15.2+1.21.11.jar"@, "https://cdn.modrinth.com/data/w7ThoJFB/versions/gI5KZI8V/zoomify-2.15.2%2B1.21.11.jar"@),
        ("placeholder-api-2.8.2+1.21.10.jar"@, "https://cdn.modrinth.com/data/eXts2L7r/versions/qxjzQ9xY/placeholder-api-2.8.2%2B1.21.10.jar"@),
        ("modmenu-17.0.1-beta.1.jar"@, "https://cdn.modrinth.com/data/mOgUt4GM/versions/j2vTurvl/modmenu-17.0.1-beta.1.jar"@),
        ("BetterF3-17.0.0-Fabric-1.21.11.jar"@, "https://cdn.modrinth.com/data/8shC1gFX/versions/Qw1nhj7u/BetterF3-17.0.0-Fabric-1.21.11.jar"@),
        ("appleskin-fabric-mc1.21.11-3.0.8.jar"@, "https://cdn.modrinth.com/data/EsAfCjCV/versions/59ti1rvg/appleskin-fabric-mc1.21.11-3.0.8.jar"@),
        ("lambdynamiclights-4.9.1+1.21.11.jar"@, "https://cdn.modrinth.com/data/yBW8D80W/versions/5Tp7kdU0/lambdynamiclights-4.9.1%2B1.21.11.jar"@),
        ("capes-1.5.10+1.21.11-fabric.jar"@, "https://cdn.modrinth.com/data/89Wsn8GD/versions/GAQAG80Q/capes-1.5.10%2B1.21.11-fabric.jar"@),
        ("fast-ip-ping-v1.0.11-mc1.21.11-fabric.jar"@, "https://cdn.modrinth.com/data/9mtu0sUO/versions/E3Ei5xUe/fast-ip-ping-v1.0.11-mc1.21.11-fabric.jar"@),
        ("HudFabric-1.0.3-1.21.11.jar"@, "https://cdn.modrinth.com/data/jNODUcnv/versions/5G3wTf4Q/HudFabric-1.0.3-1.21.11.jar"@),
        ("shulkerboxtooltip-fabric-5.2.16+1.21.11.jar"@, "https://cdn.modrinth.com/data/2M01OLQq/versions/rZovgkWT/shulkerboxtooltip-fabric-5.2.16%2B1.21.11.jar"@),
        ("status-effect-bars-1.0.10.jar"@, "https://cdn.modrinth.com/data/x02cBj9Y/versions/iY0FQLmu/status-effect-bars-1.0.10.jar"@),
        ("InventoryProfilesNext-fabric-1.21.11-2.2.6.jar"@, "https://cdn.modrinth.com/data/O7RBXm3n/versions/YKjWPbto/InventoryProfilesNext-fabric-1.21.11-2.2.6.jar"@),
        ("libIPN-fabric-1.21.11-6.6.3.jar"@, "https://cdn.modrinth.com/data/onSQdWhM/versions/ByG214OZ/libIPN-fabric-1.21.11-6.6.3.jar"@),
        ("MouseTweaks-fabric-mc1.21.11-2.30.jar"@, "https://cdn.modrinth.com/data/aC3cM3Vq/versions/i1duwnJl/MouseTweaks-fabric-mc1.21.11-2.30.jar"@),
        ("xaerominimap-fabric-1.21.11-26.4.2.jar"@, "https://cdn.modrinth.com/data/1bokaNcj/versions/8MdqDp18/xaerominimap-fabric-1.21.11-26.4.2.jar"@),
        ("bettermounthud-1.2.6.jar"@, "https://cdn.modrinth.com/data/kqJFAPU9/versions/rXZxHSEZ/bettermounthud-1.2.6.jar"@),
    ]
}

/// The performance mods installed with the bundled client.
pub fn performance_mods() -> (r: Vec<(String, String)>)
    ensures
        crate::auth::pair_views(r@) == performance_mod_list(),
{
    let mut r: Vec<(String, String)> = Vec::new();
    r.push((to_string("sodium-fabric-0.8.14-beta.2+mc1.21.11.jar"), to_string("https://cdn.modrinth.com/data/AANobbMI/versions/vqUoGREs/sodium-fabric-0.8.14-beta.2%2Bmc1.21.11.jar")));
    r.push((to_string("lithium-fabric-0.21.4+mc1.21.11.jar"), to_string("https://cdn.modrinth.com/data/gvQqBUqZ/versions/Ow7wA0kG/lithium-fabric-0.21.4%2Bmc1.21.11.jar")));
    r.push((to_string("ImmediatelyFast-Fabric-1.14.3+1.21.11.jar"), to_string("https://cdn.modrinth.com/data/5ZwdcRci/versions/4EwhsTu7/ImmediatelyFast-Fabric-1.14.3%2B1.21.11.jar")));
    r.push((to_string("ferritecore-8.2.0-fabric.jar"), to_string("https://cdn.modrinth.com/data/uXXizFIs/versions/Ii0gP3D8/ferritecore-8.2.0-fabric.jar")));
    r.push((to_string("entityculling-fabric-1.10.5-mc1.21.11.jar"), to_string("https://cdn.modrinth.com/data/NNAgCjsB/versions/sP0vNbeN/entityculling-fabric-1.10.5-mc1.21.11.jar")));
    r.push((to_string("moreculling-fabric-1.21.11-1.6.2.jar"), to_string("https://cdn.modrinth.com/data/51shyZVL/versions/wOzykoLV/moreculling-fabric-1.21.11-1.6.2.jar")));
    r.push((to_string("cloth-config-21.11.153-fabric.jar"), to_string("https://cdn.modrinth.com/data/9s6osm5g/versions/xuX40TN5/cloth-config-21.11.153-fabric.jar")));
    r.push((to_string("krypton-0.2.10.jar"), to_string("https://cdn.modrinth.com/data/fQEb0iXm/versions/O9LmWYR7/krypton-0.2.10.jar")));
    r.push((to_string("BadOptimizations-2.4.1-1.21.11.jar"), to_string("https://cdn.modrinth.com/data/g96Z4WVZ/versions/Q3Dusz2j/BadOptimizations-2.4.1-1.21.11.jar")));
    r.push((to_string("dynamic-fps-3.11.6+minecraft-1.21.11-fabric.jar"), to_string("https://cdn.modrinth.com/data/LQ3K71Q1/versions/Fab7e5Th/dynamic-fps-3.11.6%2Bminecraft-1.21.11-fabric.jar")));
    r.push((to_string("sodium-extra-fabric-0.9.3+mc1.21.11.jar"), to_string("https://cdn.modrinth.com/data/PtjYWJkn/versions/taHK5pw1/sodium-extra-fabric-0.9.3%2Bmc1.21.11.jar")));
    r.push((to_string("reeses-sodium-options-fabric-2.2.3+mc1.21.11.jar"), to_string("https://cdn.modrinth.com/data/Bh37bMuy/versions/P0MH4cn0/reeses-sodium-options-fabric-2.2.3%2Bmc1.21.11.jar")));
    r.push((to_string("fabric-language-kotlin-1.13.13+kotlin.2.4.10.jar"), to_string("https://cdn.modrinth.com/data/Ha28R6CL/versions/bdhiINYC/fabric-language-kotlin-1.13.13%2Bkotlin.2.4.10.jar")));
    r.push((to_string("yet_another_config_lib_v3-3.8.2+1.21.11-fabric.jar"), to_string("https://cdn.modrinth.com/data/1eAoo2KR/versions/pHWDw3Vc/yet_another_config_lib_v3-3.8.2%2B1.21.11-fabric.jar")));
    r.push((to_string("zoomify-2.15.2+1.21.11.jar"), to_string("https://cdn.modrinth.com/data/w7ThoJFB/versions/gI5KZI8V/zoomify-2.15.2%2B1.21.11.jar")));
    r.push((to_string("placeholder-api-2.8.2+1.21.10.jar"), to_string("https://cdn.modrinth.com/data/eXts2L7r/versions/qxjzQ9xY/placeholder-api-2.8.2%2B1.21.10.jar")));
    r.push((to_string("modmenu-17.0.1-beta.1.jar"), to_string("https://cdn.modrinth.com/data/mOgUt4GM/versions/j2vTurvl/modmenu-17.0.1-beta.1.jar")));
    r.push((to_string("BetterF3-17.0.0-Fabric-1.21.11.jar"), to_string("https://cdn.modrinth.com/data/8shC1gFX/versions/Qw1nhj7u/BetterF3-17.0.0-Fabric-1.21.11.jar")));
    r.push((to_string("appleskin-fabric-mc1.21.11-3.0.8.jar"), to_string("https://cdn.modrinth.com/data/EsAfCjCV/versions/59ti1rvg/appleskin-fabric-mc1.21.11-3.0.8.jar")));
    r.push((to_string("lambdynamiclights-4.9.1+1.21.11.jar"), to_string("https://cdn.modrinth.com/data/yBW8D80W/versions/5Tp7kdU0/lambdynamiclights-4.9.1%2B1.21.11.jar")));
    r.push((to_string("capes-1.5.10+1.21.11-fabric.jar"), to_string("https://cdn.modrinth.com/data/89Wsn8GD/versions/GAQAG80Q/capes-1.5.10%2B1.21.11-fabric.jar")));
    r.push((to_string("fast-ip-ping-v1.0.11-mc1.21.11-fabric.jar"), to_string("https://cdn.modrinth.com/data/9mtu0sUO/versions/E3Ei5xUe/fast-ip-ping-v1.0.11-mc1.21.11-fabric.jar")));
    r.push((to_string("HudFabric-1.0.3-1.21.11.jar"), to_string("https://cdn.modrinth.com/data/jNODUcnv/versions/5G3wTf4Q/HudFabric-1.0.3-1.21.11.jar")));
    r.push((to_string("shulkerboxtooltip-fabric-5.2.16+1.21.11.jar"), to_string("https://cdn.modrinth.com/data/2M01OLQq/versions/rZovgkWT/shulkerboxtooltip-fabric-5.2.16%2B1.21.11.jar")));
    r.push((to_string("status-effect-bars-1.0.10.jar"), to_string("https://cdn.modrinth.com/data/x02cBj9Y/versions/iY0FQLmu/status-effect-bars-1.0.10.jar")));
    r.push((to_string("InventoryProfilesNext-fabric-1.21.11-2.2.6.jar"), to_string("https://cdn.modrinth.com/data/O7RBXm3n/versions/YKjWPbto/InventoryProfilesNext-fabric-1.21.11-2.2.6.jar")));
    r.push((to_string("libIPN-fabric-1.21.11-6.6.3.jar"), to_string("https://cdn.modrinth.com/data/onSQdWhM/versions/ByG214OZ/libIPN-fabric-1.21.11-6.6.3.jar")));
    r.push((to_string("MouseTweaks-fabric-mc1.21.11-2.30.jar"), to_string("https://cdn.modrinth.com/data/aC3cM3Vq/versions/i1duwnJl/MouseTweaks-fabric-mc1.21.11-2.30.jar")));
    r.push((to_string("xaerominimap-fabric-1.21.11-26.4.2.jar"), to_string("https://cdn.modrinth.com/data/1bokaNcj/versions/8MdqDp18/xaerominimap-fabric-1.21.11-26.4.2.jar")));
    r.push((to_string("bettermounthud-1.2.6.jar"), to_string("https://cdn.modrinth.com/data/kqJFAPU9/versions/rXZxHSEZ/bettermounthud-1.2.6.jar")));
    assert(crate::auth::pair_views(r@) =~= performance_mod_list());
    r
}

/// The answer once the bundled client, its profile and the optimizers are
/// in place.
pub fn prepare_message(optimizers: u64) -> (r: String)
    ensures
        r@ == "Minecraft 1.21.11, Aureus y "@ + decimal(optimizers as nat)
            + " optimizadores están listos"@,
{
    let mut r = to_string("Minecraft 1.21.11, Aureus y ");
    push_decimal(&mut r, optimizers);
    push_str(&mut r, " optimizadores están listos");
    r
}

/// The message for an optimizer that could not be downloaded, with the
/// HTTP status the server answered.
pub fn download_failure_message(file_name: &str, status: &str) -> (r: String)
    ensures
        r@ == "No se pudo descargar "@ + file_name@ + ": HTTP "@ + status@,
{
    let mut r = concat2("No se pudo descargar ", file_name);
    push_str(&mut r, ": HTTP ");
    push_str(&mut r, status);
    r
}

} // verus!
