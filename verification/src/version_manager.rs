//! Reading Minecraft version documents: platform rules, launch arguments,
//! class path and native libraries, and the choices made while installing
//! versions, Java runtimes and Modrinth projects.
use vstd::prelude::*;
use std::collections::VecDeque;
use crate::paths::{extension, extension_of, join_path, join_path_str};
use crate::digests::{lower_hex, sha1_digest, sha1_matches, sha256_digest, sha256_matches};
use crate::text::{
    chars_of, concat2, contains, contains_chars, decimal, ends_with, ends_with_chars, push_decimal,
    starts_with, starts_with_chars, str_equal, to_string, views,
};

verus! {

// ---------------------------------------------------------------------------
// Platform
// ---------------------------------------------------------------------------

/// The operating system the launcher runs on.
#[derive(Clone, Copy, Debug, PartialEq, Eq)]
pub enum TargetOs {
    Windows,
    MacOs,
    Linux,
}

/// The processor architecture the launcher runs on.
#[derive(Clone, Copy, Debug, PartialEq, Eq)]
pub enum TargetArch {
    X64,
    Aarch64,
}

#[derive(Clone, Copy, Debug)]
pub struct Platform {
    pub os: TargetOs,
    pub arch: TargetArch,
}

/// The name that version rules give an operating system.
pub open spec fn os_rule_name(os: TargetOs) -> Seq<char> {
    match os {
        TargetOs::Windows => "windows"@,
        TargetOs::MacOs => "osx"@,
        TargetOs::Linux => "linux"@,
    }
}

pub fn os_rule_name_of(os: TargetOs) -> (r: &'static str)
    ensures
        r@ == os_rule_name(os),
{
    match os {
        TargetOs::Windows => "windows",
        TargetOs::MacOs => "osx",
        TargetOs::Linux => "linux",
    }
}

// ---------------------------------------------------------------------------
// Rules
// ---------------------------------------------------------------------------

/// The `features` member of a rule.
#[derive(Clone, Debug)]
pub enum FeatureCondition {
    /// The rule has no `features` member.
    Absent,
    /// `features` is present but is not an object.
    NotObject,
    /// The values of the `features` object: `Some(b)` for a boolean value,
    /// `None` for any other value.
    Values(Vec<Option<bool>>),
}

/// One entry of a `rules` array.
#[derive(Clone, Debug)]
pub struct Rule {
    /// `action`, when it is a string.
    pub action: Option<String>,
    /// `os.name`, when it is a string.
    pub os_name: Option<String>,
    pub features: FeatureCondition,
}

pub open spec fn features_match(f: FeatureCondition) -> bool {
    match f {
        FeatureCondition::Absent => true,
        FeatureCondition::NotObject => false,
        FeatureCondition::Values(v) => forall|i: int|
            0 <= i < v@.len() ==> #[trigger] v@[i] == Some(false),
    }
}

/// A rule applies when its operating system (if it names one) is the
/// current one and every feature it lists is `false`.
pub open spec fn rule_applies(r: Rule, os: TargetOs) -> bool {
    (r.os_name is None || r.os_name->0@ == os_rule_name(os)) && features_match(r.features)
}

pub open spec fn rule_action_allows(r: Rule) -> bool {
    r.action is Some && r.action->0@ == "allow"@
}

/// The last applicable rule decides; with no applicable rule the answer is
/// no.
pub open spec fn rules_verdict(rules: Seq<Rule>, os: TargetOs) -> bool
    decreases rules.len(),
{
    if rules.len() == 0 {
        false
    } else if rule_applies(rules.last(), os) {
        rule_action_allows(rules.last())
    } else {
        rules_verdict(rules.drop_last(), os)
    }
}

/// Without a `rules` array everything is allowed.
pub open spec fn rules_allow(rules: Option<Vec<Rule>>, os: TargetOs) -> bool {
    match rules {
        None => true,
        Some(v) => rules_verdict(v@, os),
    }
}

fn all_false(v: &Vec<Option<bool>>) -> (r: bool)
    ensures
        r == forall|i: int| 0 <= i < v@.len() ==> #[trigger] v@[i] == Some(false),
{
    let mut i: usize = 0;
    while i < v.len()
        invariant
            0 <= i <= v.len(),
            forall|j: int| 0 <= j < i ==> #[trigger] v@[j] == Some(false),
        decreases v.len() - i,
    {
        let item = v[i];
        match item {
            Some(b) => {
                if b {
                    assert(v@[i as int] != Some(false));
                    return false;
                }
            },
            None => {
                assert(v@[i as int] != Some(false));
                return false;
            },
        }
        i += 1;
    }
    true
}

fn features_match_exec(f: &FeatureCondition) -> (r: bool)
    ensures
        r == features_match(*f),
{
    match f {
        FeatureCondition::Absent => true,
        FeatureCondition::NotObject => false,
        FeatureCondition::Values(v) => all_false(v),
    }
}

pub fn rule_applies_exec(r: &Rule, os: TargetOs) -> (b: bool)
    ensures
        b == rule_applies(*r, os),
{
    let os_ok = match &r.os_name {
        None => true,
        Some(name) => str_equal(name.as_str(), os_rule_name_of(os)),
    };
    os_ok && features_match_exec(&r.features)
}

fn action_allows(r: &Rule) -> (b: bool)
    ensures
        b == rule_action_allows(*r),
{
    match &r.action {
        None => false,
        Some(a) => str_equal(a.as_str(), "allow"),
    }
}

/// Whether a library or argument is used on `os`.
pub fn rule_allows(rules: &Option<Vec<Rule>>, os: TargetOs) -> (b: bool)
    ensures
        b == rules_allow(*rules, os),
{
    match rules {
        None => true,
        Some(v) => {
            let mut allowed = false;
            let mut i: usize = 0;
            while i < v.len()
                invariant
                    0 <= i <= v.len(),
                    allowed == rules_verdict(v@.take(i as int), os),
                decreases v.len() - i,
            {
                proof {
                    assert(v@.take(i + 1).drop_last() =~= v@.take(i as int));
                    assert(v@.take(i + 1).last() == v@[i as int]);
                }
                if rule_applies_exec(&v[i], os) {
                    allowed = action_allows(&v[i]);
                }
                i += 1;
            }
            assert(v@.take(v.len() as int) =~= v@);
            allowed
        },
    }
}

/// A rule that applies, placed after the others, decides alone; one that
/// does not apply changes nothing.
pub proof fn last_applicable_rule_decides(rules: Seq<Rule>, extra: Rule, os: TargetOs)
    ensures
        rule_applies(extra, os) ==> rules_verdict(rules.push(extra), os) == rule_action_allows(
            extra,
        ),
        !rule_applies(extra, os) ==> rules_verdict(rules.push(extra), os) == rules_verdict(
            rules,
            os,
        ),
{
    assert(rules.push(extra).drop_last() =~= rules);
}

/// A list in which no rule applies forbids.
pub proof fn no_applicable_rule_forbids(rules: Seq<Rule>, os: TargetOs)
    requires
        forall|i: int| 0 <= i < rules.len() ==> !rule_applies(#[trigger] rules[i], os),
    ensures
        !rules_verdict(rules, os),
    decreases rules.len(),
{
    if rules.len() > 0 {
        assert forall|i: int| 0 <= i < rules.drop_last().len() implies !rule_applies(
            #[trigger] rules.drop_last()[i],
            os,
        ) by {
            assert(rules.drop_last()[i] == rules[i]);
        }
        no_applicable_rule_forbids(rules.drop_last(), os);
    }
}

// ---------------------------------------------------------------------------
// Arguments
// ---------------------------------------------------------------------------

/// The `value` member of a conditional argument.
#[derive(Clone, Debug)]
pub enum ArgumentValue {
    Absent,
    Text(String),
    /// An array: `Some` for its string elements, `None` for the others.
    Items(Vec<Option<String>>),
    /// Present, but neither a string nor an array.
    Other,
}

/// One element of `arguments.game` or `arguments.jvm`.
#[derive(Clone, Debug)]
pub enum ArgumentEntry {
    /// A plain string argument.
    Plain(String),
    /// Any other element: its `rules` (when an array) and its `value`.
    Conditional(Option<Vec<Rule>>, ArgumentValue),
}

/// The strings among optional strings, in order.
pub open spec fn present_strings(items: Seq<Option<String>>) -> Seq<Seq<char>>
    decreases items.len(),
{
    if items.len() == 0 {
        seq![]
    } else {
        present_strings(items.drop_last()) + match items.last() {
            Some(s) => seq![s@],
            None => seq![],
        }
    }
}

/// The arguments that one entry contributes on `os`.
pub open spec fn argument_values_of(e: ArgumentEntry, os: TargetOs) -> Seq<Seq<char>> {
    match e {
        ArgumentEntry::Plain(t) => seq![t@],
        ArgumentEntry::Conditional(rules, value) => if !rules_allow(rules, os) {
            seq![]
        } else {
            match value {
                ArgumentValue::Text(t) => seq![t@],
                ArgumentValue::Items(items) => present_strings(items@),
                _ => seq![],
            }
        },
    }
}

/// The arguments of a list of entries, in order.
pub open spec fn flat_arguments(entries: Seq<ArgumentEntry>, os: TargetOs) -> Seq<Seq<char>>
    decreases entries.len(),
{
    if entries.len() == 0 {
        seq![]
    } else {
        flat_arguments(entries.drop_last(), os) + argument_values_of(entries.last(), os)
    }
}

/// Appends clones of `items` to `out`.
fn extend_strings(out: &mut Vec<String>, items: &Vec<Option<String>>)
    ensures
        views(final(out)@) == views(old(out)@) + present_strings(items@),
{
    let mut i: usize = 0;
    while i < items.len()
        invariant
            0 <= i <= items.len(),
            views(out@) == views(old(out)@) + present_strings(items@.take(i as int)),
        decreases items.len() - i,
    {
        proof {
            assert(items@.take(i + 1).drop_last() =~= items@.take(i as int));
        }
        let ghost before = out@;
        match &items[i] {
            Some(s) => {
                out.push(s.clone());
                assert(views(out@) =~= views(before).push(s@));
            },
            None => {
                assert(out@ == before);
            },
        }
        proof {
            assert(views(out@) =~= views(old(out)@) + present_strings(items@.take(i + 1)));
        }
        i += 1;
    }
    assert(items@.take(items.len() as int) =~= items@);
}

/// Appends the arguments of one entry to `out`.
fn push_argument_values(out: &mut Vec<String>, e: &ArgumentEntry, os: TargetOs)
    ensures
        views(final(out)@) == views(old(out)@) + argument_values_of(*e, os),
{
    match e {
        ArgumentEntry::Plain(t) => {
            out.push(t.clone());
            assert(views(out@) =~= views(old(out)@) + seq![t@]);
        },
        ArgumentEntry::Conditional(rules, value) => {
            if !rule_allows(rules, os) {
                assert(views(out@) =~= views(old(out)@) + seq![]);
                return ;
            }
            match value {
                ArgumentValue::Text(t) => {
                    out.push(t.clone());
                    assert(views(out@) =~= views(old(out)@) + seq![t@]);
                },
                ArgumentValue::Items(items) => {
                    extend_strings(out, items);
                },
                _ => {
                    assert(views(out@) =~= views(old(out)@) + seq![]);
                },
            }
        },
    }
}

/// The arguments that one entry contributes on `os`.
pub fn argument_values(e: &ArgumentEntry, os: TargetOs) -> (r: Vec<String>)
    ensures
        views(r@) == argument_values_of(*e, os),
{
    let mut r: Vec<String> = Vec::new();
    push_argument_values(&mut r, e, os);
    assert(views(r@) =~= argument_values_of(*e, os));
    r
}

/// The arguments of a list of entries on `os`, in order.
pub fn collect_arguments(entries: &Vec<ArgumentEntry>, os: TargetOs) -> (r: Vec<String>)
    ensures
        views(r@) == flat_arguments(entries@, os),
{
    let mut r: Vec<String> = Vec::new();
    let mut i: usize = 0;
    while i < entries.len()
        invariant
            0 <= i <= entries.len(),
            views(r@) == flat_arguments(entries@.take(i as int), os),
        decreases entries.len() - i,
    {
        proof {
            assert(entries@.take(i + 1).drop_last() =~= entries@.take(i as int));
            assert(entries@.take(i + 1).last() == entries@[i as int]);
        }
        push_argument_values(&mut r, &entries[i], os);
        i += 1;
    }
    assert(entries@.take(entries.len() as int) =~= entries@);
    r
}

// ---------------------------------------------------------------------------
// Version documents
// ---------------------------------------------------------------------------

/// `downloads.artifact` of a library (or one of its classifiers).
#[derive(Clone, Debug)]
pub struct ArtifactRef {
    /// `path`, when it is a string.
    pub path: Option<String>,
}

impl ArtifactRef {
    /// An equal copy.
    pub fn duplicate(&self) -> (r: ArtifactRef)
        ensures
            r == *self,
    {
        ArtifactRef {
            path: match &self.path {
                Some(p) => Some(p.clone()),
                None => None,
            },
        }
    }
}

/// One element of `libraries`.
#[derive(Clone, Debug)]
pub struct LibraryEntry {
    /// `name`, when it is a string.
    pub name: Option<String>,
    /// `rules`, when it is an array.
    pub rules: Option<Vec<Rule>>,
    /// `downloads.artifact`, when present.
    pub artifact: Option<ArtifactRef>,
    /// `downloads.classifiers`, when it is an object, in the order of its keys.
    pub classifiers: Option<Vec<(String, ArtifactRef)>>,
}

/// What the launcher reads from a version document.
#[derive(Clone, Debug)]
pub struct VersionDocument {
    /// `mainClass`, when it is a string.
    pub main_class: Option<String>,
    /// `arguments.game`, when it is an array.
    pub game_arguments: Option<Vec<ArgumentEntry>>,
    /// `minecraftArguments`, when it is a string.
    pub minecraft_arguments: Option<String>,
    /// `arguments.jvm`, when it is an array.
    pub jvm_arguments: Option<Vec<ArgumentEntry>>,
    /// `javaVersion.majorVersion`, when it is an unsigned integer.
    pub java_major: Option<u64>,
    /// `assetIndex.id`, when it is a string.
    pub asset_index_id: Option<String>,
    /// `libraries`, when it is an array (empty otherwise).
    pub libraries: Vec<LibraryEntry>,
}

/// How to start a version.
#[derive(Clone, Debug)]
pub struct LaunchMetadata {
    pub main_class: String,
    pub game_args: Vec<String>,
    pub jvm_args: Vec<String>,
    pub java_major: u32,
}

/// The words of a command line as the `shell-words` crate splits them, or
/// the text of its error.
pub uninterp spec fn shell_split(line: Seq<char>) -> Result<Seq<Seq<char>>, Seq<char>>;

/// Calls `shell_words::split`; the result is `shell_split` of the line (the
/// error as its `Display` text).
#[verifier::external_body]
fn split_shell_words(line: &str) -> (r: Result<Vec<String>, String>)
    ensures
        match r {
            Ok(words) => shell_split(line@) == Ok::<Seq<Seq<char>>, Seq<char>>(views(words@)),
            Err(e) => shell_split(line@) == Err::<Seq<Seq<char>>, Seq<char>>(e@),
        },
{
    shell_words::split(line).map_err(|e| e.to_string())
}

/// The game arguments: `arguments.game` when present, otherwise the
/// words of `minecraftArguments` (of the empty string when it is missing).
pub open spec fn game_arguments_of(doc: VersionDocument, os: TargetOs) -> Result<
    Seq<Seq<char>>,
    Seq<char>,
> {
    match doc.game_arguments {
        Some(list) => Ok(flat_arguments(list@, os)),
        None => shell_split(
            match doc.minecraft_arguments {
                Some(s) => s@,
                None => seq![],
            },
        ),
    }
}

pub open spec fn jvm_arguments_of(doc: VersionDocument, os: TargetOs) -> Seq<Seq<char>> {
    match doc.jvm_arguments {
        Some(list) => flat_arguments(list@, os),
        None => seq![],
    }
}

/// The Java major version: the document's value truncated to 32 bits, 8
/// when it has none.
pub open spec fn java_major_of(doc: VersionDocument) -> u32 {
    match doc.java_major {
        Some(v) => v as u32,
        None => 8,
    }
}

fn java_major_exec(doc: &VersionDocument) -> (r: u32)
    ensures
        r == java_major_of(*doc),
{
    match doc.java_major {
        Some(v) => v as u32,
        None => 8,
    }
}

/// The game arguments of a document on `os`.
pub fn game_arguments(doc: &VersionDocument, os: TargetOs) -> (r: Result<Vec<String>, String>)
    ensures
        match r {
            Ok(v) => game_arguments_of(*doc, os) == Ok::<Seq<Seq<char>>, Seq<char>>(views(v@)),
            Err(e) => game_arguments_of(*doc, os) == Err::<Seq<Seq<char>>, Seq<char>>(e@),
        },
{
    match &doc.game_arguments {
        Some(list) => Ok(collect_arguments(list, os)),
        None => match &doc.minecraft_arguments {
            Some(s) => split_shell_words(s.as_str()),
            None => {
                let empty = String::new();
                split_shell_words(empty.as_str())
            },
        },
    }
}

/// Launch metadata from a document, given its game arguments: an error from
/// the game arguments comes first, then a missing `mainClass`.
pub fn assemble_launch_metadata(
    doc: &VersionDocument,
    os: TargetOs,
    game_args: Result<Vec<String>, String>,
) -> (r: Result<LaunchMetadata, String>)
    ensures
        r is Ok <==> (game_args is Ok && doc.main_class is Some),
        game_args matches Err(e) ==> (r matches Err(f) && f@ == e@),
        game_args is Ok && doc.main_class is None ==> (r matches Err(f) && f@
            == "La versión no define mainClass"@),
        r matches Ok(m) ==> {
            &&& m.main_class@ == doc.main_class->0@
            &&& views(m.game_args@) == views(game_args->Ok_0@)
            &&& views(m.jvm_args@) == jvm_arguments_of(*doc, os)
            &&& m.java_major == java_major_of(*doc)
        },
{
    let game_args = game_args?;
    let jvm_args = match &doc.jvm_arguments {
        Some(list) => collect_arguments(list, os),
        None => {
            let v: Vec<String> = Vec::new();
            assert(views(v@) =~= seq![]);
            v
        },
    };
    let main_class = match &doc.main_class {
        Some(m) => m.clone(),
        None => return Err(to_string("La versión no define mainClass")),
    };
    Ok(LaunchMetadata { main_class, game_args, jvm_args, java_major: java_major_exec(doc) })
}

/// How to start the version that a document describes, on `os`.
pub fn read_launch_metadata(doc: &VersionDocument, os: TargetOs) -> (r: Result<
    LaunchMetadata,
    String,
>)
    ensures
        r is Ok <==> (game_arguments_of(*doc, os) is Ok && doc.main_class is Some),
        game_arguments_of(*doc, os) matches Err(e) ==> (r matches Err(f) && f@ == e),
        game_arguments_of(*doc, os) is Ok && doc.main_class is None ==> (r matches Err(f) && f@
            == "La versión no define mainClass"@),
        r matches Ok(m) ==> {
            &&& m.main_class@ == doc.main_class->0@
            &&& views(m.game_args@) == game_arguments_of(*doc, os)->Ok_0
            &&& views(m.jvm_args@) == jvm_arguments_of(*doc, os)
            &&& m.java_major == java_major_of(*doc)
        },
{
    let game_args = game_arguments(doc, os);
    assemble_launch_metadata(doc, os, game_args)
}

// ---------------------------------------------------------------------------
// Class path
// ---------------------------------------------------------------------------

pub open spec fn artifact_path_of(a: Option<ArtifactRef>) -> Option<Seq<char>> {
    match a {
        Some(r) => match r.path {
            Some(p) => Some(p@),
            None => None,
        },
        None => None,
    }
}

/// The library files that the class path may hold, in document order:
/// `<minecraft>/libraries/<path>` for each allowed library that names an
/// artifact path.
pub open spec fn classpath_candidates_of(
    libs: Seq<LibraryEntry>,
    minecraft: Seq<char>,
    os: TargetOs,
) -> Seq<Seq<char>>
    decreases libs.len(),
{
    if libs.len() == 0 {
        seq![]
    } else {
        let last = libs.last();
        classpath_candidates_of(libs.drop_last(), minecraft, os) + if rules_allow(last.rules, os)
            && artifact_path_of(last.artifact) is Some {
            seq![join_path(join_path(minecraft, "libraries"@), artifact_path_of(last.artifact)->0)]
        } else {
            seq![]
        }
    }
}

/// The candidate class path entries of a version document; the caller keeps
/// those that exist and appends the client jar.
pub fn classpath_candidates(doc: &VersionDocument, minecraft: &str, os: TargetOs) -> (r: Vec<
    String,
>)
    ensures
        views(r@) == classpath_candidates_of(doc.libraries@, minecraft@, os),
{
    let libs = &doc.libraries;
    let root = join_path_str(minecraft, "libraries");
    let mut r: Vec<String> = Vec::new();
    let mut i: usize = 0;
    while i < libs.len()
        invariant
            0 <= i <= libs.len(),
            root@ == join_path(minecraft@, "libraries"@),
            views(r@) == classpath_candidates_of(libs@.take(i as int), minecraft@, os),
        decreases libs.len() - i,
    {
        proof {
            assert(libs@.take(i + 1).drop_last() =~= libs@.take(i as int));
            assert(libs@.take(i + 1).last() == libs@[i as int]);
        }
        let ghost before = r@;
        if rule_allows(&libs[i].rules, os) {
            match &libs[i].artifact {
                Some(a) => match &a.path {
                    Some(p) => {
                        let full = join_path_str(root.as_str(), p.as_str());
                        r.push(full);
                        assert(views(r@) =~= views(before).push(full@));
                    },
                    None => {},
                },
                None => {},
            }
        }
        proof {
            assert(views(r@) =~= classpath_candidates_of(libs@.take(i + 1), minecraft@, os));
        }
        i += 1;
    }
    assert(libs@.take(libs.len() as int) =~= libs@);
    r
}

// ---------------------------------------------------------------------------
// Native libraries
// ---------------------------------------------------------------------------

/// The classpath entries that exist, in order, then the game jar.
pub open spec fn classpath_of(candidates: Seq<Seq<char>>, exists: Seq<bool>, client_jar: Seq<char>) -> Seq<
    Seq<char>,
>
    decreases candidates.len(),
{
    if candidates.len() == 0 {
        seq![client_jar]
    } else {
        let rest = classpath_of(candidates.drop_last(), exists.drop_last(), client_jar);
        if exists.last() {
            rest.drop_last() + seq![candidates.last(), client_jar]
        } else {
            rest
        }
    }
}

/// The classpath of a version: the candidate library files that exist on
/// disk, in order, and the game jar last.
pub fn classpath(candidates: &Vec<String>, exists: &Vec<bool>, client_jar: &str) -> (r: Vec<String>)
    requires
        candidates@.len() == exists@.len(),
    ensures
        views(r@) == classpath_of(views(candidates@), exists@, client_jar@),
{
    let ghost all = views(candidates@);
    let mut out: Vec<String> = Vec::new();
    let mut i: usize = 0;
    while i < candidates.len()
        invariant
            0 <= i <= candidates.len(),
            candidates@.len() == exists@.len(),
            all == views(candidates@),
            views(out@).push(client_jar@) == classpath_of(
                all.take(i as int),
                exists@.take(i as int),
                client_jar@,
            ),
        decreases candidates.len() - i,
    {
        proof {
            assert(all.take(i + 1).drop_last() =~= all.take(i as int));
            assert(exists@.take(i + 1).drop_last() =~= exists@.take(i as int));
        }
        let ghost before = views(out@);
        if exists[i] {
            out.push(candidates[i].clone());
            proof {
                assert(views(out@) =~= before.push(all[i as int]));
                assert(views(out@).push(client_jar@) =~= before.push(client_jar@).drop_last() + seq![
                    all[i as int],
                    client_jar@,
                ]);
            }
        }
        i += 1;
    }
    proof {
        assert(all.take(candidates.len() as int) =~= all);
        assert(exists@.take(candidates.len() as int) =~= exists@);
    }
    let ghost before = views(out@);
    out.push(to_string(client_jar));
    assert(views(out@) =~= before.push(client_jar@));
    out
}

/// The classifier of the native libraries for an operating system.
pub open spec fn native_classifier(os: TargetOs) -> Seq<char> {
    match os {
        TargetOs::Windows => "natives-windows"@,
        TargetOs::MacOs => "natives-macos"@,
        TargetOs::Linux => "natives-linux"@,
    }
}

/// The classifier that older version documents use.
pub open spec fn legacy_native_classifier(os: TargetOs) -> Seq<char> {
    match os {
        TargetOs::MacOs => "natives-osx"@,
        _ => native_classifier(os),
    }
}

fn native_classifier_of(os: TargetOs) -> (r: &'static str)
    ensures
        r@ == native_classifier(os),
{
    match os {
        TargetOs::Windows => "natives-windows",
        TargetOs::MacOs => "natives-macos",
        TargetOs::Linux => "natives-linux",
    }
}

fn legacy_native_classifier_of(os: TargetOs) -> (r: &'static str)
    ensures
        r@ == legacy_native_classifier(os),
{
    match os {
        TargetOs::MacOs => "natives-osx",
        _ => native_classifier_of(os),
    }
}

/// The artifact of the first classifier named exactly `key`.
pub open spec fn classifier_exact(c: Seq<(String, ArtifactRef)>, key: Seq<char>) -> Option<
    ArtifactRef,
>
    decreases c.len(),
{
    if c.len() == 0 {
        None
    } else if c[0].0@ == key {
        Some(c[0].1)
    } else {
        classifier_exact(c.drop_first(), key)
    }
}

/// The artifact of the first classifier that starts with `key` and is not
/// for arm64.
pub open spec fn classifier_prefixed(c: Seq<(String, ArtifactRef)>, key: Seq<char>) -> Option<
    ArtifactRef,
>
    decreases c.len(),
{
    if c.len() == 0 {
        None
    } else if starts_with(c[0].0@, key) && !contains(c[0].0@, "arm64"@) {
        Some(c[0].1)
    } else {
        classifier_prefixed(c.drop_first(), key)
    }
}

/// Whether a library name is a native library of the modern form for this
/// platform (`...:natives-<os>`; arm64 builds only on arm64, and no 32-bit
/// builds on x64).
pub open spec fn modern_native(name: Seq<char>, p: Platform) -> bool {
    contains(name, ":"@ + native_classifier(p.os)) && match p.arch {
        TargetArch::Aarch64 => contains(name, "arm64"@),
        TargetArch::X64 => !contains(name, "arm64"@) && !ends_with(name, "-x86"@),
    }
}

/// The archive of native libraries that a library provides on a platform.
pub open spec fn native_archive_of(lib: LibraryEntry, p: Platform) -> Option<Seq<char>> {
    if !rules_allow(lib.rules, p.os) {
        None
    } else {
        let legacy = legacy_native_classifier(p.os);
        let classified = match lib.classifiers {
            Some(c) => match classifier_exact(c@, legacy) {
                Some(a) => Some(a),
                None => classifier_prefixed(c@, legacy),
            },
            None => None,
        };
        let name = match lib.name {
            Some(n) => n@,
            None => seq![],
        };
        let artifact = match classified {
            Some(a) => Some(a),
            None => if modern_native(name, p) {
                lib.artifact
            } else {
                None
            },
        };
        artifact_path_of(artifact)
    }
}

fn find_classifier(c: &Vec<(String, ArtifactRef)>, key: &str) -> (r: Option<ArtifactRef>)
    ensures
        r == match classifier_exact(c@, key@) {
            Some(a) => Some(a),
            None => classifier_prefixed(c@, key@),
        },
{
    let k = chars_of(key);
    let arm = chars_of("arm64");
    let mut i: usize = 0;
    assert(c@.skip(0) =~= c@);
    while i < c.len()
        invariant
            0 <= i <= c.len(),
            k@ == key@,
            arm@ == "arm64"@,
            classifier_exact(c@, key@) == classifier_exact(c@.skip(i as int), key@),
        decreases c.len() - i,
    {
        proof {
            assert(c@.skip(i as int).drop_first() =~= c@.skip(i + 1));
        }
        if str_equal(c[i].0.as_str(), key) {
            return Some(c[i].1.duplicate());
        }
        i += 1;
    }
    let mut j: usize = 0;
    assert(c@.skip(0) =~= c@);
    while j < c.len()
        invariant
            0 <= j <= c.len(),
            k@ == key@,
            arm@ == "arm64"@,
            classifier_exact(c@, key@) is None,
            classifier_prefixed(c@, key@) == classifier_prefixed(c@.skip(j as int), key@),
        decreases c.len() - j,
    {
        proof {
            assert(c@.skip(j as int).drop_first() =~= c@.skip(j + 1));
        }
        let name = chars_of(c[j].0.as_str());
        if starts_with_chars(&name, &k) && !contains_chars(&name, &arm) {
            return Some(c[j].1.duplicate());
        }
        j += 1;
    }
    None
}

fn modern_native_exec(name: &str, p: Platform) -> (r: bool)
    ensures
        r == modern_native(name@, p),
{
    let n = chars_of(name);
    let marker = chars_of(concat2(":", native_classifier_of(p.os)).as_str());
    let arm = chars_of("arm64");
    if !contains_chars(&n, &marker) {
        return false;
    }
    match p.arch {
        TargetArch::Aarch64 => contains_chars(&n, &arm),
        TargetArch::X64 => !contains_chars(&n, &arm) && !ends_with_chars(&n, &chars_of("-x86")),
    }
}

/// Which builds of a modern native library are extracted, for a library
/// without a matching classifier: on x64, neither the 32-bit builds (names
/// ending in `-x86`) nor the arm64 builds; on arm64, only the arm64 builds.
pub proof fn natives_match_the_architecture(lib: LibraryEntry, p: Platform)
    ensures
        lib.classifiers is None && p.arch == TargetArch::X64 && (lib.name matches Some(n) && (
        ends_with(n@, "-x86"@) || contains(n@, "arm64"@))) ==> native_archive_of(lib, p) is None,
        lib.classifiers is None && p.arch == TargetArch::Aarch64 && (lib.name matches Some(n)
            && !contains(n@, "arm64"@)) ==> native_archive_of(lib, p) is None,
{
}

/// The archive of native libraries that a library provides on a platform,
/// relative to the libraries directory.
pub fn native_archive_path(lib: &LibraryEntry, p: Platform) -> (r: Option<String>)
    ensures
        r matches Some(s) ==> native_archive_of(*lib, p) == Some(s@),
        r is None ==> native_archive_of(*lib, p) is None,
{
    if !rule_allows(&lib.rules, p.os) {
        return None;
    }
    let legacy = legacy_native_classifier_of(p.os);
    let classified = match &lib.classifiers {
        Some(c) => find_classifier(c, legacy),
        None => None,
    };
    let artifact = match classified {
        Some(a) => Some(a),
        None => {
            let modern = match &lib.name {
                Some(n) => modern_native_exec(n.as_str(), p),
                None => {
                    let empty = String::new();
                    modern_native_exec(empty.as_str(), p)
                },
            };
            if modern {
                match &lib.artifact {
                    Some(a) => Some(a.duplicate()),
                    None => None,
                }
            } else {
                None
            }
        },
    };
    match artifact {
        Some(a) => a.path,
        None => None,
    }
}


/// The file an entry of a native archive is unpacked to, by name only:
/// directories and signature files under `META-INF/` are skipped.
pub open spec fn native_entry_target(name: Seq<char>, is_dir: bool) -> Option<Seq<char>> {
    if is_dir || starts_with(name, "META-INF/"@) {
        None
    } else {
        crate::paths::file_name(name)
    }
}

/// The name under which an entry of a native archive is unpacked, if it is.
pub fn native_entry_file(name: &str, is_dir: bool) -> (r: Option<String>)
    ensures
        crate::auth::opt_string_view(r) == native_entry_target(name@, is_dir),
{
    if is_dir || starts_with_chars(&chars_of(name), &chars_of("META-INF/")) {
        return None;
    }
    crate::paths::file_name_of(name)
}

// ---------------------------------------------------------------------------
// Official versions and downloads
// ---------------------------------------------------------------------------

/// A file named by a version document, with its SHA-1 digest.
#[derive(Clone, Debug)]
pub struct DownloadFile {
    pub sha1: String,
    pub url: String,
}

/// One version of the official catalog.
#[derive(Clone, Debug)]
pub struct ManifestVersion {
    pub id: String,
    pub url: String,
    pub sha1: String,
}

/// The result of installing an official version.
#[derive(Clone, Debug)]
pub struct InstalledVersion {
    pub version_json: String,
    pub client_jar: String,
    pub asset_index_id: String,
    pub downloaded_files: usize,
}

/// A library file of a version, with its download address and digest.
#[derive(Clone, Debug)]
pub struct LibraryFile {
    pub path: String,
    pub sha1: String,
    pub url: String,
}

/// The downloads of a library: its main artifact and its classified files
/// (in the order the version document's map gives them).
#[derive(Clone, Debug)]
pub struct LibraryDownloads {
    pub artifact: Option<LibraryFile>,
    pub classifiers: Option<Vec<LibraryFile>>,
}

/// The files to download for the libraries, library by library: the
/// artifact, then the classified files; libraries without downloads give
/// none.
pub open spec fn library_files_of(libs: Seq<Option<LibraryDownloads>>) -> Seq<LibraryFile>
    decreases libs.len(),
{
    if libs.len() == 0 {
        seq![]
    } else {
        library_files_of(libs.drop_last()) + match libs.last() {
            Some(d) => files_of_library(d),
            None => seq![],
        }
    }
}

/// The files of one library: its artifact, then its classified files.
pub open spec fn files_of_library(d: LibraryDownloads) -> Seq<LibraryFile> {
    (match d.artifact {
        Some(a) => seq![a],
        None => seq![],
    }) + (match d.classifiers {
        Some(c) => c@,
        None => seq![],
    })
}

fn push_library_file(out: &mut Vec<LibraryFile>, f: &LibraryFile)
    ensures
        final(out)@ == old(out)@.push(*f),
{
    let copy = LibraryFile { path: f.path.clone(), sha1: f.sha1.clone(), url: f.url.clone() };
    assert(copy == *f);
    out.push(copy);
}

/// The library files an installation downloads.
pub fn library_download_files(libs: &Vec<Option<LibraryDownloads>>) -> (r: Vec<LibraryFile>)
    ensures
        r@ == library_files_of(libs@),
{
    let mut out: Vec<LibraryFile> = Vec::new();
    let mut i: usize = 0;
    while i < libs.len()
        invariant
            0 <= i <= libs.len(),
            out@ == library_files_of(libs@.take(i as int)),
        decreases libs.len() - i,
    {
        assert(libs@.take(i + 1).drop_last() =~= libs@.take(i as int));
        let ghost before = out@;
        match &libs[i] {
            Some(d) => {
                match &d.artifact {
                    Some(a) => push_library_file(&mut out, a),
                    None => {},
                }
                let ghost mid = out@;
                match &d.classifiers {
                    Some(c) => {
                        let mut j: usize = 0;
                        while j < c.len()
                            invariant
                                0 <= j <= c.len(),
                                out@ == mid + c@.take(j as int),
                            decreases c.len() - j,
                        {
                            push_library_file(&mut out, &c[j]);
                            assert(c@.take(j + 1) =~= c@.take(j as int).push(c@[j as int]));
                            j += 1;
                        }
                        assert(c@.take(c.len() as int) =~= c@);
                    },
                    None => {},
                }
                assert(out@ =~= before + files_of_library(*d));
            },
            None => {
                assert(out@ =~= before + Seq::<LibraryFile>::empty());
            },
        }
        i += 1;
    }
    assert(libs@.take(libs.len() as int) =~= libs@);
    out
}

/// Index of the first catalog entry with the given id.
pub open spec fn first_version_with_id(v: Seq<ManifestVersion>, id: Seq<char>) -> Option<int>
    decreases v.len(),
{
    if v.len() == 0 {
        None
    } else if v[0].id@ == id {
        Some(0)
    } else {
        match first_version_with_id(v.drop_first(), id) {
            Some(i) => Some(i + 1),
            None => None,
        }
    }
}

/// The catalog entry of a version: the first with that id.
pub fn find_manifest_version(versions: &Vec<ManifestVersion>, version: &str) -> (r: Result<
    ManifestVersion,
    String,
>)
    ensures
        r is Ok <==> first_version_with_id(versions@, version@) is Some,
        r matches Ok(m) ==> m == versions@[first_version_with_id(versions@, version@)->0],
        r matches Err(e) ==> e@ == "Minecraft "@ + version@ + " no existe en el catálogo oficial"@,
{
    let mut i: usize = 0;
    assert(versions@.skip(0) =~= versions@);
    while i < versions.len()
        invariant
            0 <= i <= versions.len(),
            first_version_with_id(versions@, version@) == match first_version_with_id(
                versions@.skip(i as int),
                version@,
            ) {
                Some(k) => Some(k + i),
                None => None,
            },
        decreases versions.len() - i,
    {
        proof {
            assert(versions@.skip(i as int).drop_first() =~= versions@.skip(i + 1));
        }
        if str_equal(versions[i].id.as_str(), version) {
            let m = ManifestVersion {
                id: versions[i].id.clone(),
                url: versions[i].url.clone(),
                sha1: versions[i].sha1.clone(),
            };
            return Ok(m);
        }
        i += 1;
    }
    let mut e = to_string("Minecraft ");
    crate::text::push_str(&mut e, version);
    crate::text::push_str(&mut e, " no existe en el catálogo oficial");
    Err(e)
}

pub open spec fn version_directory_of(minecraft: Seq<char>, version: Seq<char>) -> Seq<char> {
    join_path(join_path(minecraft, "versions"@), version)
}

/// `<minecraft>/versions/<v>/<v>.json`.
pub fn version_json_path(minecraft: &str, version: &str) -> (r: String)
    ensures
        r@ == join_path(version_directory_of(minecraft@, version@), version@ + ".json"@),
{
    let dir = join_path_str(join_path_str(minecraft, "versions").as_str(), version);
    join_path_str(dir.as_str(), concat2(version, ".json").as_str())
}

/// `<minecraft>/versions/<v>/<v>.jar`.
pub fn client_jar_path(minecraft: &str, version: &str) -> (r: String)
    ensures
        r@ == join_path(version_directory_of(minecraft@, version@), version@ + ".jar"@),
{
    let dir = join_path_str(join_path_str(minecraft, "versions").as_str(), version);
    join_path_str(dir.as_str(), concat2(version, ".jar").as_str())
}

/// `<minecraft>/assets/indexes/<id>.json`.
pub fn asset_index_path(minecraft: &str, id: &str) -> (r: String)
    ensures
        r@ == join_path(join_path(minecraft@, "assets/indexes"@), id@ + ".json"@),
{
    join_path_str(join_path_str(minecraft, "assets/indexes").as_str(), concat2(id, ".json").as_str())
}

/// The folder prefix of an asset hash: its first two bytes. They are the
/// first two characters when both are ASCII, or the first character when
/// it takes two bytes; otherwise the two bytes do not end on a character
/// and there is no prefix.
pub open spec fn hash_prefix(hash: Seq<char>) -> Option<Seq<char>> {
    if hash.len() >= 2 && (hash[0] as u32) < 0x80 && (hash[1] as u32) < 0x80 {
        Some(hash.take(2))
    } else if hash.len() >= 1 && 0x80 <= (hash[0] as u32) && (hash[0] as u32) < 0x800 {
        Some(hash.take(1))
    } else {
        None
    }
}

/// The folder prefix of an asset hash, when its first two bytes end on a
/// character.
pub fn asset_hash_prefix(hash: &str) -> (r: Option<String>)
    ensures
        crate::auth::opt_string_view(r) == hash_prefix(hash@),
{
    let v = chars_of(hash);
    if v.len() >= 2 && (v[0] as u32) < 0x80 && (v[1] as u32) < 0x80 {
        assert(v@.subrange(0, 2) =~= hash@.take(2));
        Some(crate::text::string_of_range(&v, 0, 2))
    } else if v.len() >= 1 && 0x80 <= (v[0] as u32) && (v[0] as u32) < 0x800 {
        assert(v@.subrange(0, 1) =~= hash@.take(1));
        Some(crate::text::string_of_range(&v, 0, 1))
    } else {
        None
    }
}

/// The download address of an asset object.
pub fn asset_object_url(hash: &str) -> (r: Option<String>)
    ensures
        match hash_prefix(hash@) {
            Some(p) => r matches Some(u) && u@ == "https://resources.download.minecraft.net/"@ + p
                + "/"@ + hash@,
            None => r is None,
        },
{
    let prefix = asset_hash_prefix(hash)?;
    let mut r = to_string("https://resources.download.minecraft.net/");
    crate::text::push_str(&mut r, prefix.as_str());
    crate::text::push_str(&mut r, "/");
    crate::text::push_str(&mut r, hash);
    Some(r)
}

/// Where an asset object is stored: `<minecraft>/assets/objects/<prefix>/<hash>`.
pub fn asset_object_path(minecraft: &str, hash: &str) -> (r: Option<String>)
    ensures
        match hash_prefix(hash@) {
            Some(p) => r matches Some(q) && q@ == join_path(
                join_path(join_path(minecraft@, "assets/objects"@), p),
                hash@,
            ),
            None => r is None,
        },
{
    let prefix = asset_hash_prefix(hash)?;
    let root = join_path_str(minecraft, "assets/objects");
    Some(join_path_str(join_path_str(root.as_str(), prefix.as_str()).as_str(), hash))
}

/// Where a logical asset is copied for versions with virtual assets or
/// assets mapped to resources.
pub fn asset_copy_destination(
    minecraft: &str,
    virtual_assets: bool,
    index_id: &str,
    logical_name: &str,
) -> (r: String)
    ensures
        virtual_assets ==> r@ == join_path(
            join_path(join_path(minecraft@, "assets/virtual"@), index_id@),
            logical_name@,
        ),
        !virtual_assets ==> r@ == join_path(join_path(minecraft@, "resources"@), logical_name@),
{
    if virtual_assets {
        let base = join_path_str(join_path_str(minecraft, "assets/virtual").as_str(), index_id);
        join_path_str(base.as_str(), logical_name)
    } else {
        join_path_str(join_path_str(minecraft, "resources").as_str(), logical_name)
    }
}

/// Bytes have the expected digest, or no digest is expected.
pub open spec fn digest_matches(bytes: Seq<u8>, sha1: Seq<char>) -> bool {
    sha1.len() == 0 || lower_hex(sha1_digest(bytes)) == sha1
}

/// What is on disk at a destination is current: it exists and has the
/// expected digest (or none is expected).
pub open spec fn download_current(existing: Option<Seq<u8>>, sha1: Seq<char>) -> bool {
    existing matches Some(b) && digest_matches(b, sha1)
}

/// What a download leaves at its destination: the file that was there when
/// it was current, otherwise the bytes that were fetched.
pub open spec fn after_download(existing: Option<Seq<u8>>, fetched: Seq<u8>, sha1: Seq<char>) -> Option<
    Seq<u8>,
> {
    if download_current(existing, sha1) {
        existing
    } else {
        Some(fetched)
    }
}

/// A download succeeds when the file was current or the fetched bytes pass
/// `check_download`.
pub open spec fn download_succeeds(existing: Option<Seq<u8>>, fetched: Seq<u8>, sha1: Seq<char>) -> bool {
    download_current(existing, sha1) || digest_matches(fetched, sha1)
}

/// How many files a run fetches: those that are not current.
pub open spec fn fetch_count(existing: Seq<Option<Seq<u8>>>, sha1s: Seq<Seq<char>>) -> nat
    decreases existing.len(),
{
    if existing.len() == 0 || sha1s.len() == 0 {
        0
    } else {
        fetch_count(existing.drop_last(), sha1s.drop_last()) + if download_current(
            existing.last(),
            sha1s.last(),
        ) {
            0nat
        } else {
            1nat
        }
    }
}

/// A second installation downloads nothing: after a run in which every
/// download succeeded, each destination holds a current file, so a run over
/// the same files with the same digests fetches none of them.
pub proof fn second_install_downloads_nothing(
    existing: Seq<Option<Seq<u8>>>,
    fetched: Seq<Seq<u8>>,
    sha1s: Seq<Seq<char>>,
)
    requires
        existing.len() == fetched.len(),
        existing.len() == sha1s.len(),
        forall|i: int|
            0 <= i < existing.len() ==> download_succeeds(
                #[trigger] existing[i],
                fetched[i],
                sha1s[i],
            ),
    ensures
        forall|i: int|
            0 <= i < existing.len() ==> download_current(
                after_download(#[trigger] existing[i], fetched[i], sha1s[i]),
                sha1s[i],
            ),
        fetch_count(
            Seq::new(existing.len(), |i: int| after_download(existing[i], fetched[i], sha1s[i])),
            sha1s,
        ) == 0,
    decreases existing.len(),
{
    let after = Seq::new(existing.len(), |i: int| after_download(existing[i], fetched[i], sha1s[i]));
    if existing.len() > 0 {
        let n = existing.len() - 1;
        second_install_downloads_nothing(existing.drop_last(), fetched.drop_last(), sha1s.drop_last());
        let prev = Seq::new(
            existing.drop_last().len(),
            |i: int| after_download(existing.drop_last()[i], fetched.drop_last()[i], sha1s.drop_last()[i]),
        );
        assert(after.drop_last() =~= prev);
        assert(download_succeeds(existing[n], fetched[n], sha1s[n]));
    }
}

/// A file already on disk is kept when no digest is expected or its digest
/// is the expected one.
pub fn existing_download_current(existing: &Option<Vec<u8>>, sha1: &str) -> (r: bool)
    ensures
        r == (existing is Some && (sha1@.len() == 0 || lower_hex(sha1_digest(existing->0@))
            == sha1@)),
        r == download_current(
            match existing {
                Some(b) => Some(b@),
                None => None,
            },
            sha1@,
        ),
{
    match existing {
        None => false,
        Some(bytes) => sha1.is_empty() || sha1_matches(bytes.as_slice(), sha1),
    }
}

/// Downloaded bytes are accepted when no digest is expected or they have
/// the expected one; otherwise the error names the address.
pub fn check_download(bytes: &[u8], sha1: &str, url: &str) -> (r: Result<(), String>)
    ensures
        r is Ok <==> (sha1@.len() == 0 || lower_hex(sha1_digest(bytes@)) == sha1@),
        r is Ok <==> digest_matches(bytes@, sha1@),
        r matches Err(e) ==> e@ == "Hash inválido al descargar "@ + url@,
{
    if !sha1.is_empty() && !sha1_matches(bytes, sha1) {
        return Err(concat2("Hash inválido al descargar ", url));
    }
    Ok(())
}

// ---------------------------------------------------------------------------
// Fabric loader
// ---------------------------------------------------------------------------

/// A Fabric loader that the Fabric metadata service lists for a version.
#[derive(Clone, Debug)]
pub struct FabricLoader {
    pub version: String,
    pub stable: bool,
}

pub open spec fn first_stable_loader(ls: Seq<FabricLoader>) -> Option<FabricLoader>
    decreases ls.len(),
{
    if ls.len() == 0 {
        None
    } else if ls[0].stable {
        Some(ls[0])
    } else {
        first_stable_loader(ls.drop_first())
    }
}

/// The first stable loader, or else the first loader.
pub open spec fn chosen_loader(ls: Seq<FabricLoader>) -> Option<Seq<char>> {
    match first_stable_loader(ls) {
        Some(l) => Some(l.version@),
        None => if ls.len() > 0 {
            Some(ls[0].version@)
        } else {
            None
        },
    }
}

/// The Fabric loader to install from the list the service returned.
pub fn compatible_fabric_loader(loaders: &Vec<FabricLoader>) -> (r: Option<String>)
    ensures
        r matches Some(v) ==> chosen_loader(loaders@) == Some(v@),
        r is None ==> chosen_loader(loaders@) is None,
{
    let mut i: usize = 0;
    assert(loaders@.skip(0) =~= loaders@);
    while i < loaders.len()
        invariant
            0 <= i <= loaders.len(),
            first_stable_loader(loaders@) == first_stable_loader(loaders@.skip(i as int)),
        decreases loaders.len() - i,
    {
        proof {
            assert(loaders@.skip(i as int).drop_first() =~= loaders@.skip(i + 1));
        }
        if loaders[i].stable {
            return Some(loaders[i].version.clone());
        }
        i += 1;
    }
    if loaders.len() > 0 {
        Some(loaders[0].version.clone())
    } else {
        None
    }
}

/// The first stable loader is found at its position.
proof fn lemma_first_stable_loader(ls: Seq<FabricLoader>, i: int)
    requires
        0 <= i <= ls.len(),
        forall|j: int| 0 <= j < i ==> !(#[trigger] ls[j]).stable,
    ensures
        i < ls.len() && ls[i].stable ==> first_stable_loader(ls) == Some(ls[i]),
        i == ls.len() ==> first_stable_loader(ls) is None,
    decreases i,
{
    if i > 0 {
        assert forall|j: int| 0 <= j < i - 1 implies !(#[trigger] ls.drop_first()[j]).stable by {
            assert(ls.drop_first()[j] == ls[j + 1]);
        }
        lemma_first_stable_loader(ls.drop_first(), i - 1);
        assert(!ls[0].stable);
        if i < ls.len() {
            assert(ls.drop_first()[i - 1] == ls[i]);
        }
    }
}

/// The loader chosen is the newest stable one: the service lists loaders
/// newest first, and the first stable loader in the list is installed;
/// only when none is stable does the first (newest) loader stand in, and an
/// empty list gives none.
pub proof fn newest_stable_loader_is_chosen(ls: Seq<FabricLoader>)
    ensures
        forall|i: int|
            0 <= i < ls.len() && (#[trigger] ls[i]).stable && (forall|j: int|
                0 <= j < i ==> !ls[j].stable) ==> chosen_loader(ls) == Some(ls[i].version@),
        (forall|j: int| 0 <= j < ls.len() ==> !(#[trigger] ls[j]).stable) && ls.len() > 0
            ==> chosen_loader(ls) == Some(ls[0].version@),
        ls.len() == 0 ==> chosen_loader(ls) is None,
{
    assert forall|i: int|
        0 <= i < ls.len() && (#[trigger] ls[i]).stable && (forall|j: int|
            0 <= j < i ==> !ls[j].stable) implies chosen_loader(ls) == Some(ls[i].version@) by {
        lemma_first_stable_loader(ls, i);
    }
    if forall|j: int| 0 <= j < ls.len() ==> !(#[trigger] ls[j]).stable {
        lemma_first_stable_loader(ls, ls.len() as int);
    }
}

/// The address that lists the Fabric loaders of a version.
pub fn fabric_loader_url(version: &str) -> (r: String)
    ensures
        r@ == "https://meta.fabricmc.net/v2/versions/loader/"@ + version@,
{
    concat2("https://meta.fabricmc.net/v2/versions/loader/", version)
}

// ---------------------------------------------------------------------------
// Java runtimes
// ---------------------------------------------------------------------------

/// The directory that holds the Java runtime of a major version.
pub fn java_runtime_directory(runtime_root: &str, major: u32) -> (r: String)
    ensures
        r@ == join_path(runtime_root@, "java-"@ + decimal(major as nat)),
{
    let mut name = to_string("java-");
    push_decimal(&mut name, major as u64);
    join_path_str(runtime_root, name.as_str())
}

pub open spec fn adoptium_os(os: TargetOs) -> Seq<char> {
    match os {
        TargetOs::Windows => "windows"@,
        TargetOs::MacOs => "mac"@,
        TargetOs::Linux => "linux"@,
    }
}

pub open spec fn adoptium_arch(arch: TargetArch) -> Seq<char> {
    match arch {
        TargetArch::Aarch64 => "aarch64"@,
        TargetArch::X64 => "x64"@,
    }
}

/// The Adoptium query for the latest JRE of a major version.
pub fn adoptium_assets_url(major: u32, p: Platform) -> (r: String)
    ensures
        r@ == "https://api.adoptium.net/v3/assets/latest/"@ + decimal(major as nat)
            + "/hotspot?architecture="@ + adoptium_arch(p.arch) + "&image_type=jre&os="@
            + adoptium_os(p.os) + "&vendor=eclipse"@,
{
    let mut r = to_string("https://api.adoptium.net/v3/assets/latest/");
    push_decimal(&mut r, major as u64);
    crate::text::push_str(&mut r, "/hotspot?architecture=");
    crate::text::push_str(
        &mut r,
        match p.arch {
            TargetArch::Aarch64 => "aarch64",
            TargetArch::X64 => "x64",
        },
    );
    crate::text::push_str(&mut r, "&image_type=jre&os=");
    crate::text::push_str(
        &mut r,
        match p.os {
            TargetOs::Windows => "windows",
            TargetOs::MacOs => "mac",
            TargetOs::Linux => "linux",
        },
    );
    crate::text::push_str(&mut r, "&vendor=eclipse");
    r
}

/// A downloaded runtime archive is accepted only with the published
/// SHA-256 digest.
pub fn check_runtime_archive(bytes: &[u8], checksum: &str, major: u32) -> (r: Result<(), String>)
    ensures
        r is Ok <==> lower_hex(sha256_digest(bytes@)) == checksum@,
        r matches Err(e) ==> e@ == "Hash inválido para Java "@ + decimal(major as nat),
{
    if !sha256_matches(bytes, checksum) {
        let mut e = to_string("Hash inválido para Java ");
        push_decimal(&mut e, major as u64);
        return Err(e);
    }
    Ok(())
}

/// The message when Adoptium lists no runtime of a major version.
pub fn runtime_unavailable_message(major: u32) -> (r: String)
    ensures
        r@ == "No existe un runtime Java "@ + decimal(major as nat) + " para este sistema"@,
{
    let mut r = to_string("No existe un runtime Java ");
    push_decimal(&mut r, major as u64);
    crate::text::push_str(&mut r, " para este sistema");
    r
}

/// The message when an unpacked runtime holds no Java executable.
pub fn runtime_without_java_message(major: u32) -> (r: String)
    ensures
        r@ == "Java "@ + decimal(major as nat) + " se descargó pero no contiene un ejecutable"@,
{
    let mut r = to_string("Java ");
    push_decimal(&mut r, major as u64);
    crate::text::push_str(&mut r, " se descargó pero no contiene un ejecutable");
    r
}

/// How a downloaded runtime archive is unpacked.
#[derive(Clone, Copy, Debug, PartialEq, Eq)]
pub enum ArchiveKind {
    Zip,
    TarGz,
}

/// Runtimes come as zip archives on Windows and as gzipped tar archives
/// elsewhere.
pub fn runtime_archive_kind(os: TargetOs) -> (r: ArchiveKind)
    ensures
        r == (if os == TargetOs::Windows {
            ArchiveKind::Zip
        } else {
            ArchiveKind::TarGz
        }),
{
    match os {
        TargetOs::Windows => ArchiveKind::Zip,
        _ => ArchiveKind::TarGz,
    }
}

/// The Java executable's file name.
pub open spec fn java_executable(os: TargetOs) -> Seq<char> {
    match os {
        TargetOs::Windows => "javaw.exe"@,
        _ => "java"@,
    }
}

/// One entry of a directory being searched for a Java executable.
#[derive(Clone, Debug)]
pub struct SearchEntry {
    pub path: String,
    pub is_dir: bool,
    pub file_name: Option<String>,
    /// The name of the directory holding the entry; `None` when it has none.
    pub parent_name: Option<String>,
}

/// What one directory listing tells the search.
#[derive(Clone, Debug, PartialEq, Eq)]
pub enum SearchStep {
    /// The executable was found at this path.
    Found(String),
    /// A candidate without a parent name ends the search with nothing.
    Stopped,
    /// Keep going.
    Continue,
}

/// A breadth-first search for a Java executable inside `bin` directories:
/// directories are listed in the order in which they were discovered.
pub struct JavaSearch {
    pub os: TargetOs,
    /// Directories still to list, front first.
    pub queue: VecDeque<String>,
}

pub open spec fn is_java_candidate(e: SearchEntry, os: TargetOs) -> bool {
    !e.is_dir && e.file_name is Some && e.file_name->0@ == java_executable(os)
}

/// The outcome of listing one directory, and the directories it adds.
pub open spec fn search_listing(entries: Seq<SearchEntry>, os: TargetOs) -> (
    SearchOutcome,
    Seq<Seq<char>>,
)
    decreases entries.len(),
{
    if entries.len() == 0 {
        (SearchOutcome::Continue, seq![])
    } else {
        let e = entries[0];
        if e.is_dir {
            let rest = search_listing(entries.drop_first(), os);
            (rest.0, seq![e.path@] + rest.1)
        } else if is_java_candidate(e, os) {
            match e.parent_name {
                None => (SearchOutcome::Stopped, seq![]),
                Some(parent) => if parent@ == "bin"@ {
                    (SearchOutcome::Found(e.path@), seq![])
                } else {
                    search_listing(entries.drop_first(), os)
                },
            }
        } else {
            search_listing(entries.drop_first(), os)
        }
    }
}

/// A search step over views.
pub enum SearchOutcome {
    Found(Seq<char>),
    Stopped,
    Continue,
}

pub open spec fn step_view(s: SearchStep) -> SearchOutcome {
    match s {
        SearchStep::Found(p) => SearchOutcome::Found(p@),
        SearchStep::Stopped => SearchOutcome::Stopped,
        SearchStep::Continue => SearchOutcome::Continue,
    }
}

impl JavaSearch {
    /// A search that starts at `root`.
    pub fn new(root: String, os: TargetOs) -> (r: JavaSearch)
        ensures
            views(r.queue@) == seq![root@],
            r.os == os,
    {
        let mut queue: VecDeque<String> = VecDeque::new();
        queue.push_back(root);
        assert(views(queue@) =~= seq![root@]);
        JavaSearch { os, queue }
    }

    /// The next directory to list, taken from the front of the queue.
    pub fn next_directory(&mut self) -> (r: Option<String>)
        ensures
            final(self).os == old(self).os,
            old(self).queue@.len() == 0 ==> (r is None && final(self).queue@.len() == 0),
            old(self).queue@.len() > 0 ==> (r matches Some(d) && d@ == old(self).queue@[0]@
                && views(final(self).queue@) == views(old(self).queue@).drop_first()),
    {
        match self.queue.pop_front() {
            Some(d) => {
                assert(views(self.queue@) =~= views(old(self).queue@).drop_first());
                Some(d)
            },
            None => None,
        }
    }

    /// Takes in the listing of the directory last returned: directories are
    /// queued at the back; the first executable named for this system inside
    /// a `bin` directory is the answer.
    pub fn visit(&mut self, entries: Vec<SearchEntry>) -> (r: SearchStep)
        ensures
            final(self).os == old(self).os,
            step_view(r) == search_listing(entries@, old(self).os).0,
            views(final(self).queue@) == views(old(self).queue@) + search_listing(
                entries@,
                old(self).os,
            ).1,
    {
        let exe = match self.os {
            TargetOs::Windows => "javaw.exe",
            _ => "java",
        };
        let mut i: usize = 0;
        let ghost q0 = views(self.queue@);
        assert(entries@.skip(0) =~= entries@);
        while i < entries.len()
            invariant
                0 <= i <= entries.len(),
                self.os == old(self).os,
                exe@ == java_executable(self.os),
                q0 == views(old(self).queue@),
                ({
                    let whole = search_listing(entries@, self.os);
                    let rest = search_listing(entries@.skip(i as int), self.os);
                    &&& whole.0 == rest.0
                    &&& q0 + whole.1 == views(self.queue@) + rest.1
                }),
            decreases entries.len() - i,
        {
            let ghost rest = entries@.skip(i as int);
            proof {
                assert(rest.drop_first() =~= entries@.skip(i + 1));
                assert(rest[0] == entries@[i as int]);
            }
            let e = &entries[i];
            if e.is_dir {
                let ghost before = views(self.queue@);
                self.queue.push_back(e.path.clone());
                proof {
                    assert(views(self.queue@) =~= before.push(e.path@));
                    let tail = search_listing(entries@.skip(i + 1), self.os).1;
                    assert(before + (seq![e.path@] + tail) =~= views(self.queue@) + tail);
                }
            } else {
                let named = match &e.file_name {
                    Some(f) => str_equal(f.as_str(), exe),
                    None => false,
                };
                if named {
                    match &e.parent_name {
                        None => {
                            assert(views(self.queue@) + seq![] =~= views(self.queue@));
                            return SearchStep::Stopped;
                        },
                        Some(parent) => {
                            if str_equal(parent.as_str(), "bin") {
                                assert(views(self.queue@) + seq![] =~= views(self.queue@));
                                return SearchStep::Found(e.path.clone());
                            }
                        },
                    }
                }
            }
            i += 1;
        }
        assert(views(self.queue@) + seq![] =~= views(self.queue@));
        SearchStep::Continue
    }
}


// ---------------------------------------------------------------------------
// Modrinth projects
// ---------------------------------------------------------------------------

/// A file of a Modrinth version.
#[derive(Clone, Debug)]
pub struct ModrinthFile {
    pub filename: String,
    pub url: String,
    /// The `sha1` entry of its hashes.
    pub sha1: Option<String>,
    pub primary: bool,
}

impl ModrinthFile {
    pub fn duplicate(&self) -> (r: ModrinthFile)
        ensures
            r == *self,
    {
        ModrinthFile {
            filename: self.filename.clone(),
            url: self.url.clone(),
            sha1: match &self.sha1 {
                Some(h) => Some(h.clone()),
                None => None,
            },
            primary: self.primary,
        }
    }
}

/// A dependency of a Modrinth version.
#[derive(Clone, Debug)]
pub struct ModrinthDependency {
    pub project_id: Option<String>,
    pub dependency_type: String,
}

/// A version of a Modrinth project.
#[derive(Clone, Debug)]
pub struct ModrinthVersion {
    pub version_type: String,
    pub files: Vec<ModrinthFile>,
    pub dependencies: Vec<ModrinthDependency>,
}

/// What Modrinth answered for one project.
#[derive(Clone, Debug)]
pub enum ProjectResponse {
    /// The request did not succeed.
    Unavailable,
    /// The project's versions for the wanted game version and loader.
    Versions(Vec<ModrinthVersion>),
}

pub open spec fn first_of_type(vs: Seq<ModrinthVersion>, t: Seq<char>) -> Option<ModrinthVersion>
    decreases vs.len(),
{
    if vs.len() == 0 {
        None
    } else if vs[0].version_type@ == t {
        Some(vs[0])
    } else {
        first_of_type(vs.drop_first(), t)
    }
}

/// The first release, else the first beta, else the first version.
pub open spec fn chosen_version(vs: Seq<ModrinthVersion>) -> Option<ModrinthVersion> {
    match first_of_type(vs, "release"@) {
        Some(v) => Some(v),
        None => match first_of_type(vs, "beta"@) {
            Some(v) => Some(v),
            None => if vs.len() > 0 {
                Some(vs[0])
            } else {
                None
            },
        },
    }
}

pub open spec fn first_primary(fs: Seq<ModrinthFile>) -> Option<ModrinthFile>
    decreases fs.len(),
{
    if fs.len() == 0 {
        None
    } else if fs[0].primary {
        Some(fs[0])
    } else {
        first_primary(fs.drop_first())
    }
}

/// The primary file, else the first file.
pub open spec fn chosen_file(fs: Seq<ModrinthFile>) -> Option<ModrinthFile> {
    match first_primary(fs) {
        Some(f) => Some(f),
        None => if fs.len() > 0 {
            Some(fs[0])
        } else {
            None
        },
    }
}

/// The projects that a version requires, in order.
pub open spec fn required_projects(deps: Seq<ModrinthDependency>) -> Seq<Seq<char>>
    decreases deps.len(),
{
    if deps.len() == 0 {
        seq![]
    } else {
        let d = deps.last();
        required_projects(deps.drop_last()) + if d.dependency_type@ == "required"@
            && d.project_id is Some {
            seq![d.project_id->0@]
        } else {
            seq![]
        }
    }
}

fn find_version_of_type(vs: &Vec<ModrinthVersion>, t: &str) -> (r: Option<usize>)
    ensures
        r matches Some(i) ==> i < vs@.len() && first_of_type(vs@, t@) == Some(vs@[i as int]),
        r is None ==> first_of_type(vs@, t@) is None,
{
    let mut i: usize = 0;
    assert(vs@.skip(0) =~= vs@);
    while i < vs.len()
        invariant
            0 <= i <= vs.len(),
            first_of_type(vs@, t@) == first_of_type(vs@.skip(i as int), t@),
        decreases vs.len() - i,
    {
        proof {
            assert(vs@.skip(i as int).drop_first() =~= vs@.skip(i + 1));
        }
        if str_equal(vs[i].version_type.as_str(), t) {
            return Some(i);
        }
        i += 1;
    }
    None
}

/// The version to install: the first release, else the first beta, else
/// the first one.
pub fn choose_version(vs: &Vec<ModrinthVersion>) -> (r: Option<usize>)
    ensures
        r matches Some(i) ==> i < vs@.len() && chosen_version(vs@) == Some(vs@[i as int]),
        r is None ==> chosen_version(vs@) is None,
{
    match find_version_of_type(vs, "release") {
        Some(i) => Some(i),
        None => match find_version_of_type(vs, "beta") {
            Some(i) => Some(i),
            None => if vs.len() > 0 {
                Some(0)
            } else {
                None
            },
        },
    }
}

/// The first version of a type is found at its position.
proof fn lemma_first_of_type(vs: Seq<ModrinthVersion>, t: Seq<char>, i: int)
    requires
        0 <= i <= vs.len(),
        forall|j: int| 0 <= j < i ==> (#[trigger] vs[j]).version_type@ != t,
    ensures
        i < vs.len() && vs[i].version_type@ == t ==> first_of_type(vs, t) == Some(vs[i]),
        i == vs.len() ==> first_of_type(vs, t) is None,
    decreases i,
{
    if i > 0 {
        assert forall|j: int| 0 <= j < i - 1 implies (#[trigger] vs.drop_first()[j]).version_type@
            != t by {
            assert(vs.drop_first()[j] == vs[j + 1]);
        }
        lemma_first_of_type(vs.drop_first(), t, i - 1);
        assert(vs[0].version_type@ != t);
        if i < vs.len() {
            assert(vs.drop_first()[i - 1] == vs[i]);
        }
    }
}

/// Modrinth lists versions newest first. The version installed is the
/// newest release; with no release, the newest beta; with neither, the
/// newest version; a project without versions gets none.
pub proof fn release_then_beta_is_chosen(vs: Seq<ModrinthVersion>)
    ensures
        forall|i: int|
            0 <= i < vs.len() && (#[trigger] vs[i]).version_type@ == "release"@ && (forall|j: int|
                0 <= j < i ==> vs[j].version_type@ != "release"@) ==> chosen_version(vs) == Some(
                vs[i],
            ),
        forall|i: int|
            0 <= i < vs.len() && (#[trigger] vs[i]).version_type@ == "beta"@ && (forall|j: int|
                0 <= j < vs.len() ==> vs[j].version_type@ != "release"@) && (forall|j: int|
                0 <= j < i ==> vs[j].version_type@ != "beta"@) ==> chosen_version(vs) == Some(vs[i]),
        (forall|j: int|
            0 <= j < vs.len() ==> (#[trigger] vs[j]).version_type@ != "release"@
                && vs[j].version_type@ != "beta"@) && vs.len() > 0 ==> chosen_version(vs) == Some(
            vs[0],
        ),
        vs.len() == 0 ==> chosen_version(vs) is None,
{
    assert forall|i: int|
        0 <= i < vs.len() && (#[trigger] vs[i]).version_type@ == "release"@ && (forall|j: int|
            0 <= j < i ==> vs[j].version_type@ != "release"@) implies chosen_version(vs) == Some(
        vs[i],
    ) by {
        lemma_first_of_type(vs, "release"@, i);
    }
    if forall|j: int| 0 <= j < vs.len() ==> (#[trigger] vs[j]).version_type@ != "release"@ {
        lemma_first_of_type(vs, "release"@, vs.len() as int);
        assert forall|i: int|
            0 <= i < vs.len() && (#[trigger] vs[i]).version_type@ == "beta"@ && (forall|j: int|
                0 <= j < i ==> vs[j].version_type@ != "beta"@) implies chosen_version(vs) == Some(
            vs[i],
        ) by {
            lemma_first_of_type(vs, "beta"@, i);
        }
        if forall|j: int| 0 <= j < vs.len() ==> (#[trigger] vs[j]).version_type@ != "beta"@ {
            lemma_first_of_type(vs, "beta"@, vs.len() as int);
        }
    }
    if vs.len() == 0 {
        lemma_first_of_type(vs, "release"@, 0);
        lemma_first_of_type(vs, "beta"@, 0);
    }
}

/// The file to download from a version: the primary one, else the first.
pub fn choose_file(fs: &Vec<ModrinthFile>) -> (r: Option<ModrinthFile>)
    ensures
        r == chosen_file(fs@),
{
    let mut i: usize = 0;
    assert(fs@.skip(0) =~= fs@);
    while i < fs.len()
        invariant
            0 <= i <= fs.len(),
            first_primary(fs@) == first_primary(fs@.skip(i as int)),
        decreases fs.len() - i,
    {
        proof {
            assert(fs@.skip(i as int).drop_first() =~= fs@.skip(i + 1));
        }
        if fs[i].primary {
            return Some(fs[i].duplicate());
        }
        i += 1;
    }
    if fs.len() > 0 {
        Some(fs[0].duplicate())
    } else {
        None
    }
}

/// Appends the projects that `deps` requires to `queue`.
fn push_required(queue: &mut VecDeque<String>, deps: &Vec<ModrinthDependency>)
    ensures
        views(final(queue)@) == views(old(queue)@) + required_projects(deps@),
{
    let mut i: usize = 0;
    while i < deps.len()
        invariant
            0 <= i <= deps.len(),
            views(queue@) == views(old(queue)@) + required_projects(deps@.take(i as int)),
        decreases deps.len() - i,
    {
        proof {
            assert(deps@.take(i + 1).drop_last() =~= deps@.take(i as int));
            assert(deps@.take(i + 1).last() == deps@[i as int]);
        }
        let ghost before = views(queue@);
        if str_equal(deps[i].dependency_type.as_str(), "required") {
            match &deps[i].project_id {
                Some(id) => {
                    queue.push_back(id.clone());
                    assert(views(queue@) =~= before.push(id@));
                },
                None => {},
            }
        }
        proof {
            assert(views(queue@) =~= views(old(queue)@) + required_projects(deps@.take(i + 1)));
        }
        i += 1;
    }
    assert(deps@.take(deps.len() as int) =~= deps@);
}

/// Whether a sequence of strings holds `s`.
pub fn contains_string(v: &Vec<String>, s: &str) -> (r: bool)
    ensures
        r == views(v@).contains(s@),
{
    let mut i: usize = 0;
    while i < v.len()
        invariant
            0 <= i <= v.len(),
            forall|j: int| 0 <= j < i ==> v@[j]@ != s@,
        decreases v.len() - i,
    {
        if str_equal(v[i].as_str(), s) {
            assert(views(v@)[i as int] == s@);
            return true;
        }
        i += 1;
    }
    assert forall|j: int| 0 <= j < views(v@).len() implies views(v@)[j] != s@ by {
        assert(views(v@)[j] == v@[j]@);
    }
    false
}

/// The queue after the projects already visited at its front are dropped.
pub open spec fn skip_visited(q: Seq<Seq<char>>, visited: Seq<Seq<char>>) -> Seq<Seq<char>>
    decreases q.len(),
{
    if q.len() > 0 && visited.contains(q[0]) {
        skip_visited(q.drop_first(), visited)
    } else {
        q
    }
}

/// The front of the queue after skipping is a project not yet visited.
pub proof fn lemma_skip_visited_front(q: Seq<Seq<char>>, visited: Seq<Seq<char>>)
    ensures
        skip_visited(q, visited).len() > 0 ==> !visited.contains(skip_visited(q, visited)[0]),
    decreases q.len(),
{
    if q.len() > 0 && visited.contains(q[0]) {
        lemma_skip_visited_front(q.drop_first(), visited);
    }
}

/// The state of a dependency resolution, by views.
pub struct ResolverView {
    pub queue: Seq<Seq<char>>,
    pub visited: Seq<Seq<char>>,
    pub selected: Seq<ModrinthFile>,
    pub unavailable: Seq<Seq<char>>,
}

/// Resolves Modrinth projects and their required dependencies breadth-first:
/// each project is asked for once; the caller fetches the versions of the
/// project that `next_project` names and hands them to `record`.
pub struct ModResolver {
    queue: VecDeque<String>,
    visited: Vec<String>,
    selected: Vec<ModrinthFile>,
    unavailable: Vec<String>,
}

impl View for ModResolver {
    type V = ResolverView;

    closed spec fn view(&self) -> ResolverView {
        ResolverView {
            queue: views(self.queue@),
            visited: views(self.visited@),
            selected: self.selected@,
            unavailable: views(self.unavailable@),
        }
    }
}

impl ModResolver {
    /// The well-formedness that every operation keeps: no project was
    /// visited twice.
    pub open spec fn wf(&self) -> bool {
        self@.visited.no_duplicates()
    }

    /// A resolution that starts with `projects`, in order.
    pub fn new(projects: &Vec<String>) -> (r: ModResolver)
        ensures
            r@.queue == views(projects@),
            r@.visited.len() == 0,
            r@.selected.len() == 0,
            r@.unavailable.len() == 0,
            r.wf(),
    {
        let mut queue: VecDeque<String> = VecDeque::new();
        let mut i: usize = 0;
        while i < projects.len()
            invariant
                0 <= i <= projects.len(),
                views(queue@) == views(projects@).take(i as int),
            decreases projects.len() - i,
        {
            let ghost before = views(queue@);
            let item = projects[i].clone();
            assert(item@ == projects@[i as int]@);
            queue.push_back(item);
            assert(views(queue@) =~= before.push(projects@[i as int]@));
            assert(views(projects@).take(i + 1) =~= views(projects@).take(i as int).push(
                projects@[i as int]@,
            ));
            i += 1;
        }
        assert(views(projects@).take(projects.len() as int) =~= views(projects@));
        let r = ModResolver {
            queue,
            visited: Vec::new(),
            selected: Vec::new(),
            unavailable: Vec::new(),
        };
        assert(r@.visited =~= Seq::<Seq<char>>::empty());
        assert(r@.unavailable =~= Seq::<Seq<char>>::empty());
        r
    }

    /// The next project to ask Modrinth about: the front of the queue, after
    /// projects already asked about are dropped. It is marked as visited.
    pub fn next_project(&mut self) -> (r: Option<String>)
        requires
            old(self).wf(),
        ensures
            ({
                let rest = skip_visited(old(self)@.queue, old(self)@.visited);
                &&& rest.len() == 0 ==> (r is None && final(self)@.queue.len() == 0
                    && final(self)@.visited == old(self)@.visited)
                &&& rest.len() > 0 ==> (r matches Some(p) && p@ == rest[0]
                    && final(self)@.queue == rest.drop_first() && final(self)@.visited
                    == old(self)@.visited.push(p@))
            }),
            final(self)@.selected == old(self)@.selected,
            final(self)@.unavailable == old(self)@.unavailable,
            r matches Some(p) ==> !old(self)@.visited.contains(p@),
            final(self).wf(),
    {
        proof {
            lemma_skip_visited_front(old(self)@.queue, old(self)@.visited);
        }
        loop
            invariant
                skip_visited(views(self.queue@), views(self.visited@)) == skip_visited(
                    old(self)@.queue,
                    old(self)@.visited,
                ),
                views(self.visited@) == old(self)@.visited,
                self.selected@ == old(self)@.selected,
                views(self.unavailable@) == old(self)@.unavailable,
                views(self.visited@).no_duplicates(),
            decreases self.queue@.len(),
        {
            let ghost q = views(self.queue@);
            let p = match self.queue.pop_front() {
                Some(p) => p,
                None => return None,
            };
            proof {
                assert(views(self.queue@) =~= q.drop_first());
                assert(q[0] == p@);
            }
            if !contains_string(&self.visited, p.as_str()) {
                let ghost v0 = views(self.visited@);
                self.visited.push(p.clone());
                proof {
                    assert(views(self.visited@) =~= v0.push(p@));
                    assert forall|a: int, b: int|
                        0 <= a < b < views(self.visited@).len() implies views(
                        self.visited@,
                    )[a] != views(self.visited@)[b] by {
                        if b == v0.len() {
                            assert(views(self.visited@)[a] == v0[a]);
                        }
                    }
                }
                return Some(p);
            }
        }
    }

    /// Takes in Modrinth's answer for `project`: an unavailable project, or
    /// one without versions, is recorded as unavailable; otherwise the
    /// chosen version's required projects are queued and its chosen file is
    /// selected. A version without files is an error.
    pub fn record(&mut self, project: String, response: ProjectResponse) -> (r: Result<
        (),
        String,
    >)
        requires
            old(self).wf(),
        ensures
            final(self)@.visited == old(self)@.visited,
            final(self).wf(),
            match response {
                ProjectResponse::Unavailable => {
                    &&& r is Ok
                    &&& final(self)@.unavailable == old(self)@.unavailable.push(project@)
                    &&& final(self)@.queue == old(self)@.queue
                    &&& final(self)@.selected == old(self)@.selected
                },
                ProjectResponse::Versions(vs) => match chosen_version(vs@) {
                    None => {
                        &&& r is Ok
                        &&& final(self)@.unavailable == old(self)@.unavailable.push(project@)
                        &&& final(self)@.queue == old(self)@.queue
                        &&& final(self)@.selected == old(self)@.selected
                    },
                    Some(v) => {
                        &&& final(self)@.unavailable == old(self)@.unavailable
                        &&& final(self)@.queue == old(self)@.queue + required_projects(
                            v.dependencies@,
                        )
                        &&& match chosen_file(v.files@) {
                            None => (r matches Err(e) && e@ == project@
                                + " no publicó un archivo descargable"@ && final(self)@.selected
                                == old(self)@.selected),
                            Some(f) => r is Ok && final(self)@.selected
                                == old(self)@.selected.push(f),
                        }
                    },
                },
            },
    {
        match response {
            ProjectResponse::Unavailable => {
                let ghost u0 = views(self.unavailable@);
                self.unavailable.push(project);
                assert(views(self.unavailable@) =~= u0.push(project@));
                Ok(())
            },
            ProjectResponse::Versions(vs) => {
                match choose_version(&vs) {
                    None => {
                        let ghost u0 = views(self.unavailable@);
                        self.unavailable.push(project);
                        assert(views(self.unavailable@) =~= u0.push(project@));
                        Ok(())
                    },
                    Some(i) => {
                        push_required(&mut self.queue, &vs[i].dependencies);
                        match choose_file(&vs[i].files) {
                            None => Err(concat2(project.as_str(), " no publicó un archivo descargable")),
                            Some(f) => {
                                self.selected.push(f);
                                Ok(())
                            },
                        }
                    },
                }
            },
        }
    }

    /// The selected files and the unavailable projects.
    pub fn finish(self) -> (r: (Vec<ModrinthFile>, Vec<String>))
        ensures
            r.0@ == self@.selected,
            views(r.1@) == self@.unavailable,
    {
        (self.selected, self.unavailable)
    }
}

/// The Modrinth projects that fresh installations resolve, in order.
pub open spec fn default_projects() -> Seq<Seq<char>> {
    seq![
        "fabric-api"@,
        "sodium"@,
        "lithium"@,
        "immediatelyfast"@,
        "ferrite-core"@,
        "entityculling"@,
        "moreculling"@,
        "krypton"@,
        "badoptimizations"@,
        "dynamic-fps"@,
        "sodium-extra"@,
        "reeses-sodium-options"@,
        "zoomify"@,
        "modmenu"@,
        "betterf3"@,
        "appleskin"@,
        "fast-ip-ping"@,
        "debugify"@,
        "fpsflow"@,
        "hudfabric"@,
        "shulkerboxtooltip"@,
        "status-effect-bars"@,
        "inventory-profiles-next"@,
        "mouse-tweaks"@,
        "xaeros-minimap"@,
        "better-mount-hud"@,
        "item-counter-fx"@,
        "simple-voice-chat"@,
    ]
}

/// The projects that fresh installations resolve.
pub fn default_mod_projects() -> (r: Vec<String>)
    ensures
        views(r@) == default_projects(),
{
    let mut r: Vec<String> = Vec::new();
    r.push(to_string("fabric-api"));
    r.push(to_string("sodium"));
    r.push(to_string("lithium"));
    r.push(to_string("immediatelyfast"));
    r.push(to_string("ferrite-core"));
    r.push(to_string("entityculling"));
    r.push(to_string("moreculling"));
    r.push(to_string("krypton"));
    r.push(to_string("badoptimizations"));
    r.push(to_string("dynamic-fps"));
    r.push(to_string("sodium-extra"));
    r.push(to_string("reeses-sodium-options"));
    r.push(to_string("zoomify"));
    r.push(to_string("modmenu"));
    r.push(to_string("betterf3"));
    r.push(to_string("appleskin"));
    r.push(to_string("fast-ip-ping"));
    r.push(to_string("debugify"));
    r.push(to_string("fpsflow"));
    r.push(to_string("hudfabric"));
    r.push(to_string("shulkerboxtooltip"));
    r.push(to_string("status-effect-bars"));
    r.push(to_string("inventory-profiles-next"));
    r.push(to_string("mouse-tweaks"));
    r.push(to_string("xaeros-minimap"));
    r.push(to_string("better-mount-hud"));
    r.push(to_string("item-counter-fx"));
    r.push(to_string("simple-voice-chat"));
    assert(views(r@) =~= default_projects());
    r
}

/// The address that lists a project's Fabric versions for a game version.
pub fn modrinth_versions_url(project: &str, version: &str) -> (r: String)
    ensures
        r@ == "https://api.modrinth.com/v2/project/"@ + project@
            + "/version?loaders=%5B%22fabric%22%5D&game_versions=%5B%22"@ + version@
            + "%22%5D&include_changelog=false"@,
{
    let mut r = to_string("https://api.modrinth.com/v2/project/");
    crate::text::push_str(&mut r, project);
    crate::text::push_str(&mut r, "/version?loaders=%5B%22fabric%22%5D&game_versions=%5B%22");
    crate::text::push_str(&mut r, version);
    crate::text::push_str(&mut r, "%22%5D&include_changelog=false");
    r
}

/// The file names that were selected.
pub fn wanted_file_names(files: &Vec<ModrinthFile>) -> (r: Vec<String>)
    ensures
        views(r@) == files@.map_values(|f: ModrinthFile| f.filename@),
{
    let mut r: Vec<String> = Vec::new();
    let mut i: usize = 0;
    while i < files.len()
        invariant
            0 <= i <= files.len(),
            views(r@) == files@.take(i as int).map_values(|f: ModrinthFile| f.filename@),
        decreases files.len() - i,
    {
        let ghost before = views(r@);
        let name = files[i].filename.clone();
        assert(name@ == files@[i as int].filename@);
        r.push(name);
        assert(views(r@) =~= before.push(files@[i as int].filename@));
        assert(files@.take(i + 1).map_values(|f: ModrinthFile| f.filename@) =~= files@.take(
            i as int,
        ).map_values(|f: ModrinthFile| f.filename@).push(files@[i as int].filename@));
        i += 1;
    }
    assert(files@.take(files.len() as int) =~= files@);
    r
}

/// When installed projects replace the existing ones, a file in the mods
/// folder is removed only if it is a jar that the launcher put there in an
/// earlier resolution (it is in `managed`) and that was not selected now.
pub open spec fn removed_on_resolution(
    name: Seq<char>,
    wanted: Seq<Seq<char>>,
    managed: Seq<Seq<char>>,
) -> bool {
    extension(name) == Some("jar"@) && !wanted.contains(name) && managed.contains(name)
}

/// Whether a file of the mods folder is removed by a resolution.
pub fn is_unwanted_jar(file_name: &Option<String>, wanted: &Vec<String>, managed: &Vec<String>) -> (r:
    bool)
    ensures
        r == (match file_name {
            Some(n) => removed_on_resolution(n@, views(wanted@), views(managed@)),
            None => false,
        }),
{
    match file_name {
        None => false,
        Some(n) => {
            let is_jar = match extension_of(n.as_str()) {
                Some(e) => str_equal(e.as_str(), "jar"),
                None => false,
            };
            is_jar && !contains_string(wanted, n.as_str()) && contains_string(managed, n.as_str())
        },
    }
}

/// The mods folder of an instance: `<instance>/mods`.
pub fn instance_mods_folder(instance_dir: &str) -> (r: String)
    ensures
        r@ == join_path(instance_dir@, "mods"@),
{
    join_path_str(instance_dir, "mods")
}

/// The record of the mods that the launcher's last resolution installed in
/// an instance, beside its mods folder:
/// `<instance>/aureus-managed-mods.json`.
pub fn managed_mods_manifest(instance_dir: &str) -> (r: String)
    ensures
        r@ == join_path(instance_dir@, "aureus-managed-mods.json"@),
{
    join_path_str(instance_dir, "aureus-managed-mods.json")
}

/// A file that the user installed by hand, which no resolution recorded,
/// is never removed; a file selected again is never removed either.
pub proof fn manual_mods_are_kept(name: Seq<char>, wanted: Seq<Seq<char>>, managed: Seq<Seq<char>>)
    ensures
        !managed.contains(name) ==> !removed_on_resolution(name, wanted, managed),
        wanted.contains(name) ==> !removed_on_resolution(name, wanted, managed),
{
}

/// The digest a selected file is checked against (empty when Modrinth gave
/// none).
pub fn expected_sha1(file: &ModrinthFile) -> (r: String)
    ensures
        r@ == match file.sha1 {
            Some(h) => h@,
            None => seq![],
        },
{
    match &file.sha1 {
        Some(h) => h.clone(),
        None => String::new(),
    }
}

} // verus!
