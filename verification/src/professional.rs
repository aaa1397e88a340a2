//! Managed instances and their content: the list of instances and the
//! rules for adding, copying and removing them, content toggling, safe
//! mode, backups and exports, hardware and benchmark advice, and crash
//! report analysis.
use vstd::prelude::*;
use crate::digests::{lower_hex, sha256_digest, sha256_hex};
use crate::json::{
    json_string, json_string_lists, keys_ascending, member_keys, member_texts, pretty_json_members,
    pretty_json_object, ConfigValue,
};
use crate::paths::{
    extension, extension_of, file_name, file_name_of, instance_root, instance_root_path, join_path,
    join_path_str, valid_id, validate_id, folder_id, content_folder, content_directory,
};
use crate::text::{
    chars_of, concat2, contains, contains_str, occurs_at, decimal, ends_with, ends_with_chars, lemma_lex_antisymmetric,
    lemma_lex_total, lemma_lex_transitive, lex_le, lex_le_chars, lines, push_decimal, push_str,
    split_lines, str_equal, take_chars, to_string, trim, trim_str, views, decimal_string,
};

verus! {

// ---------------------------------------------------------------------------
// Instances
// ---------------------------------------------------------------------------

/// An instance that the launcher manages.
#[derive(Clone, Debug)]
pub struct ManagedInstance {
    pub id: String,
    pub name: String,
    pub minecraft_version: String,
    pub memory_mb: u32,
    pub resolution_width: u32,
    pub resolution_height: u32,
    pub java_path: Option<String>,
    pub jvm_args: Vec<String>,
    pub profile: String,
    pub created_at: u64,
}

/// A managed instance by its values.
pub struct InstanceView {
    pub id: Seq<char>,
    pub name: Seq<char>,
    pub minecraft_version: Seq<char>,
    pub memory_mb: u32,
    pub resolution_width: u32,
    pub resolution_height: u32,
    pub java_path: Option<Seq<char>>,
    pub jvm_args: Seq<Seq<char>>,
    pub profile: Seq<char>,
    pub created_at: u64,
}

pub open spec fn opt_view(o: Option<String>) -> Option<Seq<char>> {
    match o {
        Some(s) => Some(s@),
        None => None,
    }
}

impl View for ManagedInstance {
    type V = InstanceView;

    open spec fn view(&self) -> InstanceView {
        InstanceView {
            id: self.id@,
            name: self.name@,
            minecraft_version: self.minecraft_version@,
            memory_mb: self.memory_mb,
            resolution_width: self.resolution_width,
            resolution_height: self.resolution_height,
            java_path: opt_view(self.java_path),
            jvm_args: views(self.jvm_args@),
            profile: self.profile@,
            created_at: self.created_at,
        }
    }
}

/// The views of a list of instances.
pub open spec fn instance_views(v: Seq<ManagedInstance>) -> Seq<InstanceView> {
    v.map_values(|i: ManagedInstance| i@)
}

/// A copy of a list of strings.
pub fn clone_strings(v: &Vec<String>) -> (r: Vec<String>)
    ensures
        views(r@) == views(v@),
{
    let mut r: Vec<String> = Vec::new();
    let mut i: usize = 0;
    while i < v.len()
        invariant
            0 <= i <= v.len(),
            views(r@) == views(v@).take(i as int),
        decreases v.len() - i,
    {
        let ghost before = views(r@);
        let s = v[i].clone();
        r.push(s);
        assert(views(r@) =~= before.push(v@[i as int]@));
        assert(views(v@).take(i + 1) =~= views(v@).take(i as int).push(v@[i as int]@));
        i += 1;
    }
    assert(views(v@).take(v.len() as int) =~= views(v@));
    r
}

impl ManagedInstance {
    /// A copy with the same values.
    pub fn duplicate(&self) -> (r: ManagedInstance)
        ensures
            r@ == self@,
    {
        ManagedInstance {
            id: self.id.clone(),
            name: self.name.clone(),
            minecraft_version: self.minecraft_version.clone(),
            memory_mb: self.memory_mb,
            resolution_width: self.resolution_width,
            resolution_height: self.resolution_height,
            java_path: match &self.java_path {
                Some(p) => Some(p.clone()),
                None => None,
            },
            jvm_args: clone_strings(&self.jvm_args),
            profile: self.profile.clone(),
            created_at: self.created_at,
        }
    }
}

/// The index of the first instance with the given id.
pub open spec fn find_instance(items: Seq<InstanceView>, id: Seq<char>) -> Option<int>
    decreases items.len(),
{
    if items.len() == 0 {
        None
    } else if items[0].id == id {
        Some(0)
    } else {
        match find_instance(items.drop_first(), id) {
            Some(i) => Some(i + 1),
            None => None,
        }
    }
}

pub proof fn lemma_find_instance(items: Seq<InstanceView>, id: Seq<char>)
    ensures
        find_instance(items, id) matches Some(i) ==> 0 <= i < items.len() && items[i].id == id
            && forall|j: int| 0 <= j < i ==> items[j].id != id,
        find_instance(items, id) is None ==> forall|j: int|
            0 <= j < items.len() ==> items[j].id != id,
    decreases items.len(),
{
    if items.len() > 0 {
        lemma_find_instance(items.drop_first(), id);
        assert forall|j: int| 0 < j < items.len() implies items[j] == items.drop_first()[j
            - 1] by {}
    }
}

/// The position of the first instance with the given id.
pub fn position_of(items: &Vec<ManagedInstance>, id: &str) -> (r: Option<usize>)
    ensures
        r matches Some(i) ==> find_instance(instance_views(items@), id@) == Some(i as int),
        r is None ==> find_instance(instance_views(items@), id@) is None,
{
    let ghost all = instance_views(items@);
    let mut i: usize = 0;
    assert(all.skip(0) =~= all);
    while i < items.len()
        invariant
            0 <= i <= items.len(),
            all == instance_views(items@),
            find_instance(all, id@) == match find_instance(all.skip(i as int), id@) {
                Some(k) => Some(k + i),
                None => None,
            },
        decreases items.len() - i,
    {
        proof {
            assert(all.skip(i as int).drop_first() =~= all.skip(i + 1));
            assert(all.skip(i as int)[0] == items@[i as int]@);
        }
        if str_equal(items[i].id.as_str(), id) {
            return Some(i);
        }
        i += 1;
    }
    None
}

pub open spec fn clamp(v: u32, lo: u32, hi: u32) -> u32 {
    if v < lo {
        lo
    } else if v > hi {
        hi
    } else {
        v
    }
}

/// `u32::clamp`.
pub fn clamp_u32(v: u32, lo: u32, hi: u32) -> (r: u32)
    requires
        lo <= hi,
    ensures
        r == clamp(v, lo, hi),
{
    if v < lo {
        lo
    } else if v > hi {
        hi
    } else {
        v
    }
}

/// An instance as it is stored: memory between 1 and 32 GB, a resolution
/// between 640x480 and 7680x4320, and a creation time (`now` when it had
/// none).
pub open spec fn normalized(i: InstanceView, now: u64) -> InstanceView {
    InstanceView {
        memory_mb: clamp(i.memory_mb, 1024, 32768),
        resolution_width: clamp(i.resolution_width, 640, 7680),
        resolution_height: clamp(i.resolution_height, 480, 4320),
        created_at: if i.created_at == 0 {
            now
        } else {
            i.created_at
        },
        ..i
    }
}

/// An instance is accepted with a valid id and a name that is not blank.
pub open spec fn acceptable(i: InstanceView) -> bool {
    valid_id(i.id) && trim(i.name).len() > 0
}

/// Checks and normalizes an instance: an invalid id is refused first, then
/// a blank name.
pub fn normalize_instance(instance: ManagedInstance, now: u64) -> (r: Result<
    ManagedInstance,
    String,
>)
    ensures
        r is Ok <==> acceptable(instance@),
        r matches Ok(n) ==> n@ == normalized(instance@, now),
        !valid_id(instance@.id) ==> (r matches Err(e) && e@
            == "Identificador de instancia no válido"@),
        valid_id(instance@.id) && trim(instance@.name).len() == 0 ==> (r matches Err(e) && e@
            == "La instancia necesita un nombre"@),
{
    validate_id(instance.id.as_str())?;
    if trim_str(instance.name.as_str()).as_str().is_empty() {
        return Err(to_string("La instancia necesita un nombre"));
    }
    let mut instance = instance;
    instance.memory_mb = clamp_u32(instance.memory_mb, 1024, 32768);
    instance.resolution_width = clamp_u32(instance.resolution_width, 640, 7680);
    instance.resolution_height = clamp_u32(instance.resolution_height, 480, 4320);
    if instance.created_at == 0 {
        instance.created_at = now;
    }
    Ok(instance)
}

/// Replaces the first instance with the same id, or appends.
pub open spec fn upserted(items: Seq<InstanceView>, i: InstanceView) -> Seq<InstanceView> {
    match find_instance(items, i.id) {
        Some(k) => items.update(k, i),
        None => items.push(i),
    }
}

/// Replaces the first instance with the same id as `instance`, or appends it.
pub fn upsert_instance(items: Vec<ManagedInstance>, instance: ManagedInstance) -> (r: Vec<
    ManagedInstance,
>)
    ensures
        instance_views(r@) == upserted(instance_views(items@), instance@),
{
    let mut items = items;
    match position_of(&items, instance.id.as_str()) {
        Some(k) => {
            let ghost before = instance_views(items@);
            proof {
                lemma_find_instance(before, instance@.id);
            }
            items.set(k, instance);
            assert(instance_views(items@) =~= before.update(k as int, instance@));
        },
        None => {
            let ghost before = instance_views(items@);
            items.push(instance);
            assert(instance_views(items@) =~= before.push(instance@));
        },
    }
    items
}

/// Saves an instance into the list: it is checked and normalized, then
/// replaces the instance with its id or is appended. Returns the new list
/// and the stored instance.
pub fn upsert_managed_instance_at(
    items: Vec<ManagedInstance>,
    instance: ManagedInstance,
    now: u64,
) -> (r: Result<(Vec<ManagedInstance>, ManagedInstance), String>)
    ensures
        r is Ok <==> acceptable(instance@),
        r matches Ok((list, stored)) ==> stored@ == normalized(instance@, now) && instance_views(
            list@,
        ) == upserted(instance_views(items@), normalized(instance@, now)),
        !valid_id(instance@.id) ==> (r matches Err(e) && e@
            == "Identificador de instancia no válido"@),
        valid_id(instance@.id) && trim(instance@.name).len() == 0 ==> (r matches Err(e) && e@
            == "La instancia necesita un nombre"@),
{
    let stored = normalize_instance(instance, now)?;
    let copy = stored.duplicate();
    let list = upsert_instance(items, copy);
    Ok((list, stored))
}

/// After a save, looking the id up gives the stored instance, and every
/// other id gives what it gave before.
pub proof fn upsert_then_lookup(items: Seq<InstanceView>, i: InstanceView, other: Seq<char>)
    ensures
        find_instance(upserted(items, i), i.id) matches Some(k) && upserted(items, i)[k] == i,
        other != i.id ==> match (find_instance(items, other), find_instance(
            upserted(items, i),
            other,
        )) {
            (Some(a), Some(b)) => items[a] == upserted(items, i)[b],
            (None, None) => true,
            _ => false,
        },
        upserted(items, i).len() == items.len() + if find_instance(items, i.id) is Some {
            0int
        } else {
            1int
        },
{
    lemma_find_instance(items, i.id);
    lemma_find_instance(items, other);
    let u = upserted(items, i);
    lemma_find_instance(u, i.id);
    lemma_find_instance(u, other);
    match find_instance(items, i.id) {
        Some(k) => {
            assert(u[k].id == i.id);
        },
        None => {
            assert(u[items.len() as int].id == i.id);
        },
    }
    if other != i.id {
        match find_instance(items, other) {
            Some(a) => {
                assert(u[a].id == other);
            },
            None => {},
        }
        match find_instance(u, other) {
            Some(b) => {
                assert(items[b].id == other);
            },
            None => {},
        }
    }
}

/// Normalizing a normalized instance changes nothing.
pub proof fn normalize_idempotent(i: InstanceView, now: u64, later: u64)
    ensures
        normalized(normalized(i, now), later) == normalized(i, now) || (i.created_at == 0 && now
            == 0),
{
}

/// An instance's launch settings: memory, resolution and extra JVM
/// arguments.
pub fn launch_preferences(items: &Vec<ManagedInstance>, id: &str) -> (r: Option<
    (u32, u32, u32, Vec<String>),
>)
    ensures
        match find_instance(instance_views(items@), id@) {
            Some(k) => r matches Some(p) && p.0 == items@[k].memory_mb && p.1
                == items@[k].resolution_width && p.2 == items@[k].resolution_height && views(
                p.3@,
            ) == views(items@[k].jvm_args@),
            None => r is None,
        },
{
    match position_of(items, id) {
        Some(k) => {
            proof {
                lemma_find_instance(instance_views(items@), id@);
            }
            Some(
                (
                    items[k].memory_mb,
                    items[k].resolution_width,
                    items[k].resolution_height,
                    clone_strings(&items[k].jvm_args),
                ),
            )
        },
        None => None,
    }
}

/// The instance that a freshly prepared version starts from.
pub open spec fn prepared_default(id: Seq<char>, version: Seq<char>, now: u64) -> InstanceView {
    InstanceView {
        id: id,
        name: "Minecraft "@ + version,
        minecraft_version: version,
        memory_mb: 5120,
        resolution_width: 1280,
        resolution_height: 720,
        java_path: None,
        jvm_args: seq!["-XX:+UseG1GC"@, "-XX:+ParallelRefProcEnabled"@],
        profile: "CUSTOM"@,
        created_at: now,
    }
}

/// Records the Java runtime of a prepared version: the instance with that
/// id (or a new one named after the version) gets the runtime and is saved.
pub fn register_prepared_instance_at(
    items: Vec<ManagedInstance>,
    id: &str,
    version: &str,
    java_path: Option<String>,
    now: u64,
) -> (r: Result<Vec<ManagedInstance>, String>)
    ensures
        ({
            let base = match find_instance(instance_views(items@), id@) {
                Some(k) => instance_views(items@)[k],
                None => prepared_default(id@, version@, now),
            };
            let updated = InstanceView { java_path: opt_view(java_path), ..base };
            &&& r is Ok <==> acceptable(updated)
            &&& r matches Ok(list) ==> instance_views(list@) == upserted(
                instance_views(items@),
                normalized(updated, now),
            )
        }),
{
    let base = match position_of(&items, id) {
        Some(k) => {
            proof {
                lemma_find_instance(instance_views(items@), id@);
            }
            items[k].duplicate()
        },
        None => {
            let mut jvm: Vec<String> = Vec::new();
            jvm.push(to_string("-XX:+UseG1GC"));
            jvm.push(to_string("-XX:+ParallelRefProcEnabled"));
            assert(views(jvm@) =~= seq!["-XX:+UseG1GC"@, "-XX:+ParallelRefProcEnabled"@]);
            ManagedInstance {
                id: to_string(id),
                name: concat2("Minecraft ", version),
                minecraft_version: to_string(version),
                memory_mb: 5120,
                resolution_width: 1280,
                resolution_height: 720,
                java_path: None,
                jvm_args: jvm,
                profile: to_string("CUSTOM"),
                created_at: now,
            }
        },
    };
    let mut updated = base;
    updated.java_path = java_path;
    let (list, _) = upsert_managed_instance_at(items, updated, now)?;
    Ok(list)
}

/// Copies an instance under a new id and name: both ids are checked (the
/// source first), the new id must be free, and the source must exist. The
/// copy is appended. Returns the new list and the copy.
pub fn duplicate_managed_instance_at(
    items: Vec<ManagedInstance>,
    source_id: &str,
    new_id: &str,
    new_name: String,
    now: u64,
) -> (r: Result<(Vec<ManagedInstance>, ManagedInstance), String>)
    ensures
        r is Ok <==> (valid_id(source_id@) && valid_id(new_id@) && find_instance(
            instance_views(items@),
            new_id@,
        ) is None && find_instance(instance_views(items@), source_id@) is Some),
        !valid_id(source_id@) || !valid_id(new_id@) ==> (r matches Err(e) && e@
            == "Identificador de instancia no válido"@),
        valid_id(source_id@) && valid_id(new_id@) && find_instance(
            instance_views(items@),
            new_id@,
        ) is Some ==> (r matches Err(e) && e@ == "Ya existe una instancia con ese identificador"@),
        valid_id(source_id@) && valid_id(new_id@) && find_instance(
            instance_views(items@),
            new_id@,
        ) is None && find_instance(instance_views(items@), source_id@) is None ==> (r matches Err(
            e,
        ) && e@ == "No existe la instancia original"@),
        r matches Ok((list, copy)) ==> {
            let src = instance_views(items@)[find_instance(
                instance_views(items@),
                source_id@,
            )->0];
            &&& copy@ == InstanceView { id: new_id@, name: new_name@, created_at: now, ..src }
            &&& instance_views(list@) == instance_views(items@).push(copy@)
        },
{
    validate_id(source_id)?;
    validate_id(new_id)?;
    if position_of(&items, new_id).is_some() {
        return Err(to_string("Ya existe una instancia con ese identificador"));
    }
    let k = match position_of(&items, source_id) {
        Some(k) => k,
        None => return Err(to_string("No existe la instancia original")),
    };
    proof {
        lemma_find_instance(instance_views(items@), source_id@);
    }
    let mut copy = items[k].duplicate();
    copy.id = to_string(new_id);
    copy.name = new_name;
    copy.created_at = now;
    let mut list = items;
    let ghost before = instance_views(list@);
    list.push(copy.duplicate());
    assert(instance_views(list@) =~= before.push(copy@));
    Ok((list, copy))
}

/// Removes the instances with an id; an invalid id, or one that no instance
/// has, is an error.
pub fn delete_managed_instance(items: Vec<ManagedInstance>, id: &str) -> (r: Result<
    Vec<ManagedInstance>,
    String,
>)
    ensures
        r is Ok <==> (valid_id(id@) && find_instance(instance_views(items@), id@) is Some),
        !valid_id(id@) ==> (r matches Err(e) && e@ == "Identificador de instancia no válido"@),
        valid_id(id@) && find_instance(instance_views(items@), id@) is None ==> (r matches Err(e)
            && e@ == "No existe esa instancia"@),
        r matches Ok(list) ==> instance_views(list@) == instance_views(items@).filter(
            |i: InstanceView| i.id != id@,
        ),
{
    validate_id(id)?;
    let ghost all = instance_views(items@);
    let mut kept: Vec<ManagedInstance> = Vec::new();
    let mut i: usize = 0;
    while i < items.len()
        invariant
            0 <= i <= items.len(),
            all == instance_views(items@),
            instance_views(kept@) == all.take(i as int).filter(|x: InstanceView| x.id != id@),
        decreases items.len() - i,
    {
        proof {
            assert(all.take(i + 1).drop_last() =~= all.take(i as int));
            assert(all.take(i + 1).last() == items@[i as int]@);
            reveal(Seq::filter);
        }
        if !str_equal(items[i].id.as_str(), id) {
            let ghost before = instance_views(kept@);
            kept.push(items[i].duplicate());
            assert(instance_views(kept@) =~= before.push(items@[i as int]@));
        }
        i += 1;
    }
    assert(all.take(items.len() as int) =~= all);
    if kept.len() == items.len() {
        proof {
            lemma_find_instance(all, id@);
            if find_instance(all, id@) is Some {
                let k = find_instance(all, id@)->0;
                lemma_filter_drops(all, id@, k);
            }
        }
        return Err(to_string("No existe esa instancia"));
    }
    proof {
        lemma_find_instance(all, id@);
        if find_instance(all, id@) is None {
            lemma_filter_keeps_all(all, id@);
        }
    }
    Ok(kept)
}

proof fn lemma_filter_drops(all: Seq<InstanceView>, id: Seq<char>, k: int)
    requires
        0 <= k < all.len(),
        all[k].id == id,
    ensures
        all.filter(|x: InstanceView| x.id != id).len() < all.len(),
    decreases all.len(),
{
    reveal(Seq::filter);
    let f = |x: InstanceView| x.id != id;
    all.drop_last().lemma_filter_len(f);
    if k == all.len() - 1 {
    } else {
        lemma_filter_drops(all.drop_last(), id, k);
    }
}

proof fn lemma_filter_keeps_all(all: Seq<InstanceView>, id: Seq<char>)
    requires
        forall|j: int| 0 <= j < all.len() ==> all[j].id != id,
    ensures
        all.filter(|x: InstanceView| x.id != id).len() == all.len(),
    decreases all.len(),
{
    reveal(Seq::filter);
    if all.len() > 0 {
        lemma_filter_keeps_all(all.drop_last(), id);
    }
}

/// After a removal no instance has the id, and the others keep their order.
pub proof fn delete_then_lookup(items: Seq<InstanceView>, id: Seq<char>)
    ensures
        find_instance(items.filter(|i: InstanceView| i.id != id), id) is None,
{
    let kept = items.filter(|i: InstanceView| i.id != id);
    lemma_find_instance(kept, id);
    assert forall|j: int| 0 <= j < kept.len() implies kept[j].id != id by {
        items.filter_lemma(|i: InstanceView| i.id != id);
    }
    lemma_find_instance(kept, id);
}

/// A store of managed instances is sound when every id is valid and no id
/// occurs twice.
pub open spec fn sound_store(items: Seq<InstanceView>) -> bool {
    &&& forall|k: int| 0 <= k < items.len() ==> valid_id(#[trigger] items[k].id)
    &&& forall|a: int, b: int|
        0 <= a < b < items.len() ==> #[trigger] items[a].id != #[trigger] items[b].id
}

/// Ids stay valid and distinct: saving an instance with a valid id (what
/// upsert, register and import store), appending a copy under a valid id
/// that no instance has (what duplicate stores) and removing the instances
/// with an id (what delete keeps) each give a sound store from a sound one.
pub proof fn managed_ids_stay_distinct(
    items: Seq<InstanceView>,
    saved: InstanceView,
    id: Seq<char>,
)
    requires
        sound_store(items),
    ensures
        valid_id(saved.id) ==> sound_store(upserted(items, saved)),
        valid_id(saved.id) && find_instance(items, saved.id) is None ==> sound_store(
            items.push(saved),
        ),
        sound_store(items.filter(|i: InstanceView| i.id != id)),
{
    lemma_find_instance(items, saved.id);
    let u = upserted(items, saved);
    if valid_id(saved.id) {
        match find_instance(items, saved.id) {
            Some(k) => {
                assert forall|a: int| 0 <= a < u.len() implies valid_id(#[trigger] u[a].id) by {
                    if a != k {
                        assert(u[a] == items[a]);
                    }
                }
                assert forall|a: int, b: int| 0 <= a < b < u.len() implies #[trigger] u[a].id
                    != #[trigger] u[b].id by {
                    if a != k && b != k {
                        assert(u[a] == items[a] && u[b] == items[b]);
                    } else if a == k {
                        assert(u[b] == items[b]);
                        assert(items[k].id != items[b].id);
                    } else {
                        assert(u[a] == items[a]);
                        assert(items[a].id != items[k].id);
                    }
                }
            },
            None => {
                assert forall|a: int| 0 <= a < u.len() implies valid_id(#[trigger] u[a].id) by {
                    if a < items.len() {
                        assert(u[a] == items[a]);
                    }
                }
                assert forall|a: int, b: int| 0 <= a < b < u.len() implies #[trigger] u[a].id
                    != #[trigger] u[b].id by {
                    assert(u[a] == items[a]);
                    if b < items.len() {
                        assert(u[b] == items[b]);
                    }
                }
            },
        }
    }
    let p = items.push(saved);
    if valid_id(saved.id) && find_instance(items, saved.id) is None {
        assert forall|a: int| 0 <= a < p.len() implies valid_id(#[trigger] p[a].id) by {
            if a < items.len() {
                assert(p[a] == items[a]);
            }
        }
        assert forall|a: int, b: int| 0 <= a < b < p.len() implies #[trigger] p[a].id
            != #[trigger] p[b].id by {
            assert(p[a] == items[a]);
            if b < items.len() {
                assert(p[b] == items[b]);
            }
        }
    }
    lemma_filter_sound(items, id);
}

/// The instances whose id is not `id`.
spec fn without_id(items: Seq<InstanceView>, id: Seq<char>) -> Seq<InstanceView> {
    items.filter(|i: InstanceView| i.id != id)
}

/// Removing the instances with an id keeps a store sound.
proof fn lemma_filter_sound(items: Seq<InstanceView>, id: Seq<char>)
    requires
        sound_store(items),
    ensures
        sound_store(items.filter(|i: InstanceView| i.id != id)),
        forall|a: int|
            0 <= a < without_id(items, id).len() ==> exists|j: int|
                0 <= j < items.len() && items[j] == #[trigger] without_id(items, id)[a],
    decreases items.len(),
{
    reveal(Seq::filter);
    let f = |i: InstanceView| i.id != id;
    if items.len() > 0 {
        let init = items.drop_last();
        assert(sound_store(init)) by {
            assert forall|a: int| 0 <= a < init.len() implies valid_id(#[trigger] init[a].id) by {
                assert(init[a] == items[a]);
            }
            assert forall|a: int, b: int| 0 <= a < b < init.len() implies #[trigger] init[a].id
                != #[trigger] init[b].id by {
                assert(init[a] == items[a] && init[b] == items[b]);
            }
        }
        lemma_filter_sound(init, id);
        let fi = without_id(init, id);
        let ff = without_id(items, id);
        assert(fi == init.filter(f) && ff == items.filter(f));
        assert forall|a: int| 0 <= a < fi.len() implies exists|j: int|
            0 <= j < items.len() && items[j] == #[trigger] fi[a] by {
            let j = choose|j: int| 0 <= j < init.len() && init[j] == fi[a];
            assert(items[j] == init[j]);
        }
        if f(items.last()) {
            assert(ff == fi.push(items.last()));
            assert forall|a: int| 0 <= a < ff.len() implies exists|j: int|
                0 <= j < items.len() && items[j] == #[trigger] ff[a] by {
                if a < fi.len() {
                    assert(ff[a] == fi[a]);
                } else {
                    assert(items[items.len() - 1] == ff[a]);
                }
            }
            assert forall|a: int| 0 <= a < ff.len() implies valid_id(#[trigger] ff[a].id) by {
                if a < fi.len() {
                    assert(ff[a] == fi[a]);
                } else {
                    assert(items[items.len() - 1].id == items.last().id);
                }
            }
            assert forall|a: int, b: int| 0 <= a < b < ff.len() implies #[trigger] ff[a].id
                != #[trigger] ff[b].id by {
                assert(ff[a] == fi[a]);
                if b < fi.len() {
                    assert(ff[b] == fi[b]);
                } else {
                    let j = choose|j: int| 0 <= j < items.len() && items[j] == fi[a];
                    assert(j != items.len() - 1);
                    assert(items[j] == init[j]);
                    assert(items[j].id != items[items.len() - 1].id);
                }
            }
        } else {
            assert(ff == fi);
        }
    }
}

/// The instance that an imported archive becomes.
pub open spec fn imported_view(id: Seq<char>, version: Seq<char>, now: u64) -> InstanceView {
    InstanceView {
        id: id,
        name: "Importada "@ + id,
        minecraft_version: version,
        memory_mb: 5120,
        resolution_width: 1280,
        resolution_height: 720,
        java_path: None,
        jvm_args: seq![],
        profile: "CUSTOM"@,
        created_at: now,
    }
}

/// The instance that an imported archive becomes, as a value.
pub fn imported_instance(new_id: &str, version: String, now: u64) -> (r: ManagedInstance)
    ensures
        r@ == imported_view(new_id@, version@, now),
{
    let r = ManagedInstance {
        id: to_string(new_id),
        name: concat2("Importada ", new_id),
        minecraft_version: version,
        memory_mb: 5120,
        resolution_width: 1280,
        resolution_height: 720,
        java_path: None,
        jvm_args: Vec::new(),
        profile: to_string("CUSTOM"),
        created_at: now,
    };
    assert(views(r.jvm_args@) =~= Seq::<Seq<char>>::empty());
    r
}


// ---------------------------------------------------------------------------
// Content
// ---------------------------------------------------------------------------

/// One file of an instance's content folders.
#[derive(Clone, Debug)]
pub struct ContentEntry {
    pub name: String,
    pub kind: String,
    pub enabled: bool,
    pub size: u64,
    pub sha256: String,
}

/// A content file is enabled unless its name ends with `.disabled`.
pub fn content_entry(name: String, kind: &str, bytes: &[u8]) -> (r: ContentEntry)
    ensures
        r.name@ == name@,
        r.kind@ == kind@,
        r.enabled == !ends_with(name@, ".disabled"@),
        r.size == bytes@.len(),
        r.sha256@ == lower_hex(sha256_digest(bytes@)),
{
    let enabled = !ends_with_chars(&chars_of(name.as_str()), &chars_of(".disabled"));
    ContentEntry {
        name,
        kind: to_string(kind),
        enabled,
        size: bytes.len() as u64,
        sha256: sha256_hex(bytes),
    }
}

/// Content is listed by kind, then by name.
pub open spec fn entry_le(x: ContentEntry, y: ContentEntry) -> bool {
    (lex_le(x.kind@, y.kind@) && x.kind@ != y.kind@) || (x.kind@ == y.kind@ && lex_le(
        x.name@,
        y.name@,
    ))
}

pub open spec fn entries_sorted(s: Seq<ContentEntry>) -> bool {
    forall|i: int, j: int| 0 <= i < j < s.len() ==> entry_le(#[trigger] s[i], #[trigger] s[j])
}

pub proof fn lemma_entry_total(x: ContentEntry, y: ContentEntry)
    ensures
        entry_le(x, y) || entry_le(y, x),
{
    lemma_lex_total(x.kind@, y.kind@);
    lemma_lex_total(x.name@, y.name@);
}

pub proof fn lemma_entry_transitive(x: ContentEntry, y: ContentEntry, z: ContentEntry)
    requires
        entry_le(x, y),
        entry_le(y, z),
    ensures
        entry_le(x, z),
{
    if x.kind@ == y.kind@ && y.kind@ == z.kind@ {
        lemma_lex_transitive(x.name@, y.name@, z.name@);
    } else if x.kind@ != y.kind@ && y.kind@ != z.kind@ {
        lemma_lex_transitive(x.kind@, y.kind@, z.kind@);
        if x.kind@ == z.kind@ {
            lemma_lex_antisymmetric(x.kind@, y.kind@);
        }
    }
}

fn entry_le_exec(x: &ContentEntry, y: &ContentEntry) -> (r: bool)
    ensures
        r == entry_le(*x, *y),
{
    let xk = chars_of(x.kind.as_str());
    let yk = chars_of(y.kind.as_str());
    if crate::text::chars_equal(&xk, &yk) {
        lex_le_chars(&chars_of(x.name.as_str()), &chars_of(y.name.as_str()))
    } else {
        lex_le_chars(&xk, &yk)
    }
}

/// Sorts content by kind, then by name.
pub fn sort_content(entries: Vec<ContentEntry>) -> (r: Vec<ContentEntry>)
    ensures
        entries_sorted(r@),
        r@.to_multiset() == entries@.to_multiset(),
{
    broadcast use vstd::seq_lib::group_to_multiset_ensures;

    let mut out: Vec<ContentEntry> = Vec::new();
    let mut input = entries;
    let ghost all = input@;
    assert(all.len() == input.len());
    let mut taken: usize = 0;
    assert(all.take(0) =~= Seq::<ContentEntry>::empty());
    while input.len() > 0
        invariant
            entries_sorted(out@),
            all == entries@,
            all.len() <= usize::MAX,
            taken <= all.len(),
            input@ == all.skip(taken as int),
            out@.to_multiset() == all.take(taken as int).to_multiset(),
        decreases input.len(),
    {
        let e = input.remove(0);
        proof {
            assert(all.skip(taken as int)[0] == e);
            assert(input@ =~= all.skip(taken + 1));
            assert(all.take(taken + 1) =~= all.take(taken as int).push(e));
        }
        let mut j: usize = 0;
        while j < out.len() && entry_le_exec(&out[j], &e)
            invariant
                j <= out.len(),
                forall|k: int| 0 <= k < j ==> entry_le(#[trigger] out@[k], e),
            decreases out.len() - j,
        {
            j += 1;
        }
        proof {
            if j < out.len() {
                lemma_entry_total(out@[j as int], e);
            }
        }
        let ghost before = out@;
        out.insert(j, e);
        proof {
            assert forall|a: int, b: int| 0 <= a < b < out@.len() implies entry_le(
                #[trigger] out@[a],
                #[trigger] out@[b],
            ) by {
                if b < j {
                    assert(out@[a] == before[a] && out@[b] == before[b]);
                } else if b == j {
                    assert(out@[a] == before[a]);
                } else if a == j {
                    assert(out@[b] == before[b - 1]);
                    if b - 1 > j {
                        assert(entry_le(before[j as int], before[b - 1]));
                        lemma_entry_transitive(e, before[j as int], before[b - 1]);
                    }
                } else if a < j {
                    assert(out@[a] == before[a] && out@[b] == before[b - 1]);
                } else {
                    assert(out@[a] == before[a - 1] && out@[b] == before[b - 1]);
                }
            }
            assert(out@.remove(j as int) =~= before);
            assert(out@[j as int] == e);
            out@.to_multiset_ensures();
            assert(out@.remove(j as int).to_multiset() =~= out@.to_multiset().remove(out@[j as int]));
            assert(out@.contains(e));
            assert(out@.to_multiset().count(e) > 0);
            assert(out@.to_multiset() =~= before.to_multiset().insert(e));
            all.take(taken as int).to_multiset_ensures();
            assert(all.take(taken as int).push(e).to_multiset() =~= all.take(
                taken as int,
            ).to_multiset().insert(e));
            assert(taken < all.len());
        }
        taken += 1;
    }
    assert(all.take(taken as int) =~= all);
    out
}

/// The values of a content entry.
pub open spec fn entry_values(e: ContentEntry) -> (Seq<char>, Seq<char>, bool, u64, Seq<char>) {
    (e.name@, e.kind@, e.enabled, e.size, e.sha256@)
}

pub open spec fn entries_values(s: Seq<ContentEntry>) -> Seq<(Seq<char>, Seq<char>, bool, u64, Seq<char>)> {
    s.map_values(|e: ContentEntry| entry_values(e))
}

/// A file found in one of an instance's content folders.
#[derive(Clone, Debug)]
pub struct ContentFile {
    pub kind: String,
    pub name: String,
    pub bytes: Vec<u8>,
}

/// The entry a content file is listed as.
pub open spec fn file_entry_values(f: ContentFile) -> (Seq<char>, Seq<char>, bool, u64, Seq<char>) {
    (
        f.name@,
        f.kind@,
        !ends_with(f.name@, ".disabled"@),
        f.bytes@.len() as u64,
        lower_hex(sha256_digest(f.bytes@)),
    )
}

pub open spec fn files_entry_values(s: Seq<ContentFile>) -> Seq<(Seq<char>, Seq<char>, bool, u64, Seq<char>)> {
    s.map_values(|f: ContentFile| file_entry_values(f))
}

/// Sequences with the same entries have the same entry values.
proof fn lemma_entries_same_values(s1: Seq<ContentEntry>, s2: Seq<ContentEntry>)
    requires
        s1.to_multiset() == s2.to_multiset(),
    ensures
        entries_values(s1).to_multiset() == entries_values(s2).to_multiset(),
    decreases s1.len(),
{
    broadcast use vstd::multiset::group_multiset_axioms;

    vstd::seq_lib::to_multiset_len(s1);
    vstd::seq_lib::to_multiset_len(s2);
    if s1.len() == 0 {
        assert(entries_values(s1) =~= Seq::<(Seq<char>, Seq<char>, bool, u64, Seq<char>)>::empty());
        assert(entries_values(s2) =~= Seq::<(Seq<char>, Seq<char>, bool, u64, Seq<char>)>::empty());
    } else {
        let x = s1.last();
        let rest = s1.drop_last();
        assert(s1 =~= rest.push(x));
        vstd::seq_lib::to_multiset_build(rest, x);
        vstd::seq_lib::to_multiset_contains(s2, x);
        assert(s2.to_multiset().count(x) > 0);
        let i = choose|i: int| 0 <= i < s2.len() && s2[i] == x;
        let s2r = s2.remove(i);
        vstd::seq_lib::to_multiset_remove(s2, i);
        assert(s2r.to_multiset() =~= rest.to_multiset());
        lemma_entries_same_values(rest, s2r);
        assert(entries_values(s1) =~= entries_values(rest).push(entry_values(x)));
        vstd::seq_lib::to_multiset_build(entries_values(rest), entry_values(x));
        assert(s2 =~= s2r.insert(i, x));
        assert(entries_values(s2) =~= entries_values(s2r).insert(i, entry_values(x)));
        vstd::seq_lib::to_multiset_insert(entries_values(s2r), i, entry_values(x));
    }
}

/// The content of an instance, sorted by kind, then by name: one entry
/// for each file found.
pub fn list_instance_content(files: &Vec<ContentFile>) -> (r: Vec<ContentEntry>)
    ensures
        entries_sorted(r@),
        entries_values(r@).to_multiset() == files_entry_values(files@).to_multiset(),
{
    let mut entries: Vec<ContentEntry> = Vec::new();
    let mut i: usize = 0;
    while i < files.len()
        invariant
            0 <= i <= files.len(),
            entries_values(entries@) == files_entry_values(files@.take(i as int)),
        decreases files.len() - i,
    {
        let f = &files[i];
        let e = content_entry(f.name.clone(), f.kind.as_str(), f.bytes.as_slice());
        let ghost before = entries@;
        entries.push(e);
        proof {
            assert(entries_values(entries@) =~= entries_values(before).push(entry_values(e)));
            assert(files@.take(i + 1) =~= files@.take(i as int).push(files@[i as int]));
            assert(files_entry_values(files@.take(i + 1)) =~= files_entry_values(
                files@.take(i as int),
            ).push(file_entry_values(files@[i as int])));
        }
        i += 1;
    }
    assert(files@.take(files.len() as int) =~= files@);
    let sorted = sort_content(entries);
    proof {
        lemma_entries_same_values(sorted@, entries@);
    }
    sorted
}

/// A content name that may be toggled holds no path separator and no `..`.
pub open spec fn safe_content_name(name: Seq<char>) -> bool {
    !contains(name, "/"@) && !contains(name, "\\"@) && !contains(name, ".."@)
}

/// The name a content file gets: enabling drops a `.disabled` suffix,
/// disabling adds one unless it is already there.
pub open spec fn toggled_name(name: Seq<char>, enabled: bool) -> Seq<char> {
    if enabled {
        if ends_with(name, ".disabled"@) {
            name.take(name.len() - 9)
        } else {
            name
        }
    } else if ends_with(name, ".disabled"@) {
        name
    } else {
        name + ".disabled"@
    }
}

/// Disabling an enabled file and enabling it again gives back its name,
/// and disabling a disabled file leaves it as it is.
pub proof fn disable_then_enable(name: Seq<char>)
    ensures
        !ends_with(name, ".disabled"@) ==> toggled_name(toggled_name(name, false), true) == name,
        toggled_name(toggled_name(name, false), false) == toggled_name(name, false),
{
    reveal_strlit(".disabled");
    let d = name + ".disabled"@;
    if !ends_with(name, ".disabled"@) {
        assert(d.subrange(d.len() - 9, d.len() as int) =~= ".disabled"@);
        assert(d.take(d.len() - 9) =~= name);
    }
    assert(d.subrange(d.len() - 9, d.len() as int) =~= ".disabled"@);
}

/// A content file that is disabled can be enabled again under its own
/// name: its disabled name is still a safe name unless the name ends with
/// a dot, where the added suffix makes `..`, which is refused.
pub proof fn disabled_file_can_be_enabled(name: Seq<char>)
    requires
        safe_content_name(name),
        !ends_with(name, ".disabled"@),
    ensures
        (name.len() == 0 || name.last() != '.') ==> safe_content_name(toggled_name(name, false))
            && toggled_name(toggled_name(name, false), true) == name,
        (name.len() > 0 && name.last() == '.') ==> !safe_content_name(toggled_name(name, false)),
{
    reveal_strlit(".disabled");
    reveal_strlit("/");
    reveal_strlit("\\");
    reveal_strlit("..");
    disable_then_enable(name);
    let d = name + ".disabled"@;
    assert(toggled_name(name, false) == d);
    let n = name.len() as int;
    if name.len() > 0 && name.last() == '.' {
        assert(d.subrange(n - 1, n + 1) =~= ".."@);
        assert(occurs_at(d, ".."@, n - 1));
    } else {
        assert forall|i: int| !occurs_at(d, "/"@, i) by {
            if occurs_at(d, "/"@, i) {
                assert(d.subrange(i, i + 1)[0] == '/');
                if i < n {
                    assert(name.subrange(i, i + 1) =~= d.subrange(i, i + 1));
                    assert(occurs_at(name, "/"@, i));
                } else {
                    assert(d[i] == ".disabled"@[i - n]);
                }
            }
        }
        assert forall|i: int| !occurs_at(d, "\\"@, i) by {
            if occurs_at(d, "\\"@, i) {
                assert(d.subrange(i, i + 1)[0] == '\\');
                if i < n {
                    assert(name.subrange(i, i + 1) =~= d.subrange(i, i + 1));
                    assert(occurs_at(name, "\\"@, i));
                } else {
                    assert(d[i] == ".disabled"@[i - n]);
                }
            }
        }
        assert forall|i: int| !occurs_at(d, ".."@, i) by {
            if occurs_at(d, ".."@, i) {
                assert(d.subrange(i, i + 2)[0] == '.' && d.subrange(i, i + 2)[1] == '.');
                if i + 1 < n {
                    assert(name.subrange(i, i + 2) =~= d.subrange(i, i + 2));
                    assert(occurs_at(name, ".."@, i));
                } else if i + 1 == n {
                    assert(d[i] == name.last());
                } else {
                    assert(d[i + 1] == ".disabled"@[i + 1 - n]);
                }
            }
        }
    }
}

/// The files involved in toggling a content file.
#[derive(Clone, Debug)]
pub struct ToggleTarget {
    pub current: String,
    pub target: String,
    /// Whether the file has to be renamed.
    pub rename: bool,
    /// The file name reported back (empty when the target has none).
    pub file_name: String,
}

/// Toggles a content file: the name is checked first, then the kind and
/// the instance id; the result says which file becomes which.
pub fn toggle_instance_content(
    data_dir: &str,
    instance_id: &str,
    kind: &str,
    name: &str,
    enabled: bool,
) -> (r: Result<ToggleTarget, String>)
    ensures
        r is Ok <==> (safe_content_name(name@) && content_folder(kind@) is Some && folder_id(
            instance_id@,
        )),
        !safe_content_name(name@) ==> (r matches Err(e) && e@ == "Nombre de archivo no válido"@),
        safe_content_name(name@) && content_folder(kind@) is None ==> (r matches Err(e) && e@
            == "Tipo de contenido no válido"@),
        safe_content_name(name@) && content_folder(kind@) is Some && !folder_id(instance_id@) ==> (
        r matches Err(e) && e@ == "Identificador de instancia no válido"@),
        r matches Ok(t) ==> {
            let root = join_path(
                instance_root_path(data_dir@, instance_id@),
                content_folder(kind@)->0,
            );
            &&& t.current@ == join_path(root, name@)
            &&& t.target@ == join_path(root, toggled_name(name@, enabled))
            &&& t.rename == (toggled_name(name@, enabled) != name@)
            &&& t.file_name@ == match file_name(t.target@) {
                Some(f) => f,
                None => seq![],
            }
        },
{
    proof {
        reveal_strlit(".disabled");
    }
    let v = chars_of(name);
    if contains_str(name, "/") || contains_str(name, "\\") || contains_str(name, "..") {
        return Err(to_string("Nombre de archivo no válido"));
    }
    let root = content_directory(data_dir, instance_id, kind)?;
    let suffix = chars_of(".disabled");
    let has_suffix = ends_with_chars(&v, &suffix);
    let new_name = if enabled {
        if has_suffix {
            crate::text::string_of_range(&v, 0, v.len() - 9)
        } else {
            to_string(name)
        }
    } else if has_suffix {
        to_string(name)
    } else {
        concat2(name, ".disabled")
    };
    proof {
        if enabled && has_suffix {
            assert(v@.subrange(0, v@.len() - 9) =~= name@.take(name@.len() - 9));
        }
    }
    let rename = !str_equal(new_name.as_str(), name);
    let current = join_path_str(root.as_str(), name);
    let target = join_path_str(root.as_str(), new_name.as_str());
    let reported = match file_name_of(target.as_str()) {
        Some(f) => f,
        None => String::new(),
    };
    Ok(ToggleTarget { current, target, rename, file_name: reported })
}

/// Files whose names contain these stay enabled in safe mode.
pub open spec fn essential_mod(name: Seq<char>) -> bool {
    contains(name, "fabric-api"@) || contains(name, "fabricloader"@) || contains(
        name,
        "aureus-client"@,
    )
}

/// Safe mode disables every jar that is not essential by appending
/// `.disabled` to its name.
pub fn safe_mode_target(name: &str) -> (r: Option<String>)
    ensures
        (extension(name@) == Some("jar"@) && !essential_mod(name@)) ==> (r matches Some(t) && t@
            == name@ + ".disabled"@),
        !(extension(name@) == Some("jar"@) && !essential_mod(name@)) ==> r is None,
{
    let is_jar = match extension_of(name) {
        Some(e) => str_equal(e.as_str(), "jar"),
        None => false,
    };
    let essential = contains_str(name, "fabric-api") || contains_str(name, "fabricloader")
        || contains_str(name, "aureus-client");
    if is_jar && !essential {
        Some(concat2(name, ".disabled"))
    } else {
        None
    }
}

/// Which mods safe mode disables: the instance must have a mods folder;
/// then each file gets its new name, or none when it stays as it is.
pub fn enable_safe_mode(mods_exists: bool, names: &Vec<String>) -> (r: Result<
    Vec<Option<String>>,
    String,
>)
    ensures
        !mods_exists ==> (r matches Err(e) && e@ == "La instancia no contiene mods"@),
        mods_exists ==> (r matches Ok(v) && v@.len() == names@.len() && forall|i: int|
            0 <= i < names@.len() ==> (if extension(names@[i]@) == Some("jar"@) && !essential_mod(
                names@[i]@,
            ) {
                #[trigger] v@[i] matches Some(t) && t@ == names@[i]@ + ".disabled"@
            } else {
                v@[i] is None
            })),
{
    if !mods_exists {
        return Err(to_string("La instancia no contiene mods"));
    }
    let mut v: Vec<Option<String>> = Vec::new();
    let mut i: usize = 0;
    while i < names.len()
        invariant
            0 <= i <= names.len(),
            v@.len() == i,
            forall|j: int|
                0 <= j < i ==> (if extension(names@[j]@) == Some("jar"@) && !essential_mod(
                    names@[j]@,
                ) {
                    #[trigger] v@[j] matches Some(t) && t@ == names@[j]@ + ".disabled"@
                } else {
                    v@[j] is None
                }),
        decreases names.len() - i,
    {
        let t = safe_mode_target(names[i].as_str());
        v.push(t);
        i += 1;
    }
    Ok(v)
}

/// The report of safe mode.
pub fn safe_mode_message(disabled: u64, backup: &str) -> (r: String)
    ensures
        r@ == "Modo seguro activado: "@ + decimal(disabled as nat) + " mods desactivados. Respaldo: "@
            + backup@,
{
    let mut r = to_string("Modo seguro activado: ");
    push_decimal(&mut r, disabled);
    push_str(&mut r, " mods desactivados. Respaldo: ");
    push_str(&mut r, backup);
    r
}

// ---------------------------------------------------------------------------
// Backups and exports
// ---------------------------------------------------------------------------

/// The source and destination of a backup taken at `now`:
/// `<data>/backups/<id>-<now>`.
pub fn create_instance_backup_at(data_dir: &str, instance_id: &str, now: u64) -> (r: Result<
    (String, String),
    String,
>)
    ensures
        r is Ok <==> folder_id(instance_id@),
        r matches Err(e) ==> e@ == "Identificador de instancia no válido"@,
        r matches Ok((src, dst)) ==> src@ == instance_root_path(data_dir@, instance_id@) && dst@
            == join_path(
            join_path(data_dir@, "backups"@),
            instance_id@ + "-"@ + decimal(now as nat),
        ),
{
    let source = instance_root(data_dir, instance_id)?;
    let mut name = concat2(instance_id, "-");
    push_decimal(&mut name, now);
    let backup = join_path_str(join_path_str(data_dir, "backups").as_str(), name.as_str());
    Ok((source, backup))
}

/// The parts that name something: not empty and not `.`.
pub open spec fn kept_parts(parts: Seq<Seq<char>>) -> Seq<Seq<char>>
    decreases parts.len(),
{
    if parts.len() == 0 {
        seq![]
    } else {
        kept_parts(parts.drop_last()) + if parts.last().len() > 0 && parts.last() != "."@ {
            seq![parts.last()]
        } else {
            seq![]
        }
    }
}

/// The components of a path, as `Path::components` gives them for `/`
/// paths: a leading `/` is the root, and empty and `.` parts are skipped.
pub open spec fn path_components(p: Seq<char>) -> Seq<Seq<char>> {
    let parts = kept_parts(crate::text::split_char(p, '/'));
    if p.len() > 0 && p[0] == '/' {
        seq!["/"@] + parts
    } else {
        parts
    }
}

/// `Path::starts_with`: the components of `base` begin those of `p`.
pub open spec fn path_starts_with(p: Seq<char>, base: Seq<char>) -> bool {
    path_components(base).is_prefix_of(path_components(p))
}

/// The kept parts of two lists of parts, one after the other.
pub proof fn lemma_kept_concat(x: Seq<Seq<char>>, y: Seq<Seq<char>>)
    ensures
        kept_parts(x + y) == kept_parts(x) + kept_parts(y),
    decreases y.len(),
{
    if y.len() == 0 {
        assert(x + y =~= x);
        assert(kept_parts(y) =~= Seq::<Seq<char>>::empty());
        assert(kept_parts(x) + kept_parts(y) =~= kept_parts(x));
    } else {
        lemma_kept_concat(x, y.drop_last());
        assert((x + y).drop_last() =~= x + y.drop_last());
        assert((x + y).last() == y.last());
    }
}

proof fn lemma_kept_single(name: Seq<char>)
    requires
        name.len() > 0,
        name != "."@,
    ensures
        kept_parts(seq![name]) == seq![name],
{
    assert(seq![name].drop_last() =~= Seq::<Seq<char>>::empty());
    assert(kept_parts(Seq::<Seq<char>>::empty()) == Seq::<Seq<char>>::empty());
    assert(kept_parts(seq![name]) =~= seq![name]);
}

/// A backup taken of an instance lies in the backups directory, where
/// restoring looks for backups.
pub proof fn backup_is_restorable(data_dir: Seq<char>, instance_id: Seq<char>, now: u64)
    requires
        valid_id(instance_id),
    ensures
        path_starts_with(
            join_path(join_path(data_dir, "backups"@), instance_id + "-"@ + decimal(now as nat)),
            join_path(data_dir, "backups"@),
        ),
{
    reveal_strlit("backups");
    reveal_strlit("-");
    reveal_strlit("/");
    reveal_strlit(".");
    let base = join_path(data_dir, "backups"@);
    let name = instance_id + "-"@ + decimal(now as nat);
    crate::text::lemma_decimal_digits(now as nat);
    let digits = decimal(now as nat);
    assert forall|i: int| 0 <= i < name.len() implies name[i] != '/' by {
        if i < instance_id.len() {
            assert(name[i] == instance_id[i]);
            assert(crate::paths::is_name_char(instance_id[i]));
        } else if i > instance_id.len() {
            assert(name[i] == digits[i - instance_id.len() - 1]);
            assert(crate::text::is_ascii_digit(digits[i - instance_id.len() - 1]));
        }
    }
    assert(name.len() > 0 && name != "."@) by {
        assert(name[instance_id.len() as int] == '-');
        assert("."@.len() == 1);
        if name.len() == 1 {
            assert(instance_id.len() == 0);
        }
    }
    assert(base.len() > 0);
    assert(name[0] != '/');
    crate::text::lemma_split_whole(name, '/');
    let p = join_path(base, name);
    if base.last() == '/' {
        let front = base.drop_last();
        assert(base =~= front + seq!['/'] + Seq::<char>::empty());
        assert(p =~= front + seq!['/'] + name);
        crate::text::lemma_split_concat(front, '/', Seq::<char>::empty());
        crate::text::lemma_split_concat(front, '/', name);
        crate::text::lemma_split_whole(Seq::<char>::empty(), '/');
        let fs = crate::text::split_char(front, '/');
        lemma_kept_concat(fs, seq![Seq::<char>::empty()]);
        lemma_kept_concat(fs, seq![name]);
        assert(kept_parts(seq![Seq::<char>::empty()]) =~= Seq::<Seq<char>>::empty()) by {
            assert(seq![Seq::<char>::empty()].drop_last() =~= Seq::<Seq<char>>::empty());
        }
        lemma_kept_single(name);
        assert(kept_parts(crate::text::split_char(base, '/')) =~= kept_parts(fs));
        assert(kept_parts(crate::text::split_char(p, '/')) =~= kept_parts(fs) + seq![name]);
    } else {
        assert(p =~= base + seq!['/'] + name);
        crate::text::lemma_split_concat(base, '/', name);
        let bs = crate::text::split_char(base, '/');
        lemma_kept_concat(bs, seq![name]);
        lemma_kept_single(name);
        assert(kept_parts(crate::text::split_char(p, '/')) =~= kept_parts(bs) + seq![name]);
    }
    assert(p[0] == base[0]);
    let pb = path_components(base);
    let pp = path_components(p);
    assert(pp =~= pb + seq![name]);
}

fn components_of(p: &str) -> (r: Vec<String>)
    ensures
        views(r@) == path_components(p@),
{
    let v = chars_of(p);
    let parts = crate::text::split_on(&v, '/');
    let mut r: Vec<String> = Vec::new();
    if v.len() > 0 && v[0] == '/' {
        r.push(to_string("/"));
    }
    let ghost head = views(r@);
    let mut i: usize = 0;
    while i < parts.len()
        invariant
            0 <= i <= parts.len(),
            views(r@) == head + kept_parts(views(parts@).take(i as int)),
        decreases parts.len() - i,
    {
        proof {
            assert(views(parts@).take(i + 1).drop_last() =~= views(parts@).take(i as int));
            assert(views(parts@).take(i + 1).last() == parts@[i as int]@);
        }
        let keep = !(parts[i].as_str().is_empty() || str_equal(parts[i].as_str(), "."));
        let ghost before = views(r@);
        if keep {
            r.push(parts[i].clone());
            assert(views(r@) =~= before.push(parts@[i as int]@));
        }
        proof {
            assert(views(r@) =~= head + kept_parts(views(parts@).take(i + 1)));
        }
        i += 1;
    }
    assert(views(parts@).take(parts.len() as int) =~= views(parts@));
    proof {
        if v@.len() > 0 && v@[0] == '/' {
            assert(head =~= seq!["/"@]);
        } else {
            assert(head =~= Seq::<Seq<char>>::empty());
        }
    }
    assert(views(r@) =~= path_components(p@));
    r
}

/// `Path::starts_with` on `/` paths.
pub fn path_starts_with_exec(p: &str, base: &str) -> (r: bool)
    ensures
        r == path_starts_with(p@, base@),
{
    let pc = components_of(p);
    let bc = components_of(base);
    if bc.len() > pc.len() {
        return false;
    }
    let mut i: usize = 0;
    while i < bc.len()
        invariant
            bc.len() <= pc.len(),
            0 <= i <= bc.len(),
            views(pc@) == path_components(p@),
            views(bc@) == path_components(base@),
            forall|j: int| 0 <= j < i ==> views(bc@)[j] == views(pc@)[j],
        decreases bc.len() - i,
    {
        if !str_equal(bc[i].as_str(), pc[i].as_str()) {
            assert(views(bc@)[i as int] != views(pc@)[i as int]);
            assert(views(pc@).subrange(0, bc.len() as int)[i as int] == views(pc@)[i as int]);
            return false;
        }
        i += 1;
    }
    assert(views(bc@) =~= views(pc@).subrange(0, bc.len() as int));
    true
}

/// Restores a backup into an instance: the backup must be a directory
/// inside `<data>/backups`, and the instance id must be valid. Returns the
/// instance directory to copy into.
pub fn restore_instance_backup(
    data_dir: &str,
    instance_id: &str,
    backup_path: &str,
    backup_is_dir: bool,
) -> (r: Result<String, String>)
    ensures
        ({
            let inside = path_starts_with(backup_path@, join_path(data_dir@, "backups"@));
            &&& r is Ok <==> (inside && backup_is_dir && folder_id(instance_id@))
            &&& !(inside && backup_is_dir) ==> (r matches Err(e) && e@ == "Respaldo no válido"@)
            &&& inside && backup_is_dir && !folder_id(instance_id@) ==> (r matches Err(e) && e@
                == "Identificador de instancia no válido"@)
            &&& r matches Ok(d) ==> d@ == instance_root_path(data_dir@, instance_id@)
        }),
{
    let backups = join_path_str(data_dir, "backups");
    if !path_starts_with_exec(backup_path, backups.as_str()) || !backup_is_dir {
        return Err(to_string("Respaldo no válido"));
    }
    instance_root(data_dir, instance_id)
}

/// The archive an export writes: `<data>/exports/<id>-<now>.aureuspack`.
pub fn export_archive_path(data_dir: &str, instance_id: &str, now: u64) -> (r: Result<
    (String, String),
    String,
>)
    ensures
        r is Ok <==> folder_id(instance_id@),
        r matches Err(e) ==> e@ == "Identificador de instancia no válido"@,
        r matches Ok((src, out)) ==> src@ == instance_root_path(data_dir@, instance_id@) && out@
            == join_path(
            join_path(data_dir@, "exports"@),
            instance_id@ + "-"@ + decimal(now as nat) + ".aureuspack"@,
        ),
{
    let source = instance_root(data_dir, instance_id)?;
    let mut name = concat2(instance_id, "-");
    push_decimal(&mut name, now);
    push_str(&mut name, ".aureuspack");
    let out = join_path_str(join_path_str(data_dir, "exports").as_str(), name.as_str());
    Ok((source, out))
}

/// The name an exported file or directory gets inside the archive:
/// backslashes become slashes, and directories end with a slash.
pub fn archive_entry_name(relative: &str, is_dir: bool) -> (r: String)
    ensures
        r@ == crate::text::replace_char(relative@, '\\', '/') + if is_dir {
            "/"@
        } else {
            seq![]
        },
{
    let mut r = crate::text::replace_char_str(relative, '\\', '/');
    if is_dir {
        push_str(&mut r, "/");
    } else {
        assert(r@ + seq![] =~= r@);
    }
    r
}

// ---------------------------------------------------------------------------
// Hardware, benchmark and client settings
// ---------------------------------------------------------------------------

/// A recommendation for the machine.
#[derive(Clone, Debug)]
pub struct HardwareProfile {
    pub memory_mb: u64,
    pub cpu_threads: usize,
    pub recommended_memory_mb: u32,
    pub profile: String,
    pub render_distance: u32,
    pub simulation_distance: u32,
}

/// Under 8 GB of memory: minimal RAM profile; under 16 GB or fewer than 8
/// threads: balanced; otherwise competitive.
pub fn recommend_hardware_profile(memory_mb: u64, cpu_threads: usize) -> (r: HardwareProfile)
    ensures
        r.memory_mb == memory_mb,
        r.cpu_threads == cpu_threads,
        memory_mb < 8192 ==> r.profile@ == "RAM_MINIMA"@ && r.recommended_memory_mb == 3072
            && r.render_distance == 6 && r.simulation_distance == 5,
        memory_mb >= 8192 && (memory_mb < 16384 || cpu_threads < 8) ==> r.profile@
            == "EQUILIBRADO"@ && r.recommended_memory_mb == 5120 && r.render_distance == 8
            && r.simulation_distance == 6,
        memory_mb >= 16384 && cpu_threads >= 8 ==> r.profile@ == "COMPETITIVO"@
            && r.recommended_memory_mb == 6144 && r.render_distance == 12 && r.simulation_distance
            == 8,
{
    let (profile, memory, render, simulation) = if memory_mb < 8192 {
        ("RAM_MINIMA", 3072u32, 6u32, 5u32)
    } else if memory_mb < 16384 || cpu_threads < 8 {
        ("EQUILIBRADO", 5120u32, 8u32, 6u32)
    } else {
        ("COMPETITIVO", 6144u32, 12u32, 8u32)
    };
    HardwareProfile {
        memory_mb,
        cpu_threads,
        recommended_memory_mb: memory,
        profile: to_string(profile),
        render_distance: render,
        simulation_distance: simulation,
    }
}

/// Megabytes from a byte count printed as text (0 when it does not parse).
pub fn memory_mb_from_byte_count(text: &str) -> (r: u64)
    ensures
        r == match crate::text::parse_u64(trim(text@)) {
            Some(v) => v / 1048576,
            None => 0,
        },
{
    let t = trim_str(text);
    match crate::text::parse_u64_str(t.as_str()) {
        Some(v) => v / 1048576,
        None => 0,
    }
}

/// The first line that starts with `prefix`.
pub open spec fn first_line_with_prefix(ls: Seq<Seq<char>>, prefix: Seq<char>) -> Option<
    Seq<char>,
>
    decreases ls.len(),
{
    if ls.len() == 0 {
        None
    } else if crate::text::starts_with(ls[0], prefix) {
        Some(ls[0])
    } else {
        first_line_with_prefix(ls.drop_first(), prefix)
    }
}

/// The kilobytes that `/proc/meminfo` gives for `MemTotal`, in megabytes
/// (0 when the line or its number is missing).
pub open spec fn meminfo_mb(text: Seq<char>) -> u64 {
    match first_line_with_prefix(lines(text), "MemTotal:"@) {
        Some(l) => {
            let t = crate::text::whitespace_tokens(l);
            if t.len() > 1 {
                match crate::text::parse_u64(t[1]) {
                    Some(v) => v / 1024,
                    None => 0,
                }
            } else {
                0
            }
        },
        None => 0,
    }
}

/// Total memory in megabytes from the text of `/proc/meminfo`.
pub fn memory_mb_from_meminfo(text: &str) -> (r: u64)
    ensures
        r == meminfo_mb(text@),
{
    let ls = split_lines(&chars_of(text));
    let prefix = chars_of("MemTotal:");
    let mut i: usize = 0;
    assert(views(ls@).skip(0) =~= views(ls@));
    while i < ls.len()
        invariant
            0 <= i <= ls.len(),
            prefix@ == "MemTotal:"@,
            views(ls@) == lines(text@),
            first_line_with_prefix(lines(text@), "MemTotal:"@) == first_line_with_prefix(
                views(ls@).skip(i as int),
                "MemTotal:"@,
            ),
        decreases ls.len() - i,
    {
        proof {
            assert(views(ls@).skip(i as int).drop_first() =~= views(ls@).skip(i + 1));
            assert(views(ls@).skip(i as int)[0] == ls@[i as int]@);
        }
        if crate::text::starts_with_chars(&chars_of(ls[i].as_str()), &prefix) {
            let t = crate::text::split_whitespace_str(ls[i].as_str());
            if t.len() > 1 {
                return match crate::text::parse_u64_str(t[1].as_str()) {
                    Some(v) => v / 1024,
                    None => 0,
                };
            }
            return 0;
        }
        i += 1;
    }
    0
}

/// What a benchmark run measured.
#[derive(Clone, Debug)]
pub struct BenchmarkReport {
    pub available: bool,
    pub average_fps: u64,
    pub one_percent_low: u64,
    pub memory_used_mb: u64,
    pub samples: u64,
    pub recommendation: String,
}

/// The report when no benchmark was recorded.
pub fn missing_benchmark() -> (r: BenchmarkReport)
    ensures
        !r.available && r.average_fps == 0 && r.one_percent_low == 0 && r.memory_used_mb == 0
            && r.samples == 0,
        r.recommendation@ == "Juega al menos 20 segundos para generar mediciones reales"@,
{
    BenchmarkReport {
        available: false,
        average_fps: 0,
        one_percent_low: 0,
        memory_used_mb: 0,
        samples: 0,
        recommendation: to_string("Juega al menos 20 segundos para generar mediciones reales"),
    }
}

/// The advice for a benchmark: low average first, then stutter (a 1% low
/// under half the average), then high memory use.
pub open spec fn benchmark_advice(average: u64, low: u64, memory: u64) -> Seq<char> {
    if average < 45 {
        "Usa RAM mínima, 6 chunks y desactiva shaders"@
    } else if low * 2 < average {
        "Hay tirones: reduce simulación y revisa mods"@
    } else if memory > 4500 {
        "El uso de RAM es alto: activa el perfil equilibrado"@
    } else {
        "El rendimiento es estable para este perfil"@
    }
}

/// The report of a recorded benchmark. The doubled 1% low must fit in 64
/// bits.
pub fn read_benchmark(average: u64, low: u64, memory: u64, samples: u64) -> (r: BenchmarkReport)
    requires
        average >= 45 ==> low * 2 <= u64::MAX,
    ensures
        r.available,
        r.average_fps == average,
        r.one_percent_low == low,
        r.memory_used_mb == memory,
        r.samples == samples,
        r.recommendation@ == benchmark_advice(average, low, memory),
{
    let advice = if average < 45 {
        "Usa RAM mínima, 6 chunks y desactiva shaders"
    } else if low * 2 < average {
        "Hay tirones: reduce simulación y revisa mods"
    } else if memory > 4500 {
        "El uso de RAM es alto: activa el perfil equilibrado"
    } else {
        "El rendimiento es estable para este perfil"
    };
    BenchmarkReport {
        available: true,
        average_fps: average,
        one_percent_low: low,
        memory_used_mb: memory,
        samples,
        recommendation: to_string(advice),
    }
}

/// The settings that the client configuration receives.
#[derive(Clone, Debug)]
pub struct ClientSettings {
    pub profile: String,
    pub render_distance: u32,
    pub simulation_distance: u32,
    pub target_fps: u32,
    /// `<instance>/config/aureus-client.json`.
    pub path: String,
    /// The configuration document written there.
    pub document: String,
}

/// The members of the client configuration document, in the order of their
/// keys, with the values written as JSON; configuration format 4.
pub open spec fn client_config_entries(
    profile: Seq<char>,
    render_distance: u32,
    simulation_distance: u32,
    target_fps: u32,
) -> Seq<(Seq<char>, Seq<char>)> {
    seq![
        ("adaptiveParticles"@, "true"@),
        ("applyVanillaOptimizations"@, "true"@),
        ("backgroundFps"@, "30"@),
        ("biomeBlendRadius"@, "0"@),
        ("compactHud"@, "true"@),
        ("configVersion"@, "4"@),
        ("entityDistancePercent"@, "50"@),
        ("entityShadows"@, "false"@),
        ("hudX"@, "6"@),
        ("hudY"@, "6"@),
        ("keysXPercent"@, "50"@),
        ("keysY"@, "6"@),
        ("limitParticles"@, "true"@),
        ("maxParticlesPerTick"@, "25"@),
        ("menuCollapsed"@, "false"@),
        ("mipmapLevels"@, "0"@),
        ("profile"@, json_string(profile)),
        ("reduceBackgroundFps"@, "true"@),
        ("renderDistance"@, decimal(render_distance as nat)),
        ("serverProfiles"@, "{}"@),
        ("showArmor"@, "true"@),
        ("showAttackCooldown"@, "true"@),
        ("showBiome"@, "false"@),
        ("showCompatibility"@, "false"@),
        ("showCoordinates"@, "false"@),
        ("showCps"@, "true"@),
        ("showDirection"@, "true"@),
        ("showEffects"@, "true"@),
        ("showFps"@, "true"@),
        ("showFrameTime"@, "true"@),
        ("showItemCounters"@, "true"@),
        ("showKeystrokes"@, "true"@),
        ("showMemory"@, "false"@),
        ("showPing"@, "true"@),
        ("showSessionMetrics"@, "true"@),
        ("simulationDistance"@, decimal(simulation_distance as nat)),
        ("targetFps"@, decimal(target_fps as nat)),
        ("viewBobbing"@, "false"@),
    ]
}

/// The client configuration document: the members above as a
/// pretty-printed JSON object.
pub open spec fn client_config_document(
    profile: Seq<char>,
    render_distance: u32,
    simulation_distance: u32,
    target_fps: u32,
) -> Seq<char> {
    pretty_json_object(client_config_entries(profile, render_distance, simulation_distance, target_fps))
}

/// The constant numbers of the client configuration in decimal.
proof fn lemma_config_numbers()
    ensures
        decimal(0) == "0"@,
        decimal(4) == "4"@,
        decimal(6) == "6"@,
        decimal(25) == "25"@,
        decimal(30) == "30"@,
        decimal(50) == "50"@,
{
    reveal_strlit("0");
    reveal_strlit("4");
    reveal_strlit("6");
    reveal_strlit("25");
    reveal_strlit("30");
    reveal_strlit("50");
    reveal_with_fuel(decimal, 2);
    assert(decimal(25) =~= "25"@);
    assert(decimal(30) =~= "30"@);
    assert(decimal(50) =~= "50"@);
}

/// The keys of the client configuration document, in increasing order.
pub open spec fn client_config_keys() -> Seq<Seq<char>> {
    seq![
        "adaptiveParticles"@,
        "applyVanillaOptimizations"@,
        "backgroundFps"@,
        "biomeBlendRadius"@,
        "compactHud"@,
        "configVersion"@,
        "entityDistancePercent"@,
        "entityShadows"@,
        "hudX"@,
        "hudY"@,
        "keysXPercent"@,
        "keysY"@,
        "limitParticles"@,
        "maxParticlesPerTick"@,
        "menuCollapsed"@,
        "mipmapLevels"@,
        "profile"@,
        "reduceBackgroundFps"@,
        "renderDistance"@,
        "serverProfiles"@,
        "showArmor"@,
        "showAttackCooldown"@,
        "showBiome"@,
        "showCompatibility"@,
        "showCoordinates"@,
        "showCps"@,
        "showDirection"@,
        "showEffects"@,
        "showFps"@,
        "showFrameTime"@,
        "showItemCounters"@,
        "showKeystrokes"@,
        "showMemory"@,
        "showPing"@,
        "showSessionMetrics"@,
        "simulationDistance"@,
        "targetFps"@,
        "viewBobbing"@,
    ]
}

/// The keys of the client configuration document are in strictly
/// increasing order.
proof fn lemma_client_config_keys_ascending()
    ensures
        keys_ascending(client_config_keys()),
{
    reveal_strlit("adaptiveParticles");
    reveal_strlit("applyVanillaOptimizations");
    reveal_strlit("backgroundFps");
    reveal_strlit("biomeBlendRadius");
    reveal_strlit("compactHud");
    reveal_strlit("configVersion");
    reveal_strlit("entityDistancePercent");
    reveal_strlit("entityShadows");
    reveal_strlit("hudX");
    reveal_strlit("hudY");
    reveal_strlit("keysXPercent");
    reveal_strlit("keysY");
    reveal_strlit("limitParticles");
    reveal_strlit("maxParticlesPerTick");
    reveal_strlit("menuCollapsed");
    reveal_strlit("mipmapLevels");
    reveal_strlit("profile");
    reveal_strlit("reduceBackgroundFps");
    reveal_strlit("renderDistance");
    reveal_strlit("serverProfiles");
    reveal_strlit("showArmor");
    reveal_strlit("showAttackCooldown");
    reveal_strlit("showBiome");
    reveal_strlit("showCompatibility");
    reveal_strlit("showCoordinates");
    reveal_strlit("showCps");
    reveal_strlit("showDirection");
    reveal_strlit("showEffects");
    reveal_strlit("showFps");
    reveal_strlit("showFrameTime");
    reveal_strlit("showItemCounters");
    reveal_strlit("showKeystrokes");
    reveal_strlit("showMemory");
    reveal_strlit("showPing");
    reveal_strlit("showSessionMetrics");
    reveal_strlit("simulationDistance");
    reveal_strlit("targetFps");
    reveal_strlit("viewBobbing");
    reveal_with_fuel(lex_le, 10);
    let k = client_config_keys();
    assert(lex_le(k[0], k[1]) && k[0] != k[1]);
    assert(lex_le(k[1], k[2]) && k[1] != k[2]);
    assert(lex_le(k[2], k[3]) && k[2] != k[3]);
    assert(lex_le(k[3], k[4]) && k[3] != k[4]);
    assert(lex_le(k[4], k[5]) && k[4] != k[5]);
    assert(lex_le(k[5], k[6]) && k[5] != k[6]);
    assert(lex_le(k[6], k[7]) && k[6] != k[7]);
    assert(lex_le(k[7], k[8]) && k[7] != k[8]);
    assert(lex_le(k[8], k[9]) && k[8] != k[9]);
    assert(lex_le(k[9], k[10]) && k[9] != k[10]);
    assert(lex_le(k[10], k[11]) && k[10] != k[11]);
    assert(lex_le(k[11], k[12]) && k[11] != k[12]);
    assert(lex_le(k[12], k[13]) && k[12] != k[13]);
    assert(lex_le(k[13], k[14]) && k[13] != k[14]);
    assert(lex_le(k[14], k[15]) && k[14] != k[15]);
    assert(lex_le(k[15], k[16]) && k[15] != k[16]);
    assert(lex_le(k[16], k[17]) && k[16] != k[17]);
    assert(lex_le(k[17], k[18]) && k[17] != k[18]);
    assert(lex_le(k[18], k[19]) && k[18] != k[19]);
    assert(lex_le(k[19], k[20]) && k[19] != k[20]);
    assert(lex_le(k[20], k[21]) && k[20] != k[21]);
    assert(lex_le(k[21], k[22]) && k[21] != k[22]);
    assert(lex_le(k[22], k[23]) && k[22] != k[23]);
    assert(lex_le(k[23], k[24]) && k[23] != k[24]);
    assert(lex_le(k[24], k[25]) && k[24] != k[25]);
    assert(lex_le(k[25], k[26]) && k[25] != k[26]);
    assert(lex_le(k[26], k[27]) && k[26] != k[27]);
    assert(lex_le(k[27], k[28]) && k[27] != k[28]);
    assert(lex_le(k[28], k[29]) && k[28] != k[29]);
    assert(lex_le(k[29], k[30]) && k[29] != k[30]);
    assert(lex_le(k[30], k[31]) && k[30] != k[31]);
    assert(lex_le(k[31], k[32]) && k[31] != k[32]);
    assert(lex_le(k[32], k[33]) && k[32] != k[33]);
    assert(lex_le(k[33], k[34]) && k[33] != k[34]);
    assert(lex_le(k[34], k[35]) && k[34] != k[35]);
    assert(lex_le(k[35], k[36]) && k[35] != k[36]);
    assert(lex_le(k[36], k[37]) && k[36] != k[37]);
}

/// Writes the client configuration document: its members go to
/// `serde_json`, which writes them as a pretty-printed object.
pub fn client_config_text(profile: &str, render_distance: u32, simulation_distance: u32, target_fps: u32) -> (r: Result<String, String>)
    ensures
        r is Ok,
        r matches Ok(t) ==> t@ == client_config_document(profile@, render_distance, simulation_distance, target_fps),
{
    let mut e: Vec<(String, ConfigValue)> = Vec::new();
    e.push((to_string("adaptiveParticles"), ConfigValue::Flag(true)));
    e.push((to_string("applyVanillaOptimizations"), ConfigValue::Flag(true)));
    e.push((to_string("backgroundFps"), ConfigValue::Number(30)));
    e.push((to_string("biomeBlendRadius"), ConfigValue::Number(0)));
    e.push((to_string("compactHud"), ConfigValue::Flag(true)));
    e.push((to_string("configVersion"), ConfigValue::Number(4)));
    e.push((to_string("entityDistancePercent"), ConfigValue::Number(50)));
    e.push((to_string("entityShadows"), ConfigValue::Flag(false)));
    e.push((to_string("hudX"), ConfigValue::Number(6)));
    e.push((to_string("hudY"), ConfigValue::Number(6)));
    e.push((to_string("keysXPercent"), ConfigValue::Number(50)));
    e.push((to_string("keysY"), ConfigValue::Number(6)));
    e.push((to_string("limitParticles"), ConfigValue::Flag(true)));
    e.push((to_string("maxParticlesPerTick"), ConfigValue::Number(25)));
    e.push((to_string("menuCollapsed"), ConfigValue::Flag(false)));
    e.push((to_string("mipmapLevels"), ConfigValue::Number(0)));
    e.push((to_string("profile"), ConfigValue::Text(to_string(profile))));
    e.push((to_string("reduceBackgroundFps"), ConfigValue::Flag(true)));
    e.push((to_string("renderDistance"), ConfigValue::Number(render_distance)));
    e.push((to_string("serverProfiles"), ConfigValue::EmptyObject));
    e.push((to_string("showArmor"), ConfigValue::Flag(true)));
    e.push((to_string("showAttackCooldown"), ConfigValue::Flag(true)));
    e.push((to_string("showBiome"), ConfigValue::Flag(false)));
    e.push((to_string("showCompatibility"), ConfigValue::Flag(false)));
    e.push((to_string("showCoordinates"), ConfigValue::Flag(false)));
    e.push((to_string("showCps"), ConfigValue::Flag(true)));
    e.push((to_string("showDirection"), ConfigValue::Flag(true)));
    e.push((to_string("showEffects"), ConfigValue::Flag(true)));
    e.push((to_string("showFps"), ConfigValue::Flag(true)));
    e.push((to_string("showFrameTime"), ConfigValue::Flag(true)));
    e.push((to_string("showItemCounters"), ConfigValue::Flag(true)));
    e.push((to_string("showKeystrokes"), ConfigValue::Flag(true)));
    e.push((to_string("showMemory"), ConfigValue::Flag(false)));
    e.push((to_string("showPing"), ConfigValue::Flag(true)));
    e.push((to_string("showSessionMetrics"), ConfigValue::Flag(true)));
    e.push((to_string("simulationDistance"), ConfigValue::Number(simulation_distance)));
    e.push((to_string("targetFps"), ConfigValue::Number(target_fps)));
    e.push((to_string("viewBobbing"), ConfigValue::Flag(false)));
    let ghost entries = client_config_entries(profile@, render_distance, simulation_distance, target_fps);
    proof {
        lemma_config_numbers();
        reveal_strlit("true");
        reveal_strlit("false");
        reveal_strlit("{}");
    }
    assert(member_texts(e@) =~= entries);
    assert(member_keys(e@) =~= client_config_keys());
    proof {
        lemma_client_config_keys_ascending();
    }
    pretty_json_members(&e)
}

/// The client settings for an instance: frame rate between 30 and 240,
/// render distance between 2 and 32, simulation distance between 5 and 32.
pub fn sync_client_config(
    data_dir: &str,
    instance_id: &str,
    profile: String,
    render_distance: u32,
    simulation_distance: u32,
    target_fps: u32,
) -> (r: Result<ClientSettings, String>)
    ensures
        r is Ok <==> folder_id(instance_id@),
        r matches Err(e) ==> e@ == "Identificador de instancia no válido"@,
        r matches Ok(c) ==> c.profile@ == profile@ && c.target_fps == clamp(target_fps, 30, 240)
            && c.render_distance == clamp(render_distance, 2, 32) && c.simulation_distance == clamp(
            simulation_distance,
            5,
            32,
        ) && c.path@ == join_path(
            join_path(instance_root_path(data_dir@, instance_id@), "config"@),
            "aureus-client.json"@,
        ) && c.document@ == client_config_document(
            profile@,
            c.render_distance,
            c.simulation_distance,
            c.target_fps,
        ),
{
    let root = instance_root(data_dir, instance_id)?;
    let path = join_path_str(join_path_str(root.as_str(), "config").as_str(), "aureus-client.json");
    let render_distance = clamp_u32(render_distance, 2, 32);
    let simulation_distance = clamp_u32(simulation_distance, 5, 32);
    let target_fps = clamp_u32(target_fps, 30, 240);
    let document = client_config_text(profile.as_str(), render_distance, simulation_distance, target_fps)?;
    Ok(ClientSettings { profile, render_distance, simulation_distance, target_fps, path, document })
}

// ---------------------------------------------------------------------------
// Crash reports
// ---------------------------------------------------------------------------

/// What a crash report shows.
#[derive(Clone, Debug)]
pub struct CrashAnalysis {
    pub detected: bool,
    pub summary: String,
    pub suspected_mods: Vec<String>,
    pub actions: Vec<String>,
}

/// A file that may be the latest crash report or log.
#[derive(Clone, Debug)]
pub struct FileStamp {
    pub path: String,
    pub is_file: bool,
    /// Modification time; `None` when it could not be read.
    pub modified: Option<u128>,
}

/// `Option` order: nothing before something, then by value.
pub open spec fn stamp_newer(a: Option<u128>, b: Option<u128>) -> bool {
    match (a, b) {
        (Some(x), Some(y)) => x > y,
        (Some(_), None) => true,
        _ => false,
    }
}

/// The file kept after looking at `fs` in order, starting from `latest`: a
/// file replaces the one kept when none is kept yet or it is strictly newer.
pub open spec fn latest_of(fs: Seq<FileStamp>, latest: Option<FileStamp>) -> Option<FileStamp>
    decreases fs.len(),
{
    if fs.len() == 0 {
        latest
    } else {
        let e = fs[0];
        let next = if e.is_file && match latest {
            None => true,
            Some(l) => stamp_newer(e.modified, l.modified),
        } {
            Some(e)
        } else {
            latest
        };
        latest_of(fs.drop_first(), next)
    }
}

fn newer(a: Option<u128>, b: Option<u128>) -> (r: bool)
    ensures
        r == stamp_newer(a, b),
{
    match (a, b) {
        (Some(x), Some(y)) => x > y,
        (Some(_), None) => true,
        _ => false,
    }
}

/// The latest crash report or log among the files listed, in listing
/// order.
pub fn latest_crash_file(files: &Vec<FileStamp>) -> (r: Option<usize>)
    ensures
        match latest_of(files@, None) {
            Some(f) => r matches Some(i) && i < files@.len() && files@[i as int] == f,
            None => r is None,
        },
{
    let mut best: Option<usize> = None;
    let mut i: usize = 0;
    assert(files@.skip(0) =~= files@);
    while i < files.len()
        invariant
            0 <= i <= files.len(),
            best matches Some(b) ==> b < i,
            latest_of(files@, None) == latest_of(
                files@.skip(i as int),
                match best {
                    Some(b) => Some(files@[b as int]),
                    None => None,
                },
            ),
        decreases files.len() - i,
    {
        proof {
            assert(files@.skip(i as int).drop_first() =~= files@.skip(i + 1));
            assert(files@.skip(i as int)[0] == files@[i as int]);
        }
        let take = files[i].is_file && match best {
            None => true,
            Some(b) => newer(files[i].modified, files[b].modified),
        };
        if take {
            best = Some(i);
        }
        i += 1;
    }
    proof {
        assert(files@.skip(files.len() as int) =~= Seq::<FileStamp>::empty());
    }
    best
}

/// A lowercased log line that blames a mod or mixin failure.
pub open spec fn suspect_line(lower: Seq<char>) -> bool {
    (contains(lower, "mod"@) || contains(lower, "mixin"@)) && (contains(lower, "caused by"@)
        || contains(lower, "failed"@) || contains(lower, "exception"@))
}

/// Whether a lowercased line blames a mod or mixin failure.
pub fn is_suspect_line(lower: &str) -> (r: bool)
    ensures
        r == suspect_line(lower@),
{
    (contains_str(lower, "mod") || contains_str(lower, "mixin")) && (contains_str(
        lower,
        "caused by",
    ) || contains_str(lower, "failed") || contains_str(lower, "exception"))
}

/// How a suspect line is reported: trimmed, at most 140 characters.
pub open spec fn line_sample(line: Seq<char>) -> Seq<char> {
    take_chars(trim(line), 140)
}

/// The distinct samples of suspect lines, in order, stopping once there are
/// five.
pub open spec fn collect_suspects(ls: Seq<Seq<char>>, mods: Seq<Seq<char>>) -> Seq<Seq<char>>
    decreases ls.len(),
{
    if ls.len() == 0 {
        mods
    } else if suspect_line(crate::text::lowercase(ls[0])) {
        let s = line_sample(ls[0]);
        let m2 = if mods.contains(s) {
            mods
        } else {
            mods.push(s)
        };
        if m2.len() == 5 {
            m2
        } else {
            collect_suspects(ls.drop_first(), m2)
        }
    } else {
        collect_suspects(ls.drop_first(), mods)
    }
}

/// The summary of a crash report.
pub open spec fn crash_summary(text: Seq<char>) -> Seq<char> {
    if contains(text, "OutOfMemoryError"@) {
        "Minecraft agotó la memoria asignada"@
    } else if contains(text, "MixinApplyError"@) {
        "Un mod o mixin es incompatible"@
    } else if contains(text, "UnsupportedClassVersionError"@) {
        "La versión de Java no es compatible"@
    } else {
        "Minecraft terminó con un error registrado"@
    }
}

/// What a crash report is taken to show: running out of memory comes
/// first, then an incompatible mod or mixin, then a Java runtime too old
/// for the game's classes; any other report is a logged error.
pub proof fn crash_causes_are_recognised(text: Seq<char>)
    ensures
        contains(text, "OutOfMemoryError"@) ==> crash_summary(text)
            == "Minecraft agotó la memoria asignada"@,
        !contains(text, "OutOfMemoryError"@) && contains(text, "MixinApplyError"@)
            ==> crash_summary(text) == "Un mod o mixin es incompatible"@,
        !contains(text, "OutOfMemoryError"@) && !contains(text, "MixinApplyError"@) && contains(
            text,
            "UnsupportedClassVersionError"@,
        ) ==> crash_summary(text) == "La versión de Java no es compatible"@,
        !contains(text, "OutOfMemoryError"@) && !contains(text, "MixinApplyError"@) && !contains(
            text,
            "UnsupportedClassVersionError"@,
        ) ==> crash_summary(text) == "Minecraft terminó con un error registrado"@,
{
}

/// The analysis when there is no crash report.
pub fn no_crash_found() -> (r: CrashAnalysis)
    ensures
        !r.detected,
        r.summary@ == "No se encontraron cierres registrados"@,
        r.suspected_mods@.len() == 0,
        r.actions@.len() == 0,
{
    CrashAnalysis {
        detected: false,
        summary: to_string("No se encontraron cierres registrados"),
        suspected_mods: Vec::new(),
        actions: Vec::new(),
    }
}

/// The first `n` characters of a string.
fn take_chars_str(s: &str, n: usize) -> (r: String)
    ensures
        r@ == take_chars(s@, n as nat),
{
    let v = chars_of(s);
    if n < v.len() {
        let r = crate::text::string_of_range(&v, 0, n);
        assert(v@.subrange(0, n as int) =~= s@.take(n as int));
        r
    } else {
        assert(v@.subrange(0, v@.len() as int) =~= s@);
        crate::text::string_of_range(&v, 0, v.len())
    }
}

/// Analyses the text of a crash report.
pub fn analyze_crash_text(text: &str) -> (r: CrashAnalysis)
    ensures
        r.detected,
        views(r.suspected_mods@) == collect_suspects(lines(text@), seq![]),
        r.summary@ == crash_summary(text@),
        views(r.actions@) == seq![
            "Crear respaldo"@,
            "Desactivar contenido sospechoso"@,
            "Reparar archivos oficiales"@,
        ],
{
    let ls = split_lines(&chars_of(text));
    let mut mods: Vec<String> = Vec::new();
    let mut i: usize = 0;
    assert(views(ls@).skip(0) =~= views(ls@));
    assert(views(mods@) =~= Seq::<Seq<char>>::empty());
    while i < ls.len() && mods.len() < 5
        invariant
            0 <= i <= ls.len(),
            views(ls@) == lines(text@),
            views(mods@).len() <= 5,
            collect_suspects(lines(text@), seq![]) == if views(mods@).len() == 5 {
                views(mods@)
            } else {
                collect_suspects(views(ls@).skip(i as int), views(mods@))
            },
        decreases ls.len() - i,
    {
        proof {
            assert(views(ls@).skip(i as int).drop_first() =~= views(ls@).skip(i + 1));
            assert(views(ls@).skip(i as int)[0] == ls@[i as int]@);
        }
        let lower = crate::text::to_lowercase(ls[i].as_str());
        if is_suspect_line(lower.as_str()) {
            let trimmed = trim_str(ls[i].as_str());
            let sample = take_chars_str(trimmed.as_str(), 140);
            if !crate::version_manager::contains_string(&mods, sample.as_str()) {
                let ghost before = views(mods@);
                mods.push(sample);
                assert(views(mods@) =~= before.push(sample@));
            }
        }
        i += 1;
    }
    proof {
        if views(mods@).len() < 5 {
            assert(views(ls@).skip(i as int) =~= Seq::<Seq<char>>::empty());
        }
    }
    let summary = if contains_str(text, "OutOfMemoryError") {
        "Minecraft agotó la memoria asignada"
    } else if contains_str(text, "MixinApplyError") {
        "Un mod o mixin es incompatible"
    } else if contains_str(text, "UnsupportedClassVersionError") {
        "La versión de Java no es compatible"
    } else {
        "Minecraft terminó con un error registrado"
    };
    let mut actions: Vec<String> = Vec::new();
    actions.push(to_string("Crear respaldo"));
    actions.push(to_string("Desactivar contenido sospechoso"));
    actions.push(to_string("Reparar archivos oficiales"));
    assert(views(actions@) =~= seq![
        "Crear respaldo"@,
        "Desactivar contenido sospechoso"@,
        "Reparar archivos oficiales"@,
    ]);
    CrashAnalysis { detected: true, summary: to_string(summary), suspected_mods: mods, actions }
}

/// The analysis of the latest crash report or log, when there is one.
pub fn analyze_latest_crash(text: Option<&str>) -> (r: CrashAnalysis)
    ensures
        text is None ==> !r.detected && r.summary@ == "No se encontraron cierres registrados"@
            && r.suspected_mods@.len() == 0 && r.actions@.len() == 0,
        text matches Some(t) ==> {
            &&& r.detected
            &&& views(r.suspected_mods@) == collect_suspects(lines(t@), seq![])
            &&& r.summary@ == crash_summary(t@)
            &&& views(r.actions@) == seq![
                "Crear respaldo"@,
                "Desactivar contenido sospechoso"@,
                "Reparar archivos oficiales"@,
            ]
        },
{
    match text {
        Some(t) => analyze_crash_text(t),
        None => no_crash_found(),
    }
}


// ---------------------------------------------------------------------------
// Clock
// ---------------------------------------------------------------------------

/// The current time in whole seconds since the Unix epoch (0 for a clock
/// set before it), from `SystemTime::now`. Nothing is promised of the value.
#[verifier::external_body]
pub(crate) fn now() -> u64 {
    std::time::SystemTime::now().duration_since(std::time::UNIX_EPOCH).unwrap_or_default().as_secs()
}

/// Saves an instance, stamping a new one with the current time.
pub fn upsert_managed_instance(items: Vec<ManagedInstance>, instance: ManagedInstance) -> (r: Result<
    (Vec<ManagedInstance>, ManagedInstance),
    String,
>)
    ensures
        r is Ok <==> acceptable(instance@),
        r matches Ok((list, stored)) ==> exists|t: u64|
            #![trigger normalized(instance@, t)]
            stored@ == normalized(instance@, t) && instance_views(list@) == upserted(
                instance_views(items@),
                normalized(instance@, t),
            ),
        !valid_id(instance@.id) ==> (r matches Err(e) && e@
            == "Identificador de instancia no válido"@),
        valid_id(instance@.id) && trim(instance@.name).len() == 0 ==> (r matches Err(e) && e@
            == "La instancia necesita un nombre"@),
{
    let t = now();
    upsert_managed_instance_at(items, instance, t)
}

/// Records the Java runtime of a prepared version at the current time.
pub fn register_prepared_instance(
    items: Vec<ManagedInstance>,
    id: &str,
    version: &str,
    java_path: Option<String>,
) -> (r: Result<Vec<ManagedInstance>, String>)
    ensures
        exists|t: u64|
            #![trigger prepared_default(id@, version@, t)]
            {
                let base = match find_instance(instance_views(items@), id@) {
                    Some(k) => instance_views(items@)[k],
                    None => prepared_default(id@, version@, t),
                };
                let updated = InstanceView { java_path: opt_view(java_path), ..base };
                &&& r is Ok <==> acceptable(updated)
                &&& r matches Ok(list) ==> instance_views(list@) == upserted(
                    instance_views(items@),
                    normalized(updated, t),
                )
            },
{
    let t = now();
    register_prepared_instance_at(items, id, version, java_path, t)
}

/// Copies an instance, stamping the copy with the current time.
pub fn duplicate_managed_instance(
    items: Vec<ManagedInstance>,
    source_id: &str,
    new_id: &str,
    new_name: String,
) -> (r: Result<(Vec<ManagedInstance>, ManagedInstance), String>)
    ensures
        r is Ok <==> (valid_id(source_id@) && valid_id(new_id@) && find_instance(
            instance_views(items@),
            new_id@,
        ) is None && find_instance(instance_views(items@), source_id@) is Some),
        !valid_id(source_id@) || !valid_id(new_id@) ==> (r matches Err(e) && e@
            == "Identificador de instancia no válido"@),
        valid_id(source_id@) && valid_id(new_id@) && find_instance(
            instance_views(items@),
            new_id@,
        ) is Some ==> (r matches Err(e) && e@ == "Ya existe una instancia con ese identificador"@),
        valid_id(source_id@) && valid_id(new_id@) && find_instance(
            instance_views(items@),
            new_id@,
        ) is None && find_instance(instance_views(items@), source_id@) is None ==> (r matches Err(
            e,
        ) && e@ == "No existe la instancia original"@),
        r matches Ok((list, copy)) ==> {
            let src = instance_views(items@)[find_instance(
                instance_views(items@),
                source_id@,
            )->0];
            &&& copy@ == InstanceView {
                id: new_id@,
                name: new_name@,
                created_at: copy@.created_at,
                ..src
            }
            &&& instance_views(list@) == instance_views(items@).push(copy@)
        },
{
    let t = now();
    duplicate_managed_instance_at(items, source_id, new_id, new_name, t)
}

/// The source and destination of a backup taken now.
pub fn create_instance_backup(data_dir: &str, instance_id: &str) -> (r: Result<
    (String, String),
    String,
>)
    ensures
        r is Ok <==> folder_id(instance_id@),
        r matches Err(e) ==> e@ == "Identificador de instancia no válido"@,
        r matches Ok((src, dst)) ==> src@ == instance_root_path(data_dir@, instance_id@) && exists|
            t: u64,
        |
            #![trigger decimal(t as nat)]
            dst@ == join_path(
            join_path(data_dir@, "backups"@),
            instance_id@ + "-"@ + decimal(t as nat),
        ),
{
    let t = now();
    create_instance_backup_at(data_dir, instance_id, t)
}

/// The archive that an export made now writes.
pub fn export_instance(data_dir: &str, instance_id: &str) -> (r: Result<(String, String), String>)
    ensures
        r is Ok <==> folder_id(instance_id@),
        r matches Err(e) ==> e@ == "Identificador de instancia no válido"@,
        r matches Ok((src, out)) ==> src@ == instance_root_path(data_dir@, instance_id@) && exists|
            t: u64,
        |
            #![trigger decimal(t as nat)]
            out@ == join_path(
            join_path(data_dir@, "exports"@),
            instance_id@ + "-"@ + decimal(t as nat) + ".aureuspack"@,
        ),
{
    let t = now();
    export_archive_path(data_dir, instance_id, t)
}

/// Where an entry of an imported archive is written: the path that the
/// archive library found enclosed in the archive, below the instance
/// folder; an entry without such a path makes the import fail.
pub fn import_entry_target(destination: &str, enclosed: Option<String>) -> (r: Result<String, String>)
    ensures
        match enclosed {
            Some(p) => r matches Ok(t) && t@ == join_path(destination@, p@),
            None => r matches Err(e) && e@ == "El paquete contiene rutas inseguras"@,
        },
{
    match enclosed {
        Some(p) => Ok(join_path_str(destination, p.as_str())),
        None => Err(to_string("El paquete contiene rutas inseguras")),
    }
}

/// Registers an imported archive as an instance: the id is checked, and
/// the instance is saved with default settings at the current time.
pub fn import_instance(items: Vec<ManagedInstance>, new_id: &str, version: String) -> (r: Result<
    (Vec<ManagedInstance>, ManagedInstance),
    String,
>)
    ensures
        r is Ok <==> valid_id(new_id@),
        r matches Err(e) ==> e@ == "Identificador de instancia no válido"@,
        r matches Ok((list, stored)) ==> exists|t: u64|
            #![trigger imported_view(new_id@, version@, t)]
            {
                &&& stored@ == normalized(imported_view(new_id@, version@, t), t)
                &&& instance_views(list@) == upserted(
                    instance_views(items@),
                    normalized(imported_view(new_id@, version@, t), t),
                )
            },
{
    validate_id(new_id)?;
    let t = now();
    let fresh = imported_instance(new_id, version, t);
    proof {
        reveal_strlit("Importada ");
        assert(trim(fresh@.name).len() > 0) by {
            lemma_trim_nonblank_prefix(fresh@.name);
        }
    }
    upsert_managed_instance_at(items, fresh, t)
}

/// A string that starts with a non-whitespace character is not blank.
proof fn lemma_trim_nonblank_prefix(s: Seq<char>)
    requires
        s.len() > 0,
        !crate::text::is_whitespace(s[0]),
    ensures
        trim(s).len() > 0,
{
    crate::text::lemma_trim_end_keeps(s);
}

// ---------------------------------------------------------------------------
// Modrinth search
// ---------------------------------------------------------------------------

/// A search result from Modrinth.
#[derive(Clone, Debug)]
pub struct ModrinthHit {
    pub project_id: String,
    pub slug: String,
    pub title: String,
    pub description: String,
    pub downloads: u64,
    pub icon_url: Option<String>,
}

/// Calls `serde_json::to_string` on a list of lists of strings; the text is
/// `json_string_lists` of the lists: compact arrays, strings escaped by the
/// crate's escape table (`"`, `\` and control characters). Sequences and strings are written by
/// `serialize_seq` and `serialize_str`, which fail only when the writer does,
/// and the writer here is a `Vec<u8>`, which never fails: so the call always
/// succeeds.
#[verifier::external_body]
fn string_lists_to_json(lists: &Vec<Vec<String>>) -> (r: Result<String, String>)
    ensures
        r is Ok,
        r matches Ok(t) ==> t@ == json_string_lists(lists@.map_values(|l: Vec<String>| views(l@))),
{
    serde_json::to_string(lists).map_err(|e| e.to_string())
}

/// The facets of a Modrinth search: Fabric mods for a game version.
pub open spec fn search_facets(version: Seq<char>) -> Seq<Seq<Seq<char>>> {
    seq![seq!["project_type:mod"@], seq!["categories:fabric"@], seq!["versions:"@ + version]]
}

/// The `facets` parameter of a Modrinth search for Fabric mods of a game
/// version.
pub fn modrinth_facets(version: &str) -> (r: Result<String, String>)
    ensures
        r is Ok,
        r matches Ok(t) ==> t@ == json_string_lists(search_facets(version@)),
{
    let mut a: Vec<String> = Vec::new();
    a.push(to_string("project_type:mod"));
    let mut b: Vec<String> = Vec::new();
    b.push(to_string("categories:fabric"));
    let mut c: Vec<String> = Vec::new();
    c.push(concat2("versions:", version));
    let mut lists: Vec<Vec<String>> = Vec::new();
    lists.push(a);
    lists.push(b);
    lists.push(c);
    proof {
        assert(views(lists@[0]@) =~= seq!["project_type:mod"@]);
        assert(views(lists@[1]@) =~= seq!["categories:fabric"@]);
        assert(views(lists@[2]@) =~= seq!["versions:"@ + version@]);
        assert(lists@.map_values(|l: Vec<String>| views(l@)) =~= search_facets(version@));
    }
    string_lists_to_json(&lists)
}

/// The query of a Modrinth search for Fabric mods of a game version: the
/// text, at most 20 results, and the facets as JSON.
pub fn search_modrinth(query: &str, version: &str) -> (r: Result<Vec<(String, String)>, String>)
    ensures
        r is Ok,
        r matches Ok(v) ==> crate::auth::pair_views(v@) == seq![
            ("query"@, query@),
            ("limit"@, "20"@),
            ("facets"@, json_string_lists(search_facets(version@))),
        ],
{
    let facets = modrinth_facets(version)?;
    let mut v: Vec<(String, String)> = Vec::new();
    v.push((to_string("query"), to_string(query)));
    v.push((to_string("limit"), to_string("20")));
    v.push((to_string("facets"), facets));
    assert(crate::auth::pair_views(v@) =~= seq![
        ("query"@, query@),
        ("limit"@, "20"@),
        ("facets"@, json_string_lists(search_facets(version@))),
    ]);
    Ok(v)
}

/// The report of an installation from Modrinth.
pub fn install_summary(installed: u64, unavailable: u64) -> (r: String)
    ensures
        r@ == decimal(installed as nat) + " archivos instalados; "@ + decimal(unavailable as nat)
            + " no disponibles"@,
{
    let mut r = String::new();
    push_decimal(&mut r, installed);
    push_str(&mut r, " archivos instalados; ");
    push_decimal(&mut r, unavailable);
    push_str(&mut r, " no disponibles");
    r
}

} // verus!
