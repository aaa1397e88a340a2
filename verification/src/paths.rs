//! The launcher's file layout. Paths are text with `/` separators; joining
//! follows `PathBuf::push` on such paths: an absolute part replaces the
//! base, and one separator is placed between a non-empty base and the part.
use vstd::prelude::*;
use crate::text::{
    chars_of, concat2, concat3, is_ascii_alphanumeric, push_str, replace_char, replace_char_str,
    split_char, split_on, str_equal, string_of_range, to_string, views,
};

verus! {

pub open spec fn join_path(base: Seq<char>, part: Seq<char>) -> Seq<char> {
    if part.len() > 0 && part[0] == '/' {
        part
    } else if base.len() == 0 || base.last() == '/' {
        base + part
    } else {
        base + seq!['/'] + part
    }
}

/// `base.join(part)`.
pub fn join_path_str(base: &str, part: &str) -> (r: String)
    ensures
        r@ == join_path(base@, part@),
{
    let p = chars_of(part);
    if p.len() > 0 && p[0] == '/' {
        return to_string(part);
    }
    let b = chars_of(base);
    if b.len() == 0 || b[b.len() - 1] == '/' {
        concat2(base, part)
    } else {
        proof {
            reveal_strlit("/");
        }
        concat3(base, "/", part)
    }
}

/// A character allowed in instance identifiers and version names.
pub open spec fn is_name_char(c: char) -> bool {
    is_ascii_alphanumeric(c) || c == '.' || c == '-' || c == '_'
}

pub open spec fn valid_id(id: Seq<char>) -> bool {
    id.len() > 0 && forall|i: int| 0 <= i < id.len() ==> is_name_char(#[trigger] id[i])
}

pub fn name_char(c: char) -> (r: bool)
    ensures
        r == is_name_char(c),
{
    ('a' <= c && c <= 'z') || ('A' <= c && c <= 'Z') || ('0' <= c && c <= '9') || c == '.' || c
        == '-' || c == '_'
}

/// Whether every character is a name character.
pub fn all_name_chars(v: &Vec<char>) -> (r: bool)
    ensures
        r == forall|i: int| 0 <= i < v@.len() ==> is_name_char(#[trigger] v@[i]),
{
    let mut i: usize = 0;
    while i < v.len()
        invariant
            0 <= i <= v.len(),
            forall|j: int| 0 <= j < i ==> is_name_char(#[trigger] v@[j]),
        decreases v.len() - i,
    {
        if !name_char(v[i]) {
            return false;
        }
        i += 1;
    }
    true
}

/// Instance identifiers are non-empty and made of ASCII letters, digits,
/// `.`, `-` and `_`.
pub fn validate_id(id: &str) -> (r: Result<(), String>)
    ensures
        r is Ok <==> valid_id(id@),
        r matches Err(e) ==> e@ == "Identificador de instancia no válido"@,
{
    let v = chars_of(id);
    if v.len() == 0 || !all_name_chars(&v) {
        Err(to_string("Identificador de instancia no válido"))
    } else {
        Ok(())
    }
}

/// The file that lists the launcher's own instances.
pub fn instances_path(data_dir: &str) -> (r: String)
    ensures
        r@ == join_path(data_dir@, "instances.json"@),
{
    join_path_str(data_dir, "instances.json")
}

/// The file that remembers the selected Minecraft version.
pub fn selected_version_path(data_dir: &str) -> (r: String)
    ensures
        r@ == join_path(data_dir@, "selected-version.txt"@),
{
    join_path_str(data_dir, "selected-version.txt")
}

/// The file that remembers the selected instance.
pub fn selected_instance_path(data_dir: &str) -> (r: String)
    ensures
        r@ == join_path(data_dir@, "selected-instance.txt"@),
{
    join_path_str(data_dir, "selected-instance.txt")
}

/// The file that lists the managed instances.
pub fn instances_file(data_dir: &str) -> (r: String)
    ensures
        r@ == join_path(data_dir@, "managed-instances.json"@),
{
    join_path_str(data_dir, "managed-instances.json")
}

pub open spec fn instance_root_path(data_dir: Seq<char>, id: Seq<char>) -> Seq<char> {
    join_path(join_path(data_dir, "instances-data"@), id)
}

/// An identifier that names a folder of its own: a valid identifier other
/// than `.` and `..`, which would name the parent folder or the folder of
/// every instance.
pub open spec fn folder_id(id: Seq<char>) -> bool {
    valid_id(id) && id != "."@ && id != ".."@
}

/// One path component that names a child folder: non-empty, without a
/// separator, and neither `.` nor `..`.
pub open spec fn child_component(c: Seq<char>) -> bool {
    c.len() > 0 && !c.contains('/') && c != "."@ && c != ".."@
}

/// `p` is the folder `q` itself or lies below it: `q` is followed in `p` by
/// a separator (or already ends with one).
pub open spec fn path_within(p: Seq<char>, q: Seq<char>) -> bool {
    p == q || (q.len() < p.len() && p.take(q.len() as int) == q && ((q.len() > 0 && q.last()
        == '/') || p[q.len() as int] == '/'))
}

/// `p` lies below the folder `q` as exactly one more component.
pub open spec fn child_of(p: Seq<char>, q: Seq<char>) -> bool {
    exists|c: Seq<char>| #[trigger] child_component(c) && p == join_path(q, c)
}

/// A folder identifier is one child component.
pub proof fn lemma_folder_id_is_child(id: Seq<char>)
    requires
        folder_id(id),
    ensures
        child_component(id),
{
    if id.contains('/') {
        let i = choose|i: int| 0 <= i < id.len() && id[i] == '/';
        assert(is_name_char(id[i]));
    }
}

/// Instances are isolated: the folder of each accepted identifier is one
/// component below `<data>/instances-data`, and of two different accepted
/// identifiers neither folder is the other or lies inside it.
pub proof fn instances_are_isolated(data_dir: Seq<char>, a: Seq<char>, b: Seq<char>)
    requires
        folder_id(a),
        folder_id(b),
        a != b,
    ensures
        child_of(instance_root_path(data_dir, a), join_path(data_dir, "instances-data"@)),
        child_of(instance_root_path(data_dir, b), join_path(data_dir, "instances-data"@)),
        path_within(instance_root_path(data_dir, a), join_path(data_dir, "instances-data"@)),
        instance_root_path(data_dir, a) != join_path(data_dir, "instances-data"@),
        !path_within(instance_root_path(data_dir, a), instance_root_path(data_dir, b)),
        !path_within(instance_root_path(data_dir, b), instance_root_path(data_dir, a)),
{
    reveal_strlit("instances-data");
    reveal_strlit(".");
    reveal_strlit("..");
    lemma_folder_id_is_child(a);
    lemma_folder_id_is_child(b);
    let base = join_path(data_dir, "instances-data"@);
    assert(base.len() > 0);
    assert(is_name_char(a[0]) && is_name_char(b[0]));
    let prefix = if base.last() == '/' {
        base
    } else {
        base + seq!['/']
    };
    let ra = prefix + a;
    let rb = prefix + b;
    assert(join_path(base, a) == ra);
    assert(join_path(base, b) == rb);
    assert(ra.take(base.len() as int) =~= base);
    lemma_not_within(prefix, a, b);
    lemma_not_within(prefix, b, a);
}

/// Below one folder, a child is not inside a different child.
proof fn lemma_not_within(prefix: Seq<char>, a: Seq<char>, b: Seq<char>)
    requires
        child_component(a),
        child_component(b),
        a != b,
    ensures
        !path_within(prefix + a, prefix + b),
{
    let p = prefix + a;
    let q = prefix + b;
    if p == q {
        assert(a =~= p.subrange(prefix.len() as int, p.len() as int));
        assert(b =~= q.subrange(prefix.len() as int, q.len() as int));
    }
    if q.len() < p.len() && p.take(q.len() as int) == q {
        let k = q.len() as int;
        assert(b.last() == q.last());
        assert(p[k - 1] == q[k - 1]);
        assert(p[k] == a[k - prefix.len()]);
        assert(b.last() == a[b.len() - 1]);
        if q.last() == '/' {
            assert(b.contains('/'));
        } else if p[k] == '/' {
            assert(a.contains('/'));
        }
    }
}

/// The directory of an instance: `<data>/instances-data/<id>`, for a valid
/// identifier other than `.` and `..`.
pub fn instance_root(data_dir: &str, id: &str) -> (r: Result<String, String>)
    ensures
        r is Ok <==> valid_id(id@) && id@ != "."@ && id@ != ".."@,
        r matches Ok(p) ==> p@ == instance_root_path(data_dir@, id@),
        r matches Err(e) ==> e@ == "Identificador de instancia no válido"@,
{
    validate_id(id)?;
    if str_equal(id, ".") || str_equal(id, "..") {
        return Err(to_string("Identificador de instancia no válido"));
    }
    let base = join_path_str(data_dir, "instances-data");
    Ok(join_path_str(base.as_str(), id))
}

/// The folder that holds one kind of content.
pub open spec fn content_folder(kind: Seq<char>) -> Option<Seq<char>> {
    if kind == "mod"@ {
        Some("mods"@)
    } else if kind == "resourcepack"@ {
        Some("resourcepacks"@)
    } else if kind == "shader"@ {
        Some("shaderpacks"@)
    } else if kind == "datapack"@ {
        Some("datapacks"@)
    } else {
        None
    }
}

pub fn content_folder_of(kind: &str) -> (r: Option<&'static str>)
    ensures
        r matches Some(f) ==> content_folder(kind@) == Some(f@),
        r is None ==> content_folder(kind@) is None,
{
    if str_equal(kind, "mod") {
        Some("mods")
    } else if str_equal(kind, "resourcepack") {
        Some("resourcepacks")
    } else if str_equal(kind, "shader") {
        Some("shaderpacks")
    } else if str_equal(kind, "datapack") {
        Some("datapacks")
    } else {
        None
    }
}

/// The directory of one kind of content of an instance. The kind is
/// checked first, then the identifier.
pub fn content_directory(data_dir: &str, instance_id: &str, kind: &str) -> (r: Result<
    String,
    String,
>)
    ensures
        r is Ok <==> (content_folder(kind@) is Some && folder_id(instance_id@)),
        r matches Ok(p) ==> p@ == join_path(
            instance_root_path(data_dir@, instance_id@),
            content_folder(kind@)->0,
        ),
        content_folder(kind@) is None ==> (r matches Err(e) && e@ == "Tipo de contenido no válido"@),
        content_folder(kind@) is Some && !folder_id(instance_id@) ==> (r matches Err(e) && e@
            == "Identificador de instancia no válido"@),
{
    let folder = match content_folder_of(kind) {
        Some(f) => f,
        None => return Err(to_string("Tipo de contenido no válido")),
    };
    let root = instance_root(data_dir, instance_id)?;
    Ok(join_path_str(root.as_str(), folder))
}

/// The path of a Maven artifact named `group:artifact:version[:classifier]`
/// below `root`; `None` when the name has fewer than three parts.
pub open spec fn maven_path(root: Seq<char>, name: Seq<char>) -> Option<Seq<char>> {
    let parts = split_char(name, ':');
    if parts.len() < 3 {
        None
    } else {
        let classifier = if parts.len() > 3 {
            "-"@ + parts[3]
        } else {
            seq![]
        };
        Some(
            join_path(
                join_path(
                    join_path(join_path(root, replace_char(parts[0], '.', '/')), parts[1]),
                    parts[2],
                ),
                parts[1] + "-"@ + parts[2] + classifier + ".jar"@,
            ),
        )
    }
}

/// The library file that a Maven coordinate names, below `root`.
pub fn maven_library_path(root: &str, name: &str) -> (r: Option<String>)
    ensures
        r matches Some(p) ==> maven_path(root@, name@) == Some(p@),
        r is None ==> maven_path(root@, name@) is None,
{
    let parts = split_on(&chars_of(name), ':');
    if parts.len() < 3 {
        return None;
    }
    let group = replace_char_str(parts[0].as_str(), '.', '/');
    let mut file = concat3(parts[1].as_str(), "-", parts[2].as_str());
    if parts.len() > 3 {
        push_str(&mut file, "-");
        push_str(&mut file, parts[3].as_str());
    }
    push_str(&mut file, ".jar");
    let p0 = join_path_str(root, group.as_str());
    let p1 = join_path_str(p0.as_str(), parts[1].as_str());
    let p2 = join_path_str(p1.as_str(), parts[2].as_str());
    let result = join_path_str(p2.as_str(), file.as_str());
    proof {
        let ps = split_char(name@, ':');
        assert(ps == views(parts@));
        let classifier = if ps.len() > 3 {
            "-"@ + ps[3]
        } else {
            seq![]
        };
        assert(file@ =~= ps[1] + "-"@ + ps[2] + classifier + ".jar"@);
    }
    Some(result)
}

/// The library file that a Maven coordinate names (the launcher's own copy
/// of the rule, used for Fabric profiles).
pub fn library_path_from_name(root: &str, name: &str) -> (r: Option<String>)
    ensures
        r matches Some(p) ==> maven_path(root@, name@) == Some(p@),
        r is None ==> maven_path(root@, name@) is None,
{
    maven_library_path(root, name)
}


/// The last path component, as `Path::file_name` gives it: empty and `.`
/// components are skipped, and a final `..` has no file name.
pub open spec fn last_component(segs: Seq<Seq<char>>) -> Option<Seq<char>>
    decreases segs.len(),
{
    if segs.len() == 0 {
        None
    } else if segs.last().len() == 0 || segs.last() == "."@ {
        last_component(segs.drop_last())
    } else {
        Some(segs.last())
    }
}

pub open spec fn file_name(p: Seq<char>) -> Option<Seq<char>> {
    match last_component(split_char(p, '/')) {
        Some(s) => if s == ".."@ {
            None
        } else {
            Some(s)
        },
        None => None,
    }
}

/// `Path::file_name`.
pub fn file_name_of(p: &str) -> (r: Option<String>)
    ensures
        r matches Some(s) ==> file_name(p@) == Some(s@),
        r is None ==> file_name(p@) is None,
{
    let segs = split_on(&chars_of(p), '/');
    let mut k: usize = segs.len();
    assert(views(segs@).take(segs@.len() as int) =~= views(segs@));
    while k > 0
        invariant
            k <= segs.len(),
            views(segs@) == split_char(p@, '/'),
            last_component(views(segs@)) == last_component(views(segs@).take(k as int)),
        decreases k,
    {
        let ghost pre = views(segs@).take(k as int);
        proof {
            assert(pre.drop_last() =~= views(segs@).take(k - 1));
            assert(pre.last() == segs@[k - 1]@);
        }
        let seg = &segs[k - 1];
        if !(seg.as_str().is_empty() || str_equal(seg.as_str(), ".")) {
            if str_equal(seg.as_str(), "..") {
                return None;
            }
            return Some(seg.clone());
        }
        k -= 1;
    }
    proof {
        assert(views(segs@).take(0) =~= Seq::<Seq<char>>::empty());
        assert(views(segs@).take(segs@.len() as int) =~= views(segs@));
    }
    None
}

/// Position of the last `c` in `s`, if any.
pub open spec fn last_index_of(s: Seq<char>, c: char) -> Option<int>
    decreases s.len(),
{
    if s.len() == 0 {
        None
    } else if s.last() == c {
        Some(s.len() - 1)
    } else {
        last_index_of(s.drop_last(), c)
    }
}

/// `Path::extension` of a file name: the text after the last `.`, when
/// that dot is not the first character (and the name is not `..`).
pub open spec fn extension(name: Seq<char>) -> Option<Seq<char>> {
    if name == ".."@ {
        None
    } else {
        match last_index_of(name, '.') {
            Some(i) => if i == 0 {
                None
            } else {
                Some(name.skip(i + 1))
            },
            None => None,
        }
    }
}

/// `Path::extension` of a file name.
pub fn extension_of(name: &str) -> (r: Option<String>)
    ensures
        r matches Some(s) ==> extension(name@) == Some(s@),
        r is None ==> extension(name@) is None,
{
    if str_equal(name, "..") {
        return None;
    }
    let v = chars_of(name);
    let mut k: usize = v.len();
    assert(v@.take(v.len() as int) =~= v@);
    while k > 0
        invariant
            k <= v.len(),
            v@ == name@,
            name@ != ".."@,
            last_index_of(v@, '.') == last_index_of(v@.take(k as int), '.'),
        decreases k,
    {
        proof {
            assert(v@.take(k as int).drop_last() =~= v@.take(k - 1));
        }
        if v[k - 1] == '.' {
            if k - 1 == 0 {
                return None;
            }
            assert(v@.subrange(k as int, v@.len() as int) =~= v@.skip(k as int));
            return Some(string_of_range(&v, k, v.len()));
        }
        k -= 1;
    }
    assert(v@.take(v.len() as int) =~= v@);
    None
}

} // verus!
