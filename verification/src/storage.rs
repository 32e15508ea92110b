//! Where the filesystem and the save-record store of an app live on disk.
//!
//! Every app gets `<base>/<app id>/fs/...` for its files and
//! `<base>/<app id>/db/<name>/<record id>` for its record stores. App ids are
//! stripped of separator characters and request paths are reduced to their
//! plain names, so that nothing an app asks for leads outside its directory:
//! every location handed out is the base directory followed by names that
//! are each one directory level (`stays_below`).

use vstd::prelude::*;
use crate::paths::{
    PathPart, PathPartView, StoragePath, StoragePathView, is_component_name,
    normal_parts_are_names, part_views, unix_path_components, path_components,
    lemma_unix_components_are_names,
};
use crate::text::{
    decimal_digits, is_digit, lemma_decimal_digits_injective, lemma_parse_decimal_round_trip, parse_u32,
    parse_u32_chars, push_char, push_decimal,
};

verus! {

/// Characters removed from app ids: both path separators and NUL.
pub open spec fn is_separator_char(c: char) -> bool {
    c == '/' || c == '\\' || c == '\0'
}

/// `s` with every separator character removed.
pub open spec fn strip_separators(s: Seq<char>) -> Seq<char>
    decreases s.len(),
{
    if s.len() == 0 {
        s
    } else if is_separator_char(s.last()) {
        strip_separators(s.drop_last())
    } else {
        strip_separators(s.drop_last()).push(s.last())
    }
}

/// The directory name an app id is stored under, if it has one: the id
/// without separators, unless that is empty, `.` or `..`.
pub open spec fn sanitized_aid(aid: Seq<char>) -> Option<Seq<char>> {
    let s = strip_separators(aid);
    if s.len() == 0 || s == seq!['.'] || s == seq!['.', '.'] {
        None
    } else {
        Some(s)
    }
}

/// A name that stays one directory level: non-empty, not `.` or `..`, and
/// free of separator characters.
pub open spec fn is_single_name(s: Seq<char>) -> bool {
    &&& s.len() > 0
    &&& s != seq!['.']
    &&& s != seq!['.', '.']
    &&& forall|i: int| 0 <= i < s.len() ==> !is_separator_char(#[trigger] s[i])
}

/// Whether `p` lies below `base`: same root, the base's segments first, then
/// at least one more segment, each a name of one directory level.
pub open spec fn stays_below(p: StoragePathView, base: StoragePathView) -> bool {
    &&& p.root == base.root
    &&& p.parts.len() > base.parts.len()
    &&& p.parts.take(base.parts.len() as int) == base.parts
    &&& forall|k: int|
        base.parts.len() <= k < p.parts.len() ==> is_component_name(#[trigger] p.parts[k])
}

/// Removes separator characters from an app id; `None` when nothing usable
/// is left.
pub fn sanitize_aid(aid: &str) -> (res: Option<String>)
    ensures
        res.deep_view() == sanitized_aid(aid@),
{
    let mut out = String::new();
    for c in it: aid.chars()
        invariant
            it.seq() == aid@,
            out@ == strip_separators(aid@.take(it.index() as int)),
    {
        assert(c == aid@[it.index() as int]);
        assert(aid@.take(it.index() as int + 1).drop_last() =~= aid@.take(it.index() as int));
        if !(c == '/' || c == '\\' || c == '\0') {
            push_char(&mut out, c);
        }
    }
    assert(aid@.take(aid@.len() as int) =~= aid@);
    let len = out.as_str().unicode_len();
    if len == 0 {
        return None;
    }
    let first = out.as_str().get_char(0);
    if len == 1 && first == '.' {
        assert(out@ =~= seq!['.']);
        return None;
    }
    if len == 2 && first == '.' && out.as_str().get_char(1) == '.' {
        assert(out@ =~= seq!['.', '.']);
        return None;
    }
    proof {
        if out@ == seq!['.'] {
            assert(out@[0] == '.');
        }
        if out@ == seq!['.', '.'] {
            assert(out@[0] == '.' && out@[1] == '.');
        }
    }
    Some(out)
}

/// Whether some component would leave the directory it is resolved in.
pub open spec fn escapes(parts: Seq<PathPartView>) -> bool {
    exists|i: int|
        0 <= i < parts.len() && (#[trigger] parts[i] is RootDir || parts[i] is ParentDir
            || parts[i] is Prefix)
}

/// The plain names among `parts`, in order.
pub open spec fn normal_names(parts: Seq<PathPartView>) -> Seq<Seq<char>>
    decreases parts.len(),
{
    if parts.len() == 0 {
        Seq::empty()
    } else {
        match parts.last() {
            PathPartView::Normal(name) => normal_names(parts.drop_last()).push(name),
            _ => normal_names(parts.drop_last()),
        }
    }
}

/// The relative path that components reduce to: their plain names, unless a
/// component escapes or no name is left.
pub open spec fn normalized(parts: Seq<PathPartView>) -> Option<Seq<Seq<char>>> {
    if escapes(parts) || normal_names(parts).len() == 0 {
        None
    } else {
        Some(normal_names(parts))
    }
}

/// Reduces path components to the plain names they hold: `.` is dropped,
/// a root, a prefix or `..` refuses the whole path, as does a path with no
/// name at all.
pub fn normalize_components(parts: &Vec<PathPart>) -> (res: Option<Vec<String>>)
    ensures
        res.deep_view() == normalized(part_views(parts@)),
{
    let ghost views = part_views(parts@);
    let mut names: Vec<String> = Vec::new();
    for i in 0..parts.len()
        invariant
            views == part_views(parts@),
            !escapes(views.take(i as int)),
            names.deep_view() == normal_names(views.take(i as int)),
    {
        assert(views.take(i as int + 1).drop_last() =~= views.take(i as int));
        assert(views.take(i as int + 1).last() == parts@[i as int]@);
        match &parts[i] {
            PathPart::Normal(name) => {
                let ghost before = names.deep_view();
                names.push(name.clone());
                assert(names.deep_view() =~= before.push(name@));
            },
            PathPart::CurDir => {},
            _ => {
                assert(views.take(i as int + 1)[i as int] == parts@[i as int]@);
                assert(escapes(views.take(i as int + 1)));
                assert(escapes(views)) by {
                    assert(views[i as int] == views.take(i as int + 1)[i as int]);
                }
                return None;
            },
        }
        assert(!escapes(views.take(i as int + 1))) by {
            if escapes(views.take(i as int + 1)) {
                let j = choose|j: int|
                    0 <= j < views.take(i as int + 1).len() && (
                    #[trigger] views.take(i as int + 1)[j] is RootDir || views.take(i as int + 1)[j] is ParentDir
                        || views.take(i as int + 1)[j] is Prefix);
                if j < i {
                    assert(views.take(i as int)[j] == views.take(i as int + 1)[j]);
                }
            }
        }
    }
    assert(views.take(parts.len() as int) =~= views);
    if names.len() == 0 {
        None
    } else {
        Some(names)
    }
}

/// Reduces a request path to the plain names it holds (see
/// `normalize_components`), splitting it as `std::path::Path` does.
pub fn normalize(path: &str) -> (res: Option<Vec<String>>)
    ensures
        res.deep_view() == normalized(unix_path_components(path@)),
        res matches Some(names) ==> forall|i: int|
            0 <= i < names.len() ==> is_component_name(#[trigger] names.deep_view()[i]),
{
    let parts = path_components(path);
    proof {
        lemma_unix_components_are_names(path@);
        lemma_normal_names_are_names(part_views(parts@));
    }
    normalize_components(&parts)
}

/// Identifies one record of a record store.
pub type RecordId = u32;

/// Where the file `path` of app `aid` lives below `base`, if the app id and
/// the path are usable: `<base>/<app id>/fs/<names of path>`.
pub open spec fn filesystem_path(base: StoragePathView, aid: Seq<char>, path: Seq<char>) -> Option<
    StoragePathView,
> {
    match (sanitized_aid(aid), normalized(unix_path_components(path))) {
        (Some(app), Some(names)) => Some(base.join(app).join("fs"@).join_all(names)),
        _ => None,
    }
}

/// The files apps keep, each below its own directory.
pub struct AndroidFilesystem {
    base_path: StoragePath,
}

impl AndroidFilesystem {
    /// The directory that holds every app's files.
    pub closed spec fn base(&self) -> StoragePathView {
        self.base_path@
    }

    pub fn new(base_path: StoragePath) -> (fs: Self)
        ensures
            fs.base() == base_path@,
    {
        AndroidFilesystem { base_path }
    }

    /// Where the file `path` of app `aid` is kept; `None` when the app id has
    /// no usable name or the path escapes or names nothing.
    pub fn path_for(&self, aid: &str, path: &str) -> (res: Option<StoragePath>)
        ensures
            res.deep_view() == filesystem_path(self.base(), aid@, path@),
            res matches Some(p) ==> stays_below(p@, self.base()),
    {
        let app = match sanitize_aid(aid) {
            Some(app) => app,
            None => return None,
        };
        let names = match normalize(path) {
            Some(names) => names,
            None => return None,
        };
        let p = self.base_path.joined(app.as_str()).joined("fs").joined_all(&names);
        proof {
            lemma_sanitized_aid_is_single_name(aid@);
            lemma_placeholder_is_name();
            lemma_stays_below(self.base(), app@, "fs"@, names.deep_view(), p@);
        }
        Some(p)
    }
}

/// Where record store `name` of app `app_id` lives below `base`:
/// `<base>/<app id>/db/<names of name>`, with `_` standing for an app id
/// or a store name that has no usable form.
pub open spec fn database_path(base: StoragePathView, name: Seq<char>, app_id: Seq<char>) -> StoragePathView {
    let app = match sanitized_aid(app_id) {
        Some(app) => app,
        None => "_"@,
    };
    let names = match normalized(unix_path_components(name)) {
        Some(names) => names,
        None => seq!["_"@],
    };
    base.join(app).join("db"@).join_all(names)
}

/// The record stores apps keep, each below its own directory.
pub struct AndroidDatabaseRepository {
    base_path: StoragePath,
}

impl AndroidDatabaseRepository {
    /// The directory that holds every app's record stores.
    pub closed spec fn base(&self) -> StoragePathView {
        self.base_path@
    }

    pub fn new(base_path: StoragePath) -> (repo: Self)
        ensures
            repo.base() == base_path@,
    {
        AndroidDatabaseRepository { base_path }
    }

    /// The directory of record store `name` of app `app_id`.
    pub fn get_path_for_database(&self, name: &str, app_id: &str) -> (p: StoragePath)
        ensures
            p@ == database_path(self.base(), name@, app_id@),
            stays_below(p@, self.base()),
    {
        let app = match sanitize_aid(app_id) {
            Some(app) => app,
            None => String::from_str("_"),
        };
        let names = match normalize(name) {
            Some(names) => names,
            None => {
                let mut v: Vec<String> = Vec::new();
                v.push(String::from_str("_"));
                proof {
                    assert(v.deep_view() =~= seq!["_"@]);
                }
                v
            },
        };
        let p = self.base_path.joined(app.as_str()).joined("db").joined_all(&names);
        proof {
            lemma_sanitized_aid_is_single_name(app_id@);
            lemma_placeholder_is_name();
            lemma_stays_below(self.base(), app@, "db"@, names.deep_view(), p@);
        }
        p
    }
}

/// The file name a record is stored under: its id in decimal.
pub open spec fn record_file_name(id: RecordId) -> Seq<char> {
    decimal_digits(id as nat)
}

/// Whether `id` is the least record id, from 1 up, that no name in
/// `entries` stands for.
pub open spec fn is_first_free_id(entries: Seq<Seq<char>>, id: RecordId) -> bool {
    &&& id >= 1
    &&& !entries.contains(record_file_name(id))
    &&& forall|k: RecordId| 1 <= k < id ==> entries.contains(#[trigger] record_file_name(k))
}

/// The file name of record `id`.
pub fn record_name(id: RecordId) -> (name: String)
    ensures
        name@ == record_file_name(id),
{
    let mut name = String::new();
    push_decimal(&mut name, id as u128);
    name
}

/// Whether `names` holds a name equal to `name`.
fn contains_name(names: &Vec<String>, name: &String) -> (found: bool)
    ensures
        found == names.deep_view().contains(name@),
{
    for i in 0..names.len()
        invariant
            forall|j: int| 0 <= j < i ==> names.deep_view()[j] != name@,
    {
        if names[i] == *name {
            assert(names.deep_view()[i as int] == name@);
            return true;
        }
    }
    false
}

/// One record store: a directory with one file per record.
pub struct AndroidDatabase {
    base_path: StoragePath,
}

impl AndroidDatabase {
    /// The directory of this record store.
    pub closed spec fn base(&self) -> StoragePathView {
        self.base_path@
    }

    pub fn new(base_path: StoragePath) -> (db: Self)
        ensures
            db.base() == base_path@,
    {
        AndroidDatabase { base_path }
    }

    /// The directory of this record store.
    pub fn base_path(&self) -> (p: &StoragePath)
        ensures
            p@ == self.base(),
    {
        &self.base_path
    }

    /// The file of record `id`.
    pub fn get_path_for_record(&self, id: RecordId) -> (p: StoragePath)
        ensures
            p@ == self.base().join(record_file_name(id)),
            stays_below(p@, self.base()),
    {
        let name = record_name(id);
        let p = self.base_path.joined(name.as_str());
        proof {
            let d = record_file_name(id);
            crate::text::lemma_decimal_digits_shape(id as nat);
            assert(is_digit(d[0]));
            assert forall|i: int| 0 <= i < d.len() implies #[trigger] d[i] != '/' by {
                assert(is_digit(d[i]));
            }
            assert(p@.parts =~= self.base().parts.push(d));
            assert(p@.parts.take(self.base().parts.len() as int) =~= self.base().parts);
            assert(p@.parts[self.base().parts.len() as int] == d);
        }
        p
    }

    /// The least record id, from 1 up (the first record of a store is 1),
    /// that no entry of the store's directory is named after.
    pub fn find_empty_record_id(&self, entries: &Vec<String>) -> (id: RecordId)
        requires
            entries.len() < u32::MAX,
        ensures
            is_first_free_id(entries.deep_view(), id),
    {
        let ghost names = entries.deep_view();
        let ghost mut seen: Set<Seq<char>> = Set::empty();
        let mut id: RecordId = 1;
        loop
            invariant
                names == entries.deep_view(),
                entries.len() < u32::MAX,
                1 <= id,
                seen.finite(),
                seen.len() == id - 1,
                seen.subset_of(names.to_set()),
                forall|k: RecordId| 1 <= k < id ==> names.contains(#[trigger] record_file_name(k)),
                forall|s: Seq<char>|
                    #[trigger] seen.contains(s) ==> exists|k: RecordId| 1 <= k < id && s == record_file_name(k),
            decreases u32::MAX - id,
        {
            let candidate = record_name(id);
            if !contains_name(entries, &candidate) {
                return id;
            }
            proof {
                let fresh = record_file_name(id);
                if seen.contains(fresh) {
                    let k = choose|k: RecordId| 1 <= k < id && fresh == record_file_name(k);
                    lemma_decimal_digits_injective(k as nat, id as nat);
                }
                assert(names.to_set().contains(fresh));
                let grown = seen.insert(fresh);
                names.lemma_cardinality_of_set();
                vstd::set_lib::lemma_len_subset(grown, names.to_set());
                assert(grown.len() == id);
                assert forall|s: Seq<char>| #[trigger] grown.contains(s) implies exists|k: RecordId|
                    1 <= k < id + 1 && s == record_file_name(k) by {
                    if s != fresh {
                        assert(seen.contains(s));
                    }
                }
                seen = grown;
            }
            id = id + 1;
        }
    }

    /// The ids of the records whose file names are `file_names`, in the same
    /// order; `None` when some name is not a number.
    pub fn record_ids_from_names(file_names: &Vec<String>) -> (res: Option<Vec<RecordId>>)
        ensures
            match res {
                Some(ids) => {
                    &&& ids.len() == file_names.len()
                    &&& forall|i: int| 0 <= i < ids.len() ==>
                        parse_u32_chars(#[trigger] file_names@[i]@) == Some(ids@[i])
                },
                None => exists|i: int| 0 <= i < file_names.len() &&
                    parse_u32_chars(#[trigger] file_names@[i]@) is None,
            },
    {
        let mut ids: Vec<RecordId> = Vec::new();
        for i in 0..file_names.len()
            invariant
                ids.len() == i,
                forall|j: int| 0 <= j < i ==> parse_u32_chars(#[trigger] file_names@[j]@) == Some(ids@[j]),
        {
            match parse_u32(file_names[i].as_str()) {
                Some(id) => ids.push(id),
                None => return None,
            }
        }
        Some(ids)
    }
}

proof fn lemma_strip_separators(s: Seq<char>)
    ensures
        forall|i: int| 0 <= i < strip_separators(s).len() ==> !is_separator_char(
            #[trigger] strip_separators(s)[i],
        ),
    decreases s.len(),
{
    if s.len() > 0 {
        lemma_strip_separators(s.drop_last());
        let r = strip_separators(s.drop_last());
        if !is_separator_char(s.last()) {
            assert forall|i: int| 0 <= i < r.push(s.last()).len() implies !is_separator_char(
                #[trigger] r.push(s.last())[i],
            ) by {
                if i < r.len() {
                    assert(r.push(s.last())[i] == r[i]);
                }
            }
        }
    }
}

/// The directory name of an app id is one directory level: not empty, not
/// `.` or `..`, and free of separators.
pub proof fn lemma_sanitized_aid_is_single_name(aid: Seq<char>)
    ensures
        sanitized_aid(aid) matches Some(name) ==> is_single_name(name),
{
    lemma_strip_separators(aid);
}

/// An app's files stay in its own directory: the path of a file is the base
/// directory, then the app's single-name directory, then `fs`, then the
/// plain names of the requested path, and none is given for a path with a
/// root, a prefix or `..` in it.
pub proof fn lemma_filesystem_path_in_app_dir(base: StoragePathView, aid: Seq<char>, path: Seq<char>)
    ensures
        filesystem_path(base, aid, path) matches Some(p) ==> {
            let n = base.parts.len() as int;
            &&& p.root == base.root
            &&& p.parts.take(n) == base.parts
            &&& sanitized_aid(aid) == Some(p.parts[n])
            &&& is_single_name(p.parts[n])
            &&& p.parts[n + 1] == "fs"@
            &&& p.parts.skip(n + 2) == normal_names(unix_path_components(path))
        },
        escapes(unix_path_components(path)) ==> filesystem_path(base, aid, path) is None,
{
    lemma_sanitized_aid_is_single_name(aid);
    if let Some(p) = filesystem_path(base, aid, path) {
        let n = base.parts.len() as int;
        assert(p.parts.take(n) =~= base.parts);
        assert(p.parts.skip(n + 2) =~= normal_names(unix_path_components(path)));
    }
}

/// An app's record stores stay in its own directory: the base directory,
/// then a single name for the app (`_` when its id has none), then `db`.
pub proof fn lemma_database_path_in_app_dir(base: StoragePathView, name: Seq<char>, app_id: Seq<char>)
    ensures
        ({
            let p = database_path(base, name, app_id);
            let n = base.parts.len() as int;
            &&& p.root == base.root
            &&& p.parts.take(n) == base.parts
            &&& is_single_name(p.parts[n])
            &&& p.parts[n + 1] == "db"@
            &&& p.parts.len() > n + 2
        }),
{
    reveal_strlit("_");
    lemma_sanitized_aid_is_single_name(app_id);
    let p = database_path(base, name, app_id);
    let n = base.parts.len() as int;
    assert(p.parts.take(n) =~= base.parts);
    if sanitized_aid(app_id) is None {
        assert(p.parts[n] == "_"@);
        assert("_"@ != seq!['.']) by {
            assert("_"@[0] != seq!['.'][0]);
        }
        assert("_"@ != seq!['.', '.']);
    }
}

/// Reading back the file name a record is stored under gives its id, and
/// different records are stored under different names.
pub proof fn lemma_record_names(id: RecordId, other: RecordId)
    ensures
        parse_u32_chars(record_file_name(id)) == Some(id),
        id != other ==> record_file_name(id) != record_file_name(other),
{
    lemma_parse_decimal_round_trip(id);
    if record_file_name(id) == record_file_name(other) {
        lemma_decimal_digits_injective(id as nat, other as nat);
    }
}

/// The normal components of `parts` give only component names when each of
/// them is one.
pub proof fn lemma_normal_names_are_names(parts: Seq<PathPartView>)
    requires
        normal_parts_are_names(parts),
    ensures
        forall|i: int|
            0 <= i < normal_names(parts).len() ==> is_component_name(#[trigger] normal_names(parts)[i]),
    decreases parts.len(),
{
    if parts.len() > 0 {
        let rest = parts.drop_last();
        assert(normal_parts_are_names(rest)) by {
            assert forall|i: int| 0 <= i < rest.len() implies (#[trigger] rest[i] matches PathPartView::Normal(
                name,
            ) ==> is_component_name(name)) by {
                assert(rest[i] == parts[i]);
            }
        }
        lemma_normal_names_are_names(rest);
        let rest_names = normal_names(rest);
        assert(parts[parts.len() - 1] == parts.last());
        if let PathPartView::Normal(name) = parts.last() {
            assert(is_component_name(name));
            assert forall|i: int| 0 <= i < rest_names.push(name).len() implies is_component_name(
                #[trigger] rest_names.push(name)[i],
            ) by {
                if i < rest_names.len() {
                    assert(rest_names.push(name)[i] == rest_names[i]);
                }
            }
        }
    }
}

proof fn lemma_single_name_is_component_name(s: Seq<char>)
    requires
        is_single_name(s),
    ensures
        is_component_name(s),
{
    assert forall|i: int| 0 <= i < s.len() implies #[trigger] s[i] != '/' by {
        assert(!is_separator_char(s[i]));
    }
}

proof fn lemma_placeholder_is_name()
    ensures
        is_single_name("_"@),
        is_component_name("_"@),
        is_component_name("fs"@),
        is_component_name("db"@),
        seq!["_"@].len() == 1,
        is_component_name(seq!["_"@][0]),
{
    reveal_strlit("_");
    reveal_strlit("fs");
    reveal_strlit("db");
    assert("_"@ != seq!['.']) by {
        assert("_"@[0] != seq!['.'][0]);
    }
    assert("_"@ != seq!['.', '.']);
    assert("fs"@ != seq!['.']) by {
        assert("fs"@[0] != seq!['.'][0]);
    }
    assert("fs"@ != seq!['.', '.']) by {
        assert("fs"@[0] != seq!['.', '.'][0]);
    }
    assert("db"@ != seq!['.']) by {
        assert("db"@[0] != seq!['.'][0]);
    }
    assert("db"@ != seq!['.', '.']) by {
        assert("db"@[0] != seq!['.', '.'][0]);
    }
    lemma_single_name_is_component_name("_"@);
}

proof fn lemma_stays_below(
    base: StoragePathView,
    app: Seq<char>,
    kind: Seq<char>,
    names: Seq<Seq<char>>,
    p: StoragePathView,
)
    requires
        p == base.join(app).join(kind).join_all(names),
        is_single_name(app),
        is_component_name(kind),
        forall|i: int| 0 <= i < names.len() ==> is_component_name(#[trigger] names[i]),
    ensures
        stays_below(p, base),
{
    lemma_single_name_is_component_name(app);
    let n = base.parts.len() as int;
    assert(p.parts =~= base.parts + seq![app] + seq![kind] + names);
    assert(p.parts.take(n) =~= base.parts);
    assert forall|k: int| n <= k < p.parts.len() implies is_component_name(#[trigger] p.parts[k]) by {
        if k == n {
            assert(p.parts[k] == app);
        } else if k == n + 1 {
            assert(p.parts[k] == kind);
        } else {
            assert(p.parts[k] == names[k - n - 2]);
        }
    }
}

/// Two searches over the same directory listing give the same record id.
pub proof fn lemma_first_free_id_unique(entries: Seq<Seq<char>>, a: RecordId, b: RecordId)
    requires
        is_first_free_id(entries, a),
        is_first_free_id(entries, b),
    ensures
        a == b,
{
}

/// Once a record is added under the id a search gave, its name reads back
/// as that id, and the next search over the grown listing gives a later id.
pub proof fn lemma_next_id_after_add(entries: Seq<Seq<char>>, r: RecordId, next: RecordId)
    requires
        is_first_free_id(entries, r),
        is_first_free_id(entries.push(record_file_name(r)), next),
    ensures
        parse_u32_chars(record_file_name(r)) == Some(r),
        next > r,
{
    lemma_record_names(r, r);
    let grown = entries.push(record_file_name(r));
    assert(grown[entries.len() as int] == record_file_name(r));
    if next <= r {
        if next < r {
            assert(entries.contains(record_file_name(next)));
            let j = choose|j: int| 0 <= j < entries.len() && entries[j] == record_file_name(next);
            assert(grown[j] == entries[j]);
        }
        assert(grown.contains(record_file_name(next)));
    }
}

/// Once the file of record `d` is gone from the listing (the record was
/// deleted), the next search gives `d` or a smaller id.
pub proof fn lemma_next_id_after_delete(after: Seq<Seq<char>>, d: RecordId, next: RecordId)
    requires
        d >= 1,
        !after.contains(record_file_name(d)),
        is_first_free_id(after, next),
    ensures
        next <= d,
{
}

/// Removing separators works character by character: a separator goes, any
/// other character stays, and the pieces of a string are cleaned apart.
pub proof fn lemma_strip_separators_by_char(a: Seq<char>, b: Seq<char>, c: char)
    ensures
        strip_separators(a + b) == strip_separators(a) + strip_separators(b),
        (c == '/' || c == '\\' || c == '\0') ==> strip_separators(seq![c]) == Seq::<char>::empty(),
        !(c == '/' || c == '\\' || c == '\0') ==> strip_separators(seq![c]) == seq![c],
    decreases b.len(),
{
    assert(seq![c].drop_last() =~= Seq::<char>::empty());
    if b.len() > 0 {
        lemma_strip_separators_by_char(a, b.drop_last(), c);
        assert((a + b).drop_last() =~= a + b.drop_last());
        assert((a + b).last() == b.last());
    } else {
        assert(a + b =~= a);
        assert(strip_separators(b) =~= Seq::<char>::empty());
    }
}

/// An id without separators is stored under itself, whatever else it holds
/// (spaces, dots, any letters), unless it is empty, `.` or `..`.
pub proof fn lemma_plain_aid_is_kept(aid: Seq<char>)
    requires
        forall|i: int| 0 <= i < aid.len() ==> !(#[trigger] aid[i] == '/' || aid[i] == '\\' || aid[i] == '\0'),
        aid.len() > 0,
        aid != seq!['.'],
        aid != seq!['.', '.'],
    ensures
        sanitized_aid(aid) == Some(aid),
    decreases aid.len(),
{
    lemma_strip_keeps_plain(aid);
}

proof fn lemma_strip_keeps_plain(aid: Seq<char>)
    requires
        forall|i: int| 0 <= i < aid.len() ==> !(#[trigger] aid[i] == '/' || aid[i] == '\\' || aid[i] == '\0'),
    ensures
        strip_separators(aid) == aid,
    decreases aid.len(),
{
    if aid.len() > 0 {
        let rest = aid.drop_last();
        assert forall|i: int| 0 <= i < rest.len() implies !(#[trigger] rest[i] == '/' || rest[i] == '\\' || rest[i]
            == '\0') by {
            assert(rest[i] == aid[i]);
        }
        lemma_strip_keeps_plain(rest);
        assert(aid[aid.len() - 1] == aid.last());
        assert(rest.push(aid.last()) =~= aid);
    }
}

/// An id is refused only when nothing but `.`, `..` or nothing is left once
/// its separators are removed; otherwise it is stored under exactly what is
/// left.
pub proof fn lemma_aid_refused_only_when_unusable(aid: Seq<char>)
    ensures
        sanitized_aid(aid) is None <==> (strip_separators(aid).len() == 0 || strip_separators(aid) == seq!['.']
            || strip_separators(aid) == seq!['.', '.']),
        sanitized_aid(aid) is Some ==> sanitized_aid(aid) == Some(strip_separators(aid)),
{
}

/// Every request with a usable app id and a path that reduces to names is
/// given a location: the base, the app's directory, `fs`, then exactly those
/// names in order, however many there are.
pub proof fn lemma_usable_request_is_placed(base: StoragePathView, aid: Seq<char>, path: Seq<char>)
    requires
        sanitized_aid(aid) is Some,
        normalized(unix_path_components(path)) is Some,
    ensures
        filesystem_path(base, aid, path) is Some,
        ({
            let p = filesystem_path(base, aid, path).unwrap();
            let names = normalized(unix_path_components(path)).unwrap();
            &&& p.root == base.root
            &&& p.parts == base.parts + seq![sanitized_aid(aid).unwrap(), "fs"@] + names
            &&& p.parts.len() == base.parts.len() + 2 + names.len()
        }),
{
    let p = filesystem_path(base, aid, path).unwrap();
    let names = normalized(unix_path_components(path)).unwrap();
    assert(p.parts =~= base.parts + seq![sanitized_aid(aid).unwrap(), "fs"@] + names);
}

/// A request path reduces to names exactly when no component escapes and at
/// least one name is left, and then to all its names in order.
pub proof fn lemma_normalized_when(parts: Seq<PathPartView>)
    ensures
        normalized(parts) is Some <==> (!escapes(parts) && normal_names(parts).len() > 0),
        normalized(parts) is Some ==> normalized(parts) == Some(normal_names(parts)),
{
}

/// Every record store gets a location: the base, the app's directory (`_`
/// for an unusable id), `db`, then the store name's names (`_` for an
/// unusable name).
pub proof fn lemma_database_path_parts(base: StoragePathView, name: Seq<char>, app_id: Seq<char>)
    ensures
        ({
            let app = if sanitized_aid(app_id) is Some { sanitized_aid(app_id).unwrap() } else { "_"@ };
            let names = if normalized(unix_path_components(name)) is Some {
                normalized(unix_path_components(name)).unwrap()
            } else {
                seq!["_"@]
            };
            &&& database_path(base, name, app_id).root == base.root
            &&& database_path(base, name, app_id).parts == base.parts + seq![app, "db"@] + names
        }),
{
    let app = if sanitized_aid(app_id) is Some { sanitized_aid(app_id).unwrap() } else { "_"@ };
    let names = if normalized(unix_path_components(name)) is Some {
        normalized(unix_path_components(name)).unwrap()
    } else {
        seq!["_"@]
    };
    assert(database_path(base, name, app_id).parts =~= base.parts + seq![app, "db"@] + names);
}

/// The names of a path are gathered piece by piece, in order: a name
/// component gives its name, any other component none.
pub proof fn lemma_normal_names_by_part(a: Seq<PathPartView>, b: Seq<PathPartView>, name: Seq<char>)
    ensures
        normal_names(a + b) == normal_names(a) + normal_names(b),
        normal_names(seq![PathPartView::Normal(name)]) == seq![name],
        normal_names(seq![PathPartView::CurDir]) == Seq::<Seq<char>>::empty(),
        normal_names(seq![PathPartView::ParentDir]) == Seq::<Seq<char>>::empty(),
    decreases b.len(),
{
    assert(seq![PathPartView::Normal(name)].drop_last() =~= Seq::<PathPartView>::empty());
    assert(seq![PathPartView::CurDir].drop_last() =~= Seq::<PathPartView>::empty());
    assert(seq![PathPartView::ParentDir].drop_last() =~= Seq::<PathPartView>::empty());
    assert(normal_names(Seq::<PathPartView>::empty()) =~= Seq::<Seq<char>>::empty());
    assert(seq![PathPartView::Normal(name)].last() == PathPartView::Normal(name));
    assert(seq![PathPartView::CurDir].last() == PathPartView::CurDir);
    assert(seq![PathPartView::ParentDir].last() == PathPartView::ParentDir);
    assert(normal_names(seq![PathPartView::Normal(name)]) =~= seq![name]);
    if b.len() > 0 {
        lemma_normal_names_by_part(a, b.drop_last(), name);
        assert((a + b).drop_last() =~= a + b.drop_last());
        assert((a + b).last() == b.last());
    } else {
        assert(a + b =~= a);
    }
}

} // verus!
